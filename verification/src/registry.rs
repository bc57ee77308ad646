//! The connection registry: the single source of truth for "who is online
//! right now".
//!
//! Each live connection owns at most one entry, keyed by the opaque
//! connection id the transport layer assigned.  An entry caches the owning
//! identity, the video currently being watched, and the set of connections
//! belonging to friends who were online when the identity last announced
//! itself.  The registry never stores a transport handle; delivery happens
//! outside, against the connection ids found here.

use vstd::prelude::*;

verus! {

/// The video a connected client is currently watching.
pub struct WsConnectedClientCurrentVideo {
    pub videoUrl: String,
    pub title: String,
    pub thumbnail_url: String,
    pub timeStampInMilliseconds: i64,
}

/// Mathematical image of [`WsConnectedClientCurrentVideo`].
#[verifier::ext_equal]
pub ghost struct CurrentVideoView {
    pub videoUrl: Seq<char>,
    pub title: Seq<char>,
    pub thumbnail_url: Seq<char>,
    pub timeStampInMilliseconds: i64,
}

impl View for WsConnectedClientCurrentVideo {
    type V = CurrentVideoView;

    open spec fn view(&self) -> CurrentVideoView {
        CurrentVideoView {
            videoUrl: self.videoUrl@,
            title: self.title@,
            thumbnail_url: self.thumbnail_url@,
            timeStampInMilliseconds: self.timeStampInMilliseconds,
        }
    }
}

impl Clone for WsConnectedClientCurrentVideo {
    fn clone(&self) -> (res: Self)
        ensures
            res@ == self@,
    {
        WsConnectedClientCurrentVideo {
            videoUrl: self.videoUrl.clone(),
            title: self.title.clone(),
            thumbnail_url: self.thumbnail_url.clone(),
            timeStampInMilliseconds: self.timeStampInMilliseconds,
        }
    }
}

/// A cached reference to an online friend's connection.
pub struct WsOnlineFriend {
    pub socketId: u32,
    pub googleUserId: String,
}

/// Mathematical image of [`WsOnlineFriend`].
#[verifier::ext_equal]
pub ghost struct OnlineFriendView {
    pub socketId: u32,
    pub googleUserId: Seq<char>,
}

impl View for WsOnlineFriend {
    type V = OnlineFriendView;

    open spec fn view(&self) -> OnlineFriendView {
        OnlineFriendView { socketId: self.socketId, googleUserId: self.googleUserId@ }
    }
}

impl Clone for WsOnlineFriend {
    fn clone(&self) -> (res: Self)
        ensures
            res@ == self@,
    {
        WsOnlineFriend { socketId: self.socketId, googleUserId: self.googleUserId.clone() }
    }
}

/// One registry entry: the presence record of a live connection.
pub struct WsConnectedClientMetadata {
    pub socketId: u32,
    pub googleUserId: String,
    pub currentVideo: Option<WsConnectedClientCurrentVideo>,
    pub onlineFriends: Vec<WsOnlineFriend>,
}

/// Mathematical image of [`WsConnectedClientMetadata`].
#[verifier::ext_equal]
pub ghost struct ClientMetadataView {
    pub socketId: u32,
    pub googleUserId: Seq<char>,
    pub currentVideo: Option<CurrentVideoView>,
    pub onlineFriends: Seq<OnlineFriendView>,
}

impl View for WsConnectedClientMetadata {
    type V = ClientMetadataView;

    open spec fn view(&self) -> ClientMetadataView {
        ClientMetadataView {
            socketId: self.socketId,
            googleUserId: self.googleUserId@,
            currentVideo: match self.currentVideo {
                Some(v) => Some(v@),
                None => None,
            },
            onlineFriends: self.onlineFriends@.map_values(|f: WsOnlineFriend| f@),
        }
    }
}

impl Clone for WsConnectedClientMetadata {
    fn clone(&self) -> (res: Self)
        ensures
            res@ == self@,
    {
        let mut friends: Vec<WsOnlineFriend> = Vec::new();
        let mut i: usize = 0;
        while i < self.onlineFriends.len()
            invariant
                i <= self.onlineFriends.len(),
                friends@.len() == i,
                forall|j: int| 0 <= j < i ==> friends@[j]@ == self.onlineFriends@[j]@,
            decreases self.onlineFriends.len() - i,
        {
            friends.push(self.onlineFriends[i].clone());
            i = i + 1;
        }
        let cv = match &self.currentVideo {
            Some(v) => Some(v.clone()),
            None => None,
        };
        let res = WsConnectedClientMetadata {
            socketId: self.socketId,
            googleUserId: self.googleUserId.clone(),
            currentVideo: cv,
            onlineFriends: friends,
        };
        proof {
            assert(res@.onlineFriends =~= self@.onlineFriends);
        }
        res
    }
}

/// The images of a sequence of online-friend refs.
pub open spec fn friend_views(v: Seq<WsOnlineFriend>) -> Seq<OnlineFriendView> {
    v.map_values(|f: WsOnlineFriend| f@)
}

/// The images of a sequence of registry entries.
pub open spec fn client_views(v: Seq<WsConnectedClientMetadata>) -> Seq<ClientMetadataView> {
    v.map_values(|e: WsConnectedClientMetadata| e@)
}

/// The position of the entry keyed by `id`, or `-1` when there is none.
pub open spec fn index_of_conn(s: Seq<ClientMetadataView>, id: u32) -> int
    decreases s.len(),
{
    if s.len() == 0 {
        -1
    } else if s[0].socketId == id {
        0
    } else if index_of_conn(s.drop_first(), id) == -1 {
        -1
    } else {
        1 + index_of_conn(s.drop_first(), id)
    }
}

/// The entry keyed by `id`, if the registry holds one.
pub open spec fn lookup_conn(s: Seq<ClientMetadataView>, id: u32) -> Option<ClientMetadataView> {
    let i = index_of_conn(s, id);
    if i == -1 {
        None
    } else {
        Some(s[i])
    }
}

/// The position of the first entry owned by `identity`, or `-1`.
pub open spec fn index_of_identity(s: Seq<ClientMetadataView>, identity: Seq<char>) -> int
    decreases s.len(),
{
    if s.len() == 0 {
        -1
    } else if s[0].googleUserId == identity {
        0
    } else if index_of_identity(s.drop_first(), identity) == -1 {
        -1
    } else {
        1 + index_of_identity(s.drop_first(), identity)
    }
}

/// How many entries are owned by `identity`.
pub open spec fn count_identity(s: Seq<ClientMetadataView>, identity: Seq<char>) -> int
    decreases s.len(),
{
    if s.len() == 0 {
        0
    } else {
        (if s[0].googleUserId == identity {
            1int
        } else {
            0int
        }) + count_identity(s.drop_first(), identity)
    }
}

/// Where `index_of_conn` points: at the first match, or nowhere.
pub proof fn lemma_index_of_conn(s: Seq<ClientMetadataView>, id: u32)
    ensures
        ({
            let i = index_of_conn(s, id);
            &&& i == -1 ==> forall|j: int| 0 <= j < s.len() ==> s[j].socketId != id
            &&& i != -1 ==> 0 <= i < s.len() && s[i].socketId == id && (forall|j: int|
                0 <= j < i ==> s[j].socketId != id)
        }),
    decreases s.len(),
{
    if s.len() > 0 && s[0].socketId != id {
        let t = s.drop_first();
        lemma_index_of_conn(t, id);
        assert(forall|j: int| 0 < j < s.len() ==> s[j] == t[j - 1]);
        if index_of_conn(t, id) == -1 {
            assert forall|j: int| 0 <= j < s.len() implies s[j].socketId != id by {
                if j > 0 {
                    assert(t[j - 1].socketId != id);
                }
            }
        } else {
            let i = index_of_conn(s, id);
            assert(i == 1 + index_of_conn(t, id));
            assert(s[i] == t[i - 1]);
            assert forall|j: int| 0 <= j < i implies s[j].socketId != id by {
                if j > 0 {
                    assert(t[j - 1].socketId != id);
                }
            }
        }
    }
}

/// A first match at `i` pins `index_of_conn` to `i`.
pub proof fn lemma_index_of_conn_at(s: Seq<ClientMetadataView>, id: u32, i: int)
    requires
        0 <= i < s.len(),
        s[i].socketId == id,
        forall|j: int| 0 <= j < i ==> s[j].socketId != id,
    ensures
        index_of_conn(s, id) == i,
    decreases i,
{
    if i > 0 {
        lemma_index_of_conn_at(s.drop_first(), id, i - 1);
    }
}

/// Where `index_of_identity` points: at the first match, or nowhere.
pub proof fn lemma_index_of_identity(s: Seq<ClientMetadataView>, identity: Seq<char>)
    ensures
        ({
            let i = index_of_identity(s, identity);
            &&& i == -1 ==> forall|j: int| 0 <= j < s.len() ==> s[j].googleUserId != identity
            &&& i != -1 ==> 0 <= i < s.len() && s[i].googleUserId == identity && (forall|j: int|
                0 <= j < i ==> s[j].googleUserId != identity)
        }),
    decreases s.len(),
{
    if s.len() > 0 && s[0].googleUserId != identity {
        let t = s.drop_first();
        lemma_index_of_identity(t, identity);
        assert(forall|j: int| 0 < j < s.len() ==> s[j] == t[j - 1]);
        if index_of_identity(t, identity) == -1 {
            assert forall|j: int| 0 <= j < s.len() implies s[j].googleUserId != identity by {
                if j > 0 {
                    assert(t[j - 1].googleUserId != identity);
                }
            }
        } else {
            let i = index_of_identity(s, identity);
            assert(i == 1 + index_of_identity(t, identity));
            assert(s[i] == t[i - 1]);
            assert forall|j: int| 0 <= j < i implies s[j].googleUserId != identity by {
                if j > 0 {
                    assert(t[j - 1].googleUserId != identity);
                }
            }
        }
    }
}

/// The entry a fresh announce creates.
pub open spec fn fresh_entry(
    conn_id: u32,
    identity: Seq<char>,
    friends: Seq<OnlineFriendView>,
) -> ClientMetadataView {
    ClientMetadataView {
        socketId: conn_id,
        googleUserId: identity,
        currentVideo: None,
        onlineFriends: friends,
    }
}

/// `e` with its online-friend refs replaced; identity and watch state stay.
pub open spec fn refresh_refs(
    e: ClientMetadataView,
    friends: Seq<OnlineFriendView>,
) -> ClientMetadataView {
    ClientMetadataView {
        socketId: e.socketId,
        googleUserId: e.googleUserId,
        currentVideo: e.currentVideo,
        onlineFriends: friends,
    }
}

/// `e` with its current watch replaced.
pub open spec fn with_video(e: ClientMetadataView, v: CurrentVideoView) -> ClientMetadataView {
    ClientMetadataView {
        socketId: e.socketId,
        googleUserId: e.googleUserId,
        currentVideo: Some(v),
        onlineFriends: e.onlineFriends,
    }
}

/// What `upsert` does: insert a fresh entry, or refresh the refs of the
/// entry this connection already owns.
pub open spec fn upsert_transition(
    s: Seq<ClientMetadataView>,
    conn_id: u32,
    identity: Seq<char>,
    friends: Seq<OnlineFriendView>,
) -> Seq<ClientMetadataView> {
    let i = index_of_conn(s, conn_id);
    if i == -1 {
        s.push(fresh_entry(conn_id, identity, friends))
    } else {
        s.update(i, refresh_refs(s[i], friends))
    }
}

/// What `remove` does to the entries.
pub open spec fn remove_transition(s: Seq<ClientMetadataView>, conn_id: u32) -> Seq<
    ClientMetadataView,
> {
    let i = index_of_conn(s, conn_id);
    if i == -1 {
        s
    } else {
        s.remove(i)
    }
}

/// What `set_current_watch` does to the entries.
pub open spec fn set_watch_transition(
    s: Seq<ClientMetadataView>,
    conn_id: u32,
    v: CurrentVideoView,
) -> Seq<ClientMetadataView> {
    let i = index_of_conn(s, conn_id);
    if i == -1 {
        s
    } else {
        s.update(i, with_video(s[i], v))
    }
}

/// No two entries share a connection id.
pub open spec fn distinct_socket_ids(s: Seq<ClientMetadataView>) -> bool {
    forall|i: int, j: int| 0 <= i < j < s.len() ==> s[i].socketId != s[j].socketId
}

/// An entry never lists its own connection among its online friends.
pub open spec fn entry_ok(e: ClientMetadataView) -> bool {
    forall|k: int| 0 <= k < e.onlineFriends.len() ==> e.onlineFriends[k].socketId != e.socketId
}

/// Every ref in `friends` points away from connection `id`.
pub open spec fn refs_exclude(friends: Seq<OnlineFriendView>, id: u32) -> bool {
    forall|k: int| 0 <= k < friends.len() ==> friends[k].socketId != id
}

/// The concurrency-safe mapping from connection id to presence entry.
pub struct ConnectionRegistry {
    entries: Vec<WsConnectedClientMetadata>,
}

impl View for ConnectionRegistry {
    type V = Seq<ClientMetadataView>;

    closed spec fn view(&self) -> Seq<ClientMetadataView> {
        client_views(self.entries@)
    }
}

impl ConnectionRegistry {
    /// Entries are keyed uniquely and never list themselves as friends.
    pub open spec fn wf(self) -> bool {
        &&& distinct_socket_ids(self@)
        &&& forall|i: int| 0 <= i < self@.len() ==> entry_ok(self@[i])
    }

    /// An empty registry.
    pub fn new() -> (r: ConnectionRegistry)
        ensures
            r@ == Seq::<ClientMetadataView>::empty(),
            r.wf(),
    {
        let r = ConnectionRegistry { entries: Vec::new() };
        proof {
            assert(r@ =~= Seq::<ClientMetadataView>::empty());
        }
        r
    }

    /// How many connections are live.
    pub fn len(&self) -> (n: usize)
        ensures
            n == self@.len(),
    {
        self.entries.len()
    }

    /// The entry at position `i`, for iteration over a snapshot in place.
    pub fn entry_at(&self, i: usize) -> (e: &WsConnectedClientMetadata)
        requires
            i < self@.len(),
        ensures
            e@ == self@[i as int],
    {
        &self.entries[i]
    }

    /// The position of the entry keyed by `connectionId`, if any.
    fn find_index(&self, connectionId: u32) -> (r: Option<usize>)
        ensures
            match r {
                Some(i) => i == index_of_conn(self@, connectionId),
                None => index_of_conn(self@, connectionId) == -1,
            },
    {
        let n = self.entries.len();
        let mut i: usize = 0;
        while i < n
            invariant_except_break
                n == self@.len(),
                i <= n,
                forall|j: int| 0 <= j < i ==> self@[j].socketId != connectionId,
            ensures
                i <= n,
                n == self@.len(),
                i < n ==> self@[i as int].socketId == connectionId && (forall|j: int|
                    0 <= j < i ==> self@[j].socketId != connectionId),
                i == n ==> forall|j: int| 0 <= j < n ==> self@[j].socketId != connectionId,
            decreases n - i,
        {
            if self.entries[i].socketId == connectionId {
                break ;
            }
            i = i + 1;
        }
        if i < n {
            proof {
                lemma_index_of_conn_at(self@, connectionId, i as int);
            }
            Some(i)
        } else {
            proof {
                lemma_index_of_conn(self@, connectionId);
                if index_of_conn(self@, connectionId) != -1 {
                    assert(false);
                }
            }
            None
        }
    }

    /// The entry for this exact connection, if it is live.
    pub fn get(&self, connectionId: u32) -> (r: Option<&WsConnectedClientMetadata>)
        ensures
            match r {
                Some(e) => lookup_conn(self@, connectionId) == Some(e@),
                None => lookup_conn(self@, connectionId) is None,
            },
    {
        match self.find_index(connectionId) {
            Some(i) => {
                proof {
                    lemma_index_of_conn(self@, connectionId);
                }
                Some(&self.entries[i])
            },
            None => None,
        }
    }

    /// The first entry owned by `identity`; used only to detect "already
    /// connected".
    pub fn find_by_identity(&self, identity: &String) -> (r: Option<&WsConnectedClientMetadata>)
        ensures
            match r {
                Some(e) => {
                    let i = index_of_identity(self@, identity@);
                    i != -1 && e@ == self@[i]
                },
                None => index_of_identity(self@, identity@) == -1,
            },
    {
        let n = self.entries.len();
        let mut i: usize = 0;
        while i < n
            invariant_except_break
                n == self@.len(),
                i <= n,
                forall|j: int| 0 <= j < i ==> self@[j].googleUserId != identity@,
            ensures
                i <= n,
                n == self@.len(),
                i < n ==> self@[i as int].googleUserId == identity@ && (forall|j: int|
                    0 <= j < i ==> self@[j].googleUserId != identity@),
                i == n ==> forall|j: int| 0 <= j < n ==> self@[j].googleUserId != identity@,
            decreases n - i,
        {
            if self.entries[i].googleUserId == *identity {
                break ;
            }
            i = i + 1;
        }
        if i < n {
            proof {
                lemma_index_of_identity_at(self@, identity@, i as int);
            }
            Some(&self.entries[i])
        } else {
            proof {
                lemma_index_of_identity(self@, identity@);
                if index_of_identity(self@, identity@) != -1 {
                    assert(false);
                }
            }
            None
        }
    }

    /// Inserts an entry for a connection seen for the first time, or
    /// refreshes the online-friend refs of the entry this connection already
    /// owns; identity and watch state cannot change without a new
    /// connection.
    pub fn upsert(
        &mut self,
        connectionId: u32,
        googleUserId: &String,
        onlineFriends: Vec<WsOnlineFriend>,
    )
        requires
            old(self).wf(),
            refs_exclude(friend_views(onlineFriends@), connectionId),
        ensures
            final(self).wf(),
            final(self)@ == upsert_transition(
                old(self)@,
                connectionId,
                googleUserId@,
                friend_views(onlineFriends@),
            ),
    {
        let ghost fv = friend_views(onlineFriends@);
        proof {
            lemma_index_of_conn(self@, connectionId);
        }
        match self.find_index(connectionId) {
            Some(i) => {
                let old_entry = self.entries.remove(i);
                let new_entry = WsConnectedClientMetadata {
                    socketId: old_entry.socketId,
                    googleUserId: old_entry.googleUserId,
                    currentVideo: old_entry.currentVideo,
                    onlineFriends,
                };
                self.entries.insert(i, new_entry);
                proof {
                    assert(new_entry@.onlineFriends =~= fv);
                    assert(self@ =~= old(self)@.update(
                        index_of_conn(old(self)@, connectionId),
                        refresh_refs(old(self)@[index_of_conn(old(self)@, connectionId)], fv),
                    ));
                }
            },
            None => {
                let new_entry = WsConnectedClientMetadata {
                    socketId: connectionId,
                    googleUserId: googleUserId.clone(),
                    currentVideo: None,
                    onlineFriends,
                };
                self.entries.push(new_entry);
                proof {
                    assert(new_entry@.onlineFriends =~= fv);
                    assert(self@ =~= old(self)@.push(fresh_entry(connectionId, googleUserId@, fv)));
                }
            },
        }
    }

    /// Replaces the current watch of this connection's entry; a no-op when
    /// the connection raced a disconnect.
    pub fn set_current_watch(&mut self, connectionId: u32, watch: WsConnectedClientCurrentVideo)
        requires
            old(self).wf(),
        ensures
            final(self).wf(),
            final(self)@ == set_watch_transition(old(self)@, connectionId, watch@),
    {
        proof {
            lemma_index_of_conn(self@, connectionId);
        }
        match self.find_index(connectionId) {
            Some(i) => {
                let old_entry = self.entries.remove(i);
                let new_entry = WsConnectedClientMetadata {
                    socketId: old_entry.socketId,
                    googleUserId: old_entry.googleUserId,
                    currentVideo: Some(watch),
                    onlineFriends: old_entry.onlineFriends,
                };
                self.entries.insert(i, new_entry);
                proof {
                    assert(new_entry@.onlineFriends =~= old(self)@[i as int].onlineFriends);
                    assert(self@ =~= old(self)@.update(
                        i as int,
                        with_video(old(self)@[i as int], watch@),
                    ));
                }
            },
            None => {
                proof {
                    assert(self@ =~= set_watch_transition(old(self)@, connectionId, watch@));
                }
            },
        }
    }

    /// Removes and returns this connection's entry, so the caller can
    /// broadcast from its prior friend list.
    pub fn remove(&mut self, connectionId: u32) -> (r: Option<WsConnectedClientMetadata>)
        requires
            old(self).wf(),
        ensures
            final(self).wf(),
            final(self)@ == remove_transition(old(self)@, connectionId),
            match r {
                Some(e) => lookup_conn(old(self)@, connectionId) == Some(e@),
                None => lookup_conn(old(self)@, connectionId) is None,
            },
    {
        proof {
            lemma_index_of_conn(self@, connectionId);
        }
        match self.find_index(connectionId) {
            Some(i) => {
                let e = self.entries.remove(i);
                proof {
                    assert(self@ =~= old(self)@.remove(i as int));
                }
                Some(e)
            },
            None => None,
        }
    }

    /// A point-in-time copy of every live entry.
    pub fn snapshot_all(&self) -> (r: Vec<WsConnectedClientMetadata>)
        ensures
            client_views(r@) == self@,
    {
        let n = self.entries.len();
        let mut out: Vec<WsConnectedClientMetadata> = Vec::new();
        let mut i: usize = 0;
        while i < n
            invariant
                n == self@.len(),
                i <= n,
                out@.len() == i,
                forall|j: int| 0 <= j < i ==> out@[j]@ == self@[j],
            decreases n - i,
        {
            out.push(self.entries[i].clone());
            i = i + 1;
        }
        proof {
            assert(client_views(out@) =~= self@);
        }
        out
    }
}

/// A first match at `i` pins `index_of_identity` to `i`.
pub proof fn lemma_index_of_identity_at(s: Seq<ClientMetadataView>, identity: Seq<char>, i: int)
    requires
        0 <= i < s.len(),
        s[i].googleUserId == identity,
        forall|j: int| 0 <= j < i ==> s[j].googleUserId != identity,
    ensures
        index_of_identity(s, identity) == i,
    decreases i,
{
    if i > 0 {
        lemma_index_of_identity_at(s.drop_first(), identity, i - 1);
    }
}

/// Pushing an entry adds its identity to the count.
pub proof fn lemma_count_identity_push(
    s: Seq<ClientMetadataView>,
    e: ClientMetadataView,
    identity: Seq<char>,
)
    ensures
        count_identity(s.push(e), identity) == count_identity(s, identity) + (
        if e.googleUserId == identity {
            1int
        } else {
            0int
        }),
    decreases s.len(),
{
    if s.len() == 0 {
        assert(s.push(e).drop_first() =~= s);
    } else {
        assert(s.push(e).drop_first() =~= s.drop_first().push(e));
        lemma_count_identity_push(s.drop_first(), e, identity);
    }
}

/// Updating an entry without changing its identity keeps the count.
pub proof fn lemma_count_identity_update(
    s: Seq<ClientMetadataView>,
    i: int,
    e: ClientMetadataView,
    identity: Seq<char>,
)
    requires
        0 <= i < s.len(),
        e.googleUserId == s[i].googleUserId,
    ensures
        count_identity(s.update(i, e), identity) == count_identity(s, identity),
    decreases s.len(),
{
    if i == 0 {
        assert(s.update(i, e).drop_first() =~= s.drop_first());
    } else {
        assert(s.update(i, e).drop_first() =~= s.drop_first().update(i - 1, e));
        lemma_count_identity_update(s.drop_first(), i - 1, e, identity);
    }
}

/// Removing a connection leaves no entry behind for it: with unique ids,
/// the one removed row was the only match.
pub proof fn lemma_remove_self_absent(s: Seq<ClientMetadataView>, id: u32)
    requires
        distinct_socket_ids(s),
    ensures
        lookup_conn(remove_transition(s, id), id) is None,
{
    lemma_index_of_conn(s, id);
    let i = index_of_conn(s, id);
    if i != -1 {
        let s2 = s.remove(i);
        s.remove_ensures(i);
        assert forall|j: int| 0 <= j < s2.len() implies s2[j].socketId != id by {
            if j < i {
                assert(s2[j] == s[j]);
            } else {
                assert(s2[j] == s[j + 1]);
                assert(s[i].socketId != s[j + 1].socketId);
            }
        }
        lemma_index_of_conn(s2, id);
        if index_of_conn(s2, id) != -1 {
            assert(false);
        }
    }
}

/// Announcing the same identity twice on one connection, without a
/// disconnect in between, leaves exactly one entry for that identity; the
/// refs of the second announce replace those of the first, and the watch
/// state survives.
pub proof fn lemma_announce_idempotent(
    s: Seq<ClientMetadataView>,
    conn_id: u32,
    identity: Seq<char>,
    f1: Seq<OnlineFriendView>,
    f2: Seq<OnlineFriendView>,
)
    requires
        count_identity(s, identity) == 0,
        index_of_conn(s, conn_id) == -1,
    ensures
        ({
            let s1 = upsert_transition(s, conn_id, identity, f1);
            let s2 = upsert_transition(s1, conn_id, identity, f2);
            &&& count_identity(s2, identity) == 1
            &&& lookup_conn(s2, conn_id) == Some(
                ClientMetadataView {
                    socketId: conn_id,
                    googleUserId: identity,
                    currentVideo: lookup_conn(s1, conn_id).unwrap().currentVideo,
                    onlineFriends: f2,
                },
            )
            &&& s2.len() == s.len() + 1
        }),
{
    let e1 = fresh_entry(conn_id, identity, f1);
    let s1 = upsert_transition(s, conn_id, identity, f1);
    assert(s1 == s.push(e1));
    lemma_count_identity_push(s, e1, identity);
    lemma_index_of_conn(s, conn_id);
    lemma_index_of_conn_at(s1, conn_id, s.len() as int);
    let s2 = upsert_transition(s1, conn_id, identity, f2);
    let e2 = refresh_refs(e1, f2);
    assert(s2 == s1.update(s.len() as int, e2));
    lemma_count_identity_update(s1, s.len() as int, e2, identity);
    lemma_index_of_conn_at(s2, conn_id, s.len() as int);
}

} // verus!
