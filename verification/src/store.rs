//! The identity and friendship store.
//!
//! Four tables — identities, directed friendship edges, videos, and watch
//! events — each keyed by value and written only through idempotent
//! insert-or-update operations, so that reprocessing a message converges to
//! the same state regardless of order.  Row ids are handed out from
//! per-table counters and never reused.

use vstd::prelude::*;
use crate::models::Usermaster;
use crate::models::UsermasterView;
use crate::models::UserFriend;
use crate::models::UserFriendView;
use crate::models::UserFriendEntity;
use crate::models::UserFriendEntityView;
use crate::models::Video;
use crate::models::VideoView;
use crate::models::UserVideo;
use crate::models::UserVideoView;
use crate::models::NewUser;
use crate::models::NewUserFriend;
use crate::models::NewVideo;
use crate::models::NewUserVideo;
use crate::models::join_edge;
use crate::scan::first_match;
use crate::scan::count_matches;
use crate::scan::lemma_first_match;
use crate::scan::lemma_first_match_at;
use crate::scan::lemma_count_matches_push;
use crate::scan::lemma_count_matches_update;
use crate::scan::lemma_count_matches_unique;

verus! {

/// Row ids stay below this bound, so the next id always fits in an `i64`.
pub open spec fn id_limit() -> int {
    0x7fff_ffff_ffff_ffff
}

/// Selects the identity row keyed by `uid`.
pub open spec fn uid_pred(uid: Seq<char>) -> spec_fn(UsermasterView) -> bool {
    |u: UsermasterView| u.uid == uid
}

/// Selects the directed edge from `owner` to `friend`.
pub open spec fn edge_pred(owner: Seq<char>, friend: Seq<char>) -> spec_fn(UserFriendView) -> bool {
    |e: UserFriendView| e.user_google_uid == owner && e.friend_google_uid == friend
}

/// Selects the video row keyed by the canonical content id `ytid`.
pub open spec fn video_pred(ytid: Seq<char>) -> spec_fn(VideoView) -> bool {
    |v: VideoView| v.youtube_video_id == ytid
}

/// Selects the watch event linking `user_id` to `video_id`.
pub open spec fn watch_pred(user_id: int, video_id: int) -> spec_fn(UserVideoView) -> bool {
    |w: UserVideoView| w.user_id == user_id && w.video_id == video_id
}

/// The position of the identity row keyed by `uid`, or `-1`.
pub open spec fn index_of_uid(users: Seq<UsermasterView>, uid: Seq<char>) -> int {
    first_match(users, uid_pred(uid))
}

/// The identity row keyed by `uid`, if there is one.
pub open spec fn find_user(users: Seq<UsermasterView>, uid: Seq<char>) -> Option<UsermasterView> {
    let i = index_of_uid(users, uid);
    if i == -1 {
        None
    } else {
        Some(users[i])
    }
}

/// The position of the directed edge from `owner` to `friend`, or `-1`.
pub open spec fn index_of_edge(
    edges: Seq<UserFriendView>,
    owner: Seq<char>,
    friend: Seq<char>,
) -> int {
    first_match(edges, edge_pred(owner, friend))
}

/// How many directed edges run from `owner` to `friend`.
pub open spec fn count_edges(
    edges: Seq<UserFriendView>,
    owner: Seq<char>,
    friend: Seq<char>,
) -> int {
    count_matches(edges, edge_pred(owner, friend))
}

/// The position of the video row keyed by `ytid`, or `-1`.
pub open spec fn index_of_video(videos: Seq<VideoView>, ytid: Seq<char>) -> int {
    first_match(videos, video_pred(ytid))
}

/// The position of the watch event for `(user_id, video_id)`, or `-1`.
pub open spec fn index_of_watch(watches: Seq<UserVideoView>, user_id: int, video_id: int) -> int {
    first_match(watches, watch_pred(user_id, video_id))
}

/// How many watch events link `user_id` to `video_id`.
pub open spec fn count_watches(watches: Seq<UserVideoView>, user_id: int, video_id: int) -> int {
    count_matches(watches, watch_pred(user_id, video_id))
}

/// Mathematical image of the whole store.
#[verifier::ext_equal]
pub ghost struct StoreView {
    pub users: Seq<UsermasterView>,
    pub userfriends: Seq<UserFriendView>,
    pub videos: Seq<VideoView>,
    pub uservideos: Seq<UserVideoView>,
    pub next_user_id: int,
    pub next_friend_id: int,
    pub next_video_id: int,
    pub next_user_video_id: int,
}

/// `s` with its identity table replaced.
pub open spec fn with_users(
    s: StoreView,
    users: Seq<UsermasterView>,
    next_user_id: int,
) -> StoreView {
    StoreView {
        users: users,
        userfriends: s.userfriends,
        videos: s.videos,
        uservideos: s.uservideos,
        next_user_id: next_user_id,
        next_friend_id: s.next_friend_id,
        next_video_id: s.next_video_id,
        next_user_video_id: s.next_user_video_id,
    }
}

/// `s` with its edge table replaced.
pub open spec fn with_edges(
    s: StoreView,
    userfriends: Seq<UserFriendView>,
    next_friend_id: int,
) -> StoreView {
    StoreView {
        users: s.users,
        userfriends: userfriends,
        videos: s.videos,
        uservideos: s.uservideos,
        next_user_id: s.next_user_id,
        next_friend_id: next_friend_id,
        next_video_id: s.next_video_id,
        next_user_video_id: s.next_user_video_id,
    }
}

/// `s` with its video table replaced.
pub open spec fn with_videos(s: StoreView, videos: Seq<VideoView>, next_video_id: int) -> StoreView {
    StoreView {
        users: s.users,
        userfriends: s.userfriends,
        videos: videos,
        uservideos: s.uservideos,
        next_user_id: s.next_user_id,
        next_friend_id: s.next_friend_id,
        next_video_id: next_video_id,
        next_user_video_id: s.next_user_video_id,
    }
}

/// `s` with its watch table replaced.
pub open spec fn with_watches(
    s: StoreView,
    uservideos: Seq<UserVideoView>,
    next_user_video_id: int,
) -> StoreView {
    StoreView {
        users: s.users,
        userfriends: s.userfriends,
        videos: s.videos,
        uservideos: uservideos,
        next_user_id: s.next_user_id,
        next_friend_id: s.next_friend_id,
        next_video_id: s.next_video_id,
        next_user_video_id: next_user_video_id,
    }
}

/// The store a fresh process starts from.
pub open spec fn empty_store() -> StoreView {
    StoreView {
        users: Seq::empty(),
        userfriends: Seq::empty(),
        videos: Seq::empty(),
        uservideos: Seq::empty(),
        next_user_id: 1,
        next_friend_id: 1,
        next_video_id: 1,
        next_user_video_id: 1,
    }
}

/// Identity rows: fresh bounded ids, one row per user key.
pub open spec fn users_wf(users: Seq<UsermasterView>, next: int) -> bool {
    &&& 1 <= next <= id_limit()
    &&& forall|i: int| 0 <= i < users.len() ==> 0 < (#[trigger] users[i]).id < next
    &&& forall|i: int, j: int| 0 <= i < j < users.len() ==> users[i].uid != users[j].uid
}

/// Edge rows: fresh bounded ids, at most one row per directed pair.
pub open spec fn edges_wf(edges: Seq<UserFriendView>, next: int) -> bool {
    &&& 1 <= next <= id_limit()
    &&& forall|i: int| 0 <= i < edges.len() ==> 0 < (#[trigger] edges[i]).id < next
    &&& forall|i: int, j: int|
        0 <= i < j < edges.len() ==> !(edges[i].user_google_uid == edges[j].user_google_uid
            && edges[i].friend_google_uid == edges[j].friend_google_uid)
}

/// Video rows: fresh bounded ids, one row per canonical content id.
pub open spec fn videos_wf(videos: Seq<VideoView>, next: int) -> bool {
    &&& 1 <= next <= id_limit()
    &&& forall|i: int| 0 <= i < videos.len() ==> 0 < (#[trigger] videos[i]).id < next
    &&& forall|i: int, j: int|
        0 <= i < j < videos.len() ==> videos[i].youtube_video_id != videos[j].youtube_video_id
}

/// Watch rows: fresh bounded ids, at most one row per (user, video) pair.
pub open spec fn watches_wf(watches: Seq<UserVideoView>, next: int) -> bool {
    &&& 1 <= next <= id_limit()
    &&& forall|i: int| 0 <= i < watches.len() ==> 0 < (#[trigger] watches[i]).id < next
    &&& forall|i: int, j: int|
        0 <= i < j < watches.len() ==> !(watches[i].user_id == watches[j].user_id
            && watches[i].video_id == watches[j].video_id)
}

/// Well-formedness of the whole store: every table keeps its keys unique
/// and its ids fresh, and every watch event points at ids the identity and
/// video tables could have handed out.
pub open spec fn store_wf(s: StoreView) -> bool {
    &&& users_wf(s.users, s.next_user_id)
    &&& edges_wf(s.userfriends, s.next_friend_id)
    &&& videos_wf(s.videos, s.next_video_id)
    &&& watches_wf(s.uservideos, s.next_user_video_id)
    &&& forall|k: int|
        0 <= k < s.uservideos.len() ==> 0 < (#[trigger] s.uservideos[k]).user_id < s.next_user_id
            && 0 < s.uservideos[k].video_id < s.next_video_id
}

/// `u` refreshed by a re-announce: display data and `updated_at` move,
/// identity and provenance stay.
pub open spec fn updated_user(
    u: UsermasterView,
    full_name: Seq<char>,
    image_url: Seq<char>,
    now: i64,
) -> UsermasterView {
    UsermasterView {
        id: u.id,
        uid: u.uid,
        provider: u.provider,
        full_name: full_name,
        image_url: image_url,
        created_at: u.created_at,
        updated_at: Some(now),
    }
}

/// A fresh identity row.
pub open spec fn new_user_row(
    id: int,
    uid: Seq<char>,
    provider: Seq<char>,
    full_name: Seq<char>,
    image_url: Seq<char>,
    now: i64,
) -> UsermasterView {
    UsermasterView {
        id: id,
        uid: uid,
        provider: provider,
        full_name: full_name,
        image_url: image_url,
        created_at: now,
        updated_at: None,
    }
}

/// What upserting an identity does: insert a fresh row, or refresh the
/// display data of the row that key already owns.
pub open spec fn upsert_user_transition(
    s: StoreView,
    uid: Seq<char>,
    provider: Seq<char>,
    full_name: Seq<char>,
    image_url: Seq<char>,
    now: i64,
) -> StoreView {
    let i = index_of_uid(s.users, uid);
    if i == -1 {
        with_users(
            s,
            s.users.push(new_user_row(s.next_user_id, uid, provider, full_name, image_url, now)),
            s.next_user_id + 1,
        )
    } else {
        with_users(s, s.users.update(i, updated_user(s.users[i], full_name, image_url, now)), s.next_user_id)
    }
}

/// A fresh directed edge row, not excluded.
pub open spec fn new_edge_row(id: int, owner: Seq<char>, friend: Seq<char>, now: i64) -> UserFriendView {
    UserFriendView {
        id: id,
        user_google_uid: owner,
        friend_google_uid: friend,
        is_friend_excluded: false,
        created_at: now,
        updated_at: None,
    }
}

/// What ensuring a directed edge does: insert it if absent, else nothing.
pub open spec fn ensure_edge_transition(
    s: StoreView,
    owner: Seq<char>,
    friend: Seq<char>,
    now: i64,
) -> StoreView {
    if index_of_edge(s.userfriends, owner, friend) == -1 {
        with_edges(
            s,
            s.userfriends.push(new_edge_row(s.next_friend_id, owner, friend, now)),
            s.next_friend_id + 1,
        )
    } else {
        s
    }
}

/// What a friendship request does: ensure both directed edges exist.
pub open spec fn make_friendship_transition(
    s: StoreView,
    a: Seq<char>,
    b: Seq<char>,
    now: i64,
) -> StoreView {
    ensure_edge_transition(ensure_edge_transition(s, a, b, now), b, a, now)
}

/// `e` with its exclusion flag replaced.
pub open spec fn excluded_edge(e: UserFriendView, exclude: bool) -> UserFriendView {
    UserFriendView {
        id: e.id,
        user_google_uid: e.user_google_uid,
        friend_google_uid: e.friend_google_uid,
        is_friend_excluded: exclude,
        created_at: e.created_at,
        updated_at: e.updated_at,
    }
}

/// What setting an exclusion does: flag the directed edge if it exists,
/// else nothing; the edge itself is never deleted.
pub open spec fn set_exclusion_transition(
    s: StoreView,
    owner: Seq<char>,
    friend: Seq<char>,
    exclude: bool,
) -> StoreView {
    let i = index_of_edge(s.userfriends, owner, friend);
    if i == -1 {
        s
    } else {
        with_edges(s, s.userfriends.update(i, excluded_edge(s.userfriends[i], exclude)), s.next_friend_id)
    }
}

/// A fresh video row.
pub open spec fn new_video_row(
    id: int,
    url: Seq<char>,
    ytid: Seq<char>,
    title: Seq<char>,
    now: i64,
) -> VideoView {
    VideoView {
        id: id,
        video_url: url,
        youtube_video_id: ytid,
        video_title: title,
        created_at: now,
        updated_at: None,
    }
}

/// What ensuring a video does: insert a row for this content id if absent;
/// an existing row keeps its original url and title.
pub open spec fn ensure_video_transition(
    s: StoreView,
    ytid: Seq<char>,
    url: Seq<char>,
    title: Seq<char>,
    now: i64,
) -> StoreView {
    if index_of_video(s.videos, ytid) == -1 {
        with_videos(
            s,
            s.videos.push(new_video_row(s.next_video_id, url, ytid, title, now)),
            s.next_video_id + 1,
        )
    } else {
        s
    }
}

/// The id of the video row keyed by `ytid`; meaningful when the row exists.
pub open spec fn video_id_of(s: StoreView, ytid: Seq<char>) -> int {
    s.videos[index_of_video(s.videos, ytid)].id
}

/// A fresh watch event row.
pub open spec fn new_watch_row(id: int, user_id: int, video_id: int, now: i64) -> UserVideoView {
    UserVideoView { id: id, user_id: user_id, video_id: video_id, created_at: now, updated_at: None }
}

/// What ensuring a watch event does: insert the pair if absent, else
/// nothing.
pub open spec fn ensure_watch_transition(
    s: StoreView,
    user_id: int,
    video_id: int,
    now: i64,
) -> StoreView {
    if index_of_watch(s.uservideos, user_id, video_id) == -1 {
        with_watches(
            s,
            s.uservideos.push(new_watch_row(s.next_user_video_id, user_id, video_id, now)),
            s.next_user_video_id + 1,
        )
    } else {
        s
    }
}

/// The friend edges owned by `uid`, each joined with its friend's identity
/// row, in table order; edges whose friend is not registered are left out.
pub open spec fn list_edges_rec(
    edges: Seq<UserFriendView>,
    users: Seq<UsermasterView>,
    uid: Seq<char>,
) -> Seq<UserFriendEntityView>
    decreases edges.len(),
{
    if edges.len() == 0 {
        Seq::empty()
    } else {
        let rest = list_edges_rec(edges.drop_first(), users, uid);
        if edges[0].user_google_uid == uid && index_of_uid(users, edges[0].friend_google_uid)
            != -1 {
            seq![
                join_edge(edges[0], users[index_of_uid(users, edges[0].friend_google_uid)]),
            ] + rest
        } else {
            rest
        }
    }
}

/// The joined friend listing of `uid` over the whole store.
pub open spec fn list_edges(s: StoreView, uid: Seq<char>) -> Seq<UserFriendEntityView> {
    list_edges_rec(s.userfriends, s.users, uid)
}

/// The images of a sequence of joined edge rows.
pub open spec fn entity_views(v: Seq<UserFriendEntity>) -> Seq<UserFriendEntityView> {
    v.map_values(|e: UserFriendEntity| e@)
}

/// Selects entities whose friend key is `fb`.
pub open spec fn entity_friend_pred(fb: Seq<char>) -> spec_fn(UserFriendEntityView) -> bool {
    |e: UserFriendEntityView| e.friend_google_uid == fb
}

/// What persisting a watch event does: nothing for an unusable URL or an
/// unregistered identity; otherwise the video row is ensured and the watch
/// pair inserted at most once.
pub open spec fn persist_video_watched_transition(
    s: StoreView,
    uid: Seq<char>,
    url: Seq<char>,
    title: Seq<char>,
    now: i64,
) -> StoreView {
    match crate::utils::youtube_id_of(url) {
        None => s,
        Some(ytid) => {
            let iu = index_of_uid(s.users, uid);
            if iu == -1 {
                s
            } else {
                let s1 = ensure_video_transition(s, ytid, url, title, now);
                ensure_watch_transition(s1, s.users[iu].id, video_id_of(s1, ytid), now)
            }
        },
    }
}

/// The in-memory store, written only through its idempotent operations.
pub struct Store {
    users: Vec<Usermaster>,
    userfriends: Vec<UserFriend>,
    videos: Vec<Video>,
    uservideos: Vec<UserVideo>,
    next_user_id: i64,
    next_friend_id: i64,
    next_video_id: i64,
    next_user_video_id: i64,
}

impl View for Store {
    type V = StoreView;

    closed spec fn view(&self) -> StoreView {
        StoreView {
            users: self.users@.map_values(|u: Usermaster| u@),
            userfriends: self.userfriends@.map_values(|e: UserFriend| e@),
            videos: self.videos@.map_values(|v: Video| v@),
            uservideos: self.uservideos@.map_values(|w: UserVideo| w@),
            next_user_id: self.next_user_id as int,
            next_friend_id: self.next_friend_id as int,
            next_video_id: self.next_video_id as int,
            next_user_video_id: self.next_user_video_id as int,
        }
    }
}

impl Store {
    /// An empty store.
    pub fn new() -> (r: Store)
        ensures
            r@ == empty_store(),
            store_wf(r@),
    {
        let r = Store {
            users: Vec::new(),
            userfriends: Vec::new(),
            videos: Vec::new(),
            uservideos: Vec::new(),
            next_user_id: 1,
            next_friend_id: 1,
            next_video_id: 1,
            next_user_video_id: 1,
        };
        proof {
            assert(r@ =~= empty_store());
        }
        r
    }

    /// Whether every id counter can still hand out the ids one message may
    /// need; callers outside verified code test this before a mutating
    /// handler runs.
    pub fn has_capacity(&self) -> (r: bool)
        ensures
            r == (self@.next_user_id < id_limit() && self@.next_friend_id + 1 < id_limit()
                && self@.next_video_id < id_limit() && self@.next_user_video_id < id_limit()),
    {
        self.next_user_id < i64::MAX && self.next_friend_id < i64::MAX - 1 && self.next_video_id
            < i64::MAX && self.next_user_video_id < i64::MAX
    }

    /// The position of the identity row keyed by `uid`, if any.
    fn find_user_index(&self, uid: &String) -> (r: Option<usize>)
        ensures
            match r {
                Some(i) => i as int == index_of_uid(self@.users, uid@) && i < self@.users.len(),
                None => index_of_uid(self@.users, uid@) == -1,
            },
    {
        let n = self.users.len();
        let mut i: usize = 0;
        while i < n
            invariant_except_break
                n == self@.users.len(),
                i <= n,
                forall|j: int| 0 <= j < i ==> self@.users[j].uid != uid@,
            ensures
                i <= n,
                n == self@.users.len(),
                i < n ==> self@.users[i as int].uid == uid@ && (forall|j: int|
                    0 <= j < i ==> self@.users[j].uid != uid@),
                i == n ==> forall|j: int| 0 <= j < n ==> self@.users[j].uid != uid@,
            decreases n - i,
        {
            if self.users[i].uid == *uid {
                break ;
            }
            i = i + 1;
        }
        if i < n {
            proof {
                lemma_first_match_at(self@.users, uid_pred(uid@), i as int);
            }
            Some(i)
        } else {
            proof {
                lemma_first_match(self@.users, uid_pred(uid@));
                if index_of_uid(self@.users, uid@) != -1 {
                    assert(false);
                }
            }
            None
        }
    }

    /// The identity row keyed by `uid`, if one is registered.
    pub fn find_identity(&self, uid: &String) -> (r: Option<&Usermaster>)
        ensures
            match r {
                Some(u) => find_user(self@.users, uid@) == Some(u@),
                None => find_user(self@.users, uid@) is None,
            },
    {
        match self.find_user_index(uid) {
            Some(i) => Some(&self.users[i]),
            None => None,
        }
    }

    /// Inserts the identity if its key is new, else refreshes its display
    /// name, avatar, and update timestamp; the key, provider, and creation
    /// time never change.
    pub fn upsert_identity(
        &mut self,
        uid: &String,
        provider: &String,
        full_name: &String,
        image_url: &String,
        now: i64,
    )
        requires
            store_wf(old(self)@),
            old(self)@.next_user_id < id_limit(),
        ensures
            store_wf(final(self)@),
            final(self)@ == upsert_user_transition(
                old(self)@,
                uid@,
                provider@,
                full_name@,
                image_url@,
                now,
            ),
    {
        match self.find_user_index(uid) {
            Some(i) => {
                let old_row = self.users.remove(i);
                let new_row = Usermaster {
                    id: old_row.id,
                    uid: old_row.uid,
                    provider: old_row.provider,
                    full_name: full_name.clone(),
                    image_url: image_url.clone(),
                    created_at: old_row.created_at,
                    updated_at: Some(now),
                };
                self.users.insert(i, new_row);
                proof {
                    let s0 = old(self)@;
                    let gi = index_of_uid(s0.users, uid@);
                    assert(self@.users =~= s0.users.update(
                        gi,
                        updated_user(s0.users[gi], full_name@, image_url@, now),
                    ));
                    assert(self@ =~= upsert_user_transition(
                        s0,
                        uid@,
                        provider@,
                        full_name@,
                        image_url@,
                        now,
                    ));
                    assert forall|a: int, b: int|
                        0 <= a < b < self@.users.len() implies self@.users[a].uid
                        != self@.users[b].uid by {
                        assert(s0.users[a].uid != s0.users[b].uid);
                    }
                }
            },
            None => {
                let new_user = NewUser {
                    uid: uid.clone(),
                    provider: provider.clone(),
                    full_name: full_name.clone(),
                    image_url: image_url.clone(),
                    created_at: now,
                };
                let new_row = Usermaster {
                    id: self.next_user_id,
                    uid: new_user.uid,
                    provider: new_user.provider,
                    full_name: new_user.full_name,
                    image_url: new_user.image_url,
                    created_at: new_user.created_at,
                    updated_at: None,
                };
                self.users.push(new_row);
                self.next_user_id = self.next_user_id + 1;
                proof {
                    let s0 = old(self)@;
                    assert(self@.users =~= s0.users.push(
                        new_user_row(s0.next_user_id, uid@, provider@, full_name@, image_url@, now),
                    ));
                    assert(self@ =~= upsert_user_transition(
                        s0,
                        uid@,
                        provider@,
                        full_name@,
                        image_url@,
                        now,
                    ));
                    lemma_first_match(s0.users, uid_pred(uid@));
                    assert forall|a: int, b: int|
                        0 <= a < b < self@.users.len() implies self@.users[a].uid
                        != self@.users[b].uid by {
                        if b < s0.users.len() {
                            assert(s0.users[a].uid != s0.users[b].uid);
                        } else {
                            assert(!uid_pred(uid@)(s0.users[a]));
                        }
                    }
                }
            },
        }
    }
    /// The position of the directed edge from `owner` to `friend`, if any.
    fn find_edge_index(&self, owner: &String, friend: &String) -> (r: Option<usize>)
        ensures
            match r {
                Some(i) => i as int == index_of_edge(self@.userfriends, owner@, friend@) && i
                    < self@.userfriends.len(),
                None => index_of_edge(self@.userfriends, owner@, friend@) == -1,
            },
    {
        let n = self.userfriends.len();
        let mut i: usize = 0;
        while i < n
            invariant_except_break
                n == self@.userfriends.len(),
                i <= n,
                forall|j: int|
                    0 <= j < i ==> !((#[trigger] self@.userfriends[j]).user_google_uid == owner@
                        && self@.userfriends[j].friend_google_uid == friend@),
            ensures
                i <= n,
                n == self@.userfriends.len(),
                i < n ==> self@.userfriends[i as int].user_google_uid == owner@
                    && self@.userfriends[i as int].friend_google_uid == friend@ && (forall|j: int|
                    0 <= j < i ==> !((#[trigger] self@.userfriends[j]).user_google_uid == owner@
                        && self@.userfriends[j].friend_google_uid == friend@)),
                i == n ==> forall|j: int|
                    0 <= j < n ==> !((#[trigger] self@.userfriends[j]).user_google_uid == owner@
                        && self@.userfriends[j].friend_google_uid == friend@),
            decreases n - i,
        {
            if self.userfriends[i].user_google_uid == *owner && self.userfriends[i].friend_google_uid
                == *friend {
                break ;
            }
            i = i + 1;
        }
        if i < n {
            proof {
                lemma_first_match_at(self@.userfriends, edge_pred(owner@, friend@), i as int);
            }
            Some(i)
        } else {
            proof {
                lemma_first_match(self@.userfriends, edge_pred(owner@, friend@));
                if index_of_edge(self@.userfriends, owner@, friend@) != -1 {
                    assert(false);
                }
            }
            None
        }
    }

    /// Ensures the directed edge from `owner` to `friend` exists, not
    /// excluded when fresh; reports whether a row was created.
    pub fn ensure_friendship_edge(&mut self, owner: &String, friend: &String, now: i64) -> (created:
        bool)
        requires
            store_wf(old(self)@),
            old(self)@.next_friend_id < id_limit(),
        ensures
            store_wf(final(self)@),
            final(self)@ == ensure_edge_transition(old(self)@, owner@, friend@, now),
            created == (index_of_edge(old(self)@.userfriends, owner@, friend@) == -1),
    {
        match self.find_edge_index(owner, friend) {
            Some(_) => false,
            None => {
                let new_friend = NewUserFriend {
                    user_google_uid: owner.clone(),
                    friend_google_uid: friend.clone(),
                    is_friend_excluded: false,
                    created_at: now,
                };
                let new_row = UserFriend {
                    id: self.next_friend_id,
                    user_google_uid: new_friend.user_google_uid,
                    friend_google_uid: new_friend.friend_google_uid,
                    is_friend_excluded: new_friend.is_friend_excluded,
                    created_at: new_friend.created_at,
                    updated_at: None,
                };
                self.userfriends.push(new_row);
                self.next_friend_id = self.next_friend_id + 1;
                proof {
                    let s0 = old(self)@;
                    assert(self@.userfriends =~= s0.userfriends.push(
                        new_edge_row(s0.next_friend_id, owner@, friend@, now),
                    ));
                    assert(self@ =~= ensure_edge_transition(s0, owner@, friend@, now));
                    lemma_first_match(s0.userfriends, edge_pred(owner@, friend@));
                    assert forall|a: int, b: int|
                        0 <= a < b < self@.userfriends.len() implies !((
                        #[trigger] self@.userfriends[a]).user_google_uid
                        == (#[trigger] self@.userfriends[b]).user_google_uid
                        && self@.userfriends[a].friend_google_uid
                        == self@.userfriends[b].friend_google_uid) by {
                        if b < s0.userfriends.len() {
                            assert(!(s0.userfriends[a].user_google_uid
                                == s0.userfriends[b].user_google_uid
                                && s0.userfriends[a].friend_google_uid
                                == s0.userfriends[b].friend_google_uid));
                        } else {
                            assert(!edge_pred(owner@, friend@)(s0.userfriends[a]));
                        }
                    }
                }
                true
            },
        }
    }

    /// Replaces the exclusion flag of the directed edge from `owner` to
    /// `friend`; a no-op when no such edge exists.  The edge is never
    /// deleted.
    pub fn set_exclusion(&mut self, owner: &String, friend: &String, exclude: bool)
        requires
            store_wf(old(self)@),
        ensures
            store_wf(final(self)@),
            final(self)@ == set_exclusion_transition(old(self)@, owner@, friend@, exclude),
    {
        match self.find_edge_index(owner, friend) {
            Some(i) => {
                let old_row = self.userfriends.remove(i);
                let new_row = UserFriend {
                    id: old_row.id,
                    user_google_uid: old_row.user_google_uid,
                    friend_google_uid: old_row.friend_google_uid,
                    is_friend_excluded: exclude,
                    created_at: old_row.created_at,
                    updated_at: old_row.updated_at,
                };
                self.userfriends.insert(i, new_row);
                proof {
                    let s0 = old(self)@;
                    let gi = index_of_edge(s0.userfriends, owner@, friend@);
                    assert(self@.userfriends =~= s0.userfriends.update(
                        gi,
                        excluded_edge(s0.userfriends[gi], exclude),
                    ));
                    assert(self@ =~= set_exclusion_transition(s0, owner@, friend@, exclude));
                    assert forall|a: int, b: int|
                        0 <= a < b < self@.userfriends.len() implies !((
                        #[trigger] self@.userfriends[a]).user_google_uid
                        == (#[trigger] self@.userfriends[b]).user_google_uid
                        && self@.userfriends[a].friend_google_uid
                        == self@.userfriends[b].friend_google_uid) by {
                        assert(!(s0.userfriends[a].user_google_uid
                            == s0.userfriends[b].user_google_uid
                            && s0.userfriends[a].friend_google_uid
                            == s0.userfriends[b].friend_google_uid));
                    }
                }
            },
            None => {},
        }
    }

    /// The position of the video row keyed by `ytid`, if any.
    fn find_video_index(&self, ytid: &String) -> (r: Option<usize>)
        ensures
            match r {
                Some(i) => i as int == index_of_video(self@.videos, ytid@) && i
                    < self@.videos.len(),
                None => index_of_video(self@.videos, ytid@) == -1,
            },
    {
        let n = self.videos.len();
        let mut i: usize = 0;
        while i < n
            invariant_except_break
                n == self@.videos.len(),
                i <= n,
                forall|j: int| 0 <= j < i ==> self@.videos[j].youtube_video_id != ytid@,
            ensures
                i <= n,
                n == self@.videos.len(),
                i < n ==> self@.videos[i as int].youtube_video_id == ytid@ && (forall|j: int|
                    0 <= j < i ==> self@.videos[j].youtube_video_id != ytid@),
                i == n ==> forall|j: int| 0 <= j < n ==> self@.videos[j].youtube_video_id != ytid@,
            decreases n - i,
        {
            if self.videos[i].youtube_video_id == *ytid {
                break ;
            }
            i = i + 1;
        }
        if i < n {
            proof {
                lemma_first_match_at(self@.videos, video_pred(ytid@), i as int);
            }
            Some(i)
        } else {
            proof {
                lemma_first_match(self@.videos, video_pred(ytid@));
                if index_of_video(self@.videos, ytid@) != -1 {
                    assert(false);
                }
            }
            None
        }
    }

    /// Ensures a video row for this canonical content id exists and returns
    /// its id; an existing row keeps its original url and title.
    pub fn ensure_video(
        &mut self,
        youtube_video_id: &String,
        video_url: &String,
        video_title: &String,
        now: i64,
    ) -> (id: i64)
        requires
            store_wf(old(self)@),
            old(self)@.next_video_id < id_limit(),
        ensures
            store_wf(final(self)@),
            final(self)@ == ensure_video_transition(
                old(self)@,
                youtube_video_id@,
                video_url@,
                video_title@,
                now,
            ),
            id as int == video_id_of(final(self)@, youtube_video_id@),
            0 < id,
            (id as int) < final(self)@.next_video_id,
    {
        match self.find_video_index(youtube_video_id) {
            Some(i) => {
                let id = self.videos[i].id;
                proof {
                    assert(0 < self@.videos[i as int].id < self@.next_video_id);
                }
                id
            },
            None => {
                let id = self.next_video_id;
                let new_video = NewVideo {
                    video_url: video_url.clone(),
                    youtube_video_id: youtube_video_id.clone(),
                    video_title: video_title.clone(),
                    created_at: now,
                };
                let new_row = Video {
                    id: id,
                    video_url: new_video.video_url,
                    youtube_video_id: new_video.youtube_video_id,
                    video_title: new_video.video_title,
                    created_at: new_video.created_at,
                    updated_at: None,
                };
                self.videos.push(new_row);
                self.next_video_id = self.next_video_id + 1;
                proof {
                    let s0 = old(self)@;
                    assert(self@.videos =~= s0.videos.push(
                        new_video_row(s0.next_video_id, video_url@, youtube_video_id@, video_title@, now),
                    ));
                    assert(self@ =~= ensure_video_transition(
                        s0,
                        youtube_video_id@,
                        video_url@,
                        video_title@,
                        now,
                    ));
                    lemma_first_match(s0.videos, video_pred(youtube_video_id@));
                    assert forall|a: int, b: int|
                        0 <= a < b < self@.videos.len() implies self@.videos[a].youtube_video_id
                        != self@.videos[b].youtube_video_id by {
                        if b < s0.videos.len() {
                            assert(s0.videos[a].youtube_video_id != s0.videos[b].youtube_video_id);
                        } else {
                            assert(!video_pred(youtube_video_id@)(s0.videos[a]));
                        }
                    }
                    lemma_first_match_at(
                        self@.videos,
                        video_pred(youtube_video_id@),
                        s0.videos.len() as int,
                    );
                }
                id
            },
        }
    }

    /// The position of the watch event for `(user_id, video_id)`, if any.
    fn find_watch_index(&self, user_id: i64, video_id: i64) -> (r: Option<usize>)
        ensures
            match r {
                Some(i) => i as int == index_of_watch(
                    self@.uservideos,
                    user_id as int,
                    video_id as int,
                ) && i < self@.uservideos.len(),
                None => index_of_watch(self@.uservideos, user_id as int, video_id as int) == -1,
            },
    {
        let n = self.uservideos.len();
        let mut i: usize = 0;
        while i < n
            invariant_except_break
                n == self@.uservideos.len(),
                i <= n,
                forall|j: int|
                    0 <= j < i ==> !((#[trigger] self@.uservideos[j]).user_id == user_id as int
                        && self@.uservideos[j].video_id == video_id as int),
            ensures
                i <= n,
                n == self@.uservideos.len(),
                i < n ==> self@.uservideos[i as int].user_id == user_id as int
                    && self@.uservideos[i as int].video_id == video_id as int && (forall|j: int|
                    0 <= j < i ==> !((#[trigger] self@.uservideos[j]).user_id == user_id as int
                        && self@.uservideos[j].video_id == video_id as int)),
                i == n ==> forall|j: int|
                    0 <= j < n ==> !((#[trigger] self@.uservideos[j]).user_id == user_id as int
                        && self@.uservideos[j].video_id == video_id as int),
            decreases n - i,
        {
            if self.uservideos[i].user_id == user_id && self.uservideos[i].video_id == video_id {
                break ;
            }
            i = i + 1;
        }
        if i < n {
            proof {
                lemma_first_match_at(
                    self@.uservideos,
                    watch_pred(user_id as int, video_id as int),
                    i as int,
                );
            }
            Some(i)
        } else {
            proof {
                lemma_first_match(self@.uservideos, watch_pred(user_id as int, video_id as int));
                if index_of_watch(self@.uservideos, user_id as int, video_id as int) != -1 {
                    assert(false);
                }
            }
            None
        }
    }

    /// Ensures the watch event linking `user_id` to `video_id` exists,
    /// inserting it at most once per pair; reports whether a row was
    /// created.
    pub fn ensure_watch(&mut self, user_id: i64, video_id: i64, now: i64) -> (created: bool)
        requires
            store_wf(old(self)@),
            0 < user_id,
            (user_id as int) < old(self)@.next_user_id,
            0 < video_id,
            (video_id as int) < old(self)@.next_video_id,
            old(self)@.next_user_video_id < id_limit(),
        ensures
            store_wf(final(self)@),
            final(self)@ == ensure_watch_transition(
                old(self)@,
                user_id as int,
                video_id as int,
                now,
            ),
            created == (index_of_watch(old(self)@.uservideos, user_id as int, video_id as int)
                == -1),
    {
        match self.find_watch_index(user_id, video_id) {
            Some(_) => false,
            None => {
                let new_user_video = NewUserVideo {
                    user_id: user_id,
                    video_id: video_id,
                    created_at: now,
                };
                let new_row = UserVideo {
                    id: self.next_user_video_id,
                    user_id: new_user_video.user_id,
                    video_id: new_user_video.video_id,
                    created_at: new_user_video.created_at,
                    updated_at: None,
                };
                self.uservideos.push(new_row);
                self.next_user_video_id = self.next_user_video_id + 1;
                proof {
                    let s0 = old(self)@;
                    assert(self@.uservideos =~= s0.uservideos.push(
                        new_watch_row(s0.next_user_video_id, user_id as int, video_id as int, now),
                    ));
                    assert(self@ =~= ensure_watch_transition(
                        s0,
                        user_id as int,
                        video_id as int,
                        now,
                    ));
                    lemma_first_match(s0.uservideos, watch_pred(user_id as int, video_id as int));
                    assert forall|a: int, b: int|
                        0 <= a < b < self@.uservideos.len() implies !((
                        #[trigger] self@.uservideos[a]).user_id
                        == (#[trigger] self@.uservideos[b]).user_id
                        && self@.uservideos[a].video_id == self@.uservideos[b].video_id) by {
                        if b < s0.uservideos.len() {
                            assert(!(s0.uservideos[a].user_id == s0.uservideos[b].user_id
                                && s0.uservideos[a].video_id == s0.uservideos[b].video_id));
                        } else {
                            assert(!watch_pred(user_id as int, video_id as int)(s0.uservideos[a]));
                        }
                    }
                }
                true
            },
        }
    }

    /// The friend edges owned by `uid`, joined with each friend's identity
    /// row, in table order.
    pub fn list_friend_edges(&self, uid: &String) -> (r: Vec<UserFriendEntity>)
        ensures
            entity_views(r@) == list_edges(self@, uid@),
    {
        let n = self.userfriends.len();
        let mut out: Vec<UserFriendEntity> = Vec::new();
        let mut i: usize = 0;
        proof {
            assert(self@.userfriends.skip(0) =~= self@.userfriends);
        }
        while i < n
            invariant
                n == self@.userfriends.len(),
                i <= n,
                entity_views(out@) + list_edges_rec(
                    self@.userfriends.skip(i as int),
                    self@.users,
                    uid@,
                ) == list_edges(self@, uid@),
            decreases n - i,
        {
            let ghost pre = self@.userfriends.skip(i as int);
            proof {
                assert(pre[0] == self@.userfriends[i as int]);
                assert(pre.drop_first() =~= self@.userfriends.skip(i as int + 1));
            }
            if self.userfriends[i].user_google_uid == *uid {
                match self.find_user_index(&self.userfriends[i].friend_google_uid) {
                    Some(j) => {
                        let entity = UserFriendEntity::from(&self.userfriends[i], &self.users[j]);
                        proof {
                            let rest = list_edges_rec(pre.drop_first(), self@.users, uid@);
                            assert(list_edges_rec(pre, self@.users, uid@) =~= seq![entity@] + rest);
                            assert(entity_views(out@.push(entity)) =~= entity_views(out@).push(
                                entity@,
                            ));
                            assert(entity_views(out@).push(entity@) + rest =~= entity_views(out@)
                                + (seq![entity@] + rest));
                        }
                        out.push(entity);
                    },
                    None => {
                        proof {
                            assert(list_edges_rec(pre, self@.users, uid@) == list_edges_rec(
                                pre.drop_first(),
                                self@.users,
                                uid@,
                            ));
                        }
                    },
                }
            } else {
                proof {
                    assert(list_edges_rec(pre, self@.users, uid@) == list_edges_rec(
                        pre.drop_first(),
                        self@.users,
                        uid@,
                    ));
                }
            }
            i = i + 1;
        }
        proof {
            assert(self@.userfriends.skip(n as int) =~= Seq::<UserFriendView>::empty());
            assert(entity_views(out@) + list_edges_rec(
                Seq::<UserFriendView>::empty(),
                self@.users,
                uid@,
            ) =~= entity_views(out@));
        }
        out
    }
}

/// What one insert-if-absent edge write guarantees: afterwards the directed
/// edge exists exactly once, pair-uniqueness survives, and every other
/// directed pair keeps its count.
pub proof fn lemma_ensure_edge_effect(s: StoreView, owner: Seq<char>, friend: Seq<char>, now: i64)
    requires
        forall|i: int, j: int|
            0 <= i < j < s.userfriends.len() ==> !((
            #[trigger] s.userfriends[i]).user_google_uid
                == (#[trigger] s.userfriends[j]).user_google_uid
                && s.userfriends[i].friend_google_uid == s.userfriends[j].friend_google_uid),
    ensures
        ({
            let e1 = ensure_edge_transition(s, owner, friend, now).userfriends;
            &&& forall|i: int, j: int|
                0 <= i < j < e1.len() ==> !((#[trigger] e1[i]).user_google_uid == (
                #[trigger] e1[j]).user_google_uid && e1[i].friend_google_uid
                    == e1[j].friend_google_uid)
            &&& count_edges(e1, owner, friend) == 1
            &&& forall|o2: Seq<char>, f2: Seq<char>|
                !(o2 == owner && f2 == friend) ==> #[trigger] count_edges(e1, o2, f2)
                    == count_edges(s.userfriends, o2, f2)
        }),
{
    let p = edge_pred(owner, friend);
    let e0 = s.userfriends;
    lemma_first_match(e0, p);
    lemma_count_matches_unique(e0, p);
    if index_of_edge(e0, owner, friend) == -1 {
        let row = new_edge_row(s.next_friend_id, owner, friend, now);
        let e1 = e0.push(row);
        lemma_count_matches_push(e0, p, row);
        assert forall|i: int, j: int|
            0 <= i < j < e1.len() implies !((#[trigger] e1[i]).user_google_uid == (
        #[trigger] e1[j]).user_google_uid && e1[i].friend_google_uid == e1[j].friend_google_uid) by {
            if j < e0.len() {
                assert(!(e0[i].user_google_uid == e0[j].user_google_uid
                    && e0[i].friend_google_uid == e0[j].friend_google_uid));
            } else {
                assert(!p(e0[i]));
            }
        }
        assert forall|o2: Seq<char>, f2: Seq<char>|
            !(o2 == owner && f2 == friend) implies #[trigger] count_edges(e1, o2, f2)
            == count_edges(e0, o2, f2) by {
            lemma_count_matches_push(e0, edge_pred(o2, f2), row);
            assert(!edge_pred(o2, f2)(row));
        }
    }
}

/// After a friendship request between `a` and `b`, the store holds the
/// directed edge from `a` to `b` and the one from `b` to `a`, each exactly
/// once; reprocessing the request — in either direction — changes nothing,
/// so concurrently duplicated requests converge to the same state.
pub proof fn lemma_friendship_symmetric(s: StoreView, a: Seq<char>, b: Seq<char>, now: i64, now2: i64)
    requires
        store_wf(s),
    ensures
        ({
            let s1 = make_friendship_transition(s, a, b, now);
            &&& count_edges(s1.userfriends, a, b) == 1
            &&& count_edges(s1.userfriends, b, a) == 1
            &&& make_friendship_transition(s1, a, b, now2) == s1
            &&& make_friendship_transition(s1, b, a, now2) == s1
        }),
{
    let sa = ensure_edge_transition(s, a, b, now);
    lemma_ensure_edge_effect(s, a, b, now);
    let s1 = ensure_edge_transition(sa, b, a, now);
    lemma_ensure_edge_effect(sa, b, a, now);
    if a != b {
        assert(count_edges(s1.userfriends, a, b) == count_edges(sa.userfriends, a, b));
    }
    lemma_count_matches_unique(s1.userfriends, edge_pred(a, b));
    lemma_count_matches_unique(s1.userfriends, edge_pred(b, a));
    assert(index_of_edge(s1.userfriends, a, b) != -1);
    assert(index_of_edge(s1.userfriends, b, a) != -1);
    assert(ensure_edge_transition(s1, a, b, now2) == s1);
    assert(ensure_edge_transition(s1, b, a, now2) == s1);
}

/// Every entity for friend `fb` in an edge listing carries the flag its
/// edge rows carry.
proof fn lemma_list_edges_flag(
    edges: Seq<UserFriendView>,
    users: Seq<UsermasterView>,
    uid: Seq<char>,
    fb: Seq<char>,
    flag: bool,
)
    requires
        forall|j: int|
            0 <= j < edges.len() && (#[trigger] edges[j]).user_google_uid == uid
                && edges[j].friend_google_uid == fb ==> edges[j].is_friend_excluded == flag,
    ensures
        forall|k: int|
            0 <= k < list_edges_rec(edges, users, uid).len() && (#[trigger] list_edges_rec(
                edges,
                users,
                uid,
            )[k]).friend_google_uid == fb ==> list_edges_rec(edges, users, uid)[k].is_friend_excluded
                == flag,
    decreases edges.len(),
{
    if edges.len() > 0 {
        let t = edges.drop_first();
        assert forall|j: int|
            0 <= j < t.len() && (#[trigger] t[j]).user_google_uid == uid
                && t[j].friend_google_uid == fb implies t[j].is_friend_excluded == flag by {
            assert(t[j] == edges[j + 1]);
        }
        lemma_list_edges_flag(t, users, uid, fb, flag);
        let rest = list_edges_rec(t, users, uid);
        let l = list_edges_rec(edges, users, uid);
        if edges[0].user_google_uid == uid && index_of_uid(users, edges[0].friend_google_uid)
            != -1 {
            let ent = join_edge(edges[0], users[index_of_uid(users, edges[0].friend_google_uid)]);
            assert(l == seq![ent] + rest);
            assert forall|k: int|
                0 <= k < l.len() && (#[trigger] l[k]).friend_google_uid == fb implies l[k].is_friend_excluded
                == flag by {
                if k == 0 {
                    assert(l[0] == ent);
                } else {
                    assert(l[k] == rest[k - 1]);
                }
            }
        }
    }
}

/// A friend listing returns one entity per matching edge whose friend is
/// registered: the entity count for `fb` equals the edge count.
proof fn lemma_list_edges_count(
    edges: Seq<UserFriendView>,
    users: Seq<UsermasterView>,
    uid: Seq<char>,
    fb: Seq<char>,
)
    requires
        index_of_uid(users, fb) != -1,
    ensures
        count_matches(list_edges_rec(edges, users, uid), entity_friend_pred(fb)) == count_edges(
            edges,
            uid,
            fb,
        ),
    decreases edges.len(),
{
    if edges.len() > 0 {
        let t = edges.drop_first();
        lemma_list_edges_count(t, users, uid, fb);
        let rest = list_edges_rec(t, users, uid);
        let e0 = edges[0];
        if e0.user_google_uid == uid && index_of_uid(users, e0.friend_google_uid) != -1 {
            let ent = join_edge(e0, users[index_of_uid(users, e0.friend_google_uid)]);
            let l = seq![ent] + rest;
            assert(l[0] == ent);
            assert(l.drop_first() =~= rest);
        } else {
            if e0.user_google_uid == uid && e0.friend_google_uid == fb {
                assert(false);
            }
        }
    }
}

/// Setting an exclusion flags the directed edge but never deletes it: after
/// excluding `a -> b` the edge still exists exactly once, now flagged, a
/// later friendship request still inserts nothing, and — when `b` is a
/// registered identity — the owner's edge listing still returns `b`,
/// exactly once, with the flag set.
pub proof fn lemma_exclusion_keeps_edge(s: StoreView, a: Seq<char>, b: Seq<char>, now: i64, now2: i64)
    requires
        store_wf(s),
    ensures
        ({
            let s1 = ensure_edge_transition(s, a, b, now);
            let s2 = set_exclusion_transition(s1, a, b, true);
            let listing = list_edges(s2, a);
            &&& count_edges(s2.userfriends, a, b) == 1
            &&& s2.userfriends[index_of_edge(s2.userfriends, a, b)].is_friend_excluded == true
            &&& ensure_edge_transition(s2, a, b, now2) == s2
            &&& index_of_uid(s.users, b) != -1 ==> {
                &&& count_matches(listing, entity_friend_pred(b)) == 1
                &&& forall|k: int|
                    0 <= k < listing.len() && (#[trigger] listing[k]).friend_google_uid == b
                        ==> listing[k].is_friend_excluded == true
            }
        }),
{
    let p = edge_pred(a, b);
    let s1 = ensure_edge_transition(s, a, b, now);
    lemma_ensure_edge_effect(s, a, b, now);
    lemma_count_matches_unique(s1.userfriends, p);
    let gi = index_of_edge(s1.userfriends, a, b);
    lemma_first_match(s1.userfriends, p);
    let row2 = excluded_edge(s1.userfriends[gi], true);
    let e2 = s1.userfriends.update(gi, row2);
    let s2 = set_exclusion_transition(s1, a, b, true);
    assert(s2.userfriends == e2);
    lemma_count_matches_update(s1.userfriends, p, gi, row2);
    lemma_first_match_at(e2, p, gi);
    assert(count_edges(s2.userfriends, a, b) == 1);
    lemma_count_matches_unique(s2.userfriends, p);
    assert(ensure_edge_transition(s2, a, b, now2) == s2);
    if index_of_uid(s.users, b) != -1 {
        assert(s2.users == s.users);
        lemma_list_edges_count(s2.userfriends, s.users, a, b);
        assert forall|j: int|
            0 <= j < e2.len() && (#[trigger] e2[j]).user_google_uid == a
                && e2[j].friend_google_uid == b implies e2[j].is_friend_excluded == true by {
            if j != gi {
                if j < gi {
                    assert(e2[j] == s1.userfriends[j]);
                    assert(!p(s1.userfriends[j]));
                    assert(false);
                } else {
                    assert(e2[j] == s1.userfriends[j]);
                    assert(!(s1.userfriends[gi].user_google_uid
                        == s1.userfriends[j].user_google_uid
                        && s1.userfriends[gi].friend_google_uid
                        == s1.userfriends[j].friend_google_uid));
                    assert(false);
                }
            }
        }
        lemma_list_edges_flag(s2.userfriends, s.users, a, b, true);
    }
}

/// Reporting the same content for the same identity twice creates exactly
/// one watch row: after the first report the pair exists once, and the
/// second report leaves the whole store unchanged.
pub proof fn lemma_watch_dedup(
    s: StoreView,
    uid: Seq<char>,
    url: Seq<char>,
    title: Seq<char>,
    title2: Seq<char>,
    now: i64,
    now2: i64,
)
    requires
        store_wf(s),
        index_of_uid(s.users, uid) != -1,
        crate::utils::youtube_id_of(url) is Some,
    ensures
        ({
            let ytid = crate::utils::youtube_id_of(url).unwrap();
            let s1 = persist_video_watched_transition(s, uid, url, title, now);
            let u = s.users[index_of_uid(s.users, uid)].id;
            &&& count_watches(s1.uservideos, u, video_id_of(s1, ytid)) == 1
            &&& persist_video_watched_transition(s1, uid, url, title2, now2) == s1
        }),
{
    let ytid = crate::utils::youtube_id_of(url).unwrap();
    let iu = index_of_uid(s.users, uid);
    let u = s.users[iu].id;
    let sv = ensure_video_transition(s, ytid, url, title, now);
    lemma_first_match(s.videos, video_pred(ytid));
    let vid = video_id_of(sv, ytid);
    if index_of_video(s.videos, ytid) == -1 {
        let vrow = new_video_row(s.next_video_id, url, ytid, title, now);
        assert(sv.videos == s.videos.push(vrow));
        lemma_first_match_at(sv.videos, video_pred(ytid), s.videos.len() as int);
        assert(vid == s.next_video_id);
        assert forall|k: int|
            0 <= k < s.uservideos.len() implies !(watch_pred(u, vid)(#[trigger] s.uservideos[k])) by {
            assert(s.uservideos[k].video_id < s.next_video_id);
        }
        lemma_first_match(s.uservideos, watch_pred(u, vid));
        if index_of_watch(s.uservideos, u, vid) != -1 {
            assert(false);
        }
    } else {
        assert(sv == s);
        assert(0 < s.videos[index_of_video(s.videos, ytid)].id);
    }
    let s1 = ensure_watch_transition(sv, u, vid, now);
    assert(s1.videos == sv.videos);
    assert(s1.users == s.users);
    let pw = watch_pred(u, vid);
    lemma_first_match(sv.uservideos, pw);
    lemma_count_matches_unique(sv.uservideos, pw);
    if index_of_watch(sv.uservideos, u, vid) == -1 {
        let wrow = new_watch_row(sv.next_user_video_id, u, vid, now);
        assert(s1.uservideos == sv.uservideos.push(wrow));
        lemma_count_matches_push(sv.uservideos, pw, wrow);
        lemma_first_match_at(s1.uservideos, pw, sv.uservideos.len() as int);
    }
    assert(count_watches(s1.uservideos, u, vid) == 1);
    lemma_first_match(s1.uservideos, pw);
    assert(index_of_watch(s1.uservideos, u, vid) != -1);
    // the second report finds everything already in place
    assert(index_of_uid(s1.users, uid) == iu);
    lemma_first_match(s1.videos, video_pred(ytid));
    if index_of_video(s1.videos, ytid) == -1 {
        assert(!video_pred(ytid)(s1.videos[index_of_video(sv.videos, ytid)]));
        assert(false);
    }
    assert(ensure_video_transition(s1, ytid, url, title2, now2) == s1);
    assert(video_id_of(s1, ytid) == vid);
    assert(ensure_watch_transition(s1, u, vid, now2) == s1);
}

} // verus!
