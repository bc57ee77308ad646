//! The dispatch engine: pure decision logic.
//!
//! Given an inbound event, the registry, and the store, each handler
//! computes the registry and store mutations to apply, the set of outbound
//! notifications to deliver — as `(connection, payload)` pairs the
//! transport layer performs — and the direct reply owed to the sender.
//! Nothing here touches a socket, a clock, or the network: timestamps and
//! resolver results arrive as arguments.

use vstd::prelude::*;
use crate::models::UsermasterView;
use crate::models::UserFriendEntity;
use crate::models::UserFriendEntityView;
use crate::registry::ConnectionRegistry;
use crate::registry::ClientMetadataView;
use crate::registry::CurrentVideoView;
use crate::registry::OnlineFriendView;
use crate::registry::WsConnectedClientCurrentVideo;
use crate::registry::WsOnlineFriend;
use crate::registry::index_of_conn;
use crate::registry::lookup_conn;
use crate::registry::friend_views;
use crate::registry::distinct_socket_ids;
use crate::registry::remove_transition;
use crate::registry::set_watch_transition;
use crate::registry::upsert_transition;
use crate::registry::refs_exclude;
use crate::registry::lemma_remove_self_absent;
use crate::scan::count_matches;
use crate::store::Store;
use crate::store::store_wf;
use crate::store::id_limit;
use crate::store::find_user;
use crate::store::list_edges;
use crate::store::entity_views;
use crate::store::index_of_uid;
use crate::store::upsert_user_transition;
use crate::store::make_friendship_transition;
use crate::store::set_exclusion_transition;
use crate::store::persist_video_watched_transition;
use crate::utils::get_youtube_videoid;
use crate::utils::youtube_id_of;
use crate::ws_dto::FriendExclusionMessage;
use crate::ws_dto::MakeFriendshipMessage;
use crate::ws_dto::OnlineStatusChange;
use crate::ws_dto::TakeUserMessage;
use crate::ws_dto::VideoChangeMessage;
use crate::ws_dto::YoutubeVideoResponse;

verus! {

/// Display data of the friend a video notice speaks about.
pub struct CurrentVideoFriend {
    pub full_name: String,
    pub image_url: String,
}

/// Mathematical image of [`CurrentVideoFriend`].
#[verifier::ext_equal]
pub ghost struct CurrentVideoFriendView {
    pub full_name: Seq<char>,
    pub image_url: Seq<char>,
}

impl View for CurrentVideoFriend {
    type V = CurrentVideoFriendView;

    open spec fn view(&self) -> CurrentVideoFriendView {
        CurrentVideoFriendView { full_name: self.full_name@, image_url: self.image_url@ }
    }
}

impl Clone for CurrentVideoFriend {
    fn clone(&self) -> (res: Self)
        ensures
            res@ == self@,
    {
        CurrentVideoFriend {
            full_name: self.full_name.clone(),
            image_url: self.image_url.clone(),
        }
    }
}

/// A friend's video change, as broadcast and as listed in an announce
/// reply.
pub struct WsFriendCurrentVideo {
    pub googleUserId: String,
    pub videoData: WsConnectedClientCurrentVideo,
    pub friendData: CurrentVideoFriend,
}

/// Mathematical image of [`WsFriendCurrentVideo`].
#[verifier::ext_equal]
pub ghost struct WsFriendCurrentVideoView {
    pub googleUserId: Seq<char>,
    pub videoData: CurrentVideoView,
    pub friendData: CurrentVideoFriendView,
}

impl View for WsFriendCurrentVideo {
    type V = WsFriendCurrentVideoView;

    open spec fn view(&self) -> WsFriendCurrentVideoView {
        WsFriendCurrentVideoView {
            googleUserId: self.googleUserId@,
            videoData: self.videoData@,
            friendData: self.friendData@,
        }
    }
}

impl Clone for WsFriendCurrentVideo {
    fn clone(&self) -> (res: Self)
        ensures
            res@ == self@,
    {
        WsFriendCurrentVideo {
            googleUserId: self.googleUserId.clone(),
            videoData: self.videoData.clone(),
            friendData: self.friendData.clone(),
        }
    }
}

/// The images of a sequence of friend video changes.
pub open spec fn friend_video_views(v: Seq<WsFriendCurrentVideo>) -> Seq<WsFriendCurrentVideoView> {
    v.map_values(|x: WsFriendCurrentVideo| x@)
}

/// A payload bound for some other connection.
pub enum OutboundNotice {
    TakeFriendOnlineStatus { googleUserId: String, onlineState: bool },
    NewFriendOnTubePeek { googleUserId: String, fullName: String, imageUrl: String },
    TakeFriendVideoChange(WsFriendCurrentVideo),
}

/// Mathematical image of [`OutboundNotice`].
#[verifier::ext_equal]
pub ghost enum NoticeView {
    TakeFriendOnlineStatus { googleUserId: Seq<char>, onlineState: bool },
    NewFriendOnTubePeek { googleUserId: Seq<char>, fullName: Seq<char>, imageUrl: Seq<char> },
    TakeFriendVideoChange(WsFriendCurrentVideoView),
}

impl View for OutboundNotice {
    type V = NoticeView;

    open spec fn view(&self) -> NoticeView {
        match self {
            OutboundNotice::TakeFriendOnlineStatus { googleUserId, onlineState } => NoticeView::TakeFriendOnlineStatus {
                googleUserId: googleUserId@,
                onlineState: *onlineState,
            },
            OutboundNotice::NewFriendOnTubePeek { googleUserId, fullName, imageUrl } => NoticeView::NewFriendOnTubePeek {
                googleUserId: googleUserId@,
                fullName: fullName@,
                imageUrl: imageUrl@,
            },
            OutboundNotice::TakeFriendVideoChange(v) => NoticeView::TakeFriendVideoChange(v@),
        }
    }
}

impl Clone for OutboundNotice {
    fn clone(&self) -> (res: Self)
        ensures
            res@ == self@,
    {
        match self {
            OutboundNotice::TakeFriendOnlineStatus { googleUserId, onlineState } => OutboundNotice::TakeFriendOnlineStatus {
                googleUserId: googleUserId.clone(),
                onlineState: *onlineState,
            },
            OutboundNotice::NewFriendOnTubePeek { googleUserId, fullName, imageUrl } => OutboundNotice::NewFriendOnTubePeek {
                googleUserId: googleUserId.clone(),
                fullName: fullName.clone(),
                imageUrl: imageUrl.clone(),
            },
            OutboundNotice::TakeFriendVideoChange(v) => OutboundNotice::TakeFriendVideoChange(
                v.clone(),
            ),
        }
    }
}

/// One delivery the transport layer owes: send `notice` to connection
/// `target`.
pub struct Delivery {
    pub target: u32,
    pub notice: OutboundNotice,
}

/// Mathematical image of [`Delivery`].
#[verifier::ext_equal]
pub ghost struct DeliveryView {
    pub target: u32,
    pub notice: NoticeView,
}

impl View for Delivery {
    type V = DeliveryView;

    open spec fn view(&self) -> DeliveryView {
        DeliveryView { target: self.target, notice: self.notice@ }
    }
}

/// The images of a sequence of deliveries.
pub open spec fn delivery_views(v: Seq<Delivery>) -> Seq<DeliveryView> {
    v.map_values(|d: Delivery| d@)
}

/// Selects deliveries bound for connection `t`.
pub open spec fn target_pred(t: u32) -> spec_fn(DeliveryView) -> bool {
    |d: DeliveryView| d.target == t
}

/// Selects cached refs pointing at connection `t`.
pub open spec fn ref_target_pred(t: u32) -> spec_fn(OnlineFriendView) -> bool {
    |f: OnlineFriendView| f.socketId == t
}

/// The cached online-friend refs of connection `id`, or nothing when it has
/// no entry.
pub open spec fn refs_of(reg: Seq<ClientMetadataView>, id: u32) -> Seq<OnlineFriendView> {
    match lookup_conn(reg, id) {
        Some(e) => e.onlineFriends,
        None => Seq::empty(),
    }
}

/// Best-effort fan-out: one delivery of `n` per cached ref whose connection
/// is still live, in ref order; refs whose connection vanished are skipped.
pub open spec fn fanout(
    refs: Seq<OnlineFriendView>,
    reg: Seq<ClientMetadataView>,
    n: NoticeView,
) -> Seq<DeliveryView>
    decreases refs.len(),
{
    if refs.len() == 0 {
        Seq::empty()
    } else {
        let rest = fanout(refs.drop_first(), reg, n);
        if index_of_conn(reg, refs[0].socketId) != -1 {
            seq![DeliveryView { target: refs[0].socketId, notice: n }] + rest
        } else {
            rest
        }
    }
}

/// Whether two strings hold the same characters.
fn str_eq(a: &str, b: &str) -> (r: bool)
    ensures
        r == (a@ == b@),
{
    let sa = a.to_owned();
    let sb = b.to_owned();
    sa == sb
}

/// The message kinds the engine routes on; anything else is unknown.
pub enum MessageKind {
    TakeUser,
    OnlineStatus,
    MakeFriendship,
    VideoChange,
    FriendExclusion,
    Ping,
    Unknown,
}

/// Which handler an envelope's declared action selects.
pub open spec fn kind_of_action(a: Seq<char>) -> MessageKind {
    if a == "TakeUserMessage"@ {
        MessageKind::TakeUser
    } else if a == "UserChangedOnlineStatus"@ {
        MessageKind::OnlineStatus
    } else if a == "MakeFriendship"@ {
        MessageKind::MakeFriendship
    } else if a == "ChangedVideo"@ {
        MessageKind::VideoChange
    } else if a == "FriendExclusion"@ {
        MessageKind::FriendExclusion
    } else if a == "PING"@ {
        MessageKind::Ping
    } else {
        MessageKind::Unknown
    }
}

/// Routes an envelope's declared action to its handler kind.
pub fn route_action(action: &str) -> (k: MessageKind)
    ensures
        k == kind_of_action(action@),
{
    if str_eq(action, "TakeUserMessage") {
        MessageKind::TakeUser
    } else if str_eq(action, "UserChangedOnlineStatus") {
        MessageKind::OnlineStatus
    } else if str_eq(action, "MakeFriendship") {
        MessageKind::MakeFriendship
    } else if str_eq(action, "ChangedVideo") {
        MessageKind::VideoChange
    } else if str_eq(action, "FriendExclusion") {
        MessageKind::FriendExclusion
    } else if str_eq(action, "PING") {
        MessageKind::Ping
    } else {
        MessageKind::Unknown
    }
}

/// The announce reply: which friends are registered, and what the online
/// ones are watching right now.
pub struct TakeVideosBeingWatched {
    pub friendsOnYoutubeNow: Vec<WsFriendCurrentVideo>,
    pub friendsOnTubePeek: Vec<UserFriendEntity>,
}

/// The direct reply a handler owes the sender.
pub enum Reply {
    TakeVideosBeingWatched(TakeVideosBeingWatched),
    Empty,
    Error(String),
    Pong,
    InvalidJson,
    UnknownType,
}

impl Reply {
    /// The exact reply text, for the replies whose text never varies; the
    /// announce reply and error payloads are encoded outside.
    pub fn fixed_text(&self) -> (r: Option<String>)
        ensures
            ({
                match self {
                    Reply::Empty => r is Some && r.unwrap()@ == "{}"@,
                    Reply::Pong => r is Some && r.unwrap()@ == "{\"action\":\"PONG\"}"@,
                    Reply::InvalidJson => r is Some && r.unwrap()@ == "Invalid json value"@,
                    Reply::UnknownType => r is Some && r.unwrap()@ == "Unknown message type"@,
                    _ => r is None,
                }
            }),
    {
        match self {
            Reply::Empty => Some("{}".to_owned()),
            Reply::Pong => Some("{\"action\":\"PONG\"}".to_owned()),
            Reply::InvalidJson => Some("Invalid json value".to_owned()),
            Reply::UnknownType => Some("Unknown message type".to_owned()),
            _ => None,
        }
    }
}

/// One delivery of `notice` per cached ref whose connection is still live.
fn fanout_deliveries(
    registry: &ConnectionRegistry,
    refs: &Vec<WsOnlineFriend>,
    notice: &OutboundNotice,
) -> (r: Vec<Delivery>)
    ensures
        delivery_views(r@) == fanout(friend_views(refs@), registry@, notice@),
{
    let ghost fv = friend_views(refs@);
    let n = refs.len();
    let mut out: Vec<Delivery> = Vec::new();
    let mut i: usize = 0;
    proof {
        assert(fv.skip(0) =~= fv);
    }
    while i < n
        invariant
            n == refs@.len(),
            n == fv.len(),
            fv == friend_views(refs@),
            i <= n,
            delivery_views(out@) + fanout(fv.skip(i as int), registry@, notice@) == fanout(
                fv,
                registry@,
                notice@,
            ),
        decreases n - i,
    {
        let ghost pre = fv.skip(i as int);
        proof {
            assert(pre[0] == fv[i as int]);
            assert(fv[i as int] == refs@[i as int]@);
            assert(pre.drop_first() =~= fv.skip(i as int + 1));
        }
        let target = refs[i].socketId;
        match registry.get(target) {
            Some(_) => {
                let d = Delivery { target, notice: notice.clone() };
                proof {
                    let rest = fanout(pre.drop_first(), registry@, notice@);
                    assert(fanout(pre, registry@, notice@) =~= seq![d@] + rest);
                    assert(delivery_views(out@.push(d)) =~= delivery_views(out@).push(d@));
                    assert(delivery_views(out@).push(d@) + rest =~= delivery_views(out@) + (
                    seq![d@] + rest));
                }
                out.push(d);
            },
            None => {
                proof {
                    assert(fanout(pre, registry@, notice@) == fanout(
                        pre.drop_first(),
                        registry@,
                        notice@,
                    ));
                }
            },
        }
        i = i + 1;
    }
    proof {
        assert(fv.skip(n as int) =~= Seq::<OnlineFriendView>::empty());
        assert(delivery_views(out@) + fanout(
            Seq::<OnlineFriendView>::empty(),
            registry@,
            notice@,
        ) =~= delivery_views(out@));
    }
    out
}

/// Handles an online-status report: the notice fans out to the sender's
/// cached online friends that are still live, and a report of going
/// offline removes the sender's entry; the direct reply is always empty.
pub fn handle_online_status_change(
    registry: &mut ConnectionRegistry,
    conn_id: u32,
    msg: &OnlineStatusChange,
) -> (deliveries: Vec<Delivery>)
    requires
        old(registry).wf(),
    ensures
        final(registry).wf(),
        delivery_views(deliveries@) == fanout(
            refs_of(old(registry)@, conn_id),
            old(registry)@,
            NoticeView::TakeFriendOnlineStatus {
                googleUserId: msg.googleUserId@,
                onlineState: msg.onlineState,
            },
        ),
        final(registry)@ == if msg.onlineState {
            old(registry)@
        } else {
            remove_transition(old(registry)@, conn_id)
        },
{
    let notice = OutboundNotice::TakeFriendOnlineStatus {
        googleUserId: msg.googleUserId.clone(),
        onlineState: msg.onlineState,
    };
    let deliveries = match registry.get(conn_id) {
        Some(entry) => {
            proof {
                assert(friend_views(entry.onlineFriends@) =~= refs_of(registry@, conn_id));
            }
            fanout_deliveries(registry, &entry.onlineFriends, &notice)
        },
        None => {
            proof {
                assert(refs_of(registry@, conn_id) =~= Seq::<OnlineFriendView>::empty());
                assert(delivery_views(Seq::<Delivery>::empty()) =~= Seq::<DeliveryView>::empty());
            }
            Vec::new()
        },
    };
    if !msg.onlineState {
        let _ = registry.remove(conn_id);
    }
    deliveries
}

/// Handles a connection close or loss: the sender's entry is removed, and
/// an offline notice — under the identity the entry cached — fans out to
/// its cached online friends that are still live.
pub fn handle_disconnect(registry: &mut ConnectionRegistry, conn_id: u32) -> (deliveries: Vec<
    Delivery,
>)
    requires
        old(registry).wf(),
    ensures
        final(registry).wf(),
        final(registry)@ == remove_transition(old(registry)@, conn_id),
        lookup_conn(final(registry)@, conn_id) is None,
        delivery_views(deliveries@) == match lookup_conn(old(registry)@, conn_id) {
            Some(e) => fanout(
                e.onlineFriends,
                old(registry)@,
                NoticeView::TakeFriendOnlineStatus {
                    googleUserId: e.googleUserId,
                    onlineState: false,
                },
            ),
            None => Seq::<DeliveryView>::empty(),
        },
{
    let deliveries = match registry.get(conn_id) {
        Some(entry) => {
            let notice = OutboundNotice::TakeFriendOnlineStatus {
                googleUserId: entry.googleUserId.clone(),
                onlineState: false,
            };
            proof {
                assert(friend_views(entry.onlineFriends@) =~= lookup_conn(
                    registry@,
                    conn_id,
                ).unwrap().onlineFriends);
            }
            fanout_deliveries(registry, &entry.onlineFriends, &notice)
        },
        None => {
            proof {
                assert(delivery_views(Seq::<Delivery>::empty()) =~= Seq::<DeliveryView>::empty());
            }
            Vec::new()
        },
    };
    let _ = registry.remove(conn_id);
    proof {
        lemma_remove_self_absent(old(registry)@, conn_id);
    }
    deliveries
}

/// Persists an identity announce: insert-or-update by identity key.
pub fn persist_user(store: &mut Store, user_details: &TakeUserMessage, now: i64)
    requires
        store_wf(old(store)@),
        old(store)@.next_user_id < id_limit(),
    ensures
        store_wf(final(store)@),
        final(store)@ == upsert_user_transition(
            old(store)@,
            user_details.authData.uid@,
            user_details.provider@,
            user_details.authData.fullName@,
            user_details.authData.imageUrl@,
            now,
        ),
{
    store.upsert_identity(
        &user_details.authData.uid,
        &user_details.provider,
        &user_details.authData.fullName,
        &user_details.authData.imageUrl,
        now,
    );
}

/// Handles an exclusion request: the directed edge's flag is replaced, the
/// edge itself stays; the direct reply is always empty.
pub fn handle_friend_exclusion(store: &mut Store, msg: &FriendExclusionMessage)
    requires
        store_wf(old(store)@),
    ensures
        store_wf(final(store)@),
        final(store)@ == set_exclusion_transition(
            old(store)@,
            msg.googleUserId@,
            msg.friendGoogleUserId@,
            msg.exclude,
        ),
{
    store.set_exclusion(&msg.googleUserId, &msg.friendGoogleUserId, msg.exclude);
}

/// The notice announcing that `key` is now a friend, with `u`'s display
/// data.
pub open spec fn new_friend_notice(key: Seq<char>, u: UsermasterView) -> NoticeView {
    NoticeView::NewFriendOnTubePeek {
        googleUserId: key,
        fullName: u.full_name,
        imageUrl: u.image_url,
    }
}

/// The broadcasts a friendship request triggers: every connection of the
/// counterpart identity is told about its new friend, in registry order —
/// provided that friend is a registered identity.
pub open spec fn friendship_fanout(
    reg: Seq<ClientMetadataView>,
    a: Seq<char>,
    b: Seq<char>,
    ua: Option<UsermasterView>,
    ub: Option<UsermasterView>,
) -> Seq<DeliveryView>
    decreases reg.len(),
{
    if reg.len() == 0 {
        Seq::empty()
    } else {
        let rest = friendship_fanout(reg.drop_first(), a, b, ua, ub);
        let first = if ua is Some && reg[0].googleUserId == b {
            seq![DeliveryView { target: reg[0].socketId, notice: new_friend_notice(a, ua.unwrap()) }]
        } else {
            Seq::<DeliveryView>::empty()
        };
        let second = if ub is Some && reg[0].googleUserId == a {
            seq![DeliveryView { target: reg[0].socketId, notice: new_friend_notice(b, ub.unwrap()) }]
        } else {
            Seq::<DeliveryView>::empty()
        };
        first + second + rest
    }
}

/// Handles a friendship request: both directed edges are ensured, and each
/// side's connections learn about the new friend; the direct reply is
/// always empty.
pub fn handle_friendship(
    store: &mut Store,
    registry: &ConnectionRegistry,
    msg: &MakeFriendshipMessage,
    now: i64,
) -> (deliveries: Vec<Delivery>)
    requires
        store_wf(old(store)@),
        old(store)@.next_friend_id + 1 < id_limit(),
    ensures
        store_wf(final(store)@),
        final(store)@ == make_friendship_transition(
            old(store)@,
            msg.googleUserId@,
            msg.friendGoogleUserId@,
            now,
        ),
        delivery_views(deliveries@) == friendship_fanout(
            registry@,
            msg.googleUserId@,
            msg.friendGoogleUserId@,
            find_user(old(store)@.users, msg.googleUserId@),
            find_user(old(store)@.users, msg.friendGoogleUserId@),
        ),
{
    let ghost a = msg.googleUserId@;
    let ghost b = msg.friendGoogleUserId@;
    store.ensure_friendship_edge(&msg.googleUserId, &msg.friendGoogleUserId, now);
    store.ensure_friendship_edge(&msg.friendGoogleUserId, &msg.googleUserId, now);
    let ghost ua = find_user(old(store)@.users, a);
    let ghost ub = find_user(old(store)@.users, b);
    proof {
        assert(store@.users == old(store)@.users);
    }
    let current_user = store.find_identity(&msg.googleUserId);
    let friend_user = store.find_identity(&msg.friendGoogleUserId);
    let n = registry.len();
    let mut out: Vec<Delivery> = Vec::new();
    let mut i: usize = 0;
    proof {
        assert(registry@.skip(0) =~= registry@);
    }
    while i < n
        invariant
            n == registry@.len(),
            i <= n,
            match current_user {
                Some(cu) => ua == Some(cu@),
                None => ua is None,
            },
            match friend_user {
                Some(fu) => ub == Some(fu@),
                None => ub is None,
            },
            a == msg.googleUserId@,
            b == msg.friendGoogleUserId@,
            delivery_views(out@) + friendship_fanout(registry@.skip(i as int), a, b, ua, ub)
                == friendship_fanout(registry@, a, b, ua, ub),
        decreases n - i,
    {
        let ghost pre = registry@.skip(i as int);
        let ghost dv0 = delivery_views(out@);
        let ghost first = (if ua is Some && pre[0].googleUserId == b {
            seq![DeliveryView { target: pre[0].socketId, notice: new_friend_notice(a, ua.unwrap()) }]
        } else {
            Seq::<DeliveryView>::empty()
        });
        let ghost second = (if ub is Some && pre[0].googleUserId == a {
            seq![DeliveryView { target: pre[0].socketId, notice: new_friend_notice(b, ub.unwrap()) }]
        } else {
            Seq::<DeliveryView>::empty()
        });
        proof {
            assert(pre[0] == registry@[i as int]);
            assert(pre.drop_first() =~= registry@.skip(i as int + 1));
            assert(friendship_fanout(pre, a, b, ua, ub) == first + second + friendship_fanout(
                pre.drop_first(),
                a,
                b,
                ua,
                ub,
            ));
        }
        let meta = registry.entry_at(i);
        match current_user {
            Some(cu) => {
                if meta.googleUserId == msg.friendGoogleUserId {
                    let d = Delivery {
                        target: meta.socketId,
                        notice: OutboundNotice::NewFriendOnTubePeek {
                            googleUserId: msg.googleUserId.clone(),
                            fullName: cu.full_name.clone(),
                            imageUrl: cu.image_url.clone(),
                        },
                    };
                    proof {
                        assert(delivery_views(out@.push(d)) =~= delivery_views(out@).push(d@));
                        assert(first =~= seq![d@]);
                    }
                    out.push(d);
                }
            },
            None => {},
        }
        proof {
            assert(delivery_views(out@) =~= dv0 + first);
        }
        let ghost dv1 = delivery_views(out@);
        match friend_user {
            Some(fu) => {
                if meta.googleUserId == msg.googleUserId {
                    let d = Delivery {
                        target: meta.socketId,
                        notice: OutboundNotice::NewFriendOnTubePeek {
                            googleUserId: msg.friendGoogleUserId.clone(),
                            fullName: fu.full_name.clone(),
                            imageUrl: fu.image_url.clone(),
                        },
                    };
                    proof {
                        assert(delivery_views(out@.push(d)) =~= delivery_views(out@).push(d@));
                        assert(second =~= seq![d@]);
                    }
                    out.push(d);
                }
            },
            None => {},
        }
        proof {
            assert(delivery_views(out@) =~= dv1 + second);
            assert(delivery_views(out@) + friendship_fanout(
                registry@.skip(i as int + 1),
                a,
                b,
                ua,
                ub,
            ) =~= dv0 + (first + second + friendship_fanout(pre.drop_first(), a, b, ua, ub)));
        }
        i = i + 1;
    }
    proof {
        assert(registry@.skip(n as int) =~= Seq::<ClientMetadataView>::empty());
        assert(delivery_views(out@) + friendship_fanout(
            Seq::<ClientMetadataView>::empty(),
            a,
            b,
            ua,
            ub,
        ) =~= delivery_views(out@));
    }
    out
}

/// Validates a video-change report: the canonical content id is extracted,
/// or the sender is owed an error payload with this exact message.
pub fn video_change_begin(msg: &VideoChangeMessage) -> (r: Result<String, String>)
    ensures
        match r {
            Ok(id) => youtube_id_of(msg.videoUrl@) == Some(id@),
            Err(m) => youtube_id_of(msg.videoUrl@) is None && m@ == "Invalid youtube id"@,
        },
{
    match get_youtube_videoid(msg.videoUrl.as_str()) {
        Some(id) => Ok(id),
        None => Err("Invalid youtube id".to_owned()),
    }
}

/// Persists a watch event: nothing for an unusable URL or an unregistered
/// identity; otherwise the video row is ensured and the watch pair
/// inserted at most once.
pub fn persist_video_watched(
    store: &mut Store,
    google_user_id: &String,
    videoUrl: &String,
    videoTitle: &String,
    now: i64,
)
    requires
        store_wf(old(store)@),
        old(store)@.next_video_id < id_limit(),
        old(store)@.next_user_video_id < id_limit(),
    ensures
        store_wf(final(store)@),
        final(store)@ == persist_video_watched_transition(
            old(store)@,
            google_user_id@,
            videoUrl@,
            videoTitle@,
            now,
        ),
{
    match get_youtube_videoid(videoUrl.as_str()) {
        None => {},
        Some(ytid) => {
            let user_id_maybe = match store.find_identity(google_user_id) {
                Some(u) => Some(u.id),
                None => None,
            };
            match user_id_maybe {
                None => {},
                Some(user_id) => {
                    proof {
                        crate::scan::lemma_first_match(
                            store@.users,
                            crate::store::uid_pred(google_user_id@),
                        );
                        let iu = index_of_uid(store@.users, google_user_id@);
                        assert(0 < store@.users[iu].id < store@.next_user_id);
                    }
                    let vid = store.ensure_video(&ytid, videoUrl, videoTitle, now);
                    store.ensure_watch(user_id, vid, now);
                },
            }
        },
    }
}

/// The broadcast a video change triggers.
pub open spec fn video_notice(uid: Seq<char>, u: UsermasterView, v: CurrentVideoView) -> NoticeView {
    NoticeView::TakeFriendVideoChange(
        WsFriendCurrentVideoView {
            googleUserId: uid,
            videoData: v,
            friendData: CurrentVideoFriendView { full_name: u.full_name, image_url: u.image_url },
        },
    )
}

/// Who a video change reaches: the reporter's cached online friends that
/// are still live — provided the reporter's connection is still registered
/// and its identity is known to the store.
pub open spec fn video_change_fanout(
    reg1: Seq<ClientMetadataView>,
    conn_id: u32,
    uid: Seq<char>,
    u: Option<UsermasterView>,
    v: CurrentVideoView,
) -> Seq<DeliveryView> {
    match lookup_conn(reg1, conn_id) {
        None => Seq::<DeliveryView>::empty(),
        Some(e) => match u {
            None => Seq::<DeliveryView>::empty(),
            Some(uu) => fanout(e.onlineFriends, reg1, video_notice(uid, uu, v)),
        },
    }
}

/// Handles a resolved video change: the sender's watch state is replaced,
/// the change fans out to its cached online friends, and the watch event
/// is persisted; a response with no items is malformed and is answered
/// with an error payload, with no side effects.
pub fn handle_video_change(
    store: &mut Store,
    registry: &mut ConnectionRegistry,
    conn_id: u32,
    msg: &VideoChangeMessage,
    response: &YoutubeVideoResponse,
    now: i64,
) -> (out: (Vec<Delivery>, Reply))
    requires
        store_wf(old(store)@),
        old(store)@.next_video_id < id_limit(),
        old(store)@.next_user_video_id < id_limit(),
        old(registry).wf(),
    ensures
        store_wf(final(store)@),
        final(registry).wf(),
        response.items@.len() == 0 ==> {
            &&& final(store)@ == old(store)@
            &&& final(registry)@ == old(registry)@
            &&& out.0@.len() == 0
            &&& out.1 matches Reply::Error(m) && m@ == "Invalid youtube json response format"@
        },
        response.items@.len() > 0 ==> ({
            let v = CurrentVideoView {
                videoUrl: msg.videoUrl@,
                title: response.items@[0].snippet.title@,
                thumbnail_url: response.items@[0].snippet.thumbnails.default.url@,
                timeStampInMilliseconds: now,
            };
            &&& final(registry)@ == set_watch_transition(old(registry)@, conn_id, v)
            &&& final(store)@ == persist_video_watched_transition(
                old(store)@,
                msg.googleUserId@,
                msg.videoUrl@,
                response.items@[0].snippet.title@,
                now,
            )
            &&& delivery_views(out.0@) == video_change_fanout(
                final(registry)@,
                conn_id,
                msg.googleUserId@,
                find_user(old(store)@.users, msg.googleUserId@),
                v,
            )
            &&& out.1 is Empty
        }),
{
    if response.items.len() == 0 {
        return (Vec::new(), Reply::Error("Invalid youtube json response format".to_owned()));
    }
    let title = &response.items[0].snippet.title;
    let thumbnail = &response.items[0].snippet.thumbnails.default.url;
    let watch = WsConnectedClientCurrentVideo {
        videoUrl: msg.videoUrl.clone(),
        title: title.clone(),
        thumbnail_url: thumbnail.clone(),
        timeStampInMilliseconds: now,
    };
    registry.set_current_watch(conn_id, watch);
    let deliveries = match registry.get(conn_id) {
        Some(entry) => {
            match store.find_identity(&msg.googleUserId) {
                Some(fu) => {
                    let notice = OutboundNotice::TakeFriendVideoChange(
                        WsFriendCurrentVideo {
                            googleUserId: msg.googleUserId.clone(),
                            videoData: WsConnectedClientCurrentVideo {
                                videoUrl: msg.videoUrl.clone(),
                                title: title.clone(),
                                thumbnail_url: thumbnail.clone(),
                                timeStampInMilliseconds: now,
                            },
                            friendData: CurrentVideoFriend {
                                full_name: fu.full_name.clone(),
                                image_url: fu.image_url.clone(),
                            },
                        },
                    );
                    proof {
                        assert(friend_views(entry.onlineFriends@) =~= lookup_conn(
                            registry@,
                            conn_id,
                        ).unwrap().onlineFriends);
                    }
                    fanout_deliveries(registry, &entry.onlineFriends, &notice)
                },
                None => {
                    proof {
                        assert(delivery_views(Seq::<Delivery>::empty())
                            =~= Seq::<DeliveryView>::empty());
                    }
                    Vec::new()
                },
            }
        },
        None => {
            proof {
                assert(delivery_views(Seq::<Delivery>::empty()) =~= Seq::<DeliveryView>::empty());
            }
            Vec::new()
        },
    };
    persist_video_watched(store, &msg.googleUserId, &msg.videoUrl, title, now);
    (deliveries, Reply::Empty)
}

/// The online-friend refs one friend edge contributes: every live
/// connection owned by that friend, except the announcing connection
/// itself.
pub open spec fn online_matches(
    f: UserFriendEntityView,
    reg: Seq<ClientMetadataView>,
    self_conn: u32,
) -> Seq<OnlineFriendView>
    decreases reg.len(),
{
    if reg.len() == 0 {
        Seq::empty()
    } else {
        let rest = online_matches(f, reg.drop_first(), self_conn);
        if reg[0].googleUserId == f.friend_google_uid && reg[0].socketId != self_conn {
            seq![OnlineFriendView { socketId: reg[0].socketId, googleUserId: reg[0].googleUserId }]
                + rest
        } else {
            rest
        }
    }
}

/// The recomputed online-friend refs of an announce: the contributions of
/// every friend edge, in edge order.
pub open spec fn online_friends_spec(
    friends: Seq<UserFriendEntityView>,
    reg: Seq<ClientMetadataView>,
    self_conn: u32,
) -> Seq<OnlineFriendView>
    decreases friends.len(),
{
    if friends.len() == 0 {
        Seq::empty()
    } else {
        online_matches(friends[0], reg, self_conn) + online_friends_spec(
            friends.drop_first(),
            reg,
            self_conn,
        )
    }
}

/// The watch notices one friend edge contributes: the current video of
/// every live connection owned by that friend, with the friend's display
/// data.
pub open spec fn watching_matches(
    f: UserFriendEntityView,
    reg: Seq<ClientMetadataView>,
    self_conn: u32,
) -> Seq<WsFriendCurrentVideoView>
    decreases reg.len(),
{
    if reg.len() == 0 {
        Seq::empty()
    } else {
        let rest = watching_matches(f, reg.drop_first(), self_conn);
        if reg[0].googleUserId == f.friend_google_uid && reg[0].socketId != self_conn
            && reg[0].currentVideo is Some {
            seq![
                WsFriendCurrentVideoView {
                    googleUserId: reg[0].googleUserId,
                    videoData: reg[0].currentVideo.unwrap(),
                    friendData: CurrentVideoFriendView {
                        full_name: f.friend.full_name,
                        image_url: f.friend.image_url,
                    },
                },
            ] + rest
        } else {
            rest
        }
    }
}

/// What the announcing identity's friends are watching right now, in edge
/// order.
pub open spec fn friends_watching_spec(
    friends: Seq<UserFriendEntityView>,
    reg: Seq<ClientMetadataView>,
    self_conn: u32,
) -> Seq<WsFriendCurrentVideoView>
    decreases friends.len(),
{
    if friends.len() == 0 {
        Seq::empty()
    } else {
        watching_matches(friends[0], reg, self_conn) + friends_watching_spec(
            friends.drop_first(),
            reg,
            self_conn,
        )
    }
}

/// One edge's contributions never point at the announcing connection.
proof fn lemma_online_matches_excludes(
    f: UserFriendEntityView,
    reg: Seq<ClientMetadataView>,
    self_conn: u32,
)
    ensures
        refs_exclude(online_matches(f, reg, self_conn), self_conn),
    decreases reg.len(),
{
    if reg.len() > 0 {
        lemma_online_matches_excludes(f, reg.drop_first(), self_conn);
        let rest = online_matches(f, reg.drop_first(), self_conn);
        if reg[0].googleUserId == f.friend_google_uid && reg[0].socketId != self_conn {
            let e = OnlineFriendView { socketId: reg[0].socketId, googleUserId: reg[0].googleUserId };
            let l = seq![e] + rest;
            assert forall|k: int| 0 <= k < l.len() implies l[k].socketId != self_conn by {
                if k == 0 {
                    assert(l[0] == e);
                } else {
                    assert(l[k] == rest[k - 1]);
                }
            }
        }
    }
}

/// Recomputed online-friend refs never point at the announcing connection.
proof fn lemma_online_spec_excludes(
    friends: Seq<UserFriendEntityView>,
    reg: Seq<ClientMetadataView>,
    self_conn: u32,
)
    ensures
        refs_exclude(online_friends_spec(friends, reg, self_conn), self_conn),
    decreases friends.len(),
{
    if friends.len() > 0 {
        lemma_online_matches_excludes(friends[0], reg, self_conn);
        lemma_online_spec_excludes(friends.drop_first(), reg, self_conn);
        let head = online_matches(friends[0], reg, self_conn);
        let rest = online_friends_spec(friends.drop_first(), reg, self_conn);
        let l = head + rest;
        assert forall|k: int| 0 <= k < l.len() implies l[k].socketId != self_conn by {
            if k < head.len() {
                assert(l[k] == head[k]);
            } else {
                assert(l[k] == rest[k - head.len()]);
            }
        }
    }
}

/// Collects one friend edge's contributions: its refs onto `online`, its
/// watch notices onto `watching`, scanning the registry in order.
fn scan_friend(
    registry: &ConnectionRegistry,
    f: &UserFriendEntity,
    self_conn: u32,
    online: &mut Vec<WsOnlineFriend>,
    watching: &mut Vec<WsFriendCurrentVideo>,
)
    ensures
        friend_views(final(online)@) == friend_views(old(online)@) + online_matches(
            f@,
            registry@,
            self_conn,
        ),
        friend_video_views(final(watching)@) == friend_video_views(old(watching)@)
            + watching_matches(f@, registry@, self_conn),
{
    let n = registry.len();
    let mut j: usize = 0;
    proof {
        assert(registry@.skip(0) =~= registry@);
    }
    while j < n
        invariant
            n == registry@.len(),
            j <= n,
            friend_views(online@) + online_matches(f@, registry@.skip(j as int), self_conn)
                == friend_views(old(online)@) + online_matches(f@, registry@, self_conn),
            friend_video_views(watching@) + watching_matches(
                f@,
                registry@.skip(j as int),
                self_conn,
            ) == friend_video_views(old(watching)@) + watching_matches(f@, registry@, self_conn),
        decreases n - j,
    {
        let ghost pre = registry@.skip(j as int);
        proof {
            assert(pre[0] == registry@[j as int]);
            assert(pre.drop_first() =~= registry@.skip(j as int + 1));
        }
        let meta = registry.entry_at(j);
        if meta.googleUserId == f.friend_google_uid && meta.socketId != self_conn {
            let of = WsOnlineFriend {
                socketId: meta.socketId,
                googleUserId: meta.googleUserId.clone(),
            };
            proof {
                let rest = online_matches(f@, pre.drop_first(), self_conn);
                assert(online_matches(f@, pre, self_conn) =~= seq![of@] + rest);
                assert(friend_views(online@.push(of)) =~= friend_views(online@).push(of@));
                assert(friend_views(online@).push(of@) + rest =~= friend_views(online@) + (
                seq![of@] + rest));
            }
            online.push(of);
            match &meta.currentVideo {
                Some(vd) => {
                    let w = WsFriendCurrentVideo {
                        googleUserId: meta.googleUserId.clone(),
                        videoData: vd.clone(),
                        friendData: CurrentVideoFriend {
                            full_name: f.friend.full_name.clone(),
                            image_url: f.friend.image_url.clone(),
                        },
                    };
                    proof {
                        let rest = watching_matches(f@, pre.drop_first(), self_conn);
                        assert(watching_matches(f@, pre, self_conn) =~= seq![w@] + rest);
                        assert(friend_video_views(watching@.push(w)) =~= friend_video_views(
                            watching@,
                        ).push(w@));
                        assert(friend_video_views(watching@).push(w@) + rest =~= friend_video_views(
                            watching@,
                        ) + (seq![w@] + rest));
                    }
                    watching.push(w);
                },
                None => {
                    proof {
                        assert(watching_matches(f@, pre, self_conn) == watching_matches(
                            f@,
                            pre.drop_first(),
                            self_conn,
                        ));
                    }
                },
            }
        } else {
            proof {
                assert(online_matches(f@, pre, self_conn) == online_matches(
                    f@,
                    pre.drop_first(),
                    self_conn,
                ));
                assert(watching_matches(f@, pre, self_conn) == watching_matches(
                    f@,
                    pre.drop_first(),
                    self_conn,
                ));
            }
        }
        j = j + 1;
    }
    proof {
        assert(registry@.skip(n as int) =~= Seq::<ClientMetadataView>::empty());
        assert(friend_views(online@) + online_matches(
            f@,
            Seq::<ClientMetadataView>::empty(),
            self_conn,
        ) =~= friend_views(online@));
        assert(friend_video_views(watching@) + watching_matches(
            f@,
            Seq::<ClientMetadataView>::empty(),
            self_conn,
        ) =~= friend_video_views(watching@));
    }
}

/// Handles an identity announce: the identity is upserted in the store,
/// its friend edges are loaded, its online-friend refs and its friends'
/// current videos are recomputed from the registry, its registry entry is
/// upserted — inserted fresh, or refreshed in place when this connection
/// already owns one — and the sender is owed the resulting listing.
pub fn handle_user(
    store: &mut Store,
    registry: &mut ConnectionRegistry,
    conn_id: u32,
    user_details: &TakeUserMessage,
    now: i64,
) -> (reply: TakeVideosBeingWatched)
    requires
        store_wf(old(store)@),
        old(store)@.next_user_id < id_limit(),
        old(registry).wf(),
    ensures
        store_wf(final(store)@),
        final(registry).wf(),
        final(store)@ == upsert_user_transition(
            old(store)@,
            user_details.authData.uid@,
            user_details.provider@,
            user_details.authData.fullName@,
            user_details.authData.imageUrl@,
            now,
        ),
        ({
            let friends = list_edges(final(store)@, user_details.authData.uid@);
            &&& final(registry)@ == upsert_transition(
                old(registry)@,
                conn_id,
                user_details.authData.uid@,
                online_friends_spec(friends, old(registry)@, conn_id),
            )
            &&& entity_views(reply.friendsOnTubePeek@) == friends
            &&& friend_video_views(reply.friendsOnYoutubeNow@) == friends_watching_spec(
                friends,
                old(registry)@,
                conn_id,
            )
        }),
{
    persist_user(store, user_details, now);
    let existing_friends = store.list_friend_edges(&user_details.authData.uid);
    let ghost ev = entity_views(existing_friends@);
    let ghost rv = registry@;
    let mut online_friends: Vec<WsOnlineFriend> = Vec::new();
    let mut friends_current_video: Vec<WsFriendCurrentVideo> = Vec::new();
    let n = existing_friends.len();
    let mut i: usize = 0;
    proof {
        assert(ev.skip(0) =~= ev);
        assert(friend_views(online_friends@) =~= Seq::<OnlineFriendView>::empty());
        assert(friend_video_views(friends_current_video@)
            =~= Seq::<WsFriendCurrentVideoView>::empty());
    }
    while i < n
        invariant
            n == existing_friends@.len(),
            i <= n,
            ev == entity_views(existing_friends@),
            registry@ == rv,
            friend_views(online_friends@) + online_friends_spec(ev.skip(i as int), rv, conn_id)
                == online_friends_spec(ev, rv, conn_id),
            friend_video_views(friends_current_video@) + friends_watching_spec(
                ev.skip(i as int),
                rv,
                conn_id,
            ) == friends_watching_spec(ev, rv, conn_id),
        decreases n - i,
    {
        let ghost pre = ev.skip(i as int);
        proof {
            assert(pre[0] == ev[i as int]);
            assert(pre[0] == existing_friends@[i as int]@);
            assert(pre.drop_first() =~= ev.skip(i as int + 1));
        }
        let ghost fv0 = friend_views(online_friends@);
        let ghost wv0 = friend_video_views(friends_current_video@);
        scan_friend(
            registry,
            &existing_friends[i],
            conn_id,
            &mut online_friends,
            &mut friends_current_video,
        );
        proof {
            assert(friend_views(online_friends@) + online_friends_spec(
                ev.skip(i as int + 1),
                rv,
                conn_id,
            ) =~= fv0 + (online_matches(pre[0], rv, conn_id) + online_friends_spec(
                pre.drop_first(),
                rv,
                conn_id,
            )));
            assert(friend_video_views(friends_current_video@) + friends_watching_spec(
                ev.skip(i as int + 1),
                rv,
                conn_id,
            ) =~= wv0 + (watching_matches(pre[0], rv, conn_id) + friends_watching_spec(
                pre.drop_first(),
                rv,
                conn_id,
            )));
        }
        i = i + 1;
    }
    proof {
        assert(ev.skip(n as int) =~= Seq::<UserFriendEntityView>::empty());
        assert(friend_views(online_friends@) + online_friends_spec(
            Seq::<UserFriendEntityView>::empty(),
            rv,
            conn_id,
        ) =~= friend_views(online_friends@));
        assert(friend_video_views(friends_current_video@) + friends_watching_spec(
            Seq::<UserFriendEntityView>::empty(),
            rv,
            conn_id,
        ) =~= friend_video_views(friends_current_video@));
        lemma_online_spec_excludes(ev, rv, conn_id);
    }
    registry.upsert(conn_id, &user_details.authData.uid, online_friends);
    TakeVideosBeingWatched {
        friendsOnYoutubeNow: friends_current_video,
        friendsOnTubePeek: existing_friends,
    }
}

/// Exactly-once fan-out: a notice reaches connection `t` once per cached
/// ref to it when `t` is live, and never when `t` is gone.
pub proof fn lemma_fanout_count(
    refs: Seq<OnlineFriendView>,
    reg: Seq<ClientMetadataView>,
    n: NoticeView,
    t: u32,
)
    ensures
        count_matches(fanout(refs, reg, n), target_pred(t)) == if index_of_conn(reg, t) != -1 {
            count_matches(refs, ref_target_pred(t))
        } else {
            0int
        },
    decreases refs.len(),
{
    if refs.len() > 0 {
        lemma_fanout_count(refs.drop_first(), reg, n, t);
        let rest = fanout(refs.drop_first(), reg, n);
        if index_of_conn(reg, refs[0].socketId) != -1 {
            let d = DeliveryView { target: refs[0].socketId, notice: n };
            let l = seq![d] + rest;
            assert(l[0] == d);
            assert(l.drop_first() =~= rest);
        }
    }
}

/// Presence fan-out: when the reporter `conn_a` is live and registered and
/// its entry caches exactly one ref to the live connection `b`, a video
/// change delivers exactly one notice to `b` — and none to a connection
/// `c` that is gone, or that no cached ref points at.
pub proof fn lemma_presence_fanout(
    reg1: Seq<ClientMetadataView>,
    conn_a: u32,
    uid: Seq<char>,
    u: Option<UsermasterView>,
    v: CurrentVideoView,
    b: u32,
    c: u32,
)
    requires
        lookup_conn(reg1, conn_a) is Some,
        u is Some,
        count_matches(refs_of(reg1, conn_a), ref_target_pred(b)) == 1,
        index_of_conn(reg1, b) != -1,
    ensures
        count_matches(video_change_fanout(reg1, conn_a, uid, u, v), target_pred(b)) == 1,
        index_of_conn(reg1, c) == -1 ==> count_matches(
            video_change_fanout(reg1, conn_a, uid, u, v),
            target_pred(c),
        ) == 0,
        count_matches(refs_of(reg1, conn_a), ref_target_pred(c)) == 0 ==> count_matches(
            video_change_fanout(reg1, conn_a, uid, u, v),
            target_pred(c),
        ) == 0,
{
    let refs = refs_of(reg1, conn_a);
    let n = video_notice(uid, u.unwrap(), v);
    lemma_fanout_count(refs, reg1, n, b);
    lemma_fanout_count(refs, reg1, n, c);
}

/// Disconnect cleanup: after a disconnect the connection's entry is gone,
/// and a live friend connection with exactly one cached ref receives
/// exactly one offline notice.
pub proof fn lemma_disconnect_cleanup(reg: Seq<ClientMetadataView>, conn_a: u32, b: u32)
    requires
        distinct_socket_ids(reg),
        lookup_conn(reg, conn_a) is Some,
        count_matches(refs_of(reg, conn_a), ref_target_pred(b)) == 1,
        index_of_conn(reg, b) != -1,
    ensures
        lookup_conn(remove_transition(reg, conn_a), conn_a) is None,
        count_matches(
            fanout(
                refs_of(reg, conn_a),
                reg,
                NoticeView::TakeFriendOnlineStatus {
                    googleUserId: lookup_conn(reg, conn_a).unwrap().googleUserId,
                    onlineState: false,
                },
            ),
            target_pred(b),
        ) == 1,
{
    lemma_remove_self_absent(reg, conn_a);
    lemma_fanout_count(
        refs_of(reg, conn_a),
        reg,
        NoticeView::TakeFriendOnlineStatus {
            googleUserId: lookup_conn(reg, conn_a).unwrap().googleUserId,
            onlineState: false,
        },
        b,
    );
}

} // verus!
