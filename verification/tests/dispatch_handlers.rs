use tubepeek_server::dispatch::handle_disconnect;
use tubepeek_server::dispatch::handle_friend_exclusion;
use tubepeek_server::dispatch::handle_friendship;
use tubepeek_server::dispatch::handle_online_status_change;
use tubepeek_server::dispatch::handle_user;
use tubepeek_server::dispatch::handle_video_change;
use tubepeek_server::dispatch::persist_video_watched;
use tubepeek_server::dispatch::route_action;
use tubepeek_server::dispatch::video_change_begin;
use tubepeek_server::dispatch::Delivery;
use tubepeek_server::dispatch::MessageKind;
use tubepeek_server::dispatch::OutboundNotice;
use tubepeek_server::dispatch::Reply;
use tubepeek_server::registry::ConnectionRegistry;
use tubepeek_server::store::Store;
use tubepeek_server::ws_dto::AuthData;
use tubepeek_server::ws_dto::FriendExclusionMessage;
use tubepeek_server::ws_dto::MakeFriendshipMessage;
use tubepeek_server::ws_dto::OnlineStatusChange;
use tubepeek_server::ws_dto::TakeUserMessage;
use tubepeek_server::ws_dto::VideoChangeMessage;
use tubepeek_server::ws_dto::YoutubeVideoResponse;
use tubepeek_server::ws_dto::YoutubeVideoResponseItem;
use tubepeek_server::ws_dto::YoutubeVideoResponseItemSnippet;
use tubepeek_server::ws_dto::YoutubeVideoResponseItemSnippetThumbnail;
use tubepeek_server::ws_dto::YoutubeVideoResponseItemSnippetThumbnailDetail;

fn announce(uid: &str, name: &str) -> TakeUserMessage {
    TakeUserMessage {
        action: "TakeUserMessage".to_string(),
        provider: "google".to_string(),
        authData: AuthData {
            uid: uid.to_string(),
            fullName: name.to_string(),
            imageUrl: format!("https://img.example/{}.jpg", uid),
        },
    }
}

fn friendship(a: &str, b: &str) -> MakeFriendshipMessage {
    MakeFriendshipMessage {
        action: "MakeFriendship".to_string(),
        googleUserId: a.to_string(),
        friendGoogleUserId: b.to_string(),
    }
}

fn video_response(title: &str, thumb: &str) -> YoutubeVideoResponse {
    YoutubeVideoResponse {
        items: vec![YoutubeVideoResponseItem {
            snippet: YoutubeVideoResponseItemSnippet {
                title: title.to_string(),
                thumbnails: YoutubeVideoResponseItemSnippetThumbnail {
                    default: YoutubeVideoResponseItemSnippetThumbnailDetail {
                        url: thumb.to_string(),
                    },
                },
            },
        }],
    }
}

/// Alice on connection 1 and Bob on connection 2, mutually friended, both
/// announced (Bob first, then Alice, so Alice's entry caches Bob's
/// connection).
fn connected_pair() -> (Store, ConnectionRegistry) {
    let mut store = Store::new();
    let mut reg = ConnectionRegistry::new();
    handle_friendship(&mut store, &reg, &friendship("alice", "bob"), 500);
    handle_user(&mut store, &mut reg, 2, &announce("bob", "Bob"), 600);
    handle_user(&mut store, &mut reg, 1, &announce("alice", "Alice"), 700);
    (store, reg)
}

fn targets(deliveries: &[Delivery]) -> Vec<u32> {
    deliveries.iter().map(|d| d.target).collect()
}

#[test]
fn route_action_selects_each_kind() {
    assert!(matches!(route_action("TakeUserMessage"), MessageKind::TakeUser));
    assert!(matches!(route_action("UserChangedOnlineStatus"), MessageKind::OnlineStatus));
    assert!(matches!(route_action("MakeFriendship"), MessageKind::MakeFriendship));
    assert!(matches!(route_action("ChangedVideo"), MessageKind::VideoChange));
    assert!(matches!(route_action("FriendExclusion"), MessageKind::FriendExclusion));
    assert!(matches!(route_action("PING"), MessageKind::Ping));
    assert!(matches!(route_action("SomethingElse"), MessageKind::Unknown));
    assert!(matches!(route_action(""), MessageKind::Unknown));
}

#[test]
fn fixed_reply_texts_are_exact() {
    assert_eq!(Reply::Empty.fixed_text().unwrap(), "{}");
    assert_eq!(Reply::Pong.fixed_text().unwrap(), "{\"action\":\"PONG\"}");
    assert_eq!(Reply::InvalidJson.fixed_text().unwrap(), "Invalid json value");
    assert_eq!(Reply::UnknownType.fixed_text().unwrap(), "Unknown message type");
    assert!(Reply::Error("boom".to_string()).fixed_text().is_none());
}

#[test]
fn video_change_begin_extracts_or_rejects() {
    let ok = VideoChangeMessage {
        action: "ChangedVideo".to_string(),
        googleUserId: "alice".to_string(),
        videoUrl: "https://youtu.be/abc123".to_string(),
    };
    assert_eq!(video_change_begin(&ok).unwrap(), "abc123");
    let bad = VideoChangeMessage {
        action: "ChangedVideo".to_string(),
        googleUserId: "alice".to_string(),
        videoUrl: "https://example.com/no-id-here".to_string(),
    };
    assert_eq!(video_change_begin(&bad).unwrap_err(), "Invalid youtube id");
}

#[test]
fn announce_reports_online_friends_and_their_videos() {
    let (mut store, mut reg) = connected_pair();
    let msg = VideoChangeMessage {
        action: "ChangedVideo".to_string(),
        googleUserId: "bob".to_string(),
        videoUrl: "https://youtu.be/abc123".to_string(),
    };
    handle_video_change(&mut store, &mut reg, 2, &msg, &video_response("A title", "https://img.example/v.jpg"), 800);
    let reply = handle_user(&mut store, &mut reg, 1, &announce("alice", "Alice"), 900);
    assert_eq!(reply.friendsOnTubePeek.len(), 1);
    assert_eq!(reply.friendsOnTubePeek[0].friend_google_uid, "bob");
    assert_eq!(reply.friendsOnYoutubeNow.len(), 1);
    assert_eq!(reply.friendsOnYoutubeNow[0].googleUserId, "bob");
    assert_eq!(reply.friendsOnYoutubeNow[0].videoData.title, "A title");
    assert_eq!(reply.friendsOnYoutubeNow[0].friendData.full_name, "Bob");
}

#[test]
fn announcing_twice_keeps_one_entry_and_recomputes_refs() {
    let (mut store, mut reg) = connected_pair();
    handle_user(&mut store, &mut reg, 1, &announce("alice", "Alice"), 800);
    assert_eq!(reg.len(), 2, "one entry for alice, one for bob");
    let alice = reg.get(1).expect("alice's entry");
    assert_eq!(alice.googleUserId, "alice");
    assert_eq!(alice.onlineFriends.len(), 1);
    assert_eq!(alice.onlineFriends[0].socketId, 2);
}

#[test]
fn video_change_fans_out_to_exactly_the_online_friends() {
    let (mut store, mut reg) = connected_pair();
    // a third, unrelated identity is connected too
    handle_user(&mut store, &mut reg, 3, &announce("carol", "Carol"), 750);
    let msg = VideoChangeMessage {
        action: "ChangedVideo".to_string(),
        googleUserId: "alice".to_string(),
        videoUrl: "https://youtu.be/abc123".to_string(),
    };
    let (deliveries, reply) = handle_video_change(
        &mut store,
        &mut reg,
        1,
        &msg,
        &video_response("A title", "https://img.example/v.jpg"),
        800,
    );
    assert!(matches!(reply, Reply::Empty));
    assert_eq!(targets(&deliveries), vec![2], "exactly one delivery, to bob only");
    match &deliveries[0].notice {
        OutboundNotice::TakeFriendVideoChange(v) => {
            assert_eq!(v.googleUserId, "alice");
            assert_eq!(v.videoData.videoUrl, "https://youtu.be/abc123");
            assert_eq!(v.videoData.title, "A title");
            assert_eq!(v.videoData.thumbnail_url, "https://img.example/v.jpg");
            assert_eq!(v.videoData.timeStampInMilliseconds, 800);
            assert_eq!(v.friendData.full_name, "Alice");
        }
        _ => panic!("expected a video-change notice"),
    }
    let alice = reg.get(1).expect("alice's entry");
    let watch = alice.currentVideo.as_ref().expect("watch state was set");
    assert_eq!(watch.title, "A title");
}

#[test]
fn video_change_with_empty_response_is_an_error_without_side_effects() {
    let (mut store, mut reg) = connected_pair();
    let msg = VideoChangeMessage {
        action: "ChangedVideo".to_string(),
        googleUserId: "alice".to_string(),
        videoUrl: "https://youtu.be/abc123".to_string(),
    };
    let empty = YoutubeVideoResponse { items: Vec::new() };
    let (deliveries, reply) = handle_video_change(&mut store, &mut reg, 1, &msg, &empty, 800);
    assert!(deliveries.is_empty());
    match reply {
        Reply::Error(m) => assert_eq!(m, "Invalid youtube json response format"),
        _ => panic!("expected an error reply"),
    }
    assert!(reg.get(1).unwrap().currentVideo.is_none(), "no watch state was set");
}

#[test]
fn watch_rows_are_deduplicated_across_reports() {
    let (mut store, _reg) = connected_pair();
    let url = "https://youtu.be/abc123".to_string();
    persist_video_watched(&mut store, &"alice".to_string(), &url, &"A title".to_string(), 800);
    persist_video_watched(&mut store, &"alice".to_string(), &url, &"A title".to_string(), 900);
    let user_id = store.find_identity(&"alice".to_string()).unwrap().id;
    let video_id = store.ensure_video(&"abc123".to_string(), &url, &"A title".to_string(), 950);
    assert!(
        !store.ensure_watch(user_id, video_id, 1_000),
        "exactly one watch row exists for the pair"
    );
}

#[test]
fn friendship_broadcasts_to_connected_counterparts() {
    let mut store = Store::new();
    let mut reg = ConnectionRegistry::new();
    handle_user(&mut store, &mut reg, 1, &announce("alice", "Alice"), 500);
    handle_user(&mut store, &mut reg, 2, &announce("bob", "Bob"), 600);
    let deliveries = handle_friendship(&mut store, &reg, &friendship("alice", "bob"), 700);
    assert_eq!(targets(&deliveries), vec![1, 2]);
    match &deliveries[0].notice {
        OutboundNotice::NewFriendOnTubePeek { googleUserId, fullName, .. } => {
            assert_eq!(googleUserId, "bob");
            assert_eq!(fullName, "Bob");
        }
        _ => panic!("expected a new-friend notice"),
    }
    match &deliveries[1].notice {
        OutboundNotice::NewFriendOnTubePeek { googleUserId, fullName, .. } => {
            assert_eq!(googleUserId, "alice");
            assert_eq!(fullName, "Alice");
        }
        _ => panic!("expected a new-friend notice"),
    }
}

#[test]
fn exclusion_does_not_block_insertion() {
    let (mut store, _reg) = connected_pair();
    let msg = FriendExclusionMessage {
        action: "FriendExclusion".to_string(),
        googleUserId: "alice".to_string(),
        friendGoogleUserId: "bob".to_string(),
        exclude: true,
    };
    handle_friend_exclusion(&mut store, &msg);
    let edges = store.list_friend_edges(&"alice".to_string());
    assert_eq!(edges.len(), 1, "the edge survives the exclusion");
    assert_eq!(edges[0].friend_google_uid, "bob");
    assert!(edges[0].is_friend_excluded);
}

#[test]
fn going_offline_broadcasts_and_removes_the_entry() {
    let (_store, mut reg) = connected_pair();
    let msg = OnlineStatusChange {
        action: "UserChangedOnlineStatus".to_string(),
        googleUserId: "alice".to_string(),
        onlineState: false,
    };
    let deliveries = handle_online_status_change(&mut reg, 1, &msg);
    assert_eq!(targets(&deliveries), vec![2]);
    match &deliveries[0].notice {
        OutboundNotice::TakeFriendOnlineStatus { googleUserId, onlineState } => {
            assert_eq!(googleUserId, "alice");
            assert!(!onlineState);
        }
        _ => panic!("expected an online-status notice"),
    }
    assert!(reg.get(1).is_none(), "the entry is removed on going offline");
}

#[test]
fn staying_online_broadcasts_without_removal() {
    let (_store, mut reg) = connected_pair();
    let msg = OnlineStatusChange {
        action: "UserChangedOnlineStatus".to_string(),
        googleUserId: "alice".to_string(),
        onlineState: true,
    };
    let deliveries = handle_online_status_change(&mut reg, 1, &msg);
    assert_eq!(targets(&deliveries), vec![2]);
    assert!(reg.get(1).is_some(), "the entry stays while online");
}

#[test]
fn disconnect_cleans_up_and_notifies_each_friend_once() {
    let (_store, mut reg) = connected_pair();
    let deliveries = handle_disconnect(&mut reg, 1);
    assert_eq!(targets(&deliveries), vec![2], "bob is told exactly once");
    match &deliveries[0].notice {
        OutboundNotice::TakeFriendOnlineStatus { googleUserId, onlineState } => {
            assert_eq!(googleUserId, "alice");
            assert!(!onlineState);
        }
        _ => panic!("expected an offline notice"),
    }
    assert!(reg.get(1).is_none(), "alice's connection id no longer resolves");
    let again = handle_disconnect(&mut reg, 1);
    assert!(again.is_empty(), "a second disconnect finds nothing");
}
