use tubepeek_server::models::UserFriend;
use tubepeek_server::models::UserFriendEntity;
use tubepeek_server::models::Usermaster;
use tubepeek_server::store::Store;

fn register(store: &mut Store, uid: &str, name: &str, now: i64) {
    store.upsert_identity(
        &uid.to_string(),
        &"google".to_string(),
        &name.to_string(),
        &format!("https://img.example/{}.jpg", uid),
        now,
    );
}

#[test]
fn upsert_identity_inserts_then_updates() {
    let mut store = Store::new();
    register(&mut store, "alice", "Alice A", 1_000);
    let first_id = store.find_identity(&"alice".to_string()).expect("registered").id;
    store.upsert_identity(
        &"alice".to_string(),
        &"google".to_string(),
        &"Alice B".to_string(),
        &"https://img.example/alice2.jpg".to_string(),
        2_000,
    );
    let row = store.find_identity(&"alice".to_string()).expect("still registered");
    assert_eq!(row.id, first_id, "the row is updated in place");
    assert_eq!(row.full_name, "Alice B");
    assert_eq!(row.image_url, "https://img.example/alice2.jpg");
    assert_eq!(row.provider, "google", "provider never changes on update");
    assert_eq!(row.created_at, 1_000);
    assert_eq!(row.updated_at, Some(2_000));
}

#[test]
fn find_identity_absent() {
    let store = Store::new();
    assert!(store.find_identity(&"nobody".to_string()).is_none());
}

#[test]
fn friendship_edge_is_created_at_most_once() {
    let mut store = Store::new();
    assert!(store.ensure_friendship_edge(&"alice".to_string(), &"bob".to_string(), 1_000));
    assert!(!store.ensure_friendship_edge(&"alice".to_string(), &"bob".to_string(), 2_000));
    assert!(store.ensure_friendship_edge(&"bob".to_string(), &"alice".to_string(), 2_000));
    assert!(!store.ensure_friendship_edge(&"bob".to_string(), &"alice".to_string(), 3_000));
}

#[test]
fn list_friend_edges_joins_registered_friends_only() {
    let mut store = Store::new();
    register(&mut store, "alice", "Alice", 1_000);
    register(&mut store, "bob", "Bob", 1_000);
    store.ensure_friendship_edge(&"alice".to_string(), &"bob".to_string(), 1_000);
    store.ensure_friendship_edge(&"alice".to_string(), &"ghost".to_string(), 1_000);
    let edges = store.list_friend_edges(&"alice".to_string());
    assert_eq!(edges.len(), 1, "an unregistered friend is not joined");
    assert_eq!(edges[0].user_google_uid, "alice");
    assert_eq!(edges[0].friend_google_uid, "bob");
    assert_eq!(edges[0].friend.full_name, "Bob");
    assert!(!edges[0].is_friend_excluded);
}

#[test]
fn exclusion_flags_edge_without_deleting_it() {
    let mut store = Store::new();
    register(&mut store, "alice", "Alice", 1_000);
    register(&mut store, "bob", "Bob", 1_000);
    store.ensure_friendship_edge(&"alice".to_string(), &"bob".to_string(), 1_000);
    store.set_exclusion(&"alice".to_string(), &"bob".to_string(), true);
    let edges = store.list_friend_edges(&"alice".to_string());
    assert_eq!(edges.len(), 1, "the edge still exists");
    assert_eq!(edges[0].friend_google_uid, "bob");
    assert!(edges[0].is_friend_excluded);
    assert!(
        !store.ensure_friendship_edge(&"alice".to_string(), &"bob".to_string(), 2_000),
        "an excluded edge still blocks re-insertion"
    );
}

#[test]
fn exclusion_is_one_sided() {
    let mut store = Store::new();
    register(&mut store, "alice", "Alice", 1_000);
    register(&mut store, "bob", "Bob", 1_000);
    store.ensure_friendship_edge(&"alice".to_string(), &"bob".to_string(), 1_000);
    store.ensure_friendship_edge(&"bob".to_string(), &"alice".to_string(), 1_000);
    store.set_exclusion(&"alice".to_string(), &"bob".to_string(), true);
    let bobs = store.list_friend_edges(&"bob".to_string());
    assert_eq!(bobs.len(), 1);
    assert!(!bobs[0].is_friend_excluded, "the reverse edge keeps its own flag");
}

#[test]
fn set_exclusion_on_missing_edge_is_noop() {
    let mut store = Store::new();
    store.set_exclusion(&"alice".to_string(), &"bob".to_string(), true);
    assert!(
        store.ensure_friendship_edge(&"alice".to_string(), &"bob".to_string(), 1_000),
        "no edge was created by the exclusion"
    );
}

#[test]
fn ensure_video_hands_out_one_row_per_content_id() {
    let mut store = Store::new();
    let first = store.ensure_video(
        &"abc123".to_string(),
        &"https://youtu.be/abc123".to_string(),
        &"First title".to_string(),
        1_000,
    );
    let second = store.ensure_video(
        &"abc123".to_string(),
        &"https://youtu.be/abc123?t=5".to_string(),
        &"Other title".to_string(),
        2_000,
    );
    let third = store.ensure_video(
        &"xyz789".to_string(),
        &"https://youtu.be/xyz789".to_string(),
        &"Third title".to_string(),
        3_000,
    );
    assert_eq!(first, second, "the same content id keeps its row");
    assert_ne!(first, third);
}

#[test]
fn entity_joins_edge_with_friend_row() {
    let edge = UserFriend {
        id: 3,
        user_google_uid: "alice".to_string(),
        friend_google_uid: "bob".to_string(),
        is_friend_excluded: true,
        created_at: 1_000,
        updated_at: Some(2_000),
    };
    let friend = Usermaster {
        id: 9,
        uid: "bob".to_string(),
        provider: "google".to_string(),
        full_name: "Bob".to_string(),
        image_url: "https://img.example/bob.jpg".to_string(),
        created_at: 500,
        updated_at: None,
    };
    let entity = UserFriendEntity::from(&edge, &friend);
    assert_eq!(entity.id, 3);
    assert_eq!(entity.user_google_uid, "alice");
    assert_eq!(entity.friend_google_uid, "bob");
    assert!(entity.is_friend_excluded);
    assert_eq!(entity.created_at, 1_000);
    assert_eq!(entity.updated_at, Some(2_000));
    assert_eq!(entity.friend.uid, "bob");
    assert_eq!(entity.friend.full_name, "Bob");
}

#[test]
fn ensure_watch_inserts_each_pair_once() {
    let mut store = Store::new();
    register(&mut store, "alice", "Alice", 1_000);
    let user_id = store.find_identity(&"alice".to_string()).unwrap().id;
    let video_id = store.ensure_video(
        &"abc123".to_string(),
        &"https://youtu.be/abc123".to_string(),
        &"A title".to_string(),
        1_000,
    );
    assert!(store.ensure_watch(user_id, video_id, 1_000));
    assert!(!store.ensure_watch(user_id, video_id, 2_000), "the pair exists already");
}
