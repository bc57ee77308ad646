use tubepeek_server::registry::ConnectionRegistry;
use tubepeek_server::registry::WsConnectedClientCurrentVideo;
use tubepeek_server::registry::WsOnlineFriend;

fn watch(url: &str) -> WsConnectedClientCurrentVideo {
    WsConnectedClientCurrentVideo {
        videoUrl: url.to_string(),
        title: "a title".to_string(),
        thumbnail_url: "https://img.example/t.jpg".to_string(),
        timeStampInMilliseconds: 1_000,
    }
}

#[test]
fn upsert_inserts_fresh_entry() {
    let mut reg = ConnectionRegistry::new();
    reg.upsert(7, &"alice".to_string(), Vec::new());
    assert_eq!(reg.len(), 1);
    let entry = reg.get(7).expect("entry must exist");
    assert_eq!(entry.socketId, 7);
    assert_eq!(entry.googleUserId, "alice");
    assert!(entry.currentVideo.is_none());
    assert!(entry.onlineFriends.is_empty());
}

#[test]
fn upsert_same_connection_refreshes_refs_and_keeps_watch() {
    let mut reg = ConnectionRegistry::new();
    reg.upsert(7, &"alice".to_string(), Vec::new());
    reg.set_current_watch(7, watch("https://youtu.be/abc"));
    let refs = vec![WsOnlineFriend { socketId: 9, googleUserId: "bob".to_string() }];
    reg.upsert(7, &"alice".to_string(), refs);
    assert_eq!(reg.len(), 1);
    let entry = reg.get(7).expect("entry must exist");
    assert_eq!(entry.googleUserId, "alice");
    assert!(entry.currentVideo.is_some(), "watch state survives a re-announce");
    assert_eq!(entry.onlineFriends.len(), 1);
    assert_eq!(entry.onlineFriends[0].socketId, 9);
}

#[test]
fn announcing_twice_leaves_one_entry_for_the_identity() {
    let mut reg = ConnectionRegistry::new();
    reg.upsert(7, &"alice".to_string(), Vec::new());
    reg.upsert(7, &"alice".to_string(), Vec::new());
    assert_eq!(reg.len(), 1);
    let snapshot = reg.snapshot_all();
    let alices = snapshot.iter().filter(|e| e.googleUserId == "alice").count();
    assert_eq!(alices, 1);
}

#[test]
fn set_current_watch_on_absent_connection_is_noop() {
    let mut reg = ConnectionRegistry::new();
    reg.upsert(7, &"alice".to_string(), Vec::new());
    reg.set_current_watch(8, watch("https://youtu.be/abc"));
    assert_eq!(reg.len(), 1);
    assert!(reg.get(7).unwrap().currentVideo.is_none());
}

#[test]
fn remove_returns_entry_and_clears_it() {
    let mut reg = ConnectionRegistry::new();
    reg.upsert(7, &"alice".to_string(), Vec::new());
    reg.upsert(8, &"bob".to_string(), Vec::new());
    let removed = reg.remove(7).expect("entry was present");
    assert_eq!(removed.googleUserId, "alice");
    assert!(reg.get(7).is_none());
    assert_eq!(reg.len(), 1);
    assert!(reg.remove(7).is_none());
}

#[test]
fn find_by_identity_scans_entries() {
    let mut reg = ConnectionRegistry::new();
    reg.upsert(7, &"alice".to_string(), Vec::new());
    reg.upsert(8, &"bob".to_string(), Vec::new());
    let found = reg.find_by_identity(&"bob".to_string()).expect("bob is connected");
    assert_eq!(found.socketId, 8);
    assert!(reg.find_by_identity(&"carol".to_string()).is_none());
}

#[test]
fn snapshot_is_a_point_in_time_copy() {
    let mut reg = ConnectionRegistry::new();
    reg.upsert(7, &"alice".to_string(), Vec::new());
    let snapshot = reg.snapshot_all();
    reg.remove(7);
    assert_eq!(snapshot.len(), 1);
    assert_eq!(snapshot[0].googleUserId, "alice");
    assert_eq!(reg.len(), 0);
}
