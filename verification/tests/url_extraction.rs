use tubepeek_server::utils::get_youtube_videoid;

#[test]
fn youtu_be_short_link() {
    assert_eq!(
        get_youtube_videoid("https://youtu.be/abc123"),
        Some("abc123".to_string())
    );
}

#[test]
fn watch_query_param_with_trailing_param() {
    assert_eq!(
        get_youtube_videoid("https://x.com/watch?v=abc123&t=5"),
        Some("abc123".to_string())
    );
}

#[test]
fn no_marker_yields_none() {
    assert_eq!(get_youtube_videoid("https://example.com/no-id-here"), None);
}

#[test]
fn full_watch_url() {
    assert_eq!(
        get_youtube_videoid("https://www.youtube.com/watch?v=dQw4w9WgXcQ"),
        Some("dQw4w9WgXcQ".to_string())
    );
}

#[test]
fn embed_path() {
    assert_eq!(
        get_youtube_videoid("https://www.youtube.com/embed/xyz789"),
        Some("xyz789".to_string())
    );
}

#[test]
fn v_path() {
    assert_eq!(
        get_youtube_videoid("https://www.youtube.com/v/vid01"),
        Some("vid01".to_string())
    );
}

#[test]
fn vi_path() {
    assert_eq!(
        get_youtube_videoid("https://www.youtube.com/vi/vid02"),
        Some("vid02".to_string())
    );
}

#[test]
fn u_w_path() {
    assert_eq!(
        get_youtube_videoid("https://www.youtube.com/u/w/vid03"),
        Some("vid03".to_string())
    );
}

#[test]
fn ampersand_v_param() {
    assert_eq!(
        get_youtube_videoid("https://www.youtube.com/watch?feature=share&v=vid04"),
        Some("vid04".to_string())
    );
}

#[test]
fn vi_query_param() {
    assert_eq!(
        get_youtube_videoid("https://www.youtube.com/watch?vi=vid05"),
        Some("vid05".to_string())
    );
}

#[test]
fn id_stops_at_hash() {
    assert_eq!(
        get_youtube_videoid("https://youtu.be/abc#t=30"),
        Some("abc".to_string())
    );
}

#[test]
fn id_stops_at_question_mark() {
    assert_eq!(
        get_youtube_videoid("https://youtu.be/abc?t=30"),
        Some("abc".to_string())
    );
}

#[test]
fn rightmost_marker_wins() {
    assert_eq!(
        get_youtube_videoid("https://youtu.be/first?v=second"),
        Some("second".to_string())
    );
}

#[test]
fn marker_at_end_gives_empty_id() {
    assert_eq!(get_youtube_videoid("https://youtu.be/"), Some(String::new()));
}

#[test]
fn empty_string_yields_none() {
    assert_eq!(get_youtube_videoid(""), None);
}
