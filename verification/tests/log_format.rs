use project_blaze::log_format::{log_color, pad_tag, LogColor};

#[test]
fn tags_are_padded_to_the_column() {
    assert_eq!(pad_tag("[ZONE] robot-1 entered zone 2"), "[ZONE]   robot-1 entered zone 2");
    assert_eq!(pad_tag("[QUEUE] loaded"), "[QUEUE]  loaded");
    assert_eq!(pad_tag("[HEALTH] robot-0 heartbeat"), "[HEALTH] robot-0 heartbeat");
    assert_eq!(pad_tag("[LONGTAG!] x"), "[LONGTAG!] x");
    assert_eq!(pad_tag("no tag here"), "no tag here");
    assert_eq!(pad_tag("]"), "]       ");
}

#[test]
fn colours_follow_the_line() {
    assert_eq!(log_color("[QUEUE]  robot-0 fetched task 1"), LogColor::Cyan);
    assert_eq!(log_color("[ZONE]   robot-0 left zone 1"), LogColor::Yellow);
    assert_eq!(log_color("[HEALTH] robot 1 marked offline"), LogColor::Red);
    assert_eq!(log_color("[HEALTH] robot-1 stops heartbeats"), LogColor::Red);
    assert_eq!(log_color("[HEALTH] robot-0 heartbeat"), LogColor::Green);
    assert_eq!(log_color("[DEMO]   start"), LogColor::Gray);
    // The queue tag wins over later words.
    assert_eq!(log_color("[QUEUE] offline"), LogColor::Cyan);
}
