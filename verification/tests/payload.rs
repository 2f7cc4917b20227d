use udp_stress::payload::bloat_message;

#[test]
fn short_message_is_repeated_to_size() {
    // 9 bytes wanted from a 4-byte message: 3 whole copies
    assert_eq!(bloat_message("heey", 9), "heeyheeyheey");
}

#[test]
fn long_message_is_kept_verbatim() {
    assert_eq!(bloat_message("how was your weekend?", 5), "how was your weekend?");
    assert_eq!(bloat_message("bye", 3), "bye");
}

#[test]
fn bloated_message_reaches_the_target() {
    let bloated = bloat_message("what's up?", 420);
    assert!(bloated.len() >= 420);
    assert!(bloated.len() < 420 + "what's up?".len());
    assert!(bloated.starts_with("what's up?"));
}
