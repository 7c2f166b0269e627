use pty_secret::ansi::strip_ansi_codes;

#[test]
fn strips_color_codes() {
    assert_eq!(strip_ansi_codes("\x1b[31mred\x1b[0m text"), "red text");
}

#[test]
fn plain_text_unchanged() {
    let s = "Address: 0xabc\nPrivate key: 0x123\n";
    assert_eq!(strip_ansi_codes(s), s);
    assert_eq!(strip_ansi_codes(""), "");
    assert_eq!(strip_ansi_codes("héllo wörld ✓"), "héllo wörld ✓");
}

#[test]
fn truncated_sequence_dropped() {
    assert_eq!(strip_ansi_codes("done\x1b[12;3"), "done");
    assert_eq!(strip_ansi_codes("done\x1b"), "done");
}

#[test]
fn lone_escape_dropped() {
    assert_eq!(strip_ansi_codes("a\x1bb"), "ab");
    assert_eq!(strip_ansi_codes("a\x1b\x1b[2Kb"), "ab");
}

#[test]
fn sequence_ends_at_first_letter() {
    assert_eq!(strip_ansi_codes("\x1b[1;32;40mOK"), "OK");
    assert_eq!(strip_ansi_codes("\x1b[?25hshown"), "shown");
}

#[test]
fn strip_is_idempotent_on_samples() {
    let samples = [
        "",
        "plain",
        "\x1b[31mred\x1b[0m",
        "\x1b\x1b[a[",
        "x\x1b[",
        "\x1b[2J\x1b[HPassword: ",
    ];
    for s in samples.iter() {
        let once = strip_ansi_codes(s);
        assert_eq!(strip_ansi_codes(&once), once);
    }
}
