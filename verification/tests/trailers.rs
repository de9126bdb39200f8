use monosplice::trailers::{append_trailer, get_trailer, ORIGIN_TRAILER, SOURCE_TRAILER};
#[test]
fn appends_a_trailer_as_a_new_block_after_a_plain_message() {
    assert_eq!(
        append_trailer("feat: add thing", SOURCE_TRAILER, "abc123"),
        "feat: add thing\n\nMonosplice-Source: abc123\n"
    );
}

#[test]
fn appends_into_an_existing_trailer_block() {
    let msg = "feat: add thing\n\nLonger body here.\n\nSigned-off-by: Someone <s@x.y>\n";
    assert_eq!(
        append_trailer(msg, ORIGIN_TRAILER, "def456"),
        "feat: add thing\n\nLonger body here.\n\nSigned-off-by: Someone <s@x.y>\nMonosplice-Origin: def456\n"
    );
}

#[test]
fn round_trips_get_trailer_reads_what_append_trailer_wrote() {
    let out = append_trailer("fix: bug\n\nBody paragraph.", SOURCE_TRAILER, "cafe01");
    assert_eq!(get_trailer(&out, SOURCE_TRAILER).as_deref(), Some("cafe01"));
    assert_eq!(get_trailer(&out, ORIGIN_TRAILER), None);
}

#[test]
fn does_not_read_a_subject_line_as_a_trailer() {
    assert_eq!(
        get_trailer("Monosplice-Source: not-really", SOURCE_TRAILER),
        None
    );
}

#[test]
fn only_reads_the_final_block() {
    let msg = "subj\n\nMonosplice-Source: old\n\nActual final paragraph of prose.";
    assert_eq!(get_trailer(msg, SOURCE_TRAILER), None);
}

#[test]
fn handles_multi_trailer_final_blocks() {
    let msg = "subj\n\nMonosplice-Source: aaa\nMonosplice-Origin: bbb\n";
    assert_eq!(get_trailer(msg, SOURCE_TRAILER).as_deref(), Some("aaa"));
    assert_eq!(get_trailer(msg, ORIGIN_TRAILER).as_deref(), Some("bbb"));
}

#[test]
fn normalizes_crlf_before_reading_and_writing() {
    let msg = "subj\r\n\r\nMonosplice-Source: aaa\r\n";
    assert_eq!(get_trailer(msg, SOURCE_TRAILER).as_deref(), Some("aaa"));
    assert_eq!(
        append_trailer("feat: x\r\n", ORIGIN_TRAILER, "bbb"),
        "feat: x\n\nMonosplice-Origin: bbb\n"
    );
}

#[test]
fn an_empty_message_becomes_a_bare_trailer() {
    assert_eq!(
        append_trailer("", SOURCE_TRAILER, "abc"),
        "Monosplice-Source: abc\n"
    );
    assert_eq!(
        append_trailer("   \n\n ", SOURCE_TRAILER, "abc"),
        "Monosplice-Source: abc\n"
    );
}

#[test]
fn a_final_block_with_a_prose_line_is_not_a_trailer_block() {
    let msg = "subj\n\nMonosplice-Source: aaa\nnot a trailer line\n";
    assert_eq!(get_trailer(msg, SOURCE_TRAILER), None);
    // ...and appending starts a fresh block rather than extending it.
    assert_eq!(
        append_trailer(msg, ORIGIN_TRAILER, "bbb"),
        "subj\n\nMonosplice-Source: aaa\nnot a trailer line\n\nMonosplice-Origin: bbb\n"
    );
}

#[test]
fn trailer_keys_must_match_exactly_and_values_are_trimmed() {
    let msg = "subj\n\nMonosplice-Source:   aaa  \nX-Monosplice-Source: bbb\n";
    assert_eq!(get_trailer(msg, SOURCE_TRAILER).as_deref(), Some("aaa"));
    // The `X-` prefixed line has a key that is not `Monosplice-Source`.
    assert_eq!(get_trailer(msg, "Monosplice-Sourc"), None);
}

#[test]
fn a_trailer_line_needs_a_space_and_a_value() {
    // "Key:value" (no whitespace) and "Key: " (no value) are not trailer lines,
    // so the paragraph is not a trailer block.
    assert_eq!(
        get_trailer("subj\n\nMonosplice-Source:aaa", SOURCE_TRAILER),
        None
    );
    assert_eq!(
        get_trailer("subj\n\nMonosplice-Source: ", SOURCE_TRAILER),
        None
    );
}

#[test]
fn paragraphs_split_on_runs_of_two_or_more_newlines() {
    let msg = "subj\n\n\n\nMonosplice-Source: aaa";
    assert_eq!(get_trailer(msg, SOURCE_TRAILER).as_deref(), Some("aaa"));
}

#[test]
fn trailing_whitespace_is_trimmed_before_appending() {
    assert_eq!(
        append_trailer("feat: x\n\n\n", SOURCE_TRAILER, "abc"),
        "feat: x\n\nMonosplice-Source: abc\n"
    );
}

#[test]
fn a_message_that_reads_as_a_trailer_only_once_normalized_keeps_its_own_value() {
    let message = "a\n\r\r\nK: v";
    assert_eq!(get_trailer(message, "K"), None);
    let out = append_trailer(message, "K", "x");
    assert_eq!(out, "a\n\r\nK: v\nK: x\n");
    assert_eq!(get_trailer(&out, "K").as_deref(), Some("v"));
}
