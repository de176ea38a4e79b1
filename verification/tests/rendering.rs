use milestone_scheduler::duration::synth_duration;
use milestone_scheduler::render::{
    event_variant, render_session, repair_content_length, sanitize_event_token,
    substitute_placeholders,
};
use milestone_scheduler::text::{contains_bytes, find_pat, format_i64, format_u64, replace_bytes};

#[test]
fn replace_replaces_every_occurrence_left_to_right() {
    assert_eq!(replace_bytes(b"aaa", b"aa", b"b"), b"ba".to_vec());
    assert_eq!(replace_bytes(b"x{t}y{t}", b"{t}", b"1"), b"x1y1".to_vec());
    assert_eq!(replace_bytes(b"abc", b"zz", b"1"), b"abc".to_vec());
}

#[test]
fn replacement_text_is_not_rescanned() {
    assert_eq!(replace_bytes(b"ab", b"ab", b"abab"), b"abab".to_vec());
}

#[test]
fn find_returns_leftmost_match() {
    assert_eq!(find_pat(b"xx_day_day", b"_day"), Some(2));
    assert_eq!(find_pat(b"xx", b"_day"), None);
    assert!(contains_bytes(b"a\n\nb", b"\n\n"));
    assert!(!contains_bytes(b"a\nb", b"\n\n"));
}

#[test]
fn decimal_formatting_is_exact() {
    assert_eq!(format_u64(0), b"0".to_vec());
    assert_eq!(format_u64(12345), b"12345".to_vec());
    assert_eq!(format_i64(-5), b"-5".to_vec());
    assert_eq!(format_i64(0), b"0".to_vec());
    assert_eq!(format_i64(i64::MIN), b"-9223372036854775808".to_vec());
    assert_eq!(format_i64(i64::MAX), b"9223372036854775807".to_vec());
}

#[test]
fn token_truncated_at_first_day_marker() {
    assert_eq!(sanitize_event_token(b"level3_day4"), b"level3".to_vec());
    assert_eq!(sanitize_event_token(b"level3"), b"level3".to_vec());
    assert_eq!(sanitize_event_token(b"_day"), b"".to_vec());
    assert_eq!(sanitize_event_token(b"a_day_dayb"), b"a".to_vec());
}

#[test]
fn placeholders_substituted_with_values() {
    let out = substitute_placeholders(
        b"t={event_token} s={time_spent} a={account_name} g={game_id} l={level_name} d={days_offset}",
        b"tok",
        31999,
        b"alice",
        7,
        b"L1",
        3,
    );
    assert_eq!(out, b"t=tok s=31999 a=alice g=7 l=L1 d=3".to_vec());
}

#[test]
fn unrecognized_placeholders_left_verbatim() {
    let out = substitute_placeholders(b"{foo} {event_token}", b"tok", 1, b"a", 1, b"n", 1);
    assert_eq!(out, b"{foo} tok".to_vec());
}

#[test]
fn substitution_is_idempotent_once_placeholders_are_gone() {
    let once = substitute_placeholders(b"x {event_token} y", b"tok", 5, b"a", 2, b"n", 1);
    let twice = substitute_placeholders(&once, b"tok", 5, b"a", 2, b"n", 1);
    assert_eq!(once, twice);
}

#[test]
fn content_length_inserted_with_exact_body_byte_length() {
    let out = repair_content_length(b"POST /session HTTP/1.1\nHost: h\n\nhello");
    assert_eq!(
        out,
        b"POST /session HTTP/1.1\nHost: h\nContent-Length: 5\n\nhello".to_vec()
    );
}

#[test]
fn content_length_counts_everything_after_the_separator() {
    let out = repair_content_length(b"H: v\n\nab\n\ncd");
    // The body is all six bytes after the first blank line.
    assert_eq!(out, b"H: v\nContent-Length: 6\n\nab\n\ncd".to_vec());
}

#[test]
fn repair_skipped_when_header_present_or_no_separator() {
    let with_header = b"A\nContent-Length: 9\n\nbody".to_vec();
    assert_eq!(repair_content_length(&with_header), with_header);
    let no_separator = b"A: b\nbody".to_vec();
    assert_eq!(repair_content_length(&no_separator), no_separator);
}

#[test]
fn session_render_substitutes_then_repairs() {
    let out = render_session(
        b"POST /session HTTP/1.1\n\n{event_token}:{time_spent}",
        b"tok",
        29000,
        b"alice",
        1,
        b"L1",
        0,
    );
    assert_eq!(
        out,
        b"POST /session HTTP/1.1\nContent-Length: 9\n\ntok:29000".to_vec()
    );
}

#[test]
fn event_variant_rewrites_the_method_marker() {
    assert_eq!(
        event_variant(b"POST /session HTTP/1.1\n\nx"),
        b"POST /event HTTP/1.1\n\nx".to_vec()
    );
    // Without the marker the text is emitted unchanged.
    assert_eq!(event_variant(b"GET / HTTP/1.1"), b"GET / HTTP/1.1".to_vec());
}

#[test]
fn synthesized_duration_formula_is_exact() {
    assert_eq!(synth_duration(30, 1, 999), 31999);
    assert_eq!(synth_duration(30, -1, 0), 29000);
    assert_eq!(synth_duration(30, 0, 500), 30500);
    assert_eq!(synth_duration(0, -1, 3), -997);
}
