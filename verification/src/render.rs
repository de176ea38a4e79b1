//! Template rendering: event-token sanitizing, placeholder substitution,
//! `Content-Length` repair, and the event variant of a rendered payload.

use vstd::prelude::*;
use vstd::string::StringSliceAdditionalSpecFns;

use crate::text::{
    contains_bytes, contains_pat, find_pat, format_i64, format_u64, lemma_replace_absent,
    replace_bytes, spec_decimal, spec_digits, spec_find, spec_replace,
};

verus! {

/// The `_day` marker after which an event token is truncated.
pub open spec fn pat_day_suffix() -> Seq<u8> {
    "_day".spec_bytes()
}

/// Placeholder for the sanitized event token.
pub open spec fn pat_event_token() -> Seq<u8> {
    "{event_token}".spec_bytes()
}

/// Placeholder for the synthesized duration.
pub open spec fn pat_time_spent() -> Seq<u8> {
    "{time_spent}".spec_bytes()
}

/// Placeholder for the account name.
pub open spec fn pat_account_name() -> Seq<u8> {
    "{account_name}".spec_bytes()
}

/// Placeholder for the game identifier.
pub open spec fn pat_game_id() -> Seq<u8> {
    "{game_id}".spec_bytes()
}

/// Placeholder for the level name.
pub open spec fn pat_level_name() -> Seq<u8> {
    "{level_name}".spec_bytes()
}

/// Placeholder for the item's day offset.
pub open spec fn pat_days_offset() -> Seq<u8> {
    "{days_offset}".spec_bytes()
}

/// The header-name prefix whose presence suppresses length repair.
pub open spec fn pat_content_length() -> Seq<u8> {
    "Content-Length:".spec_bytes()
}

/// The inserted header line up to the computed number.
pub open spec fn pat_cl_prefix() -> Seq<u8> {
    "Content-Length: ".spec_bytes()
}

/// The blank-line separator between header block and body.
pub open spec fn pat_blank() -> Seq<u8> {
    seq![10u8, 10u8]
}

/// The session method/path marker.
pub open spec fn pat_post_session() -> Seq<u8> {
    "POST /session".spec_bytes()
}

/// The event method/path marker.
pub open spec fn pat_post_event() -> Seq<u8> {
    "POST /event".spec_bytes()
}

fn day_suffix_bytes() -> (p: &'static [u8])
    ensures
        p@ == pat_day_suffix(),
        p@.len() == 4,
{
    proof {
        reveal_strlit("_day");
        assert(vstd::string::is_ascii("_day")) by {
            assert(forall|i: int| 0 <= i < "_day"@.len() ==> ("_day"@[i] as u32) < 128);
        }
        broadcast use vstd::string::is_ascii_spec_bytes;

    }
    "_day".as_bytes()
}

fn event_token_bytes() -> (p: &'static [u8])
    ensures
        p@ == pat_event_token(),
        p@.len() == 13,
{
    proof {
        reveal_strlit("{event_token}");
        assert(vstd::string::is_ascii("{event_token}")) by {
            assert(forall|i: int|
                0 <= i < "{event_token}"@.len() ==> ("{event_token}"@[i] as u32) < 128);
        }
        broadcast use vstd::string::is_ascii_spec_bytes;

    }
    "{event_token}".as_bytes()
}

fn time_spent_bytes() -> (p: &'static [u8])
    ensures
        p@ == pat_time_spent(),
        p@.len() == 12,
{
    proof {
        reveal_strlit("{time_spent}");
        assert(vstd::string::is_ascii("{time_spent}")) by {
            assert(forall|i: int|
                0 <= i < "{time_spent}"@.len() ==> ("{time_spent}"@[i] as u32) < 128);
        }
        broadcast use vstd::string::is_ascii_spec_bytes;

    }
    "{time_spent}".as_bytes()
}

fn account_name_bytes() -> (p: &'static [u8])
    ensures
        p@ == pat_account_name(),
        p@.len() == 14,
{
    proof {
        reveal_strlit("{account_name}");
        assert(vstd::string::is_ascii("{account_name}")) by {
            assert(forall|i: int|
                0 <= i < "{account_name}"@.len() ==> ("{account_name}"@[i] as u32) < 128);
        }
        broadcast use vstd::string::is_ascii_spec_bytes;

    }
    "{account_name}".as_bytes()
}

fn game_id_bytes() -> (p: &'static [u8])
    ensures
        p@ == pat_game_id(),
        p@.len() == 9,
{
    proof {
        reveal_strlit("{game_id}");
        assert(vstd::string::is_ascii("{game_id}")) by {
            assert(forall|i: int| 0 <= i < "{game_id}"@.len() ==> ("{game_id}"@[i] as u32) < 128);
        }
        broadcast use vstd::string::is_ascii_spec_bytes;

    }
    "{game_id}".as_bytes()
}

fn level_name_bytes() -> (p: &'static [u8])
    ensures
        p@ == pat_level_name(),
        p@.len() == 12,
{
    proof {
        reveal_strlit("{level_name}");
        assert(vstd::string::is_ascii("{level_name}")) by {
            assert(forall|i: int|
                0 <= i < "{level_name}"@.len() ==> ("{level_name}"@[i] as u32) < 128);
        }
        broadcast use vstd::string::is_ascii_spec_bytes;

    }
    "{level_name}".as_bytes()
}

fn days_offset_bytes() -> (p: &'static [u8])
    ensures
        p@ == pat_days_offset(),
        p@.len() == 13,
{
    proof {
        reveal_strlit("{days_offset}");
        assert(vstd::string::is_ascii("{days_offset}")) by {
            assert(forall|i: int|
                0 <= i < "{days_offset}"@.len() ==> ("{days_offset}"@[i] as u32) < 128);
        }
        broadcast use vstd::string::is_ascii_spec_bytes;

    }
    "{days_offset}".as_bytes()
}

fn content_length_bytes() -> (p: &'static [u8])
    ensures
        p@ == pat_content_length(),
        p@.len() == 15,
{
    proof {
        reveal_strlit("Content-Length:");
        assert(vstd::string::is_ascii("Content-Length:")) by {
            assert(forall|i: int|
                0 <= i < "Content-Length:"@.len() ==> ("Content-Length:"@[i] as u32) < 128);
        }
        broadcast use vstd::string::is_ascii_spec_bytes;

    }
    "Content-Length:".as_bytes()
}

fn cl_prefix_bytes() -> (p: &'static [u8])
    ensures
        p@ == pat_cl_prefix(),
        p@.len() == 16,
{
    proof {
        reveal_strlit("Content-Length: ");
        assert(vstd::string::is_ascii("Content-Length: ")) by {
            assert(forall|i: int|
                0 <= i < "Content-Length: "@.len() ==> ("Content-Length: "@[i] as u32) < 128);
        }
        broadcast use vstd::string::is_ascii_spec_bytes;

    }
    "Content-Length: ".as_bytes()
}

fn post_session_bytes() -> (p: &'static [u8])
    ensures
        p@ == pat_post_session(),
        p@.len() == 13,
{
    proof {
        reveal_strlit("POST /session");
        assert(vstd::string::is_ascii("POST /session")) by {
            assert(forall|i: int|
                0 <= i < "POST /session"@.len() ==> ("POST /session"@[i] as u32) < 128);
        }
        broadcast use vstd::string::is_ascii_spec_bytes;

    }
    "POST /session".as_bytes()
}

fn post_event_bytes() -> (p: &'static [u8])
    ensures
        p@ == pat_post_event(),
        p@.len() == 11,
{
    proof {
        reveal_strlit("POST /event");
        assert(vstd::string::is_ascii("POST /event")) by {
            assert(forall|i: int|
                0 <= i < "POST /event"@.len() ==> ("POST /event"@[i] as u32) < 128);
        }
        broadcast use vstd::string::is_ascii_spec_bytes;

    }
    "POST /event".as_bytes()
}

/// An event token truncated at the first `_day` marker; unchanged when the
/// marker is absent.
#[verifier::opaque]
pub open spec fn spec_sanitize(t: Seq<u8>) -> Seq<u8> {
    match spec_find(t, pat_day_suffix()) {
        Some(i) => t.subrange(0, i),
        None => t,
    }
}

/// Truncate an event token at the first `_day` marker.
pub fn sanitize_event_token(t: &[u8]) -> (r: Vec<u8>)
    ensures
        r@ == spec_sanitize(t@),
{
    proof {
        reveal(spec_sanitize);
    }
    let pat = day_suffix_bytes();
    match find_pat(t, pat) {
        Some(i) => {
            let mut out: Vec<u8> = Vec::new();
            out.extend_from_slice(&t[0..i]);
            out
        },
        None => vstd::slice::slice_to_vec(t),
    }
}

/// Every recognized placeholder replaced by its value: event token,
/// synthesized duration, account name, game id, level name, day offset,
/// in that order. Unrecognized placeholders are left verbatim.
#[verifier::opaque]
pub open spec fn spec_substitute(
    template: Seq<u8>,
    token: Seq<u8>,
    time_spent: int,
    account_name: Seq<u8>,
    game_id: int,
    level_name: Seq<u8>,
    days_offset: int,
) -> Seq<u8> {
    let s1 = spec_replace(template, pat_event_token(), token);
    let s2 = spec_replace(s1, pat_time_spent(), spec_decimal(time_spent));
    let s3 = spec_replace(s2, pat_account_name(), account_name);
    let s4 = spec_replace(s3, pat_game_id(), spec_decimal(game_id));
    let s5 = spec_replace(s4, pat_level_name(), level_name);
    spec_replace(s5, pat_days_offset(), spec_decimal(days_offset))
}

/// Substitute the six recognized placeholders into a template.
pub fn substitute_placeholders(
    template: &[u8],
    token: &[u8],
    time_spent: i64,
    account_name: &[u8],
    game_id: i64,
    level_name: &[u8],
    days_offset: i64,
) -> (r: Vec<u8>)
    ensures
        r@ == spec_substitute(
            template@,
            token@,
            time_spent as int,
            account_name@,
            game_id as int,
            level_name@,
            days_offset as int,
        ),
{
    proof {
        reveal(spec_substitute);
    }
    let time_digits = format_i64(time_spent);
    let game_digits = format_i64(game_id);
    let offset_digits = format_i64(days_offset);
    let s1 = replace_bytes(template, event_token_bytes(), token);
    let s2 = replace_bytes(s1.as_slice(), time_spent_bytes(), time_digits.as_slice());
    let s3 = replace_bytes(s2.as_slice(), account_name_bytes(), account_name);
    let s4 = replace_bytes(s3.as_slice(), game_id_bytes(), game_digits.as_slice());
    let s5 = replace_bytes(s4.as_slice(), level_name_bytes(), level_name);
    replace_bytes(s5.as_slice(), days_offset_bytes(), offset_digits.as_slice())
}

/// Length repair: when the text holds no `Content-Length:` and a blank-line
/// separator splits headers from body, a `Content-Length` header carrying the
/// body's byte length is inserted after the header block; otherwise the text
/// is unchanged.
#[verifier::opaque]
pub open spec fn spec_repair(s: Seq<u8>) -> Seq<u8> {
    if contains_pat(s, pat_content_length()) {
        s
    } else {
        match spec_find(s, pat_blank()) {
            None => s,
            Some(i) => {
                let headers = s.subrange(0, i);
                let body = s.subrange(i + 2, s.len() as int);
                headers + seq![10u8] + pat_cl_prefix() + spec_digits(body.len()) + seq![
                    10u8,
                    10u8,
                ] + body
            },
        }
    }
}

/// Insert a computed `Content-Length` header where one is missing and a
/// blank-line separator is present.
pub fn repair_content_length(s: &[u8]) -> (r: Vec<u8>)
    ensures
        r@ == spec_repair(s@),
{
    proof {
        reveal(spec_repair);
    }
    if contains_bytes(s, content_length_bytes()) {
        return vstd::slice::slice_to_vec(s);
    }
    let mut blank: Vec<u8> = Vec::new();
    blank.push(10);
    blank.push(10);
    proof {
        assert(blank@ =~= pat_blank());
    }
    match find_pat(s, blank.as_slice()) {
        None => vstd::slice::slice_to_vec(s),
        Some(i) => {
            let body_len: usize = s.len() - i - 2;
            let digits = format_u64(body_len as u64);
            let mut out: Vec<u8> = Vec::new();
            out.extend_from_slice(&s[0..i]);
            out.push(10);
            out.extend_from_slice(cl_prefix_bytes());
            out.extend_from_slice(digits.as_slice());
            out.push(10);
            out.push(10);
            out.extend_from_slice(&s[i + 2..s.len()]);
            proof {
                let sv = s@;
                let iv = i as int;
                let body = sv.subrange(iv + 2, sv.len() as int);
                assert(out@ =~= sv.subrange(0, iv) + seq![10u8] + pat_cl_prefix() + spec_digits(
                    body.len(),
                ) + seq![10u8, 10u8] + body);
            }
            out
        },
    }
}

/// A rendered session payload: placeholder substitution followed by length
/// repair.
#[verifier::opaque]
pub open spec fn spec_render_session(
    template: Seq<u8>,
    token: Seq<u8>,
    time_spent: int,
    account_name: Seq<u8>,
    game_id: int,
    level_name: Seq<u8>,
    days_offset: int,
) -> Seq<u8> {
    spec_repair(
        spec_substitute(
            template,
            token,
            time_spent,
            account_name,
            game_id,
            level_name,
            days_offset,
        ),
    )
}

/// Render the session variant of one due item.
pub fn render_session(
    template: &[u8],
    token: &[u8],
    time_spent: i64,
    account_name: &[u8],
    game_id: i64,
    level_name: &[u8],
    days_offset: i64,
) -> (r: Vec<u8>)
    ensures
        r@ == spec_render_session(
            template@,
            token@,
            time_spent as int,
            account_name@,
            game_id as int,
            level_name@,
            days_offset as int,
        ),
{
    proof {
        reveal(spec_render_session);
    }
    let substituted = substitute_placeholders(
        template,
        token,
        time_spent,
        account_name,
        game_id,
        level_name,
        days_offset,
    );
    repair_content_length(substituted.as_slice())
}

/// The event variant: the session payload with every `POST /session` marker
/// rewritten to `POST /event`; unchanged when the marker is absent.
#[verifier::opaque]
pub open spec fn spec_event_variant(session: Seq<u8>) -> Seq<u8> {
    spec_replace(session, pat_post_session(), pat_post_event())
}

/// Derive the event variant from a rendered session payload.
pub fn event_variant(session: &[u8]) -> (r: Vec<u8>)
    ensures
        r@ == spec_event_variant(session@),
{
    proof {
        reveal(spec_event_variant);
    }
    replace_bytes(session, post_session_bytes(), post_event_bytes())
}

/// Placeholder substitution is idempotent: on text with no remaining
/// recognized placeholder, substitution is a no-op, whatever the values.
pub proof fn lemma_substitution_idempotent(
    s: Seq<u8>,
    token: Seq<u8>,
    time_spent: int,
    account_name: Seq<u8>,
    game_id: int,
    level_name: Seq<u8>,
    days_offset: int,
)
    requires
        !contains_pat(s, pat_event_token()),
        !contains_pat(s, pat_time_spent()),
        !contains_pat(s, pat_account_name()),
        !contains_pat(s, pat_game_id()),
        !contains_pat(s, pat_level_name()),
        !contains_pat(s, pat_days_offset()),
    ensures
        spec_substitute(s, token, time_spent, account_name, game_id, level_name, days_offset) == s,
{
    reveal(spec_substitute);
    lemma_replace_absent(s, pat_event_token(), token);
    lemma_replace_absent(s, pat_time_spent(), spec_decimal(time_spent));
    lemma_replace_absent(s, pat_account_name(), account_name);
    lemma_replace_absent(s, pat_game_id(), spec_decimal(game_id));
    lemma_replace_absent(s, pat_level_name(), level_name);
    lemma_replace_absent(s, pat_days_offset(), spec_decimal(days_offset));
}

/// When repair applies — no `Content-Length:` header and a blank-line
/// separator present — the inserted number is exactly the decimal byte length
/// of the text after the separator.
pub proof fn lemma_repair_inserted_length(s: Seq<u8>)
    requires
        !contains_pat(s, pat_content_length()),
        spec_find(s, pat_blank()) is Some,
    ensures
        ({
            let i = spec_find(s, pat_blank())->Some_0;
            let body = s.subrange(i + 2, s.len() as int);
            spec_repair(s) == s.subrange(0, i) + seq![10u8] + pat_cl_prefix() + spec_digits(
                body.len(),
            ) + seq![10u8, 10u8] + body
        }),
{
    reveal(spec_repair);
}

} // verus!
