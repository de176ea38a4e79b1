//! The daily scheduling pass: resolve the elapsed-day count for a target
//! date, select the level and purchase-event milestones due on that day and
//! not yet completed, synthesize a duration per due level, render each due
//! item through the account's template, and assemble the response.

use vstd::prelude::*;
use vstd::string::StringSliceAdditionalSpecFns;
use vstd::utf8::encode_utf8;

use crate::date::{
    civil_day_number, current_utc_year, date_lt, lemma_day_number_increases, parse_iso_date,
    parse_start_date, spec_parse_iso, spec_parse_start_date, uses_short_form, valid_date,
};
use crate::duration::{draw_duration, duration_in_bounds};
use crate::models::{Account, AccountLevelProgress, AccountPurchaseEventProgress, Level,
    PurchaseEvent};
use crate::render::{
    event_variant, render_session, sanitize_event_token, spec_event_variant, spec_render_session,
    spec_sanitize,
};

verus! {

/// Why a scheduling pass failed. The two date errors arise in this library;
/// the other two describe failures of the storage collaborator and are
/// reported by the code that performs the reads.
#[derive(Clone, Copy, PartialEq, Eq, Structural, Debug)]
pub enum ScheduleError {
    AccountNotFound,
    InvalidDateFormat,
    DateBeforeStart,
    UpstreamLookupFailure,
}

/// Which of the two payload variants a rendered record carries.
#[derive(Clone, Copy, PartialEq, Eq, Structural, Debug)]
pub enum RequestKind {
    Session,
    Event,
}

/// One rendered request payload for a due item.
#[derive(Debug)]
pub struct RenderedRequest {
    pub request_type: RequestKind,
    pub content: Vec<u8>,
    pub event_token: Vec<u8>,
    pub level_id: Option<i64>,
    pub time_spent: i64,
    pub timestamp: String,
}

/// The mathematical value of a rendered record.
pub struct RequestModel {
    pub request_type: RequestKind,
    pub content: Seq<u8>,
    pub event_token: Seq<u8>,
    pub level_id: Option<i64>,
    pub time_spent: int,
    pub timestamp: Seq<char>,
}

impl View for RenderedRequest {
    type V = RequestModel;

    open spec fn view(&self) -> RequestModel {
        RequestModel {
            request_type: self.request_type,
            content: self.content@,
            event_token: self.event_token@,
            level_id: self.level_id,
            time_spent: self.time_spent as int,
            timestamp: self.timestamp@,
        }
    }
}

/// The views of a record sequence.
pub open spec fn views_of(s: Seq<RenderedRequest>) -> Seq<RequestModel> {
    s.map_values(|rr: RenderedRequest| rr@)
}

/// The result of one scheduling pass: all rendered records plus metadata.
#[derive(Debug)]
pub struct DailyRequestsResponse {
    pub account_id: i64,
    pub account_name: String,
    pub target_date: String,
    pub days_passed: i64,
    pub requests: Vec<RenderedRequest>,
}

/// The account-wide values every rendered record draws on.
pub struct RenderContext {
    pub template: Seq<u8>,
    pub account_name: Seq<u8>,
    pub game_id: int,
    pub timestamp: Seq<char>,
}

/// The context taken from an account and a target date.
pub open spec fn context_of(account: Account, target_date: Seq<char>) -> RenderContext {
    RenderContext {
        template: encode_utf8(account.request_template@),
        account_name: encode_utf8(account.name@),
        game_id: account.game_id as int,
        timestamp: target_date,
    }
}

/// The level ids marked completed, in progress-row order.
pub open spec fn spec_completed_ids(progress: Seq<AccountLevelProgress>) -> Seq<i64> {
    progress.filter(|p: AccountLevelProgress| p.is_completed).map_values(
        |p: AccountLevelProgress| p.level_id,
    )
}

/// A level is due when its day offset equals the elapsed days and it is not
/// among the completed ids.
pub open spec fn level_due(l: Level, completed: Seq<i64>, days: int) -> bool {
    l.days_offset as int == days && !completed.contains(l.id)
}

/// The due levels, in catalog order.
pub open spec fn spec_due_levels(levels: Seq<Level>, completed: Seq<i64>, days: int) -> Seq<
    Level,
> {
    levels.filter(|l: Level| level_due(l, completed, days))
}

/// The first catalog entry with the given id, if any.
pub open spec fn spec_lookup_event(catalog: Seq<PurchaseEvent>, id: i64) -> Option<PurchaseEvent>
    decreases catalog.len(),
{
    if catalog.len() == 0 {
        None
    } else if catalog[0].id == id {
        Some(catalog[0])
    } else {
        spec_lookup_event(catalog.drop_first(), id)
    }
}

/// A purchase-event progress row is due when its own day offset equals the
/// elapsed days, it is not completed, and its catalog entry resolves; rows
/// pointing at a missing catalog entry are silently skipped.
pub open spec fn purchase_due(
    p: AccountPurchaseEventProgress,
    catalog: Seq<PurchaseEvent>,
    days: int,
) -> bool {
    p.days_offset as int == days && !p.is_completed && spec_lookup_event(
        catalog,
        p.purchase_event_id,
    ) is Some
}

/// The due purchase-event rows, in progress-row order.
pub open spec fn spec_due_purchases(
    progress: Seq<AccountPurchaseEventProgress>,
    catalog: Seq<PurchaseEvent>,
    days: int,
) -> Seq<AccountPurchaseEventProgress> {
    progress.filter(|p: AccountPurchaseEventProgress| purchase_due(p, catalog, days))
}

/// The sentinel level name meaning "no event variant".
pub open spec fn sentinel_name() -> Seq<u8> {
    "-".spec_bytes()
}

/// The one or two records a due level contributes: a session record, and an
/// event record unless the level name is the `-` sentinel.
#[verifier::opaque]
pub open spec fn spec_level_records_for(l: Level, dur: int, ctx: RenderContext) -> Seq<
    RequestModel,
> {
    let token = spec_sanitize(encode_utf8(l.event_token@));
    let lname = encode_utf8(l.level_name@);
    let session = spec_render_session(
        ctx.template,
        token,
        dur,
        ctx.account_name,
        ctx.game_id,
        lname,
        l.days_offset as int,
    );
    let srec = RequestModel {
        request_type: RequestKind::Session,
        content: session,
        event_token: token,
        level_id: Some(l.id),
        time_spent: dur,
        timestamp: ctx.timestamp,
    };
    if lname == sentinel_name() {
        seq![srec]
    } else {
        let erec = RequestModel {
            request_type: RequestKind::Event,
            content: spec_event_variant(session),
            event_token: token,
            level_id: Some(l.id),
            time_spent: dur,
            timestamp: ctx.timestamp,
        };
        seq![srec, erec]
    }
}

/// All records of the due levels, with `durs` the synthesized durations.
pub open spec fn spec_level_records(due: Seq<Level>, durs: Seq<int>, ctx: RenderContext) -> Seq<
    RequestModel,
>
    decreases due.len(),
{
    if due.len() == 0 {
        Seq::empty()
    } else {
        spec_level_records(due.drop_last(), durs.drop_last(), ctx) + spec_level_records_for(
            due.last(),
            durs.last(),
            ctx,
        )
    }
}

/// The two records a due purchase-event row contributes: a session record and
/// an event record. The stored `time_spent` is used as the duration, without
/// jitter, uniformly for all purchase-event items; the catalog entry's
/// sanitized token stands in for the level name.
#[verifier::opaque]
pub open spec fn spec_purchase_records_for(
    p: AccountPurchaseEventProgress,
    e: PurchaseEvent,
    ctx: RenderContext,
) -> Seq<RequestModel> {
    let token = spec_sanitize(encode_utf8(e.event_token@));
    let session = spec_render_session(
        ctx.template,
        token,
        p.time_spent as int,
        ctx.account_name,
        ctx.game_id,
        token,
        p.days_offset as int,
    );
    let srec = RequestModel {
        request_type: RequestKind::Session,
        content: session,
        event_token: token,
        level_id: None,
        time_spent: p.time_spent as int,
        timestamp: ctx.timestamp,
    };
    let erec = RequestModel {
        request_type: RequestKind::Event,
        content: spec_event_variant(session),
        event_token: token,
        level_id: None,
        time_spent: p.time_spent as int,
        timestamp: ctx.timestamp,
    };
    seq![srec, erec]
}

/// All records of the due purchase-event rows.
pub open spec fn spec_purchase_records(
    due: Seq<AccountPurchaseEventProgress>,
    catalog: Seq<PurchaseEvent>,
    ctx: RenderContext,
) -> Seq<RequestModel>
    decreases due.len(),
{
    if due.len() == 0 {
        Seq::empty()
    } else {
        spec_purchase_records(due.drop_last(), catalog, ctx) + spec_purchase_records_for(
            due.last(),
            spec_lookup_event(catalog, due.last().purchase_event_id)->Some_0,
            ctx,
        )
    }
}

/// How the elapsed-day count resolves for a start date, a target date and an
/// assumed year: `InvalidDateFormat` when either date fails its parse rule,
/// `DateBeforeStart` when the target precedes the start, else the count.
pub open spec fn spec_days_result(start: Seq<u8>, target: Seq<u8>, year: int) -> Result<
    int,
    ScheduleError,
> {
    match spec_parse_start_date(start, year) {
        None => Err(ScheduleError::InvalidDateFormat),
        Some(s) => match spec_parse_iso(target) {
            None => Err(ScheduleError::InvalidDateFormat),
            Some(t) => {
                let diff = civil_day_number(t.0, t.1, t.2) - civil_day_number(s.0, s.1, s.2);
                if diff < 0 {
                    Err(ScheduleError::DateBeforeStart)
                } else {
                    Ok(diff)
                }
            },
        },
    }
}

/// The full contract of one scheduling pass on already-fetched data.
pub open spec fn compute_post(
    r: Result<DailyRequestsResponse, ScheduleError>,
    account: Account,
    levels: Seq<Level>,
    level_progress: Seq<AccountLevelProgress>,
    purchase_events: Seq<PurchaseEvent>,
    purchase_progress: Seq<AccountPurchaseEventProgress>,
    target_date: Seq<char>,
    year: int,
) -> bool {
    let start_bytes = encode_utf8(account.start_date@);
    let target_bytes = encode_utf8(target_date);
    match spec_days_result(start_bytes, target_bytes, year) {
        Err(e) => r is Err && r->Err_0 == e,
        Ok(days) => r is Ok && {
            let resp = r->Ok_0;
            &&& resp.account_id == account.id
            &&& resp.account_name@ == account.name@
            &&& resp.target_date@ == target_date
            &&& resp.days_passed == days
            &&& ({
                let ctx = context_of(account, target_date);
                let due = spec_due_levels(levels, spec_completed_ids(level_progress), days);
                let due_p = spec_due_purchases(purchase_progress, purchase_events, days);
                exists|durs: Seq<int>|
                    {
                        &&& durs.len() == due.len()
                        &&& (forall|k: int|
                            0 <= k < durs.len() ==> duration_in_bounds(
                                durs[k],
                                due[k].time_spent as int,
                            ))
                        &&& views_of(resp.requests@) == spec_level_records(due, durs, ctx)
                            + spec_purchase_records(due_p, purchase_events, ctx)
                    }
            })
        },
    }
}

/// Byte-wise equality of two slices.
fn bytes_equal(a: &[u8], b: &[u8]) -> (r: bool)
    ensures
        r == (a@ == b@),
{
    if a.len() != b.len() {
        return false;
    }
    let mut i: usize = 0;
    while i < a.len()
        invariant
            a@.len() == b@.len(),
            0 <= i <= a@.len(),
            forall|j: int| 0 <= j < i ==> a@[j] == b@[j],
        decreases a@.len() - i,
    {
        if a[i] != b[i] {
            return false;
        }
        i += 1;
    }
    proof {
        assert(a@ =~= b@);
    }
    true
}

/// Is the id among the collected completed ids?
fn contains_id(ids: &Vec<i64>, id: i64) -> (r: bool)
    ensures
        r == ids@.contains(id),
{
    let mut i: usize = 0;
    while i < ids.len()
        invariant
            0 <= i <= ids@.len(),
            forall|j: int| 0 <= j < i ==> ids@[j] != id,
        decreases ids@.len() - i,
    {
        if ids[i] == id {
            return true;
        }
        i += 1;
    }
    false
}

/// Appending one progress row extends the completed ids by its level id
/// exactly when the row is completed.
proof fn lemma_completed_push(s: Seq<AccountLevelProgress>, p: AccountLevelProgress)
    ensures
        spec_completed_ids(s.push(p)) == if p.is_completed {
            spec_completed_ids(s).push(p.level_id)
        } else {
            spec_completed_ids(s)
        },
{
    reveal(Seq::filter);
    assert(s.push(p).drop_last() =~= s);
    if p.is_completed {
        assert(spec_completed_ids(s.push(p)) =~= spec_completed_ids(s).push(p.level_id));
    } else {
        assert(spec_completed_ids(s.push(p)) =~= spec_completed_ids(s));
    }
}

/// Due levels distribute over appending one catalog entry.
proof fn lemma_due_levels_push(s: Seq<Level>, l: Level, completed: Seq<i64>, days: int)
    ensures
        spec_due_levels(s.push(l), completed, days) == if level_due(l, completed, days) {
            spec_due_levels(s, completed, days).push(l)
        } else {
            spec_due_levels(s, completed, days)
        },
{
    reveal(Seq::filter);
    assert(s.push(l).drop_last() =~= s);
}

/// Due purchase rows distribute over appending one progress row.
proof fn lemma_due_purchases_push(
    s: Seq<AccountPurchaseEventProgress>,
    p: AccountPurchaseEventProgress,
    catalog: Seq<PurchaseEvent>,
    days: int,
)
    ensures
        spec_due_purchases(s.push(p), catalog, days) == if purchase_due(p, catalog, days) {
            spec_due_purchases(s, catalog, days).push(p)
        } else {
            spec_due_purchases(s, catalog, days)
        },
{
    reveal(Seq::filter);
    assert(s.push(p).drop_last() =~= s);
}

/// Completion Filter: the level ids whose progress rows are completed.
pub fn completed_level_ids(progress: &Vec<AccountLevelProgress>) -> (r: Vec<i64>)
    ensures
        r@ == spec_completed_ids(progress@),
{
    let mut r: Vec<i64> = Vec::new();
    let mut i: usize = 0;
    proof {
        assert(progress@.subrange(0, 0).filter(|p: AccountLevelProgress| p.is_completed)
            =~= Seq::<AccountLevelProgress>::empty());
        assert(r@ =~= spec_completed_ids(progress@.subrange(0, 0)));
    }
    while i < progress.len()
        invariant
            0 <= i <= progress@.len(),
            r@ == spec_completed_ids(progress@.subrange(0, i as int)),
        decreases progress@.len() - i,
    {
        let ghost pre = progress@.subrange(0, i as int);
        if progress[i].is_completed {
            r.push(progress[i].level_id);
        }
        proof {
            assert(progress@.subrange(0, i + 1) =~= pre.push(progress@[i as int]));
            lemma_completed_push(pre, progress@[i as int]);
        }
        i += 1;
    }
    proof {
        assert(progress@.subrange(0, progress@.len() as int) =~= progress@);
    }
    r
}

/// The first catalog entry whose id matches, if any.
fn lookup_event<'a>(catalog: &'a Vec<PurchaseEvent>, id: i64) -> (r: Option<&'a PurchaseEvent>)
    ensures
        match r {
            Some(e) => spec_lookup_event(catalog@, id) == Some(*e),
            None => spec_lookup_event(catalog@, id) is None,
        },
{
    let mut i: usize = 0;
    while i < catalog.len()
        invariant
            0 <= i <= catalog@.len(),
            forall|j: int| 0 <= j < i ==> catalog@[j].id != id,
        decreases catalog@.len() - i,
    {
        if catalog[i].id == id {
            proof {
                lemma_lookup_first(catalog@, id, i as int);
            }
            return Some(&catalog[i]);
        }
        i += 1;
    }
    proof {
        lemma_lookup_none(catalog@, id);
    }
    None
}

/// Lookup returns the first entry with a matching id.
proof fn lemma_lookup_first(catalog: Seq<PurchaseEvent>, id: i64, k: int)
    requires
        0 <= k < catalog.len(),
        catalog[k].id == id,
        forall|j: int| 0 <= j < k ==> catalog[j].id != id,
    ensures
        spec_lookup_event(catalog, id) == Some(catalog[k]),
    decreases k,
{
    if k > 0 {
        lemma_lookup_first(catalog.drop_first(), id, k - 1);
    }
}

/// Lookup fails when no entry's id matches.
proof fn lemma_lookup_none(catalog: Seq<PurchaseEvent>, id: i64)
    requires
        forall|j: int| 0 <= j < catalog.len() ==> catalog[j].id != id,
    ensures
        spec_lookup_event(catalog, id) is None,
    decreases catalog.len(),
{
    if catalog.len() > 0 {
        lemma_lookup_none(catalog.drop_first(), id);
    }
}

/// Level records distribute over appending one due level.
proof fn lemma_level_records_push(due: Seq<Level>, durs: Seq<int>, l: Level, d: int,
    ctx: RenderContext)
    requires
        durs.len() == due.len(),
    ensures
        spec_level_records(due.push(l), durs.push(d), ctx) == spec_level_records(due, durs, ctx)
            + spec_level_records_for(l, d, ctx),
{
    assert(due.push(l).drop_last() =~= due);
    assert(durs.push(d).drop_last() =~= durs);
}

/// Purchase records distribute over appending one due row.
proof fn lemma_purchase_records_push(
    due: Seq<AccountPurchaseEventProgress>,
    catalog: Seq<PurchaseEvent>,
    p: AccountPurchaseEventProgress,
    ctx: RenderContext,
)
    ensures
        spec_purchase_records(due.push(p), catalog, ctx) == spec_purchase_records(due, catalog, ctx)
            + spec_purchase_records_for(
            p,
            spec_lookup_event(catalog, p.purchase_event_id)->Some_0,
            ctx,
        ),
{
    assert(due.push(p).drop_last() =~= due);
}

/// Views distribute over concatenation.
proof fn lemma_views_add(a: Seq<RenderedRequest>, b: Seq<RenderedRequest>)
    ensures
        views_of(a + b) == views_of(a) + views_of(b),
{
    assert(views_of(a + b) =~= views_of(a) + views_of(b));
}

/// Template Renderer for one due level: the session record, and the event
/// record unless the level name is the `-` sentinel.
fn render_level_item(
    level: &Level,
    duration: i64,
    template: &[u8],
    name_bytes: &[u8],
    game_id: i64,
    target_date: &str,
) -> (out: Vec<RenderedRequest>)
    ensures
        views_of(out@) == spec_level_records_for(
            *level,
            duration as int,
            RenderContext {
                template: template@,
                account_name: name_bytes@,
                game_id: game_id as int,
                timestamp: target_date@,
            },
        ),
{
    let ghost ctx = RenderContext {
        template: template@,
        account_name: name_bytes@,
        game_id: game_id as int,
        timestamp: target_date@,
    };
    let token = sanitize_event_token(level.event_token.as_str().as_bytes());
    let lname = level.level_name.as_str().as_bytes();
    let session = render_session(
        template,
        token.as_slice(),
        duration,
        name_bytes,
        game_id,
        lname,
        level.days_offset as i64,
    );
    let sentinel = "-".as_bytes();
    let mut out: Vec<RenderedRequest> = Vec::new();
    if !bytes_equal(lname, sentinel) {
        let event_content = event_variant(session.as_slice());
        let token_copy = vstd::slice::slice_to_vec(token.as_slice());
        out.push(
            RenderedRequest {
                request_type: RequestKind::Session,
                content: session,
                event_token: token,
                level_id: Some(level.id),
                time_spent: duration,
                timestamp: target_date.to_owned(),
            },
        );
        out.push(
            RenderedRequest {
                request_type: RequestKind::Event,
                content: event_content,
                event_token: token_copy,
                level_id: Some(level.id),
                time_spent: duration,
                timestamp: target_date.to_owned(),
            },
        );
        proof {
            reveal(spec_level_records_for);
            assert(views_of(out@) =~= spec_level_records_for(*level, duration as int, ctx));
        }
    } else {
        out.push(
            RenderedRequest {
                request_type: RequestKind::Session,
                content: session,
                event_token: token,
                level_id: Some(level.id),
                time_spent: duration,
                timestamp: target_date.to_owned(),
            },
        );
        proof {
            reveal(spec_level_records_for);
            assert(views_of(out@) =~= spec_level_records_for(*level, duration as int, ctx));
        }
    }
    out
}

/// Template Renderer for one due purchase-event row: always a session record
/// and an event record, with the stored duration.
fn render_purchase_item(
    p: &AccountPurchaseEventProgress,
    event: &PurchaseEvent,
    template: &[u8],
    name_bytes: &[u8],
    game_id: i64,
    target_date: &str,
) -> (out: Vec<RenderedRequest>)
    ensures
        views_of(out@) == spec_purchase_records_for(
            *p,
            *event,
            RenderContext {
                template: template@,
                account_name: name_bytes@,
                game_id: game_id as int,
                timestamp: target_date@,
            },
        ),
{
    let ghost ctx = RenderContext {
        template: template@,
        account_name: name_bytes@,
        game_id: game_id as int,
        timestamp: target_date@,
    };
    let token = sanitize_event_token(event.event_token.as_str().as_bytes());
    let token_for_name = vstd::slice::slice_to_vec(token.as_slice());
    let token_copy = vstd::slice::slice_to_vec(token.as_slice());
    let session = render_session(
        template,
        token.as_slice(),
        p.time_spent as i64,
        name_bytes,
        game_id,
        token_for_name.as_slice(),
        p.days_offset as i64,
    );
    let event_content = event_variant(session.as_slice());
    let mut out: Vec<RenderedRequest> = Vec::new();
    out.push(
        RenderedRequest {
            request_type: RequestKind::Session,
            content: session,
            event_token: token,
            level_id: None,
            time_spent: p.time_spent as i64,
            timestamp: target_date.to_owned(),
        },
    );
    out.push(
        RenderedRequest {
            request_type: RequestKind::Event,
            content: event_content,
            event_token: token_copy,
            level_id: None,
            time_spent: p.time_spent as i64,
            timestamp: target_date.to_owned(),
        },
    );
    proof {
        reveal(spec_purchase_records_for);
        assert(views_of(out@) =~= spec_purchase_records_for(*p, *event, ctx));
    }
    out
}

/// One scheduling pass over already-fetched data, with the assumed year for
/// short start dates supplied by the caller (the deterministic seam).
///
/// Fails with `InvalidDateFormat` exactly when a date fails its parse rule,
/// and with `DateBeforeStart` exactly when the target date precedes the start
/// date. On success the response carries the elapsed-day count and, in order,
/// one or two records per due level (session, then event unless the level
/// name is the `-` sentinel) followed by two records per due purchase-event
/// row, every content rendered from the account's template and every level
/// duration within the synthesizer's bounds.
#[verifier::rlimit(60)]
pub fn compute_daily_requests(
    account: &Account,
    levels: &Vec<Level>,
    level_progress: &Vec<AccountLevelProgress>,
    purchase_events: &Vec<PurchaseEvent>,
    purchase_progress: &Vec<AccountPurchaseEventProgress>,
    target_date: &str,
    current_year: i64,
) -> (r: Result<DailyRequestsResponse, ScheduleError>)
    ensures
        compute_post(
            r,
            *account,
            levels@,
            level_progress@,
            purchase_events@,
            purchase_progress@,
            target_date@,
            current_year as int,
        ),
{
    let start = match parse_start_date(account.start_date.as_str().as_bytes(), current_year) {
        Some(d) => d,
        None => {
            return Err(ScheduleError::InvalidDateFormat);
        },
    };
    let target = match parse_iso_date(target_date.as_bytes()) {
        Some(d) => d,
        None => {
            return Err(ScheduleError::InvalidDateFormat);
        },
    };
    let start_n = start.day_number();
    let target_n = target.day_number();
    let days_passed: i64 = target_n as i64 - start_n as i64;
    if days_passed < 0 {
        return Err(ScheduleError::DateBeforeStart);
    }
    let ghost days = days_passed as int;
    let ghost ctx = context_of(*account, target_date@);

    let completed = completed_level_ids(level_progress);
    let template = account.request_template.as_str().as_bytes();
    let name_bytes = account.name.as_str().as_bytes();

    let mut requests: Vec<RenderedRequest> = Vec::new();
    let ghost mut due_g: Seq<Level> = Seq::empty();
    let ghost mut durs_g: Seq<int> = Seq::empty();
    proof {
        assert(levels@.subrange(0, 0).filter(|l: Level| level_due(l, completed@, days)) =~= Seq::<
            Level,
        >::empty());
        assert(views_of(requests@) =~= spec_level_records(due_g, durs_g, ctx));
    }
    let mut i: usize = 0;
    while i < levels.len()
        invariant
            0 <= i <= levels@.len(),
            days == days_passed as int,
            days_passed >= 0,
            completed@ == spec_completed_ids(level_progress@),
            due_g == spec_due_levels(levels@.subrange(0, i as int), completed@, days),
            durs_g.len() == due_g.len(),
            forall|k: int|
                0 <= k < durs_g.len() ==> duration_in_bounds(durs_g[k], due_g[k].time_spent as int),
            views_of(requests@) == spec_level_records(due_g, durs_g, ctx),
            template@ == ctx.template,
            name_bytes@ == ctx.account_name,
            account.game_id == ctx.game_id,
            target_date@ == ctx.timestamp,
        decreases levels@.len() - i,
    {
        let ghost pre = levels@.subrange(0, i as int);
        let level = &levels[i];
        if level.days_offset as i64 == days_passed && !contains_id(&completed, level.id) {
            let duration = draw_duration(level.time_spent);
            let mut items = render_level_item(
                level,
                duration,
                template,
                name_bytes,
                account.game_id,
                target_date,
            );
            let ghost requests_before = requests@;
            let ghost items_v = items@;
            requests.append(&mut items);
            proof {
                assert(ctx == (RenderContext {
                    template: template@,
                    account_name: name_bytes@,
                    game_id: account.game_id as int,
                    timestamp: target_date@,
                }));
                lemma_views_add(requests_before, items_v);
                lemma_level_records_push(due_g, durs_g, levels@[i as int], duration as int, ctx);
                due_g = due_g.push(levels@[i as int]);
                durs_g = durs_g.push(duration as int);
            }
        }
        proof {
            assert(levels@.subrange(0, i + 1) =~= pre.push(levels@[i as int]));
            lemma_due_levels_push(pre, levels@[i as int], completed@, days);
        }
        i += 1;
    }
    proof {
        assert(levels@.subrange(0, levels@.len() as int) =~= levels@);
    }

    let ghost level_part = spec_level_records(due_g, durs_g, ctx);
    let mut j: usize = 0;
    let ghost mut due_pg: Seq<AccountPurchaseEventProgress> = Seq::empty();
    proof {
        assert(purchase_progress@.subrange(0, 0).filter(
            |p: AccountPurchaseEventProgress| purchase_due(p, purchase_events@, days),
        ) =~= Seq::<AccountPurchaseEventProgress>::empty());
        assert(level_part + spec_purchase_records(due_pg, purchase_events@, ctx) =~= level_part);
    }
    while j < purchase_progress.len()
        invariant
            0 <= j <= purchase_progress@.len(),
            days == days_passed as int,
            days_passed >= 0,
            due_pg == spec_due_purchases(
                purchase_progress@.subrange(0, j as int),
                purchase_events@,
                days,
            ),
            views_of(requests@) == level_part + spec_purchase_records(
                due_pg,
                purchase_events@,
                ctx,
            ),
            template@ == ctx.template,
            name_bytes@ == ctx.account_name,
            account.game_id == ctx.game_id,
            target_date@ == ctx.timestamp,
        decreases purchase_progress@.len() - j,
    {
        let ghost pre = purchase_progress@.subrange(0, j as int);
        let p = &purchase_progress[j];
        if p.days_offset as i64 == days_passed && !p.is_completed {
            match lookup_event(purchase_events, p.purchase_event_id) {
                Some(event) => {
                    let mut items = render_purchase_item(
                        p,
                        event,
                        template,
                        name_bytes,
                        account.game_id,
                        target_date,
                    );
                    let ghost requests_before = requests@;
                    let ghost items_v = items@;
                    requests.append(&mut items);
                    proof {
                        let pv = purchase_progress@[j as int];
                        assert(ctx == (RenderContext {
                            template: template@,
                            account_name: name_bytes@,
                            game_id: account.game_id as int,
                            timestamp: target_date@,
                        }));
                        lemma_views_add(requests_before, items_v);
                        lemma_purchase_records_push(due_pg, purchase_events@, pv, ctx);
                        assert(level_part + spec_purchase_records(due_pg, purchase_events@, ctx)
                            + spec_purchase_records_for(pv, *event, ctx) =~= level_part
                            + spec_purchase_records(due_pg.push(pv), purchase_events@, ctx));
                        due_pg = due_pg.push(pv);
                    }
                },
                None => {
                },
            }
        }
        proof {
            assert(purchase_progress@.subrange(0, j + 1) =~= pre.push(
                purchase_progress@[j as int],
            ));
            lemma_due_purchases_push(pre, purchase_progress@[j as int], purchase_events@, days);
        }
        j += 1;
    }
    proof {
        assert(purchase_progress@.subrange(0, purchase_progress@.len() as int)
            =~= purchase_progress@);
    }

    let resp = DailyRequestsResponse {
        account_id: account.id,
        account_name: account.name.as_str().to_owned(),
        target_date: target_date.to_owned(),
        days_passed,
        requests,
    };
    proof {
        let durs = durs_g;
        assert(durs.len() == due_g.len() && (forall|k: int|
            0 <= k < durs.len() ==> duration_in_bounds(durs[k], due_g[k].time_spent as int))
            && views_of(resp.requests@) == spec_level_records(due_g, durs, ctx)
            + spec_purchase_records(due_pg, purchase_events@, ctx));
    }
    Ok(resp)
}

/// One scheduling pass with the assumed year taken from the system clock.
/// The postcondition holds for whatever year the clock reported, within
/// chrono's documented range.
pub fn compute_daily_requests_today(
    account: &Account,
    levels: &Vec<Level>,
    level_progress: &Vec<AccountLevelProgress>,
    purchase_events: &Vec<PurchaseEvent>,
    purchase_progress: &Vec<AccountPurchaseEventProgress>,
    target_date: &str,
) -> (r: Result<DailyRequestsResponse, ScheduleError>)
    ensures
        exists|year: int|
            1970 <= year <= 262142 && compute_post(
                r,
                *account,
                levels@,
                level_progress@,
                purchase_events@,
                purchase_progress@,
                target_date@,
                year,
            ),
{
    let year = current_utc_year();
    let r = compute_daily_requests(
        account,
        levels,
        level_progress,
        purchase_events,
        purchase_progress,
        target_date,
        year,
    );
    proof {
        let y = year as int;
        assert(1970 <= y <= 262142 && compute_post(
            r,
            *account,
            levels@,
            level_progress@,
            purchase_events@,
            purchase_progress@,
            target_date@,
            y,
        ));
    }
    r
}

/// When the target date is the very start date (an ISO string), the
/// elapsed-day count resolves to zero, whatever year is assumed.
pub proof fn lemma_same_date_zero_days(s: Seq<u8>, year: int)
    requires
        spec_parse_iso(s) is Some,
    ensures
        spec_days_result(s, s, year) == Ok::<int, ScheduleError>(0),
{
    assert(s.len() == 10);
    assert(!uses_short_form(s));
}

/// A target date that precedes the start date in calendar order resolves to
/// `DateBeforeStart`, for every such pair of dates.
pub proof fn lemma_target_before_start_fails(start: Seq<u8>, target: Seq<u8>, year: int)
    requires
        spec_parse_start_date(start, year) is Some,
        spec_parse_iso(target) is Some,
        ({
            let s = spec_parse_start_date(start, year)->Some_0;
            let t = spec_parse_iso(target)->Some_0;
            date_lt(t.0, t.1, t.2, s.0, s.1, s.2)
        }),
    ensures
        spec_days_result(start, target, year) == Err::<int, ScheduleError>(
            ScheduleError::DateBeforeStart,
        ),
{
    let s = spec_parse_start_date(start, year)->Some_0;
    let t = spec_parse_iso(target)->Some_0;
    assert(valid_date(s.0, s.1, s.2));
    assert(valid_date(t.0, t.1, t.2));
    lemma_day_number_increases(t.0, t.1, t.2, s.0, s.1, s.2);
}

/// Membership in the due-level set: a level is in it exactly when it is in
/// the catalog, its day offset equals the elapsed days, and it is not
/// completed.
pub proof fn lemma_due_levels_membership(
    levels: Seq<Level>,
    completed: Seq<i64>,
    days: int,
    l: Level,
)
    ensures
        spec_due_levels(levels, completed, days).contains(l) <==> (levels.contains(l) && level_due(
            l,
            completed,
            days,
        )),
    decreases levels.len(),
{
    broadcast use vstd::seq_lib::group_seq_properties;

    if levels.len() == 0 {
        reveal(Seq::filter);
    } else {
        let pre = levels.drop_last();
        lemma_due_levels_membership(pre, completed, days, l);
        lemma_due_levels_push(pre, levels.last(), completed, days);
        assert(pre.push(levels.last()) =~= levels);
    }
}

/// A level whose day offset is not the elapsed-day count is never due, for
/// any target day.
pub proof fn lemma_level_not_due_other_days(
    levels: Seq<Level>,
    completed: Seq<i64>,
    days: int,
    l: Level,
)
    requires
        l.days_offset as int != days,
    ensures
        !spec_due_levels(levels, completed, days).contains(l),
{
    lemma_due_levels_membership(levels, completed, days, l);
}

/// A completed level is never due, for every target day: marking a level's
/// progress completed removes it from all future due sets.
pub proof fn lemma_completed_level_never_due(
    levels: Seq<Level>,
    completed: Seq<i64>,
    days: int,
    l: Level,
)
    requires
        completed.contains(l.id),
    ensures
        !spec_due_levels(levels, completed, days).contains(l),
{
    lemma_due_levels_membership(levels, completed, days, l);
}

/// The completed-id set holds an id exactly when some progress row carries
/// that level id and is marked completed.
pub proof fn lemma_completed_ids_membership(progress: Seq<AccountLevelProgress>, id: i64)
    ensures
        spec_completed_ids(progress).contains(id) <==> exists|k: int|
            0 <= k < progress.len() && progress[k].is_completed && progress[k].level_id == id,
    decreases progress.len(),
{
    broadcast use vstd::seq_lib::group_seq_properties;

    if progress.len() == 0 {
        reveal(Seq::filter);
    } else {
        let pre = progress.drop_last();
        let last = progress.last();
        lemma_completed_ids_membership(pre, id);
        lemma_completed_push(pre, last);
        assert(pre.push(last) =~= progress);
        if exists|k: int| 0 <= k < pre.len() && pre[k].is_completed && pre[k].level_id == id {
            let k = choose|k: int|
                0 <= k < pre.len() && pre[k].is_completed && pre[k].level_id == id;
            assert(progress[k].is_completed && progress[k].level_id == id);
        }
        if last.is_completed && last.level_id == id {
            assert(progress[progress.len() - 1].is_completed);
        }
        if spec_completed_ids(progress).contains(id) && !(last.is_completed && last.level_id
            == id) {
            assert(spec_completed_ids(pre).contains(id));
        }
    }
}

/// Marking a level's progress completed removes the level from the due set,
/// for every target day.
pub proof fn lemma_completed_progress_removes_level(
    levels: Seq<Level>,
    progress: Seq<AccountLevelProgress>,
    days: int,
    l: Level,
    k: int,
)
    requires
        0 <= k < progress.len(),
        progress[k].is_completed,
        progress[k].level_id == l.id,
    ensures
        !spec_due_levels(levels, spec_completed_ids(progress), days).contains(l),
{
    lemma_completed_ids_membership(progress, l.id);
    lemma_completed_level_never_due(levels, spec_completed_ids(progress), days, l);
}

/// A due level contributes exactly one record, or two when its level name is
/// not the `-` sentinel.
pub proof fn lemma_level_record_count(l: Level, dur: int, ctx: RenderContext)
    ensures
        spec_level_records_for(l, dur, ctx).len() == (if encode_utf8(l.level_name@)
            == sentinel_name() {
            1int
        } else {
            2int
        }),
{
    reveal(spec_level_records_for);
}

/// Every record a due level contributes carries that level's id.
proof fn lemma_level_records_for_ids(l: Level, dur: int, ctx: RenderContext)
    ensures
        forall|r: RequestModel|
            spec_level_records_for(l, dur, ctx).contains(r) ==> r.level_id == Some(l.id),
{
    reveal(spec_level_records_for);
}

/// A record of a concatenation comes from one of the halves.
proof fn lemma_contains_split(a: Seq<RequestModel>, b: Seq<RequestModel>, r: RequestModel)
    requires
        (a + b).contains(r),
    ensures
        a.contains(r) || b.contains(r),
{
    let i = choose|i: int| 0 <= i < (a + b).len() && (a + b)[i] == r;
    if i < a.len() {
        assert(a[i] == r);
    } else {
        assert(b[i - a.len()] == r);
    }
}

/// When no due level carries the id, no level record does either.
proof fn lemma_level_records_avoid_id(due: Seq<Level>, durs: Seq<int>, ctx: RenderContext, id: i64)
    requires
        forall|k: int| 0 <= k < due.len() ==> due[k].id != id,
    ensures
        forall|r: RequestModel|
            spec_level_records(due, durs, ctx).contains(r) ==> r.level_id != Some(id),
    decreases due.len(),
{
    if due.len() > 0 {
        lemma_level_records_avoid_id(due.drop_last(), durs.drop_last(), ctx, id);
        lemma_level_records_for_ids(due.last(), durs.last(), ctx);
        assert forall|r: RequestModel|
            spec_level_records(due, durs, ctx).contains(r) implies r.level_id != Some(id) by {
            lemma_contains_split(
                spec_level_records(due.drop_last(), durs.drop_last(), ctx),
                spec_level_records_for(due.last(), durs.last(), ctx),
                r,
            );
        }
    }
}

/// Purchase-event records never carry a level id.
proof fn lemma_purchase_records_no_level_id(
    due: Seq<AccountPurchaseEventProgress>,
    catalog: Seq<PurchaseEvent>,
    ctx: RenderContext,
)
    ensures
        forall|r: RequestModel|
            spec_purchase_records(due, catalog, ctx).contains(r) ==> r.level_id is None,
    decreases due.len(),
{
    if due.len() > 0 {
        lemma_purchase_records_no_level_id(due.drop_last(), catalog, ctx);
        reveal(spec_purchase_records_for);
        assert forall|r: RequestModel|
            spec_purchase_records(due, catalog, ctx).contains(r) implies r.level_id is None by {
            lemma_contains_split(
                spec_purchase_records(due.drop_last(), catalog, ctx),
                spec_purchase_records_for(
                    due.last(),
                    spec_lookup_event(catalog, due.last().purchase_event_id)->Some_0,
                    ctx,
                ),
                r,
            );
        }
    }
}

/// No due level carries an id all of whose catalog entries have a day offset
/// other than the elapsed days.
proof fn lemma_due_levels_avoid_id(levels: Seq<Level>, completed: Seq<i64>, days: int, id: i64)
    requires
        forall|k: int|
            0 <= k < levels.len() && levels[k].id == id ==> levels[k].days_offset as int != days,
    ensures
        forall|k: int|
            0 <= k < spec_due_levels(levels, completed, days).len() ==> spec_due_levels(
                levels,
                completed,
                days,
            )[k].id != id,
{
    let due = spec_due_levels(levels, completed, days);
    assert forall|k: int| 0 <= k < due.len() implies due[k].id != id by {
        lemma_due_levels_membership(levels, completed, days, due[k]);
        assert(due.contains(due[k]));
        if due[k].id == id {
            let j = choose|j: int| 0 <= j < levels.len() && levels[j] == due[k];
            assert(levels[j].days_offset as int != days);
        }
    }
}

/// A level id whose catalog entries all have a day offset other than the
/// elapsed days appears in no rendered record at all: the level contributes
/// zero items, whatever the completion state, the durations, or the
/// purchase-event rows.
pub proof fn lemma_no_records_for_other_offsets(
    levels: Seq<Level>,
    completed: Seq<i64>,
    days: int,
    durs: Seq<int>,
    due_purchases: Seq<AccountPurchaseEventProgress>,
    catalog: Seq<PurchaseEvent>,
    ctx: RenderContext,
    id: i64,
)
    requires
        forall|k: int|
            0 <= k < levels.len() && levels[k].id == id ==> levels[k].days_offset as int != days,
    ensures
        forall|r: RequestModel|
            (spec_level_records(spec_due_levels(levels, completed, days), durs, ctx)
                + spec_purchase_records(due_purchases, catalog, ctx)).contains(r)
                ==> r.level_id != Some(id),
{
    let due = spec_due_levels(levels, completed, days);
    lemma_due_levels_avoid_id(levels, completed, days, id);
    lemma_level_records_avoid_id(due, durs, ctx, id);
    lemma_purchase_records_no_level_id(due_purchases, catalog, ctx);
    assert forall|r: RequestModel|
        (spec_level_records(due, durs, ctx) + spec_purchase_records(
            due_purchases,
            catalog,
            ctx,
        )).contains(r) implies r.level_id != Some(id) by {
        lemma_contains_split(
            spec_level_records(due, durs, ctx),
            spec_purchase_records(due_purchases, catalog, ctx),
            r,
        );
    }
}

/// Number of records in a sequence that carry the given level id.
pub open spec fn records_with_id(records: Seq<RequestModel>, id: i64) -> int {
    records.filter(|r: RequestModel| r.level_id == Some(id)).len() as int
}

/// Appending one record raises the count exactly when it carries the id.
proof fn lemma_records_with_id_push(s: Seq<RequestModel>, r: RequestModel, id: i64)
    ensures
        records_with_id(s.push(r), id) == records_with_id(s, id) + (if r.level_id == Some(id) {
            1int
        } else {
            0int
        }),
{
    reveal(Seq::filter);
    assert(s.push(r).drop_last() =~= s);
}

/// A sequence none of whose records carries the id counts zero.
proof fn lemma_records_with_id_zero(s: Seq<RequestModel>, id: i64)
    requires
        forall|r: RequestModel| s.contains(r) ==> r.level_id != Some(id),
    ensures
        records_with_id(s, id) == 0,
    decreases s.len(),
{
    if s.len() == 0 {
        reveal(Seq::filter);
    } else {
        let pre = s.drop_last();
        assert(forall|r: RequestModel| pre.contains(r) ==> s.contains(r));
        lemma_records_with_id_zero(pre, id);
        lemma_records_with_id_push(pre, s.last(), id);
        assert(pre.push(s.last()) =~= s);
        assert(s.contains(s.last()));
    }
}

/// The count distributes over concatenation.
proof fn lemma_records_with_id_add(a: Seq<RequestModel>, b: Seq<RequestModel>, id: i64)
    ensures
        records_with_id(a + b, id) == records_with_id(a, id) + records_with_id(b, id),
    decreases b.len(),
{
    if b.len() == 0 {
        assert(a + b =~= a);
    } else {
        let bpre = b.drop_last();
        lemma_records_with_id_add(a, bpre, id);
        lemma_records_with_id_push(a + bpre, b.last(), id);
        lemma_records_with_id_push(bpre, b.last(), id);
        assert((a + bpre).push(b.last()) =~= a + b);
        assert(bpre.push(b.last()) =~= b);
    }
}

/// A level's own records all carry its id, so their count is their length.
proof fn lemma_records_for_id_count(l: Level, dur: int, ctx: RenderContext, id: i64)
    ensures
        records_with_id(spec_level_records_for(l, dur, ctx), id) == (if l.id == id {
            spec_level_records_for(l, dur, ctx).len() as int
        } else {
            0int
        }),
{
    reveal(spec_level_records_for);
    let s = spec_level_records_for(l, dur, ctx);
    if l.id == id {
        if s.len() == 1 {
            assert(Seq::<RequestModel>::empty().push(s[0]) =~= s);
            lemma_records_with_id_push(Seq::empty(), s[0], id);
            reveal(Seq::filter);
        } else {
            assert(Seq::<RequestModel>::empty().push(s[0]).push(s[1]) =~= s);
            lemma_records_with_id_push(Seq::<RequestModel>::empty().push(s[0]), s[1], id);
            lemma_records_with_id_push(Seq::empty(), s[0], id);
            reveal(Seq::filter);
        }
    } else {
        lemma_level_records_for_ids(l, dur, ctx);
        lemma_records_with_id_zero(s, id);
    }
}

/// Under distinct level ids, the records carrying a due level's id are
/// exactly the one or two that level contributes: one when its name is the
/// `-` sentinel, two otherwise.
pub proof fn lemma_due_level_record_count(
    levels: Seq<Level>,
    completed: Seq<i64>,
    days: int,
    durs: Seq<int>,
    ctx: RenderContext,
    pos: int,
)
    requires
        forall|a: int, b: int| 0 <= a < b < levels.len() ==> levels[a].id != levels[b].id,
        durs.len() == spec_due_levels(levels, completed, days).len(),
        0 <= pos < levels.len(),
        level_due(levels[pos], completed, days),
    ensures
        records_with_id(
            spec_level_records(spec_due_levels(levels, completed, days), durs, ctx),
            levels[pos].id,
        ) == (if encode_utf8(levels[pos].level_name@) == sentinel_name() {
            1int
        } else {
            2int
        }),
    decreases levels.len(),
{
    let id = levels[pos].id;
    let pre = levels.drop_last();
    let x = levels.last();
    assert(pre.push(x) =~= levels);
    lemma_due_levels_push(pre, x, completed, days);
    let due_pre = spec_due_levels(pre, completed, days);
    let due = spec_due_levels(levels, completed, days);
    if pos == levels.len() - 1 {
        // The target level is the last one, and it is due.
        assert(due == due_pre.push(x));
        lemma_level_records_push(due_pre, durs.drop_last(), x, durs.last(), ctx);
        assert(durs.drop_last().push(durs.last()) =~= durs);
        lemma_records_with_id_add(
            spec_level_records(due_pre, durs.drop_last(), ctx),
            spec_level_records_for(x, durs.last(), ctx),
            id,
        );
        // No earlier level shares the id, so no earlier due level does.
        assert forall|k: int| 0 <= k < due_pre.len() implies due_pre[k].id != id by {
            lemma_due_levels_membership(pre, completed, days, due_pre[k]);
            assert(due_pre.contains(due_pre[k]));
            if due_pre[k].id == id {
                let j = choose|j: int| 0 <= j < pre.len() && pre[j] == due_pre[k];
                assert(levels[j].id == levels[pos].id);
            }
        }
        lemma_level_records_avoid_id(due_pre, durs.drop_last(), ctx, id);
        lemma_records_with_id_zero(spec_level_records(due_pre, durs.drop_last(), ctx), id);
        lemma_records_for_id_count(x, durs.last(), ctx, id);
        lemma_level_record_count(x, durs.last(), ctx);
    } else {
        // The target level lies before the last one.
        assert(pre[pos] == levels[pos]);
        if level_due(x, completed, days) {
            assert(due == due_pre.push(x));
            lemma_level_records_push(due_pre, durs.drop_last(), x, durs.last(), ctx);
            assert(durs.drop_last().push(durs.last()) =~= durs);
            lemma_records_with_id_add(
                spec_level_records(due_pre, durs.drop_last(), ctx),
                spec_level_records_for(x, durs.last(), ctx),
                id,
            );
            assert(x.id != id);
            lemma_records_for_id_count(x, durs.last(), ctx, id);
            lemma_due_level_record_count(pre, completed, days, durs.drop_last(), ctx, pos);
        } else {
            assert(due == due_pre);
            lemma_due_level_record_count(pre, completed, days, durs, ctx, pos);
        }
    }
}

/// A level id with a completed progress row appears in no rendered record,
/// for every target day: once completed, a level never re-enters the due set.
pub proof fn lemma_no_records_for_completed_level(
    levels: Seq<Level>,
    progress: Seq<AccountLevelProgress>,
    days: int,
    durs: Seq<int>,
    due_purchases: Seq<AccountPurchaseEventProgress>,
    catalog: Seq<PurchaseEvent>,
    ctx: RenderContext,
    id: i64,
    row: int,
)
    requires
        0 <= row < progress.len(),
        progress[row].is_completed,
        progress[row].level_id == id,
    ensures
        forall|r: RequestModel|
            (spec_level_records(
                spec_due_levels(levels, spec_completed_ids(progress), days),
                durs,
                ctx,
            ) + spec_purchase_records(due_purchases, catalog, ctx)).contains(r) ==> r.level_id
                != Some(id),
{
    let completed = spec_completed_ids(progress);
    let due = spec_due_levels(levels, completed, days);
    lemma_completed_ids_membership(progress, id);
    assert forall|k: int| 0 <= k < due.len() implies due[k].id != id by {
        lemma_due_levels_membership(levels, completed, days, due[k]);
        assert(due.contains(due[k]));
    }
    lemma_level_records_avoid_id(due, durs, ctx, id);
    lemma_purchase_records_no_level_id(due_purchases, catalog, ctx);
    assert forall|r: RequestModel|
        (spec_level_records(due, durs, ctx) + spec_purchase_records(
            due_purchases,
            catalog,
            ctx,
        )).contains(r) implies r.level_id != Some(id) by {
        lemma_contains_split(
            spec_level_records(due, durs, ctx),
            spec_purchase_records(due_purchases, catalog, ctx),
            r,
        );
    }
}

} // verus!
