//! The Home Assistant history client: the request for an entity's history and the
//! split of that history into the two compared windows.
use vstd::prelude::*;
use crate::clock::{
    format_rfc3339, format_utc_minute, format_utc_second_z, representable, rfc3339_text, utc_minute_text,
    utc_second_z_text,
};
use crate::ha_metrics::{EntityConfig, EntityKind};
use crate::text::{push_str, trim_end_char, trim_trailing_slashes};

verus! {

/// Errors of the history client.
#[derive(Debug)]
pub enum Error {
    /// The HTTP exchange failed; the text says how.
    Http(String),
    ApiError(String),
}

impl Error {
    /// The text of the error's message.
    pub open spec fn message_view(&self) -> Seq<char> {
        match self {
            Error::Http(e) => "HTTP request failed: "@ + e@,
            Error::ApiError(e) => "Home Assistant API error: "@ + e@,
        }
    }

    /// The error's message.
    pub fn message(&self) -> (m: String)
        ensures
            m@ == self.message_view(),
    {
        match self {
            Error::Http(e) => {
                let mut m = "HTTP request failed: ".to_owned();
                push_str(&mut m, e.as_str());
                m
            },
            Error::ApiError(e) => {
                let mut m = "Home Assistant API error: ".to_owned();
                push_str(&mut m, e.as_str());
                m
            },
        }
    }
}

/// A recorded state of an entity and when it took it (seconds and nanoseconds
/// after the Unix epoch).
pub struct StateChange {
    pub state: String,
    pub changed_secs: i64,
    pub changed_nanos: u32,
}

impl StateChange {
    /// A copy of the change.
    pub fn duplicate(&self) -> (c: StateChange)
        ensures
            c.state@ == self.state@,
            c.changed_secs == self.changed_secs,
            c.changed_nanos == self.changed_nanos,
    {
        StateChange { state: self.state.clone(), changed_secs: self.changed_secs, changed_nanos: self.changed_nanos }
    }
}

/// The request for an entity's history.
pub struct HistoryRequest {
    pub url: String,
    pub authorization: String,
    pub query: Vec<(String, String)>,
}

/// The views of string pairs.
pub open spec fn query_view(v: Seq<(String, String)>) -> Seq<(Seq<char>, Seq<char>)> {
    v.map_values(|p: (String, String)| (p.0@, p.1@))
}

/// A client for one Home Assistant instance.
pub struct HaMetricsClient {
    base_url: String,
    token: String,
}

impl HaMetricsClient {
    pub closed spec fn base_url_view(&self) -> Seq<char> {
        self.base_url@
    }

    pub closed spec fn token_view(&self) -> Seq<char> {
        self.token@
    }

    /// A client for `base_url` without its trailing slashes, using `token`.
    pub fn new(base_url: &str, token: &str) -> (c: Self)
        ensures
            c.base_url_view() == trim_end_char(base_url@, '/'),
            c.token_view() == token@,
    {
        HaMetricsClient { base_url: trim_trailing_slashes(base_url), token: token.to_owned() }
    }

    /// The base URL.
    pub fn base_url(&self) -> (u: &str)
        ensures
            u@ == self.base_url_view(),
    {
        self.base_url.as_str()
    }

    /// The request for the history of `entity_id` from `start_secs` to the instant
    /// `end_secs`/`end_nanos`, with minimal responses.
    pub fn history_request(&self, start_secs: i64, end_secs: i64, end_nanos: u32, entity_id: &str) -> (r: HistoryRequest)
        requires
            representable(start_secs as int),
            representable(end_secs as int),
            end_nanos < 1_000_000_000,
        ensures
            r.url@ == self.base_url_view() + "/api/history/period/"@ + utc_second_z_text(start_secs),
            r.authorization@ == "Bearer "@ + self.token_view(),
            query_view(r.query@) == seq![
                ("end_time"@, rfc3339_text(end_secs, end_nanos)),
                ("filter_entity_id"@, entity_id@),
                ("minimal_response"@, "true"@),
            ],
    {
        let mut url = self.base_url.clone();
        push_str(&mut url, "/api/history/period/");
        let start = format_utc_second_z(start_secs);
        push_str(&mut url, start.as_str());
        let mut authorization = "Bearer ".to_owned();
        push_str(&mut authorization, self.token.as_str());
        let mut query: Vec<(String, String)> = Vec::new();
        query.push(("end_time".to_owned(), format_rfc3339(end_secs, end_nanos)));
        query.push(("filter_entity_id".to_owned(), entity_id.to_owned()));
        query.push(("minimal_response".to_owned(), "true".to_owned()));
        assert(query_view(query@) =~= seq![
            ("end_time"@, rfc3339_text(end_secs, end_nanos)),
            ("filter_entity_id"@, entity_id@),
            ("minimal_response"@, "true"@),
        ]);
        HistoryRequest { url, authorization, query }
    }
}

/// Checks the status of a history reply: a 2xx status passes; any other is an
/// `ApiError` naming the status line (such as `404 Not Found`) and the reply's text.
pub fn check_history_status(status: u16, status_line: &str, body: &str) -> (r: Result<(), Error>)
    ensures
        200 <= status < 300 ==> r is Ok,
        !(200 <= status < 300) ==> (r matches Err(Error::ApiError(m)) && m@ == "HTTP "@ + status_line@ + ": "@ + body@),
{
    if 200 <= status && status < 300 {
        return Ok(());
    }
    let mut m = "HTTP ".to_owned();
    push_str(&mut m, status_line);
    push_str(&mut m, ": ");
    push_str(&mut m, body);
    Err(Error::ApiError(m))
}

/// The history of the entity asked for: the first list of a decoded reply, which
/// holds one list per entity, or no changes when the reply holds none.
pub fn first_history(lists: Vec<Vec<StateChange>>) -> (h: Vec<StateChange>)
    ensures
        lists@.len() > 0 ==> h == lists@[0],
        lists@.len() == 0 ==> h@.len() == 0,
{
    let mut lists = lists;
    if lists.len() == 0 {
        Vec::new()
    } else {
        lists.remove(0)
    }
}

/// The instant `(secs, nanos)` comes before `(s2, n2)`.
pub open spec fn before(secs: i64, nanos: u32, s2: i64, n2: u32) -> bool {
    secs < s2 || (secs == s2 && nanos < n2)
}

/// The states of `history` recorded before the instant `(secs, nanos)`, in order.
pub open spec fn earlier(history: Seq<StateChange>, secs: i64, nanos: u32) -> Seq<(Seq<char>, i64, u32)>
    decreases history.len(),
{
    if history.len() == 0 {
        seq![]
    } else {
        let rest = earlier(history.drop_last(), secs, nanos);
        let c = history.last();
        if before(c.changed_secs, c.changed_nanos, secs, nanos) {
            rest.push((c.state@, c.changed_secs, c.changed_nanos))
        } else {
            rest
        }
    }
}

/// The states of `history` recorded at or after the instant `(secs, nanos)`, in order.
pub open spec fn later(history: Seq<StateChange>, secs: i64, nanos: u32) -> Seq<(Seq<char>, i64, u32)>
    decreases history.len(),
{
    if history.len() == 0 {
        seq![]
    } else {
        let rest = later(history.drop_last(), secs, nanos);
        let c = history.last();
        if before(c.changed_secs, c.changed_nanos, secs, nanos) {
            rest
        } else {
            rest.push((c.state@, c.changed_secs, c.changed_nanos))
        }
    }
}

/// The views of state changes.
pub open spec fn changes_view(v: Seq<StateChange>) -> Seq<(Seq<char>, i64, u32)> {
    v.map_values(|c: StateChange| (c.state@, c.changed_secs, c.changed_nanos))
}

/// Splits `history` at the instant `(secs, nanos)`: the changes before it (the
/// previous window) and the others (the current window), each in order.
pub fn split_history(history: &Vec<StateChange>, secs: i64, nanos: u32) -> (r: (Vec<StateChange>, Vec<StateChange>))
    ensures
        changes_view(r.0@) == earlier(history@, secs, nanos),
        changes_view(r.1@) == later(history@, secs, nanos),
{
    let mut previous: Vec<StateChange> = Vec::new();
    let mut current: Vec<StateChange> = Vec::new();
    let mut i: usize = 0;
    while i < history.len()
        invariant
            i <= history@.len(),
            changes_view(previous@) == earlier(history@.take(i as int), secs, nanos),
            changes_view(current@) == later(history@.take(i as int), secs, nanos),
        decreases history.len() - i,
    {
        let c = &history[i];
        assert(history@.take(i + 1).drop_last() =~= history@.take(i as int));
        let copy = c.duplicate();
        if c.changed_secs < secs || (c.changed_secs == secs && c.changed_nanos < nanos) {
            let ghost p = previous@;
            previous.push(copy);
            assert(changes_view(previous@) =~= changes_view(p).push((c.state@, c.changed_secs, c.changed_nanos)));
        } else {
            let ghost q = current@;
            current.push(copy);
            assert(changes_view(current@) =~= changes_view(q).push((c.state@, c.changed_secs, c.changed_nanos)));
        }
        i = i + 1;
    }
    assert(history@.take(history@.len() as int) =~= history@);
    (previous, current)
}


/// The split respects its boundary: every change of the previous window was
/// recorded before it, and no change of the current window was.
pub proof fn split_respects_boundary(history: Seq<StateChange>, secs: i64, nanos: u32)
    ensures
        forall|i: int| 0 <= i < earlier(history, secs, nanos).len() ==> before(
            (#[trigger] earlier(history, secs, nanos)[i]).1,
            earlier(history, secs, nanos)[i].2,
            secs,
            nanos,
        ),
        forall|i: int| 0 <= i < later(history, secs, nanos).len() ==> !before(
            (#[trigger] later(history, secs, nanos)[i]).1,
            later(history, secs, nanos)[i].2,
            secs,
            nanos,
        ),
    decreases history.len(),
{
    if history.len() > 0 {
        split_respects_boundary(history.drop_last(), secs, nanos);
        let e = earlier(history.drop_last(), secs, nanos);
        let l = later(history.drop_last(), secs, nanos);
        assert forall|i: int| 0 <= i < earlier(history, secs, nanos).len() implies before(
            (#[trigger] earlier(history, secs, nanos)[i]).1,
            earlier(history, secs, nanos)[i].2,
            secs,
            nanos,
        ) by {
            if i < e.len() {
                assert(earlier(history, secs, nanos)[i] == e[i]);
            }
        }
        assert forall|i: int| 0 <= i < later(history, secs, nanos).len() implies !before(
            (#[trigger] later(history, secs, nanos)[i]).1,
            later(history, secs, nanos)[i].2,
            secs,
            nanos,
        ) by {
            if i < l.len() {
                assert(later(history, secs, nanos)[i] == l[i]);
            }
        }
    }
}

/// Splitting a history loses and duplicates nothing: every change lands in exactly
/// one of the two windows, so together they hold as many changes as the history.
pub proof fn split_keeps_every_change(history: Seq<StateChange>, secs: i64, nanos: u32)
    ensures
        earlier(history, secs, nanos).len() + later(history, secs, nanos).len() == history.len(),
    decreases history.len(),
{
    if history.len() > 0 {
        split_keeps_every_change(history.drop_last(), secs, nanos);
    }
}


// ── The report ───────────────────────────────────────────────────────────────

/// The figures of one entity's section of the report, as the text of its numbers.
/// They are worked out from the recorded states by the caller: a gauge's latest
/// reading with one decimal, a counter's totals and change in whole watt-hours and
/// the change's percentage with one decimal, each change with its sign.
pub enum Figures {
    /// A gauge's latest reading, if either window has one.
    Reading(Option<String>),
    /// A counter's totals over both windows and the change between them.
    Totals { current: String, previous: String, change: String, percent: String },
    /// A counter with a total for the current window only.
    CurrentOnly(String),
    /// A counter with a total for the previous window only.
    PreviousOnly(String),
    /// A counter with a total for neither window.
    NoTotals,
}

/// Chooses an entity's figures from the texts of its numbers. A gauge shows the
/// latest reading of the current window, falling back to the previous window's
/// when the sensor has not reported recently. A counter shows both totals with
/// their `change` when both windows have one, otherwise the one there is.
pub fn choose_figures(
    kind: EntityKind,
    current: Option<String>,
    previous: Option<String>,
    change: Option<(String, String)>,
) -> (f: Figures)
    requires
        kind == EntityKind::Cumulative && current is Some && previous is Some ==> change is Some,
    ensures
        kind == EntityKind::Gauge ==> f == Figures::Reading(if current is Some { current } else { previous }),
        kind == EntityKind::Cumulative ==> f == match (current, previous) {
            (Some(c), Some(p)) => match change {
                Some((ch, pct)) => Figures::Totals { current: c, previous: p, change: ch, percent: pct },
                None => Figures::NoTotals,
            },
            (Some(c), None) => Figures::CurrentOnly(c),
            (None, Some(p)) => Figures::PreviousOnly(p),
            (None, None) => Figures::NoTotals,
        },
{
    match kind {
        EntityKind::Gauge => match current {
            Some(c) => Figures::Reading(Some(c)),
            None => Figures::Reading(previous),
        },
        EntityKind::Cumulative => match (current, previous) {
            (Some(c), Some(p)) => match change {
                Some((ch, pct)) => Figures::Totals { current: c, previous: p, change: ch, percent: pct },
                None => Figures::NoTotals,
            },
            (Some(c), None) => Figures::CurrentOnly(c),
            (None, Some(p)) => Figures::PreviousOnly(p),
            (None, None) => Figures::NoTotals,
        },
    }
}

/// The lines of an entity's section below its heading.
pub open spec fn figures_text(f: Figures) -> Seq<char> {
    match f {
        Figures::Reading(Some(v)) => "  Reading: "@ + v@ + "\n"@,
        Figures::Reading(None) => "  No data available.\n"@,
        Figures::Totals { current, previous, change, percent } => "  Current:  "@ + current@ + " Wh\n"@
            + "  Previous: "@ + previous@ + " Wh\n"@ + "  Change:   "@ + change@ + " Wh ("@ + percent@ + "%)\n"@,
        Figures::CurrentOnly(c) => "  Current:  "@ + c@ + " Wh\n"@ + "  Previous: no data\n"@,
        Figures::PreviousOnly(p) => "  Current:  no data\n"@ + "  Previous: "@ + p@ + " Wh\n"@,
        Figures::NoTotals => "  No data available for either period.\n"@,
    }
}

/// An entity's section: its name and id, its figures, and a blank line.
pub open spec fn section_text(e: EntityConfig, f: Figures) -> Seq<char> {
    e.label_view() + " ("@ + e.id@ + "):\n"@ + figures_text(f) + "\n"@
}

/// The sections of the entities with their figures, in order.
pub open spec fn sections_text(es: Seq<EntityConfig>, fs: Seq<Figures>) -> Seq<char>
    decreases es.len(),
{
    if es.len() == 0 {
        seq![]
    } else {
        sections_text(es.drop_last(), fs.take(es.len() - 1)) + section_text(es.last(), fs[es.len() - 1])
    }
}

/// The title of the report and the bounds of its two windows.
pub open spec fn report_header(a_start: i64, a_end: i64, b_start: i64, b_end: i64) -> Seq<char> {
    "Home Assistant Metrics Report\n"@ + "=============================\n\n"@
        + "Current period:  "@ + utc_minute_text(a_start) + " \u{2192} "@ + utc_minute_text(a_end) + "\n"@
        + "Previous period: "@ + utc_minute_text(b_start) + " \u{2192} "@ + utc_minute_text(b_end) + "\n\n"@
}

fn push_figures(out: &mut String, f: &Figures)
    ensures
        final(out)@ == old(out)@ + figures_text(*f),
{
    match f {
        Figures::Reading(Some(v)) => {
            push_str(out, "  Reading: ");
            push_str(out, v.as_str());
            push_str(out, "\n");
        },
        Figures::Reading(None) => push_str(out, "  No data available.\n"),
        Figures::Totals { current, previous, change, percent } => {
            push_str(out, "  Current:  ");
            push_str(out, current.as_str());
            push_str(out, " Wh\n");
            push_str(out, "  Previous: ");
            push_str(out, previous.as_str());
            push_str(out, " Wh\n");
            push_str(out, "  Change:   ");
            push_str(out, change.as_str());
            push_str(out, " Wh (");
            push_str(out, percent.as_str());
            push_str(out, "%)\n");
        },
        Figures::CurrentOnly(c) => {
            push_str(out, "  Current:  ");
            push_str(out, c.as_str());
            push_str(out, " Wh\n");
            push_str(out, "  Previous: no data\n");
        },
        Figures::PreviousOnly(p) => {
            push_str(out, "  Current:  no data\n");
            push_str(out, "  Previous: ");
            push_str(out, p.as_str());
            push_str(out, " Wh\n");
        },
        Figures::NoTotals => push_str(out, "  No data available for either period.\n"),
    }
}

/// The report comparing the current window (`a_start` to `a_end`) with the previous
/// one (`b_start` to `b_end`): a title, the windows' bounds, and one section per
/// entity with its figures.
pub fn format_comparison(
    entities: &Vec<EntityConfig>,
    figures: &Vec<Figures>,
    a_start: i64,
    a_end: i64,
    b_start: i64,
    b_end: i64,
) -> (out: String)
    requires
        figures@.len() == entities@.len(),
        representable(a_start as int),
        representable(a_end as int),
        representable(b_start as int),
        representable(b_end as int),
    ensures
        out@ == report_header(a_start, a_end, b_start, b_end) + sections_text(entities@, figures@),
{
    let mut out = String::new();
    push_str(&mut out, "Home Assistant Metrics Report\n");
    push_str(&mut out, "=============================\n\n");
    push_str(&mut out, "Current period:  ");
    let t = format_utc_minute(a_start);
    push_str(&mut out, t.as_str());
    push_str(&mut out, " \u{2192} ");
    let t = format_utc_minute(a_end);
    push_str(&mut out, t.as_str());
    push_str(&mut out, "\n");
    push_str(&mut out, "Previous period: ");
    let t = format_utc_minute(b_start);
    push_str(&mut out, t.as_str());
    push_str(&mut out, " \u{2192} ");
    let t = format_utc_minute(b_end);
    push_str(&mut out, t.as_str());
    push_str(&mut out, "\n\n");
    let ghost header = out@;
    assert(header =~= report_header(a_start, a_end, b_start, b_end));
    let mut i: usize = 0;
    while i < entities.len()
        invariant
            i <= entities@.len(),
            figures@.len() == entities@.len(),
            out@ == header + sections_text(entities@.take(i as int), figures@.take(i as int)),
        decreases entities.len() - i,
    {
        let e = &entities[i];
        let label = e.display_label();
        push_str(&mut out, label);
        push_str(&mut out, " (");
        push_str(&mut out, e.id.as_str());
        push_str(&mut out, "):\n");
        push_figures(&mut out, &figures[i]);
        push_str(&mut out, "\n");
        proof {
            let es = entities@.take(i + 1);
            let fs = figures@.take(i + 1);
            assert(es.drop_last() =~= entities@.take(i as int));
            assert(fs.take(es.len() - 1) =~= figures@.take(i as int));
            assert(es.last() == entities@[i as int]);
            assert(fs[es.len() - 1] == figures@[i as int]);
        }
        i = i + 1;
    }
    assert(entities@.take(entities@.len() as int) =~= entities@);
    assert(figures@.take(figures@.len() as int) =~= figures@);
    out
}

} // verus!
