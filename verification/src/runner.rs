//! The pipeline's decisions: what a run makes of the inputs' and outputs' results,
//! the component settings built from the configuration, the schedule, and what
//! happens after a run.
use vstd::prelude::*;
use crate::anthropic::AnthropicConfig;
use crate::briefing::InputData;
use crate::clock::{last_representable, read_clock, representable, ClockReading};
use crate::config::{
    AnthropicProcessorConfig, EntityKind as ConfigEntityKind, FeverInputConfig, HaMetricsEntityConfig,
    HaMetricsInputConfig, HomeAssistantOutputConfig, SpeechOutputConfig, WebpageOutputConfig,
};
use crate::fever::FeverConfig;
use crate::ha_metrics::{EntityConfig, EntityKind, HaMetricsConfig};
use crate::ha_output::HomeAssistantConfig;
use crate::speech::SpeechConfig;
use crate::text::{decimal, join, join_strings, push_decimal, push_str};
use crate::webpage::WebpageConfig;

verus! {

// ── Results of a run ─────────────────────────────────────────────────────────

/// The data of the inputs that were collected, in order.
pub open spec fn collected(rs: Seq<(String, Result<InputData, String>)>) -> Seq<InputData>
    decreases rs.len(),
{
    if rs.len() == 0 {
        seq![]
    } else {
        let rest = collected(rs.drop_last());
        match rs.last().1 {
            Ok(d) => rest.push(d),
            Err(_) => rest,
        }
    }
}

/// `name: error` for each failed result, in order.
pub open spec fn failures<T>(rs: Seq<(String, Result<T, String>)>) -> Seq<Seq<char>>
    decreases rs.len(),
{
    if rs.len() == 0 {
        seq![]
    } else {
        let rest = failures(rs.drop_last());
        match rs.last().1 {
            Ok(_) => rest,
            Err(e) => rest.push(rs.last().0@ + ": "@ + e@),
        }
    }
}

/// What a run does with the inputs' results (each paired with the input's name):
/// it fails, listing every failure, when all inputs failed; otherwise it goes on
/// with the collected data and the number of failures.
pub fn collect_outcome(results: Vec<(String, Result<InputData, String>)>) -> (r: Result<(Vec<InputData>, usize), String>)
    ensures
        failures(results@).len() > 0 && collected(results@).len() == 0 ==> (r matches Err(m)
            && m@ == "All inputs failed: "@ + join(failures(results@), "; "@)),
        !(failures(results@).len() > 0 && collected(results@).len() == 0) ==> (r matches Ok((d, n))
            && d@ == collected(results@) && n == failures(results@).len()),
{
    let mut data: Vec<InputData> = Vec::new();
    let mut errors: Vec<String> = Vec::new();
    let mut i: usize = 0;
    while i < results.len()
        invariant
            i <= results@.len(),
            data@ == collected(results@.take(i as int)),
            errors@.map_values(|e: String| e@) == failures(results@.take(i as int)),
        decreases results.len() - i,
    {
        assert(results@.take(i + 1).drop_last() =~= results@.take(i as int));
        let (name, result) = &results[i];
        match result {
            Ok(d) => {
                data.push(InputData { source: d.source.clone(), content: d.content.clone() });
            },
            Err(e) => {
                let mut m = name.clone();
                push_str(&mut m, ": ");
                push_str(&mut m, e.as_str());
                let ghost old_errors = errors@;
                errors.push(m);
                assert(errors@.map_values(|e: String| e@) =~= old_errors.map_values(|e: String| e@).push(m@));
            },
        }
        i = i + 1;
    }
    assert(results@.take(results@.len() as int) =~= results@);
    if errors.len() > 0 && data.len() == 0 {
        let mut m = "All inputs failed: ".to_owned();
        let joined = join_strings(&errors, "; ");
        push_str(&mut m, joined.as_str());
        return Err(m);
    }
    Ok((data, errors.len()))
}

/// Every input's result is accounted for exactly once: it is either collected or
/// listed among the failures.
pub proof fn every_input_accounted(rs: Seq<(String, Result<InputData, String>)>)
    ensures
        collected(rs).len() + failures(rs).len() == rs.len(),
    decreases rs.len(),
{
    if rs.len() > 0 {
        every_input_accounted(rs.drop_last());
    }
}

/// What a run does with the outputs' results (each paired with the output's name):
/// it fails, listing every failure, when any output failed.
pub fn write_outcome(results: Vec<(String, Result<(), String>)>) -> (r: Result<(), String>)
    ensures
        failures(results@).len() > 0 ==> (r matches Err(m) && m@ == "Some outputs failed: "@ + join(failures(results@), "; "@)),
        failures(results@).len() == 0 ==> r is Ok,
{
    let mut errors: Vec<String> = Vec::new();
    let mut i: usize = 0;
    while i < results.len()
        invariant
            i <= results@.len(),
            errors@.map_values(|e: String| e@) == failures(results@.take(i as int)),
        decreases results.len() - i,
    {
        assert(results@.take(i + 1).drop_last() =~= results@.take(i as int));
        let (name, result) = &results[i];
        match result {
            Ok(()) => {},
            Err(e) => {
                let mut m = name.clone();
                push_str(&mut m, ": ");
                push_str(&mut m, e.as_str());
                let ghost old_errors = errors@;
                errors.push(m);
                assert(errors@.map_values(|e: String| e@) =~= old_errors.map_values(|e: String| e@).push(m@));
            },
        }
        i = i + 1;
    }
    assert(results@.take(results@.len() as int) =~= results@);
    if errors.len() > 0 {
        let mut m = "Some outputs failed: ".to_owned();
        let joined = join_strings(&errors, "; ");
        push_str(&mut m, joined.as_str());
        return Err(m);
    }
    Ok(())
}

/// The error for an unset environment variable `var` that the component `name` of
/// kind `kind` needs.
pub fn missing_env_message(var: &str, kind: &str, name: &str) -> (m: String)
    ensures
        m@ == kind@ + " '"@ + name@ + "': environment variable '"@ + var@ + "' is not set"@,
{
    let mut m = kind.to_owned();
    push_str(&mut m, " '");
    push_str(&mut m, name);
    push_str(&mut m, "': environment variable '");
    push_str(&mut m, var);
    push_str(&mut m, "' is not set");
    m
}

// ── Schedule ─────────────────────────────────────────────────────────────────

/// Declares `cron::Schedule` to the verifier, so that a schedule can be passed
/// through verified code; nothing inside it is visible.
#[verifier::external_type_specification]
#[verifier::external_body]
pub struct ExSchedule(cron::Schedule);

/// The seven-field expression the `cron` crate reads for the five-field `expr`:
/// seconds fixed at 0 and any year.
pub open spec fn cron_expression(expr: Seq<char>) -> Seq<char> {
    "0 "@ + expr + " *"@
}

/// What the `cron` crate makes of the expression `expr`: nothing when it accepts
/// it, otherwise the text of its error.
pub uninterp spec fn cron_rejection(expr: Seq<char>) -> Option<Seq<char>>;

/// A cron schedule together with the seven-field expression it was read from. Only
/// `parse_schedule` makes one, from the expression it keeps.
#[derive(Debug)]
pub struct CronSchedule {
    expr: String,
    schedule: cron::Schedule,
}

impl CronSchedule {
    /// The expression the schedule was read from.
    pub closed spec fn expression(&self) -> Seq<char> {
        self.expr@
    }

    /// The expression the schedule was read from.
    pub fn expression_text(&self) -> (e: &str)
        ensures
            e@ == self.expression(),
    {
        self.expr.as_str()
    }
}

/// `cron::Schedule::from_str`, with the crate's error turned into its `Display`
/// text: the schedule, kept with `expr`, when `cron_rejection(expr)` is `None`,
/// otherwise that text.
#[verifier::external_body]
fn parse_schedule(expr: &str) -> (r: Result<CronSchedule, String>)
    ensures
        match r {
            Ok(s) => cron_rejection(expr@) is None && s.expression() == expr@,
            Err(m) => cron_rejection(expr@) == Some(m@),
        },
{
    match <cron::Schedule as std::str::FromStr>::from_str(expr) {
        Ok(schedule) => Ok(CronSchedule { expr: expr.to_owned(), schedule }),
        Err(e) => Err(e.to_string()),
    }
}

/// Reads a five-field cron expression (min hour dom month dow) as a schedule.
/// It is accepted exactly when the `cron` crate accepts it with seconds 0 and any
/// year, and the schedule is the one read from that seven-field expression;
/// otherwise the error names the expression and gives the crate's reason.
pub fn parse_cron(expr: &str) -> (r: Result<CronSchedule, String>)
    ensures
        match cron_rejection(cron_expression(expr@)) {
            None => r matches Ok(s) && s.expression() == cron_expression(expr@),
            Some(reason) => r matches Err(m) && m@ == "Invalid cron expression '"@ + expr@ + "': "@ + reason,
        },
{
    let mut extended = "0 ".to_owned();
    push_str(&mut extended, expr);
    push_str(&mut extended, " *");
    match parse_schedule(extended.as_str()) {
        Ok(s) => Ok(s),
        Err(reason) => {
            let mut m = "Invalid cron expression '".to_owned();
            push_str(&mut m, expr);
            push_str(&mut m, "': ");
            push_str(&mut m, reason.as_str());
            Err(m)
        },
    }
}

/// The next time, in seconds after the Unix epoch, that the schedule read from the
/// seven-field expression `expr` gives after the instant `(now_secs, now_nanos)`,
/// or `None` when there is none.
pub uninterp spec fn cron_next(expr: Seq<char>, now_secs: i64, now_nanos: u32) -> Option<i64>;

/// `cron::Schedule::after` at the instant `(now_secs, now_nanos)` and the first time
/// it yields, as seconds after the Unix epoch (named `cron_next`). The crate builds
/// its times from whole seconds, so nothing is lost by dropping the sub-second part.
/// It starts its search one second after the instant and only moves forward from
/// there, so a time found is later than the instant; forming that second is beyond
/// `chrono` at its last second, which is left out.
#[verifier::external_body]
fn next_schedule_time(schedule: &CronSchedule, now_secs: i64, now_nanos: u32) -> (t: Option<i64>)
    requires
        representable(now_secs as int),
        now_secs < last_representable(),
        now_nanos < 1_000_000_000,
    ensures
        t == cron_next(schedule.expression(), now_secs, now_nanos),
        t matches Some(x) ==> representable(x as int) && x > now_secs,
{
    let now = chrono::DateTime::from_timestamp(now_secs, now_nanos).unwrap();
    schedule.schedule.after(&now).next().map(|d| d.timestamp())
}

/// Nanoseconds from the instant `(now_secs, now_nanos)` to the whole second `next_secs`.
pub open spec fn nanos_until(next_secs: int, now_secs: int, now_nanos: int) -> int {
    next_secs * 1_000_000_000 - (now_secs * 1_000_000_000 + now_nanos)
}

/// The wait, as whole seconds and the nanoseconds past them, from the instant
/// `(now_secs, now_nanos)` to the whole second `next_secs`; none when that second
/// has already come.
pub fn wait_until(next_secs: i64, now_secs: i64, now_nanos: u32) -> (w: (u64, u32))
    requires
        representable(next_secs as int),
        representable(now_secs as int),
        now_nanos < 1_000_000_000,
    ensures
        nanos_until(next_secs as int, now_secs as int, now_nanos as int) < 0 ==> w == (0u64, 0u32),
        nanos_until(next_secs as int, now_secs as int, now_nanos as int) >= 0 ==> {
            &&& w.1 < 1_000_000_000
            &&& w.0 * 1_000_000_000 + w.1 == nanos_until(next_secs as int, now_secs as int, now_nanos as int)
        },
{
    if next_secs < now_secs || (next_secs == now_secs && now_nanos > 0) {
        return (0, 0);
    }
    let diff = (next_secs - now_secs) as u64;
    if now_nanos == 0 {
        (diff, 0)
    } else {
        assert(diff >= 1);
        (diff - 1, 1_000_000_000 - now_nanos)
    }
}

/// When the next scheduled run starts and how long to sleep until then.
#[derive(Debug, Clone, Copy, PartialEq, Eq, Structural)]
pub struct NextRun {
    /// The start, in seconds after the Unix epoch.
    pub at_secs: i64,
    /// The wait, in whole seconds and the nanoseconds past them.
    pub wait_secs: u64,
    pub wait_nanos: u32,
    /// The clock reading the run was worked out from, when it was worked out from
    /// the present (`next_sleep`); `None` for an instant given by the caller.
    pub from: Option<ClockReading>,
}

impl NextRun {
    /// The wait is the time from the instant `(now_secs, now_nanos)` to the run, or
    /// none when the run is not after it.
    pub open spec fn waits_from(self, now_secs: int, now_nanos: int) -> bool {
        &&& 0 <= now_nanos < 1_000_000_000
        &&& nanos_until(self.at_secs as int, now_secs, now_nanos) < 0 ==> self.wait_secs == 0 && self.wait_nanos == 0
        &&& nanos_until(self.at_secs as int, now_secs, now_nanos) >= 0 ==> self.wait_secs * 1_000_000_000
            + self.wait_nanos == nanos_until(self.at_secs as int, now_secs, now_nanos)
    }
}

/// The next run for the schedule's next time `next` (if it has one) seen from the
/// instant `(now_secs, now_nanos)`: that time with the wait until it, or the error
/// for a schedule without future times.
pub fn next_run(next: Option<i64>, now_secs: i64, now_nanos: u32) -> (r: Result<NextRun, String>)
    requires
        next matches Some(s) ==> representable(s as int),
        representable(now_secs as int),
        now_nanos < 1_000_000_000,
    ensures
        next is None <==> r is Err,
        r matches Err(m) ==> m@ == "Cron schedule produced no future times"@,
        r matches Ok(n) ==> next == Some(n.at_secs) && n.waits_from(now_secs as int, now_nanos as int)
            && n.wait_nanos < 1_000_000_000 && n.from is None,
{
    match next {
        None => Err("Cron schedule produced no future times".to_owned()),
        Some(at) => {
            let (wait_secs, wait_nanos) = wait_until(at, now_secs, now_nanos);
            Ok(NextRun { at_secs: at, wait_secs, wait_nanos, from: None })
        },
    }
}

/// The schedule's next run after the present and the wait until it, or the error
/// for a schedule without future times: `next_run` for the schedule's next time
/// after a reading of the clock (none at `chrono`'s last second, after which nothing
/// can come). The run carries that reading: its time is the schedule's next time
/// after the reading, later than it, and the wait is measured from it.
pub fn next_sleep(schedule: &CronSchedule) -> (r: Result<NextRun, String>)
    ensures
        r matches Ok(n) ==> n.wait_nanos < 1_000_000_000 && (n.from matches Some(c) && {
            &&& 0 <= c.secs_of() < last_representable()
            &&& c.nanos_of() < 1_000_000_000
            &&& cron_next(schedule.expression(), c.secs_of(), c.nanos_of()) == Some(n.at_secs)
            &&& n.at_secs > c.secs_of()
            &&& n.waits_from(c.secs_of() as int, c.nanos_of() as int)
        }),
        r matches Err(m) ==> m@ == "Cron schedule produced no future times"@ && exists|s: i64, ns: u32|
            #![trigger cron_next(schedule.expression(), s, ns)]
            0 <= s && ns < 1_000_000_000 && (s >= last_representable() || cron_next(schedule.expression(), s, ns) is None),
{
    let reading = read_clock();
    let now_secs = reading.secs();
    let now_nanos = reading.nanos();
    let next = if now_secs < 8_210_266_876_799 {
        next_schedule_time(schedule, now_secs, now_nanos)
    } else {
        None
    };
    proof {
        let t = cron_next(schedule.expression(), now_secs, now_nanos);
        if next is None {
            assert(now_secs >= last_representable() || t is None);
        }
    }
    match next_run(next, now_secs, now_nanos) {
        Ok(n) => Ok(NextRun { at_secs: n.at_secs, wait_secs: n.wait_secs, wait_nanos: n.wait_nanos, from: Some(reading) }),
        Err(m) => Err(m),
    }
}

/// `secs` as hours and minutes from an hour up, minutes and seconds from a minute
/// up, otherwise seconds.
pub open spec fn duration_text(secs: u64) -> Seq<char> {
    if secs >= 3600 {
        decimal((secs / 3600) as nat) + "h "@ + decimal(((secs % 3600) / 60) as nat) + "m"@
    } else if secs >= 60 {
        decimal((secs / 60) as nat) + "m "@ + decimal((secs % 60) as nat) + "s"@
    } else {
        decimal(secs as nat) + "s"@
    }
}

/// Formats a wait of `secs` seconds for the log.
pub fn format_duration(secs: u64) -> (s: String)
    ensures
        s@ == duration_text(secs),
{
    let mut s = String::new();
    if secs >= 3600 {
        push_decimal(&mut s, secs / 3600);
        push_str(&mut s, "h ");
        push_decimal(&mut s, (secs % 3600) / 60);
        push_str(&mut s, "m");
    } else if secs >= 60 {
        push_decimal(&mut s, secs / 60);
        push_str(&mut s, "m ");
        push_decimal(&mut s, secs % 60);
        push_str(&mut s, "s");
    } else {
        push_decimal(&mut s, secs);
        push_str(&mut s, "s");
    }
    s
}

/// What follows a successful run.
#[derive(Debug, Clone, Copy, PartialEq, Eq, Structural)]
pub enum NextStep {
    /// Sleep until the schedule's next time, then run again (or stop on Ctrl-C).
    WaitForSchedule,
    /// Keep serving the web pages until Ctrl-C, then stop.
    ServeUntilShutdown,
    /// Stop.
    Stop,
}

/// What follows a successful run: with a schedule the pipeline runs again; without
/// one it keeps serving when a web server is up, and stops otherwise.
pub open spec fn step_after(has_schedule: bool, has_webserver: bool) -> NextStep {
    if has_schedule {
        NextStep::WaitForSchedule
    } else if has_webserver {
        NextStep::ServeUntilShutdown
    } else {
        NextStep::Stop
    }
}

/// With a schedule the pipeline runs again; without one it keeps serving when a
/// web server is up, and stops otherwise.
pub fn after_run(has_schedule: bool, has_webserver: bool) -> (s: NextStep)
    ensures
        s == step_after(has_schedule, has_webserver),
{
    if has_schedule {
        NextStep::WaitForSchedule
    } else if has_webserver {
        NextStep::ServeUntilShutdown
    } else {
        NextStep::Stop
    }
}

/// What follows a run that ended with `outcome`: a failed run ends the loop with its
/// error and no further run; a successful one is followed by `after_run`'s step.
pub fn after_outcome(outcome: Result<(), String>, has_schedule: bool, has_webserver: bool) -> (r: Result<NextStep, String>)
    ensures
        match outcome {
            Err(e) => r == Err::<NextStep, String>(e),
            Ok(()) => r == Ok::<NextStep, String>(step_after(has_schedule, has_webserver)),
        },
{
    match outcome {
        Err(e) => Err(e),
        Ok(()) => Ok(after_run(has_schedule, has_webserver)),
    }
}

/// The loop runs the pipeline again after a run that ended with `outcome`.
pub open spec fn runs_again(outcome: Result<(), String>, has_schedule: bool, has_webserver: bool) -> bool {
    match outcome {
        Err(_) => false,
        Ok(()) => step_after(has_schedule, has_webserver) == NextStep::WaitForSchedule,
    }
}

/// How many runs the loop makes when its runs end with `outcomes`, in order, and no
/// Ctrl-C stops it first: each run is followed by another exactly when
/// `after_outcome` says so.
pub open spec fn runs_made(outcomes: Seq<Result<(), String>>, has_schedule: bool, has_webserver: bool) -> nat
    decreases outcomes.len(),
{
    if outcomes.len() == 0 {
        0
    } else if runs_again(outcomes[0], has_schedule, has_webserver) {
        1 + runs_made(outcomes.drop_first(), has_schedule, has_webserver)
    } else {
        1
    }
}

/// The run loop: without a schedule the pipeline runs exactly once; with one, runs
/// repeat while they succeed and the first failing run is the last, its error
/// ending the loop.
pub proof fn run_loop_law(outcomes: Seq<Result<(), String>>, has_schedule: bool, has_webserver: bool)
    requires
        outcomes.len() > 0,
    ensures
        1 <= runs_made(outcomes, has_schedule, has_webserver) <= outcomes.len(),
        !has_schedule ==> runs_made(outcomes, has_schedule, has_webserver) == 1,
        has_schedule ==> forall|k: int| 0 <= k < runs_made(outcomes, has_schedule, has_webserver) - 1
            ==> (#[trigger] outcomes[k]) is Ok,
        has_schedule && runs_made(outcomes, has_schedule, has_webserver) < outcomes.len()
            ==> outcomes[runs_made(outcomes, has_schedule, has_webserver) - 1] is Err,
    decreases outcomes.len(),
{
    let rest = outcomes.drop_first();
    if runs_again(outcomes[0], has_schedule, has_webserver) && rest.len() > 0 {
        run_loop_law(rest, has_schedule, has_webserver);
        let n = runs_made(rest, has_schedule, has_webserver);
        assert forall|k: int| 0 <= k < n + 1 - 1 && has_schedule implies (#[trigger] outcomes[k]) is Ok by {
            if k > 0 {
                assert(outcomes[k] == rest[k - 1]);
            }
        }
        if has_schedule && n + 1 < outcomes.len() {
            assert(outcomes[n as int] == rest[n - 1]);
        }
    } else if runs_again(outcomes[0], has_schedule, has_webserver) {
        assert(runs_made(rest, has_schedule, has_webserver) == 0);
    }
}

// ── Component settings from the configuration ────────────────────────────────

/// The Fever input's settings from its configuration and resolved credentials.
pub fn fever_settings(c: &FeverInputConfig, username: String, password: String) -> (s: FeverConfig)
    ensures
        s.name == c.name,
        s.url == c.url,
        s.username == username,
        s.password == password,
        s.hours == c.hours,
        s.mark_as_read == c.mark_as_read,
{
    FeverConfig {
        name: c.name.clone(),
        url: c.url.clone(),
        username,
        password,
        hours: c.hours,
        mark_as_read: c.mark_as_read,
    }
}

/// The entity kind the metrics input uses for a configured kind.
pub open spec fn kind_for(k: ConfigEntityKind) -> EntityKind {
    match k {
        ConfigEntityKind::Cumulative => EntityKind::Cumulative,
        ConfigEntityKind::Gauge => EntityKind::Gauge,
    }
}

/// The configured kind is kept: a gauge stays a gauge and a counter a counter, so
/// two different configured kinds never become the same metrics kind.
pub proof fn configured_kind_is_kept(a: ConfigEntityKind, b: ConfigEntityKind)
    ensures
        (a == ConfigEntityKind::Gauge) == (kind_for(a) == EntityKind::Gauge),
        kind_for(a) == kind_for(b) ==> a == b,
{
}

/// The entity kind the metrics input uses for a configured kind.
pub fn entity_kind(k: ConfigEntityKind) -> (r: EntityKind)
    ensures
        r == kind_for(k),
        k == ConfigEntityKind::Gauge <==> r == EntityKind::Gauge,
        k == ConfigEntityKind::Cumulative <==> r == EntityKind::Cumulative,
{
    match k {
        ConfigEntityKind::Cumulative => EntityKind::Cumulative,
        ConfigEntityKind::Gauge => EntityKind::Gauge,
    }
}

/// An entity's settings from its configuration.
pub fn entity_settings(e: &HaMetricsEntityConfig) -> (s: EntityConfig)
    ensures
        s.id == e.id,
        s.label == e.label,
        s.kind == kind_for(e.kind),
        e.kind == ConfigEntityKind::Gauge <==> s.kind == EntityKind::Gauge,
{
    EntityConfig {
        id: e.id.clone(),
        label: match &e.label {
            Some(l) => Some(l.clone()),
            None => None,
        },
        kind: entity_kind(e.kind),
    }
}

/// The metrics input's settings from its configuration and resolved token.
pub fn ha_metrics_settings(c: &HaMetricsInputConfig, token: String) -> (s: HaMetricsConfig)
    ensures
        s.name == c.name,
        s.url == c.url,
        s.token == token,
        s.hours == c.hours,
        s.entities@.len() == c.entities@.len(),
        forall|i: int| 0 <= i < c.entities@.len() ==> {
            &&& (#[trigger] s.entities@[i]).id == c.entities@[i].id
            &&& s.entities@[i].label == c.entities@[i].label
            &&& s.entities@[i].kind == kind_for(c.entities@[i].kind)
            &&& (c.entities@[i].kind == ConfigEntityKind::Gauge <==> s.entities@[i].kind == EntityKind::Gauge)
        },
{
    let mut entities: Vec<EntityConfig> = Vec::new();
    let mut i: usize = 0;
    while i < c.entities.len()
        invariant
            i <= c.entities@.len(),
            entities@.len() == i,
            forall|k: int| 0 <= k < i ==> {
                &&& (#[trigger] entities@[k]).id == c.entities@[k].id
                &&& entities@[k].label == c.entities@[k].label
                &&& entities@[k].kind == kind_for(c.entities@[k].kind)
            },
        decreases c.entities.len() - i,
    {
        entities.push(entity_settings(&c.entities[i]));
        i = i + 1;
    }
    HaMetricsConfig { name: c.name.clone(), url: c.url.clone(), token, hours: c.hours, entities }
}

/// The Anthropic processor's settings from its configuration and resolved key.
pub fn anthropic_settings(c: &AnthropicProcessorConfig, api_key: String) -> (s: AnthropicConfig)
    ensures
        s.api_key == api_key,
        s.model == c.model,
        s.max_tokens == c.max_tokens,
        s.prompt == c.prompt,
{
    AnthropicConfig { api_key, model: c.model.clone(), max_tokens: c.max_tokens, prompt: c.prompt.clone() }
}

/// The Home Assistant output's settings from its configuration and resolved token.
pub fn home_assistant_settings(c: &HomeAssistantOutputConfig, token: String) -> (s: HomeAssistantConfig)
    ensures
        s.name == c.name,
        s.url == c.url,
        s.token == token,
        s.title == c.title,
        s.notification_id == c.notification_id,
{
    HomeAssistantConfig {
        name: c.name.clone(),
        url: c.url.clone(),
        token,
        title: c.title.clone(),
        notification_id: c.notification_id.clone(),
    }
}

/// The web page output's settings from its configuration.
pub fn webpage_settings(c: &WebpageOutputConfig) -> (s: WebpageConfig)
    ensures
        s.name == c.name,
        s.endpoint == c.endpoint,
        s.title == c.title,
{
    WebpageConfig { name: c.name.clone(), endpoint: c.endpoint.clone(), title: c.title.clone() }
}

/// The speech output's settings from its configuration.
pub fn speech_settings(c: &SpeechOutputConfig) -> (s: SpeechConfig)
    ensures
        s.name == c.name,
        s.endpoint == c.endpoint,
        s.model_path == c.model,
        s.speaker == c.speaker,
{
    SpeechConfig { name: c.name.clone(), endpoint: c.endpoint.clone(), model_path: c.model.clone(), speaker: c.speaker }
}

} // verus!
