//! Proxy lifecycle events and their webhook payloads.
use vstd::prelude::*;
use crate::json::{Json, JsonV, json_entries_view, lemma_entries_empty, push_entry};
use crate::text::{decimal, decimal_string, owned, padded_decimal, zero_pad};

verus! {

/// A proxy lifecycle event.
#[derive(Debug)]
pub enum HookEvent {
    RequestReceived { model: String, message_count: usize },
    TextDelta { delta: String },
    ToolCallStart { name: String, call_id: String },
    ToolCallArgs { call_id: String, args_delta: String },
    ToolResultSubmitted { call_id: String },
    ResponseComplete { finish_reason: String },
    Error { status: u16, message: String },
}

/// The mathematical form of a lifecycle event.
pub enum HookEventV {
    RequestReceived { model: Seq<char>, message_count: usize },
    TextDelta { delta: Seq<char> },
    ToolCallStart { name: Seq<char>, call_id: Seq<char> },
    ToolCallArgs { call_id: Seq<char>, args_delta: Seq<char> },
    ToolResultSubmitted { call_id: Seq<char> },
    ResponseComplete { finish_reason: Seq<char> },
    Error { status: u16, message: Seq<char> },
}

impl View for HookEvent {
    type V = HookEventV;

    open spec fn view(&self) -> HookEventV {
        match self {
            HookEvent::RequestReceived { model, message_count } => HookEventV::RequestReceived { model: model@, message_count: *message_count },
            HookEvent::TextDelta { delta } => HookEventV::TextDelta { delta: delta@ },
            HookEvent::ToolCallStart { name, call_id } => HookEventV::ToolCallStart { name: name@, call_id: call_id@ },
            HookEvent::ToolCallArgs { call_id, args_delta } => HookEventV::ToolCallArgs { call_id: call_id@, args_delta: args_delta@ },
            HookEvent::ToolResultSubmitted { call_id } => HookEventV::ToolResultSubmitted { call_id: call_id@ },
            HookEvent::ResponseComplete { finish_reason } => HookEventV::ResponseComplete { finish_reason: finish_reason@ },
            HookEvent::Error { status, message } => HookEventV::Error { status: *status, message: message@ },
        }
    }
}

/// The hooks that ignore every event: the default when no `hooks.toml` is
/// configured. Firing is asynchronous, so the firing itself is done by the
/// server around this library.
#[derive(Debug, Clone, Copy)]
pub struct NullHooks;

pub open spec fn hooks_view(v: Seq<HookEvent>) -> Seq<HookEventV> {
    v.map_values(|e: HookEvent| e@)
}

/// The event type string of an event (the `hooks.toml` section name).
pub open spec fn spec_event_type(e: HookEventV) -> Seq<char> {
    match e {
        HookEventV::RequestReceived { .. } => "on_request_received"@,
        HookEventV::TextDelta { .. } => "on_text_delta"@,
        HookEventV::ToolCallStart { .. } => "on_tool_call_start"@,
        HookEventV::ToolCallArgs { .. } => "on_tool_call_args"@,
        HookEventV::ToolResultSubmitted { .. } => "on_tool_result_submitted"@,
        HookEventV::ResponseComplete { .. } => "on_response_complete"@,
        HookEventV::Error { .. } => "on_error"@,
    }
}

/// The JSON payload posted for an event at time `timestamp`.
pub open spec fn spec_payload(e: HookEventV, timestamp: Seq<char>) -> JsonV {
    let head = seq![("type"@, JsonV::Str(spec_event_type(e))), ("timestamp"@, JsonV::Str(timestamp))];
    JsonV::Object(head + match e {
        HookEventV::RequestReceived { model, message_count } => seq![
            ("model"@, JsonV::Str(model)),
            ("message_count"@, JsonV::Number(decimal(message_count as nat))),
        ],
        HookEventV::TextDelta { delta } => seq![("delta"@, JsonV::Str(delta))],
        HookEventV::ToolCallStart { name, call_id } => seq![("name"@, JsonV::Str(name)), ("call_id"@, JsonV::Str(call_id))],
        HookEventV::ToolCallArgs { call_id, args_delta } => seq![("call_id"@, JsonV::Str(call_id)), ("args_delta"@, JsonV::Str(args_delta))],
        HookEventV::ToolResultSubmitted { call_id } => seq![("call_id"@, JsonV::Str(call_id))],
        HookEventV::ResponseComplete { finish_reason } => seq![("finish_reason"@, JsonV::Str(finish_reason))],
        HookEventV::Error { status, message } => seq![
            ("status"@, JsonV::Number(decimal(status as nat))),
            ("message"@, JsonV::Str(message)),
        ],
    })
}

/// A leap year of the Gregorian calendar.
pub open spec fn is_leap_year(y: int) -> bool {
    y % 4 == 0 && (y % 100 != 0 || y % 400 == 0)
}

/// The number of days of year `y`.
pub open spec fn year_length(y: int) -> nat {
    if is_leap_year(y) { 366 } else { 365 }
}

/// The number of days of month `m` (1 to 12) of year `y`.
pub open spec fn month_length(y: int, m: int) -> nat {
    if m == 2 {
        if is_leap_year(y) { 29 } else { 28 }
    } else if m == 4 || m == 6 || m == 9 || m == 11 {
        30
    } else {
        31
    }
}

/// The year that day `d` falls in, counting from day 0 = 1 January of `y`,
/// and its day within that year (from 0).
pub open spec fn civil_year(d: nat, y: int) -> (int, nat)
    decreases d,
{
    if d < year_length(y) {
        (y, d)
    } else {
        civil_year((d - year_length(y)) as nat, y + 1)
    }
}

/// The month that day `d` of year `y` falls in, counting from day 0 = the first
/// of month `m`, and its day within that month (from 0).
pub open spec fn civil_month(d: nat, y: int, m: int) -> (int, nat)
    decreases d,
{
    if m >= 12 || d < month_length(y, m) {
        (m, d)
    } else {
        civil_month((d - month_length(y, m)) as nat, y, m + 1)
    }
}

/// The UTC date and time of a Unix time in ISO 8601 form
/// (`YYYY-MM-DDTHH:MM:SSZ`), on the Gregorian calendar.
pub open spec fn spec_iso8601(secs: u64) -> Seq<char> {
    let s = secs % 60;
    let mi = (secs / 60) % 60;
    let h = (secs / 3600) % 24;
    let (year, day_of_year) = civil_year((secs / 86400) as nat, 1970);
    let (month, day) = civil_month(day_of_year, year, 1);
    zero_pad(decimal(year as nat), 4) + "-"@ + zero_pad(decimal(month as nat), 2) + "-"@
        + zero_pad(decimal(day + 1), 2) + "T"@ + zero_pad(decimal(h as nat), 2) + ":"@
        + zero_pad(decimal(mi as nat), 2) + ":"@ + zero_pad(decimal(s as nat), 2) + "Z"@
}

/// The days of the `n` years from `y` on.
pub open spec fn years_days(y: int, n: nat) -> nat
    decreases n,
{
    if n == 0 { 0 } else { year_length(y) + years_days(y + 1, (n - 1) as nat) }
}

proof fn lemma_year_walk(d: nat, y: int, n: nat)
    ensures
        civil_year(d + years_days(y, n), y) == civil_year(d, y + n),
    decreases n,
{
    if n > 0 {
        lemma_year_walk(d, y + 1, (n - 1) as nat);
        let rest = years_days(y + 1, (n - 1) as nat);
        assert(d + years_days(y, n) >= year_length(y));
        assert((d + years_days(y, n) - year_length(y)) as nat == d + rest);
        assert(y + 1 + (n - 1) == y + n);
    } else {
        assert(y + n == y);
    }
}

proof fn lemma_years_days_split(a: int, n: nat, m: nat)
    ensures
        years_days(a, n + m) == years_days(a, n) + years_days(a + n, m),
    decreases n,
{
    if n > 0 {
        lemma_years_days_split(a + 1, (n - 1) as nat, m);
        assert((n + m - 1) as nat == (n - 1) as nat + m);
        assert(a + 1 + (n - 1) == a + n);
    }
}

/// Four years from a year divisible by 4 hold one leap day, unless the first
/// is a century year that is not a multiple of 400.
proof fn lemma_quad_days(y: int)
    requires
        y % 4 == 0,
    ensures
        years_days(y, 4) == if y % 100 == 0 && y % 400 != 0 { 1460nat } else { 1461nat },
{
    assert(!is_leap_year(y + 1) && !is_leap_year(y + 2) && !is_leap_year(y + 3));
    assert(years_days(y + 4, 0) == 0);
    assert(years_days(y + 3, 1) == 365);
    assert(years_days(y + 2, 2) == 730);
    assert(years_days(y + 1, 3) == 1095);
}

proof fn lemma_quads(z: int, k: nat)
    requires
        z % 4 == 0,
        z % 100 != 0,
        z % 100 + 4 * k <= 100,
    ensures
        years_days(z, 4 * k) == 1461 * k,
    decreases k,
{
    if k > 0 {
        lemma_quad_days(z);
        lemma_years_days_split(z, 4, 4 * (k - 1) as nat);
        assert(4 + 4 * (k - 1) as nat == 4 * k);
        if k > 1 {
            assert((z + 4) % 100 == z % 100 + 4);
            lemma_quads(z + 4, (k - 1) as nat);
        } else {
            assert(years_days(z + 4, 0) == 0);
        }
    }
}

proof fn lemma_century_days(y: int)
    requires
        y % 100 == 0,
    ensures
        years_days(y, 100) == if y % 400 == 0 { 36525nat } else { 36524nat },
{
    lemma_quad_days(y);
    lemma_years_days_split(y, 4, 96);
    assert((y + 4) % 100 == 4);
    lemma_quads(y + 4, 24);
}

/// Four hundred Gregorian years have 146097 days.
proof fn lemma_cycle_days(y: int)
    requires
        y % 400 == 0,
    ensures
        years_days(y, 400) == 146097,
{
    lemma_century_days(y);
    lemma_century_days(y + 100);
    lemma_century_days(y + 200);
    lemma_century_days(y + 300);
    lemma_years_days_split(y, 100, 300);
    lemma_years_days_split(y + 100, 100, 200);
    lemma_years_days_split(y + 200, 100, 100);
}

/// Skipping `c` whole 400-year cycles from a cycle start.
proof fn lemma_cycles(d: nat, y: int, c: nat)
    requires
        y % 400 == 0,
    ensures
        civil_year(d + 146097 * c, y) == civil_year(d, y + 400 * c),
    decreases c,
{
    if c > 0 {
        lemma_cycles(d, y + 400, (c - 1) as nat);
        assert((y + 400) % 400 == 0);
        lemma_cycle_days(y);
        lemma_year_walk((d + 146097 * (c - 1)) as nat, y, 400);
        assert(d + 146097 * (c - 1) + 146097 == d + 146097 * c) by (nonlinear_arith);
        assert(y + 400 + 400 * (c - 1) == y + 400 * c) by (nonlinear_arith);
    } else {
        assert(146097 * c == 0);
        assert(400 * c == 0);
    }
}

fn is_leap(y: u64) -> (b: bool)
    ensures
        b == is_leap_year(y as int),
{
    y % 4 == 0 && (y % 100 != 0 || y % 400 == 0)
}

fn year_len(y: u64) -> (r: u64)
    ensures
        r == year_length(y as int),
{
    if is_leap(y) { 366 } else { 365 }
}

fn month_len(y: u64, m: u64) -> (r: u64)
    ensures
        r == month_length(y as int, m as int),
{
    if m == 2 {
        if is_leap(y) { 29 } else { 28 }
    } else if m == 4 || m == 6 || m == 9 || m == 11 {
        30
    } else {
        31
    }
}

/// The Gregorian (year, month, day of month from 0) of a day count from
/// 1 January 1970.
fn civil_from_days(days: u64) -> (r: (u64, u64, u64))
    requires
        days <= u64::MAX / 86400,
    ensures
        r.2 <= days,
        ({
            let (y, doy) = civil_year(days as nat, 1970);
            let (m, d) = civil_month(doy, y, 1);
            r.0 as int == y && r.1 as int == m && r.2 as nat == d
        }),
{
    let ghost target = civil_year(days as nat, 1970);
    let mut d: u64 = days;
    let mut y: u64 = 1970;
    while y < 2000 && d >= year_len(y)
        invariant
            1970 <= y <= 2000,
            days <= u64::MAX / 86400,
            y + d <= 1970 + days,
            civil_year(d as nat, y as int) == target,
        decreases 2000 - y,
    {
        d = d - year_len(y);
        y = y + 1;
    }
    if y == 2000 {
        let c = d / 146097;
        let rem = d % 146097;
        proof {
            lemma_cycles(rem as nat, y as int, c as nat);
            assert(rem + 146097 * c == d);
            assert(400 * c <= 146097 * c) by (nonlinear_arith);
        }
        y = y + 400 * c;
        d = rem;
    }
    while d >= year_len(y)
        invariant
            days <= u64::MAX / 86400,
            y + d <= 1970 + days,
            civil_year(d as nat, y as int) == target,
        decreases d,
    {
        d = d - year_len(y);
        y = y + 1;
    }
    let ghost doy = d as nat;
    let mut m: u64 = 1;
    let mut dd: u64 = d;
    while m < 12 && dd >= month_len(y, m)
        invariant
            1 <= m <= 12,
            dd <= d,
            d <= days,
            civil_month(dd as nat, y as int, m as int) == civil_month(doy, y as int, 1),
        decreases 12 - m,
    {
        dd = dd - month_len(y, m);
        m = m + 1;
    }
    (y, m, dd)
}

/// Renders a Unix time as the payload timestamp.
pub fn iso8601_from_secs(secs: u64) -> (r: String)
    ensures
        r@ == spec_iso8601(secs),
{
    let s = secs % 60;
    let mi = (secs / 60) % 60;
    let h = (secs / 3600) % 24;
    let (year, month, day) = civil_from_days(secs / 86400);
    let mut out = padded_decimal(year, 4);
    out.append("-");
    out.append(padded_decimal(month, 2).as_str());
    out.append("-");
    out.append(padded_decimal(day + 1, 2).as_str());
    out.append("T");
    out.append(padded_decimal(h, 2).as_str());
    out.append(":");
    out.append(padded_decimal(mi, 2).as_str());
    out.append(":");
    out.append(padded_decimal(s, 2).as_str());
    out.append("Z");
    out
}

/// The current Unix time in seconds, from `SystemTime::now` and
/// `duration_since(UNIX_EPOCH)` (0 if the clock is before the epoch).
///
/// Trusted, with nothing stated: the answer depends on the clock.
#[verifier::external_body]
pub(crate) fn unix_now() -> u64 {
    std::time::SystemTime::now()
        .duration_since(std::time::UNIX_EPOCH)
        .map(|d| d.as_secs())
        .unwrap_or(0)
}

/// The current time as the payload timestamp.
pub fn chrono_iso8601() -> (r: String)
    ensures
        exists|secs: u64| r@ == #[trigger] spec_iso8601(secs),
{
    let secs = unix_now();
    iso8601_from_secs(secs)
}

impl HookEvent {
    /// The event type string used as the `hooks.toml` key and in payloads.
    pub fn event_type(&self) -> (r: &'static str)
        ensures
            r@ == spec_event_type(self@),
    {
        match self {
            HookEvent::RequestReceived { .. } => "on_request_received",
            HookEvent::TextDelta { .. } => "on_text_delta",
            HookEvent::ToolCallStart { .. } => "on_tool_call_start",
            HookEvent::ToolCallArgs { .. } => "on_tool_call_args",
            HookEvent::ToolResultSubmitted { .. } => "on_tool_result_submitted",
            HookEvent::ResponseComplete { .. } => "on_response_complete",
            HookEvent::Error { .. } => "on_error",
        }
    }

    /// The JSON payload of this event stamped with `timestamp`.
    pub fn payload_at(&self, timestamp: &str) -> (r: Json)
        ensures
            r@ == spec_payload(self@, timestamp@),
    {
        let mut es: Vec<(String, Json)> = Vec::new();
        proof { lemma_entries_empty(); }
        push_entry(&mut es, "type", Json::string(self.event_type()));
        push_entry(&mut es, "timestamp", Json::string(timestamp));
        match self {
            HookEvent::RequestReceived { model, message_count } => {
                push_entry(&mut es, "model", Json::string(model.as_str()));
                push_entry(&mut es, "message_count", Json::Number(decimal_string(*message_count as u64)));
            },
            HookEvent::TextDelta { delta } => {
                push_entry(&mut es, "delta", Json::string(delta.as_str()));
            },
            HookEvent::ToolCallStart { name, call_id } => {
                push_entry(&mut es, "name", Json::string(name.as_str()));
                push_entry(&mut es, "call_id", Json::string(call_id.as_str()));
            },
            HookEvent::ToolCallArgs { call_id, args_delta } => {
                push_entry(&mut es, "call_id", Json::string(call_id.as_str()));
                push_entry(&mut es, "args_delta", Json::string(args_delta.as_str()));
            },
            HookEvent::ToolResultSubmitted { call_id } => {
                push_entry(&mut es, "call_id", Json::string(call_id.as_str()));
            },
            HookEvent::ResponseComplete { finish_reason } => {
                push_entry(&mut es, "finish_reason", Json::string(finish_reason.as_str()));
            },
            HookEvent::Error { status, message } => {
                push_entry(&mut es, "status", Json::Number(decimal_string(*status as u64)));
                push_entry(&mut es, "message", Json::string(message.as_str()));
            },
        }
        assert(json_entries_view(es@) =~= spec_payload_entries(self@, timestamp@));
        Json::Object(es)
    }

    /// The JSON payload of this event, stamped with the current time.
    pub fn to_payload(&self) -> (r: Json)
        ensures
            exists|secs: u64| r@ == spec_payload(self@, #[trigger] spec_iso8601(secs)),
    {
        let ts = chrono_iso8601();
        let ghost secs = choose|secs: u64| ts@ == spec_iso8601(secs);
        let r = self.payload_at(ts.as_str());
        assert(r@ == spec_payload(self@, spec_iso8601(secs)));
        r
    }
}

pub open spec fn spec_payload_entries(e: HookEventV, timestamp: Seq<char>) -> Seq<(Seq<char>, JsonV)> {
    match spec_payload(e, timestamp) {
        JsonV::Object(es) => es,
        _ => Seq::empty(),
    }
}

/// One `[on_<event>]` section of `hooks.toml`.
#[derive(Debug)]
pub struct HookEndpoint {
    pub url: String,
}

/// The `hooks.toml` schema.
#[derive(Debug)]
pub struct HooksConfig {
    pub on_request_received: Option<HookEndpoint>,
    pub on_text_delta: Option<HookEndpoint>,
    pub on_tool_call_start: Option<HookEndpoint>,
    pub on_tool_call_args: Option<HookEndpoint>,
    pub on_tool_result_submitted: Option<HookEndpoint>,
    pub on_response_complete: Option<HookEndpoint>,
    pub on_error: Option<HookEndpoint>,
}

pub open spec fn endpoint_entry(e: Option<HookEndpoint>, key: Seq<char>) -> Seq<(Seq<char>, Seq<char>)> {
    match e {
        Some(ep) => seq![(key, ep.url@)],
        None => Seq::empty(),
    }
}

/// The (event type, URL) pairs of the configured sections, in schema order.
pub open spec fn spec_webhook_urls(c: HooksConfig) -> Seq<(Seq<char>, Seq<char>)> {
    endpoint_entry(c.on_request_received, "on_request_received"@)
        + endpoint_entry(c.on_text_delta, "on_text_delta"@)
        + endpoint_entry(c.on_tool_call_start, "on_tool_call_start"@)
        + endpoint_entry(c.on_tool_call_args, "on_tool_call_args"@)
        + endpoint_entry(c.on_tool_result_submitted, "on_tool_result_submitted"@)
        + endpoint_entry(c.on_response_complete, "on_response_complete"@)
        + endpoint_entry(c.on_error, "on_error"@)
}

pub open spec fn pairs_view(v: Seq<(String, String)>) -> Seq<(Seq<char>, Seq<char>)> {
    v.map_values(|p: (String, String)| (p.0@, p.1@))
}

fn push_endpoint(out: &mut Vec<(String, String)>, e: Option<HookEndpoint>, key: &str)
    ensures
        pairs_view(final(out)@) == pairs_view(old(out)@) + endpoint_entry(e, key@),
{
    match e {
        Some(ep) => {
            out.push((owned(key), ep.url));
            assert(pairs_view(final(out)@) =~= pairs_view(old(out)@) + endpoint_entry(e, key@));
        },
        None => {
            assert(pairs_view(out@) =~= pairs_view(out@) + endpoint_entry(e, key@));
        },
    }
}

/// The webhook URL of each configured event type; a section left out of the
/// file silences that event.
pub fn webhook_urls(c: HooksConfig) -> (r: Vec<(String, String)>)
    ensures
        pairs_view(r@) == spec_webhook_urls(c),
{
    let ghost c0 = c;
    let mut out: Vec<(String, String)> = Vec::new();
    assert(pairs_view(out@) =~= Seq::empty());
    push_endpoint(&mut out, c.on_request_received, "on_request_received");
    push_endpoint(&mut out, c.on_text_delta, "on_text_delta");
    push_endpoint(&mut out, c.on_tool_call_start, "on_tool_call_start");
    push_endpoint(&mut out, c.on_tool_call_args, "on_tool_call_args");
    push_endpoint(&mut out, c.on_tool_result_submitted, "on_tool_result_submitted");
    push_endpoint(&mut out, c.on_response_complete, "on_response_complete");
    push_endpoint(&mut out, c.on_error, "on_error");
    assert(pairs_view(out@) =~= spec_webhook_urls(c0));
    out
}

} // verus!
