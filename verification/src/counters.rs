//! Per-packet outcome counters of the UDP benchmark, and their summaries.
use vstd::prelude::*;
use vstd::string::{StrSliceExecFns, StringExecFns};

verus! {

/// What happened to the packets of one benchmark trial.
#[derive(Clone, Copy, Debug)]
pub struct PacketCounters {
    pub planned: u64,
    pub sent: u64,
    pub valid_replies: u64,
    pub missing: u64,
    pub late: u64,
    pub duplicates: u64,
    pub reordered: u64,
    pub corrupt: u64,
    pub foreign: u64,
    pub send_errors: u64,
}

impl PacketCounters {
    /// All counters zero.
    pub open spec fn spec_zero() -> PacketCounters {
        PacketCounters {
            planned: 0,
            sent: 0,
            valid_replies: 0,
            missing: 0,
            late: 0,
            duplicates: 0,
            reordered: 0,
            corrupt: 0,
            foreign: 0,
            send_errors: 0,
        }
    }
}

impl Default for PacketCounters {
    fn default() -> (counters: Self)
        ensures
            counters == PacketCounters::spec_zero(),
    {
        PacketCounters {
            planned: 0,
            sent: 0,
            valid_replies: 0,
            missing: 0,
            late: 0,
            duplicates: 0,
            reordered: 0,
            corrupt: 0,
            foreign: 0,
            send_errors: 0,
        }
    }
}

/// The sum of all logged error events; one packet can contribute several.
pub open spec fn error_event_sum(c: PacketCounters) -> int {
    c.missing + c.late + c.duplicates + c.reordered + c.corrupt + c.foreign + c.send_errors
}

/// Adding `value` to `total` overflows no counter.
pub open spec fn spec_counters_fit(total: PacketCounters, value: PacketCounters) -> bool {
    &&& total.planned + value.planned <= u64::MAX
    &&& total.sent + value.sent <= u64::MAX
    &&& total.valid_replies + value.valid_replies <= u64::MAX
    &&& total.missing + value.missing <= u64::MAX
    &&& total.late + value.late <= u64::MAX
    &&& total.duplicates + value.duplicates <= u64::MAX
    &&& total.reordered + value.reordered <= u64::MAX
    &&& total.corrupt + value.corrupt <= u64::MAX
    &&& total.foreign + value.foreign <= u64::MAX
    &&& total.send_errors + value.send_errors <= u64::MAX
}

/// Whether `value` can be added to `total` without overflow.
pub fn counters_fit(total: &PacketCounters, value: &PacketCounters) -> (fit: bool)
    ensures
        fit == spec_counters_fit(*total, *value),
{
    total.planned <= u64::MAX - value.planned && total.sent <= u64::MAX - value.sent
        && total.valid_replies <= u64::MAX - value.valid_replies && total.missing <= u64::MAX
        - value.missing && total.late <= u64::MAX - value.late && total.duplicates <= u64::MAX
        - value.duplicates && total.reordered <= u64::MAX - value.reordered && total.corrupt
        <= u64::MAX - value.corrupt && total.foreign <= u64::MAX - value.foreign
        && total.send_errors <= u64::MAX - value.send_errors
}

/// Whether the error categories of `counters` add up within `u64`.
pub fn error_events_fit(counters: &PacketCounters) -> (fit: bool)
    ensures
        fit == (error_event_sum(*counters) <= u64::MAX),
{
    let mut sum: u64 = counters.missing;
    if counters.late > u64::MAX - sum {
        return false;
    }
    sum = sum + counters.late;
    if counters.duplicates > u64::MAX - sum {
        return false;
    }
    sum = sum + counters.duplicates;
    if counters.reordered > u64::MAX - sum {
        return false;
    }
    sum = sum + counters.reordered;
    if counters.corrupt > u64::MAX - sum {
        return false;
    }
    sum = sum + counters.corrupt;
    if counters.foreign > u64::MAX - sum {
        return false;
    }
    sum = sum + counters.foreign;
    counters.send_errors <= u64::MAX - sum
}

/// Add the counters of one trial to a running total.
pub fn add_counters(total: &mut PacketCounters, value: &PacketCounters)
    requires
        old(total).planned + value.planned <= u64::MAX,
        old(total).sent + value.sent <= u64::MAX,
        old(total).valid_replies + value.valid_replies <= u64::MAX,
        old(total).missing + value.missing <= u64::MAX,
        old(total).late + value.late <= u64::MAX,
        old(total).duplicates + value.duplicates <= u64::MAX,
        old(total).reordered + value.reordered <= u64::MAX,
        old(total).corrupt + value.corrupt <= u64::MAX,
        old(total).foreign + value.foreign <= u64::MAX,
        old(total).send_errors + value.send_errors <= u64::MAX,
    ensures
        final(total).planned == old(total).planned + value.planned,
        final(total).sent == old(total).sent + value.sent,
        final(total).valid_replies == old(total).valid_replies + value.valid_replies,
        final(total).missing == old(total).missing + value.missing,
        final(total).late == old(total).late + value.late,
        final(total).duplicates == old(total).duplicates + value.duplicates,
        final(total).reordered == old(total).reordered + value.reordered,
        final(total).corrupt == old(total).corrupt + value.corrupt,
        final(total).foreign == old(total).foreign + value.foreign,
        final(total).send_errors == old(total).send_errors + value.send_errors,
{
    total.planned = total.planned + value.planned;
    total.sent = total.sent + value.sent;
    total.valid_replies = total.valid_replies + value.valid_replies;
    total.missing = total.missing + value.missing;
    total.late = total.late + value.late;
    total.duplicates = total.duplicates + value.duplicates;
    total.reordered = total.reordered + value.reordered;
    total.corrupt = total.corrupt + value.corrupt;
    total.foreign = total.foreign + value.foreign;
    total.send_errors = total.send_errors + value.send_errors;
}

/// The sum of the logged error categories of a stream trial.
pub fn stream_error_events(counters: &PacketCounters) -> (events: u64)
    requires
        error_event_sum(*counters) <= u64::MAX,
    ensures
        events == error_event_sum(*counters),
{
    counters.missing + counters.late + counters.duplicates + counters.reordered + counters.corrupt
        + counters.foreign + counters.send_errors
}

/// Every planned packet was sent and came back exactly once, in order, on
/// time and uncorrupted, with no foreign traffic and no send error.
pub open spec fn spec_exact_delivery(c: PacketCounters) -> bool {
    &&& c.sent == c.planned
    &&& c.valid_replies == c.sent
    &&& c.missing == 0
    &&& c.late == 0
    &&& c.duplicates == 0
    &&& c.reordered == 0
    &&& c.corrupt == 0
    &&& c.foreign == 0
    &&& c.send_errors == 0
}

/// The packet part of a stream trial's reliability verdict; the rate part
/// (at least 98% of the requested rate achieved) is judged by the caller.
pub fn exact_delivery(counters: &PacketCounters) -> (exact: bool)
    ensures
        exact == spec_exact_delivery(*counters),
{
    counters.sent == counters.planned && counters.valid_replies == counters.sent
        && counters.missing == 0 && counters.late == 0 && counters.duplicates == 0
        && counters.reordered == 0 && counters.corrupt == 0 && counters.foreign == 0
        && counters.send_errors == 0
}

/// The ASCII digit for `d < 10`.
pub open spec fn digit_char(d: nat) -> char {
    (48 + d) as char
}

/// The decimal representation of `n`, without leading zeros.
pub open spec fn decimal(n: nat) -> Seq<char>
    decreases n,
{
    if n < 10 {
        seq![digit_char(n)]
    } else {
        decimal(n / 10).push(digit_char(n % 10))
    }
}

const DIGITS: &'static str = "0123456789";

/// Append the decimal representation of `n` to `out`.
pub fn push_decimal(out: &mut String, n: u64)
    ensures
        final(out)@ == old(out)@ + decimal(n as nat),
    decreases n,
{
    if n >= 10 {
        push_decimal(out, n / 10);
    }
    let d = (n % 10) as usize;
    proof {
        reveal_strlit("0123456789");
    }
    let digit = DIGITS.substring_char(d, d + 1);
    assert(digit@ =~= seq![digit_char(d as nat)]);
    out.append(digit);
}

/// Append the string `text` to `out`.
fn push_str(out: &mut String, text: &str)
    ensures
        final(out)@ == old(out)@ + text@,
{
    out.append(text);
}

/// The one-line Markdown summary of a trial's counters.
pub open spec fn spec_counters_markdown(c: PacketCounters) -> Seq<char> {
    "Sent: "@ + decimal(c.sent as nat) + "; valid: "@ + decimal(c.valid_replies as nat)
        + "; missing: "@ + decimal(c.missing as nat) + "; late: "@ + decimal(c.late as nat)
        + "; duplicates: "@ + decimal(c.duplicates as nat) + "; reordered: "@ + decimal(
        c.reordered as nat,
    ) + "; corrupt: "@ + decimal(c.corrupt as nat) + "."@
}

/// Summarize a trial's counters as one Markdown line.
pub fn counters_markdown(counters: &PacketCounters) -> (text: String)
    ensures
        text@ == spec_counters_markdown(*counters),
{
    let mut text = String::from_str("Sent: ");
    push_decimal(&mut text, counters.sent);
    push_str(&mut text, "; valid: ");
    push_decimal(&mut text, counters.valid_replies);
    push_str(&mut text, "; missing: ");
    push_decimal(&mut text, counters.missing);
    push_str(&mut text, "; late: ");
    push_decimal(&mut text, counters.late);
    push_str(&mut text, "; duplicates: ");
    push_decimal(&mut text, counters.duplicates);
    push_str(&mut text, "; reordered: ");
    push_decimal(&mut text, counters.reordered);
    push_str(&mut text, "; corrupt: ");
    push_decimal(&mut text, counters.corrupt);
    push_str(&mut text, ".");
    text
}

/// Exact delivery means every planned packet was sent and answered validly
/// once, and no error of any category was logged: none missing, late,
/// duplicated, reordered, corrupt, foreign or failed to send.
pub proof fn lemma_exact_delivery_has_no_errors(c: PacketCounters)
    ensures
        spec_exact_delivery(c) <==> {
            &&& c.sent == c.planned
            &&& c.valid_replies == c.planned
            &&& c.missing == 0
            &&& c.late == 0
            &&& c.duplicates == 0
            &&& c.reordered == 0
            &&& c.corrupt == 0
            &&& c.foreign == 0
            &&& c.send_errors == 0
        },
        spec_exact_delivery(c) ==> error_event_sum(c) == 0,
{
}

} // verus!
