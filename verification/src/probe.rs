//! The probe loop's decisions and accounting: run-scoped aggregation of
//! successful attempts, the sleep schedule, the one-shot scheme warning,
//! and the report lines.

use crate::digits::{dec_of_u128, dec_rep};
use crate::text::string_from_chars;
use vstd::prelude::*;
use vstd::string::StringExecFns;

verus! {

/// Sum of the recorded elapsed times.
pub open spec fn sum_of(h: Seq<u128>) -> int
    decreases h.len(),
{
    if h.len() == 0 {
        0
    } else {
        sum_of(h.drop_last()) + h.last()
    }
}

/// The run summary: no average without a success, otherwise the
/// arithmetic mean of the recorded elapsed times (integer division).
pub open spec fn summary_spec(h: Seq<u128>) -> Option<u128> {
    if h.len() == 0 {
        None
    } else {
        Some((sum_of(h) / h.len() as int) as u128)
    }
}

/// Run-scoped state: the accumulated total, the success count, and the
/// warning flag.  The ghost history records exactly the successful
/// attempts' elapsed times, in order; failed attempts leave no record.
pub struct RunState {
    pub total_nanos: u128,
    pub successes: u32,
    pub warning_shown: bool,
    pub history: Ghost<Seq<u128>>,
}

impl RunState {
    /// The counters agree with the recorded history.
    pub open spec fn wf(self) -> bool {
        self.successes == self.history@.len() && self.total_nanos == sum_of(self.history@)
    }

    pub fn new() -> (r: RunState)
        ensures
            r.wf(),
            r.history@ == Seq::<u128>::empty(),
            r.successes == 0,
            r.total_nanos == 0,
            !r.warning_shown,
    {
        RunState { total_nanos: 0, successes: 0, warning_shown: false, history: Ghost(Seq::empty()) }
    }

    /// Records one successful attempt: its elapsed time joins the history
    /// and the accumulators; the warning flag is untouched.
    pub fn record_success(&mut self, elapsed_nanos: u128)
        requires
            old(self).wf(),
            old(self).successes < u32::MAX,
            old(self).total_nanos + elapsed_nanos <= u128::MAX,
        ensures
            final(self).wf(),
            final(self).history@ == old(self).history@.push(elapsed_nanos),
            final(self).total_nanos == old(self).total_nanos + elapsed_nanos,
            final(self).successes == old(self).successes + 1,
            final(self).warning_shown == old(self).warning_shown,
    {
        self.total_nanos = self.total_nanos + elapsed_nanos;
        self.successes = self.successes + 1;
        let ghost h2 = self.history@.push(elapsed_nanos);
        proof {
            assert(h2.drop_last() =~= old(self).history@);
        }
        self.history = Ghost(h2);
    }

    /// Whether the scheme-inference warning is due now: the scheme was
    /// inferred and the warning has not been shown in this run.
    pub fn warn_now(&self, scheme_inferred: bool) -> (r: bool)
        ensures
            r == (scheme_inferred && !self.warning_shown),
    {
        scheme_inferred && !self.warning_shown
    }

    /// Marks the warning as shown; every later attempt of the run stays
    /// silent.
    pub fn note_warning(&mut self)
        ensures
            final(self).warning_shown,
            final(self).total_nanos == old(self).total_nanos,
            final(self).successes == old(self).successes,
            final(self).history == old(self).history,
            old(self).wf() ==> final(self).wf(),
    {
        self.warning_shown = true;
    }

    /// The average elapsed time over the recorded attempts, in
    /// nanoseconds; nothing without a success.
    pub fn summary(&self) -> (r: Option<u128>)
        requires
            self.wf(),
        ensures
            r == summary_spec(self.history@),
    {
        if self.successes > 0 {
            proof {
                let h = self.history@;
                assert(sum_of(h) >= 0);
                assert(0 <= sum_of(h) / h.len() as int <= sum_of(h)) by (nonlinear_arith)
                    requires
                        sum_of(h) >= 0,
                        h.len() > 0,
                ;
            }
            Some(self.total_nanos / (self.successes as u128))
        } else {
            None
        }
    }
}

/// One flag per attempt of a run of `count`: attempt `i` (1-based) sleeps
/// afterwards iff it is not the last.
pub open spec fn sleep_flags(count: nat) -> Seq<bool> {
    Seq::new(count, |i: int| i + 1 < count)
}

pub open spec fn count_true(s: Seq<bool>) -> int
    decreases s.len(),
{
    if s.len() == 0 {
        0
    } else {
        count_true(s.drop_last()) + if s.last() {
            1int
        } else {
            0int
        }
    }
}

/// Whether the loop sleeps after attempt `i` of `count` (1-based).
pub fn should_sleep(i: u32, count: u32) -> (r: bool)
    ensures
        r == (i < count),
{
    i < count
}

spec fn all_true(k: nat) -> Seq<bool> {
    Seq::new(k, |i: int| true)
}

proof fn lemma_count_all_true(k: nat)
    ensures
        count_true(all_true(k)) == k,
    decreases k,
{
    if k > 0 {
        lemma_count_all_true((k - 1) as nat);
        assert(all_true(k).drop_last() =~= all_true((k - 1) as nat));
    }
}

/// A run of `count` attempts carries exactly `count` attempt flags and
/// sleeps exactly `count - 1` times — after every attempt but the last —
/// and never for an empty run.
pub proof fn lemma_probe_schedule(count: nat)
    ensures
        sleep_flags(count).len() == count,
        count_true(sleep_flags(count)) == if count > 0 {
            count - 1
        } else {
            0
        },
{
    if count > 0 {
        lemma_count_all_true((count - 1) as nat);
        assert(sleep_flags(count).drop_last() =~= all_true((count - 1) as nat));
        assert(!sleep_flags(count).last());
    }
}

/// The elapsed times of the successful attempts of a run, in order; a
/// failed attempt leaves no record.
pub open spec fn successful_of(outcomes: Seq<Option<u128>>) -> Seq<u128>
    decreases outcomes.len(),
{
    if outcomes.len() == 0 {
        Seq::empty()
    } else {
        let rest = successful_of(outcomes.drop_last());
        match outcomes.last() {
            Some(e) => rest.push(e),
            None => rest,
        }
    }
}

/// The total the loop accumulates over a run.
pub open spec fn run_total(outcomes: Seq<Option<u128>>) -> int
    decreases outcomes.len(),
{
    if outcomes.len() == 0 {
        0
    } else {
        run_total(outcomes.drop_last()) + match outcomes.last() {
            Some(e) => e as int,
            None => 0,
        }
    }
}

/// The successes the loop counts over a run.
pub open spec fn run_successes(outcomes: Seq<Option<u128>>) -> int
    decreases outcomes.len(),
{
    if outcomes.len() == 0 {
        0
    } else {
        run_successes(outcomes.drop_last()) + match outcomes.last() {
            Some(_) => 1int,
            None => 0int,
        }
    }
}

/// The loop's accumulator and counter cover exactly the successful
/// attempts: failures contribute nothing.
pub proof fn lemma_run_counts(outcomes: Seq<Option<u128>>)
    ensures
        run_total(outcomes) == sum_of(successful_of(outcomes)),
        run_successes(outcomes) == successful_of(outcomes).len(),
    decreases outcomes.len(),
{
    if outcomes.len() > 0 {
        lemma_run_counts(outcomes.drop_last());
        match outcomes.last() {
            Some(e) => {
                let rest = successful_of(outcomes.drop_last());
                assert(rest.push(e).drop_last() =~= rest);
            },
            None => {},
        }
    }
}

/// When every attempt of a run fails, nothing is recorded: the summary
/// shows zero successes and no numeric average.
pub proof fn lemma_all_failures(outcomes: Seq<Option<u128>>)
    requires
        forall|i: int| 0 <= i < outcomes.len() ==> outcomes[i] is None,
    ensures
        successful_of(outcomes).len() == 0,
        run_successes(outcomes) == 0,
        summary_spec(successful_of(outcomes)) is None,
    decreases outcomes.len(),
{
    if outcomes.len() > 0 {
        let t = outcomes.drop_last();
        assert(forall|i: int| 0 <= i < t.len() ==> t[i] == outcomes[i]);
        lemma_all_failures(t);
        assert(outcomes.last() is None);
    }
}

/// The reported average is the arithmetic mean of exactly the successful
/// attempts' elapsed times: the total over the count of the successes,
/// with failed attempts excluded from both.
pub proof fn lemma_average_is_mean(outcomes: Seq<Option<u128>>)
    requires
        successful_of(outcomes).len() > 0,
    ensures
        summary_spec(successful_of(outcomes)) == Some(
            (run_total(outcomes) / run_successes(outcomes)) as u128,
        ),
{
    lemma_run_counts(outcomes);
}

/// The number of warnings a run emits, given which attempts inferred the
/// scheme and whether the warning was already shown: an attempt emits iff
/// it inferred the scheme and nothing was shown yet, and emitting marks
/// the flag for all later attempts.
pub open spec fn warn_emissions(inferred: Seq<bool>, shown: bool) -> int
    decreases inferred.len(),
{
    if inferred.len() == 0 {
        0
    } else {
        let emit = inferred[0] && !shown;
        (if emit {
            1int
        } else {
            0int
        }) + warn_emissions(inferred.drop_first(), shown || emit)
    }
}

proof fn lemma_warn_none_after_shown(inferred: Seq<bool>)
    ensures
        warn_emissions(inferred, true) == 0,
    decreases inferred.len(),
{
    if inferred.len() > 0 {
        lemma_warn_none_after_shown(inferred.drop_first());
    }
}

/// The scheme-inference warning is emitted at most once per run, and
/// exactly once when any attempt lacks a scheme — however many early
/// attempts lack one, and whether or not any attempt succeeds.
pub proof fn lemma_warning_at_most_once(inferred: Seq<bool>)
    ensures
        warn_emissions(inferred, false) <= 1,
        (warn_emissions(inferred, false) == 1) <==> (exists|i: int|
            0 <= i < inferred.len() && inferred[i]),
    decreases inferred.len(),
{
    if inferred.len() > 0 {
        let t = inferred.drop_first();
        assert(forall|j: int| 0 <= j < t.len() ==> t[j] == inferred[j + 1]);
        if inferred[0] {
            lemma_warn_none_after_shown(t);
        } else {
            lemma_warning_at_most_once(t);
            if exists|i: int| 0 <= i < inferred.len() && inferred[i] {
                let i = choose|i: int| 0 <= i < inferred.len() && inferred[i];
                assert(i >= 1);
                assert(t[i - 1]);
            }
            if exists|i: int| 0 <= i < t.len() && t[i] {
                let i = choose|i: int| 0 <= i < t.len() && t[i];
                assert(inferred[i + 1]);
            }
        }
    }
}

/// One attempt's outcome, as the report shows it.
pub struct ProbeResult {
    pub elapsed_nanos: u128,
    pub resolved_url: String,
    pub status_code: u16,
}

/// Milliseconds shown for a nanosecond duration.
pub fn nanos_to_millis(n: u128) -> (r: u128)
    ensures
        r == n as int / 1000000,
{
    n / 1000000
}

/// The success line for attempt `i`.
pub open spec fn success_line_spec(
    i: nat,
    url: Seq<char>,
    method: Seq<char>,
    status: nat,
    millis: nat,
) -> Seq<char> {
    "Ping "@ + dec_rep(i) + ": URL: "@ + url + " - Method: "@ + method + " - Status: "@ + dec_rep(
        status,
    ) + " - Time: "@ + dec_rep(millis) + " ms"@
}

/// Builds the success line for attempt `i`.
pub fn success_line(i: u32, url: &str, method: &str, status: u16, millis: u128) -> (r: String)
    ensures
        r@ == success_line_spec(i as nat, url@, method@, status as nat, millis as nat),
{
    let mut out = String::from_str("Ping ");
    let di = string_from_chars(&dec_of_u128(i as u128));
    out.append(di.as_str());
    out.append(": URL: ");
    out.append(url);
    out.append(" - Method: ");
    out.append(method);
    out.append(" - Status: ");
    let ds = string_from_chars(&dec_of_u128(status as u128));
    out.append(ds.as_str());
    out.append(" - Time: ");
    let dm = string_from_chars(&dec_of_u128(millis));
    out.append(dm.as_str());
    out.append(" ms");
    out
}

/// The failure line for attempt `i`.
pub open spec fn failure_line_spec(i: nat, message: Seq<char>) -> Seq<char> {
    "Ping "@ + dec_rep(i) + " failed: "@ + message
}

/// Builds the failure line for attempt `i`.
pub fn failure_line(i: u32, message: &str) -> (r: String)
    ensures
        r@ == failure_line_spec(i as nat, message@),
{
    let mut out = String::from_str("Ping ");
    let di = string_from_chars(&dec_of_u128(i as u128));
    out.append(di.as_str());
    out.append(" failed: ");
    out.append(message);
    out
}

/// The final summary line: the average in milliseconds, or the report
/// that no attempt succeeded.
pub open spec fn summary_line_spec(avg_millis: Option<u128>) -> Seq<char> {
    match avg_millis {
        Some(ms) => "\nAverage response time: "@ + dec_rep(ms as nat) + " ms"@,
        None => "\nNo successful pings"@,
    }
}

/// Builds the final summary line.
pub fn summary_line(avg_millis: Option<u128>) -> (r: String)
    ensures
        r@ == summary_line_spec(avg_millis),
{
    match avg_millis {
        Some(ms) => {
            let mut out = String::from_str("\nAverage response time: ");
            let dm = string_from_chars(&dec_of_u128(ms));
            out.append(dm.as_str());
            out.append(" ms");
            out
        },
        None => String::from_str("\nNo successful pings"),
    }
}

/// The one-shot warning shown when the scheme was inferred.
pub fn warning_line() -> (r: String)
    ensures
        r@ == "httpping: warning: URL scheme not specified, using https:// by default"@,
{
    String::from_str("httpping: warning: URL scheme not specified, using https:// by default")
}

} // verus!
