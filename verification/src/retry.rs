//! The retry-send loop that the sender stage applies to each packet: attempt
//! the send, and on failure wait with exponential backoff and try again,
//! indefinitely, until the send succeeds or a quit signal arrives. Identical
//! consecutive send errors are deduplicated in the log.

use vstd::prelude::*;

verus! {

/// Wait after the first failed send attempt, in milliseconds.
pub const INITIAL_BACKOFF_MS: u64 = 100;

/// Longest wait between attempts, in milliseconds: the doubling stops here.
pub const MAX_BACKOFF_MS: u64 = 3000;

/// What the environment reports to the retry loop: the outcome of one send
/// attempt, or a quit signal arriving during the backoff wait.
#[derive(Debug)]
pub enum RetryEvent {
    /// The attempt handed the packet to the connection.
    Succeeded,
    /// The attempt failed with this error message.
    Failed(String),
    /// A quit signal arrived: abandon the packet.
    Quit,
}

/// The wait that follows `wait` after one more failure: doubled, capped at
/// the maximum.
pub open spec fn next_backoff_spec(wait: u64) -> u64 {
    if wait < 1500 {
        (2 * wait) as u64
    } else {
        MAX_BACKOFF_MS
    }
}

/// Doubles a wait interval, capping it at the maximum.
pub fn next_backoff(wait: u64) -> (r: u64)
    ensures
        r == next_backoff_spec(wait),
{
    if wait < 1500 {
        2 * wait
    } else {
        MAX_BACKOFF_MS
    }
}

/// State of the retry loop while one packet is being delivered: the wait to
/// apply after the next failure, and the last error seen, kept so that a
/// repeat of the same error is not logged again.
pub struct RetryState {
    pub next_wait_ms: u64,
    pub last_error: Option<String>,
}

/// The message of the last error seen, as a sequence of characters.
pub open spec fn error_view(o: Option<String>) -> Option<Seq<char>> {
    match o {
        Option::Some(s) => Option::Some(s@),
        Option::None => Option::None,
    }
}

impl RetryState {
    /// The pending wait stays within the backoff policy's bounds.
    pub open spec fn wf(&self) -> bool {
        INITIAL_BACKOFF_MS <= self.next_wait_ms <= MAX_BACKOFF_MS
    }

    /// State at the start of delivering a packet: no failure seen yet, the
    /// first wait would be the initial one.
    pub fn new() -> (s: RetryState)
        ensures
            s.wf(),
            s.next_wait_ms == INITIAL_BACKOFF_MS,
            s.last_error is None,
    {
        RetryState { next_wait_ms: INITIAL_BACKOFF_MS, last_error: None }
    }
}

/// What the sender stage does after one retry event.
#[derive(Debug)]
pub enum RetryDecision {
    /// The packet was handed to the connection: leave the retry loop.
    Done,
    /// The attempt failed: log the error unless `log` is false (the error
    /// repeats the previous one), wait `wait_ms`, then attempt again.
    Wait { wait_ms: u64, log: bool },
    /// A quit signal arrived: abandon the packet and stop the stage.
    Abort,
}

/// One step of the retry loop. A success ends the loop; a quit aborts it; a
/// failure is logged only if its message differs from the previous failure's
/// message, and the backoff wait doubles, capped at the maximum.
pub fn retry_step(st: &mut RetryState, ev: RetryEvent) -> (r: RetryDecision)
    requires
        old(st).wf(),
    ensures
        final(st).wf(),
        ev is Succeeded ==> r is Done && *final(st) == *old(st),
        ev is Quit ==> r is Abort && *final(st) == *old(st),
        ev matches RetryEvent::Failed(e) ==> {
            &&& r matches RetryDecision::Wait { wait_ms, log } && wait_ms == old(
                st,
            ).next_wait_ms && (log <==> !(error_view(old(st).last_error) matches Option::Some(p)
                && p == e@))
            &&& final(st).next_wait_ms == next_backoff_spec(old(st).next_wait_ms)
            &&& error_view(final(st).last_error) == Option::Some(e@)
        },
{
    match ev {
        RetryEvent::Succeeded => RetryDecision::Done,
        RetryEvent::Quit => RetryDecision::Abort,
        RetryEvent::Failed(e) => {
            let log = match &st.last_error {
                Some(p) => !(*p == e),
                None => true,
            };
            let wait_ms = st.next_wait_ms;
            st.next_wait_ms = next_backoff(wait_ms);
            st.last_error = Some(e);
            RetryDecision::Wait { wait_ms, log }
        },
    }
}

/// Whether the event script delivers the packet: a successful attempt comes
/// before any quit signal.
pub open spec fn retry_delivers(evs: Seq<RetryEvent>) -> bool
    decreases evs.len(),
{
    if evs.len() == 0 {
        false
    } else {
        match evs[0] {
            RetryEvent::Succeeded => true,
            RetryEvent::Quit => false,
            RetryEvent::Failed(_) => retry_delivers(evs.drop_first()),
        }
    }
}

/// Whether the event script aborts the delivery: a quit signal comes before
/// any successful attempt.
pub open spec fn retry_aborts(evs: Seq<RetryEvent>) -> bool
    decreases evs.len(),
{
    if evs.len() == 0 {
        false
    } else {
        match evs[0] {
            RetryEvent::Succeeded => false,
            RetryEvent::Quit => true,
            RetryEvent::Failed(_) => retry_aborts(evs.drop_first()),
        }
    }
}

/// How many send attempts the script causes: the failures before the
/// resolution, plus the successful attempt if there is one. Events past the
/// first success or quit are never read by the loop and count for nothing.
pub open spec fn retry_attempts(evs: Seq<RetryEvent>) -> nat
    decreases evs.len(),
{
    if evs.len() == 0 {
        0
    } else {
        match evs[0] {
            RetryEvent::Succeeded => 1,
            RetryEvent::Quit => 0,
            RetryEvent::Failed(_) => 1 + retry_attempts(evs.drop_first()),
        }
    }
}

/// The backoff waits the loop performs, in order, when the wait after the
/// next failure is `wait`.
pub open spec fn retry_waits_from(evs: Seq<RetryEvent>, wait: u64) -> Seq<u64>
    decreases evs.len(),
{
    if evs.len() == 0 {
        Seq::empty()
    } else {
        match evs[0] {
            RetryEvent::Succeeded => Seq::empty(),
            RetryEvent::Quit => Seq::empty(),
            RetryEvent::Failed(_) => seq![wait] + retry_waits_from(
                evs.drop_first(),
                next_backoff_spec(wait),
            ),
        }
    }
}

/// The backoff waits the loop performs, starting from the initial wait.
pub open spec fn retry_waits(evs: Seq<RetryEvent>) -> Seq<u64> {
    retry_waits_from(evs, INITIAL_BACKOFF_MS)
}

/// For each failure in the script, whether it is logged: a failure is logged
/// exactly when its message differs from the failure before it (`last` being
/// the message of the failure before the script starts, if any).
pub open spec fn retry_logs_from(evs: Seq<RetryEvent>, last: Option<Seq<char>>) -> Seq<bool>
    decreases evs.len(),
{
    if evs.len() == 0 {
        Seq::empty()
    } else {
        match evs[0] {
            RetryEvent::Succeeded => Seq::empty(),
            RetryEvent::Quit => Seq::empty(),
            RetryEvent::Failed(e) => seq![
                !(last matches Option::Some(p) && p == e@),
            ] + retry_logs_from(evs.drop_first(), Option::Some(e@)),
        }
    }
}

/// The message a failed attempt carried (the empty message for the other
/// events, which carry none).
pub open spec fn failure_message(ev: RetryEvent) -> Seq<char> {
    match ev {
        RetryEvent::Failed(e) => e@,
        _ => Seq::empty(),
    }
}

/// Log deduplication: in a run of consecutive failures, the first is logged
/// unless it repeats the message seen before the run, and each later one is
/// logged exactly when its message differs from the failure before it.
pub proof fn lemma_log_dedup(evs: Seq<RetryEvent>, last: Option<Seq<char>>, i: int)
    requires
        0 <= i < evs.len(),
        forall|j: int| 0 <= j <= i ==> evs[j] is Failed,
    ensures
        retry_logs_from(evs, last).len() > i,
        i == 0 ==> retry_logs_from(evs, last)[0] == !(last matches Option::Some(p) && p
            == failure_message(evs[0])),
        i > 0 ==> retry_logs_from(evs, last)[i] == (failure_message(evs[i]) != failure_message(
            evs[i - 1],
        )),
    decreases i,
{
    assert(evs[0] is Failed);
    if i == 0 {
    } else {
        let rest = evs.drop_first();
        assert(forall|j: int| 0 <= j < rest.len() ==> rest[j] == evs[j + 1]);
        lemma_log_dedup(rest, Option::Some(failure_message(evs[0])), i - 1);
        assert(evs[0] matches RetryEvent::Failed(e) && retry_logs_from(evs, last) == seq![
            !(last matches Option::Some(p) && p == e@),
        ] + retry_logs_from(rest, Option::Some(e@)));
        assert(retry_logs_from(evs, last)[i] == retry_logs_from(
            rest,
            Option::Some(failure_message(evs[0])),
        )[i - 1]);
    }
}

/// The outcome of running the retry loop for one packet over a script of
/// events.
pub struct RetryRun {
    /// The packet was handed to the connection.
    pub delivered: bool,
    /// A quit signal ended the loop; the packet was abandoned.
    pub aborted: bool,
    /// Send attempts made.
    pub attempts: usize,
    /// Backoff waits performed, in order.
    pub waits: Vec<u64>,
    /// For each failure in order, whether it was logged.
    pub logged: Vec<bool>,
}

/// Runs the retry loop for one packet over the event script `evs`, stopping
/// at the first success or quit. If the script ends before either, the run
/// reports neither delivery nor abort: the loop would still be retrying.
pub fn run_retry(evs: Vec<RetryEvent>) -> (run: RetryRun)
    ensures
        run.delivered == retry_delivers(evs@),
        run.aborted == retry_aborts(evs@),
        run.attempts == retry_attempts(evs@),
        run.waits@ == retry_waits(evs@),
        run.logged@ == retry_logs_from(evs@, Option::None),
{
    let ghost all = evs@;
    assert(all.len() <= usize::MAX) by {
        assert(evs.len() == all.len());
    }
    let mut evs = evs;
    let mut st = RetryState::new();
    let mut delivered = false;
    let mut aborted = false;
    let mut attempts: usize = 0;
    let mut waits: Vec<u64> = Vec::new();
    let mut logged: Vec<bool> = Vec::new();
    let mut resolved = false;

    while !resolved && evs.len() > 0
        invariant
            st.wf(),
            all.len() <= usize::MAX,
            attempts + evs@.len() <= all.len(),
            !resolved ==> {
                &&& !delivered && !aborted
                &&& retry_delivers(all) == retry_delivers(evs@)
                &&& retry_aborts(all) == retry_aborts(evs@)
                &&& retry_attempts(all) == attempts + retry_attempts(evs@)
                &&& retry_waits(all) == waits@ + retry_waits_from(evs@, st.next_wait_ms)
                &&& retry_logs_from(all, Option::None) == logged@ + retry_logs_from(
                    evs@,
                    error_view(st.last_error),
                )
            },
            resolved ==> {
                &&& delivered == retry_delivers(all)
                &&& aborted == retry_aborts(all)
                &&& attempts == retry_attempts(all)
                &&& waits@ == retry_waits(all)
                &&& logged@ == retry_logs_from(all, Option::None)
            },
        decreases evs.len(),
    {
        let ghost pre_suffix = evs@;
        let ghost pre_st = st;
        let ev = evs.remove(0);
        let ghost ev_g = ev;
        proof {
            assert(evs@ =~= pre_suffix.drop_first());
        }
        match retry_step(&mut st, ev) {
            RetryDecision::Done => {
                proof {
                    assert(ev_g is Succeeded);
                    assert(retry_waits_from(pre_suffix, pre_st.next_wait_ms) =~= Seq::<
                        u64,
                    >::empty());
                    assert(waits@ + Seq::<u64>::empty() =~= waits@);
                    assert(logged@ + Seq::<bool>::empty() =~= logged@);
                }
                delivered = true;
                attempts = attempts + 1;
                resolved = true;
            },
            RetryDecision::Abort => {
                proof {
                    assert(ev_g is Quit);
                    assert(waits@ + Seq::<u64>::empty() =~= waits@);
                    assert(logged@ + Seq::<bool>::empty() =~= logged@);
                }
                aborted = true;
                resolved = true;
            },
            RetryDecision::Wait { wait_ms, log } => {
                proof {
                    assert(ev_g is Failed);
                }
                attempts = attempts + 1;
                waits.push(wait_ms);
                logged.push(log);
                proof {
                    assert(ev_g matches RetryEvent::Failed(e) && retry_waits_from(
                        pre_suffix,
                        pre_st.next_wait_ms,
                    ) == seq![pre_st.next_wait_ms] + retry_waits_from(
                        evs@,
                        next_backoff_spec(pre_st.next_wait_ms),
                    ));
                    assert(retry_waits(all) =~= waits@ + retry_waits_from(
                        evs@,
                        st.next_wait_ms,
                    ));
                    assert(ev_g matches RetryEvent::Failed(e) && retry_logs_from(
                        pre_suffix,
                        error_view(pre_st.last_error),
                    ) == seq![
                        !(error_view(pre_st.last_error) matches Option::Some(p) && p == e@),
                    ] + retry_logs_from(evs@, Option::Some(e@)));
                    assert(retry_logs_from(all, Option::None) =~= logged@ + retry_logs_from(
                        evs@,
                        error_view(st.last_error),
                    ));
                }
            },
        }
    }
    proof {
        if !resolved {
            assert(evs@.len() == 0);
            assert(retry_waits_from(evs@, st.next_wait_ms) =~= Seq::<u64>::empty());
            assert(waits@ + Seq::<u64>::empty() =~= waits@);
            assert(logged@ + Seq::<bool>::empty() =~= logged@);
        }
    }
    RetryRun { delivered, aborted, attempts, waits, logged }
}

/// Retry eventually succeeds: if the first `k` attempts fail and attempt
/// `k + 1` succeeds, with no quit in between, the packet is delivered, the
/// loop is not aborted, and exactly `k + 1` attempts are made.
pub proof fn lemma_retry_eventually_succeeds(evs: Seq<RetryEvent>, k: int)
    requires
        0 <= k < evs.len(),
        forall|i: int| 0 <= i < k ==> evs[i] is Failed,
        evs[k] is Succeeded,
    ensures
        retry_delivers(evs),
        !retry_aborts(evs),
        retry_attempts(evs) == k + 1,
    decreases k,
{
    if k == 0 {
    } else {
        assert(evs[0] is Failed);
        lemma_retry_eventually_succeeds(evs.drop_first(), k - 1);
    }
}

/// Backoff growth: the first wait is the initial one, each later wait is the
/// one before it doubled and capped, and every wait stays between the
/// initial value and the cap.
pub proof fn lemma_backoff_schedule(evs: Seq<RetryEvent>)
    ensures
        retry_waits(evs).len() > 0 ==> retry_waits(evs)[0] == INITIAL_BACKOFF_MS,
        forall|i: int|
            0 <= i < retry_waits(evs).len() - 1 ==> #[trigger] retry_waits(evs)[i + 1]
                == next_backoff_spec(retry_waits(evs)[i]),
        forall|i: int|
            0 <= i < retry_waits(evs).len() ==> INITIAL_BACKOFF_MS <= #[trigger] retry_waits(
                evs,
            )[i] <= MAX_BACKOFF_MS,
{
    lemma_backoff_schedule_from(evs, INITIAL_BACKOFF_MS);
}

/// The backoff schedule law for an arbitrary starting wait within bounds.
pub proof fn lemma_backoff_schedule_from(evs: Seq<RetryEvent>, wait: u64)
    requires
        INITIAL_BACKOFF_MS <= wait <= MAX_BACKOFF_MS,
    ensures
        retry_waits_from(evs, wait).len() > 0 ==> retry_waits_from(evs, wait)[0] == wait,
        forall|i: int|
            0 <= i < retry_waits_from(evs, wait).len() - 1 ==> #[trigger] retry_waits_from(
                evs,
                wait,
            )[i + 1] == next_backoff_spec(retry_waits_from(evs, wait)[i]),
        forall|i: int|
            0 <= i < retry_waits_from(evs, wait).len() ==> INITIAL_BACKOFF_MS
                <= #[trigger] retry_waits_from(evs, wait)[i] <= MAX_BACKOFF_MS,
    decreases evs.len(),
{
    if evs.len() == 0 {
    } else {
        match evs[0] {
            RetryEvent::Succeeded => {},
            RetryEvent::Quit => {},
            RetryEvent::Failed(_) => {
                lemma_backoff_schedule_from(evs.drop_first(), next_backoff_spec(wait));
                let ws = retry_waits_from(evs, wait);
                let rest = retry_waits_from(evs.drop_first(), next_backoff_spec(wait));
                assert(ws == seq![wait] + rest);
                assert(ws[0] == wait);
                assert forall|i: int| 0 <= i < ws.len() - 1 implies #[trigger] ws[i + 1]
                    == next_backoff_spec(ws[i]) by {
                    if i == 0 {
                        assert(rest.len() > 0);
                        assert(rest[0] == next_backoff_spec(wait));
                        assert(ws[1] == rest[0]);
                    } else {
                        assert(rest[(i - 1) + 1] == next_backoff_spec(rest[i - 1]));
                        assert(ws[i] == rest[i - 1]);
                        assert(ws[i + 1] == rest[(i - 1) + 1]);
                    }
                }
                assert forall|i: int|
                    0 <= i < ws.len() implies INITIAL_BACKOFF_MS <= #[trigger] ws[i]
                    <= MAX_BACKOFF_MS by {
                    if i > 0 {
                        assert(ws[i] == rest[i - 1]);
                        assert(INITIAL_BACKOFF_MS <= rest[i - 1] <= MAX_BACKOFF_MS);
                    }
                }
            },
        }
    }
}

/// A script of `n` failures (and whatever follows a resolution never read)
/// that begins with `n` failures performs one wait for each failure.
pub proof fn lemma_waits_per_failure(evs: Seq<RetryEvent>, wait: u64, n: int)
    requires
        0 <= n <= evs.len(),
        forall|i: int| 0 <= i < n ==> evs[i] is Failed,
        n < evs.len() ==> !(evs[n] is Failed),
    ensures
        retry_waits_from(evs, wait).len() == n,
    decreases n,
{
    if n == 0 {
    } else {
        assert(evs[0] is Failed);
        lemma_waits_per_failure(evs.drop_first(), next_backoff_spec(wait), n - 1);
    }
}

} // verus!
