//! Retrying a fallible DDC/CI operation: transient failures over a
//! switch/dongle chain (checksum mismatches, bad length fields) go away on
//! a bare retry.
//!
//! [`RetryState`] decides, after each try, whether to return, to pause and
//! try again, or to give up; [`retry`] runs an operation under it.
use vstd::prelude::*;

verus! {

/// What to do after a try.
#[derive(Clone, Copy, Debug, PartialEq, Eq, Structural)]
pub enum RetryDecision {
    /// The try succeeded: return its value.
    Return,
    /// The try failed and tries are left: pause, then try again.
    PauseAndRetry,
    /// The last allowed try failed: return its error.
    GiveUp,
}

/// Tries allowed, and failed tries so far.
#[derive(Clone, Copy)]
pub struct RetryState {
    pub attempts: u32,
    pub failures: u32,
}

impl RetryState {
    pub open spec fn decision(self, ok: bool) -> RetryDecision {
        if ok {
            RetryDecision::Return
        } else if self.failures + 1 < self.attempts {
            RetryDecision::PauseAndRetry
        } else {
            RetryDecision::GiveUp
        }
    }

    pub open spec fn after(self, ok: bool) -> RetryState {
        RetryState {
            failures: if ok {
                self.failures
            } else {
                (self.failures + 1) as u32
            },
            ..self
        }
    }

    pub fn new(attempts: u32) -> (r: RetryState)
        requires
            attempts >= 1,
        ensures
            r.attempts == attempts,
            r.failures == 0,
    {
        RetryState { attempts, failures: 0 }
    }

    /// Records the result of a try and says what to do next.
    pub fn on_result(&mut self, ok: bool) -> (r: RetryDecision)
        requires
            old(self).failures < old(self).attempts,
        ensures
            r == old(self).decision(ok),
            *final(self) == old(self).after(ok),
            r is PauseAndRetry ==> final(self).failures < final(self).attempts,
    {
        if ok {
            RetryDecision::Return
        } else {
            self.failures = self.failures + 1;
            if self.failures < self.attempts {
                RetryDecision::PauseAndRetry
            } else {
                RetryDecision::GiveUp
            }
        }
    }
}

/// The decisions taken when the tries succeed as `results` says, in order.
pub open spec fn retry_decisions(st: RetryState, results: Seq<bool>) -> Seq<RetryDecision>
    decreases results.len(),
{
    if results.len() == 0 || st.failures >= st.attempts {
        seq![]
    } else {
        let d = st.decision(results[0]);
        if d == RetryDecision::PauseAndRetry {
            seq![d] + retry_decisions(st.after(results[0]), results.drop_first())
        } else {
            seq![d]
        }
    }
}

/// With `n` tries left: the operation is tried at least once and at most
/// `n` times; every try but the last failed and was followed by a pause;
/// the last try's success is returned, and a failed last try means all `n`
/// tries were used.
pub proof fn lemma_retry_decisions(st: RetryState, results: Seq<bool>)
    requires
        st.failures < st.attempts,
        results.len() >= st.attempts - st.failures,
    ensures
        ({
            let d = retry_decisions(st, results);
            let n = d.len() as int;
            &&& 1 <= n <= st.attempts - st.failures
            &&& forall|i: int| 0 <= i < n - 1 ==> !results[i] && d[i] == RetryDecision::PauseAndRetry
            &&& d[n - 1] == (if results[n - 1] {
                RetryDecision::Return
            } else {
                RetryDecision::GiveUp
            })
            &&& !results[n - 1] ==> n == st.attempts - st.failures
        }),
    decreases results.len(),
{
    let d = retry_decisions(st, results);
    let first = st.decision(results[0]);
    if first == RetryDecision::PauseAndRetry {
        let next = st.after(results[0]);
        let rest = results.drop_first();
        lemma_retry_decisions(next, rest);
        let dr = retry_decisions(next, rest);
        assert(d =~= seq![first] + dr);
        assert forall|i: int| 0 <= i < d.len() - 1 implies !results[i] && d[i]
            == RetryDecision::PauseAndRetry by {
            if i > 0 {
                assert(d[i] == dr[i - 1]);
                assert(results[i] == rest[i - 1]);
            }
        }
        assert(d[d.len() - 1] == dr[dr.len() - 1]);
        assert(results[d.len() - 1] == rest[dr.len() - 1]);
    }
}

/// Runs `f` up to `attempts` times, calling `pause` between tries: returns
/// the first success, or the error of the last try. What is returned is
/// always a result that `f` itself gave back.
pub fn retry<T, E, F: Fn() -> Result<T, E>, P: Fn()>(attempts: u32, f: F, pause: P) -> (r: Result<
    T,
    E,
>)
    requires
        attempts >= 1,
        call_requires(f, ()),
        call_requires(pause, ()),
    ensures
        call_ensures(f, (), r),
{
    let mut state = RetryState::new(attempts);
    loop
        invariant
            state.attempts == attempts,
            state.failures < attempts,
            call_requires(f, ()),
            call_requires(pause, ()),
        decreases attempts - state.failures,
    {
        let result = f();
        match state.on_result(result.is_ok()) {
            RetryDecision::PauseAndRetry => {
                pause();
            },
            _ => {
                return result;
            },
        }
    }
}

} // verus!
