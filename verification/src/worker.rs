use vstd::prelude::*;

use crate::status::{RetryPolicy, Status};

verus! {

/// What a worker does with the status its stage reported for one request.
pub enum WorkerAction<T, E> {
    /// Send the value on to the next stage.
    Send(T),
    /// Send the value to the stage named, through the routing table.
    Switch(&'static str, T),
    /// Send the value back to the stage named, through the routing table.
    Back(&'static str, T),
    /// Wait this many milliseconds, then run the stage again: on the value
    /// given where there is one, else on the same request.
    Rerun(u64, Option<T>),
    /// Report the failure and go on to the next request.
    Fail(E),
    /// Report the failure meant for the stage named and go on.
    FailSwitch(&'static str, E),
    /// Go on to the next request.
    Stop,
}

/// The policy under which a plain `Retry` is retried.
pub open spec fn default_policy() -> RetryPolicy {
    RetryPolicy { max_attempts: 3, delay_ms: 100 }
}

/// What a worker does with `status`, after running the request `attempt`
/// times before: `Next` sends on; `Switch` and `Back` route; `Retry` runs the
/// request again under the default policy, and gives up once that policy
/// allows no more retries; `RetryWith` runs the stage again on the value it
/// gave under the policy it gave, and sends that value on once the policy
/// allows no more retries; the retries are counted by the worker itself.
pub open spec fn worker_action<T, E>(status: Status<T, E>, attempt: usize) -> WorkerAction<T, E> {
    match status {
        Status::Next(v) => WorkerAction::Send(v),
        Status::Switch((target, v)) => WorkerAction::Switch(target, v),
        Status::Back((target, v)) => WorkerAction::Back(target, v),
        Status::Panic(e) => WorkerAction::Fail(e),
        Status::PanicSwitch((target, e)) => WorkerAction::FailSwitch(target, e),
        Status::Exit => WorkerAction::Stop,
        Status::Retry => if attempt < default_policy().max_attempts {
            WorkerAction::Rerun(default_policy().delay_ms, None)
        } else {
            WorkerAction::Stop
        },
        Status::RetryWith(policy, _, v) => if attempt < policy.max_attempts {
            WorkerAction::Rerun(policy.delay_ms, Some(v))
        } else {
            WorkerAction::Send(v)
        },
    }
}

/// Decides what a worker does with the status its stage reported (see
/// `worker_action`).
pub fn worker_step<T, E>(status: Status<T, E>, attempt: usize) -> (a: WorkerAction<T, E>)
    ensures
        a == worker_action(status, attempt),
{
    match status {
        Status::Next(v) => WorkerAction::Send(v),
        Status::Switch((target, v)) => WorkerAction::Switch(target, v),
        Status::Back((target, v)) => WorkerAction::Back(target, v),
        Status::Panic(e) => WorkerAction::Fail(e),
        Status::PanicSwitch((target, e)) => WorkerAction::FailSwitch(target, e),
        Status::Exit => WorkerAction::Stop,
        Status::Retry => {
            let policy = RetryPolicy::default();
            if policy.allows_retry(attempt) {
                WorkerAction::Rerun(policy.delay_ms, None)
            } else {
                WorkerAction::Stop
            }
        },
        Status::RetryWith(policy, _, v) => {
            if policy.allows_retry(attempt) {
                WorkerAction::Rerun(policy.delay_ms, Some(v))
            } else {
                WorkerAction::Send(v)
            }
        },
    }
}

/// The number of times a worker runs one request whose stage answers
/// `RetryWith(policy, _, v)` on every run, the worker counting from 0: it
/// reruns while `attempt < policy.max_attempts`, so the stage runs
/// `policy.max_attempts + 1` times.
pub open spec fn runs_with(policy: RetryPolicy) -> nat {
    policy.max_attempts as nat + 1
}

/// The retry law of a worker. A stage that keeps answering
/// `RetryWith(policy, _, v)` is rerun, on the value it gave and after
/// `policy.delay_ms`, exactly while the worker's own count is below
/// `policy.max_attempts`, whatever attempt number the stage reports; at that
/// count the value is sent on. So the stage runs `policy.max_attempts + 1`
/// times. A plain `Retry` is rerun on the same request at most three times,
/// 100 ms apart, and then the request is dropped. `Next` sends its value on,
/// and `Switch` and `Back` route it to the stage they name.
pub proof fn lemma_worker_retries<T, E>(policy: RetryPolicy, reported: usize, v: T, k: usize)
    ensures
        worker_action(Status::<T, E>::RetryWith(policy, reported, v), k) == (if k < policy.max_attempts {
            WorkerAction::<T, E>::Rerun(policy.delay_ms, Some(v))
        } else {
            WorkerAction::<T, E>::Send(v)
        }),
        forall|j: usize|
            j < runs_with(policy) ==> (#[trigger] worker_action(
                Status::<T, E>::RetryWith(policy, reported, v),
                j,
            ) is Rerun <==> j + 1 < runs_with(policy)),
        worker_action(Status::<T, E>::Retry, k) is Rerun <==> k < 3,
        worker_action(Status::<T, E>::Retry, k) is Rerun ==> worker_action(
            Status::<T, E>::Retry,
            k,
        ) == WorkerAction::<T, E>::Rerun(100, None),
        !(worker_action(Status::<T, E>::Retry, k) is Rerun) ==> worker_action(
            Status::<T, E>::Retry,
            k,
        ) is Stop,
        worker_action(Status::<T, E>::Next(v), k) == WorkerAction::<T, E>::Send(v),
{
}

} // verus!
