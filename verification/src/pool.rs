use vstd::prelude::*;

verus! {

/// A running pipeline: requests go in at the first stage and responses come
/// out of the last one.
pub trait ThreadPool {
    type Request: Clone;
    type Response: Clone;

    fn send(&self, req: Self::Request) -> Result<(), anyhow::Error>;

    fn recv(&self) -> Result<Option<Self::Response>, anyhow::Error>;

    fn thread_usage(&self) -> Result<usize, anyhow::Error>;

    fn task_count(&self, id: impl ToString) -> Result<usize, anyhow::Error>;
}

/// Whether a stage may start one more worker, by its thread limits: there is a
/// request waiting, the workers of this stage and of the stages after it
/// (`later`) stay under the pool's limit and, with a stage `max_threads`, under that too and
/// the stage's own workers under it; without one, a stage `min_threads` also
/// asks that the stage be under its minimum or its backlog exceed twice its
/// workers.
pub open spec fn spawn_rule(
    has_work: bool,
    later: int,
    pods: int,
    max_thread_count: int,
    max_limit: Option<usize>,
    min_limit: Option<usize>,
    backlog: int,
) -> bool {
    match max_limit {
        Some(m) => has_work && later + pods < max_thread_count && later + pods < m && pods < m,
        None => match min_limit {
            Some(n) => has_work && later + pods < max_thread_count && (pods < n || backlog > pods * 2),
            None => has_work && later + pods < max_thread_count,
        },
    }
}

/// Decides whether a stage starts one more worker (see `spawn_rule`).
pub fn spawn_allowed(
    has_work: bool,
    later: usize,
    pods: usize,
    max_thread_count: usize,
    max_limit: Option<usize>,
    min_limit: Option<usize>,
    backlog: usize,
) -> (r: bool)
    ensures
        r == spawn_rule(
            has_work,
            later as int,
            pods as int,
            max_thread_count as int,
            max_limit,
            min_limit,
            backlog as int,
        ),
{
    let used: u128 = later as u128 + pods as u128;
    if !has_work || used >= max_thread_count as u128 {
        return false;
    }
    match max_limit {
        Some(m) => used < m as u128 && pods < m,
        None => match min_limit {
            Some(n) => pods < n || backlog as u128 > pods as u128 * 2,
            None => true,
        },
    }
}

/// A stage with `max_threads: m` never grows past `m` workers: from at most
/// `m` workers, one decision leaves it with at most `m`. Nor does any decision
/// take the workers of a stage and of those after it past the pool's limit.
pub proof fn lemma_spawn_keeps_limits(
    has_work: bool,
    later: int,
    pods: int,
    max_thread_count: int,
    max_limit: Option<usize>,
    min_limit: Option<usize>,
    backlog: int,
)
    ensures
        ({
            let after = if spawn_rule(has_work, later, pods, max_thread_count, max_limit, min_limit, backlog) {
                pods + 1
            } else {
                pods
            };
            &&& (max_limit is Some && pods <= max_limit->Some_0) ==> after <= max_limit->Some_0
            &&& later + pods <= max_thread_count ==> later + after <= max_thread_count
            &&& spawn_rule(has_work, later, pods, max_thread_count, max_limit, min_limit, backlog) ==> has_work
        }),
{
}

/// A stage with a minimum `n` and no maximum starts workers freely while it is
/// under its minimum; from there on, it starts one only while its backlog
/// exceeds twice its live workers. And with no limits of its own it starts
/// one exactly when a request waits and the pool has room.
pub proof fn lemma_spawn_minimum(
    has_work: bool,
    later: int,
    pods: int,
    max_thread_count: int,
    n: usize,
    backlog: int,
)
    ensures
        pods >= n && backlog <= pods * 2 ==> !spawn_rule(
            has_work,
            later,
            pods,
            max_thread_count,
            None,
            Some(n),
            backlog,
        ),
        has_work && later + pods < max_thread_count && (pods < n || backlog > pods * 2)
            ==> spawn_rule(has_work, later, pods, max_thread_count, None, Some(n), backlog),
        spawn_rule(has_work, later, pods, max_thread_count, None, None, backlog) == (has_work && later
            + pods < max_thread_count),
{
}

} // verus!
