use vstd::prelude::*;

verus! {

/// Retry metadata for controlling retry behavior.
#[derive(Clone, Copy, Debug)]
pub struct RetryPolicy {
    /// Maximum number of retry attempts (0 = no retry, 1 = one retry, etc.)
    pub max_attempts: usize,
    /// Delay between retry attempts in milliseconds
    pub delay_ms: u64,
}

impl Default for RetryPolicy {
    /// Three attempts, one hundred milliseconds apart.
    fn default() -> (policy: Self)
        ensures
            policy.max_attempts == 3,
            policy.delay_ms == 100,
    {
        RetryPolicy { max_attempts: 3, delay_ms: 100 }
    }
}

impl RetryPolicy {
    /// Whether a request that has been retried `attempt` times may be retried
    /// again under this policy.
    pub fn allows_retry(&self, attempt: usize) -> (r: bool)
        ensures
            r == (attempt < self.max_attempts),
    {
        attempt < self.max_attempts
    }
}

/// What a stage reports after handling one request.
pub enum Status<T, E> {
    Next(T),
    Switch((&'static str, T)),
    Panic(E),
    PanicSwitch((&'static str, E)),
    Back((&'static str, T)),
    /// Retry with policy metadata and current attempt count (0-indexed)
    RetryWith(RetryPolicy, usize, T),
    /// Immediate retry (legacy, uses default policy)
    Retry,
    Exit,
}

impl<T: Clone, E: Clone> Clone for Status<T, E> {
    /// Copies the variant, its labels and its policy, and clones the payload.
    fn clone(&self) -> (c: Self)
        ensures
            c is Next <==> self is Next,
            c is Switch <==> self is Switch,
            c is Panic <==> self is Panic,
            c is PanicSwitch <==> self is PanicSwitch,
            c is Back <==> self is Back,
            c is RetryWith <==> self is RetryWith,
            c is Retry <==> self is Retry,
            c is Exit <==> self is Exit,
            c is Switch ==> c->Switch_0.0 == self->Switch_0.0,
            c is PanicSwitch ==> c->PanicSwitch_0.0 == self->PanicSwitch_0.0,
            c is Back ==> c->Back_0.0 == self->Back_0.0,
            c is RetryWith ==> c->RetryWith_0 == self->RetryWith_0 && c->RetryWith_1
                == self->RetryWith_1,
            c is Next ==> cloned(self->Next_0, c->Next_0),
            c is Switch ==> cloned(self->Switch_0.1, c->Switch_0.1),
            c is Panic ==> cloned(self->Panic_0, c->Panic_0),
            c is PanicSwitch ==> cloned(self->PanicSwitch_0.1, c->PanicSwitch_0.1),
            c is Back ==> cloned(self->Back_0.1, c->Back_0.1),
            c is RetryWith ==> cloned(self->RetryWith_2, c->RetryWith_2),
    {
        match self {
            Status::Next(v) => Status::Next(v.clone()),
            Status::Switch((target, v)) => Status::Switch((*target, v.clone())),
            Status::Panic(e) => Status::Panic(e.clone()),
            Status::PanicSwitch((target, e)) => Status::PanicSwitch((*target, e.clone())),
            Status::Back((target, v)) => Status::Back((*target, v.clone())),
            Status::RetryWith(policy, attempt, v) => Status::RetryWith(*policy, *attempt, v.clone()),
            Status::Retry => Status::Retry,
            Status::Exit => Status::Exit,
        }
    }
}

/// Helper function to create a Status::Retry with explicit type parameters.
/// Use this when the compiler cannot infer the type parameters from context.
pub fn retry<T, E>() -> (s: Status<T, E>)
    ensures
        s is Retry,
{
    Status::Retry
}

/// Helper function to create a Status::RetryWith with explicit type parameters.
pub fn retry_with<T: Clone>(policy: RetryPolicy, attempt: usize, value: T) -> (s: Status<T, ()>)
    ensures
        s == Status::<T, ()>::RetryWith(policy, attempt, value),
{
    Status::RetryWith(policy, attempt, value)
}

/// Conversion of what a stage body returns into the status it reports.
pub trait IntoStatus<T, E> {
    fn into_status(self) -> Status<T, E>;
}

impl<T, E> IntoStatus<T, E> for Result<T, E> {
    /// `Ok` continues to the next stage, `Err` reports a failure.
    fn into_status(self) -> (s: Status<T, E>)
        ensures
            match self {
                Ok(v) => s == Status::<T, E>::Next(v),
                Err(e) => s == Status::<T, E>::Panic(e),
            },
    {
        match self {
            Ok(value) => Status::Next(value),
            Err(error) => Status::Panic(error),
        }
    }
}

impl<T, E> IntoStatus<T, E> for Status<T, E> {
    /// A status is reported as it is.
    fn into_status(self) -> (s: Status<T, E>)
        ensures
            s == self,
    {
        self
    }
}

} // verus!
