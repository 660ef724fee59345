use vstd::prelude::*;

use crate::status::Status;

verus! {

/// The error type that a stage reports on failure.
#[verifier::external_type_specification]
#[verifier::external_body]
pub struct ExAnyhowError(anyhow::Error);

/// One processing stage of a pipeline.
pub trait ThreadNode {
    type Request: Clone;
    type Response: Clone;

    fn run(req: Self::Request) -> Status<Self::Response, anyhow::Error>;
}

/// The name under which a stage is known to the pool.
pub trait ThreadNodeEnum {
    fn id() -> &'static str;
}

} // verus!
