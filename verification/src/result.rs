use vstd::prelude::*;

verus! {

/// The two ways a transaction body can fail.
///
/// `Retry` asks the runtime to run the body again once an observed variable
/// has changed. `Failure` reports that both branches of an alternative
/// composition gave up; it propagates outward unchanged.
#[derive(Clone, Copy, PartialEq, Eq, Debug, Structural)]
pub enum StmError {
    Retry,
    Failure,
}

/// The result type that transaction bodies return.
pub type StmResult<T> = Result<T, StmError>;

} // verus!
