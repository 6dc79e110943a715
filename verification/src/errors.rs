use vstd::prelude::*;

verus! {

/// A generation attempt's fatal failures: the room-size constants do not fit
/// the configured grid, or rejection sampling ran out of attempts while
/// looking for a free spawn cell. The caller decides whether to retry with
/// another seed; the generator never retries by itself.
#[derive(Copy, Clone, Debug, PartialEq, Eq, Structural)]
pub enum GenError {
    InvalidGridConfiguration,
    NoFreeCellForSpawn,
}

} // verus!
