//! Contracts for std items that vstd leaves unspecified.
use vstd::prelude::*;

verus! {

/// `Result::clone`: clones whichever value the result holds.
pub assume_specification<T: Clone, E: Clone>[ <Result<T, E> as Clone>::clone ](
    r: &Result<T, E>,
) -> (c: Result<T, E>)
    ensures
        match (*r, c) {
            (Ok(a), Ok(b)) => cloned(a, b),
            (Err(a), Err(b)) => cloned(a, b),
            _ => false,
        },
;

} // verus!
