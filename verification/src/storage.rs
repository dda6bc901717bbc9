//! What stands for a file that is not there.

use vstd::prelude::*;

verus! {

/// What was loaded from a file, or the default where there is no file.
pub fn value_or_default<T: Default>(loaded: Option<T>) -> (value: T)
    ensures
        match loaded {
            Some(held) => value == held,
            None => call_ensures(T::default, (), value),
        },
{
    match loaded {
        Some(held) => held,
        None => T::default(),
    }
}

} // verus!
