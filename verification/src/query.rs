//! Asking for the one item of a kind.

use vstd::prelude::*;

verus! {

/// The only item of `items`: `Ok(None)` if there is none, `Ok` of the item if
/// there is one, and an error if there are more.
pub fn unique<R>(items: Vec<R>) -> (r: Result<Option<R>, ()>)
    ensures
        r == if items@.len() == 0 {
            Ok::<Option<R>, ()>(None)
        } else if items@.len() == 1 {
            Ok::<Option<R>, ()>(Some(items@[0]))
        } else {
            Err::<Option<R>, ()>(())
        },
{
    let mut items = items;
    if items.len() > 1 {
        Err(())
    } else {
        Ok(items.pop())
    }
}

/// The only item of `items`, or an error if there is none or more than
/// one.
pub fn singleton<R>(items: Vec<R>) -> (r: Result<R, ()>)
    ensures
        r == if items@.len() == 1 {
            Ok::<R, ()>(items@[0])
        } else {
            Err::<R, ()>(())
        },
{
    match unique(items) {
        Ok(Some(item)) => Ok(item),
        _ => Err(()),
    }
}

} // verus!
