//! Wrap-around movement of a selection index over a list.

use vstd::prelude::*;

verus! {

/// Move a selection index up one row, wrapping from the top to the bottom.
/// An empty list leaves the index alone.
pub fn index_up(selected: &mut usize, len: usize)
    ensures
        *final(selected) == if len == 0 {
            *old(selected) as int
        } else if *old(selected) == 0 {
            len - 1
        } else {
            *old(selected) - 1
        },
{
    if len == 0 {
        return ;
    }
    if *selected == 0 {
        *selected = len - 1;
    } else {
        *selected = *selected - 1;
    }
}

/// Move a selection index down one row, wrapping from the bottom to the
/// top. An empty list leaves the index alone.
pub fn index_down(selected: &mut usize, len: usize)
    ensures
        *final(selected) == if len == 0 {
            *old(selected) as int
        } else if *old(selected) >= len - 1 {
            0
        } else {
            *old(selected) + 1
        },
{
    if len == 0 {
        return ;
    }
    if *selected >= len - 1 {
        *selected = 0;
    } else {
        *selected = *selected + 1;
    }
}

} // verus!
