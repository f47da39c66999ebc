//! The choice of the colour in which a count of mines is written.

use vstd::prelude::*;

verus! {

/// The position, in a list of `colors` colours, of the colour for the count
/// `counter`: the count less one, held back to the last colour of the list.
/// An empty list has no colour to give.
pub open spec fn spec_counter_color_index(counter: u8, colors: nat) -> Option<nat> {
    if colors == 0 {
        None
    } else if counter == 0 {
        Some(0nat)
    } else if counter - 1 < colors {
        Some((counter - 1) as nat)
    } else {
        Some((colors - 1) as nat)
    }
}

/// The position, in a list of `colors` colours, of the colour for the count
/// `counter`.
pub fn bomb_counter_color_index(counter: u8, colors: usize) -> (r: Option<usize>)
    ensures
        match r {
            Some(i) => spec_counter_color_index(counter, colors as nat) == Some(i as nat) && i
                < colors,
            None => spec_counter_color_index(counter, colors as nat) is None && colors == 0,
        },
{
    let wanted = counter.saturating_sub(1) as usize;
    if wanted < colors {
        Some(wanted)
    } else if colors > 0 {
        Some(colors - 1)
    } else {
        None
    }
}

} // verus!
