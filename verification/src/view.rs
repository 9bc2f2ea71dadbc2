//! How a snapshot is laid out on screen.

use vstd::prelude::*;

verus! {

#[derive(Clone, Copy, Debug, PartialEq, Eq, Structural)]
pub enum ViewMode {
    List,
    Grid,
    Details,
}

} // verus!
