//! What the command-line front end needs to talk to the user: the colors a
//! message can be printed with. Printing itself, and coloring the text, is
//! the front end's business.

use vstd::prelude::*;

verus! {

/// The colors a console message can be printed with.
pub enum ConsoleColors {
    RED,
    WHITE,
    GREEN,
    CYAN,
}

} // verus!
