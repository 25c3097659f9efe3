use vstd::prelude::*;

verus! {

/// The five characters used to outline a screen.
#[derive(Clone, Copy, Debug, PartialEq, Eq, Structural)]
pub struct Settings {
    pub corners: char,
    pub top: char,
    pub left: char,
    pub bottom: char,
    pub right: char,
}

/// Builds border settings with an independent character for each edge.
pub fn full_settings(corners: char, top: char, bottom: char, left: char, right: char) -> (r:
    Settings)
    ensures
        r == (Settings { corners, top, left, bottom, right }),
{
    Settings { corners, top, left, bottom, right }
}

/// Builds border settings whose top and bottom share one character, and whose
/// left and right share another.
pub fn settings(corners: char, horizontal: char, vertical: char) -> (r: Settings)
    ensures
        r == (Settings {
            corners,
            top: horizontal,
            left: vertical,
            bottom: horizontal,
            right: vertical,
        }),
{
    full_settings(corners, horizontal, horizontal, vertical, vertical)
}

} // verus!
