use vstd::prelude::*;

verus! {

/// The pause between two frames, in milliseconds, at `fps` frames per second.
pub fn frame_delay_ms(fps: u64) -> (r: u64)
    requires
        fps > 0,
    ensures
        r == 1000int / fps as int,
{
    1000 / fps
}

/// What an animation does after the update for `frame` has run and answered
/// `keep_going`: stop (`None`), or show the screen and go on with the frame
/// number it returns. The count stops where it would leave `u64`.
pub fn next_frame(frame: u64, keep_going: bool) -> (r: Option<u64>)
    ensures
        r == if keep_going && frame < u64::MAX {
            Some((frame + 1) as u64)
        } else {
            None::<u64>
        },
{
    if keep_going && frame < u64::MAX {
        Some(frame + 1)
    } else {
        None
    }
}

} // verus!
