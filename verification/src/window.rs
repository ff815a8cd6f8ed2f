use vstd::prelude::*;

verus! {

/// The raised-sine window: half a period of a sine wave over the window.
#[derive(Debug, Clone, Copy, Default)]
pub struct Sine();

/// The raised-sine-squared window: the square of the raised-sine window.
#[derive(Debug, Clone, Copy, Default)]
pub struct Hann();

/// The rectangular window: every weight is one.
#[derive(Debug, Clone, Copy, Default)]
pub struct Dirichlet();

/// Number of steps from the first to the last weight of a window of
/// `length` weights: the raised-sine windows divide half a turn into this
/// many parts. Returns `None` for a window without a second weight, which
/// has no step to divide by.
pub fn window_steps(length: usize) -> (steps: Option<usize>)
    ensures
        steps is Some <==> length >= 2,
        steps matches Some(count) ==> count == length - 1,
{
    if length >= 2 {
        Some(length - 1)
    } else {
        None
    }
}

} // verus!
