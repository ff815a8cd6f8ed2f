use crate::fourier_transform::spec_bin_count;
use vstd::prelude::*;

verus! {

/// The sizes of a convolution that is computed by way of spectra.
#[derive(Debug, Clone, Copy, PartialEq, Eq, Structural)]
pub struct FourierConvolution {
    /// Number of samples of the convolution, and the length that both
    /// inputs are extended to before they are transformed.
    pub length: usize,
    /// Number of bins of the two spectra that are multiplied.
    pub bins: usize,
}

/// Number of samples in the convolution of a signal of `signal_length`
/// samples with an impulse response of `impulse_length` samples.
pub open spec fn spec_convolution_length(signal_length: nat, impulse_length: nat) -> int {
    signal_length + impulse_length - 1
}

/// Whether sample `impulse_index` of the impulse response meets a sample of
/// the signal in sample `index` of the convolution.
pub open spec fn spec_meets(
    signal_length: nat,
    impulse_length: nat,
    index: nat,
    impulse_index: nat,
) -> bool {
    &&& impulse_index < impulse_length
    &&& impulse_index <= index
    &&& index - impulse_index < signal_length
}

/// Number of samples in the convolution of a signal with an impulse
/// response: one less than both have together. Returns `None` where both
/// are empty, and where that number is more than a length can be.
pub fn convolution_length(signal_length: usize, impulse_length: usize) -> (length: Option<usize>)
    ensures
        length is Some <==> 0 <= spec_convolution_length(
            signal_length as nat,
            impulse_length as nat,
        ) <= usize::MAX,
        length matches Some(samples) ==> samples == spec_convolution_length(
            signal_length as nat,
            impulse_length as nat,
        ),
{
    if signal_length == 0 {
        if impulse_length == 0 {
            None
        } else {
            Some(impulse_length - 1)
        }
    } else if impulse_length <= usize::MAX - (signal_length - 1) {
        Some((signal_length - 1) + impulse_length)
    } else {
        None
    }
}

/// The samples of the impulse response that take part in sample `index` of
/// the convolution: those from the first to before the second index
/// returned.
pub fn convolution_terms(signal_length: usize, impulse_length: usize, index: usize) -> (terms: (
    usize,
    usize,
))
    ensures
        forall|impulse_index: nat|
            terms.0 <= impulse_index < terms.1 <==> #[trigger] spec_meets(
                signal_length as nat,
                impulse_length as nat,
                index as nat,
                impulse_index,
            ),
{
    if signal_length == 0 {
        return (0, 0);
    }
    let first = if index >= signal_length {
        index - (signal_length - 1)
    } else {
        0
    };
    let end = if impulse_length <= index {
        impulse_length
    } else {
        index + 1
    };
    (first, end)
}

/// A convolution can go by way of spectra where it has samples at all, their
/// number is a length, and that length is odd: the product then holds the
/// whole half-spectrum.
pub open spec fn spec_convolves_by_spectra(signal_length: nat, impulse_length: nat) -> bool {
    let length = spec_convolution_length(signal_length, impulse_length);
    1 <= length <= usize::MAX && length % 2 == 1
}

/// Sizes the convolution of a signal with an impulse response for the way
/// by spectra, or returns `None` where that way is closed.
///
/// The product of the spectra is taken over the first half of the bins,
/// rounded up. With an even length that leaves out the bin of the highest
/// frequency, and the inverse transform has no full half-spectrum to read.
pub fn fourier_convolution(signal_length: usize, impulse_length: usize) -> (sizes: Option<
    FourierConvolution,
>)
    ensures
        sizes is Some <==> spec_convolves_by_spectra(signal_length as nat, impulse_length as nat),
        sizes matches Some(found) ==> {
            &&& found.length == spec_convolution_length(
                signal_length as nat,
                impulse_length as nat,
            )
            &&& found.bins == (found.length + 1) / 2
            &&& found.bins == spec_bin_count(found.length as nat)
        },
{
    match convolution_length(signal_length, impulse_length) {
        Some(length) => {
            if length % 2 == 0 {
                None
            } else {
                Some(FourierConvolution { length, bins: length / 2 + 1 })
            }
        },
        None => None,
    }
}

} // verus!
