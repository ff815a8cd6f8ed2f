use vstd::prelude::*;

verus! {

/// The reference transform: every bin is computed by correlating the signal
/// with the bin's cosine and sine waves.
#[derive(Debug, Clone, Copy, Default)]
pub struct CorrelationFourier();

/// Number of bins in the half-spectrum of a real signal of the given length.
pub open spec fn spec_bin_count(signal_length: nat) -> nat {
    signal_length / 2 + 1
}

/// Position in the full spectrum of the bin that mirrors bin `bin_index`.
pub open spec fn spec_mirror_index(signal_length: nat, bin_index: nat) -> nat
    recommends
        bin_index <= signal_length,
        signal_length > 0,
{
    ((signal_length - bin_index) % (signal_length as int)) as nat
}

/// Whether a bin stands alone in the full spectrum: the bin of frequency
/// zero, and in a spectrum of even length the bin of the highest frequency.
/// Every other bin of the half-spectrum stands for itself and its mirror.
pub open spec fn spec_is_unpaired(signal_length: nat, bin_index: nat) -> bool {
    bin_index == 0 || 2 * bin_index == signal_length
}

/// Calculates the number of bins generated for a real valued Fourier transform.
pub fn bin_count(signal_length: usize) -> (count: usize)
    ensures
        count == spec_bin_count(signal_length as nat),
{
    (signal_length / 2) + 1
}

/// Says whether bin `bin_index` of a signal of `signal_length` samples has
/// no mirror partner. The amplitude of such a bin is spread over the whole
/// signal length on synthesis, that of any other bin over half of it.
pub fn is_unpaired_bin(bin_index: usize, signal_length: usize) -> (unpaired: bool)
    ensures
        unpaired == spec_is_unpaired(signal_length as nat, bin_index as nat),
{
    bin_index == 0 || (signal_length % 2 == 0 && bin_index == signal_length / 2)
}

/// A bin of the half-spectrum is unpaired exactly when it is its own mirror.
pub proof fn lemma_unpaired_is_own_mirror(signal_length: nat, bin_index: nat)
    requires
        signal_length > 0,
        bin_index < spec_bin_count(signal_length),
    ensures
        spec_is_unpaired(signal_length, bin_index) <==> spec_mirror_index(
            signal_length,
            bin_index,
        ) == bin_index,
{
    let length = signal_length as int;
    if bin_index == 0 {
        assert(length % length == 0) by (nonlinear_arith)
            requires
                length > 0,
        ;
    } else {
        let mirror = length - bin_index;
        assert(mirror % length == mirror) by (nonlinear_arith)
            requires
                0 <= mirror < length,
        ;
    }
}

/// The mirror of a paired bin of the half-spectrum lies outside the
/// half-spectrum, so the half-spectrum never holds both.
pub proof fn lemma_mirror_leaves_half_spectrum(signal_length: nat, bin_index: nat)
    requires
        signal_length > 0,
        bin_index < spec_bin_count(signal_length),
        !spec_is_unpaired(signal_length, bin_index),
    ensures
        spec_bin_count(signal_length) <= spec_mirror_index(signal_length, bin_index)
            < signal_length,
{
    let length = signal_length as int;
    let mirror = length - bin_index;
    assert(mirror % length == mirror) by (nonlinear_arith)
        requires
            0 <= mirror < length,
    ;
}

/// The unpaired bins once and the paired bins twice make up the full
/// spectrum.
pub proof fn lemma_half_spectrum_counts_all(signal_length: nat)
    requires
        signal_length > 0,
    ensures
        ({
            let unpaired: nat = if signal_length % 2 == 0 {
                2
            } else {
                1
            };
            unpaired + 2 * (spec_bin_count(signal_length) - unpaired) == signal_length
        }),
{
}

} // verus!
