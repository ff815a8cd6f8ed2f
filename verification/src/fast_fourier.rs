use crate::fourier_transform::{bin_count, spec_bin_count};
use vstd::prelude::*;

verus! {

/// The fast transform: the same spectrum as the reference transform, by a
/// radix algorithm on buffers of the full signal length.
#[derive(Debug, Clone, Copy, Default)]
pub struct FastFourier();

/// What stands at one position of the full spectrum that an inverse
/// transform reads.
#[derive(Debug, Clone, Copy, PartialEq, Eq, Structural)]
pub enum SpectrumSource {
    /// The bin of the half-spectrum with this index.
    Bin(usize),
    /// Nothing: the half-spectrum was given without this bin.
    Zero,
    /// The complex conjugate of the bin of the half-spectrum with this index.
    Conjugate(usize),
}

/// Number of leading positions of the full spectrum that are read from the
/// half-spectrum as they are, without the bin of the highest frequency of a
/// spectrum of even length.
pub open spec fn spec_mirror_bound(signal_length: nat) -> nat
    recommends
        signal_length > 0,
{
    spec_bin_count((signal_length - 1) as nat)
}

/// Whether a half-spectrum of `bin_len` bins can be completed to a full
/// spectrum of `signal_length` bins: it holds no more than the
/// half-spectrum of such a signal, and with an even length, where the bin
/// of the highest frequency has no mirror to be rebuilt from, all of it.
pub open spec fn spec_completes(bin_len: nat, signal_length: nat) -> bool {
    &&& signal_length > 0
    &&& bin_len <= spec_bin_count(signal_length)
    &&& signal_length % 2 == 0 ==> bin_len == spec_bin_count(signal_length)
}

/// What stands at `position` of the full spectrum: the bins that were
/// given, and behind the half-spectrum their conjugates in reverse, so that
/// bin `k` is mirrored at `signal_length - k`. A bin that was not given
/// counts as zero, at its own position and at its mirror.
pub open spec fn spec_source_at(bin_len: nat, signal_length: nat, position: nat) -> SpectrumSource {
    if position < bin_len {
        SpectrumSource::Bin(position as usize)
    } else if position < spec_mirror_bound(signal_length) || signal_length - position
        >= bin_len {
        SpectrumSource::Zero
    } else {
        SpectrumSource::Conjugate((signal_length - position) as usize)
    }
}

/// Lays out the full spectrum of `signal_length` bins for the inverse
/// transform of a half-spectrum of `bin_len` bins, or returns `None` where
/// the half-spectrum cannot be completed to that length.
pub fn full_spectrum(bin_len: usize, signal_length: usize) -> (sources: Option<
    Vec<SpectrumSource>,
>)
    ensures
        sources is Some <==> spec_completes(bin_len as nat, signal_length as nat),
        sources matches Some(layout) ==> {
            &&& layout@.len() == signal_length
            &&& forall|position: int|
                0 <= position < layout@.len() ==> #[trigger] layout@[position] == spec_source_at(
                    bin_len as nat,
                    signal_length as nat,
                    position as nat,
                )
        },
{
    if signal_length == 0 {
        return None;
    }
    let half = bin_count(signal_length);
    if bin_len > half || (signal_length % 2 == 0 && bin_len != half) {
        return None;
    }
    let mirror_bound = bin_count(signal_length - 1);
    let mut layout: Vec<SpectrumSource> = Vec::new();
    let mut position: usize = 0;
    while position < bin_len
        invariant
            position <= bin_len <= half <= signal_length,
            layout@.len() == position,
            forall|p: int|
                0 <= p < layout@.len() ==> #[trigger] layout@[p] == spec_source_at(
                    bin_len as nat,
                    signal_length as nat,
                    p as nat,
                ),
        decreases bin_len - position,
    {
        layout.push(SpectrumSource::Bin(position));
        position += 1;
    }
    while position < mirror_bound
        invariant
            bin_len <= position,
            position <= mirror_bound || position == bin_len,
            mirror_bound == spec_mirror_bound(signal_length as nat),
            layout@.len() == position,
            forall|p: int|
                0 <= p < layout@.len() ==> #[trigger] layout@[p] == spec_source_at(
                    bin_len as nat,
                    signal_length as nat,
                    p as nat,
                ),
        decreases mirror_bound - position,
    {
        layout.push(SpectrumSource::Zero);
        position += 1;
    }
    while position < signal_length
        invariant
            bin_len <= position <= signal_length,
            mirror_bound <= position,
            mirror_bound == spec_mirror_bound(signal_length as nat),
            layout@.len() == position,
            forall|p: int|
                0 <= p < layout@.len() ==> #[trigger] layout@[p] == spec_source_at(
                    bin_len as nat,
                    signal_length as nat,
                    p as nat,
                ),
        decreases signal_length - position,
    {
        let mirrored = signal_length - position;
        if mirrored < bin_len {
            layout.push(SpectrumSource::Conjugate(mirrored));
        } else {
            layout.push(SpectrumSource::Zero);
        }
        position += 1;
    }
    Some(layout)
}

/// In a completed spectrum every bin that has a mirror stands at its own
/// position and, as its conjugate, at the position that counts as far back
/// from the end; a bin that was not given is zero at both.
pub proof fn lemma_mirror_is_conjugate(bin_len: nat, signal_length: nat, bin_index: nat)
    requires
        spec_completes(bin_len, signal_length),
        signal_length <= usize::MAX,
        0 < bin_index < spec_mirror_bound(signal_length),
    ensures
        bin_index < bin_len ==> spec_source_at(bin_len, signal_length, bin_index)
            == SpectrumSource::Bin(bin_index as usize) && spec_source_at(
            bin_len,
            signal_length,
            (signal_length - bin_index) as nat,
        ) == SpectrumSource::Conjugate(bin_index as usize),
        bin_index >= bin_len ==> spec_source_at(bin_len, signal_length, bin_index)
            == SpectrumSource::Zero && spec_source_at(
            bin_len,
            signal_length,
            (signal_length - bin_index) as nat,
        ) == SpectrumSource::Zero,
{
}

/// A completed spectrum takes no conjugate of a bin that has no mirror:
/// neither of the bin of frequency zero nor, with an even length, of the
/// bin of the highest frequency.
pub proof fn lemma_unpaired_never_mirrored(bin_len: nat, signal_length: nat, position: nat)
    requires
        spec_completes(bin_len, signal_length),
        signal_length <= usize::MAX,
        position < signal_length,
    ensures
        spec_source_at(bin_len, signal_length, position) matches SpectrumSource::Conjugate(
            bin_index,
        ) ==> 0 < bin_index < bin_len && bin_index < spec_mirror_bound(signal_length) && 2
            * bin_index != signal_length,
{
}

} // verus!
