use vstd::prelude::*;

verus! {

/// Whether sample `target_index` of the target meets a sample of the signal
/// when the target is laid on the signal at `index`.
pub open spec fn spec_overlaps(
    signal_length: nat,
    target_length: nat,
    index: nat,
    target_index: nat,
) -> bool {
    target_index < target_length && index + target_index < signal_length
}

/// Number of leading samples of the target that lie on the signal when the
/// target is laid on it at `index`; the rest hangs over the end.
pub fn correlation_terms(signal_length: usize, target_length: usize, index: usize) -> (terms: usize)
    ensures
        forall|target_index: nat|
            target_index < terms <==> #[trigger] spec_overlaps(
                signal_length as nat,
                target_length as nat,
                index as nat,
                target_index,
            ),
{
    if index >= signal_length {
        0
    } else if target_length <= signal_length - index {
        target_length
    } else {
        signal_length - index
    }
}

} // verus!
