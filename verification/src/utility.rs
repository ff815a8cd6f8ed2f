use std::cmp::Ordering;
use vstd::std_specs::cmp::PartialOrdSpec;
use vstd::prelude::*;

verus! {

/// Whether `T` says what its comparisons return, so that they can be
/// reasoned about.
pub open spec fn comparisons_specified<T: PartialOrd>() -> bool {
    T::obeys_partial_cmp_spec()
}

/// `a >= b` in the partial order of `T`.
pub open spec fn at_least<T: PartialOrd>(a: T, b: T) -> bool {
    a.partial_cmp_spec(&b) matches Some(Ordering::Greater | Ordering::Equal)
}

/// The elements of `s` never fall from index 0 up to and including `end`.
pub open spec fn rises_to<T: PartialOrd>(s: Seq<T>, end: int) -> bool {
    forall|k: int| 1 <= k <= end ==> at_least(#[trigger] s[k], s[k - 1])
}

/// No element after `peak` reaches the element at `peak`.
pub open spec fn stays_below_after<T: PartialOrd>(s: Seq<T>, peak: int) -> bool {
    forall|j: int| peak < j < s.len() ==> !at_least(#[trigger] s[j], s[peak])
}

/// `s` is a pyramid with its summit at `peak`: it never falls on the way up to
/// `peak`, and nothing after `peak` reaches the summit again.
pub open spec fn is_peak_at<T: PartialOrd>(s: Seq<T>, peak: int) -> bool {
    &&& 0 <= peak < s.len()
    &&& rises_to(s, peak)
    &&& stays_below_after(s, peak)
}

/// A sequence has at most one summit.
pub proof fn lemma_peak_unique<T: PartialOrd>(s: Seq<T>, p: int, q: int)
    requires
        is_peak_at(s, p),
        is_peak_at(s, q),
    ensures
        p == q,
{
    if p < q {
        assert(at_least(s[p + 1], s[p]));
        assert(!at_least(s[p + 1], s[p]));
    } else if q < p {
        assert(at_least(s[q + 1], s[q]));
        assert(!at_least(s[q + 1], s[q]));
    }
}

/// Appends default values to `vector` until it holds `length` elements.
/// A vector that is already that long is left alone.
pub fn pad_default<T: Default>(vector: &mut Vec<T>, length: usize)
    ensures
        final(vector)@.len() == if old(vector)@.len() < length {
            length as nat
        } else {
            old(vector)@.len()
        },
        final(vector)@.subrange(0, old(vector)@.len() as int) == old(vector)@,
        forall|i: int|
            old(vector)@.len() <= i < final(vector)@.len() ==> call_ensures(
                T::default,
                (),
                #[trigger] final(vector)@[i],
            ),
{
    let ghost before = vector@;
    while vector.len() < length
        invariant
            before.len() <= vector@.len(),
            vector@.len() <= length || vector@.len() == before.len(),
            vector@.subrange(0, before.len() as int) == before,
            forall|i: int|
                before.len() <= i < vector@.len() ==> call_ensures(
                    T::default,
                    (),
                    #[trigger] vector@[i],
                ),
        decreases length - vector.len(),
    {
        let ghost prior = vector@;
        vector.push(T::default());
        assert(vector@.subrange(0, before.len() as int) =~= prior.subrange(
            0,
            before.len() as int,
        ));
    }
}

/// Returns the summit of `data` if `data` forms a pyramid: values that never
/// fall up to some element, after which no value reaches that element again.
/// Returns `None` for an empty slice and for data with a second summit.
pub fn find_peak<T: PartialOrd>(data: &[T]) -> (peak: Option<&T>)
    ensures
        comparisons_specified::<T>() ==> match peak {
            Some(highest) => exists|p: int| is_peak_at(data@, p) && *highest == data@[p],
            None => forall|p: int| !is_peak_at(data@, p),
        },
{
    if data.len() == 0 {
        return None;
    }
    let mut increasing = true;
    let mut summit: usize = 0;
    let mut index: usize = 1;
    while index < data.len()
        invariant
            1 <= index <= data.len(),
            summit < index,
            comparisons_specified::<T>() ==> rises_to(data@, summit as int),
            increasing ==> summit + 1 == index,
            comparisons_specified::<T>() && !increasing ==> !at_least(
                data@[summit + 1],
                data@[summit as int],
            ),
            comparisons_specified::<T>() ==> forall|j: int|
                summit < j < index ==> !at_least(#[trigger] data@[j], data@[summit as int]),
        decreases data.len() - index,
    {
        let element = &data[index];
        let highest = &data[summit];
        if increasing {
            if *element >= *highest {
                summit = index;
            } else {
                increasing = false;
            }
        } else {
            if *element >= *highest {
                proof {
                    if comparisons_specified::<T>() {
                        let s = data@;
                        let w = index as int;
                        let m = summit as int;
                        assert forall|p: int| !is_peak_at(s, p) by {
                            if is_peak_at(s, p) {
                                if p < m {
                                    assert(at_least(s[p + 1], s[p]));
                                } else if p == m {
                                    assert(at_least(s[w], s[m]));
                                } else {
                                    assert(at_least(s[m + 1], s[m]));
                                }
                            }
                        }
                    }
                }
                return None;
            }
        }
        index += 1;
    }
    proof {
        if comparisons_specified::<T>() {
            assert(is_peak_at(data@, summit as int));
        }
    }
    Some(&data[summit])
}

} // verus!
