use crate::IntegralSample;
use std::collections::BTreeMap;
use vstd::std_specs::cmp::OrdSpec;
use vstd::std_specs::iter::IteratorSpec;
use vstd::multiset::*;
use vstd::prelude::*;
use vstd::std_specs::btree::*;

verus! {

broadcast use {group_btree_axioms, group_multiset_axioms};

/// The bag of samples that a table of occurrence counts stands for.
pub open spec fn bag_of(counts: Map<IntegralSample, usize>) -> Multiset<IntegralSample> {
    Multiset::from_map(counts.map_values(|count: usize| count as nat))
}

/// In a sequence of samples that the tree's order calls increasing, an
/// earlier sample is less than a later one.
proof fn lemma_increasing_samples_rise(keys: Seq<IntegralSample>, i: int, j: int)
    requires
        increasing_seq(keys),
        0 <= i < j < keys.len(),
    ensures
        keys[i] < keys[j],
{
    assert(keys[i].cmp_spec(&keys[j]) is Less);
}

/// Counts how often each whole-number sample has been seen.
pub struct Histogram {
    samples: BTreeMap<IntegralSample, usize>,
    sample_count: usize,
}

impl View for Histogram {
    type V = Multiset<IntegralSample>;

    /// All samples appended so far, each as often as it was appended.
    closed spec fn view(&self) -> Multiset<IntegralSample> {
        bag_of(self.samples@)
    }
}

impl Histogram {
    /// The table holds no zero entries and the running total agrees with it.
    pub closed spec fn well_formed(&self) -> bool {
        &&& forall|sample: IntegralSample| #[trigger]
            self.samples@.contains_key(sample) ==> self.samples@[sample] >= 1
        &&& self.sample_count == self@.len()
    }

    /// Creates a histogram without samples.
    pub fn new() -> (histogram: Histogram)
        ensures
            histogram.well_formed(),
            histogram@ == Multiset::<IntegralSample>::empty(),
    {
        let histogram = Histogram { samples: BTreeMap::new(), sample_count: 0 };
        proof {
            let counts = histogram.samples@.map_values(|count: usize| count as nat);
            assert(counts.dom() =~= Set::<IntegralSample>::empty());
            assert(histogram@ =~= Multiset::<IntegralSample>::empty());
        }
        histogram
    }

    /// Records one more occurrence of `sample`.
    pub fn append(&mut self, sample: IntegralSample)
        requires
            old(self).well_formed(),
            old(self)@.len() < usize::MAX,
        ensures
            final(self).well_formed(),
            final(self)@ == old(self)@.insert(sample),
    {
        let ghost before = self.samples@;
        let ghost before_counts = before.map_values(|count: usize| count as nat);
        let seen: usize = match self.samples.get(&sample) {
            Some(count) => *count,
            None => 0,
        };
        proof {
            assert(before_counts.dom() =~= before.dom());
            assert(seen == old(self)@.count(sample));
        }
        self.samples.insert(sample, seen + 1);
        self.sample_count += 1;
        proof {
            let after_counts = self.samples@.map_values(|count: usize| count as nat);
            assert(after_counts.dom() =~= self.samples@.dom());
            assert forall|other: IntegralSample|
                self@.count(other) == old(self)@.insert(sample).count(other) by {
                if other != sample {
                    assert(before.contains_key(other) == self.samples@.contains_key(other));
                }
            }
            assert(self@ =~= old(self)@.insert(sample));
        }
    }

    /// How many samples have been appended.
    pub fn sample_count(&self) -> (count: usize)
        requires
            self.well_formed(),
        ensures
            count == self@.len(),
    {
        self.sample_count
    }

    /// How often `sample` has been appended.
    pub fn occurrences(&self, sample: IntegralSample) -> (count: usize)
        requires
            self.well_formed(),
        ensures
            count == self@.count(sample),
    {
        let ghost counts = self.samples@.map_values(|count: usize| count as nat);
        proof {
            assert(counts.dom() =~= self.samples@.dom());
        }
        match self.samples.get(&sample) {
            Some(count) => *count,
            None => 0,
        }
    }

    /// The distinct samples with their numbers of occurrences, in rising
    /// order of the samples.
    pub fn entries(&self) -> (entries: Vec<(IntegralSample, usize)>)
        requires
            self.well_formed(),
        ensures
            forall|i: int|
                0 <= i < entries@.len() ==> (#[trigger] entries@[i]).1 >= 1 && self@.count(
                    entries@[i].0,
                ) == entries@[i].1,
            forall|sample: IntegralSample|
                self@.count(sample) > 0 ==> exists|i: int|
                    0 <= i < entries@.len() && (#[trigger] entries@[i]).0 == sample,
            forall|i: int, j: int|
                0 <= i < j < entries@.len() ==> (#[trigger] entries@[i]).0 < (
                #[trigger] entries@[j]).0,
    {
        let ghost counts = self.samples@.map_values(|count: usize| count as nat);
        proof {
            assert(counts.dom() =~= self.samples@.dom());
        }
        let mut entries: Vec<(IntegralSample, usize)> = Vec::new();
        for pair in iter: self.samples.iter()
            invariant
                iter.seq() == self.samples.iter().remaining(),
                entries@.len() == iter.index(),
                forall|i: int|
                    0 <= i < entries@.len() ==> (#[trigger] entries@[i]).0 == *iter.seq()[i].0
                        && entries@[i].1 == *iter.seq()[i].1,
        {
            let (sample, count) = pair;
            entries.push((*sample, *count));
        }
        proof {
            let walked = self.samples.iter().remaining();
            assert(entries@.len() == walked.len());
            assert forall|i: int| 0 <= i < entries@.len() implies (#[trigger] entries@[i]).1 >= 1
                && self@.count(entries@[i].0) == entries@[i].1 by {
                assert(self.samples@.contains_key(*walked[i].0));
            }
            assert forall|sample: IntegralSample| self@.count(sample) > 0 implies exists|i: int|
                0 <= i < entries@.len() && (#[trigger] entries@[i]).0 == sample by {
                assert(self.samples@.contains_key(sample));
                let found = (&sample, &self.samples@[sample]);
                assert(walked.contains(found));
                let i = choose|i: int| 0 <= i < walked.len() && walked[i] == found;
                assert(entries@[i].0 == sample);
            }
            let keys = walked.map_values(|kv: (&IntegralSample, &usize)| *kv.0);
            assert(increasing_seq(keys));
            assert forall|i: int, j: int| 0 <= i < j < entries@.len() implies (
            #[trigger] entries@[i]).0 < (#[trigger] entries@[j]).0 by {
                assert(keys[i] == entries@[i].0);
                assert(keys[j] == entries@[j].0);
                lemma_increasing_samples_rise(keys, i, j);
            }
        }
        entries
    }
}

/// What one entry adds to the sum of the samples: its sample, as often as
/// it occurs.
pub open spec fn spec_share(entry: (IntegralSample, usize)) -> int {
    entry.0 * entry.1
}

/// Sum of the samples of `entries`, each counted as often as its entry
/// says.
pub open spec fn spec_weighted_sum(entries: Seq<(IntegralSample, usize)>) -> int
    decreases entries.len(),
{
    if entries.len() == 0 {
        0
    } else {
        spec_weighted_sum(entries.drop_last()) + spec_share(entries.last())
    }
}

/// Whether `value` is a whole-number sample.
pub open spec fn spec_is_sample(value: int) -> bool {
    i64::MIN <= value <= i64::MAX
}

/// Whether the samples of `entries` can be summed up entry by entry
/// without leaving the range of samples on the way: every entry's share and
/// the sum up to every entry is a sample.
pub open spec fn spec_sums_in_range(entries: Seq<(IntegralSample, usize)>) -> bool {
    forall|k: int|
        0 <= k < entries.len() ==> spec_is_sample(spec_share(#[trigger] entries[k]))
            && spec_is_sample(spec_weighted_sum(entries.take(k + 1)))
}

/// Sums up the samples of `entries`, each counted as often as its entry
/// says, or returns `None` where the sum leaves the range of samples on the
/// way.
pub fn weighted_sum(entries: &Vec<(IntegralSample, usize)>) -> (sum: Option<IntegralSample>)
    ensures
        sum is Some <==> spec_sums_in_range(entries@),
        sum matches Some(total) ==> total == spec_weighted_sum(entries@),
{
    let mut total: i64 = 0;
    let mut index: usize = 0;
    while index < entries.len()
        invariant
            index <= entries@.len(),
            total == spec_weighted_sum(entries@.take(index as int)),
            forall|k: int|
                0 <= k < index ==> spec_is_sample(spec_share(#[trigger] entries@[k]))
                    && spec_is_sample(spec_weighted_sum(entries@.take(k + 1))),
        decreases entries@.len() - index,
    {
        let (sample, count) = entries[index];
        let ghost share = spec_share(entries@[index as int]);
        proof {
            assert(entries@.take(index + 1).drop_last() =~= entries@.take(index as int));
            assert(spec_weighted_sum(entries@.take(index + 1)) == total + share);
            assert(-0x8000_0000_0000_0000 * 0xffff_ffff_ffff_ffff <= share
                <= 0x7fff_ffff_ffff_ffff * 0xffff_ffff_ffff_ffff) by (nonlinear_arith)
                requires
                    share == sample * count,
                    -0x8000_0000_0000_0000 <= sample <= 0x7fff_ffff_ffff_ffff,
                    0 <= count <= 0xffff_ffff_ffff_ffff,
            ;
        }
        let product: i128 = sample as i128 * count as i128;
        if product < i64::MIN as i128 || product > i64::MAX as i128 {
            return None;
        }
        let grown: i128 = total as i128 + product;
        if grown < i64::MIN as i128 || grown > i64::MAX as i128 {
            return None;
        }
        total = grown as i64;
        index += 1;
    }
    proof {
        assert(entries@.take(entries@.len() as int) =~= entries@);
    }
    Some(total)
}

} // verus!
