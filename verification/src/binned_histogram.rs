use crate::histogram::Histogram;
use crate::IntegralSample;
use vstd::multiset::*;
use vstd::prelude::*;

verus! {

/// The sample that stands for bin `bin_index` of bins that are
/// `bin_interval` wide: the middle of the bin.
pub open spec fn spec_bin_sample(bin_interval: int, bin_index: int) -> int {
    bin_index * bin_interval + bin_interval / 2
}

/// A histogram over bins of a fixed width: every sample counts as the
/// middle of the bin that it falls into.
pub struct BinnedHistogram {
    histogram: Histogram,
    bin_interval: u64,
    bin_interval_center: u64,
}

impl View for BinnedHistogram {
    type V = Multiset<IntegralSample>;

    /// The bin middles recorded so far, each as often as it was recorded.
    closed spec fn view(&self) -> Multiset<IntegralSample> {
        self.histogram@
    }
}

impl BinnedHistogram {
    /// Width of a bin.
    pub closed spec fn bin_interval(&self) -> nat {
        self.bin_interval as nat
    }

    /// The histogram inside is in order and the middle is half a bin.
    pub closed spec fn well_formed(&self) -> bool {
        &&& self.histogram.well_formed()
        &&& self.bin_interval_center == self.bin_interval / 2
    }

    /// Creates an empty histogram with bins of the given whole-number width.
    pub fn new(bin_interval: u64) -> (histogram: BinnedHistogram)
        ensures
            histogram.well_formed(),
            histogram.bin_interval() == bin_interval,
            histogram@ == Multiset::<IntegralSample>::empty(),
    {
        BinnedHistogram {
            histogram: Histogram::new(),
            bin_interval,
            bin_interval_center: bin_interval / 2,
        }
    }

    /// Width of a bin.
    pub fn interval(&self) -> (width: u64)
        ensures
            width == self.bin_interval(),
    {
        self.bin_interval
    }

    /// The histogram of the bin middles.
    pub fn histogram(&self) -> (inner: &Histogram)
        requires
            self.well_formed(),
        ensures
            inner.well_formed(),
            inner@ == self@,
    {
        &self.histogram
    }

    /// The sample that stands for bin `bin_index`, or `None` where it is
    /// not a sample value.
    pub fn bin_sample(&self, bin_index: i64) -> (sample: Option<IntegralSample>)
        requires
            self.well_formed(),
        ensures
            sample is Some <==> i64::MIN <= spec_bin_sample(
                self.bin_interval() as int,
                bin_index as int,
            ) <= i64::MAX,
            sample matches Some(middle) ==> middle == spec_bin_sample(
                self.bin_interval() as int,
                bin_index as int,
            ),
    {
        let index = bin_index as i128;
        let interval = self.bin_interval as i128;
        let center = self.bin_interval_center as i128;
        assert(-0x8000_0000_0000_0000 * 0xffff_ffff_ffff_ffff <= index * interval
            <= 0x7fff_ffff_ffff_ffff * 0xffff_ffff_ffff_ffff) by (nonlinear_arith)
            requires
                -0x8000_0000_0000_0000 <= index <= 0x7fff_ffff_ffff_ffff,
                0 <= interval <= 0xffff_ffff_ffff_ffff,
        ;
        let middle = index * interval + center;
        if middle < i64::MIN as i128 || middle > i64::MAX as i128 {
            None
        } else {
            Some(middle as i64)
        }
    }

    /// Records one sample that falls into bin `bin_index`, as the middle of
    /// that bin, and returns the recorded value. Where the middle is not a
    /// sample value nothing is recorded and `None` is returned.
    pub fn append_bin(&mut self, bin_index: i64) -> (recorded: Option<IntegralSample>)
        requires
            old(self).well_formed(),
            old(self)@.len() < usize::MAX,
        ensures
            final(self).well_formed(),
            final(self).bin_interval() == old(self).bin_interval(),
            recorded is Some <==> i64::MIN <= spec_bin_sample(
                old(self).bin_interval() as int,
                bin_index as int,
            ) <= i64::MAX,
            match recorded {
                Some(middle) => middle == spec_bin_sample(
                    old(self).bin_interval() as int,
                    bin_index as int,
                ) && final(self)@ == old(self)@.insert(middle),
                None => final(self)@ == old(self)@,
            },
    {
        match self.bin_sample(bin_index) {
            Some(middle) => {
                self.histogram.append(middle);
                Some(middle)
            },
            None => None,
        }
    }
}

} // verus!
