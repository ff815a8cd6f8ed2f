use signal_processing::binned_histogram::BinnedHistogram;
use signal_processing::histogram::{weighted_sum, Histogram};

fn slice_mean(samples: &[f64]) -> f64 {
    let sum: f64 = samples.iter().sum();
    sum / samples.len() as f64
}

fn slice_variance(samples: &[f64]) -> f64 {
    let mean = slice_mean(samples);
    let square_sum: f64 = samples.iter().map(|x| x - mean).map(|x| x * x).sum();
    square_sum / (samples.len() - 1) as f64
}

fn slice_standard_deviation(samples: &[f64]) -> f64 {
    slice_variance(samples).sqrt()
}

fn mean(histogram: &Histogram) -> f64 {
    let sum = weighted_sum(&histogram.entries()).expect("a sum in the range of samples");
    sum as f64 / histogram.sample_count() as f64
}

fn variance(histogram: &Histogram) -> f64 {
    let mean = mean(histogram);
    let square_sum: f64 = histogram
        .entries()
        .iter()
        .map(|(x, count)| (*x as f64 - mean, count))
        .map(|(x, count)| (x * x) * *count as f64)
        .sum();
    square_sum / (histogram.sample_count() - 1) as f64
}

fn standard_deviation(histogram: &Histogram) -> f64 {
    variance(histogram).sqrt()
}

fn append_binned(histogram: &mut BinnedHistogram, sample: f64) {
    let bin_index = (sample / histogram.interval() as f64).round() as i64;
    histogram.append_bin(bin_index).expect("a bin in the range of samples");
}

#[test]
fn test_histogram() {
    let mut histogram = Histogram::new();
    histogram.append(0);
    assert_eq!(mean(&histogram), 0.0);
    assert!(variance(&histogram).is_nan());
    assert!(standard_deviation(&histogram).is_nan());

    histogram.append(1);
    assert_eq!(mean(&histogram), 0.5);
    assert_eq!(variance(&histogram), slice_variance(&[0.0, 1.0]));
    assert_eq!(standard_deviation(&histogram), slice_standard_deviation(&[0.0, 1.0]));

    histogram.append(1);
    assert_eq!(mean(&histogram), 2.0 / 3.0);
    assert_eq!(variance(&histogram), slice_variance(&[0.0, 1.0, 1.0]));
    assert_eq!(standard_deviation(&histogram), slice_standard_deviation(&[0.0, 1.0, 1.0]));
}

#[test]
fn test_binned_histogram() {
    let mut histogram = BinnedHistogram::new(1000);
    append_binned(&mut histogram, 0.0);
    assert_eq!(mean(histogram.histogram()), 500.0);
    assert!(variance(histogram.histogram()).is_nan());

    append_binned(&mut histogram, 1000.0);
    assert_eq!(mean(histogram.histogram()), slice_mean(&[500.0, 1500.0]));
    assert_eq!(variance(histogram.histogram()), slice_variance(&[500.0, 1500.0]));

    append_binned(&mut histogram, -1000.0);
    assert_eq!(mean(histogram.histogram()), slice_mean(&[-500.0, 500.0, 1500.0]));
    assert_eq!(variance(histogram.histogram()), slice_variance(&[-500.0, 500.0, 1500.0]));
}

#[test]
fn a_new_histogram_is_empty() {
    let histogram = Histogram::new();
    assert_eq!(histogram.sample_count(), 0);
    assert_eq!(histogram.occurrences(0), 0);
    assert!(histogram.entries().is_empty());
}

#[test]
fn appending_counts_each_sample() {
    let mut histogram = Histogram::new();
    for sample in [5, -3, 5, 5, i64::MIN, -3, i64::MAX] {
        histogram.append(sample);
    }
    assert_eq!(histogram.sample_count(), 7);
    assert_eq!(histogram.occurrences(5), 3);
    assert_eq!(histogram.occurrences(-3), 2);
    assert_eq!(histogram.occurrences(4), 0);
    assert_eq!(histogram.entries(), vec![(i64::MIN, 1), (-3, 2), (5, 3), (i64::MAX, 1)]);
}

#[test]
fn a_bin_counts_as_its_middle() {
    let mut histogram = BinnedHistogram::new(1000);
    assert_eq!(histogram.interval(), 1000);
    assert_eq!(histogram.bin_sample(3), Some(3500));
    assert_eq!(histogram.append_bin(0), Some(500));
    assert_eq!(histogram.append_bin(1), Some(1500));
    assert_eq!(histogram.append_bin(-1), Some(-500));
    assert_eq!(histogram.append_bin(1), Some(1500));
    assert_eq!(histogram.histogram().entries(), vec![(-500, 1), (500, 1), (1500, 2)]);
}

#[test]
fn the_middle_of_an_odd_bin_is_rounded_down() {
    let histogram = BinnedHistogram::new(7);
    assert_eq!(histogram.bin_sample(0), Some(3));
    assert_eq!(histogram.bin_sample(-2), Some(-11));
    assert_eq!(BinnedHistogram::new(0).bin_sample(5), Some(0));
}

#[test]
fn a_bin_outside_the_samples_is_not_recorded() {
    let mut histogram = BinnedHistogram::new(u64::MAX);
    assert_eq!(histogram.append_bin(i64::MAX), None);
    assert_eq!(histogram.append_bin(1), None);
    assert_eq!(histogram.append_bin(-1), Some(-(i64::MAX) - 1));
    assert_eq!(histogram.append_bin(0), Some(i64::MAX));
    assert_eq!(histogram.histogram().sample_count(), 2);

    let mut histogram = BinnedHistogram::new(2);
    assert_eq!(histogram.append_bin(i64::MAX / 2), Some(i64::MAX));
    assert_eq!(histogram.append_bin(i64::MAX / 2 + 1), None);
    assert_eq!(histogram.append_bin(i64::MIN / 2), Some(i64::MIN + 1));
    assert_eq!(histogram.append_bin(i64::MIN / 2 - 1), None);
}

#[test]
fn the_sum_counts_each_sample_as_often_as_it_occurs() {
    assert_eq!(weighted_sum(&vec![]), Some(0));
    assert_eq!(weighted_sum(&vec![(2, 3), (-1, 4)]), Some(2));
    assert_eq!(weighted_sum(&vec![(7, 0), (i64::MIN, 1)]), Some(i64::MIN));
    let mut histogram = Histogram::new();
    for sample in [5, -3, 5, 5, -3, 100] {
        histogram.append(sample);
    }
    assert_eq!(weighted_sum(&histogram.entries()), Some(109));
}

#[test]
fn a_sum_that_leaves_the_range_of_samples() {
    assert_eq!(weighted_sum(&vec![(i64::MAX, 2)]), None);
    assert_eq!(weighted_sum(&vec![(1, usize::MAX)]), None);
    assert_eq!(weighted_sum(&vec![(i64::MAX, 1), (1, 1)]), None);
    assert_eq!(weighted_sum(&vec![(i64::MAX, 1), (1, 1), (-5, 1)]), None);
    assert_eq!(weighted_sum(&vec![(-5, 1), (1, 1), (i64::MAX, 1)]), Some(i64::MAX - 4));
    assert_eq!(weighted_sum(&vec![(i64::MIN, 1), (-1, 1)]), None);
    assert_eq!(weighted_sum(&vec![(i64::MIN / 2, 2)]), Some(i64::MIN));
}
