use signal_processing::short_time_fourier::{
    FramePlacement, FrameSpan, ShortTimeAnalyser, ShortTimeSynthesiser,
};

fn placement(frame_index: usize, start: usize, gap: usize) -> FramePlacement {
    FramePlacement { frame_index, start, gap }
}

#[test]
fn test_analysis_total_frames() {
    let signal: Vec<_> = (0..11025).map(|x| x as f64).collect();
    let analyser = ShortTimeAnalyser::new(signal.len(), 120, 128);
    assert_eq!(analyser.total_frames(), analyser.calculate_all().len());
    assert_eq!(analyser.total_frames(), 1363);
}

#[test]
fn frames_advance_by_the_frame_spacing() {
    let analyser = ShortTimeAnalyser::new(8, 2, 4);
    assert_eq!(analyser.frame_spacing(), 2);
    assert_eq!(analyser.total_frames(), 3);
    assert_eq!(
        analyser.calculate_all(),
        vec![
            FrameSpan { start: 0, end: 4 },
            FrameSpan { start: 2, end: 6 },
            FrameSpan { start: 4, end: 8 },
        ]
    );
    assert_eq!(analyser.calculate_frame(1), FrameSpan { start: 2, end: 6 });
}

#[test]
fn a_signal_of_one_window_has_one_frame() {
    let analyser = ShortTimeAnalyser::new(4, 3, 4);
    assert_eq!(analyser.total_frames(), 1);
    assert_eq!(analyser.calculate_all(), vec![FrameSpan { start: 0, end: 4 }]);
}

#[test]
fn a_tail_shorter_than_the_spacing_is_not_read() {
    let analyser = ShortTimeAnalyser::new(10, 0, 4);
    assert_eq!(analyser.total_frames(), 2);
    assert_eq!(analyser.calculate_frame(1), FrameSpan { start: 4, end: 8 });
    let analyser = ShortTimeAnalyser::new(12, 0, 4);
    assert_eq!(analyser.total_frames(), 3);
}

#[test]
fn every_frame_is_a_full_window_inside_the_signal() {
    for signal_length in 5..40 {
        for overlap in 0..5 {
            let analyser = ShortTimeAnalyser::new(signal_length, overlap, 5);
            let spans = analyser.calculate_all();
            assert_eq!(spans.len(), (signal_length - 5) / (5 - overlap) + 1);
            for (index, span) in spans.iter().enumerate() {
                assert_eq!(span.start, index * (5 - overlap));
                assert_eq!(span.end - span.start, 5);
                assert!(span.end <= signal_length);
            }
            assert!(spans[spans.len() - 1].end + (5 - overlap) > signal_length);
        }
    }
}

#[test]
fn the_buffer_starts_with_the_overlap() {
    let synthesiser = ShortTimeSynthesiser::new(2, 4);
    assert_eq!(synthesiser.buffered_samples(), 2);
    assert_eq!(synthesiser.frame_spacing(), 2);
    assert_eq!(ShortTimeSynthesiser::new(0, 7).flush_all(), 0);
}

#[test]
fn pushed_frames_are_placed_in_rounds() {
    let mut synthesiser = ShortTimeSynthesiser::new(2, 4);
    let rounds = synthesiser.push_frames(3);
    assert_eq!(rounds, vec![vec![placement(0, 0, 0), placement(2, 4, 0)], vec![placement(1, 2, 2)]]);
    assert_eq!(synthesiser.buffered_samples(), 8);

    assert_eq!(synthesiser.flush_ready(), 2);
    assert_eq!(synthesiser.buffered_samples(), 6);
    assert_eq!(synthesiser.flush_ready(), 0);

    let rounds = synthesiser.push_frames(1);
    assert_eq!(rounds, vec![vec![placement(0, 4, 4)], vec![]]);
    assert_eq!(synthesiser.buffered_samples(), 8);
    assert_eq!(synthesiser.flush_all(), 8);
}

#[test]
fn the_number_of_rounds_is_the_rounded_up_overlap_factor() {
    for (overlap, width, rounds) in [(0, 4, 1), (2, 4, 2), (3, 4, 4), (2, 5, 2), (1, 5, 2), (4, 5, 5)] {
        let mut synthesiser = ShortTimeSynthesiser::new(overlap, width);
        assert_eq!(synthesiser.push_frames(0).len(), rounds);
        assert_eq!(synthesiser.buffered_samples(), overlap);
    }
}

#[test]
fn a_window_that_the_spacing_does_not_divide() {
    let mut synthesiser = ShortTimeSynthesiser::new(2, 5);
    let rounds = synthesiser.push_frames(5);
    assert_eq!(
        rounds,
        vec![
            vec![placement(0, 0, 0), placement(2, 6, 1), placement(4, 12, 1)],
            vec![placement(1, 3, 3), placement(3, 9, 1)],
        ]
    );
    assert_eq!(synthesiser.buffered_samples(), 17);
}

#[test]
fn every_frame_is_placed_once_and_rounds_do_not_collide() {
    for width in 1..9 {
        for overlap in 0..width {
            for frame_count in 0..12 {
                let mut synthesiser = ShortTimeSynthesiser::new(overlap, width);
                let rounds = synthesiser.push_frames(frame_count);
                let buffered = synthesiser.buffered_samples();
                assert_eq!(buffered, overlap + (width - overlap) * frame_count);
                let mut seen = vec![0; frame_count];
                for round in &rounds {
                    for (position, placement) in round.iter().enumerate() {
                        seen[placement.frame_index] += 1;
                        assert_eq!(placement.start, placement.frame_index * (width - overlap));
                        assert!(placement.start + width <= buffered);
                        if position > 0 {
                            assert!(round[position - 1].start + width <= placement.start);
                            assert_eq!(
                                round[position - 1].start + width + placement.gap,
                                placement.start
                            );
                        } else {
                            assert_eq!(placement.gap, placement.start);
                        }
                    }
                }
                assert!(seen.iter().all(|count| *count == 1));
            }
        }
    }
}

#[test]
fn flushing_keeps_one_window_and_the_overlap() {
    let mut synthesiser = ShortTimeSynthesiser::new(3, 4);
    synthesiser.push_frames(10);
    assert_eq!(synthesiser.buffered_samples(), 13);
    assert_eq!(synthesiser.flush_ready(), 6);
    assert_eq!(synthesiser.buffered_samples(), 7);
    let rounds = synthesiser.push_frames(1);
    assert_eq!(rounds[0], vec![placement(0, 4, 4)]);
    assert_eq!(synthesiser.flush_ready(), 1);
}

#[test]
fn the_interior_is_covered_by_as_many_frames_as_the_overlap_factor() {
    for (overlap, width) in [(0usize, 4usize), (2, 4), (3, 4), (4, 6), (8, 12)] {
        let spacing = width - overlap;
        let analyser = ShortTimeAnalyser::new(50, overlap, width);
        let spans = analyser.calculate_all();
        for position in overlap..spans.len() * spacing {
            let covering: Vec<usize> = (0..spans.len())
                .filter(|index| spans[*index].start <= position && position < spans[*index].end)
                .collect();
            let last = position / spacing;
            let expected: Vec<usize> = (last + 1 - width / spacing..=last).collect();
            assert_eq!(covering, expected);
        }
    }
}
