use vvcore::analysis::{count_valid, envelope_bounds, peak_intervals, signal_quality_ppm, trough_pairs};

#[test]
fn valid_flags_are_counted() {
    assert_eq!(count_valid(&vec![]), 0);
    assert_eq!(count_valid(&vec![true, false, true, true]), 3);
}

#[test]
fn quality_formula() {
    // 3 valid of 4, at least 5.5 expected: 3 / 5.5
    assert_eq!(signal_quality_ppm(3, 4, 5_500), 545_454);
    // expected fewer than found: 3 / 4
    assert_eq!(signal_quality_ppm(3, 4, 2_000), 750_000);
    assert_eq!(signal_quality_ppm(4, 4, 0), 1_000_000);
    // nothing found and nothing expected counts as no quality
    assert_eq!(signal_quality_ppm(0, 0, 0), 0);
}

#[test]
fn quality_monotone_on_examples() {
    let m = 7_250;
    for t in 0..12u64 {
        for v in 0..=t {
            let q = signal_quality_ppm(v, t, m);
            assert!(signal_quality_ppm(v + 1, t + 1, m) >= q);
            if v > 0 {
                assert!(signal_quality_ppm(v - 1, t, m) <= q);
            }
        }
    }
}

#[test]
fn intervals_between_peaks() {
    assert_eq!(peak_intervals(&vec![]), Vec::<usize>::new());
    assert_eq!(peak_intervals(&vec![4]), Vec::<usize>::new());
    assert_eq!(peak_intervals(&vec![4, 36, 68, 99]), vec![32, 32, 31]);
}

#[test]
fn pulses_between_troughs() {
    assert_eq!(trough_pairs(&vec![3, 30, 61]), vec![(3, 30), (30, 61)]);
    assert!(trough_pairs(&vec![3]).is_empty());
}

#[test]
fn envelope_windows() {
    // 23 samples: 11 on each side
    assert_eq!(envelope_bounds(50, 100, 23), (39, 61));
    // an even length is rounded up to the next odd one
    assert_eq!(envelope_bounds(50, 100, 4), (48, 52));
    assert_eq!(envelope_bounds(1, 100, 23), (0, 12));
    assert_eq!(envelope_bounds(98, 100, 23), (87, 99));
    assert_eq!(envelope_bounds(0, 1, 0), (0, 0));
}
