use esp_radar::dsp::fft::{bit_reverse, next_pow2};
use esp_radar::dsp::filter::median5;
use esp_radar::dsp::metrics::dominant_bin;
use esp_radar::dsp::pca::Observations;
use esp_radar::dsp::transform::{select_subcarriers, smoothing_span, valid_bins, Normalizer};
use esp_radar::single::{at_least, exceeds, larger_of};

fn bits(v: &[f32]) -> Vec<u32> {
    v.iter().map(|x| x.to_bits()).collect()
}

#[test]
fn median_removes_spike() {
    let x = [1.0f32, 1.0, 100.0, 1.0, 1.0];
    let m = f32::from_bits(median5(x.map(|v| v.to_bits())));
    assert!((m - 1.0).abs() < 1e-6);
}

#[test]
fn median_orders_negative_values() {
    let x = [3.0f32, -2.0, 0.5, -7.25, 1.0];
    assert_eq!(f32::from_bits(median5(x.map(|v| v.to_bits()))), 0.5);
}

#[test]
fn valid_bins_exclude_dc_and_guards() {
    let bins = valid_bins();
    assert_eq!(bins.len(), 56);
    assert!(!bins.contains(&32), "DC bin must be excluded");
    assert!(!bins.contains(&0) && !bins.contains(&1) && !bins.contains(&63));
    assert_eq!(bins[0], 4);
    assert_eq!(bins[55], 60);
}

#[test]
fn dominant_freq_peak() {
    let mut power = vec![0.0f32; 32];
    power[3] = 50.0;
    let bin = dominant_bin(&bits(&power)).unwrap();
    let f = bin as f32 * 64.0 / (2.0 * 32.0);
    assert!((f - 3.0).abs() < 0.01, "dominant freq = {}", f);
}

#[test]
fn selection_takes_the_occupied_bins() {
    let buf: Vec<i8> = (0..128).map(|i| (i - 64) as i8).collect();
    let kept = select_subcarriers(&buf, false).unwrap();
    assert_eq!(kept.len(), 56);
    assert_eq!(kept[0], (8 - 64, 9 - 64));
    assert_eq!(kept[28], (66 - 64, 67 - 64));
    assert_eq!(kept[55], (120 - 64, 121 - 64));
}

#[test]
fn short_buffers_are_refused() {
    assert!(select_subcarriers(&[0i8; 121], false).is_none());
    assert!(select_subcarriers(&[0i8; 122], false).is_some());
}

#[test]
fn smoothing_stays_inside_the_channel() {
    assert_eq!(smoothing_span(0, 2), (0, 2));
    assert_eq!(smoothing_span(10, 2), (8, 12));
    assert_eq!(smoothing_span(55, 2), (53, 55));
    assert_eq!(Normalizer::default().scale[3], 1.0f32.to_bits());
}

#[test]
fn powers_of_two_round_up() {
    assert_eq!(next_pow2(1), 1);
    assert_eq!(next_pow2(5), 8);
    assert_eq!(next_pow2(64), 64);
}

#[test]
fn reversal_swaps_mirrored_places() {
    let mut v: Vec<u32> = (0..8).collect();
    bit_reverse(&mut v);
    assert_eq!(v, vec![0, 4, 2, 6, 1, 5, 3, 7]);
    bit_reverse(&mut v);
    assert_eq!(v, (0..8).collect::<Vec<u32>>());
}

#[test]
fn observations_slide() {
    let mut o = Observations::new(1, 4);
    for i in 0..3u32 {
        assert!(!o.update(vec![i]));
    }
    assert!(o.update(vec![3]));
    o.update(vec![4]);
    assert_eq!(o.count(), 4);
    let mut held: Vec<u32> = (0..4).map(|i| o.row(i)[0]).collect();
    held.sort();
    assert_eq!(held, vec![1, 2, 3, 4]);
    o.reset();
    assert_eq!(o.count(), 0);
}

#[test]
fn comparisons_agree_with_the_machine() {
    let values = [
        -0.0f32,
        0.0,
        1.0,
        -1.0,
        1e-40,
        -1e-40,
        3.5,
        f32::MAX,
        f32::MIN,
        f32::INFINITY,
        f32::NEG_INFINITY,
        f32::NAN,
    ];
    for a in values {
        for b in values {
            assert_eq!(exceeds(a.to_bits(), b.to_bits()), a > b, "{} > {}", a, b);
            assert_eq!(at_least(a.to_bits(), b.to_bits()), a >= b, "{} >= {}", a, b);
            let m = f32::from_bits(larger_of(a.to_bits(), b.to_bits()));
            if !a.is_nan() && !b.is_nan() {
                assert!(m == a.max(b));
            }
        }
    }
}
