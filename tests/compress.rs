use std::collections::VecDeque;

use sparktop::render::{compress_history, Bar, Marker};

fn make_history(len: usize) -> VecDeque<u64> {
    (0..len).map(|i| i as u64).collect()
}

fn mean(b: &Bar) -> f64 {
    b.sum as f64 / b.count as f64
}

#[test]
fn test_compress_empty() {
    let hist = VecDeque::new();
    let (compressed, scheme) = compress_history(&hist, 100);
    assert_eq!(compressed.len(), 0);
    assert_eq!(scheme.tier0_bars, 0);
    assert_eq!(scheme.tier1_bars, 0);
    assert_eq!(scheme.tier2_bars, 0);
}

#[test]
fn test_compress_zero_width() {
    let hist = make_history(600);
    let (compressed, scheme) = compress_history(&hist, 0);
    assert_eq!(compressed.len(), 0);
    assert_eq!(scheme.tier0_bars, 0);
}

#[test]
fn test_compress_full_history_ideal_width() {
    let hist = make_history(600);
    let (compressed, scheme) = compress_history(&hist, 200);
    assert_eq!(scheme.tier0_bars, 120);
    assert!(scheme.tier1_bars > 0);
    assert!(scheme.tier2_bars > 0);
    assert_eq!(compressed.len(), 200);
    assert_eq!(
        scheme.tier0_bars + scheme.tier1_bars + scheme.tier2_bars,
        200
    );
}

#[test]
fn test_compress_very_narrow_width_1() {
    let hist = make_history(600);
    let (compressed, scheme) = compress_history(&hist, 1);
    assert_eq!(scheme.tier0_bars, 1);
    assert_eq!(scheme.tier1_bars, 0);
    assert_eq!(scheme.tier2_bars, 0);
    assert_eq!(compressed.len(), 1);
    let expected_avg = (0..120).sum::<usize>() as f64 / 120.0;
    assert!((mean(&compressed[0]) - expected_avg).abs() < 0.1);
}

#[test]
fn test_compress_very_narrow_width_2() {
    let hist = make_history(600);
    let (compressed, scheme) = compress_history(&hist, 2);
    assert_eq!(scheme.tier0_bars, 1);
    assert_eq!(scheme.tier1_bars, 1);
    assert_eq!(scheme.tier2_bars, 0);
    assert_eq!(compressed.len(), 2);
}

#[test]
fn test_compress_very_narrow_width_3() {
    let hist = make_history(600);
    let (compressed, scheme) = compress_history(&hist, 3);
    assert_eq!(scheme.tier0_bars, 1);
    assert_eq!(scheme.tier1_bars, 1);
    assert_eq!(scheme.tier2_bars, 1);
    assert_eq!(compressed.len(), 3);
    println!(
        "Width=3: tier0={}, tier1={}, tier2={}",
        scheme.tier0_bars, scheme.tier1_bars, scheme.tier2_bars
    );
}

#[test]
fn test_compress_narrow_width_10() {
    let hist = make_history(600);
    let (compressed, scheme) = compress_history(&hist, 10);
    assert!(scheme.tier0_bars >= 1);
    assert!(scheme.tier1_bars >= 1);
    assert!(scheme.tier2_bars >= 1);
    assert_eq!(
        scheme.tier0_bars + scheme.tier1_bars + scheme.tier2_bars,
        10
    );
    assert_eq!(compressed.len(), 10);
    println!(
        "Width=10: tier0={}, tier1={}, tier2={}",
        scheme.tier0_bars, scheme.tier1_bars, scheme.tier2_bars
    );
}

#[test]
fn test_compress_medium_width_50() {
    let hist = make_history(600);
    let (compressed, scheme) = compress_history(&hist, 50);
    assert!(scheme.tier0_bars > scheme.tier1_bars);
    assert!(scheme.tier1_bars > scheme.tier2_bars);
    assert_eq!(
        scheme.tier0_bars + scheme.tier1_bars + scheme.tier2_bars,
        50
    );
    assert_eq!(compressed.len(), 50);
    println!(
        "Width=50: tier0={}, tier1={}, tier2={}",
        scheme.tier0_bars, scheme.tier1_bars, scheme.tier2_bars
    );
}

#[test]
fn test_compress_only_tier0_data() {
    let hist = make_history(60);
    let (compressed, scheme) = compress_history(&hist, 100);
    assert_eq!(scheme.tier0_bars, 60);
    assert_eq!(scheme.tier1_bars, 0);
    assert_eq!(scheme.tier2_bars, 0);
    assert_eq!(compressed.len(), 60);
}

#[test]
fn test_compress_tier0_and_tier1_only() {
    let hist = make_history(200);
    let (compressed, scheme) = compress_history(&hist, 200);
    assert_eq!(scheme.tier0_bars, 120);
    assert_eq!(scheme.tier1_bars, 80);
    assert_eq!(scheme.tier2_bars, 0);
    assert_eq!(compressed.len(), 200);
    assert_eq!(scheme.tier0_bars + scheme.tier1_bars, 200);
}

#[test]
fn test_all_samples_covered() {
    let hist: VecDeque<u64> = (0..600).map(|i| if i < 10 { 100 } else { 0 }).collect();
    let (compressed, _) = compress_history(&hist, 50);
    assert!(mean(&compressed[0]) > 10.0, "First bar should capture the spike");
    assert_eq!(compressed.len(), 50);
}

#[test]
fn test_visual_markers_match_bars() {
    let hist = make_history(600);
    let (_, scheme) = compress_history(&hist, 30);
    let markers = scheme.visual_markers();
    assert_eq!(
        markers.len(),
        scheme.tier0_bars + scheme.tier1_bars + scheme.tier2_bars
    );
    assert_eq!(markers.len(), 30);
}

#[test]
fn test_all_narrow_widths_show_all_tiers() {
    let hist = make_history(600);
    for width in 3..20 {
        let (compressed, scheme) = compress_history(&hist, width);
        assert!(
            scheme.tier2_bars >= 1,
            "Width {} should show tier2, got tier0={}, tier1={}, tier2={}",
            width,
            scheme.tier0_bars,
            scheme.tier1_bars,
            scheme.tier2_bars
        );
        assert_eq!(
            compressed.len(),
            width,
            "Width {} should produce {} bars, got {}",
            width,
            width,
            compressed.len()
        );
    }
}

#[test]
fn test_always_fills_available_width_with_full_history() {
    let hist = make_history(600);
    for width in 1..600 {
        let (compressed, scheme) = compress_history(&hist, width);
        let total_bars = scheme.tier0_bars + scheme.tier1_bars + scheme.tier2_bars;
        assert_eq!(
            compressed.len(),
            width,
            "Width {}: compressed.len()={} but should be {}",
            width,
            compressed.len(),
            width
        );
        assert_eq!(
            total_bars, width,
            "Width {}: total_bars={} but should be {}",
            width, total_bars, width
        );
    }
}

#[test]
fn test_fills_width_with_partial_history() {
    let hist = make_history(100);
    for width in 1..=100 {
        let (compressed, _) = compress_history(&hist, width);
        assert_eq!(
            compressed.len(),
            width,
            "Width {}: compressed.len()={} but should fill {} available width",
            width,
            compressed.len(),
            width
        );
    }
    for width in 101..150 {
        let (compressed, _) = compress_history(&hist, width);
        assert_eq!(
            compressed.len(),
            100,
            "Width {}: compressed.len()={} but should cap at 100 (num samples)",
            width,
            compressed.len()
        );
    }
}

#[test]
fn test_tier0_never_compressed_when_possible() {
    let hist = make_history(600);
    for width in 120..300 {
        let (compressed, scheme) = compress_history(&hist, width);
        assert_eq!(
            scheme.tier0_bars, 120,
            "Width {}: tier0 should be full resolution (120 bars), got {}",
            width, scheme.tier0_bars
        );
        for i in 0..120 {
            assert_eq!(
                mean(&compressed[i]),
                i as f64,
                "Width {}: tier0 bar {} should be sample {} uncompressed",
                width,
                i,
                i
            );
        }
    }
}

#[test]
fn test_very_small_width_shows_all_tiers() {
    let hist = make_history(600);
    for width in 5..20 {
        let (_compressed, scheme) = compress_history(&hist, width);
        assert!(
            scheme.tier0_bars >= 1,
            "Width {}: tier0 should have at least 1 bar, got {}",
            width,
            scheme.tier0_bars
        );
        assert!(
            scheme.tier1_bars >= 1,
            "Width {}: tier1 should have at least 1 bar, got {}",
            width,
            scheme.tier1_bars
        );
        assert!(
            scheme.tier2_bars >= 1,
            "Width {}: tier2 should have at least 1 bar, got {}",
            width,
            scheme.tier2_bars
        );
        println!(
            "Width {}: tier0={}, tier1={}, tier2={}",
            width, scheme.tier0_bars, scheme.tier1_bars, scheme.tier2_bars
        );
    }
}

#[test]
fn test_small_window_small_history_should_compress() {
    for width in 5..=15 {
        for hist_len in width..=(width + 10) {
            let hist = make_history(hist_len);
            let (compressed, scheme) = compress_history(&hist, width);
            let expected_len = hist_len.min(width);
            assert_eq!(
                compressed.len(),
                expected_len,
                "width={}, hist_len={}: compressed length should be {}",
                width,
                hist_len,
                expected_len
            );
            let markers = scheme.visual_markers();
            let total_bars = scheme.tier0_bars + scheme.tier1_bars + scheme.tier2_bars;
            assert_eq!(
                markers.len(),
                total_bars,
                "width={}, hist_len={}: markers should match total bars",
                width,
                hist_len
            );
            let visible_markers = markers.iter().filter(|m| **m != Marker::Blank).count();
            if hist_len > width {
                let tier0_visible =
                    if scheme.tier0_bars > 0 && scheme.tier0_bars < scheme.tier0_samples {
                        scheme.tier0_bars
                    } else {
                        0
                    };
                let tier1_visible =
                    if scheme.tier1_bars > 0 && scheme.tier1_bars < scheme.tier1_samples {
                        scheme.tier1_bars
                    } else {
                        0
                    };
                let tier2_visible =
                    if scheme.tier2_bars > 0 && scheme.tier2_bars < scheme.tier2_samples {
                        scheme.tier2_bars
                    } else {
                        0
                    };
                let expected_visible = tier0_visible + tier1_visible + tier2_visible;
                assert_eq!(
                    visible_markers, expected_visible,
                    "width={}, hist_len={}: expected {} visible compression markers but got {}",
                    width, hist_len, expected_visible, visible_markers
                );
            }
        }
    }
}

#[test]
fn test_small_window_long_tier0_history() {
    let hist = make_history(30);
    let (compressed, _scheme) = compress_history(&hist, 10);
    assert_eq!(compressed.len(), 10);
}

#[test]
fn test_compression_markers_visible_on_narrow_windows() {
    let hist = make_history(600);
    for width in 5..30 {
        let (_, scheme) = compress_history(&hist, width);
        let markers = scheme.visual_markers();
        let visible_markers = markers.iter().filter(|m| **m != Marker::Blank).count();
        assert!(
            visible_markers > 0,
            "Width {}: should have visible compression markers, got {} visible out of {} total",
            width,
            visible_markers,
            markers.len()
        );
        println!(
            "Width {}: {} visible markers out of {} total (tier0={}, tier1={}, tier2={})",
            width,
            visible_markers,
            markers.len(),
            scheme.tier0_bars,
            scheme.tier1_bars,
            scheme.tier2_bars
        );
    }
}

#[test]
fn test_samples_never_expanded() {
    let hist = make_history(600);
    for width in 600..1000 {
        let (_compressed, scheme) = compress_history(&hist, width);
        let total_bars = scheme.tier0_bars + scheme.tier1_bars + scheme.tier2_bars;
        assert!(
            total_bars <= 600,
            "Width {}: total_bars={} should not exceed 600 samples",
            width,
            total_bars
        );
        assert!(
            scheme.tier0_bars <= 120,
            "Width {}: tier0_bars={} should not exceed 120 samples",
            width,
            scheme.tier0_bars
        );
        assert!(
            scheme.tier1_bars <= 180,
            "Width {}: tier1_bars={} should not exceed 180 samples",
            width,
            scheme.tier1_bars
        );
        assert!(
            scheme.tier2_bars <= 300,
            "Width {}: tier2_bars={} should not exceed 300 samples",
            width,
            scheme.tier2_bars
        );
    }
}

#[test]
fn test_scheme_never_has_more_bars_than_samples() {
    let hist = make_history(600);
    for width in 1..700 {
        let (_, scheme) = compress_history(&hist, width);
        assert!(
            scheme.tier0_bars <= scheme.tier0_samples,
            "Width {}: tier0_bars ({}) > tier0_samples ({})",
            width,
            scheme.tier0_bars,
            scheme.tier0_samples
        );
        if scheme.tier1_bars > 0 {
            assert!(
                scheme.tier1_bars <= scheme.tier1_samples,
                "Width {}: tier1_bars ({}) > tier1_samples ({})",
                width,
                scheme.tier1_bars,
                scheme.tier1_samples
            );
        }
        if scheme.tier2_bars > 0 {
            assert!(
                scheme.tier2_bars <= scheme.tier2_samples,
                "Width {}: tier2_bars ({}) > tier2_samples ({})",
                width,
                scheme.tier2_bars,
                scheme.tier2_samples
            );
        }
    }
}

#[test]
fn test_partial_history_never_stretches() {
    let hist = make_history(60);
    for width in 1..200 {
        let (compressed, scheme) = compress_history(&hist, width);
        let total_bars = scheme.tier0_bars + scheme.tier1_bars + scheme.tier2_bars;
        assert!(
            total_bars <= 60,
            "Width {}: total_bars={} exceeds 60 samples",
            width,
            total_bars
        );
        assert!(
            compressed.len() <= 60,
            "Width {}: compressed.len()={} exceeds 60 samples",
            width,
            compressed.len()
        );
    }
}

#[test]
fn test_smoother_compression_ramp() {
    let hist = make_history(600);
    let (_, scheme) = compress_history(&hist, 130);
    assert_eq!(scheme.tier0_bars, 120);
    let tier1_ratio = if scheme.tier1_bars > 0 {
        scheme.tier1_samples as f64 / scheme.tier1_bars as f64
    } else {
        0.0
    };
    let tier2_ratio = if scheme.tier2_bars > 0 {
        scheme.tier2_samples as f64 / scheme.tier2_bars as f64
    } else {
        0.0
    };
    println!(
        "Width 130: tier1={}x ({}\u{2192}{}), tier2={}x ({}\u{2192}{})",
        tier1_ratio,
        scheme.tier1_samples,
        scheme.tier1_bars,
        tier2_ratio,
        scheme.tier2_samples,
        scheme.tier2_bars
    );
    assert!(
        scheme.tier1_bars >= 6,
        "tier1 should get majority of remaining width"
    );
    assert!(
        tier1_ratio <= 30.0,
        "tier1 compression {}x too extreme",
        tier1_ratio
    );
    if scheme.tier2_bars > 0 {
        assert!(
            tier2_ratio <= 100.0,
            "tier2 compression {}x too extreme",
            tier2_ratio
        );
    }
}
