use std::collections::VecDeque;

use sparktop::event::{step, Event, Step};
use sparktop::render::{
    allocate, bar_glyph, compress_history, cpu_color, render_vec, render_vec_colored, Bar,
    Cell, CompressionScheme, CpuColor, Marker,
};
use sparktop::sproc::{ewma, push_sample, DeadStatus, ProcSample, SProc};
use sparktop::sprocs::SProcs;
use sparktop::view_state::{
    render_metric, Action, Dir, DisplayColumn, DisplayedColumns, KeyCode, KeyEvent,
    SortColumn, ViewState,
};

fn make_history(len: usize) -> VecDeque<u64> {
    (0..len).map(|i| i as u64).collect()
}

fn sample(pid: u32, cpu: u64) -> ProcSample {
    ProcSample {
        pid,
        name: format!("proc{}", pid),
        cpu,
        mem_kb: 2048,
        disk_read_bytes: 10,
        disk_write_bytes: 20,
    }
}

fn find(table: &SProcs, pid: u32) -> Option<&SProc> {
    table.get().iter().find(|p| p.pid == pid)
}

fn key(c: char) -> KeyEvent {
    KeyEvent { code: KeyCode::Char(c), description: format!("'{}'", c) }
}

#[test]
fn output_length_is_min_of_width_and_history() {
    let widths = [0usize, 1, 2, 3, 4, 5, 10, 50, 119, 120, 121, 200, 299, 300, 301, 314, 315, 599, 600, 601, 1000];
    for len in 0..=600 {
        let hist = make_history(len);
        for &width in widths.iter() {
            let (values, scheme) = compress_history(&hist, width);
            assert_eq!(values.len(), width.min(len), "len {} width {}", len, width);
            assert!(scheme.tier0_bars <= scheme.tier0_samples);
            assert!(scheme.tier1_bars <= scheme.tier1_samples);
            assert!(scheme.tier2_bars <= scheme.tier2_samples);
            assert!(values.iter().all(|b| b.count >= 1));
        }
    }
}

#[test]
fn short_third_tier_is_filled_without_stretching() {
    let hist = make_history(315);
    let (values, scheme) = compress_history(&hist, 314);
    assert_eq!(values.len(), 314);
    assert!(scheme.tier2_bars <= 15);
    let hist = make_history(301);
    let (values, scheme) = compress_history(&hist, 119);
    assert_eq!(values.len(), 119);
    assert!(scheme.tier2_bars <= 1);
    let hist = make_history(121);
    let (values, scheme) = compress_history(&hist, 100);
    assert_eq!(values.len(), 100);
    assert!(scheme.tier1_bars <= 1);
}

#[test]
fn tier0_is_raw_when_width_allows() {
    let hist = make_history(450);
    for width in [120usize, 130, 200, 449, 450, 700] {
        let (values, scheme) = compress_history(&hist, width);
        assert_eq!(scheme.tier0_bars, scheme.tier0_samples);
        for i in 0..scheme.tier0_samples {
            assert_eq!(values[i], Bar { sum: i as u128, count: 1 });
        }
    }
}

#[test]
fn width_equal_to_length_returns_samples_unchanged() {
    for len in [1usize, 7, 120, 121, 300, 301, 555, 600] {
        let hist: VecDeque<u64> = (0..len).map(|i| (i * 37 % 11) as u64).collect();
        let (values, _) = compress_history(&hist, len);
        let raw: Vec<u64> = values.iter().map(|b| {
            assert_eq!(b.count, 1);
            b.sum as u64
        }).collect();
        assert_eq!(raw, hist.iter().copied().collect::<Vec<u64>>());
    }
}

#[test]
fn full_history_fills_every_width_up_to_capacity() {
    let hist = make_history(600);
    for width in 1..=600 {
        let scheme = allocate(hist.len(), width);
        assert_eq!(scheme.tier0_bars + scheme.tier1_bars + scheme.tier2_bars, width);
    }
}

#[test]
fn single_bar_is_mean_of_newest_tier() {
    let hist = make_history(600);
    let (values, _) = compress_history(&hist, 1);
    assert_eq!(values.len(), 1);
    assert_eq!(values[0], Bar { sum: 7140, count: 120 });
    assert_eq!(values[0].sum as f64 / values[0].count as f64, 59.5);
}

#[test]
fn short_history_is_never_stretched() {
    let hist: VecDeque<u64> = (0..30).map(|i| 100 + i as u64).collect();
    let (values, scheme) = compress_history(&hist, 100);
    assert_eq!(values.len(), 30);
    assert_eq!(scheme.tier0_bars, 30);
    for i in 0..30 {
        assert_eq!(values[i], Bar { sum: 100 + i as u128, count: 1 });
    }
}

#[test]
fn width_three_gives_one_bar_per_tier() {
    let scheme = allocate(600, 3);
    assert_eq!(
        scheme,
        CompressionScheme {
            tier0_bars: 1,
            tier1_bars: 1,
            tier2_bars: 1,
            tier0_samples: 120,
            tier1_samples: 180,
            tier2_samples: 300,
        }
    );
}

#[test]
fn only_tier0_splits_recent_third() {
    let scheme = allocate(30, 10);
    assert_eq!(scheme.tier0_samples, 10);
    assert_eq!(scheme.tier1_samples, 20);
    assert_eq!(scheme.tier0_bars, 6);
    assert_eq!(scheme.tier1_bars, 4);
}

#[test]
fn bars_cover_even_ranges() {
    let hist = make_history(600);
    let (values, scheme) = compress_history(&hist, 200);
    assert_eq!(scheme.tier0_bars, 120);
    let total: u128 = values.iter().map(|b| b.count as u128).sum();
    assert_eq!(total, 600);
    let sum: u128 = values.iter().map(|b| b.sum).sum();
    assert_eq!(sum, (0..600u128).sum());
}

#[test]
fn markers_follow_tier_ratios() {
    let scheme = CompressionScheme {
        tier0_bars: 2,
        tier1_bars: 1,
        tier2_bars: 2,
        tier0_samples: 2,
        tier1_samples: 4,
        tier2_samples: 1,
    };
    assert_eq!(
        scheme.visual_markers(),
        vec![Marker::Blank, Marker::Blank, Marker::Compressed(1), Marker::Stretched, Marker::Stretched]
    );
    let glyphs: Vec<char> = scheme.visual_markers().iter().map(|m| m.glyph()).collect();
    assert_eq!(glyphs, vec![' ', ' ', 'o', '!', '!']);
    assert_eq!(Marker::Compressed(0).glyph(), '.');
    assert_eq!(Marker::Compressed(2).glyph(), 'O');
    let empty = allocate(0, 10);
    assert!(empty.visual_markers().is_empty());
}

#[test]
fn glyphs_quantize_ratio() {
    let g = |sum: u128, count: usize| bar_glyph(&Bar { sum, count }, 100);
    assert_eq!(g(0, 1), ' ');
    assert_eq!(g(2, 1), ' ');
    assert_eq!(g(3, 1), '\u{2581}');
    assert_eq!(g(12, 1), '\u{2581}');
    assert_eq!(g(13, 1), '\u{2582}');
    assert_eq!(g(50, 1), '\u{2584}');
    assert_eq!(g(88, 1), '\u{2588}');
    assert_eq!(g(100, 1), '\u{2588}');
    assert_eq!(g(500, 1), '\u{2588}');
    assert_eq!(g(100, 2), '\u{2584}');
    assert_eq!(render_vec(&vec![Bar { sum: 0, count: 1 }, Bar { sum: 100, count: 1 }], 100), " \u{2588}");
}

#[test]
fn cpu_colors_by_threshold() {
    assert_eq!(cpu_color(9_999), None);
    assert_eq!(cpu_color(10_000), Some(CpuColor::Red));
    assert_eq!(cpu_color(20_000), Some(CpuColor::LightMagenta));
    assert_eq!(cpu_color(40_000), Some(CpuColor::Magenta));
    let cells = render_vec_colored(&vec![Bar { sum: 30_000, count: 2 }, Bar { sum: 100, count: 1 }], 10_000);
    assert_eq!(
        cells,
        vec![
            Cell { glyph: '\u{2588}', color: Some(CpuColor::Red) },
            Cell { glyph: ' ', color: None },
        ]
    );
}

#[test]
fn ewma_laws() {
    for w in [0u64, 1, 250, 500, 999, 1000] {
        for x in [0u64, 1, 7, 1_000_000, u64::MAX] {
            assert_eq!(ewma(x, x, w), x);
        }
        for prev in [0u64, 3, 1000, 123_456_789] {
            assert_eq!(ewma(0, prev, w), prev * (1000 - w) / 1000);
        }
    }
    assert_eq!(ewma(100, 0, 500), 50);
    assert_eq!(ewma(u64::MAX, u64::MAX - 1, 500), u64::MAX - 1);
}

#[test]
fn push_sample_keeps_newest_first_and_bounded() {
    let mut d: VecDeque<u64> = VecDeque::new();
    for i in 0..10 {
        push_sample(&mut d, i, 4);
    }
    assert_eq!(d, VecDeque::from(vec![9, 8, 7, 6]));
}

#[test]
fn record_starts_from_first_sample() {
    let mut r = SProc::from(&sample(7, 5000));
    assert_eq!(r.cpu_ewma, 5000);
    assert_eq!(r.name, "proc7");
    assert!(!r.is_dead());
    r.add_sample(&sample(7, 1000), 500);
    assert_eq!(r.cpu_ewma, 3000);
    assert_eq!(r.cpu_hist, VecDeque::from(vec![1000, 5000]));
    assert_eq!(r.add_dead_sample(500), DeadStatus::StillFreshlyDead);
    assert_eq!(r.cpu_ewma, 1500);
    assert_eq!(r.mem_kb, 0);
    assert!(r.is_dead());
}

#[test]
fn lifecycle_of_records() {
    let mut table = SProcs::new();
    for _ in 0..5 {
        table.update(&vec![sample(1, 100), sample(2, 200)], 500);
        assert!(!find(&table, 1).unwrap().is_dead());
    }
    table.update(&vec![sample(1, 100)], 500);
    assert!(find(&table, 2).unwrap().is_dead());
    table.update(&vec![sample(1, 100), sample(2, 200)], 500);
    assert!(!find(&table, 2).unwrap().is_dead());
    for _ in 0..600 {
        table.update(&vec![sample(1, 100)], 500);
    }
    let gone = find(&table, 2).unwrap();
    assert!(gone.is_dead());
    assert_eq!(gone.cpu_hist.len(), 600);
    assert!(gone.cpu_hist.iter().all(|&c| c == 0));
    table.update(&vec![sample(1, 100)], 500);
    assert!(find(&table, 2).is_none());
    assert_eq!(table.get().len(), 1);
}

#[test]
fn later_duplicate_in_snapshot_wins() {
    let mut table = SProcs::default();
    table.update(&vec![sample(3, 100), sample(3, 900)], 500);
    assert_eq!(table.get().len(), 1);
    assert_eq!(find(&table, 3).unwrap().cpu_ewma, 900);
}

#[test]
fn metrics_render_with_one_decimal() {
    assert_eq!(render_metric(0), "_");
    assert_eq!(render_metric(4), "_");
    assert_eq!(render_metric(5), "0.1");
    assert_eq!(render_metric(1234), "12.3");
    assert_eq!(render_metric(1235), "12.4");
    assert_eq!(render_metric(100_000), "1000.0");
}

#[test]
fn keys_drive_modal_state() {
    let mut s = ViewState::default();
    assert_eq!(s.footer(), "(s)ort  (c)olumns");
    s.handle_key(&key('s'));
    assert_eq!(s.action, Action::SelectSort);
    assert_eq!(s.footer(), "(p)id  disk-(r)ead  disk-(w)rite  (d)isk-total  (m)em  (c)pu");
    s.handle_key(&key('m'));
    assert_eq!(s.sort_by, SortColumn::Mem);
    assert_eq!(s.action, Action::Top);
    s.handle_key(&key('c'));
    assert_eq!(
        s.footer(),
        "(p)id  process-(n)ame  disk-(r)ead  diks-(w)rite  (m)em  (c)pu  cpu-(h)istory"
    );
    s.handle_key(&key('n'));
    assert!(!s.displayed_columns.process_name);
    s.handle_key(&key('x'));
    assert_eq!(s.alert.as_deref(), Some("unhandled key: 'x'"));
    s.handle_key(&KeyEvent { code: KeyCode::Esc, description: String::from("Esc") });
    assert!(s.alert.is_none());
    assert!(!s.should_quit);
    s.handle_key(&key('q'));
    assert!(s.should_quit);
}

#[test]
fn header_stars_sorted_column() {
    let mut cols = DisplayedColumns::default();
    cols.toggle(&DisplayColumn::ProcessName);
    assert!(!cols.should_show(&DisplayColumn::ProcessName));
    assert_eq!(cols.shown().len(), 6);
    assert_eq!(
        cols.header(&SortColumn::DiskTotal),
        vec!["pid", "*dr*", "*dw*", "mem", "cpu", "cpu history"]
    );
    assert_eq!(cols.header(&SortColumn::Cpu)[4], "*cpu*");
}

#[test]
fn direction_flips() {
    let mut d = Dir::default();
    assert_eq!(d, Dir::Desc);
    d.flip();
    assert_eq!(d, Dir::Asc);
    d.flip();
    assert_eq!(d, Dir::Desc);
}

#[test]
fn events_map_to_steps() {
    let mut s = ViewState::default();
    assert_eq!(step(&mut s, &Event::Tick), Step::Sample);
    assert_eq!(step(&mut s, &Event::Resize), Step::Redraw);
    assert_eq!(step(&mut s, &Event::Key(key('s'))), Step::Redraw);
    assert_eq!(step(&mut s, &Event::Key(KeyEvent { code: KeyCode::Esc, description: String::new() })), Step::Redraw);
    assert_eq!(step(&mut s, &Event::Key(key('q'))), Step::Quit);
}

#[test]
fn sort_keys_per_column() {
    let r = SProc::from(&sample(42, 777));
    assert_eq!(SortColumn::Pid.from_sproc(&r), 42);
    assert_eq!(SortColumn::Cpu.from_sproc(&r), 777);
    assert_eq!(SortColumn::Mem.from_sproc(&r), 2048);
    assert_eq!(SortColumn::DiskTotal.from_sproc(&r), 30);
}

#[test]
fn sorted_order_by_column_and_direction() {
    let mut table = SProcs::new();
    table.update(&vec![sample(5, 300), sample(2, 100), sample(9, 300), sample(4, 200)], 1000);
    let procs = table.get();
    let keys = |order: &Vec<usize>| -> Vec<u128> {
        order.iter().map(|&i| SortColumn::Cpu.from_sproc(&procs[i])).collect()
    };
    let asc = sparktop::view_state::sorted_order(procs, SortColumn::Cpu, Dir::Asc);
    assert_eq!(keys(&asc), vec![100, 200, 300, 300]);
    let desc = sparktop::view_state::sorted_order(procs, SortColumn::Cpu, Dir::Desc);
    assert_eq!(keys(&desc), vec![300, 300, 200, 100]);
    let mut seen = desc.clone();
    seen.sort();
    assert_eq!(seen, vec![0, 1, 2, 3]);
    let by_pid: Vec<u32> = sparktop::view_state::sorted_order(procs, SortColumn::Pid, Dir::Asc)
        .iter()
        .map(|&i| procs[i].pid)
        .collect();
    assert_eq!(by_pid, vec![2, 4, 5, 9]);
}
