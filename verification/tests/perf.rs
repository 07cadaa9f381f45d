use leyline::perf::{
    resident_size, AtlasStats, CacheStats, Counters, PerfStage, Registry, RunFacts,
};
use leyline::presentation::{CommittedFrameKey, FrameKey, PresentationPipeline};
use leyline::terminal::snapshot::GridSize;
use leyline::time::{Duration, Instant};
use leyline::unicode_layout::{VisualGridMap, VisualLine};
use std::sync::Arc;

#[test]
fn records_zero_boundaries_and_saturates_overflow() {
    let mut counters = Counters::new();
    counters.record(0);
    counters.record(1_000);
    counters.record(1_001);
    assert_eq!(counters.buckets[0], 1);
    assert_eq!(counters.buckets[1], 1);
    assert_eq!(counters.buckets[2], 1);
    counters.total_ns = u64::MAX - 1;
    counters.record(10);
    assert_eq!(counters.total_ns, u64::MAX);
}

#[test]
fn disabled_timer_has_no_timestamp_or_registry_access() {
    let mut registry = Registry::new(false);
    let timer = registry.timer(PerfStage::PtyDrain, Instant { nanos: 5 });
    assert!(timer.started.is_none());
    let before = registry.clone();
    registry.finish(timer, Instant { nanos: 9 });
    registry.record_duration(PerfStage::Shape, Duration { nanos: 9 });
    registry.record_bitmap_cache(1, 2);
    assert_eq!(registry, before);
}

#[test]
fn timers_count_their_stage_alone() {
    let mut registry = Registry::new(true);
    let timer = registry.timer(PerfStage::Snapshot, Instant { nanos: 100 });
    registry.finish(timer, Instant { nanos: 1_100 });
    let counters = registry.counters(PerfStage::Snapshot);
    assert_eq!((counters.count, counters.total_ns, counters.max_ns), (1, 1_000, 1_000));
    assert_eq!(counters.buckets[1], 1);
    assert_eq!(registry.counters(PerfStage::Shape).count, 0);
}

#[test]
fn percentiles_are_limits_of_their_classes() {
    let mut counters = Counters::new();
    assert_eq!(counters.percentile(50), 0);
    for _ in 0..95 {
        counters.record(900);
    }
    for _ in 0..5 {
        counters.record(7_000_000);
    }
    assert_eq!(counters.percentile(50), 1_000);
    assert_eq!(counters.percentile(95), 1_000);
    assert_eq!(counters.percentile(99), 10_000_000);
}

#[test]
fn reports_are_one_line_with_quotes_taken_out() {
    let mut registry = Registry::new(true);
    registry.record_duration(PerfStage::SceneBuild, Duration { nanos: 2_000 });
    registry.record_bitmap_cache(3, 4);
    let cache = CacheStats { entries: 1, bytes: 10, pinned: 2, evictions: 5 };
    registry.set_text_cache_stats(cache, cache);
    registry.set_atlas_stats(AtlasStats {
        pages: 1,
        gray_pages: 2,
        color_pages: 3,
        entries: 4,
        epoch: 5,
        repacks: 6,
    });
    let report = registry.report(&RunFacts {
        workload: "a\"b\\c".into(),
        cpu_count: 8,
        rss_kib: 123,
        elapsed_ns: 77,
        bidi: "on".into(),
        ligatures: "off".into(),
        color_glyphs: "unknown".into(),
    });
    let head = "{\"workload\":\"a_b_c\",\"environment\":{\"cpu_count\":8,\"rss_kib\":123,\"elapsed_ns\":77},\"configuration\":{\"bidi\":\"on\",\"ligatures\":\"off\",\"color_glyphs\":\"unknown\"},\"samples\":1,\"p50_ns\":10000,\"p95_ns\":10000,\"p99_ns\":10000,\"bitmap_cache\":{\"hits\":3,\"misses\":4,\"entries\":2,\"bytes\":20,\"evictions\":10,\"pinned\":4},\"atlas\":{\"pages\":1,\"gray_pages\":2,\"color_pages\":3,\"entries\":4,\"epoch\":5,\"repacks\":6},\"stages\":{\"PtyDrain\":{\"count\":0,\"total_ns\":0,\"max_ns\":0,\"p50_ns\":0,\"p95_ns\":0,\"p99_ns\":0,\"buckets\":[0,0,0,0,0,0,0,0,0,0,0,0]},\"TerminalParse\":";
    assert!(report.starts_with(head), "{report}");
    let scene = "\"SceneBuild\":{\"count\":1,\"total_ns\":2000,\"max_ns\":2000,\"p50_ns\":10000,\"p95_ns\":10000,\"p99_ns\":10000,\"buckets\":[0,0,1,0,0,0,0,0,0,0,0,0]}";
    assert!(report.contains(scene), "{report}");
    assert!(report.ends_with("]}}}\n"), "{report}");
}

#[test]
fn the_resident_size_is_read_from_its_line() {
    let status = "Name:\tx\nVmPeak:\t  99 kB\nVmRSS:\t  1234 kB\r\nThreads:\t1\n";
    assert_eq!(resident_size(status), 1234);
    assert_eq!(resident_size("VmRSS: many kB\nVmRSS: 7"), 7);
    assert_eq!(resident_size(""), 0);
}

fn map(generation: u64) -> Arc<VisualGridMap> {
    Arc::new(VisualGridMap {
        snapshot_generation: generation,
        policy_generation: 1,
        grid: GridSize::new(1, 1).unwrap(),
        bidi_enabled: true,
        lines: Vec::new(),
    })
}

#[test]
fn replacement_and_stale_commit_never_publish_part_of_a_frame() {
    let mut pipeline = PresentationPipeline::default();
    let first = FrameKey { snapshot_generation: 1, ..FrameKey::default() };
    let second = FrameKey { snapshot_generation: 2, ..FrameKey::default() };
    pipeline.stage(first, map(1));
    pipeline.stage(second, map(2));
    assert!(pipeline
        .commit(CommittedFrameKey { frame: first, atlas_epoch: 1 })
        .is_none());
    assert!(pipeline.published_visual_map().is_none());
}

#[test]
fn a_committed_frame_publishes_its_map_once() {
    let mut pipeline = PresentationPipeline::default();
    let key = FrameKey { layout_generation: 3, ..FrameKey::default() };
    let committed = CommittedFrameKey { frame: key, atlas_epoch: 1 };
    pipeline.stage(key, map(9));
    assert_eq!(pipeline.commit(committed).unwrap().snapshot_generation, 9);
    assert!(pipeline.commit(committed).is_none());
    assert_eq!(pipeline.published_visual_map().unwrap().snapshot_generation, 9);
    pipeline.reset();
    assert!(pipeline.published_visual_map().is_none());
}

#[test]
fn maps_are_complete_where_every_cell_has_a_place() {
    let line = VisualLine { logical_to_visual_cell: vec![1, 0], atom_levels: vec![0, 1] };
    let mut map = VisualGridMap {
        snapshot_generation: 1,
        policy_generation: 1,
        grid: GridSize::new(2, 1).unwrap(),
        bidi_enabled: true,
        lines: vec![line],
    };
    assert!(map.is_complete());
    map.lines[0].logical_to_visual_cell[0] = 2;
    assert!(!map.is_complete());
    map.lines.clear();
    assert!(!map.is_complete());
}
