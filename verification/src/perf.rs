//! How long the stages of a frame take.
use vstd::prelude::*;
use vstd::string::StringExecFns;
use crate::text::{
    chars_of, dec, drop_leading, has_prefix, is_space, is_space_char,
    lines_of, number_of, parse_u64, push_dec, split_lines, starts_with, texts_view, trim_start,
};
use crate::time::{Duration, Instant};

verus! {

/// How many classes of durations are counted, and how many stages there are.
pub const BUCKETS: usize = 12;

/// The longest duration of each class, in nanoseconds.
pub open spec fn bucket_limit(i: int) -> u64 {
    if i <= 0 {
        0
    } else if i == 1 {
        1_000
    } else if i == 2 {
        10_000
    } else if i == 3 {
        100_000
    } else if i == 4 {
        1_000_000
    } else if i == 5 {
        5_000_000
    } else if i == 6 {
        10_000_000
    } else if i == 7 {
        16_666_667
    } else if i == 8 {
        33_333_334
    } else if i == 9 {
        100_000_000
    } else if i == 10 {
        1_000_000_000
    } else {
        u64::MAX
    }
}

fn limit(i: usize) -> (result: u64)
    ensures
        result == bucket_limit(i as int),
{
    match i {
        0 => 0,
        1 => 1_000,
        2 => 10_000,
        3 => 100_000,
        4 => 1_000_000,
        5 => 5_000_000,
        6 => 10_000_000,
        7 => 16_666_667,
        8 => 33_333_334,
        9 => 100_000_000,
        10 => 1_000_000_000,
        _ => u64::MAX,
    }
}

/// The class of a duration: the first whose limit it does not exceed.
pub open spec fn bucket_of(elapsed: u64) -> int
{
    bucket_from(elapsed, 0)
}

pub open spec fn bucket_from(elapsed: u64, i: int) -> int
    decreases BUCKETS - i,
{
    if i >= BUCKETS - 1 || elapsed <= bucket_limit(i) {
        i
    } else {
        bucket_from(elapsed, i + 1)
    }
}

#[derive(Clone, Copy, Debug, PartialEq, Eq, Structural)]
pub enum PerfStage {
    PtyDrain,
    TerminalParse,
    Snapshot,
    BidiMap,
    Shape,
    Raster,
    SceneBuild,
    AtlasPrepare,
    AtlasUpload,
    VulkanSubmit,
    Present,
    InputToPtyWrite,
}

/// The stage at a place of the report.
pub open spec fn stage_at(i: int) -> PerfStage {
    if i <= 0 {
        PerfStage::PtyDrain
    } else if i == 1 {
        PerfStage::TerminalParse
    } else if i == 2 {
        PerfStage::Snapshot
    } else if i == 3 {
        PerfStage::BidiMap
    } else if i == 4 {
        PerfStage::Shape
    } else if i == 5 {
        PerfStage::Raster
    } else if i == 6 {
        PerfStage::SceneBuild
    } else if i == 7 {
        PerfStage::AtlasPrepare
    } else if i == 8 {
        PerfStage::AtlasUpload
    } else if i == 9 {
        PerfStage::VulkanSubmit
    } else if i == 10 {
        PerfStage::Present
    } else {
        PerfStage::InputToPtyWrite
    }
}

impl PerfStage {
    /// The place of a stage in the report.
    pub open spec fn place(self) -> int {
        match self {
            PerfStage::PtyDrain => 0,
            PerfStage::TerminalParse => 1,
            PerfStage::Snapshot => 2,
            PerfStage::BidiMap => 3,
            PerfStage::Shape => 4,
            PerfStage::Raster => 5,
            PerfStage::SceneBuild => 6,
            PerfStage::AtlasPrepare => 7,
            PerfStage::AtlasUpload => 8,
            PerfStage::VulkanSubmit => 9,
            PerfStage::Present => 10,
            PerfStage::InputToPtyWrite => 11,
        }
    }

    fn index(self) -> (result: usize)
        ensures
            result == self.place(),
    {
        match self {
            PerfStage::PtyDrain => 0,
            PerfStage::TerminalParse => 1,
            PerfStage::Snapshot => 2,
            PerfStage::BidiMap => 3,
            PerfStage::Shape => 4,
            PerfStage::Raster => 5,
            PerfStage::SceneBuild => 6,
            PerfStage::AtlasPrepare => 7,
            PerfStage::AtlasUpload => 8,
            PerfStage::VulkanSubmit => 9,
            PerfStage::Present => 10,
            PerfStage::InputToPtyWrite => 11,
        }
    }

    fn at(i: usize) -> (result: PerfStage)
        ensures
            result == stage_at(i as int),
    {
        match i {
            0 => PerfStage::PtyDrain,
            1 => PerfStage::TerminalParse,
            2 => PerfStage::Snapshot,
            3 => PerfStage::BidiMap,
            4 => PerfStage::Shape,
            5 => PerfStage::Raster,
            6 => PerfStage::SceneBuild,
            7 => PerfStage::AtlasPrepare,
            8 => PerfStage::AtlasUpload,
            9 => PerfStage::VulkanSubmit,
            10 => PerfStage::Present,
            _ => PerfStage::InputToPtyWrite,
        }
    }

    pub open spec fn spec_name(self) -> Seq<char> {
        match self {
            PerfStage::PtyDrain => "PtyDrain"@,
            PerfStage::TerminalParse => "TerminalParse"@,
            PerfStage::Snapshot => "Snapshot"@,
            PerfStage::BidiMap => "BidiMap"@,
            PerfStage::Shape => "Shape"@,
            PerfStage::Raster => "Raster"@,
            PerfStage::SceneBuild => "SceneBuild"@,
            PerfStage::AtlasPrepare => "AtlasPrepare"@,
            PerfStage::AtlasUpload => "AtlasUpload"@,
            PerfStage::VulkanSubmit => "VulkanSubmit"@,
            PerfStage::Present => "Present"@,
            PerfStage::InputToPtyWrite => "InputToPtyWrite"@,
        }
    }

    pub fn name(self) -> (result: &'static str)
        ensures
            result@ == self.spec_name(),
    {
        match self {
            PerfStage::PtyDrain => "PtyDrain",
            PerfStage::TerminalParse => "TerminalParse",
            PerfStage::Snapshot => "Snapshot",
            PerfStage::BidiMap => "BidiMap",
            PerfStage::Shape => "Shape",
            PerfStage::Raster => "Raster",
            PerfStage::SceneBuild => "SceneBuild",
            PerfStage::AtlasPrepare => "AtlasPrepare",
            PerfStage::AtlasUpload => "AtlasUpload",
            PerfStage::VulkanSubmit => "VulkanSubmit",
            PerfStage::Present => "Present",
            PerfStage::InputToPtyWrite => "InputToPtyWrite",
        }
    }
}

/// What is known of the durations of one stage.
#[derive(Clone, Debug, PartialEq, Eq)]
pub struct Counters {
    pub count: u64,
    pub total_ns: u64,
    pub max_ns: u64,
    pub buckets: Vec<u64>,
}

/// The state of the counters of a stage.
pub struct CountersModel {
    pub count: u64,
    pub total_ns: u64,
    pub max_ns: u64,
    pub buckets: Seq<u64>,
}

impl View for Counters {
    type V = CountersModel;

    open spec fn view(&self) -> CountersModel {
        CountersModel {
            count: self.count,
            total_ns: self.total_ns,
            max_ns: self.max_ns,
            buckets: self.buckets@,
        }
    }
}

/// A sum that stays at the greatest number.
pub open spec fn capped_sum(a: u64, b: u64) -> u64 {
    if a + b > u64::MAX {
        u64::MAX
    } else {
        (a + b) as u64
    }
}

/// A product that stays at the greatest number.
pub open spec fn capped_product(a: u64, b: u64) -> u64 {
    if a * b > u64::MAX {
        u64::MAX
    } else {
        (a * b) as u64
    }
}

impl CountersModel {
    pub open spec fn zero() -> CountersModel {
        CountersModel { count: 0, total_ns: 0, max_ns: 0, buckets: Seq::new(12, |i: int| 0u64) }
    }

    /// The counters after one more duration.
    pub open spec fn recorded(self, elapsed: u64) -> CountersModel {
        let i = bucket_of(elapsed);
        CountersModel {
            count: capped_sum(self.count, 1),
            total_ns: capped_sum(self.total_ns, elapsed),
            max_ns: if elapsed > self.max_ns {
                elapsed
            } else {
                self.max_ns
            },
            buckets: self.buckets.update(i, capped_sum(self.buckets[i], 1)),
        }
    }

    /// How many durations lie in the first classes.
    pub open spec fn up_to(self, n: int) -> u64
        decreases n,
    {
        if n <= 0 {
            0
        } else {
            capped_sum(self.up_to(n - 1), self.buckets[n - 1])
        }
    }

    /// The limit of the first class, from one on, with which enough durations are counted.
    pub open spec fn reaching(self, target: u64, i: int) -> u64
        decreases self.buckets.len() - i,
    {
        if i >= self.buckets.len() {
            u64::MAX
        } else if self.up_to(i + 1) >= target {
            bucket_limit(i)
        } else {
            self.reaching(target, i + 1)
        }
    }

    /// The limit of the class that holds a percentile of the durations.
    pub open spec fn percentile(self, numerator: u64) -> u64 {
        if self.count == 0 {
            0
        } else {
            self.reaching(
                (capped_sum(capped_product(self.count, numerator), 99) / 100) as u64,
                0,
            )
        }
    }
}

impl Counters {
    pub open spec fn valid(&self) -> bool {
        self.buckets@.len() == BUCKETS
    }

    pub fn new() -> (result: Counters)
        ensures
            result.valid(),
            result@ == CountersModel::zero(),
    {
        let mut buckets: Vec<u64> = Vec::new();
        while buckets.len() < BUCKETS
            invariant
                buckets@.len() <= BUCKETS,
                forall|i: int| 0 <= i < buckets@.len() ==> buckets@[i] == 0,
            decreases BUCKETS - buckets@.len(),
        {
            buckets.push(0);
        }
        assert(buckets@ =~= CountersModel::zero().buckets);
        Counters { count: 0, total_ns: 0, max_ns: 0, buckets }
    }

    /// Counts a duration.
    pub fn record(&mut self, elapsed_ns: u64)
        requires
            old(self).valid(),
        ensures
            final(self).valid(),
            final(self)@ == old(self)@.recorded(elapsed_ns),
    {
        self.count = self.count.saturating_add(1);
        self.total_ns = self.total_ns.saturating_add(elapsed_ns);
        if elapsed_ns > self.max_ns {
            self.max_ns = elapsed_ns;
        }
        let mut i: usize = 0;
        while i < BUCKETS - 1 && elapsed_ns > limit(i)
            invariant
                i < BUCKETS,
                bucket_of(elapsed_ns) == bucket_from(elapsed_ns, i as int),
            decreases BUCKETS - i,
        {
            i += 1;
        }
        let n: u64 = self.buckets[i].saturating_add(1);
        self.buckets.set(i, n);
    }

    /// The limit of the class that holds a percentile of the durations.
    pub fn percentile(&self, numerator: u64) -> (result: u64)
        requires
            self.valid(),
        ensures
            result == self@.percentile(numerator),
    {
        if self.count == 0 {
            return 0;
        }
        let product: u64 = match self.count.checked_mul(numerator) {
            Some(product) => product,
            None => u64::MAX,
        };
        let target: u64 = product.saturating_add(99) / 100;
        let mut cumulative: u64 = 0;
        let mut i: usize = 0;
        while i < self.buckets.len()
            invariant
                i <= self.buckets@.len(),
                cumulative == self@.up_to(i as int),
                self@.percentile(numerator) == self@.reaching(target, i as int),
            decreases self.buckets@.len() - i,
        {
            cumulative = cumulative.saturating_add(self.buckets[i]);
            assert(cumulative == self@.up_to(i + 1));
            if cumulative >= target {
                return limit(i);
            }
            i += 1;
        }
        u64::MAX
    }
}

/// How full a cache of glyphs is.
#[derive(Clone, Copy, Debug, PartialEq, Eq, Structural)]
pub struct CacheStats {
    pub entries: usize,
    pub bytes: usize,
    pub pinned: usize,
    pub evictions: u64,
}

/// How full the atlas of glyphs is.
#[derive(Clone, Copy, Debug, PartialEq, Eq, Structural)]
pub struct AtlasStats {
    pub pages: usize,
    pub gray_pages: usize,
    pub color_pages: usize,
    pub entries: usize,
    pub epoch: u64,
    pub repacks: u64,
}

/// What is known of the caches.
#[derive(Clone, Copy, Debug, PartialEq, Eq, Structural)]
pub struct CacheTotals {
    pub bitmap_hits: u64,
    pub bitmap_misses: u64,
    pub cache_entries: u64,
    pub cache_bytes: u64,
    pub cache_evictions: u64,
    pub cache_pinned: u64,
    pub atlas_pages: u64,
    pub atlas_gray_pages: u64,
    pub atlas_color_pages: u64,
    pub atlas_entries: u64,
    pub atlas_epoch: u64,
    pub atlas_repacks: u64,
}

/// What is measured. Nothing is while it is switched off.
#[derive(Clone, Debug, PartialEq, Eq)]
pub struct Registry {
    enabled: bool,
    stages: Vec<Counters>,
    totals: CacheTotals,
}

/// The state of a registry.
pub struct RegistryModel {
    pub enabled: bool,
    pub stages: Seq<CountersModel>,
    pub totals: CacheTotals,
}

pub open spec fn counters_view(stages: Seq<Counters>) -> Seq<CountersModel> {
    stages.map_values(|c: Counters| c@)
}

impl View for Registry {
    type V = RegistryModel;

    closed spec fn view(&self) -> RegistryModel {
        RegistryModel {
            enabled: self.enabled,
            stages: counters_view(self.stages@),
            totals: self.totals,
        }
    }
}

/// A measurement that has begun, if anything is measured.
#[derive(Clone, Copy, Debug, PartialEq, Eq, Structural)]
pub struct PerfTimer {
    pub stage: PerfStage,
    pub started: Option<Instant>,
}

impl RegistryModel {
    pub open spec fn recorded(self, stage: PerfStage, elapsed: u64) -> RegistryModel {
        if self.enabled {
            RegistryModel {
                stages: self.stages.update(
                    stage.place(),
                    self.stages[stage.place()].recorded(elapsed),
                ),
                ..self
            }
        } else {
            self
        }
    }
}

impl Registry {
    pub closed spec fn valid(&self) -> bool {
        &&& self.stages@.len() == BUCKETS
        &&& forall|i: int| 0 <= i < self.stages@.len() ==> (#[trigger] self.stages@[i]).valid()
    }

    /// A registry that is switched on or off.
    pub fn new(enabled: bool) -> (result: Registry)
        ensures
            result.valid(),
            result@.enabled == enabled,
            result@.stages == Seq::new(12, |i: int| CountersModel::zero()),
            result@.totals == (CacheTotals {
                bitmap_hits: 0,
                bitmap_misses: 0,
                cache_entries: 0,
                cache_bytes: 0,
                cache_evictions: 0,
                cache_pinned: 0,
                atlas_pages: 0,
                atlas_gray_pages: 0,
                atlas_color_pages: 0,
                atlas_entries: 0,
                atlas_epoch: 0,
                atlas_repacks: 0,
            }),
    {
        let mut stages: Vec<Counters> = Vec::new();
        while stages.len() < BUCKETS
            invariant
                stages@.len() <= BUCKETS,
                forall|i: int|
                    0 <= i < stages@.len() ==> (#[trigger] stages@[i]).valid() && stages@[i]@
                        == CountersModel::zero(),
            decreases BUCKETS - stages@.len(),
        {
            stages.push(Counters::new());
        }
        assert(counters_view(stages@) =~= Seq::new(12, |i: int| CountersModel::zero()));
        Registry {
            enabled,
            stages,
            totals: CacheTotals {
                bitmap_hits: 0,
                bitmap_misses: 0,
                cache_entries: 0,
                cache_bytes: 0,
                cache_evictions: 0,
                cache_pinned: 0,
                atlas_pages: 0,
                atlas_gray_pages: 0,
                atlas_color_pages: 0,
                atlas_entries: 0,
                atlas_epoch: 0,
                atlas_repacks: 0,
            },
        }
    }

    /// Begins a measurement at `now`, if anything is measured.
    pub fn timer(&self, stage: PerfStage, now: Instant) -> (result: PerfTimer)
        ensures
            result == (PerfTimer {
                stage,
                started: if self@.enabled {
                    Some(now)
                } else {
                    None
                },
            }),
    {
        PerfTimer {
            stage,
            started: if self.enabled {
                Some(now)
            } else {
                None
            },
        }
    }

    /// Ends a measurement at `now`.
    pub fn finish(&mut self, timer: PerfTimer, now: Instant)
        requires
            old(self).valid(),
        ensures
            final(self).valid(),
            final(self)@ == (match timer.started {
                Some(started) => old(self)@.recorded(
                    timer.stage,
                    if now.nanos >= started.nanos {
                        (now.nanos - started.nanos) as u64
                    } else {
                        0
                    },
                ),
                None => old(self)@,
            }),
    {
        match timer.started {
            Some(started) => {
                self.record_duration(timer.stage, now.saturating_duration_since(started));
            },
            None => {},
        }
    }

    /// Counts a duration of a stage, if anything is measured.
    pub fn record_duration(&mut self, stage: PerfStage, elapsed: Duration)
        requires
            old(self).valid(),
        ensures
            final(self).valid(),
            final(self)@ == old(self)@.recorded(stage, elapsed.nanos),
    {
        if !self.enabled {
            return;
        }
        let i: usize = stage.index();
        let ghost before = self.stages@;
        let mut counters = Counters {
            count: self.stages[i].count,
            total_ns: self.stages[i].total_ns,
            max_ns: self.stages[i].max_ns,
            buckets: Vec::new(),
        };
        let mut k: usize = 0;
        while k < self.stages[i].buckets.len()
            invariant
                i < self.stages@.len(),
                k <= self.stages@[i as int].buckets@.len(),
                counters.buckets@ == self.stages@[i as int].buckets@.take(k as int),
                counters.count == self.stages@[i as int].count,
                counters.total_ns == self.stages@[i as int].total_ns,
                counters.max_ns == self.stages@[i as int].max_ns,
            decreases self.stages@[i as int].buckets@.len() - k,
        {
            let n: u64 = self.stages[i].buckets[k];
            counters.buckets.push(n);
            assert(counters.buckets@ =~= self.stages@[i as int].buckets@.take(k + 1));
            k += 1;
        }
        assert(counters.buckets@ =~= self.stages@[i as int].buckets@);
        counters.record(elapsed.nanos);
        self.stages.set(i, counters);
        assert(counters_view(self.stages@) =~= counters_view(before).update(
            i as int,
            before[i as int]@.recorded(elapsed.nanos),
        ));
    }

    /// Counts how often a bitmap of a glyph was at hand, and how often not.
    pub fn record_bitmap_cache(&mut self, hits: u64, misses: u64)
        requires
            old(self).valid(),
        ensures
            final(self).valid(),
            final(self)@ == (if old(self)@.enabled {
                RegistryModel {
                    totals: CacheTotals {
                        bitmap_hits: capped_sum(old(self)@.totals.bitmap_hits, hits),
                        bitmap_misses: capped_sum(old(self)@.totals.bitmap_misses, misses),
                        ..old(self)@.totals
                    },
                    ..old(self)@
                }
            } else {
                old(self)@
            }),
    {
        if self.enabled {
            self.totals.bitmap_hits = self.totals.bitmap_hits.saturating_add(hits);
            self.totals.bitmap_misses = self.totals.bitmap_misses.saturating_add(misses);
        }
    }

    /// Notes how full the two caches of glyphs are, taken together.
    pub fn set_text_cache_stats(&mut self, first: CacheStats, second: CacheStats)
        requires
            old(self).valid(),
        ensures
            final(self).valid(),
            final(self)@ == (if old(self)@.enabled {
                RegistryModel {
                    totals: CacheTotals {
                        cache_entries: both(first.entries, second.entries),
                        cache_bytes: both(first.bytes, second.bytes),
                        cache_pinned: both(first.pinned, second.pinned),
                        cache_evictions: capped_sum(first.evictions, second.evictions),
                        ..old(self)@.totals
                    },
                    ..old(self)@
                }
            } else {
                old(self)@
            }),
    {
        if self.enabled {
            self.totals.cache_entries = first.entries.saturating_add(second.entries) as u64;
            self.totals.cache_bytes = first.bytes.saturating_add(second.bytes) as u64;
            self.totals.cache_pinned = first.pinned.saturating_add(second.pinned) as u64;
            self.totals.cache_evictions = first.evictions.saturating_add(second.evictions);
        }
    }

    /// Notes how full the atlas is.
    pub fn set_atlas_stats(&mut self, stats: AtlasStats)
        requires
            old(self).valid(),
        ensures
            final(self).valid(),
            final(self)@ == (if old(self)@.enabled {
                RegistryModel {
                    totals: CacheTotals {
                        atlas_pages: stats.pages as u64,
                        atlas_gray_pages: stats.gray_pages as u64,
                        atlas_color_pages: stats.color_pages as u64,
                        atlas_entries: stats.entries as u64,
                        atlas_epoch: stats.epoch,
                        atlas_repacks: stats.repacks,
                        ..old(self)@.totals
                    },
                    ..old(self)@
                }
            } else {
                old(self)@
            }),
    {
        if self.enabled {
            self.totals.atlas_pages = stats.pages as u64;
            self.totals.atlas_gray_pages = stats.gray_pages as u64;
            self.totals.atlas_color_pages = stats.color_pages as u64;
            self.totals.atlas_entries = stats.entries as u64;
            self.totals.atlas_epoch = stats.epoch;
            self.totals.atlas_repacks = stats.repacks;
        }
    }

    /// What is known of a stage.
    pub fn counters(&self, stage: PerfStage) -> (result: &Counters)
        requires
            self.valid(),
        ensures
            result.valid(),
            result@ == self@.stages[stage.place()],
    {
        &self.stages[stage.index()]
    }

    /// The report on a run.
    pub fn report(&self, run: &RunFacts) -> (result: String)
        requires
            self.valid(),
        ensures
            result@ == report_text(self@, run@),
    {
        let mut out = String::from_str("{\"workload\":\"");
        push_quoted(&mut out, run.workload.as_str());
        out.append("\",\"environment\":{\"cpu_count\":");
        push_dec(&mut out, run.cpu_count);
        out.append(",\"rss_kib\":");
        push_dec(&mut out, run.rss_kib);
        out.append(",\"elapsed_ns\":");
        push_dec(&mut out, run.elapsed_ns);
        out.append("},\"configuration\":{\"bidi\":\"");
        push_quoted(&mut out, run.bidi.as_str());
        out.append("\",\"ligatures\":\"");
        push_quoted(&mut out, run.ligatures.as_str());
        out.append("\",\"color_glyphs\":\"");
        push_quoted(&mut out, run.color_glyphs.as_str());
        out.append("\"}");
        assert(out@ =~= run_text(run@));
        self.push_totals(&mut out);
        out.append(",\"stages\":{");
        let mut i: usize = 0;
        let ghost head = out@;
        while i < BUCKETS
            invariant
                i <= BUCKETS,
                self.valid(),
                out@ == head + stages_text(self@.stages, i as int),
            decreases BUCKETS - i,
        {
            let ghost before = out@;
            if i != 0 {
                out.append(",");
            }
            push_stage(&mut out, PerfStage::at(i), &self.stages[i]);
            i += 1;
            assert(out@ =~= head + stages_text(self@.stages, i as int));
        }
        out.append("}}\n");
        assert(out@ =~= report_text(self@, run@));
        out
    }

    fn push_totals(&self, out: &mut String)
        requires
            self.valid(),
        ensures
            final(out)@ == old(out)@ + totals_text(self@),
    {
        let ghost head = out@;
        push_scenes(out, self.counters(PerfStage::SceneBuild));
        push_cache(out, &self.totals);
        push_atlas(out, &self.totals);
        assert(out@ =~= head + totals_text(self@));
    }
}

fn push_scenes(out: &mut String, scenes: &Counters)
    requires
        scenes.valid(),
    ensures
        final(out)@ == old(out)@ + scenes_text(scenes@),
{
    let ghost head = out@;
    out.append(",\"samples\":");
    push_dec(out, scenes.count);
    out.append(",\"p50_ns\":");
    push_dec(out, scenes.percentile(50));
    out.append(",\"p95_ns\":");
    push_dec(out, scenes.percentile(95));
    out.append(",\"p99_ns\":");
    push_dec(out, scenes.percentile(99));
    assert(out@ =~= head + scenes_text(scenes@));
}

fn push_cache(out: &mut String, totals: &CacheTotals)
    ensures
        final(out)@ == old(out)@ + cache_text(*totals),
{
    let ghost head = out@;
    out.append(",\"bitmap_cache\":{\"hits\":");
    push_dec(out, totals.bitmap_hits);
    out.append(",\"misses\":");
    push_dec(out, totals.bitmap_misses);
    out.append(",\"entries\":");
    push_dec(out, totals.cache_entries);
    out.append(",\"bytes\":");
    push_dec(out, totals.cache_bytes);
    out.append(",\"evictions\":");
    push_dec(out, totals.cache_evictions);
    out.append(",\"pinned\":");
    push_dec(out, totals.cache_pinned);
    assert(out@ =~= head + cache_text(*totals));
}

fn push_atlas(out: &mut String, totals: &CacheTotals)
    ensures
        final(out)@ == old(out)@ + atlas_text(*totals),
{
    let ghost head = out@;
    out.append("},\"atlas\":{\"pages\":");
    push_dec(out, totals.atlas_pages);
    out.append(",\"gray_pages\":");
    push_dec(out, totals.atlas_gray_pages);
    out.append(",\"color_pages\":");
    push_dec(out, totals.atlas_color_pages);
    out.append(",\"entries\":");
    push_dec(out, totals.atlas_entries);
    out.append(",\"epoch\":");
    push_dec(out, totals.atlas_epoch);
    out.append(",\"repacks\":");
    push_dec(out, totals.atlas_repacks);
    out.append("}");
    assert(out@ =~= head + atlas_text(*totals));
}

/// Two numbers taken together.
pub open spec fn both(a: usize, b: usize) -> u64 {
    if a + b > usize::MAX {
        usize::MAX as u64
    } else {
        (a + b) as u64
    }
}

/// What the report says of the run as a whole.
#[derive(Clone, Debug, PartialEq, Eq)]
pub struct RunFacts {
    pub workload: String,
    pub cpu_count: u64,
    pub rss_kib: u64,
    pub elapsed_ns: u64,
    pub bidi: String,
    pub ligatures: String,
    pub color_glyphs: String,
}

/// The view of the facts of a run.
pub struct RunModel {
    pub workload: Seq<char>,
    pub cpu_count: u64,
    pub rss_kib: u64,
    pub elapsed_ns: u64,
    pub bidi: Seq<char>,
    pub ligatures: Seq<char>,
    pub color_glyphs: Seq<char>,
}

impl View for RunFacts {
    type V = RunModel;

    open spec fn view(&self) -> RunModel {
        RunModel {
            workload: self.workload@,
            cpu_count: self.cpu_count,
            rss_kib: self.rss_kib,
            elapsed_ns: self.elapsed_ns,
            bidi: self.bidi@,
            ligatures: self.ligatures@,
            color_glyphs: self.color_glyphs@,
        }
    }
}

/// A text with nothing that would end or escape a quoted string.
pub open spec fn quotable(s: Seq<char>) -> Seq<char> {
    s.map_values(
        |c: char|
            if c == '\\' || c == '"' {
                '_'
            } else {
                c
            },
    )
}

fn push_quoted(out: &mut String, s: &str)
    ensures
        final(out)@ == old(out)@ + quotable(s@),
{
    let chars = chars_of(s);
    let ghost head = out@;
    let mut i: usize = 0;
    assert(out@ =~= head + quotable(s@).take(0));
    while i < chars.len()
        invariant
            i <= chars@.len(),
            chars@ == s@,
            out@ == head + quotable(s@).take(i as int),
        decreases chars@.len() - i,
    {
        let c = chars[i];
        if c == '\\' || c == '"' {
            out.push('_');
        } else {
            out.push(c);
        }
        i += 1;
        assert(out@ =~= head + quotable(s@).take(i as int));
    }
    assert(out@ =~= head + quotable(s@));
}

fn push_stage(out: &mut String, stage: PerfStage, counters: &Counters)
    requires
        counters.valid(),
    ensures
        final(out)@ == old(out)@ + stage_text(stage, counters@),
{
    let ghost head = out@;
    out.append("\"");
    out.append(stage.name());
    out.append("\":{\"count\":");
    push_dec(out, counters.count);
    out.append(",\"total_ns\":");
    push_dec(out, counters.total_ns);
    out.append(",\"max_ns\":");
    push_dec(out, counters.max_ns);
    out.append(",\"p50_ns\":");
    push_dec(out, counters.percentile(50));
    out.append(",\"p95_ns\":");
    push_dec(out, counters.percentile(95));
    out.append(",\"p99_ns\":");
    push_dec(out, counters.percentile(99));
    out.append(",\"buckets\":[");
    let ghost mid = out@;
    let mut i: usize = 0;
    assert(out@ =~= mid + listed(counters.buckets@.take(0)));
    while i < counters.buckets.len()
        invariant
            i <= counters.buckets@.len(),
            out@ == mid + listed(counters.buckets@.take(i as int)),
        decreases counters.buckets@.len() - i,
    {
        if i != 0 {
            out.append(",");
        }
        push_dec(out, counters.buckets[i]);
        assert(counters.buckets@.take(i + 1).drop_last() =~= counters.buckets@.take(i as int));
        i += 1;
        assert(out@ =~= mid + listed(counters.buckets@.take(i as int)));
    }
    assert(counters.buckets@.take(i as int) =~= counters.buckets@);
    out.append("]}");
    assert(out@ =~= head + stage_text(stage, counters@));
}

/// Numbers with commas between them.
pub open spec fn listed(numbers: Seq<u64>) -> Seq<char>
    decreases numbers.len(),
{
    if numbers.len() == 0 {
        Seq::empty()
    } else if numbers.len() == 1 {
        dec(numbers[0] as nat)
    } else {
        listed(numbers.drop_last()) + ","@ + dec(numbers.last() as nat)
    }
}

/// What the report says of a stage.
pub open spec fn stage_text(stage: PerfStage, counters: CountersModel) -> Seq<char> {
    "\""@ + stage.spec_name() + "\":{\"count\":"@ + dec(counters.count as nat) + ",\"total_ns\":"@
        + dec(counters.total_ns as nat) + ",\"max_ns\":"@ + dec(counters.max_ns as nat)
        + ",\"p50_ns\":"@ + dec(counters.percentile(50) as nat) + ",\"p95_ns\":"@ + dec(
        counters.percentile(95) as nat,
    ) + ",\"p99_ns\":"@ + dec(counters.percentile(99) as nat) + ",\"buckets\":["@ + listed(
        counters.buckets,
    ) + "]}"@
}

/// What the report says of the first stages.
pub open spec fn stages_text(stages: Seq<CountersModel>, n: int) -> Seq<char>
    decreases n,
{
    if n <= 0 {
        Seq::empty()
    } else if n == 1 {
        stage_text(stage_at(0), stages[0])
    } else {
        stages_text(stages, n - 1) + ","@ + stage_text(stage_at(n - 1), stages[n - 1])
    }
}

/// What the report says of the run as a whole.
pub open spec fn run_text(run: RunModel) -> Seq<char> {
    "{\"workload\":\""@ + quotable(run.workload) + "\",\"environment\":{\"cpu_count\":"@ + dec(
        run.cpu_count as nat,
    ) + ",\"rss_kib\":"@ + dec(run.rss_kib as nat) + ",\"elapsed_ns\":"@ + dec(
        run.elapsed_ns as nat,
    ) + "},\"configuration\":{\"bidi\":\""@ + quotable(run.bidi) + "\",\"ligatures\":\""@
        + quotable(run.ligatures) + "\",\"color_glyphs\":\""@ + quotable(run.color_glyphs) + "\"}"@
}

/// What the report says of the frames.
pub open spec fn scenes_text(scenes: CountersModel) -> Seq<char> {
    ",\"samples\":"@ + dec(scenes.count as nat) + ",\"p50_ns\":"@ + dec(
        scenes.percentile(50) as nat,
    ) + ",\"p95_ns\":"@ + dec(scenes.percentile(95) as nat) + ",\"p99_ns\":"@ + dec(
        scenes.percentile(99) as nat,
    )
}

/// What the report says of the caches.
pub open spec fn cache_text(t: CacheTotals) -> Seq<char> {
    ",\"bitmap_cache\":{\"hits\":"@ + dec(t.bitmap_hits as nat) + ",\"misses\":"@ + dec(
        t.bitmap_misses as nat,
    ) + ",\"entries\":"@ + dec(t.cache_entries as nat) + ",\"bytes\":"@ + dec(t.cache_bytes as nat)
        + ",\"evictions\":"@ + dec(t.cache_evictions as nat) + ",\"pinned\":"@ + dec(
        t.cache_pinned as nat,
    )
}

/// What the report says of the atlas.
pub open spec fn atlas_text(t: CacheTotals) -> Seq<char> {
    "},\"atlas\":{\"pages\":"@ + dec(t.atlas_pages as nat) + ",\"gray_pages\":"@ + dec(
        t.atlas_gray_pages as nat,
    ) + ",\"color_pages\":"@ + dec(t.atlas_color_pages as nat) + ",\"entries\":"@ + dec(
        t.atlas_entries as nat,
    ) + ",\"epoch\":"@ + dec(t.atlas_epoch as nat) + ",\"repacks\":"@ + dec(t.atlas_repacks as nat)
        + "}"@
}

pub open spec fn totals_text(registry: RegistryModel) -> Seq<char> {
    scenes_text(registry.stages[PerfStage::SceneBuild.place()]) + cache_text(registry.totals)
        + atlas_text(registry.totals)
}

/// The report on a run.
pub open spec fn report_text(registry: RegistryModel, run: RunModel) -> Seq<char> {
    run_text(run) + totals_text(registry) + ",\"stages\":{"@ + stages_text(registry.stages, 12)
        + "}}\n"@
}

/// What stands before the first white space of a text.
pub open spec fn first_word(s: Seq<char>) -> Seq<char>
    decreases s.len(),
{
    if s.len() == 0 || is_space(s[0]) {
        Seq::empty()
    } else {
        seq![s[0]] + first_word(s.skip(1))
    }
}

/// The size that a line of the process's status gives, if it is the line for it.
pub open spec fn line_rss(line: Seq<char>) -> Option<u64> {
    if has_prefix(line, "VmRSS:"@) {
        let word = first_word(trim_start(line.skip(6)));
        match number_of(word) {
            Some(n) => if n <= u64::MAX {
                Some(n as u64)
            } else {
                None
            },
            None => None,
        }
    } else {
        None
    }
}

/// The size that the first such line of a status gives.
pub open spec fn lines_rss(lines: Seq<Seq<char>>) -> u64
    decreases lines.len(),
{
    if lines.len() == 0 {
        0
    } else {
        match line_rss(lines[0]) {
            Some(n) => n,
            None => lines_rss(lines.skip(1)),
        }
    }
}

/// The size of the process that its status gives, in kibibytes.
pub fn resident_size(status: &str) -> (result: u64)
    ensures
        result == lines_rss(lines_of(status@)),
{
    let chars = chars_of(status);
    let lines = split_lines(&chars);
    let ghost all = texts_view(lines@);
    let mut i: usize = 0;
    assert(all.skip(0) =~= all);
    while i < lines.len()
        invariant
            i <= lines@.len(),
            all == texts_view(lines@),
            all == lines_of(status@),
            lines_rss(all) == lines_rss(all.skip(i as int)),
        decreases lines@.len() - i,
    {
        assert(all.skip(i as int)[0] == lines@[i as int]@);
        match rss_of(&lines[i]) {
            Some(n) => {
                return n;
            },
            None => {},
        }
        assert(all.skip(i as int).skip(1) =~= all.skip(i + 1));
        i += 1;
    }
    0
}

fn rss_of(line: &Vec<char>) -> (result: Option<u64>)
    ensures
        result == line_rss(line@),
{
    proof {
        reveal_strlit("VmRSS:");
    }
    if !starts_with(line, "VmRSS:") {
        return None;
    }
    let rest = vstd::slice::slice_to_vec(
        vstd::slice::slice_subrange(line.as_slice(), 6, line.len()),
    );
    assert(rest@ =~= line@.skip(6));
    let rest = drop_leading(&rest);
    let mut word: Vec<char> = Vec::new();
    let mut i: usize = 0;
    assert(rest@.skip(0) =~= rest@);
    assert(word@ + first_word(rest@) =~= first_word(rest@));
    while i < rest.len() && !is_space_char(rest[i])
        invariant
            i <= rest@.len(),
            word@ + first_word(rest@.skip(i as int)) == first_word(rest@),
        decreases rest@.len() - i,
    {
        let ghost before = word@;
        word.push(rest[i]);
        assert(rest@.skip(i as int).skip(1) =~= rest@.skip(i + 1));
        assert(word@ + first_word(rest@.skip(i + 1)) =~= before + first_word(
            rest@.skip(i as int),
        ));
        i += 1;
    }
    assert(word@ =~= first_word(rest@));
    parse_u64(&word)
}

/// A percentile never lies below a smaller one.
pub proof fn percentiles_are_ordered(counters: CountersModel, low: u64, high: u64)
    requires
        low <= high,
        counters.buckets.len() == BUCKETS,
    ensures
        counters.percentile(low) <= counters.percentile(high),
{
    let a = (capped_sum(capped_product(counters.count, low), 99) / 100) as u64;
    let b = (capped_sum(capped_product(counters.count, high), 99) / 100) as u64;
    assert(counters.count * low <= counters.count * high) by (nonlinear_arith)
        requires
            low <= high,
    ;
    reaching_is_ordered(counters, a, b, 0);
}

proof fn reaching_is_ordered(counters: CountersModel, low: u64, high: u64, i: int)
    requires
        low <= high,
        0 <= i,
        counters.buckets.len() == BUCKETS,
    ensures
        counters.reaching(low, i) <= counters.reaching(high, i),
        i < BUCKETS ==> bucket_limit(i) <= counters.reaching(high, i),
    decreases BUCKETS - i,
{
    if i < BUCKETS {
        reaching_is_ordered(counters, low, high, i + 1);
    }
}

/// A duration is counted in the first class that takes it.
pub proof fn a_duration_fits_its_class(elapsed: u64)
    ensures
        0 <= bucket_of(elapsed) < BUCKETS,
        elapsed <= bucket_limit(bucket_of(elapsed)),
        bucket_of(elapsed) > 0 ==> elapsed > bucket_limit(bucket_of(elapsed) - 1),
{
    fits_from(elapsed, 0);
}

proof fn fits_from(elapsed: u64, i: int)
    requires
        0 <= i < BUCKETS,
        i > 0 ==> elapsed > bucket_limit(i - 1),
    ensures
        i <= bucket_from(elapsed, i) < BUCKETS,
        elapsed <= bucket_limit(bucket_from(elapsed, i)),
        bucket_from(elapsed, i) > 0 ==> elapsed > bucket_limit(bucket_from(elapsed, i) - 1),
    decreases BUCKETS - i,
{
    if !(i >= BUCKETS - 1 || elapsed <= bucket_limit(i)) {
        fits_from(elapsed, i + 1);
    }
}

/// While nothing is measured, nothing changes.
pub proof fn nothing_is_counted_while_off(registry: RegistryModel, stage: PerfStage, elapsed: u64)
    requires
        !registry.enabled,
    ensures
        registry.recorded(stage, elapsed) == registry,
{
}

/// A duration is counted in the first class whose limit it does not exceed.
pub proof fn durations_are_counted_in_their_class(elapsed: u64)
    ensures
        0 <= bucket_of(elapsed) < 12,
        bucket_of(elapsed) < 11 ==> elapsed <= bucket_limit(bucket_of(elapsed)),
        bucket_of(elapsed) > 0 ==> elapsed > bucket_limit(bucket_of(elapsed) - 1),
        bucket_of(0) == 0,
        500 < elapsed <= 1_000 ==> bucket_of(elapsed) == 1,
        5_000_000 < elapsed <= 10_000_000 ==> bucket_of(elapsed) == 6,
        elapsed > 1_000_000_000 ==> bucket_of(elapsed) == 11,
{
    reveal_with_fuel(bucket_from, 13);
}

/// One more duration is one more in all and one more in its class; the total grows by it, and the
/// longest is the longest of all.
pub proof fn a_duration_is_counted_once(counters: CountersModel, elapsed: u64, i: int)
    requires
        counters.buckets.len() == 12,
        counters.count < u64::MAX,
        counters.total_ns + elapsed <= u64::MAX,
        counters.buckets[bucket_of(elapsed)] < u64::MAX,
        0 <= i < 12,
    ensures
        ({
            let now = counters.recorded(elapsed);
            &&& now.count == counters.count + 1
            &&& now.total_ns == counters.total_ns + elapsed
            &&& now.max_ns >= elapsed && now.max_ns >= counters.max_ns
            &&& now.max_ns == elapsed || now.max_ns == counters.max_ns
            &&& i == bucket_of(elapsed) ==> now.buckets[i] == counters.buckets[i] + 1
            &&& i != bucket_of(elapsed) ==> now.buckets[i] == counters.buckets[i]
        }),
{
    durations_are_counted_in_their_class(elapsed);
}

/// Each stage is counted for itself, under its own name, and only while it is measured.
pub proof fn stages_are_counted_apart(m: RegistryModel, a: PerfStage, b: PerfStage, elapsed: u64)
    requires
        m.stages.len() == 12,
    ensures
        a != b ==> m.recorded(a, elapsed).stages[b.place()] == m.stages[b.place()],
        m.enabled ==> m.recorded(a, elapsed).stages[a.place()] == m.stages[a.place()].recorded(
            elapsed,
        ),
        !m.enabled ==> m.recorded(a, elapsed) == m,
        stage_at(a.place()) == a,
        0 <= a.place() < 12,
{
}

/// A percentile is the limit of a class up to which that share of the durations is counted, and up
/// to the class before it a smaller share.
pub proof fn a_percentile_is_reached_by_its_share(counters: CountersModel, target: u64, i: int)
    requires
        0 <= i < counters.buckets.len() == 12,
        counters.up_to(i) < target,
        counters.up_to(12) >= target,
    ensures
        exists|k: int|
            i <= k < 12 && counters.reaching(target, i) == #[trigger] bucket_limit(k)
                && counters.up_to(k + 1) >= target && counters.up_to(k) < target,
    decreases 12 - i,
{
    if counters.up_to(i + 1) >= target {
        assert(counters.reaching(target, i) == bucket_limit(i));
    } else {
        a_percentile_is_reached_by_its_share(counters, target, i + 1);
        let k = choose|k: int|
            i + 1 <= k < 12 && counters.reaching(target, i + 1) == #[trigger] bucket_limit(k)
                && counters.up_to(k + 1) >= target && counters.up_to(k) < target;
        assert(counters.reaching(target, i) == bucket_limit(k));
    }
}

/// Half of an even number of durations is half of them, and the share of all is all of them.
pub proof fn shares_are_rounded_up(counters: CountersModel)
    requires
        0 < counters.count <= 1_000_000_000,
    ensures
        counters.percentile(100) == counters.reaching(counters.count, 0),
        counters.count % 2 == 0 ==> counters.percentile(50) == counters.reaching(
            (counters.count / 2) as u64,
            0,
        ),
        counters.count % 2 == 1 ==> counters.percentile(50) == counters.reaching(
            (counters.count / 2 + 1) as u64,
            0,
        ),
{
}

} // verus!
