use vstd::prelude::*;

verus! {

/// Declares `std::time::Instant` so that a section's start can be held.
#[verifier::external_type_specification]
#[verifier::external_body]
pub struct ExInstant(std::time::Instant);

/// Relies on `Instant::now`: reads the monotonic clock.
#[verifier::external_body]
fn clock_now() -> (r: std::time::Instant) {
    std::time::Instant::now()
}

/// Relies on `Instant::elapsed`: the time that passed since `start`.
#[verifier::external_body]
fn clock_elapsed(start: &std::time::Instant) -> (r: std::time::Duration) {
    start.elapsed()
}

/// Relies on `Duration::as_nanos`: the whole duration in nanoseconds.
#[verifier::external_body]
fn duration_nanos(d: &std::time::Duration) -> (r: u128) {
    d.as_nanos()
}

/// `a + b`, held at `u64::MAX`.
pub open spec fn sat_add(a: u64, b: u64) -> u64 {
    if a + b > u64::MAX {
        u64::MAX
    } else {
        (a + b) as u64
    }
}

pub open spec fn min_u64(a: u64, b: u64) -> u64 {
    if a <= b {
        a
    } else {
        b
    }
}

pub open spec fn max_u64(a: u64, b: u64) -> u64 {
    if a >= b {
        a
    } else {
        b
    }
}

/// Timing statistics of one named section; all times are in nanoseconds.
#[derive(Clone, Copy, Debug)]
pub struct SectionStats {
    pub total_time: u64,
    pub call_count: u64,
    pub min_time: Option<u64>,
    pub max_time: Option<u64>,
}

/// The name and statistics of a section, as the contracts see them.
pub type SectionView = (Seq<char>, SectionStats);

impl SectionStats {
    /// The statistics of a section after its first sample `e`.
    pub open spec fn first_spec(e: u64) -> SectionStats {
        SectionStats { total_time: e, call_count: 1, min_time: Some(e), max_time: Some(e) }
    }

    /// The statistics after one more sample `e`.
    pub open spec fn with_sample_spec(self, e: u64) -> SectionStats {
        SectionStats {
            total_time: sat_add(self.total_time, e),
            call_count: sat_add(self.call_count, 1),
            min_time: Some(
                match self.min_time {
                    Some(m) => min_u64(m, e),
                    None => e,
                },
            ),
            max_time: Some(
                match self.max_time {
                    Some(m) => max_u64(m, e),
                    None => e,
                },
            ),
        }
    }

    /// Mean time per call; zero for a section that was never called.
    pub open spec fn avg_spec(self) -> u64 {
        if self.call_count == 0 {
            0
        } else {
            (self.total_time / self.call_count) as u64
        }
    }

    fn first(e: u64) -> (r: SectionStats)
        ensures
            r == SectionStats::first_spec(e),
    {
        SectionStats { total_time: e, call_count: 1, min_time: Some(e), max_time: Some(e) }
    }

    fn with_sample(&self, e: u64) -> (r: SectionStats)
        ensures
            r == self.with_sample_spec(e),
    {
        let min_time = match self.min_time {
            Some(m) => if m <= e {
                m
            } else {
                e
            },
            None => e,
        };
        let max_time = match self.max_time {
            Some(m) => if m >= e {
                m
            } else {
                e
            },
            None => e,
        };
        SectionStats {
            total_time: self.total_time.saturating_add(e),
            call_count: self.call_count.saturating_add(1),
            min_time: Some(min_time),
            max_time: Some(max_time),
        }
    }

    /// Mean time per call in nanoseconds (zero when there was no call).
    pub fn avg_time(&self) -> (r: u64)
        ensures
            r == self.avg_spec(),
    {
        if self.call_count == 0 {
            0
        } else {
            self.total_time / self.call_count
        }
    }
}

/// Whether the names in `v` are pairwise distinct.
pub open spec fn names_unique(v: Seq<SectionView>) -> bool {
    forall|i: int, j: int| 0 <= i < j < v.len() ==> v[i].0 != v[j].0
}

/// Whether a section named `name` is in `v`.
pub open spec fn has_section(v: Seq<SectionView>, name: Seq<char>) -> bool {
    exists|i: int| 0 <= i < v.len() && v[i].0 == name
}

/// The position of the section named `name` (meaningful when it is present).
pub open spec fn section_pos(v: Seq<SectionView>, name: Seq<char>) -> int {
    choose|i: int| 0 <= i < v.len() && v[i].0 == name
}

/// The statistics of the section named `name`, if there is one.
pub open spec fn lookup(v: Seq<SectionView>, name: Seq<char>) -> Option<SectionStats> {
    if has_section(v, name) {
        Some(v[section_pos(v, name)].1)
    } else {
        None
    }
}

/// The sections after a sample `e` of `name`: an existing section is
/// updated in place, a new one is added at the end.
pub open spec fn record_in(v: Seq<SectionView>, name: Seq<char>, e: u64) -> Seq<SectionView> {
    if has_section(v, name) {
        let i = section_pos(v, name);
        v.update(i, (name, v[i].1.with_sample_spec(e)))
    } else {
        v.push((name, SectionStats::first_spec(e)))
    }
}

/// Collects timing statistics for named sections of code.
pub struct Profiler {
    sections: Vec<(String, SectionStats)>,
    current_section: Option<(String, std::time::Instant)>,
    tick_count: u64,
}

impl Profiler {
    /// The sections, in order of first use, with their statistics.
    pub closed spec fn sections(&self) -> Seq<SectionView> {
        self.sections@.map_values(|p: (String, SectionStats)| (p.0@, p.1))
    }

    /// The name of the section being timed, if any.
    pub closed spec fn current_name(&self) -> Option<Seq<char>> {
        match self.current_section {
            Some(c) => Some(c.0@),
            None => None,
        }
    }

    pub closed spec fn ticks(&self) -> u64 {
        self.tick_count
    }

    /// Section names are unique.
    pub open spec fn wf(&self) -> bool {
        names_unique(self.sections())
    }

    pub fn new() -> (r: Profiler)
        ensures
            r.wf(),
            r.sections() == Seq::<SectionView>::empty(),
            r.current_name() is None,
            r.ticks() == 0,
    {
        let r = Profiler { sections: Vec::new(), current_section: None, tick_count: 0 };
        assert(r.sections() =~= Seq::<SectionView>::empty());
        r
    }

    /// Starts timing the section `name`; a section already being timed is
    /// dropped unrecorded.
    pub fn begin_section(&mut self, name: &str)
        requires
            old(self).wf(),
        ensures
            final(self).wf(),
            final(self).current_name() == Some(name@),
            final(self).sections() == old(self).sections(),
            final(self).ticks() == old(self).ticks(),
    {
        let start = clock_now();
        self.current_section = Some((name.to_owned(), start));
    }

    /// Adds one sample of `elapsed` nanoseconds to the section `name`.
    pub fn record_sample(&mut self, name: String, elapsed: u64)
        requires
            old(self).wf(),
        ensures
            final(self).wf(),
            final(self).sections() == record_in(old(self).sections(), name@, elapsed),
            final(self).current_name() == old(self).current_name(),
            final(self).ticks() == old(self).ticks(),
    {
        let ghost v = self.sections();
        let mut i: usize = 0;
        while i < self.sections.len()
            invariant
                self.sections() == v,
                self.current_section == old(self).current_section,
                self.tick_count == old(self).tick_count,
                v == old(self).sections(),
                names_unique(v),
                0 <= i <= v.len(),
                forall|k: int| 0 <= k < i ==> v[k].0 != name@,
            decreases self.sections.len() - i,
        {
            if self.sections[i].0 == name {
                proof {
                    assert(v[i as int].0 == name@);
                    assert(has_section(v, name@));
                    let j = section_pos(v, name@);
                    assert(v[j].0 == name@);
                    assert(j == i);
                }
                let updated = self.sections[i].1.with_sample(elapsed);
                self.sections[i] = (name, updated);
                assert(self.sections() =~= record_in(v, name@, elapsed));
                return;
            }
            i = i + 1;
        }
        assert(!has_section(v, name@));
        self.sections.push((name, SectionStats::first(elapsed)));
        assert(self.sections() =~= record_in(v, name@, elapsed));
    }

    /// Stops timing the current section, if any, and records the time
    /// that passed since it began.
    pub fn end_section(&mut self)
        requires
            old(self).wf(),
        ensures
            final(self).wf(),
            final(self).current_name() is None,
            final(self).ticks() == old(self).ticks(),
            old(self).current_name() is None ==> final(self).sections() == old(self).sections(),
            old(self).current_name() is Some ==> exists|e: u64|
                final(self).sections() == record_in(
                    old(self).sections(),
                    old(self).current_name()->0,
                    e,
                ),
    {
        match self.current_section.take() {
            Some((name, start)) => {
                let d = clock_elapsed(&start);
                let n = duration_nanos(&d);
                let e: u64 = if n > u64::MAX as u128 {
                    u64::MAX
                } else {
                    n as u64
                };
                self.record_sample(name, e);
                assert(final(self).sections() == record_in(old(self).sections(), old(self).current_name()->0, e));
            },
            None => {},
        }
    }

    /// Times one call of `f` as the section `name` and returns its result.
    pub fn time_section<F, R>(&mut self, name: &str, f: F) -> (r: R)
        where
            F: FnOnce() -> R,
        requires
            old(self).wf(),
            f.requires(()),
        ensures
            final(self).wf(),
            f.ensures((), r),
            final(self).current_name() is None,
            final(self).ticks() == old(self).ticks(),
            exists|e: u64| final(self).sections() == record_in(old(self).sections(), name@, e),
    {
        self.begin_section(name);
        let result = f();
        self.end_section();
        result
    }

    /// Counts one more profiled tick (held at `u64::MAX`).
    pub fn tick(&mut self)
        ensures
            final(self).ticks() == sat_add(old(self).ticks(), 1),
            final(self).sections() == old(self).sections(),
            final(self).current_name() == old(self).current_name(),
            final(self).wf() == old(self).wf(),
    {
        self.tick_count = self.tick_count.saturating_add(1);
    }

    /// Number of profiled ticks.
    pub fn tick_count(&self) -> (r: u64)
        ensures
            r == self.ticks(),
    {
        self.tick_count
    }

    /// Statistics of the section `name`, if it was ever recorded.
    pub fn get_section(&self, name: &str) -> (r: Option<&SectionStats>)
        requires
            self.wf(),
        ensures
            match r {
                Some(s) => lookup(self.sections(), name@) == Some(*s),
                None => lookup(self.sections(), name@) is None,
            },
    {
        let key = name.to_owned();
        let ghost v = self.sections();
        let mut i: usize = 0;
        while i < self.sections.len()
            invariant
                v == self.sections(),
                names_unique(v),
                key@ == name@,
                0 <= i <= v.len(),
                forall|k: int| 0 <= k < i ==> v[k].0 != name@,
            decreases self.sections.len() - i,
        {
            if self.sections[i].0 == key {
                proof {
                    assert(v[i as int].0 == name@);
                    assert(has_section(v, name@));
                    let j = section_pos(v, name@);
                    assert(j == i);
                }
                return Some(&self.sections[i].1);
            }
            i = i + 1;
        }
        assert(!has_section(v, name@));
        None
    }

    /// Names of all recorded sections, in order of first use.
    pub fn section_names(&self) -> (r: Vec<&str>)
        ensures
            r@.len() == self.sections().len(),
            forall|i: int| 0 <= i < r@.len() ==> r@[i]@ == self.sections()[i].0,
    {
        let mut r: Vec<&str> = Vec::new();
        let mut i: usize = 0;
        while i < self.sections.len()
            invariant
                0 <= i <= self.sections@.len(),
                r@.len() == i,
                forall|k: int| 0 <= k < i ==> r@[k]@ == self.sections()[k].0,
            decreases self.sections.len() - i,
        {
            r.push(self.sections[i].0.as_str());
            i = i + 1;
        }
        r
    }

    /// Forgets all sections, the current section and the tick count.
    pub fn reset(&mut self)
        ensures
            final(self).wf(),
            final(self).sections() == Seq::<SectionView>::empty(),
            final(self).current_name() is None,
            final(self).ticks() == 0,
    {
        self.sections.clear();
        self.current_section = None;
        self.tick_count = 0;
        assert(self.sections() =~= Seq::<SectionView>::empty());
    }
}

/// Accumulates the total time of the ticks of a long run (in nanoseconds)
/// beside a profiler of its sections.
pub struct StressProfiler {
    pub profiler: Profiler,
    pub total_time: u64,
}

impl StressProfiler {
    pub fn new() -> (r: StressProfiler)
        ensures
            r.profiler.wf(),
            r.profiler.sections() == Seq::<SectionView>::empty(),
            r.profiler.ticks() == 0,
            r.total_time == 0,
    {
        StressProfiler { profiler: Profiler::new(), total_time: 0 }
    }

    /// Records one tick that took `duration` nanoseconds.
    pub fn record_tick(&mut self, duration: u64)
        ensures
            final(self).total_time == sat_add(old(self).total_time, duration),
            final(self).profiler.ticks() == sat_add(old(self).profiler.ticks(), 1),
            final(self).profiler.sections() == old(self).profiler.sections(),
            final(self).profiler.current_name() == old(self).profiler.current_name(),
            final(self).profiler.wf() == old(self).profiler.wf(),
    {
        self.total_time = self.total_time.saturating_add(duration);
        self.profiler.tick();
    }
}

} // verus!
