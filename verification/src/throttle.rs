//! Throttled debug output: in each category at most one line per interval.

use vstd::prelude::*;

verus! {

/// The time from one moment to another in nanoseconds; none where the clock
/// went back.
pub open spec fn elapsed(from: int, to: int) -> int {
    if from <= to {
        to - from
    } else {
        0
    }
}

/// Whether at least so many milliseconds lie between two moments given in
/// nanoseconds.
pub open spec fn at_least_millis(from: int, to: int, millis: int) -> bool {
    elapsed(from, to) >= millis * 1000000
}

/// The time from one moment to another in nanoseconds.
pub fn elapsed_nanos(from: u64, to: u64) -> (r: u64)
    ensures
        r == elapsed(from as int, to as int),
{
    if from <= to {
        to - from
    } else {
        0
    }
}

/// Whether at least so many milliseconds lie between two moments.
pub fn millis_passed(from: u64, to: u64, millis: u64) -> (r: bool)
    ensures
        r == at_least_millis(from as int, to as int, millis as int),
{
    elapsed_nanos(from, to) as u128 >= millis as u128 * 1000000
}

/// The categories of debug output.
#[derive(Debug, Clone, Copy, PartialEq, Eq, Structural)]
pub enum LogCategory {
    Sensor,
    Absolute,
    Gap,
    Relative,
}

/// When each category was last written, and whether anything is written at all.
#[derive(Debug, Clone, Copy)]
pub struct LogThrottle {
    pub debug: bool,
    pub interval_ms: u64,
    pub sensor: Option<u64>,
    pub absolute: Option<u64>,
    pub gap: Option<u64>,
    pub relative: Option<u64>,
}

impl LogThrottle {
    /// When the category was last written.
    pub open spec fn last(self, category: LogCategory) -> Option<u64> {
        match category {
            LogCategory::Sensor => self.sensor,
            LogCategory::Absolute => self.absolute,
            LogCategory::Gap => self.gap,
            LogCategory::Relative => self.relative,
        }
    }

    /// Whether a line of the category is due at `now`.
    pub open spec fn due(self, category: LogCategory, now: u64) -> bool {
        self.debug && match self.last(category) {
            Some(t) => at_least_millis(t as int, now as int, self.interval_ms as int),
            None => true,
        }
    }

    /// The throttle after a line of the category was written at `now`.
    pub open spec fn written(self, category: LogCategory, now: u64) -> LogThrottle {
        match category {
            LogCategory::Sensor => LogThrottle { sensor: Some(now), ..self },
            LogCategory::Absolute => LogThrottle { absolute: Some(now), ..self },
            LogCategory::Gap => LogThrottle { gap: Some(now), ..self },
            LogCategory::Relative => LogThrottle { relative: Some(now), ..self },
        }
    }

    /// The throttle after a line of the category was offered at `now`.
    pub open spec fn offered(self, category: LogCategory, now: u64) -> LogThrottle {
        if self.due(category, now) {
            self.written(category, now)
        } else {
            self
        }
    }

    /// The throttle before anything was written.
    pub open spec fn fresh(debug: bool, interval_ms: u64) -> LogThrottle {
        LogThrottle { debug, interval_ms, sensor: None, absolute: None, gap: None, relative: None }
    }

    pub fn new(debug: bool, interval_ms: u64) -> (r: Self)
        ensures
            r == LogThrottle::fresh(debug, interval_ms),
            r == (LogThrottle {
                debug,
                interval_ms,
                sensor: None,
                absolute: None,
                gap: None,
                relative: None,
            }),
    {
        LogThrottle { debug, interval_ms, sensor: None, absolute: None, gap: None, relative: None }
    }

    /// Whether a line of the category is to be written at `now`, a moment in
    /// nanoseconds; if so, it counts as written.
    pub fn should_log(&mut self, category: LogCategory, now: u64) -> (r: bool)
        ensures
            r == old(self).due(category, now),
            *final(self) == old(self).offered(category, now),
    {
        if !self.debug {
            return false;
        }
        let last: Option<u64> = match category {
            LogCategory::Sensor => self.sensor,
            LogCategory::Absolute => self.absolute,
            LogCategory::Gap => self.gap,
            LogCategory::Relative => self.relative,
        };
        let due: bool = match last {
            Some(t) => millis_passed(t, now, self.interval_ms),
            None => true,
        };
        if due {
            match category {
                LogCategory::Sensor => {
                    self.sensor = Some(now);
                },
                LogCategory::Absolute => {
                    self.absolute = Some(now);
                },
                LogCategory::Gap => {
                    self.gap = Some(now);
                },
                LogCategory::Relative => {
                    self.relative = Some(now);
                },
            }
        }
        due
    }
}

/// The throttle after lines were offered one after the other.
pub open spec fn offered_all(
    start: LogThrottle,
    offers: Seq<(LogCategory, u64)>,
) -> LogThrottle
    decreases offers.len(),
{
    if offers.len() == 0 {
        start
    } else {
        offered_all(start, offers.drop_last()).offered(offers.last().0, offers.last().1)
    }
}

/// Whether the line offered at a position is written.
pub open spec fn line_written(
    start: LogThrottle,
    offers: Seq<(LogCategory, u64)>,
    i: int,
) -> bool {
    offered_all(start, offers.take(i)).due(offers[i].0, offers[i].1)
}

proof fn lemma_written_is_remembered(
    start: LogThrottle,
    offers: Seq<(LogCategory, u64)>,
    i: int,
    k: int,
)
    requires
        0 <= i < k <= offers.len(),
        forall|p: int, q: int|
            0 <= p < q < offers.len() ==> (#[trigger] offers[p]).1 <= (#[trigger] offers[q]).1,
        line_written(start, offers, i),
    ensures
        ({
            let s = offered_all(start, offers.take(k));
            &&& s.last(offers[i].0) is Some
            &&& s.last(offers[i].0).unwrap() >= offers[i].1
            &&& s.interval_ms == start.interval_ms
        }),
    decreases k,
{
    lemma_interval_is_kept(start, offers.take(k));
    assert(offers.take(k).drop_last() =~= offers.take(k - 1));
    assert(offers.take(k).last() == offers[k - 1]);
    if i < k - 1 {
        lemma_written_is_remembered(start, offers, i, k - 1);
    }
}

proof fn lemma_interval_is_kept(start: LogThrottle, offers: Seq<(LogCategory, u64)>)
    ensures
        offered_all(start, offers).interval_ms == start.interval_ms,
        offered_all(start, offers).debug == start.debug,
    decreases offers.len(),
{
    if offers.len() > 0 {
        lemma_interval_is_kept(start, offers.drop_last());
    }
}

/// Between two lines of one category that are written there lies at least the
/// interval, whatever is offered in between, as long as the clock does not go
/// back.
pub proof fn written_lines_are_spaced(
    start: LogThrottle,
    offers: Seq<(LogCategory, u64)>,
    i: int,
    j: int,
)
    requires
        0 <= i < j < offers.len(),
        forall|p: int, q: int|
            0 <= p < q < offers.len() ==> (#[trigger] offers[p]).1 <= (#[trigger] offers[q]).1,
        offers[i].0 == offers[j].0,
        line_written(start, offers, i),
        line_written(start, offers, j),
    ensures
        offers[j].1 - offers[i].1 >= start.interval_ms * 1000000,
{
    lemma_written_is_remembered(start, offers, i, j);
}

/// Without debug output no line is ever written.
pub proof fn quiet_without_debug(start: LogThrottle, offers: Seq<(LogCategory, u64)>, i: int)
    requires
        !start.debug,
        0 <= i < offers.len(),
    ensures
        !line_written(start, offers, i),
{
    lemma_interval_is_kept(start, offers.take(i));
}


/// Time is counted from the earlier moment to the later one and never runs
/// backwards; so many milliseconds have passed exactly if that many millions of
/// nanoseconds have.
pub proof fn time_is_counted(from: u64, to: u64, after: u64, millis: u64)
    requires
        from <= to,
    ensures
        from + elapsed(from as int, to as int) == to,
        elapsed(to as int, from as int) == 0,
        to <= after ==> elapsed(from as int, after as int) == elapsed(from as int, to as int)
            + elapsed(to as int, after as int),
        at_least_millis(from as int, to as int, millis as int) <==> from + millis * 1000000 <= to,
        at_least_millis(to as int, from as int, millis as int) <==> millis == 0,
{
}

/// With debug output a line is written exactly if none of its category was
/// written yet, or the interval has passed since the last one that was. Lines of
/// other categories do not count.
pub proof fn line_is_written_when_due(t: LogThrottle, category: LogCategory, now: u64)
    ensures
        t.due(category, now) ==> t.debug,
        t.debug && t.last(category) is None ==> t.due(category, now),
        t.debug ==> (t.last(category) matches Some(at) ==> at <= now ==> (t.due(category, now)
            <==> at + t.interval_ms * 1000000 <= now)),
        t.offered(category, now).last(category) == if t.due(category, now) {
            Some(now)
        } else {
            t.last(category)
        },
        forall|other: LogCategory|
            other != category ==> #[trigger] t.offered(category, now).last(other) == t.last(other),
        t.offered(category, now).debug == t.debug,
        t.offered(category, now).interval_ms == t.interval_ms,
{
}

/// A category is only held up by its own lines: the first line of a category is
/// written, whatever was offered in others before.
pub proof fn first_line_of_a_category_is_written(
    start: LogThrottle,
    offers: Seq<(LogCategory, u64)>,
    i: int,
)
    requires
        start.debug,
        0 <= i < offers.len(),
        start.last(offers[i].0) is None,
        forall|j: int| 0 <= j < i ==> (#[trigger] offers[j]).0 != offers[i].0,
    ensures
        line_written(start, offers, i),
{
    lemma_other_lines_do_not_count(start, offers.take(i), offers[i].0);
    lemma_interval_is_kept(start, offers.take(i));
}

proof fn lemma_other_lines_do_not_count(
    start: LogThrottle,
    offers: Seq<(LogCategory, u64)>,
    category: LogCategory,
)
    requires
        forall|j: int| 0 <= j < offers.len() ==> (#[trigger] offers[j]).0 != category,
    ensures
        offered_all(start, offers).last(category) == start.last(category),
    decreases offers.len(),
{
    if offers.len() > 0 {
        assert(offers[offers.len() - 1] == offers.last());
        assert forall|j: int| 0 <= j < offers.drop_last().len() implies (
        #[trigger] offers.drop_last()[j]).0 != category by {
            assert(offers.drop_last()[j] == offers[j]);
        }
        lemma_other_lines_do_not_count(start, offers.drop_last(), category);
    }
}

/// At the beginning a line of every category is due, if any is to be written.
pub proof fn every_category_starts_due(
    debug: bool,
    interval_ms: u64,
    category: LogCategory,
    now: u64,
)
    ensures
        LogThrottle::fresh(debug, interval_ms).due(category, now) <==> debug,
        LogThrottle::fresh(debug, interval_ms).interval_ms == interval_ms,
{
}

} // verus!
