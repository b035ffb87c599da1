//! The run data that the savers read, modelled as plain values: a time
//! span as a count of 100-nanosecond ticks, a time as its optional
//! timing-method components, segments with their comparison times and
//! icons, and the run itself. The timer engine that fills this data in
//! (attempt history, comparison generation, extended category naming)
//! stays outside this crate.

use vstd::prelude::*;
use crate::image::Image;
use crate::text::seq_assoc;

verus! {

/// Ticks per millisecond: one tick is 100 nanoseconds.
pub const TICKS_PER_MILLISECOND: i64 = 10_000;

/// Ticks per second.
pub const TICKS_PER_SECOND: i64 = 10_000_000;

/// A span of time, counted in 100-nanosecond ticks.
#[derive(Clone, Copy, PartialEq, Eq, Structural, Debug)]
pub struct TimeSpan {
    pub ticks: i64,
}

impl TimeSpan {
    /// The zero time span.
    pub fn zero() -> (r: TimeSpan)
        ensures
            r.ticks == 0,
    {
        TimeSpan { ticks: 0 }
    }

    /// A time span of the given tick count.
    pub fn from_ticks(ticks: i64) -> (r: TimeSpan)
        ensures
            r.ticks == ticks,
    {
        TimeSpan { ticks }
    }

    /// A time span of the given whole milliseconds.
    pub fn from_milliseconds(ms: i64) -> (r: TimeSpan)
        requires
            -900_000_000_000_000 <= ms <= 900_000_000_000_000,
        ensures
            r.ticks == ms * TICKS_PER_MILLISECOND,
    {
        TimeSpan { ticks: ms * TICKS_PER_MILLISECOND }
    }

    /// The negated span.
    pub fn negated(self) -> (r: TimeSpan)
        requires
            self.ticks > i64::MIN,
        ensures
            r.ticks == -self.ticks,
    {
        TimeSpan { ticks: -self.ticks }
    }
}

/// A time: its real-time and game-time components, each optional.
#[derive(Clone, Copy, Debug)]
pub struct Time {
    pub real_time: Option<TimeSpan>,
    pub game_time: Option<TimeSpan>,
}

impl Time {
    /// The empty time: neither component present.
    pub fn empty() -> (r: Time)
        ensures
            r.real_time is None,
            r.game_time is None,
    {
        Time { real_time: None, game_time: None }
    }

    /// A time of the given real-time component alone.
    pub fn from_real_time(real_time: Option<TimeSpan>) -> (r: Time)
        ensures
            r.real_time == real_time,
            r.game_time is None,
    {
        Time { real_time, game_time: None }
    }
}

/// The comparison time stored under `name` in a comparison list, looked
/// up from position `k` on; the empty time when the name is absent.
pub open spec fn comparison_in(list: Seq<(String, Time)>, name: Seq<char>, k: int) -> Time
    decreases list.len() - k,
{
    if !(0 <= k < list.len()) {
        Time { real_time: None, game_time: None }
    } else if list[k].0@ == name {
        list[k].1
    } else {
        comparison_in(list, name, k + 1)
    }
}

/// A time whose components can safely be negated and measured: no
/// component sits at the very minimum tick count.
pub open spec fn time_wf(t: Time) -> bool {
    t.real_time matches Some(ts) ==> ts.ticks > i64::MIN
}

/// Every time a segment carries is well-formed.
pub open spec fn segment_times_wf(s: Segment) -> bool {
    &&& time_wf(s.personal_best_split_time)
    &&& time_wf(s.best_segment_time)
    &&& forall|j: int| 0 <= j < s.comparisons@.len() ==> time_wf(#[trigger] s.comparisons@[j].1)
}

/// Every time a run carries is well-formed, its offset included.
pub open spec fn run_times_wf(run: Run) -> bool {
    &&& run.offset.ticks > i64::MIN
    &&& forall|i: int| 0 <= i < run.segments@.len() ==> segment_times_wf(#[trigger] run.segments@[i])
}

/// A looked-up comparison time is well-formed when the list is.
pub proof fn lemma_comparison_in_wf(list: Seq<(String, Time)>, name: Seq<char>, k: int)
    requires
        forall|j: int| 0 <= j < list.len() ==> time_wf(#[trigger] list[j].1),
    ensures
        time_wf(comparison_in(list, name, k)),
    decreases list.len() - k,
{
    if 0 <= k < list.len() && list[k].0@ != name {
        lemma_comparison_in_wf(list, name, k + 1);
    }
}

/// One segment of a run: its name, its icon, its personal-best and
/// best-segment times, and its named comparison times.
#[derive(Clone, Debug)]
pub struct Segment {
    pub name: String,
    pub icon: Image,
    pub personal_best_split_time: Time,
    pub best_segment_time: Time,
    pub comparisons: Vec<(String, Time)>,
}

impl Segment {
    /// A fresh segment of the given name, with nothing else set.
    pub fn new(name: &str) -> (r: Segment)
        ensures
            r.name@ == name@,
            r.icon.url_view().len() == 0,
            r.personal_best_split_time.real_time is None,
            r.best_segment_time.real_time is None,
            r.comparisons@.len() == 0,
    {
        Segment {
            name: String::from_str(name),
            icon: Default::default(),
            personal_best_split_time: Time::empty(),
            best_segment_time: Time::empty(),
            comparisons: Vec::new(),
        }
    }

    /// The segment's name.
    pub fn name(&self) -> (r: &str)
        ensures
            r@ == self.name@,
    {
        self.name.as_str()
    }

    /// The segment's icon.
    pub fn icon(&self) -> (r: &Image)
        ensures
            *r == self.icon,
    {
        &self.icon
    }

    /// The personal-best split time.
    pub fn personal_best_split_time(&self) -> (r: Time)
        ensures
            r == self.personal_best_split_time,
    {
        self.personal_best_split_time
    }

    /// The best segment time.
    pub fn best_segment_time(&self) -> (r: Time)
        ensures
            r == self.best_segment_time,
    {
        self.best_segment_time
    }

    /// The comparison time stored under `name`; empty when absent.
    pub fn comparison(&self, name: &str) -> (r: Time)
        ensures
            r == comparison_in(self.comparisons@, name@, 0),
    {
        let mut k: usize = 0;
        while k < self.comparisons.len()
            invariant
                0 <= k <= self.comparisons@.len(),
                comparison_in(self.comparisons@, name@, 0) == comparison_in(
                    self.comparisons@,
                    name@,
                    k as int,
                ),
            decreases self.comparisons@.len() - k,
        {
            if crate::text::str_eq(self.comparisons[k].0.as_str(), name) {
                return self.comparisons[k].1;
            }
            k += 1;
        }
        Time::empty()
    }

    /// Stores a comparison time under `name`, at the end of the list.
    pub fn push_comparison(&mut self, name: &str, time: Time)
        ensures
            final(self).comparisons@.len() == old(self).comparisons@.len() + 1,
            final(self).comparisons@[old(self).comparisons@.len() as int].0@ == name@,
            final(self).comparisons@[old(self).comparisons@.len() as int].1 == time,
            final(self).comparisons@.subrange(0, old(self).comparisons@.len() as int) == old(
                self,
            ).comparisons@,
            final(self).name == old(self).name,
            final(self).icon == old(self).icon,
            final(self).personal_best_split_time == old(self).personal_best_split_time,
            final(self).best_segment_time == old(self).best_segment_time,
    {
        self.comparisons.push((String::from_str(name), time));
    }
}

/// A run: the game and category it belongs to, its attempt count, its
/// start offset, and its segments.
#[derive(Clone, Debug)]
pub struct Run {
    pub game_name: String,
    pub category_name: String,
    pub attempt_count: u32,
    pub offset: TimeSpan,
    pub segments: Vec<Segment>,
}

impl Run {
    /// A fresh, empty run.
    pub fn new() -> (r: Run)
        ensures
            r.game_name@.len() == 0,
            r.category_name@.len() == 0,
            r.attempt_count == 0,
            r.offset.ticks == 0,
            r.segments@.len() == 0,
    {
        Run {
            game_name: String::new(),
            category_name: String::new(),
            attempt_count: 0,
            offset: TimeSpan { ticks: 0 },
            segments: Vec::new(),
        }
    }

    /// The run's full name: game and category joined, skipping an empty
    /// part. The decorated category naming that the timer engine offers
    /// is outside this model, so the flag selecting it changes nothing
    /// here.
    pub open spec fn extended_name_spec(self) -> Seq<char> {
        if self.game_name@.len() == 0 {
            self.category_name@
        } else if self.category_name@.len() == 0 {
            self.game_name@
        } else {
            self.game_name@ + " - "@ + self.category_name@
        }
    }

    /// Computes the run's full name, as [`Run::extended_name_spec`]
    /// describes.
    pub fn extended_name(&self, _use_extended_category_name: bool) -> (r: String)
        ensures
            r@ == self.extended_name_spec(),
    {
        if self.game_name.as_str().is_empty() {
            self.category_name.clone()
        } else if self.category_name.as_str().is_empty() {
            self.game_name.clone()
        } else {
            let mut out = self.game_name.clone();
            out.append(" - ");
            out.append(self.category_name.as_str());
            proof {
                seq_assoc(self.game_name@, " - "@, self.category_name@);
            }
            out
        }
    }

    /// The number of attempts recorded on this run.
    pub fn attempt_count(&self) -> (r: u32)
        ensures
            r == self.attempt_count,
    {
        self.attempt_count
    }

    /// The start offset.
    pub fn offset(&self) -> (r: TimeSpan)
        ensures
            r == self.offset,
    {
        self.offset
    }

    /// The run's segments.
    pub fn segments(&self) -> (r: &Vec<Segment>)
        ensures
            r@ == self.segments@,
    {
        &self.segments
    }

    /// Appends a segment to the run.
    pub fn push_segment(&mut self, segment: Segment)
        ensures
            final(self).segments@ == old(self).segments@.push(segment),
            final(self).game_name == old(self).game_name,
            final(self).category_name == old(self).category_name,
            final(self).attempt_count == old(self).attempt_count,
            final(self).offset == old(self).offset,
    {
        self.segments.push(segment);
    }
}

} // verus!
