//! The weekly calendar of hours at which the computer may be used.

use vstd::prelude::*;

verus! {

/// One allowed range of hours on one day of the week.
#[derive(Clone, Copy, Debug, PartialEq, Eq, Structural)]
pub struct DayDefinition {
    /// The day of the week (0 = Sunday, 1 = Monday, ...).
    pub day: u8,
    /// The first allowed hour (0-23).
    pub start_time: u8,
    /// The last allowed hour (0-23), inclusive.
    pub end_time: u8,
}

/// The whole weekly calendar: the ranges are kept in the order they were added.
#[derive(Debug)]
pub struct PlayTime {
    pub days: Vec<DayDefinition>,
}

/// `def` allows the computer at `hour` of `day`.
pub open spec fn allows(def: DayDefinition, day: u8, hour: u8) -> bool {
    def.day == day && def.start_time <= hour && hour <= def.end_time
}

/// Some range of `days` allows the computer at `hour` of `day`.
pub open spec fn is_allowed(days: Seq<DayDefinition>, day: u8, hour: u8) -> bool {
    exists|i: int| 0 <= i < days.len() && allows(#[trigger] days[i], day, hour)
}

/// The ranges of `days` that are not on `day`, in their order.
pub open spec fn days_without(days: Seq<DayDefinition>, day: u8) -> Seq<DayDefinition> {
    days.filter(|d: DayDefinition| d.day != day)
}

impl PlayTime {
    /// An empty calendar: no hour is allowed.
    pub fn new() -> (r: Self)
        ensures
            r.days@ == Seq::<DayDefinition>::empty(),
    {
        PlayTime { days: Vec::new() }
    }

    /// Add a day to the play time definition.
    ///
    /// * `day` - The day of the week (0 = Sunday, 1 = Monday, etc.)
    /// * `start_time` - The start time in hours (0-23)
    /// * `end_time` - The end time in hours (0-23)
    pub fn add_day(&mut self, day: u8, start_time: u8, end_time: u8)
        ensures
            final(self).days@ == old(self).days@.push(
                DayDefinition { day, start_time, end_time },
            ),
    {
        self.days.push(DayDefinition { day, start_time, end_time });
    }

    /// Removes every range on `day`; the others keep their order.
    pub fn remove_day(&mut self, day: u8)
        ensures
            final(self).days@ == days_without(old(self).days@, day),
    {
        let ghost src = self.days@;
        let mut kept: Vec<DayDefinition> = Vec::new();
        let n: usize = self.days.len();
        for i in 0..n
            invariant
                n == src.len(),
                self.days@ == src,
                kept@ == days_without(src.take(i as int), day),
        {
            proof {
                reveal_with_fuel(Seq::filter, 1);
                assert(src.take(i as int + 1).drop_last() == src.take(i as int));
            }
            let d = self.days[i];
            if d.day != day {
                kept.push(d);
            }
        }
        proof {
            assert(src.take(n as int) == src);
        }
        self.days = kept;
    }

    /// Whether some range allows the computer at `hour` of `day`.
    pub fn is_play_time_at(&self, day: u8, hour: u8) -> (r: bool)
        ensures
            r == is_allowed(self.days@, day, hour),
    {
        let n: usize = self.days.len();
        for i in 0..n
            invariant
                n == self.days@.len(),
                forall|j: int| 0 <= j < i ==> !allows(#[trigger] self.days@[j], day, hour),
        {
            let d = self.days[i];
            if d.day == day && d.start_time <= hour && d.end_time >= hour {
                return true;
            }
        }
        false
    }
}

/// The calendar allows an hour of a day exactly when one single range of that
/// day holds it: ranges are not joined, so an hour that no range of the day
/// holds (one between two ranges, say) is not allowed.
pub proof fn law_one_range_must_hold_the_hour(days: Seq<DayDefinition>, day: u8, hour: u8)
    ensures
        is_allowed(days, day, hour) <==> exists|i: int|
            0 <= i < days.len() && (#[trigger] days[i]).day == day && days[i].start_time <= hour && hour
                <= days[i].end_time,
        (forall|i: int|
            0 <= i < days.len() && (#[trigger] days[i]).day == day ==> hour < days[i].start_time
                || days[i].end_time < hour) ==> !is_allowed(days, day, hour),
{
}

/// A range that was added allows every hour from its start to its end on its
/// day, whatever else the calendar holds.
pub proof fn law_added_range_allows(
    before: Seq<DayDefinition>,
    day: u8,
    start_time: u8,
    end_time: u8,
    hour: u8,
)
    requires
        start_time <= hour <= end_time,
    ensures
        is_allowed(before.push(DayDefinition { day, start_time, end_time }), day, hour),
{
    let after = before.push(DayDefinition { day, start_time, end_time });
    assert(allows(after[before.len() as int], day, hour));
}

/// Once a day is removed, no hour of that day is allowed, and the other days
/// are allowed exactly as before.
pub proof fn law_removed_day_never_allowed(days: Seq<DayDefinition>, removed: u8, day: u8, hour: u8)
    ensures
        day == removed ==> !is_allowed(days_without(days, removed), day, hour),
        day != removed ==> (is_allowed(days_without(days, removed), day, hour) <==> is_allowed(
            days,
            day,
            hour,
        )),
{
    let kept = days_without(days, removed);
    let pred = |d: DayDefinition| d.day != removed;
    if day == removed {
        assert forall|i: int| 0 <= i < kept.len() implies !allows(#[trigger] kept[i], day, hour) by {
            assert(pred(kept[i]));
        }
    } else {
        if is_allowed(days, day, hour) {
            let i = choose|i: int| 0 <= i < days.len() && allows(#[trigger] days[i], day, hour);
            assert(pred(days[i]));
            assert(kept.contains(days[i]));
            let k = choose|k: int| 0 <= k < kept.len() && kept[k] == days[i];
            assert(allows(kept[k], day, hour));
        }
        if is_allowed(kept, day, hour) {
            let k = choose|k: int| 0 <= k < kept.len() && allows(#[trigger] kept[k], day, hour);
            days.lemma_filter_contains_rev(pred, kept[k]);
            let i = choose|i: int| 0 <= i < days.len() && days[i] == kept[k];
            assert(allows(days[i], day, hour));
        }
    }
}

} // verus!
