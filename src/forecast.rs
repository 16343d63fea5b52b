use vstd::prelude::*;

verus! {

/// The hour slot of a forecast entry, or the current instant, as the
/// calendar fields that the table reads.
#[derive(Clone, Copy, Debug, PartialEq, Eq, Structural)]
pub struct ForecastTime {
    /// Month of the year, 1 to 12.
    pub month: u32,
    /// Day of the month, 1 to 31.
    pub day: u32,
    /// Hour of the day, 0 to 23.
    pub hour: u32,
}

impl ForecastTime {
    /// The fields lie in their calendar ranges.
    pub open spec fn wf(&self) -> bool {
        1 <= self.month <= 12 && 1 <= self.day <= 31 && self.hour <= 23
    }

    /// A time from its fields, or `None` where a field is out of its range.
    pub fn new(month: u32, day: u32, hour: u32) -> (r: Option<ForecastTime>)
        ensures
            r matches Some(t) ==> t.wf() && t.month == month && t.day == day && t.hour == hour,
            r is None <==> !(ForecastTime { month, day, hour }).wf(),
    {
        if 1 <= month && month <= 12 && 1 <= day && day <= 31 && hour <= 23 {
            Some(ForecastTime { month, day, hour })
        } else {
            None
        }
    }
}

/// A quantity as the provider reports it.
#[derive(Clone, Debug, PartialEq)]
pub struct MeasuredValue {
    /// The value as it prints.
    pub text: String,
    /// The value as an unsigned integer, where it is one.
    pub whole: Option<u64>,
    /// The unit of measurement; absent for a code without physical unit.
    pub unit: Option<String>,
}

impl MeasuredValue {
    /// A value with a unit and no integer reading.
    pub fn measured(text: &str, unit: &str) -> (r: MeasuredValue)
        ensures
            r.text@ == text@,
            r.whole is None,
            r.unit matches Some(u) && u@ == unit@,
    {
        MeasuredValue { text: String::from_str(text), whole: None, unit: Some(String::from_str(unit)) }
    }

    /// A unit-less code value.
    pub fn code(code: u64, text: &str) -> (r: MeasuredValue)
        ensures
            r.text@ == text@,
            r.whole == Some(code),
            r.unit is None,
    {
        MeasuredValue { text: String::from_str(text), whole: Some(code), unit: None }
    }

    /// An identical copy.
    pub fn duplicate(&self) -> (r: MeasuredValue)
        ensures
            r == *self,
    {
        let unit = match &self.unit {
            Some(u) => Some(u.clone()),
            None => None,
        };
        MeasuredValue { text: self.text.clone(), whole: self.whole, unit }
    }
}

/// A value under the name the provider gives it.
#[derive(Clone, Debug, PartialEq)]
pub struct NamedValue {
    pub name: String,
    pub value: MeasuredValue,
}

/// One hourly slot of a forecast: its time and its named values.
#[derive(Clone, Debug, PartialEq)]
pub struct ForecastEntry {
    pub time: ForecastTime,
    /// Named values; a later one overrides an earlier one of the same name.
    pub values: Vec<NamedValue>,
}

/// The value stored under `name`: the last one of that name.
pub open spec fn lookup(values: Seq<NamedValue>, name: Seq<char>) -> Option<MeasuredValue>
    decreases values.len(),
{
    if values.len() == 0 {
        None
    } else if values.last().name@ == name {
        Some(values.last().value)
    } else {
        lookup(values.drop_last(), name)
    }
}

impl ForecastEntry {
    /// An entry with no values yet.
    pub fn new(time: ForecastTime) -> (r: ForecastEntry)
        ensures
            r.time == time,
            forall|n: Seq<char>| lookup(r.values@, n) is None,
    {
        ForecastEntry { time, values: Vec::new() }
    }

    /// Stores `value` under `name`, replacing what was stored under it.
    pub fn insert(&mut self, name: &str, value: MeasuredValue)
        ensures
            final(self).time == old(self).time,
            lookup(final(self).values@, name@) == Some(value),
            forall|n: Seq<char>| n != name@ ==> lookup(final(self).values@, n) == lookup(old(self).values@, n),
    {
        let ghost before = self.values@;
        self.values.push(NamedValue { name: String::from_str(name), value });
        assert(self.values@.drop_last() == before);
    }

    /// The value stored under `name`, if any.
    pub fn get(&self, name: &String) -> (r: Option<&MeasuredValue>)
        ensures
            match r {
                Some(v) => lookup(self.values@, name@) == Some(*v),
                None => lookup(self.values@, name@) is None,
            },
    {
        let mut i: usize = self.values.len();
        assert(self.values@.subrange(0, i as int) == self.values@);
        while i > 0
            invariant
                i <= self.values@.len(),
                lookup(self.values@, name@) == lookup(self.values@.subrange(0, i as int), name@),
            decreases i,
        {
            let ghost pre = self.values@.subrange(0, i as int);
            assert(pre.drop_last() == self.values@.subrange(0, i - 1));
            if self.values[i - 1].name == *name {
                return Some(&self.values[i - 1].value);
            }
            i = i - 1;
        }
        None
    }
}

/// Whether an entry at `t` is shown at instant `now`: a later day of the
/// month, or an hour not before the current one. Month and year are not
/// compared.
pub open spec fn is_upcoming(t: ForecastTime, now: ForecastTime) -> bool {
    t.day > now.day || t.hour >= now.hour
}

/// The entries shown at `now`, in their order.
pub open spec fn upcoming(entries: Seq<ForecastEntry>, now: ForecastTime) -> Seq<ForecastEntry> {
    entries.filter(|e: ForecastEntry| is_upcoming(e.time, now))
}

/// Keeps the entries that are upcoming at `now`, in their order.
pub fn select_upcoming(entries: Vec<ForecastEntry>, now: ForecastTime) -> (r: Vec<ForecastEntry>)
    ensures
        r@ == upcoming(entries@, now),
{
    let ghost all = entries@;
    let mut rest = entries;
    let mut kept: Vec<ForecastEntry> = Vec::new();
    proof {
        reveal(Seq::filter);
        assert(upcoming(all.subrange(0, 0), now) == Seq::<ForecastEntry>::empty());
    }
    while rest.len() > 0
        invariant
            rest@.len() <= all.len(),
            rest@ == all.subrange(all.len() - rest@.len(), all.len() as int),
            kept@ == upcoming(all.subrange(0, all.len() - rest@.len()), now),
        decreases rest@.len(),
    {
        let ghost k = all.len() - rest@.len();
        let e = rest.remove(0);
        let keep = e.time.day > now.day || e.time.hour >= now.hour;
        proof {
            reveal(Seq::filter);
            assert(e == all[k]);
            assert(all.subrange(0, k + 1).drop_last() == all.subrange(0, k));
            assert(all.subrange(0, k + 1).last() == e);
            assert(is_upcoming(e.time, now) == keep);
            assert(rest@ == all.subrange(k + 1, all.len() as int));
        }
        if keep {
            kept.push(e);
        }
    }
    proof {
        assert(all.subrange(0, all.len() as int) == all);
    }
    kept
}

/// `sub` lists elements of `s` at strictly increasing positions.
pub open spec fn is_ordered_subsequence(sub: Seq<ForecastEntry>, s: Seq<ForecastEntry>) -> bool {
    exists|idx: Seq<int>|
        idx.len() == sub.len()
        && (forall|k: int| 0 <= k < idx.len() ==> 0 <= #[trigger] idx[k] < s.len() && sub[k] == s[idx[k]])
        && (forall|k: int, l: int| 0 <= k < l < idx.len() ==> #[trigger] idx[k] < #[trigger] idx[l])
}

proof fn upcoming_positions(s: Seq<ForecastEntry>, now: ForecastTime) -> (idx: Seq<int>)
    ensures
        idx.len() == upcoming(s, now).len(),
        forall|k: int| 0 <= k < idx.len() ==> 0 <= #[trigger] idx[k] < s.len() && upcoming(s, now)[k] == s[idx[k]],
        forall|k: int, l: int| 0 <= k < l < idx.len() ==> #[trigger] idx[k] < #[trigger] idx[l],
    decreases s.len(),
{
    reveal(Seq::filter);
    if s.len() == 0 {
        Seq::empty()
    } else {
        let prev = upcoming_positions(s.drop_last(), now);
        if is_upcoming(s.last().time, now) {
            prev.push(s.len() - 1)
        } else {
            prev
        }
    }
}

/// For a fixed instant, the selection keeps input entries in their order;
/// it keeps every entry of the current day at or after the current hour,
/// and drops every entry of an earlier day before the current hour.
pub proof fn lemma_select_upcoming(entries: Seq<ForecastEntry>, now: ForecastTime)
    ensures
        is_ordered_subsequence(upcoming(entries, now), entries),
        forall|k: int| 0 <= k < upcoming(entries, now).len() ==> entries.contains(#[trigger] upcoming(entries, now)[k]),
        forall|i: int| 0 <= i < entries.len() && entries[i].time.day == now.day
            && entries[i].time.hour >= now.hour ==> #[trigger] upcoming(entries, now).contains(entries[i]),
        forall|i: int| 0 <= i < entries.len() && entries[i].time.day < now.day
            && entries[i].time.hour < now.hour ==> !#[trigger] upcoming(entries, now).contains(entries[i]),
{
    broadcast use Seq::lemma_filter_pred, Seq::lemma_filter_contains;
    let pred = |e: ForecastEntry| is_upcoming(e.time, now);
    let idx = upcoming_positions(entries, now);
    assert(is_ordered_subsequence(upcoming(entries, now), entries));
    assert forall|k: int| 0 <= k < upcoming(entries, now).len() implies entries.contains(#[trigger] upcoming(entries, now)[k]) by {
        assert(upcoming(entries, now)[k] == entries[idx[k]]);
    }
    assert forall|i: int| 0 <= i < entries.len() && entries[i].time.day == now.day
        && entries[i].time.hour >= now.hour implies #[trigger] upcoming(entries, now).contains(entries[i]) by {
        entries.lemma_filter_contains(pred, i);
    }
    assert forall|i: int| 0 <= i < entries.len() && entries[i].time.day < now.day
        && entries[i].time.hour < now.hour implies !#[trigger] upcoming(entries, now).contains(entries[i]) by {
        if upcoming(entries, now).contains(entries[i]) {
            let j = choose|j: int| 0 <= j < upcoming(entries, now).len() && upcoming(entries, now)[j] == entries[i];
            entries.lemma_filter_pred(pred, j);
        }
    }
}

} // verus!
