//! The tables of what each of our unit types prefers to shoot and what it
//! should fear: each unit type keeps one list, which grows as entries are
//! added at a level.
use vstd::prelude::*;

verus! {

/// How much a unit type prefers a target.
#[derive(Clone, Copy, Debug, PartialEq, Eq, Structural)]
pub enum PriorityLevel {
    High,
    VeryHigh,
    Max,
}

/// How a unit type should treat a threat.
#[derive(Clone, Copy, Debug, PartialEq, Eq, Structural)]
pub enum ThreatLevel {
    Countered,
    Flee,
}

#[derive(Clone, Copy, Debug, PartialEq, Eq, Structural)]
pub struct TargetPriorityInfo {
    pub unit_type: u32,
    pub priority_level: PriorityLevel,
}

#[derive(Clone, Copy, Debug, PartialEq, Eq, Structural)]
pub struct ThreatLevelInfo {
    pub unit_type: u32,
    pub threat_level: ThreatLevel,
}

/// One unit type's list.
#[derive(Clone, Debug)]
pub struct LevelEntry<T> {
    pub unit: u32,
    pub items: Vec<T>,
}

/// A table from unit types to lists; a unit type appears once.
pub struct LevelTable<T> {
    pub entries: Vec<LevelEntry<T>>,
}

pub open spec fn table_view<T>(t: Seq<LevelEntry<T>>) -> Seq<(u32, Seq<T>)> {
    t.map_values(|e: LevelEntry<T>| (e.unit, e.items@))
}

pub open spec fn for_unit<T>(unit: u32) -> spec_fn((u32, Seq<T>)) -> bool {
    |p: (u32, Seq<T>)| p.0 == unit
}

/// The table after adding items to a unit type's list: they go at the end
/// of its list, which is started when the unit type has none.
pub open spec fn with_items<T>(t: Seq<(u32, Seq<T>)>, unit: u32, items: Seq<T>) -> Seq<(u32, Seq<T>)> {
    match crate::seq_util::first_index(t, for_unit::<T>(unit)) {
        Some(k) => t.update(k, (unit, t[k].1 + items)),
        None => t.push((unit, items)),
    }
}

impl<T: Copy> LevelTable<T> {
    pub fn new() -> (t: LevelTable<T>)
        ensures
            t.entries@.len() == 0,
    {
        LevelTable { entries: Vec::new() }
    }

    /// Adds items at the end of a unit type's list.
    pub fn add_items(&mut self, unit: u32, items: &Vec<T>)
        ensures
            table_view(final(self).entries@) == with_items(table_view(old(self).entries@), unit, items@),
    {
        let ghost v = table_view(self.entries@);
        let mut i: usize = 0;
        while i < self.entries.len()
            invariant
                i <= self.entries.len(),
                v == table_view(self.entries@),
                v == table_view(old(self).entries@),
                forall|j: int| 0 <= j < i ==> (#[trigger] self.entries@[j]).unit != unit,
            decreases self.entries.len() - i,
        {
            if self.entries[i].unit == unit {
                proof {
                    assert forall|j: int| 0 <= j < i implies !for_unit::<T>(unit)(#[trigger] v[j]) by {
                        assert(v[j] == (self.entries@[j].unit, self.entries@[j].items@));
                    }
                    crate::seq_util::lemma_first_index_found(v, for_unit::<T>(unit), i as int);
                }
                let mut merged: Vec<T> = Vec::new();
                let mut a: usize = 0;
                while a < self.entries[i].items.len()
                    invariant
                        i < self.entries.len(),
                        a <= self.entries@[i as int].items@.len(),
                        merged@ == self.entries@[i as int].items@.take(a as int),
                    decreases self.entries@[i as int].items@.len() - a,
                {
                    merged.push(self.entries[i].items[a]);
                    assert(merged@ =~= self.entries@[i as int].items@.take(a + 1));
                    a += 1;
                }
                assert(merged@ =~= self.entries@[i as int].items@);
                let ghost first = merged@;
                let mut b: usize = 0;
                while b < items.len()
                    invariant
                        b <= items.len(),
                        merged@ == first + items@.take(b as int),
                    decreases items.len() - b,
                {
                    merged.push(items[b]);
                    assert(merged@ =~= first + items@.take(b + 1));
                    b += 1;
                }
                assert(merged@ =~= first + items@);
                self.entries.set(i, LevelEntry { unit, items: merged });
                assert(table_view(self.entries@) =~= with_items(v, unit, items@));
                return;
            }
            i += 1;
        }
        proof {
            assert forall|j: int| 0 <= j < v.len() implies !for_unit::<T>(unit)(#[trigger] v[j]) by {
                assert(v[j] == (self.entries@[j].unit, self.entries@[j].items@));
            }
            crate::seq_util::lemma_first_index_none(v, for_unit::<T>(unit));
        }
        let mut copy: Vec<T> = Vec::new();
        let mut c: usize = 0;
        while c < items.len()
            invariant
                c <= items.len(),
                copy@ == items@.take(c as int),
            decreases items.len() - c,
        {
            copy.push(items[c]);
            assert(copy@ =~= items@.take(c + 1));
            c += 1;
        }
        assert(copy@ =~= items@);
        self.entries.push(LevelEntry { unit, items: copy });
        assert(table_view(self.entries@) =~= with_items(v, unit, items@));
    }
}

pub open spec fn priority_infos(targets: Seq<u32>, level: PriorityLevel) -> Seq<TargetPriorityInfo> {
    targets.map_values(|t: u32| TargetPriorityInfo { unit_type: t, priority_level: level })
}

pub open spec fn threat_infos(threats: Seq<u32>, level: ThreatLevel) -> Seq<ThreatLevelInfo> {
    threats.map_values(|t: u32| ThreatLevelInfo { unit_type: t, threat_level: level })
}

/// Adds targets, at a priority level, to what a unit type prefers to shoot.
pub fn add_to_targeting(list: &mut LevelTable<TargetPriorityInfo>, unit: u32, level: PriorityLevel, targets: &Vec<u32>)
    ensures
        table_view(final(list).entries@) == with_items(table_view(old(list).entries@), unit, priority_infos(targets@, level)),
{
    let mut items: Vec<TargetPriorityInfo> = Vec::new();
    let mut i: usize = 0;
    while i < targets.len()
        invariant
            i <= targets.len(),
            items@ == priority_infos(targets@.take(i as int), level),
        decreases targets.len() - i,
    {
        items.push(TargetPriorityInfo { unit_type: targets[i], priority_level: level });
        assert(items@ =~= priority_infos(targets@.take(i + 1), level));
        i += 1;
    }
    assert(targets@.take(targets.len() as int) =~= targets@);
    list.add_items(unit, &items);
}

/// Adds threats, at a threat level, to what a unit type should fear.
pub fn add_threats(list: &mut LevelTable<ThreatLevelInfo>, unit: u32, level: ThreatLevel, threats: &Vec<u32>)
    ensures
        table_view(final(list).entries@) == with_items(table_view(old(list).entries@), unit, threat_infos(threats@, level)),
{
    let mut items: Vec<ThreatLevelInfo> = Vec::new();
    let mut i: usize = 0;
    while i < threats.len()
        invariant
            i <= threats.len(),
            items@ == threat_infos(threats@.take(i as int), level),
        decreases threats.len() - i,
    {
        items.push(ThreatLevelInfo { unit_type: threats[i], threat_level: level });
        assert(items@ =~= threat_infos(threats@.take(i + 1), level));
        i += 1;
    }
    assert(threats@.take(threats.len() as int) =~= threats@);
    list.add_items(unit, &items);
}

} // verus!
