//! The bot's long memory of every unit and structure seen, and what it says
//! of the enemy's tech.
use vstd::prelude::*;
use crate::unit_types::{
    ARCHON, COLOSSUS, DARK_TEMPLAR, HIGH_TEMPLAR, is_cloak_or_burrow, is_cloak_structure,
    is_flying_production_structure, is_heavy_flier, is_heavy_flying_production_structure,
    is_ignored_flier, is_memory_ignored,
};
use crate::vec_map::{VecMap, entries_map, keys_unique, key_index, lemma_key_index};

verus! {

/// A unit or structure as remembered.
#[derive(Clone, Copy, Debug, PartialEq, Eq, Structural)]
pub struct MemoryUnit {
    pub tag: u64,
    pub type_id: u32,
    pub is_flying: bool,
    /// Supply the unit takes, in half supply.
    pub supply_halves: u32,
}

/// A count bumped by one, held at its ceiling.
pub open spec fn bumped(types: Map<u64, u64>, t: u32) -> Map<u64, u64> {
    let k = t as u64;
    types.insert(
        k,
        if types.dom().contains(k) {
            if types[k] == u64::MAX {
                u64::MAX
            } else {
                (types[k] + 1) as u64
            }
        } else {
            1
        },
    )
}

/// The memory of one side's units while it takes in sightings.
pub struct UnitRecall {
    pub units: Map<u64, MemoryUnit>,
    pub types: Map<u64, u64>,
    /// An archon was taken in.
    pub archon: bool,
}

/// A unit is taken in unless its type is not recorded or it is remembered
/// already as the same type; a tag seen with a new type (a morph or merge)
/// is recorded afresh.
pub open spec fn takes_in(units: Map<u64, MemoryUnit>, u: MemoryUnit) -> bool {
    !is_memory_ignored(u.type_id) && !(units.dom().contains(u.tag) && units[u.tag].type_id == u.type_id)
}

pub open spec fn recall_unit(r: UnitRecall, u: MemoryUnit) -> UnitRecall {
    if takes_in(r.units, u) {
        UnitRecall {
            units: r.units.insert(u.tag, u),
            types: bumped(r.types, u.type_id),
            archon: r.archon || u.type_id == ARCHON,
        }
    } else {
        r
    }
}

pub open spec fn recall_units(r: UnitRecall, s: Seq<MemoryUnit>) -> UnitRecall
    decreases s.len(),
{
    if s.len() == 0 {
        r
    } else {
        recall_unit(recall_units(r, s.drop_last()), s.last())
    }
}

/// A structure is taken in once, when first seen.
pub open spec fn recall_structure(r: UnitRecall, u: MemoryUnit) -> UnitRecall {
    if r.units.dom().contains(u.tag) {
        r
    } else {
        UnitRecall { units: r.units.insert(u.tag, u), types: bumped(r.types, u.type_id), archon: r.archon }
    }
}

pub open spec fn recall_structures(r: UnitRecall, s: Seq<MemoryUnit>) -> UnitRecall
    decreases s.len(),
{
    if s.len() == 0 {
        r
    } else {
        recall_structure(recall_structures(r, s.drop_last()), s.last())
    }
}

/// Tags removed from a memory, in order.
pub open spec fn forget(m: Map<u64, MemoryUnit>, tags: Seq<u64>) -> Map<u64, MemoryUnit>
    decreases tags.len(),
{
    if tags.len() == 0 {
        m
    } else {
        forget(m, tags.drop_last()).remove(tags.last())
    }
}

/// Tags of the visible templars, which an archon merge used up.
pub open spec fn templar_tags(s: Seq<MemoryUnit>) -> Seq<u64>
    decreases s.len(),
{
    if s.len() == 0 {
        seq![]
    } else {
        templar_tags(s.drop_last()) + if s.last().type_id == HIGH_TEMPLAR || s.last().type_id
            == DARK_TEMPLAR {
            seq![s.last().tag]
        } else {
            seq![]
        }
    }
}

/// Everything the bot remembers.
pub struct UnitsMemory {
    pub enemy_units: VecMap<MemoryUnit>,
    pub enemy_unit_types: VecMap<u64>,
    pub enemy_structures: VecMap<MemoryUnit>,
    pub enemy_structure_types: VecMap<u64>,
    pub my_units: VecMap<MemoryUnit>,
    pub my_unit_types: VecMap<u64>,
    pub my_structures: VecMap<MemoryUnit>,
    pub my_structure_types: VecMap<u64>,
}

/// What the memory takes in during a step.
pub struct MemoryObservation {
    pub enemy_units: Vec<MemoryUnit>,
    pub dead_units: Vec<u64>,
    pub enemy_structures: Vec<MemoryUnit>,
    pub my_units: Vec<MemoryUnit>,
    pub my_structures: Vec<MemoryUnit>,
}

/// The enemy units remembered after a step: sightings taken in, templars
/// used by a new archon dropped, the dead forgotten.
pub open spec fn enemy_units_after(units: Map<u64, MemoryUnit>, types: Map<u64, u64>, o: MemoryObservation) -> (Map<
    u64,
    MemoryUnit,
>, Map<u64, u64>) {
    let r = recall_units(UnitRecall { units, types, archon: false }, o.enemy_units@);
    let cleaned = if r.archon {
        forget(r.units, templar_tags(o.enemy_units@))
    } else {
        r.units
    };
    (forget(cleaned, o.dead_units@), r.types)
}

impl UnitsMemory {
    pub fn new() -> (m: UnitsMemory)
        ensures
            m.wf(),
            m.enemy_units@ == Map::<u64, MemoryUnit>::empty(),
            m.enemy_unit_types@ == Map::<u64, u64>::empty(),
            m.enemy_structures@ == Map::<u64, MemoryUnit>::empty(),
            m.enemy_structure_types@ == Map::<u64, u64>::empty(),
            m.my_units@ == Map::<u64, MemoryUnit>::empty(),
            m.my_unit_types@ == Map::<u64, u64>::empty(),
            m.my_structures@ == Map::<u64, MemoryUnit>::empty(),
            m.my_structure_types@ == Map::<u64, u64>::empty(),
    {
        UnitsMemory {
            enemy_units: VecMap::new(),
            enemy_unit_types: VecMap::new(),
            enemy_structures: VecMap::new(),
            enemy_structure_types: VecMap::new(),
            my_units: VecMap::new(),
            my_unit_types: VecMap::new(),
            my_structures: VecMap::new(),
            my_structure_types: VecMap::new(),
        }
    }

    pub open spec fn wf(&self) -> bool {
        &&& self.enemy_units.wf()
        &&& self.enemy_unit_types.wf()
        &&& self.enemy_structures.wf()
        &&& self.enemy_structure_types.wf()
        &&& self.my_units.wf()
        &&& self.my_unit_types.wf()
        &&& self.my_structures.wf()
        &&& self.my_structure_types.wf()
    }
}

fn bump(types: &mut VecMap<u64>, t: u32)
    requires
        old(types).wf(),
    ensures
        final(types).wf(),
        final(types)@ == bumped(old(types)@, t),
{
    let k = t as u64;
    let n = match types.get(k) {
        Some(c) => c.saturating_add(1),
        None => 1,
    };
    types.insert(k, n);
}

fn take_in_units(units: &mut VecMap<MemoryUnit>, types: &mut VecMap<u64>, seen: &Vec<MemoryUnit>) -> (archon: bool)
    requires
        old(units).wf(),
        old(types).wf(),
    ensures
        final(units).wf(),
        final(types).wf(),
        recall_units(UnitRecall { units: old(units)@, types: old(types)@, archon: false }, seen@)
            == (UnitRecall { units: final(units)@, types: final(types)@, archon }),
{
    let ghost u0 = units@;
    let ghost t0 = types@;
    let mut archon = false;
    let mut i: usize = 0;
    while i < seen.len()
        invariant
            i <= seen.len(),
            units.wf(),
            types.wf(),
            recall_units(UnitRecall { units: u0, types: t0, archon: false }, seen@.take(i as int))
                == (UnitRecall { units: units@, types: types@, archon }),
        decreases seen.len() - i,
    {
        proof {
            assert(seen@.take(i + 1).drop_last() =~= seen@.take(i as int));
        }
        let u = seen[i];
        let ignored = is_memory_ignored(u.type_id);
        let same = match units.get(u.tag) {
            Some(m) => m.type_id == u.type_id,
            None => false,
        };
        let ghost prev = units@;
        if !ignored && !same {
            units.remove(u.tag);
            units.insert(u.tag, u);
            assert(units@ =~= prev.insert(u.tag, u));
            bump(types, u.type_id);
            if u.type_id == ARCHON {
                archon = true;
            }
        }
        i += 1;
    }
    assert(seen@.take(seen.len() as int) =~= seen@);
    archon
}


fn take_in_structures(units: &mut VecMap<MemoryUnit>, types: &mut VecMap<u64>, seen: &Vec<MemoryUnit>)
    requires
        old(units).wf(),
        old(types).wf(),
    ensures
        final(units).wf(),
        final(types).wf(),
        recall_structures(UnitRecall { units: old(units)@, types: old(types)@, archon: false }, seen@)
            == (UnitRecall { units: final(units)@, types: final(types)@, archon: false }),
{
    let ghost u0 = units@;
    let ghost t0 = types@;
    let mut i: usize = 0;
    while i < seen.len()
        invariant
            i <= seen.len(),
            units.wf(),
            types.wf(),
            recall_structures(UnitRecall { units: u0, types: t0, archon: false }, seen@.take(i as int))
                == (UnitRecall { units: units@, types: types@, archon: false }),
        decreases seen.len() - i,
    {
        proof {
            assert(seen@.take(i + 1).drop_last() =~= seen@.take(i as int));
        }
        let u = seen[i];
        if !units.contains_key(u.tag) {
            units.insert(u.tag, u);
            bump(types, u.type_id);
        }
        i += 1;
    }
    assert(seen@.take(seen.len() as int) =~= seen@);
}

fn forget_tags(units: &mut VecMap<MemoryUnit>, tags: &Vec<u64>)
    requires
        old(units).wf(),
    ensures
        final(units).wf(),
        final(units)@ == forget(old(units)@, tags@),
{
    let ghost u0 = units@;
    let mut i: usize = 0;
    while i < tags.len()
        invariant
            i <= tags.len(),
            units.wf(),
            units@ == forget(u0, tags@.take(i as int)),
        decreases tags.len() - i,
    {
        proof {
            assert(tags@.take(i + 1).drop_last() =~= tags@.take(i as int));
        }
        units.remove(tags[i]);
        i += 1;
    }
    assert(tags@.take(tags.len() as int) =~= tags@);
}

fn collect_templars(seen: &Vec<MemoryUnit>) -> (r: Vec<u64>)
    ensures
        r@ == templar_tags(seen@),
{
    let mut out: Vec<u64> = Vec::new();
    let mut i: usize = 0;
    while i < seen.len()
        invariant
            i <= seen.len(),
            out@ == templar_tags(seen@.take(i as int)),
        decreases seen.len() - i,
    {
        proof {
            assert(seen@.take(i + 1).drop_last() =~= seen@.take(i as int));
        }
        if seen[i].type_id == HIGH_TEMPLAR || seen[i].type_id == DARK_TEMPLAR {
            out.push(seen[i].tag);
        }
        i += 1;
    }
    assert(seen@.take(seen.len() as int) =~= seen@);
    out
}

impl UnitsMemory {
    /// Takes in one step of sightings: enemy units (an archon's templars are
    /// dropped), deaths, enemy structures, our units and our structures, and
    /// counts each unit type as it is first recorded.
    pub fn units_memory(&mut self, o: &MemoryObservation)
        requires
            old(self).wf(),
        ensures
            final(self).wf(),
            (final(self).enemy_units@, final(self).enemy_unit_types@) == enemy_units_after(
                old(self).enemy_units@,
                old(self).enemy_unit_types@,
                *o,
            ),
            final(self).enemy_structures@ == recall_structures(
                UnitRecall { units: old(self).enemy_structures@, types: old(self).enemy_structure_types@, archon: false },
                o.enemy_structures@,
            ).units,
            final(self).enemy_structure_types@ == recall_structures(
                UnitRecall { units: old(self).enemy_structures@, types: old(self).enemy_structure_types@, archon: false },
                o.enemy_structures@,
            ).types,
            final(self).my_units@ == recall_units(
                UnitRecall { units: old(self).my_units@, types: old(self).my_unit_types@, archon: false },
                o.my_units@,
            ).units,
            final(self).my_unit_types@ == recall_units(
                UnitRecall { units: old(self).my_units@, types: old(self).my_unit_types@, archon: false },
                o.my_units@,
            ).types,
            final(self).my_structures@ == recall_structures(
                UnitRecall { units: old(self).my_structures@, types: old(self).my_structure_types@, archon: false },
                o.my_structures@,
            ).units,
            final(self).my_structure_types@ == recall_structures(
                UnitRecall { units: old(self).my_structures@, types: old(self).my_structure_types@, archon: false },
                o.my_structures@,
            ).types,
    {
        let archon = take_in_units(&mut self.enemy_units, &mut self.enemy_unit_types, &o.enemy_units);
        if archon {
            let templars = collect_templars(&o.enemy_units);
            forget_tags(&mut self.enemy_units, &templars);
        }
        forget_tags(&mut self.enemy_units, &o.dead_units);
        take_in_structures(&mut self.enemy_structures, &mut self.enemy_structure_types, &o.enemy_structures);
        take_in_units(&mut self.my_units, &mut self.my_unit_types, &o.my_units);
        take_in_structures(&mut self.my_structures, &mut self.my_structure_types, &o.my_structures);
    }
}

/// What the memory says of the enemy's tech.
#[derive(Clone, Copy, Debug, PartialEq, Eq, Structural)]
pub struct EnemyTech {
    pub enemy_cloaking: bool,
    pub enemy_fliers: bool,
    pub enemy_heavy_fliers: bool,
}

/// A remembered unit that counts as an air threat.
pub open spec fn is_air_threat(u: MemoryUnit) -> bool {
    (u.type_id == COLOSSUS || u.is_flying) && !is_ignored_flier(u.type_id)
}

pub open spec fn any_unit(m: Map<u64, MemoryUnit>, p: spec_fn(MemoryUnit) -> bool) -> bool {
    exists|t: u64| #[trigger] m.dom().contains(t) && p(m[t])
}

pub open spec fn any_type_key(m: Map<u64, u64>, p: spec_fn(u64) -> bool) -> bool {
    exists|t: u64| #[trigger] m.dom().contains(t) && p(t)
}

pub open spec fn tech_rule(e: EnemyTech, units: Map<u64, MemoryUnit>, structure_types: Map<u64, u64>) -> EnemyTech {
    let heavy = any_unit(units, |u: MemoryUnit| is_heavy_flier(u.type_id)) || any_type_key(
        structure_types,
        |t: u64| t <= u32::MAX && is_heavy_flying_production_structure(t as u32),
    );
    EnemyTech {
        enemy_cloaking: e.enemy_cloaking || any_unit(units, |u: MemoryUnit| is_cloak_or_burrow(u.type_id))
            || any_type_key(structure_types, |t: u64| t <= u32::MAX && is_cloak_structure(t as u32)),
        enemy_fliers: e.enemy_fliers || heavy || any_unit(units, |u: MemoryUnit| is_air_threat(u))
            || any_type_key(
            structure_types,
            |t: u64| t <= u32::MAX && is_flying_production_structure(t as u32),
        ),
        enemy_heavy_fliers: e.enemy_heavy_fliers || heavy,
    }
}

fn any_entry(m: &VecMap<MemoryUnit>, which: u8) -> (r: bool)
    requires
        m.wf(),
        which < 3,
    ensures
        which == 0 ==> r == any_unit(m@, |u: MemoryUnit| is_cloak_or_burrow(u.type_id)),
        which == 1 ==> r == any_unit(m@, |u: MemoryUnit| is_air_threat(u)),
        which == 2 ==> r == any_unit(m@, |u: MemoryUnit| is_heavy_flier(u.type_id)),
{
    let ghost p = if which == 0 {
        |u: MemoryUnit| is_cloak_or_burrow(u.type_id)
    } else if which == 1 {
        |u: MemoryUnit| is_air_threat(u)
    } else {
        |u: MemoryUnit| is_heavy_flier(u.type_id)
    };
    let mut i: usize = 0;
    while i < m.entries.len()
        invariant
            i <= m.entries.len(),
            m.wf(),
            which < 3,
            p == (if which == 0 {
                |u: MemoryUnit| is_cloak_or_burrow(u.type_id)
            } else if which == 1 {
                |u: MemoryUnit| is_air_threat(u)
            } else {
                |u: MemoryUnit| is_heavy_flier(u.type_id)
            }),
            forall|j: int| 0 <= j < i ==> !p(#[trigger] m.entries@[j].1),
        decreases m.entries.len() - i,
    {
        let u = m.entries[i].1;
        let hit = if which == 0 {
            is_cloak_or_burrow(u.type_id)
        } else if which == 1 {
            (u.type_id == COLOSSUS || u.is_flying) && !is_ignored_flier(u.type_id)
        } else {
            is_heavy_flier(u.type_id)
        };
        if hit {
            proof {
                let t = m.entries@[i as int].0;
                lemma_key_index(m.entries@, t);
                assert(m@.dom().contains(t));
                assert(m@[t] == u);
            }
            return true;
        }
        i += 1;
    }
    proof {
        if any_unit(m@, p) {
            let t = choose|t: u64| #[trigger] m@.dom().contains(t) && p(m@[t]);
            lemma_key_index(m.entries@, t);
            let j = key_index(m.entries@, t).unwrap();
            assert(!p(m.entries@[j].1));
        }
    }
    false
}

fn any_key(m: &VecMap<u64>, which: u8) -> (r: bool)
    requires
        m.wf(),
        which < 3,
    ensures
        which == 0 ==> r == any_type_key(m@, |t: u64| t <= u32::MAX && is_cloak_structure(t as u32)),
        which == 1 ==> r == any_type_key(m@, |t: u64| t <= u32::MAX && is_flying_production_structure(t as u32)),
        which == 2 ==> r == any_type_key(m@, |t: u64| t <= u32::MAX && is_heavy_flying_production_structure(t as u32)),
{
    let ghost p = if which == 0 {
        |t: u64| t <= u32::MAX && is_cloak_structure(t as u32)
    } else if which == 1 {
        |t: u64| t <= u32::MAX && is_flying_production_structure(t as u32)
    } else {
        |t: u64| t <= u32::MAX && is_heavy_flying_production_structure(t as u32)
    };
    let mut i: usize = 0;
    while i < m.entries.len()
        invariant
            i <= m.entries.len(),
            m.wf(),
            which < 3,
            p == (if which == 0 {
                |t: u64| t <= u32::MAX && is_cloak_structure(t as u32)
            } else if which == 1 {
                |t: u64| t <= u32::MAX && is_flying_production_structure(t as u32)
            } else {
                |t: u64| t <= u32::MAX && is_heavy_flying_production_structure(t as u32)
            }),
            forall|j: int| 0 <= j < i ==> !p(#[trigger] m.entries@[j].0),
        decreases m.entries.len() - i,
    {
        let k = m.entries[i].0;
        let hit = if k > u32::MAX as u64 {
            false
        } else if which == 0 {
            is_cloak_structure(k as u32)
        } else if which == 1 {
            is_flying_production_structure(k as u32)
        } else {
            is_heavy_flying_production_structure(k as u32)
        };
        if hit {
            proof {
                lemma_key_index(m.entries@, k);
                assert(m@.dom().contains(k));
            }
            return true;
        }
        i += 1;
    }
    proof {
        if any_type_key(m@, p) {
            let t = choose|t: u64| #[trigger] m@.dom().contains(t) && p(t);
            lemma_key_index(m.entries@, t);
            let j = key_index(m.entries@, t).unwrap();
            assert(!p(m.entries@[j].0));
        }
    }
    false
}

/// Reads the enemy's tech from memory: cloaking units or structures, air
/// threats or air production, capital ships or what unlocks them. Once read,
/// a fact stays read.
pub fn enemy_macro_strategy(tech: &mut EnemyTech, mem: &UnitsMemory)
    requires
        mem.wf(),
    ensures
        *final(tech) == tech_rule(*old(tech), mem.enemy_units@, mem.enemy_structure_types@),
{
    let cloak = any_entry(&mem.enemy_units, 0) || any_key(&mem.enemy_structure_types, 0);
    let heavy = any_entry(&mem.enemy_units, 2) || any_key(&mem.enemy_structure_types, 2);
    let fliers = heavy || any_entry(&mem.enemy_units, 1) || any_key(&mem.enemy_structure_types, 1);
    if cloak {
        tech.enemy_cloaking = true;
    }
    if fliers {
        tech.enemy_fliers = true;
    }
    if heavy {
        tech.enemy_heavy_fliers = true;
    }
}

/// Summed supply of a list of remembered units, in half supply.
pub open spec fn supply_halves(s: Seq<(u64, MemoryUnit)>) -> int
    decreases s.len(),
{
    if s.len() == 0 {
        0
    } else {
        supply_halves(s.drop_last()) + s.last().1.supply_halves as int
    }
}

proof fn lemma_supply_halves_bound(s: Seq<(u64, MemoryUnit)>)
    ensures
        0 <= supply_halves(s) <= s.len() * 0xffff_ffff,
    decreases s.len(),
{
    if s.len() > 0 {
        lemma_supply_halves_bound(s.drop_last());
    }
}

/// Supply of every remembered enemy unit, in half supply.
pub fn get_enemy_army_supply(mem: &UnitsMemory) -> (r: u128)
    ensures
        r == supply_halves(mem.enemy_units.entries@),
{
    let e = &mem.enemy_units.entries;
    let mut total: u128 = 0;
    let mut i: usize = 0;
    while i < e.len()
        invariant
            i <= e.len(),
            total == supply_halves(e@.take(i as int)),
        decreases e.len() - i,
    {
        proof {
            assert(e@.take(i + 1).drop_last() =~= e@.take(i as int));
            lemma_supply_halves_bound(e@.take(i as int));
        }
        total = total + e[i].1.supply_halves as u128;
        i += 1;
    }
    assert(e@.take(e.len() as int) =~= e@);
    total
}

/// What is read of the enemy's tech is never unread.
pub proof fn tech_reads_stick(e: EnemyTech, units: Map<u64, MemoryUnit>, types: Map<u64, u64>)
    ensures
        e.enemy_cloaking ==> tech_rule(e, units, types).enemy_cloaking,
        e.enemy_fliers ==> tech_rule(e, units, types).enemy_fliers,
        e.enemy_heavy_fliers ==> tech_rule(e, units, types).enemy_heavy_fliers,
        tech_rule(e, units, types).enemy_heavy_fliers ==> tech_rule(e, units, types).enemy_fliers
            || e.enemy_heavy_fliers,
{
}

/// A recorded unit is remembered with what was seen, and every type
/// recorded has been counted at least once.
pub proof fn recall_records(r: UnitRecall, u: MemoryUnit)
    requires
        takes_in(r.units, u),
    ensures
        recall_unit(r, u).units[u.tag] == u,
        recall_unit(r, u).types.dom().contains(u.type_id as u64),
        recall_unit(r, u).types[u.type_id as u64] >= 1,
{
}

/// A unit already remembered as the same type is not counted again.
pub proof fn remembered_units_are_not_recounted(r: UnitRecall, u: MemoryUnit)
    requires
        r.units.dom().contains(u.tag),
        r.units[u.tag].type_id == u.type_id,
    ensures
        recall_unit(r, u) == r,
{
}


/// No two sightings share a tag.
pub open spec fn distinct_tags(s: Seq<MemoryUnit>) -> bool {
    forall|a: int, b: int| 0 <= a < b < s.len() ==> s[a].tag != s[b].tag
}

/// How many of a type a count holds; none when the type is absent.
pub open spec fn count_of(types: Map<u64, u64>, t: u32) -> int {
    if types.dom().contains(t as u64) {
        types[t as u64] as int
    } else {
        0
    }
}

/// Sightings of a type that a memory of units takes in.
pub open spec fn new_units(units: Map<u64, MemoryUnit>, s: Seq<MemoryUnit>, t: u32) -> nat
    decreases s.len(),
{
    if s.len() == 0 {
        0
    } else {
        new_units(units, s.drop_last(), t) + if s.last().type_id == t && takes_in(units, s.last()) {
            1nat
        } else {
            0nat
        }
    }
}

/// Sightings of a type whose tag a memory of structures does not hold.
pub open spec fn new_structures(units: Map<u64, MemoryUnit>, s: Seq<MemoryUnit>, t: u32) -> nat
    decreases s.len(),
{
    if s.len() == 0 {
        0
    } else {
        new_structures(units, s.drop_last(), t) + if s.last().type_id == t && !units.dom().contains(s.last().tag) {
            1nat
        } else {
            0nat
        }
    }
}

proof fn lemma_distinct_prefix(s: Seq<MemoryUnit>)
    requires
        distinct_tags(s),
        s.len() > 0,
    ensures
        distinct_tags(s.drop_last()),
        forall|i: int| 0 <= i < s.len() - 1 ==> (#[trigger] s.drop_last()[i]).tag != s.last().tag,
{
    assert forall|i: int| 0 <= i < s.len() - 1 implies (#[trigger] s.drop_last()[i]).tag != s.last().tag by {
        assert(s.drop_last()[i] == s[i]);
    }
}

/// Sightings with other tags leave a remembered tag as it was.
proof fn lemma_units_frame(r: UnitRecall, s: Seq<MemoryUnit>, k: u64)
    requires
        forall|i: int| 0 <= i < s.len() ==> (#[trigger] s[i]).tag != k,
    ensures
        recall_units(r, s).units.dom().contains(k) == r.units.dom().contains(k),
        r.units.dom().contains(k) ==> recall_units(r, s).units[k] == r.units[k],
    decreases s.len(),
{
    if s.len() > 0 {
        assert forall|i: int| 0 <= i < s.drop_last().len() implies (#[trigger] s.drop_last()[i]).tag != k by {
            assert(s.drop_last()[i] == s[i]);
        }
        lemma_units_frame(r, s.drop_last(), k);
        assert(s.last().tag != k);
    }
}

proof fn lemma_structures_frame(r: UnitRecall, s: Seq<MemoryUnit>, k: u64)
    requires
        forall|i: int| 0 <= i < s.len() ==> (#[trigger] s[i]).tag != k,
    ensures
        recall_structures(r, s).units.dom().contains(k) == r.units.dom().contains(k),
    decreases s.len(),
{
    if s.len() > 0 {
        assert forall|i: int| 0 <= i < s.drop_last().len() implies (#[trigger] s.drop_last()[i]).tag != k by {
            assert(s.drop_last()[i] == s[i]);
        }
        lemma_structures_frame(r, s.drop_last(), k);
        assert(s.last().tag != k);
    }
}

/// Counting units over a step: a type's count grows by the sightings of
/// that type that the memory takes in (tags not yet remembered as that type,
/// types that are recorded), for sightings with distinct tags and counts far
/// from their ceiling.
pub proof fn unit_counts_grow_by_new_sightings(r: UnitRecall, s: Seq<MemoryUnit>, t: u32)
    requires
        distinct_tags(s),
        count_of(r.types, t) + s.len() <= u64::MAX,
    ensures
        count_of(recall_units(r, s).types, t) == count_of(r.types, t) + new_units(r.units, s, t),
        new_units(r.units, s, t) <= s.len(),
    decreases s.len(),
{
    if s.len() > 0 {
        lemma_distinct_prefix(s);
        unit_counts_grow_by_new_sightings(r, s.drop_last(), t);
        let p = recall_units(r, s.drop_last());
        let u = s.last();
        assert forall|i: int| 0 <= i < s.drop_last().len() implies (#[trigger] s.drop_last()[i]).tag != u.tag by {}
        lemma_units_frame(r, s.drop_last(), u.tag);
        assert(takes_in(p.units, u) == takes_in(r.units, u));
        if takes_in(p.units, u) && u.type_id != t {
            assert(u.type_id as u64 != t as u64);
        }
    }
}

/// Counting structures over a step: a type's count grows by the sightings of
/// that type whose tag the memory did not hold, for sightings with distinct
/// tags and counts far from their ceiling.
pub proof fn structure_counts_grow_by_new_sightings(r: UnitRecall, s: Seq<MemoryUnit>, t: u32)
    requires
        distinct_tags(s),
        count_of(r.types, t) + s.len() <= u64::MAX,
    ensures
        count_of(recall_structures(r, s).types, t) == count_of(r.types, t) + new_structures(r.units, s, t),
        new_structures(r.units, s, t) <= s.len(),
    decreases s.len(),
{
    if s.len() > 0 {
        lemma_distinct_prefix(s);
        structure_counts_grow_by_new_sightings(r, s.drop_last(), t);
        let p = recall_structures(r, s.drop_last());
        let u = s.last();
        assert forall|i: int| 0 <= i < s.drop_last().len() implies (#[trigger] s.drop_last()[i]).tag != u.tag by {}
        lemma_structures_frame(r, s.drop_last(), u.tag);
        if !p.units.dom().contains(u.tag) && u.type_id != t {
            assert(u.type_id as u64 != t as u64);
        }
    }
}

/// Every recorded sighting is remembered with its type.
proof fn lemma_seen_remembered(r: UnitRecall, s: Seq<MemoryUnit>)
    requires
        distinct_tags(s),
    ensures
        forall|i: int| 0 <= i < s.len() && !is_memory_ignored((#[trigger] s[i]).type_id) ==> recall_units(r, s).units.dom().contains(s[i].tag)
            && recall_units(r, s).units[s[i].tag].type_id == s[i].type_id,
    decreases s.len(),
{
    if s.len() > 0 {
        lemma_distinct_prefix(s);
        lemma_seen_remembered(r, s.drop_last());
        let p = recall_units(r, s.drop_last());
        let u = s.last();
        assert forall|i: int| 0 <= i < s.len() && !is_memory_ignored((#[trigger] s[i]).type_id) implies recall_units(r, s).units.dom().contains(s[i].tag)
            && recall_units(r, s).units[s[i].tag].type_id == s[i].type_id by {
            if i < s.len() - 1 {
                assert(s.drop_last()[i] == s[i]);
                assert(s[i].tag != u.tag);
            }
        }
    }
}

proof fn lemma_forget(m: Map<u64, MemoryUnit>, tags: Seq<u64>)
    ensures
        forall|k: u64| #[trigger] forget(m, tags).dom().contains(k) <==> m.dom().contains(k) && !tags.contains(k),
        forall|k: u64| #[trigger] forget(m, tags).dom().contains(k) ==> forget(m, tags)[k] == m[k],
    decreases tags.len(),
{
    if tags.len() > 0 {
        let d = tags.drop_last();
        let l = tags.last();
        lemma_forget(m, d);
        let f = forget(m, d);
        assert(forget(m, tags) == f.remove(l));
        assert forall|k: u64| tags.contains(k) <==> d.contains(k) || k == l by {
            if d.contains(k) {
                let j = choose|j: int| 0 <= j < d.len() && d[j] == k;
                assert(tags[j] == k);
            }
            if k == l {
                assert(tags[tags.len() - 1] == k);
            }
            if tags.contains(k) && k != l {
                let j = choose|j: int| 0 <= j < tags.len() && tags[j] == k;
                assert(j < tags.len() - 1);
                assert(d[j] == k);
            }
        }
        assert forall|k: u64| #[trigger] forget(m, tags).dom().contains(k) <==> m.dom().contains(k) && !tags.contains(k) by {
            assert(f.dom().contains(k) <==> m.dom().contains(k) && !d.contains(k));
        }
        assert forall|k: u64| #[trigger] forget(m, tags).dom().contains(k) implies forget(m, tags)[k] == m[k] by {
            assert(f.dom().contains(k));
        }
    }
}

proof fn lemma_templar_tags(s: Seq<MemoryUnit>, k: u64)
    requires
        templar_tags(s).contains(k),
    ensures
        exists|i: int| 0 <= i < s.len() && (#[trigger] s[i]).tag == k && (s[i].type_id == HIGH_TEMPLAR || s[i].type_id == DARK_TEMPLAR),
    decreases s.len(),
{
    if s.len() > 0 {
        let l = s.last();
        if templar_tags(s.drop_last()).contains(k) {
            lemma_templar_tags(s.drop_last(), k);
            let i = choose|i: int| 0 <= i < s.drop_last().len() && (#[trigger] s.drop_last()[i]).tag == k
                && (s.drop_last()[i].type_id == HIGH_TEMPLAR || s.drop_last()[i].type_id == DARK_TEMPLAR);
            assert(s[i] == s.drop_last()[i]);
        } else {
            let t = templar_tags(s);
            let j = choose|j: int| 0 <= j < t.len() && t[j] == k;
            if j < templar_tags(s.drop_last()).len() {
                assert(t[j] == templar_tags(s.drop_last())[j]);
                assert(false);
            }
            assert(s[s.len() - 1] == l);
        }
    } else {
        assert(false);
    }
}

/// What the enemy units memory holds after a step, for sightings with
/// distinct tags: no unit that died, and every sighting of a recorded type
/// that did not die, with the type it has now, unless it is a templar used
/// up by an archon taken in this step.
pub proof fn memory_holds_what_is_seen(units: Map<u64, MemoryUnit>, types: Map<u64, u64>, o: MemoryObservation)
    requires
        distinct_tags(o.enemy_units@),
    ensures
        forall|i: int| 0 <= i < o.dead_units@.len() ==> !enemy_units_after(units, types, o).0.dom().contains(
            #[trigger] o.dead_units@[i],
        ),
        forall|i: int| 0 <= i < o.enemy_units@.len() && !is_memory_ignored((#[trigger] o.enemy_units@[i]).type_id)
            && !o.dead_units@.contains(o.enemy_units@[i].tag) && !(recall_units(
                UnitRecall { units, types, archon: false },
                o.enemy_units@,
            ).archon && (o.enemy_units@[i].type_id == HIGH_TEMPLAR || o.enemy_units@[i].type_id == DARK_TEMPLAR))
            ==> enemy_units_after(units, types, o).0.dom().contains(o.enemy_units@[i].tag) && enemy_units_after(
            units,
            types,
            o,
        ).0[o.enemy_units@[i].tag].type_id == o.enemy_units@[i].type_id,
{
    let s = o.enemy_units@;
    let r = recall_units(UnitRecall { units, types, archon: false }, s);
    let tt = templar_tags(s);
    let cleaned = if r.archon {
        forget(r.units, tt)
    } else {
        r.units
    };
    lemma_forget(r.units, tt);
    lemma_forget(cleaned, o.dead_units@);
    lemma_seen_remembered(UnitRecall { units, types, archon: false }, s);
    assert forall|i: int| 0 <= i < o.dead_units@.len() implies !enemy_units_after(units, types, o).0.dom().contains(
        #[trigger] o.dead_units@[i],
    ) by {
        assert(o.dead_units@.contains(o.dead_units@[i]));
    }
    assert forall|i: int| 0 <= i < s.len() && !is_memory_ignored((#[trigger] s[i]).type_id)
        && !o.dead_units@.contains(s[i].tag) && !(r.archon && (s[i].type_id == HIGH_TEMPLAR || s[i].type_id == DARK_TEMPLAR))
        implies enemy_units_after(units, types, o).0.dom().contains(s[i].tag)
        && enemy_units_after(units, types, o).0[s[i].tag].type_id == s[i].type_id by {
        if r.archon && tt.contains(s[i].tag) {
            lemma_templar_tags(s, s[i].tag);
            let j = choose|j: int| 0 <= j < s.len() && (#[trigger] s[j]).tag == s[i].tag && (s[j].type_id == HIGH_TEMPLAR
                || s[j].type_id == DARK_TEMPLAR);
            if j < i {
                assert(s[j].tag != s[i].tag);
            } else if i < j {
                assert(s[i].tag != s[j].tag);
            }
        }
    }
}

} // verus!
