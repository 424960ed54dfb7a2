//! What the bot remembers of the enemy army and of its own army between steps.
use vstd::prelude::*;
use crate::seq_util::{first_index, keep, lemma_first_index_found, lemma_first_index_none, lemma_first_index_spec, lemma_keep};

verus! {

/// Game loops in 45 seconds: enemy units unseen for longer are forgotten.
pub const FADE_OUT_LOOPS: u32 = 1008;

/// Game loops in 8 seconds (rounded down): a remembered position older than
/// this no longer matters for fights.
pub const COMBAT_RELEVANT_LOOPS: u32 = 179;

/// A unit as last seen.
#[derive(Clone, Copy, Debug, PartialEq, Eq, Structural)]
pub struct UnitSnapshot {
    pub tag: u64,
    pub type_id: u32,
    /// Supply the unit takes, rounded down.
    pub supply: u32,
    /// Health and shields together.
    pub health: u32,
    /// The game loop at which the unit was last seen.
    pub last_seen: u32,
    /// The unit is remembered, not seen in this step.
    pub is_snapshot: bool,
    /// The unit does not count towards the army's supply.
    pub is_ignored_unit: bool,
    /// Where it was last seen still matters for fights.
    pub is_position_still_relevant: bool,
}

impl UnitSnapshot {
    /// A unit seen now.
    pub fn from_unit(tag: u64, type_id: u32, supply: u32, health: u32, is_ignored_unit: bool, last_seen: u32) -> (s: UnitSnapshot)
        ensures
            s == (UnitSnapshot {
                tag,
                type_id,
                supply,
                health,
                last_seen,
                is_snapshot: false,
                is_ignored_unit,
                is_position_still_relevant: true,
            }),
    {
        UnitSnapshot {
            tag,
            type_id,
            supply,
            health,
            last_seen,
            is_snapshot: false,
            is_ignored_unit,
            is_position_still_relevant: true,
        }
    }

    pub fn id(&self) -> (r: u64)
        ensures
            r == self.tag,
    {
        self.tag
    }

    pub fn type_id(&self) -> (r: u32)
        ensures
            r == self.type_id,
    {
        self.type_id
    }

    pub fn health(&self) -> (r: u32)
        ensures
            r == self.health,
    {
        self.health
    }

    pub fn supply(&self) -> (r: u32)
        ensures
            r == self.supply,
    {
        self.supply
    }
}

/// An entry for this tag.
pub open spec fn has_tag(tag: u64) -> spec_fn(UnitSnapshot) -> bool {
    |u: UnitSnapshot| u.tag == tag
}

/// The place of the entry for a tag.
pub open spec fn tag_index(s: Seq<UnitSnapshot>, tag: u64) -> Option<int> {
    first_index(s, has_tag(tag))
}

pub open spec fn tags_unique(s: Seq<UnitSnapshot>) -> bool {
    forall|i: int, j: int| 0 <= i < j < s.len() ==> #[trigger] s[i].tag != #[trigger] s[j].tag
}

pub open spec fn contains_tag(s: Seq<UnitSnapshot>, tag: u64) -> bool {
    exists|i: int| 0 <= i < s.len() && #[trigger] s[i].tag == tag
}

/// Summed supply of the entries that `p` picks.
pub open spec fn supply_of(s: Seq<UnitSnapshot>, p: spec_fn(UnitSnapshot) -> bool) -> int
    decreases s.len(),
{
    if s.len() == 0 {
        0
    } else {
        supply_of(s.drop_last(), p) + if p(s.last()) {
            s.last().supply as int
        } else {
            0
        }
    }
}

pub open spec fn of_type(t: u32) -> spec_fn(UnitSnapshot) -> bool {
    |u: UnitSnapshot| u.type_id == t
}

pub open spec fn counted_in_army() -> spec_fn(UnitSnapshot) -> bool {
    |u: UnitSnapshot| !u.is_ignored_unit
}

proof fn lemma_supply_of_bound(s: Seq<UnitSnapshot>, p: spec_fn(UnitSnapshot) -> bool)
    ensures
        0 <= supply_of(s, p) <= s.len() * 0xffff_ffff,
    decreases s.len(),
{
    if s.len() > 0 {
        lemma_supply_of_bound(s.drop_last(), p);
    }
}

fn sum_supply(units: &Vec<UnitSnapshot>, by_type: bool, t: u32) -> (r: u128)
    ensures
        by_type ==> r == supply_of(units@, of_type(t)),
        !by_type ==> r == supply_of(units@, counted_in_army()),
{
    let ghost p = if by_type {
        of_type(t)
    } else {
        counted_in_army()
    };
    let mut total: u128 = 0;
    let mut i: usize = 0;
    while i < units.len()
        invariant
            i <= units.len(),
            p == (if by_type {
                of_type(t)
            } else {
                counted_in_army()
            }),
            total == supply_of(units@.take(i as int), p),
        decreases units.len() - i,
    {
        proof {
            assert(units@.take(i + 1).drop_last() =~= units@.take(i as int));
            lemma_supply_of_bound(units@.take(i as int), p);
        }
        let u = &units[i];
        let picked = if by_type {
            u.type_id == t
        } else {
            !u.is_ignored_unit
        };
        if picked {
            total = total + u.supply as u128;
        }
        i += 1;
    }
    assert(units@.take(units.len() as int) =~= units@);
    total
}

/// The enemy army as remembered: each enemy unit once, by tag.
pub struct EnemyArmySnapshot {
    pub debugging: bool,
    pub units: Vec<UnitSnapshot>,
}

/// A seen unit's entry, refreshed by a new sighting.
pub open spec fn refreshed(old: UnitSnapshot, seen: UnitSnapshot) -> UnitSnapshot {
    UnitSnapshot {
        type_id: seen.type_id,
        supply: seen.supply,
        health: seen.health,
        is_ignored_unit: seen.is_ignored_unit,
        last_seen: seen.last_seen,
        is_snapshot: false,
        ..old
    }
}

/// One sighting taken in: the unit's entry is refreshed, or a new one is added.
pub open spec fn absorb(s: Seq<UnitSnapshot>, seen: UnitSnapshot) -> Seq<UnitSnapshot> {
    match tag_index(s, seen.tag) {
        Some(k) => s.update(k, refreshed(s[k], seen)),
        None => s.push(seen),
    }
}

/// All sightings taken in, in order.
pub open spec fn absorb_all(s: Seq<UnitSnapshot>, seen: Seq<UnitSnapshot>) -> Seq<UnitSnapshot>
    decreases seen.len(),
{
    if seen.len() == 0 {
        s
    } else {
        absorb(absorb_all(s, seen.drop_last()), seen.last())
    }
}

pub open spec fn mark_snapshot(u: UnitSnapshot) -> UnitSnapshot {
    UnitSnapshot { is_snapshot: true, ..u }
}

/// Unseen for longer than the fade-out time.
pub open spec fn outdated(u: UnitSnapshot, now: u32) -> bool {
    now as int - u.last_seen as int > FADE_OUT_LOOPS as int
}

/// A remembered unit whose position has grown stale.
pub open spec fn stale(u: UnitSnapshot, now: u32) -> bool {
    u.is_snapshot && now as int - u.last_seen as int > COMBAT_RELEVANT_LOOPS as int
}

pub open spec fn with_relevance(u: UnitSnapshot, now: u32) -> UnitSnapshot {
    if stale(u, now) {
        UnitSnapshot { is_position_still_relevant: false, ..u }
    } else {
        u
    }
}

/// Where the entry for a tag is, found by a scan from the front.
fn find_tag(units: &Vec<UnitSnapshot>, tag: u64) -> (r: Option<usize>)
    ensures
        r matches Some(k) ==> k < units@.len() && tag_index(units@, tag) == Some(k as int),
        r is None ==> tag_index(units@, tag) is None,
{
    let mut i: usize = 0;
    while i < units.len()
        invariant
            i <= units.len(),
            forall|j: int| 0 <= j < i ==> !has_tag(tag)(#[trigger] units@[j]),
        decreases units.len() - i,
    {
        if units[i].tag == tag {
            proof {
                lemma_first_index_found(units@, has_tag(tag), i as int);
            }
            return Some(i);
        }
        i += 1;
    }
    proof {
        lemma_first_index_none(units@, has_tag(tag));
    }
    None
}

proof fn lemma_tag_index(s: Seq<UnitSnapshot>, tag: u64)
    ensures
        tag_index(s, tag) matches Some(k) ==> 0 <= k < s.len() && s[k].tag == tag,
        tag_index(s, tag) is None ==> !contains_tag(s, tag),
{
    lemma_first_index_spec(s, has_tag(tag));
    if tag_index(s, tag) is None && contains_tag(s, tag) {
        let i = choose|i: int| 0 <= i < s.len() && #[trigger] s[i].tag == tag;
        assert(has_tag(tag)(s[i]));
    }
}

/// An entry holds what a sighting saw.
pub open spec fn records(u: UnitSnapshot, seen: UnitSnapshot) -> bool {
    &&& u.tag == seen.tag
    &&& u.type_id == seen.type_id
    &&& u.supply == seen.supply
    &&& u.health == seen.health
    &&& u.is_ignored_unit == seen.is_ignored_unit
    &&& u.last_seen == seen.last_seen
    &&& !u.is_snapshot
}

/// Taking in a sighting keeps tags unique, keeps every tag that was there,
/// and leaves an entry for the seen unit that equals the sighting but for
/// its position relevance.
pub proof fn lemma_absorb(s: Seq<UnitSnapshot>, seen: UnitSnapshot)
    requires
        tags_unique(s),
    ensures
        tags_unique(absorb(s, seen)),
        forall|t: u64| contains_tag(s, t) ==> contains_tag(absorb(s, seen), t),
        forall|t: u64| contains_tag(absorb(s, seen), t) ==> contains_tag(s, t) || t == seen.tag,
        !seen.is_snapshot ==> (tag_index(absorb(s, seen), seen.tag) matches Some(k) && records(
            absorb(s, seen)[k],
            seen,
        )),
{
    lemma_tag_index(s, seen.tag);
    let r = absorb(s, seen);
    match tag_index(s, seen.tag) {
        Some(k) => {
            assert forall|t: u64| contains_tag(s, t) implies contains_tag(r, t) by {
                let i = choose|i: int| 0 <= i < s.len() && #[trigger] s[i].tag == t;
                assert(r[i].tag == t);
            }
            assert forall|t: u64| contains_tag(r, t) implies contains_tag(s, t) || t == seen.tag by {
                let i = choose|i: int| 0 <= i < r.len() && #[trigger] r[i].tag == t;
                if i != k {
                    assert(s[i].tag == t);
                }
            }
            lemma_tag_index(r, seen.tag);
            assert(r[k].tag == seen.tag);
            if let Some(k2) = tag_index(r, seen.tag) {
                assert(k2 == k);
            }
        },
        None => {
            assert forall|t: u64| contains_tag(s, t) implies contains_tag(r, t) by {
                let i = choose|i: int| 0 <= i < s.len() && #[trigger] s[i].tag == t;
                assert(r[i].tag == t);
            }
            assert forall|t: u64| contains_tag(r, t) implies contains_tag(s, t) || t == seen.tag by {
                let i = choose|i: int| 0 <= i < r.len() && #[trigger] r[i].tag == t;
                if i < s.len() {
                    assert(s[i].tag == t);
                }
            }
            lemma_tag_index(r, seen.tag);
            assert(r[s.len() as int].tag == seen.tag);
            if let Some(k2) = tag_index(r, seen.tag) {
                assert(k2 == s.len());
            } else {
                assert(contains_tag(r, seen.tag));
            }
        },
    }
}


pub open spec fn not_outdated(now: u32) -> spec_fn(UnitSnapshot) -> bool {
    |u: UnitSnapshot| !outdated(u, now)
}

pub open spec fn not_dead(dead: Seq<u64>) -> spec_fn(UnitSnapshot) -> bool {
    |u: UnitSnapshot| !dead.contains(u.tag)
}

/// Keeping some entries keeps tags unique.
pub proof fn lemma_keep_unique(s: Seq<UnitSnapshot>, p: spec_fn(UnitSnapshot) -> bool)
    requires
        tags_unique(s),
    ensures
        tags_unique(keep(s, p)),
    decreases s.len(),
{
    if s.len() > 0 {
        let d = s.drop_last();
        assert(tags_unique(d)) by {
            assert forall|i: int, j: int| 0 <= i < j < d.len() implies #[trigger] d[i].tag != #[trigger] d[j].tag by {
                assert(d[i] == s[i] && d[j] == s[j]);
            }
        }
        lemma_keep_unique(d, p);
        lemma_keep(d, p);
        let k = keep(d, p);
        if p(s.last()) {
            let r = k.push(s.last());
            assert forall|i: int, j: int| 0 <= i < j < r.len() implies #[trigger] r[i].tag != #[trigger] r[j].tag by {
                if j == r.len() - 1 {
                    assert(k.contains(r[i]));
                    assert(d.contains(r[i]));
                    let m = choose|m: int| 0 <= m < d.len() && d[m] == r[i];
                    assert(s[m] == d[m]);
                } else {
                    assert(r[i] == k[i] && r[j] == k[j]);
                }
            }
        }
    }
}

fn keep_by(units: &Vec<UnitSnapshot>, now: u32, dead: &Vec<u64>, by_time: bool) -> (r: Vec<UnitSnapshot>)
    ensures
        by_time ==> r@ == keep(units@, not_outdated(now)),
        !by_time ==> r@ == keep(units@, not_dead(dead@)),
{
    let ghost p = if by_time {
        not_outdated(now)
    } else {
        not_dead(dead@)
    };
    let mut out: Vec<UnitSnapshot> = Vec::new();
    let mut i: usize = 0;
    while i < units.len()
        invariant
            i <= units.len(),
            p == (if by_time {
                not_outdated(now)
            } else {
                not_dead(dead@)
            }),
            out@ == keep(units@.take(i as int), p),
        decreases units.len() - i,
    {
        proof {
            assert(units@.take(i + 1).drop_last() =~= units@.take(i as int));
        }
        let u = units[i];
        let keep_it = if by_time {
            !(now > u.last_seen && now - u.last_seen > FADE_OUT_LOOPS)
        } else {
            !vec_contains_u64(dead, u.tag)
        };
        if keep_it {
            out.push(u);
        }
        i += 1;
    }
    assert(units@.take(units.len() as int) =~= units@);
    out
}

/// Whether a list of tags holds a tag.
pub fn vec_contains_u64(v: &Vec<u64>, x: u64) -> (r: bool)
    ensures
        r == v@.contains(x),
{
    let mut i: usize = 0;
    while i < v.len()
        invariant
            i <= v.len(),
            forall|j: int| 0 <= j < i ==> v@[j] != x,
        decreases v.len() - i,
    {
        if v[i] == x {
            assert(v@[i as int] == x);
            return true;
        }
        i += 1;
    }
    false
}

impl EnemyArmySnapshot {
    /// Nothing remembered yet.
    pub fn new() -> (s: EnemyArmySnapshot)
        ensures
            s.units@.len() == 0,
            !s.debugging,
    {
        EnemyArmySnapshot { debugging: false, units: Vec::new() }
    }

    /// Summed supply of the remembered enemies of a type.
    pub fn get_supply_by_type(&self, unit_type: u32) -> (r: u128)
        ensures
            r == supply_of(self.units@, of_type(unit_type)),
    {
        sum_supply(&self.units, true, unit_type)
    }

    /// Summed supply of the remembered enemy army, ignored units left out.
    pub fn get_army_supply(&self) -> (r: u128)
        ensures
            r == supply_of(self.units@, counted_in_army()),
    {
        sum_supply(&self.units, false, 0)
    }

    /// Every remembered unit becomes a memory until seen again.
    pub fn mark_all_as_snapshot(&mut self)
        ensures
            final(self).units@ == old(self).units@.map_values(|u: UnitSnapshot| mark_snapshot(u)),
            final(self).debugging == old(self).debugging,
    {
        let ghost old_units = self.units@;
        let ghost dbg = self.debugging;
        let mut i: usize = 0;
        while i < self.units.len()
            invariant
                i <= self.units.len(),
                self.debugging == dbg,
                self.units@.len() == old_units.len(),
                forall|j: int| 0 <= j < i ==> self.units@[j] == mark_snapshot(old_units[j]),
                forall|j: int| i <= j < old_units.len() ==> self.units@[j] == old_units[j],
            decreases self.units.len() - i,
        {
            let mut u = self.units[i];
            u.is_snapshot = true;
            self.units.set(i, u);
            i += 1;
        }
        assert(self.units@ =~= old_units.map_values(|u: UnitSnapshot| mark_snapshot(u)));
    }

    /// Takes in what is seen now: known units are refreshed, new ones added.
    pub fn append_snapshot(&mut self, enemies: &Vec<UnitSnapshot>)
        ensures
            final(self).units@ == absorb_all(old(self).units@, enemies@),
            final(self).debugging == old(self).debugging,
    {
        let ghost old_units = self.units@;
        let ghost dbg = self.debugging;
        let mut i: usize = 0;
        while i < enemies.len()
            invariant
                i <= enemies.len(),
                self.debugging == dbg,
                self.units@ == absorb_all(old_units, enemies@.take(i as int)),
            decreases enemies.len() - i,
        {
            proof {
                assert(enemies@.take(i + 1).drop_last() =~= enemies@.take(i as int));
            }
            let seen = enemies[i];
            match find_tag(&self.units, seen.tag) {
                Some(k) => {
                    let mut e = self.units[k];
                    e.type_id = seen.type_id;
                    e.supply = seen.supply;
                    e.health = seen.health;
                    e.is_ignored_unit = seen.is_ignored_unit;
                    e.last_seen = seen.last_seen;
                    e.is_snapshot = false;
                    self.units.set(k, e);
                },
                None => {
                    self.units.push(seen);
                },
            }
            i += 1;
        }
        assert(enemies@.take(enemies.len() as int) =~= enemies@);
    }

    /// Forgets units unseen for longer than the fade-out time.
    pub fn delete_outdated_enemy_snapshots(&mut self, now: u32)
        ensures
            final(self).units@ == keep(old(self).units@, not_outdated(now)),
            final(self).debugging == old(self).debugging,
    {
        let kept = keep_by(&self.units, now, &Vec::new(), true);
        self.units = kept;
    }

    /// Forgets units that died.
    pub fn delete_dead_enemy_snapshots(&mut self, dead_units: &Vec<u64>)
        ensures
            final(self).units@ == keep(old(self).units@, not_dead(dead_units@)),
            final(self).debugging == old(self).debugging,
    {
        let kept = keep_by(&self.units, 0, dead_units, false);
        self.units = kept;
    }

    /// Remembered positions older than eight seconds stop mattering for fights.
    pub fn update_combat_relevance(&mut self, now: u32)
        ensures
            final(self).units@ == old(self).units@.map_values(|u: UnitSnapshot| with_relevance(u, now)),
            final(self).debugging == old(self).debugging,
    {
        let ghost old_units = self.units@;
        let ghost dbg = self.debugging;
        let mut i: usize = 0;
        while i < self.units.len()
            invariant
                i <= self.units.len(),
                self.debugging == dbg,
                self.units@.len() == old_units.len(),
                forall|j: int| 0 <= j < i ==> self.units@[j] == with_relevance(old_units[j], now),
                forall|j: int| i <= j < old_units.len() ==> self.units@[j] == old_units[j],
            decreases self.units.len() - i,
        {
            let mut u = self.units[i];
            if u.is_snapshot && now > u.last_seen && now - u.last_seen > COMBAT_RELEVANT_LOOPS {
                u.is_position_still_relevant = false;
            }
            self.units.set(i, u);
            i += 1;
        }
        assert(self.units@ =~= old_units.map_values(|u: UnitSnapshot| with_relevance(u, now)));
    }
}

/// A sighting taken now: seen at this loop, not a memory.
pub open spec fn stamp(u: UnitSnapshot, now: u32) -> UnitSnapshot {
    UnitSnapshot { last_seen: now, is_snapshot: false, ..u }
}

pub open spec fn stamped(v: Seq<UnitSnapshot>, now: u32) -> Seq<UnitSnapshot> {
    v.map_values(|u: UnitSnapshot| stamp(u, now))
}

fn stamp_sightings(visible: &Vec<UnitSnapshot>, now: u32) -> (r: Vec<UnitSnapshot>)
    ensures
        r@ == stamped(visible@, now),
{
    let mut out: Vec<UnitSnapshot> = Vec::new();
    let mut i: usize = 0;
    while i < visible.len()
        invariant
            i <= visible.len(),
            out@ == stamped(visible@.take(i as int), now),
        decreases visible.len() - i,
    {
        let mut u = visible[i];
        u.last_seen = now;
        u.is_snapshot = false;
        out.push(u);
        assert(out@ =~= stamped(visible@.take(i + 1), now));
        i += 1;
    }
    assert(visible@.take(visible.len() as int) =~= visible@);
    out
}

/// One step of the enemy army memory: the units seen now are taken as
/// sightings of this loop, everything else becomes a memory, stale and dead
/// units are forgotten, and old positions lose their weight. With each
/// enemy remembered once before, each is remembered once after; every unit
/// seen now that did not die is remembered as seen now; no dead unit and no
/// unit unseen past the fade-out time is remembered; and every unit not seen
/// now is remembered as a memory.
pub fn refresh_enemy_army_snapshot(army: &mut EnemyArmySnapshot, now: u32, visible: &Vec<UnitSnapshot>, dead_units: &Vec<u64>)
    ensures
        final(army).units@ == refreshed_army(old(army).units@, now, stamped(visible@, now), dead_units@),
        final(army).debugging == old(army).debugging,
        tags_unique(old(army).units@) ==> {
            &&& tags_unique(final(army).units@)
            &&& forall|i: int| 0 <= i < visible@.len() && !dead_units@.contains(#[trigger] visible@[i].tag) ==> exists|k: int|
                0 <= k < final(army).units@.len() && #[trigger] final(army).units@[k].tag == visible@[i].tag
                    && final(army).units@[k].last_seen == now && !final(army).units@[k].is_snapshot
            &&& forall|k: int| 0 <= k < final(army).units@.len() ==> !dead_units@.contains(#[trigger] final(army).units@[k].tag)
            &&& forall|k: int| 0 <= k < final(army).units@.len() ==> !outdated(#[trigger] final(army).units@[k], now)
            &&& forall|k: int| 0 <= k < final(army).units@.len() && !contains_tag(visible@, #[trigger] final(army).units@[k].tag)
                ==> final(army).units@[k].is_snapshot
        },
{
    let fresh = stamp_sightings(visible, now);
    army.mark_all_as_snapshot();
    army.append_snapshot(&fresh);
    army.delete_outdated_enemy_snapshots(now);
    army.delete_dead_enemy_snapshots(dead_units);
    army.update_combat_relevance(now);
    proof {
        if tags_unique(old(army).units@) {
            enemy_army_step_laws(old(army).units@, now, visible@, dead_units@);
        }
    }
}

/// The memory after one step.
pub open spec fn refreshed_army(units: Seq<UnitSnapshot>, now: u32, visible: Seq<UnitSnapshot>, dead: Seq<u64>) -> Seq<UnitSnapshot> {
    let marked = units.map_values(|u: UnitSnapshot| mark_snapshot(u));
    let taken = absorb_all(marked, visible);
    let fresh = keep(taken, not_outdated(now));
    let alive = keep(fresh, not_dead(dead));
    alive.map_values(|u: UnitSnapshot| with_relevance(u, now))
}


/// Taking in a sighting changes only the entry for the seen tag, or adds it.
proof fn lemma_absorb_frame(s: Seq<UnitSnapshot>, seen: UnitSnapshot)
    requires
        tags_unique(s),
    ensures
        absorb(s, seen).len() >= s.len(),
        forall|k: int| 0 <= k < absorb(s, seen).len() && #[trigger] absorb(s, seen)[k].tag != seen.tag
            ==> k < s.len() && absorb(s, seen)[k] == s[k],
        forall|k: int| 0 <= k < absorb(s, seen).len() && #[trigger] absorb(s, seen)[k].tag == seen.tag
            ==> absorb(s, seen)[k].last_seen == seen.last_seen && (!seen.is_snapshot
            ==> !absorb(s, seen)[k].is_snapshot),
        contains_tag(absorb(s, seen), seen.tag),
{
    lemma_tag_index(s, seen.tag);
    lemma_absorb(s, seen);
    let r = absorb(s, seen);
    match tag_index(s, seen.tag) {
        Some(k) => {
            assert forall|j: int| 0 <= j < r.len() && #[trigger] r[j].tag == seen.tag implies r[j].last_seen
                == seen.last_seen && (!seen.is_snapshot ==> !r[j].is_snapshot) by {
                if j != k {
                    assert(s[j].tag == seen.tag && s[k].tag == seen.tag);
                    assert(false);
                }
            }
            assert(r[k].tag == seen.tag);
        },
        None => {
            assert forall|j: int| 0 <= j < r.len() && #[trigger] r[j].tag == seen.tag implies r[j].last_seen
                == seen.last_seen && (!seen.is_snapshot ==> !r[j].is_snapshot) by {
                if j < s.len() {
                    assert(r[j] == s[j]);
                    assert(contains_tag(s, seen.tag));
                }
            }
            assert(r[s.len() as int].tag == seen.tag);
        },
    }
}

/// What taking in all sightings of a step guarantees.
pub open spec fn absorbed(r: Seq<UnitSnapshot>, s0: Seq<UnitSnapshot>, v: Seq<UnitSnapshot>, now: u32) -> bool {
    &&& tags_unique(r)
    &&& forall|k: int| 0 <= k < r.len() && contains_tag(v, #[trigger] r[k].tag) ==> !r[k].is_snapshot
        && r[k].last_seen == now
    &&& forall|k: int| 0 <= k < r.len() && !contains_tag(v, #[trigger] r[k].tag) ==> s0.contains(r[k])
    &&& forall|i: int| 0 <= i < v.len() ==> contains_tag(r, #[trigger] v[i].tag)
}

proof fn lemma_absorb_all(s0: Seq<UnitSnapshot>, v: Seq<UnitSnapshot>, now: u32)
    requires
        tags_unique(s0),
        forall|i: int| 0 <= i < v.len() ==> (#[trigger] v[i]).last_seen == now && !v[i].is_snapshot,
    ensures
        absorbed(absorb_all(s0, v), s0, v, now),
    decreases v.len(),
{
    if v.len() == 0 {
        let r = absorb_all(s0, v);
        assert forall|k: int| 0 <= k < r.len() && !contains_tag(v, #[trigger] r[k].tag) implies s0.contains(r[k]) by {
            assert(s0[k] == r[k]);
        }
    } else {
        let d = v.drop_last();
        assert forall|i: int| 0 <= i < d.len() implies (#[trigger] d[i]).last_seen == now && !d[i].is_snapshot by {
            assert(d[i] == v[i]);
        }
        lemma_absorb_all(s0, d, now);
        let p = absorb_all(s0, d);
        let seen = v.last();
        lemma_absorb(p, seen);
        lemma_absorb_frame(p, seen);
        let r = absorb(p, seen);
        assert forall|k: int| 0 <= k < r.len() && contains_tag(v, #[trigger] r[k].tag) implies !r[k].is_snapshot
            && r[k].last_seen == now by {
            if r[k].tag != seen.tag {
                assert(r[k] == p[k]);
                let i = choose|i: int| 0 <= i < v.len() && #[trigger] v[i].tag == r[k].tag;
                assert(i < d.len());
                assert(d[i].tag == r[k].tag);
            }
        }
        assert forall|k: int| 0 <= k < r.len() && !contains_tag(v, #[trigger] r[k].tag) implies s0.contains(r[k]) by {
            assert(r[k].tag != seen.tag);
            assert(r[k] == p[k]);
            if contains_tag(d, r[k].tag) {
                let i = choose|i: int| 0 <= i < d.len() && #[trigger] d[i].tag == r[k].tag;
                assert(v[i].tag == r[k].tag);
            }
        }
        assert forall|i: int| 0 <= i < v.len() implies contains_tag(r, #[trigger] v[i].tag) by {
            if i < d.len() {
                assert(d[i] == v[i]);
                assert(contains_tag(p, d[i].tag));
            }
        }
    }
}

/// The enemy army memory after a step, for sightings taken now:
/// - each enemy unit is remembered once;
/// - every unit seen now that did not die is remembered as seen now;
/// - no dead unit is remembered;
/// - no unit unseen for longer than the fade-out time is remembered;
/// - every unit not seen now is remembered as a memory, not a sighting.
pub proof fn refresh_laws(units: Seq<UnitSnapshot>, now: u32, visible: Seq<UnitSnapshot>, dead: Seq<u64>)
    requires
        tags_unique(units),
        forall|i: int| 0 <= i < visible.len() ==> (#[trigger] visible[i]).last_seen == now
            && !visible[i].is_snapshot,
    ensures
        tags_unique(refreshed_army(units, now, visible, dead)),
        forall|i: int| 0 <= i < visible.len() && !dead.contains(#[trigger] visible[i].tag) ==> exists|k: int|
            0 <= k < refreshed_army(units, now, visible, dead).len() && #[trigger] refreshed_army(
                units,
                now,
                visible,
                dead,
            )[k].tag == visible[i].tag && refreshed_army(units, now, visible, dead)[k].last_seen == now
                && !refreshed_army(units, now, visible, dead)[k].is_snapshot,
        forall|k: int| 0 <= k < refreshed_army(units, now, visible, dead).len() ==> !dead.contains(
            #[trigger] refreshed_army(units, now, visible, dead)[k].tag,
        ),
        forall|k: int| 0 <= k < refreshed_army(units, now, visible, dead).len() ==> !outdated(
            #[trigger] refreshed_army(units, now, visible, dead)[k],
            now,
        ),
        forall|k: int| 0 <= k < refreshed_army(units, now, visible, dead).len() && !contains_tag(
            visible,
            #[trigger] refreshed_army(units, now, visible, dead)[k].tag,
        ) ==> refreshed_army(units, now, visible, dead)[k].is_snapshot,
{
    let marked = units.map_values(|u: UnitSnapshot| mark_snapshot(u));
    assert(tags_unique(marked)) by {
        assert forall|i: int, j: int| 0 <= i < j < marked.len() implies #[trigger] marked[i].tag
            != #[trigger] marked[j].tag by {
            assert(units[i].tag != units[j].tag);
        }
    }
    lemma_absorb_all(marked, visible, now);
    let taken = absorb_all(marked, visible);
    let fresh = keep(taken, not_outdated(now));
    let alive = keep(fresh, not_dead(dead));
    let r = refreshed_army(units, now, visible, dead);
    lemma_keep_unique(taken, not_outdated(now));
    lemma_keep_unique(fresh, not_dead(dead));
    lemma_keep(taken, not_outdated(now));
    lemma_keep(fresh, not_dead(dead));
    assert(r.len() == alive.len());
    assert forall|k: int| 0 <= k < r.len() implies #[trigger] r[k].tag == alive[k].tag && r[k].last_seen
        == alive[k].last_seen && r[k].is_snapshot == alive[k].is_snapshot by {}
    assert(tags_unique(r)) by {
        assert forall|i: int, j: int| 0 <= i < j < r.len() implies #[trigger] r[i].tag != #[trigger] r[j].tag by {
            assert(r[i].tag == alive[i].tag && r[j].tag == alive[j].tag);
        }
    }
    assert forall|i: int| 0 <= i < visible.len() && !dead.contains(#[trigger] visible[i].tag) implies exists|k: int|
        0 <= k < r.len() && #[trigger] r[k].tag == visible[i].tag && r[k].last_seen == now
            && !r[k].is_snapshot by {
        let t = visible[i].tag;
        assert(contains_tag(taken, t));
        let m = choose|m: int| 0 <= m < taken.len() && #[trigger] taken[m].tag == t;
        assert(contains_tag(visible, taken[m].tag));
        assert(taken.contains(taken[m]));
        assert(fresh.contains(taken[m]));
        assert(alive.contains(taken[m]));
        let k = choose|k: int| 0 <= k < alive.len() && alive[k] == taken[m];
        assert(r[k].tag == t);
    }
    assert forall|k: int| 0 <= k < r.len() implies !dead.contains(#[trigger] r[k].tag) by {
        assert(alive.contains(alive[k]));
    }
    assert forall|k: int| 0 <= k < r.len() implies !outdated(#[trigger] r[k], now) by {
        assert(alive.contains(alive[k]));
        assert(fresh.contains(alive[k]));
    }
    assert forall|k: int| 0 <= k < r.len() && !contains_tag(visible, #[trigger] r[k].tag) implies r[k].is_snapshot by {
        assert(alive.contains(alive[k]));
        assert(fresh.contains(alive[k]));
        assert(taken.contains(alive[k]));
        let m = choose|m: int| 0 <= m < taken.len() && taken[m] == alive[k];
        assert(!contains_tag(visible, taken[m].tag));
        assert(marked.contains(taken[m]));
        let j = choose|j: int| 0 <= j < marked.len() && marked[j] == taken[m];
        assert(marked[j].is_snapshot);
    }
}


/// One of our units as seen now.
#[derive(Clone, Copy, Debug)]
pub struct OwnUnit {
    pub tag: u64,
    pub type_id: u32,
    pub supply: u32,
    /// Health and shields together.
    pub health: u32,
    pub cloaked: bool,
}

/// The snapshot of one of our units seen now.
pub open spec fn own_snapshot(u: OwnUnit, now: u32) -> UnitSnapshot {
    UnitSnapshot {
        tag: u.tag,
        type_id: u.type_id,
        supply: u.supply,
        health: u.health,
        last_seen: now,
        is_snapshot: false,
        is_ignored_unit: false,
        is_position_still_relevant: true,
    }
}

/// One of our units taken in: the entry is replaced, or added.
pub open spec fn absorb_own(s: Seq<UnitSnapshot>, seen: UnitSnapshot) -> Seq<UnitSnapshot> {
    match tag_index(s, seen.tag) {
        Some(k) => s.update(
            k,
            UnitSnapshot {
                type_id: seen.type_id,
                supply: seen.supply,
                health: seen.health,
                is_ignored_unit: seen.is_ignored_unit,
                last_seen: seen.last_seen,
                ..s[k]
            },
        ),
        None => s.push(seen),
    }
}

pub open spec fn absorb_own_all(s: Seq<UnitSnapshot>, seen: Seq<OwnUnit>, now: u32) -> Seq<UnitSnapshot>
    decreases seen.len(),
{
    if seen.len() == 0 {
        s
    } else {
        absorb_own(absorb_own_all(s, seen.drop_last(), now), own_snapshot(seen.last(), now))
    }
}

pub open spec fn own_tags(units: Seq<OwnUnit>) -> Seq<u64> {
    units.map_values(|u: OwnUnit| u.tag)
}

pub open spec fn still_present(units: Seq<OwnUnit>) -> spec_fn(UnitSnapshot) -> bool {
    |u: UnitSnapshot| own_tags(units).contains(u.tag)
}

/// The first of our units listed with this tag.
pub open spec fn own_index(units: Seq<OwnUnit>, tag: u64) -> Option<int> {
    first_index(units, |u: OwnUnit| u.tag == tag)
}

/// A cloaked unit of ours whose health differs from what was remembered.
pub open spec fn cloaked_health_changed(s: Seq<UnitSnapshot>, units: Seq<OwnUnit>) -> bool {
    exists|i: int|
        0 <= i < units.len() && (#[trigger] units[i]).cloaked && (tag_index(s, units[i].tag) matches Some(k)
            && s[k].health != units[i].health)
}

/// Each remembered unit takes the type, supply and health of the first unit
/// of ours listed with its tag.
pub open spec fn with_current_health(u: UnitSnapshot, units: Seq<OwnUnit>) -> UnitSnapshot {
    match own_index(units, u.tag) {
        Some(i) => UnitSnapshot {
            type_id: units[i].type_id,
            supply: units[i].supply,
            health: units[i].health,
            is_ignored_unit: false,
            ..u
        },
        None => u,
    }
}

/// Our own army as remembered, to notice hits on cloaked units.
pub struct MyArmySnapshot {
    pub debugging: bool,
    pub units: Vec<UnitSnapshot>,
}

fn find_own(units: &Vec<OwnUnit>, tag: u64) -> (r: Option<usize>)
    ensures
        r matches Some(k) ==> k < units@.len() && own_index(units@, tag) == Some(k as int),
        r is None ==> own_index(units@, tag) is None,
{
    let mut i: usize = 0;
    while i < units.len()
        invariant
            i <= units.len(),
            forall|j: int| 0 <= j < i ==> #[trigger] units@[j].tag != tag,
        decreases units.len() - i,
    {
        if units[i].tag == tag {
            proof {
                lemma_first_index_found(units@, |u: OwnUnit| u.tag == tag, i as int);
            }
            return Some(i);
        }
        i += 1;
    }
    proof {
        lemma_first_index_none(units@, |u: OwnUnit| u.tag == tag);
    }
    None
}

impl MyArmySnapshot {
    pub fn new() -> (s: MyArmySnapshot)
        ensures
            s.units@.len() == 0,
            !s.debugging,
    {
        MyArmySnapshot { debugging: false, units: Vec::new() }
    }

    /// Forgets units of ours that are gone.
    pub fn delete_missing_units(&mut self, current: &Vec<OwnUnit>)
        ensures
            final(self).units@ == keep(old(self).units@, still_present(current@)),
            final(self).debugging == old(self).debugging,
    {
        let ghost p = still_present(current@);
        let mut out: Vec<UnitSnapshot> = Vec::new();
        let mut i: usize = 0;
        while i < self.units.len()
            invariant
                i <= self.units.len(),
                p == still_present(current@),
                out@ == keep(self.units@.take(i as int), p),
            decreases self.units.len() - i,
        {
            proof {
                assert(self.units@.take(i + 1).drop_last() =~= self.units@.take(i as int));
            }
            let u = self.units[i];
            let present = match find_own(current, u.tag) {
                Some(_) => true,
                None => false,
            };
            proof {
                crate::seq_util::lemma_first_index_spec(current@, |x: OwnUnit| x.tag == u.tag);
                if present {
                    let j = own_index(current@, u.tag).unwrap();
                    assert(own_tags(current@)[j] == u.tag);
                } else if own_tags(current@).contains(u.tag) {
                    let j = choose|j: int| 0 <= j < own_tags(current@).len() && own_tags(current@)[j] == u.tag;
                    assert(current@[j].tag == u.tag);
                }
            }
            if present {
                out.push(u);
            }
            i += 1;
        }
        assert(self.units@.take(self.units.len() as int) =~= self.units@);
        self.units = out;
    }

    /// Takes in our units as seen now: known ones are refreshed, new ones added.
    pub fn append_snapshot(&mut self, current: &Vec<OwnUnit>, now: u32)
        ensures
            final(self).units@ == absorb_own_all(old(self).units@, current@, now),
            final(self).debugging == old(self).debugging,
    {
        let ghost old_units = self.units@;
        let ghost dbg = self.debugging;
        let mut i: usize = 0;
        while i < current.len()
            invariant
                i <= current.len(),
                self.debugging == dbg,
                self.units@ == absorb_own_all(old_units, current@.take(i as int), now),
            decreases current.len() - i,
        {
            proof {
                assert(current@.take(i + 1).drop_last() =~= current@.take(i as int));
            }
            let c = current[i];
            match find_tag(&self.units, c.tag) {
                Some(k) => {
                    let mut e = self.units[k];
                    e.type_id = c.type_id;
                    e.supply = c.supply;
                    e.health = c.health;
                    e.is_ignored_unit = false;
                    e.last_seen = now;
                    self.units.set(k, e);
                },
                None => {
                    self.units.push(UnitSnapshot::from_unit(c.tag, c.type_id, c.supply, c.health, false, now));
                },
            }
            i += 1;
        }
        assert(current@.take(current.len() as int) =~= current@);
    }

    /// Whether a cloaked unit of ours lost or gained health since it was remembered.
    pub fn detect_health_changes_on_cloaked_units(&self, my_units: &Vec<OwnUnit>) -> (r: bool)
        ensures
            r == cloaked_health_changed(self.units@, my_units@),
    {
        let mut i: usize = 0;
        while i < my_units.len()
            invariant
                i <= my_units.len(),
                forall|j: int|
                    0 <= j < i ==> !((#[trigger] my_units@[j]).cloaked && (tag_index(self.units@, my_units@[j].tag) matches Some(k)
                        && self.units@[k].health != my_units@[j].health)),
            decreases my_units.len() - i,
        {
            let u = my_units[i];
            if u.cloaked {
                match find_tag(&self.units, u.tag) {
                    Some(k) => {
                        if self.units[k].health != u.health {
                            return true;
                        }
                    },
                    None => {},
                }
            }
            i += 1;
        }
        false
    }

    /// Remembered units take the health our units have now.
    pub fn update_health(&mut self, my_units: &Vec<OwnUnit>)
        ensures
            final(self).units@ == old(self).units@.map_values(|u: UnitSnapshot| with_current_health(u, my_units@)),
            final(self).debugging == old(self).debugging,
    {
        let ghost old_units = self.units@;
        let ghost dbg = self.debugging;
        let mut i: usize = 0;
        while i < self.units.len()
            invariant
                i <= self.units.len(),
                self.debugging == dbg,
                self.units@.len() == old_units.len(),
                forall|j: int| 0 <= j < i ==> self.units@[j] == with_current_health(old_units[j], my_units@),
                forall|j: int| i <= j < old_units.len() ==> self.units@[j] == old_units[j],
            decreases self.units.len() - i,
        {
            let mut u = self.units[i];
            match find_own(my_units, u.tag) {
                Some(k) => {
                    u.type_id = my_units[k].type_id;
                    u.supply = my_units[k].supply;
                    u.health = my_units[k].health;
                    u.is_ignored_unit = false;
                },
                None => {},
            }
            self.units.set(i, u);
            i += 1;
        }
        assert(self.units@ =~= old_units.map_values(|u: UnitSnapshot| with_current_health(u, my_units@)));
    }
}

/// One step of our army memory; tells whether a hit on a cloaked unit of ours
/// was noticed.
pub fn refresh_my_army_snapshot(army: &mut MyArmySnapshot, my_units: &Vec<OwnUnit>, now: u32) -> (detected: bool)
    ensures
        detected == cloaked_health_changed(
            absorb_own_all(keep(old(army).units@, still_present(my_units@)), my_units@, now),
            my_units@,
        ),
        final(army).units@ == absorb_own_all(keep(old(army).units@, still_present(my_units@)), my_units@, now).map_values(
            |u: UnitSnapshot| with_current_health(u, my_units@),
        ),
        final(army).debugging == old(army).debugging,
{
    army.delete_missing_units(my_units);
    army.append_snapshot(my_units, now);
    let detected = army.detect_health_changes_on_cloaked_units(my_units);
    army.update_health(my_units);
    detected
}

/// A visible enemy unit, as its snapshot, and whether it can attack.
#[derive(Clone, Copy, Debug)]
pub struct VisibleEnemy {
    pub snapshot: UnitSnapshot,
    pub can_attack: bool,
}

pub open spec fn fighting_enemies(es: Seq<VisibleEnemy>) -> Seq<UnitSnapshot>
    decreases es.len(),
{
    if es.len() == 0 {
        seq![]
    } else {
        let e = es.last();
        fighting_enemies(es.drop_last()) + if e.can_attack && !crate::unit_types::is_worker(e.snapshot.type_id) {
            seq![e.snapshot]
        } else {
            seq![]
        }
    }
}

/// The enemies that count for the army: those that can attack, workers aside.
pub fn get_visible_enemies(es: &Vec<VisibleEnemy>) -> (r: Vec<UnitSnapshot>)
    ensures
        r@ == fighting_enemies(es@),
{
    let mut out: Vec<UnitSnapshot> = Vec::new();
    let mut i: usize = 0;
    while i < es.len()
        invariant
            i <= es.len(),
            out@ == fighting_enemies(es@.take(i as int)),
        decreases es.len() - i,
    {
        proof {
            assert(es@.take(i + 1).drop_last() =~= es@.take(i as int));
        }
        let e = es[i];
        if e.can_attack && !crate::unit_types::is_worker(e.snapshot.type_id) {
            out.push(e.snapshot);
        }
        assert(out@ =~= fighting_enemies(es@.take(i + 1)));
        i += 1;
    }
    assert(es@.take(es.len() as int) =~= es@);
    out
}

/// One step of the enemy army memory, for any sightings, with each enemy
/// remembered once before:
/// - each enemy is remembered once after;
/// - each unit seen now that did not die has exactly one entry, seen now and
///   not a memory;
/// - no dead unit is remembered, and no unit last seen longer ago than the
///   fade-out time (45 seconds);
/// - every unit not seen now is remembered as a memory.
pub proof fn enemy_army_step_laws(units: Seq<UnitSnapshot>, now: u32, visible: Seq<UnitSnapshot>, dead: Seq<u64>)
    requires
        tags_unique(units),
    ensures
        tags_unique(refreshed_army(units, now, stamped(visible, now), dead)),
        forall|i: int| 0 <= i < visible.len() && !dead.contains(#[trigger] visible[i].tag) ==> exists|k: int|
            0 <= k < refreshed_army(units, now, stamped(visible, now), dead).len()
                && #[trigger] refreshed_army(units, now, stamped(visible, now), dead)[k].tag == visible[i].tag
                && refreshed_army(units, now, stamped(visible, now), dead)[k].last_seen == now
                && !refreshed_army(units, now, stamped(visible, now), dead)[k].is_snapshot
                && forall|k2: int| 0 <= k2 < refreshed_army(units, now, stamped(visible, now), dead).len()
                    && refreshed_army(units, now, stamped(visible, now), dead)[k2].tag == visible[i].tag ==> k2 == k,
        forall|k: int| 0 <= k < refreshed_army(units, now, stamped(visible, now), dead).len() ==> !dead.contains(
            #[trigger] refreshed_army(units, now, stamped(visible, now), dead)[k].tag,
        ),
        forall|k: int| 0 <= k < refreshed_army(units, now, stamped(visible, now), dead).len() ==> !outdated(
            #[trigger] refreshed_army(units, now, stamped(visible, now), dead)[k],
            now,
        ),
        forall|k: int| 0 <= k < refreshed_army(units, now, stamped(visible, now), dead).len() && !contains_tag(
            visible,
            #[trigger] refreshed_army(units, now, stamped(visible, now), dead)[k].tag,
        ) ==> refreshed_army(units, now, stamped(visible, now), dead)[k].is_snapshot,
{
    let v = stamped(visible, now);
    let r = refreshed_army(units, now, v, dead);
    refresh_laws(units, now, v, dead);
    assert forall|i: int| 0 <= i < visible.len() && !dead.contains(#[trigger] visible[i].tag) implies exists|k: int|
        0 <= k < r.len() && #[trigger] r[k].tag == visible[i].tag && r[k].last_seen == now && !r[k].is_snapshot
            && forall|k2: int| 0 <= k2 < r.len() && r[k2].tag == visible[i].tag ==> k2 == k by {
        assert(v[i].tag == visible[i].tag);
        let k = choose|k: int| 0 <= k < r.len() && #[trigger] r[k].tag == v[i].tag && r[k].last_seen == now && !r[k].is_snapshot;
        assert forall|k2: int| 0 <= k2 < r.len() && r[k2].tag == visible[i].tag implies k2 == k by {
            if k2 < k {
                assert(r[k2].tag != r[k].tag);
            } else if k < k2 {
                assert(r[k].tag != r[k2].tag);
            }
        }
    }
    assert forall|k: int| 0 <= k < r.len() && !contains_tag(visible, #[trigger] r[k].tag) implies r[k].is_snapshot by {
        if contains_tag(v, r[k].tag) {
            let i = choose|i: int| 0 <= i < v.len() && #[trigger] v[i].tag == r[k].tag;
            assert(visible[i].tag == r[k].tag);
        }
    }
}

} // verus!
