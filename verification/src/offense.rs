//! When the army attacks, and which units and bases the army's points are
//! taken from.
use vstd::prelude::*;
use crate::unit_types::{
    BANSHEE, MARAUDER, MARINE, REAPER, SIEGE_TANK, SIEGE_TANK_SIEGED, THOR, VIKING_ASSAULT, VIKING_FIGHTER,
    is_worker,
};

verus! {

pub open spec fn offensive_rule(enemy_supply: u128, my_supply: u32, defend: bool, closer_to_enemy: bool) -> bool {
    let more_than_enemy = my_supply >= enemy_supply as u32;
    let decent = my_supply > 25;
    let maxed_out = my_supply >= 190;
    let minimal = my_supply > 13;
    !defend && ((decent && more_than_enemy) || maxed_out || (minimal && closer_to_enemy))
}

/// Whether the army attacks: never while defending; with more than 25 supply
/// and at least the enemy's (counted modulo 2^32, as the game client counts
/// it); when maxed out; or with more than 13 supply once the army stands
/// nearer to the enemy's base than to ours.
pub fn decide_offensive(enemy_supply: u128, my_supply: u32, defend: bool, closer_to_enemy: bool) -> (attack: bool)
    ensures
        attack == offensive_rule(enemy_supply, my_supply, defend, closer_to_enemy),
{
    let have_more_supply_than_enemy = my_supply >= enemy_supply as u32;
    let have_decent_supply = my_supply > 25;
    let maxed_out = my_supply >= 190;
    let have_minimal_attack_supply = my_supply > 13;
    let can_attack = have_decent_supply && have_more_supply_than_enemy;
    if defend {
        return false;
    }
    if can_attack || maxed_out {
        return true;
    }
    if have_minimal_attack_supply && closer_to_enemy {
        return true;
    }
    false
}

pub open spec fn supply_rule(enemy_supply: u32, my_supply: u32) -> bool {
    if enemy_supply == 0 {
        my_supply > 12
    } else if enemy_supply < 100 {
        my_supply as int >= enemy_supply as int + 10
    } else {
        my_supply as int >= enemy_supply as int - 10
    }
}

/// The supply-only attack rule: with no enemy army known, attack with more
/// than 12 supply; against a small army, with ten more supply; against a big
/// one, with at most ten less.
pub fn decide_offensive_by_supply(enemy_supply: u32, my_supply: u32) -> (attack: bool)
    ensures
        attack == supply_rule(enemy_supply, my_supply),
{
    if enemy_supply == 0 {
        return my_supply > 12;
    }
    if enemy_supply < 100 {
        return my_supply >= enemy_supply + 10;
    }
    my_supply >= enemy_supply - 10
}

/// Game loops in fifteen seconds: how long an assembled push holds.
pub const ASSEMBLE_LOOPS: u32 = 336;

/// What the push logic reads in a step.
#[derive(Clone, Copy, Debug)]
pub struct PushObservation {
    pub now: u32,
    pub defending: bool,
    pub supply_army: u32,
    pub supply_used: u32,
    /// Supply of the remembered enemy army, in half supply.
    pub enemy_supply_halves: u64,
    /// Game loop until which the push holds.
    pub assembling_until: u32,
    /// Both the main army and an attack target are known, and the army is
    /// nearer to the target than to its idle point.
    pub pushing_forward: bool,
}

/// The push decision of a step.
#[derive(Clone, Copy, Debug, PartialEq, Eq, Structural)]
pub enum PushDecision {
    /// No attack target.
    Hold,
    /// Gather the army and attack; the push holds until the given loop.
    Assemble(u32),
}

pub open spec fn push_rule(o: PushObservation) -> PushDecision {
    if o.defending {
        PushDecision::Hold
    } else if (o.supply_army > 12 && 2 * (o.supply_army as int) > o.enemy_supply_halves as int)
        || o.supply_used > 170 || o.assembling_until > o.now || (o.supply_army > 13
        && o.pushing_forward) {
        PushDecision::Assemble((o.now + ASSEMBLE_LOOPS) as u32)
    } else {
        PushDecision::Hold
    }
}

/// Whether the army pushes: defense first; push with more than 12 supply and
/// more than the enemy, when nearly maxed, while an earlier push holds, or to
/// keep pushing forward.
pub fn set_offensive_point(o: &PushObservation) -> (d: PushDecision)
    requires
        o.now + ASSEMBLE_LOOPS <= u32::MAX,
    ensures
        d == push_rule(*o),
{
    if o.defending {
        return PushDecision::Hold;
    }
    if (o.supply_army > 12 && 2 * (o.supply_army as u64) > o.enemy_supply_halves) || o.supply_used
        > 170 || o.assembling_until > o.now {
        return PushDecision::Assemble(o.now + ASSEMBLE_LOOPS);
    }
    if o.supply_army > 13 && o.pushing_forward {
        return PushDecision::Assemble(o.now + ASSEMBLE_LOOPS);
    }
    PushDecision::Hold
}

/// The first place holding the largest count.
pub open spec fn is_first_max(counts: Seq<usize>, i: int) -> bool {
    &&& 0 <= i < counts.len()
    &&& forall|j: int| 0 <= j < i ==> #[trigger] counts[j] < counts[i]
    &&& forall|j: int| i < j < counts.len() ==> #[trigger] counts[j] <= counts[i]
}

/// The base with the most workers near it (the first of equals): where
/// repairs gather.
pub fn base_with_most_workers(workers_near: &Vec<usize>) -> (r: Option<usize>)
    ensures
        r is None <==> workers_near@.len() == 0,
        r matches Some(i) ==> is_first_max(workers_near@, i as int),
{
    if workers_near.len() == 0 {
        return None;
    }
    let mut best: usize = 0;
    let mut i: usize = 1;
    while i < workers_near.len()
        invariant
            1 <= i <= workers_near.len(),
            best < i,
            forall|j: int| 0 <= j < best ==> #[trigger] workers_near@[j] < workers_near@[best as int],
            forall|j: int| best < j < i ==> #[trigger] workers_near@[j] <= workers_near@[best as int],
        decreases workers_near.len() - i,
    {
        if workers_near[best] < workers_near[i] {
            best = i;
        }
        i += 1;
    }
    Some(best)
}

/// Bases with more than five workers near them get a repair point.
pub open spec fn repair_bases(workers_near: Seq<usize>) -> Seq<usize>
    decreases workers_near.len(),
{
    if workers_near.len() == 0 {
        seq![]
    } else {
        repair_bases(workers_near.drop_last()) + if workers_near.last() > 5 {
            seq![(workers_near.len() - 1) as usize]
        } else {
            seq![]
        }
    }
}

/// The places of the bases that get a repair point, in order.
pub fn refresh_repair_bases(workers_near: &Vec<usize>) -> (r: Vec<usize>)
    ensures
        r@ == repair_bases(workers_near@),
{
    let mut out: Vec<usize> = Vec::new();
    let mut i: usize = 0;
    while i < workers_near.len()
        invariant
            i <= workers_near.len(),
            out@ == repair_bases(workers_near@.take(i as int)),
        decreases workers_near.len() - i,
    {
        proof {
            assert(workers_near@.take(i + 1).drop_last() =~= workers_near@.take(i as int));
        }
        if workers_near[i] > 5 {
            out.push(i);
        }
        i += 1;
    }
    assert(workers_near@.take(workers_near.len() as int) =~= workers_near@);
    out
}

/// One of our units, nearest to the attack point first.
#[derive(Clone, Copy, Debug)]
pub struct FrontUnit {
    pub type_id: u32,
    pub can_attack: bool,
}

pub open spec fn is_bio_front(u: FrontUnit) -> bool {
    u.type_id == MARINE || u.type_id == MARAUDER
}

pub open spec fn is_frontal(u: FrontUnit) -> bool {
    u.can_attack && !is_worker(u.type_id) && u.type_id != BANSHEE && u.type_id != REAPER
        && u.type_id != VIKING_ASSAULT && u.type_id != VIKING_FIGHTER
}

/// The first six units (by place) that `p` picks.
pub open spec fn first_six(s: Seq<FrontUnit>, p: spec_fn(FrontUnit) -> bool) -> Seq<usize>
    decreases s.len(),
{
    if s.len() == 0 {
        seq![]
    } else {
        let prev = first_six(s.drop_last(), p);
        if prev.len() < 6 && p(s.last()) {
            prev.push((s.len() - 1) as usize)
        } else {
            prev
        }
    }
}

proof fn lemma_first_six_len(s: Seq<FrontUnit>, p: spec_fn(FrontUnit) -> bool)
    ensures
        first_six(s, p).len() <= 6,
    decreases s.len(),
{
    if s.len() > 0 {
        lemma_first_six_len(s.drop_last(), p);
    }
}

/// The units whose center is the army center: with more than six marines and
/// marauders, the six of them nearest to the attack point; otherwise the six
/// nearest fighters that walk with the army.
pub fn army_center_units(units: &Vec<FrontUnit>, infantry: usize) -> (r: Vec<usize>)
    ensures
        infantry > 6 && first_six(units@, |u: FrontUnit| is_bio_front(u)).len() > 0 ==> r@ == first_six(
            units@,
            |u: FrontUnit| is_bio_front(u),
        ),
        !(infantry > 6 && first_six(units@, |u: FrontUnit| is_bio_front(u)).len() > 0) ==> r@
            == first_six(units@, |u: FrontUnit| is_frontal(u)),
{
    if infantry > 6 {
        let bio = pick_six(units, true);
        if bio.len() > 0 {
            return bio;
        }
    }
    pick_six(units, false)
}

fn pick_six(units: &Vec<FrontUnit>, bio: bool) -> (r: Vec<usize>)
    ensures
        bio ==> r@ == first_six(units@, |u: FrontUnit| is_bio_front(u)),
        !bio ==> r@ == first_six(units@, |u: FrontUnit| is_frontal(u)),
{
    let ghost p = if bio {
        |u: FrontUnit| is_bio_front(u)
    } else {
        |u: FrontUnit| is_frontal(u)
    };
    let mut out: Vec<usize> = Vec::new();
    let mut i: usize = 0;
    while i < units.len()
        invariant
            i <= units.len(),
            p == (if bio {
                |u: FrontUnit| is_bio_front(u)
            } else {
                |u: FrontUnit| is_frontal(u)
            }),
            out@ == first_six(units@.take(i as int), p),
        decreases units.len() - i,
    {
        proof {
            assert(units@.take(i + 1).drop_last() =~= units@.take(i as int));
        }
        let u = units[i];
        let picked = if bio {
            u.type_id == MARINE || u.type_id == MARAUDER
        } else {
            u.can_attack && !is_worker(u.type_id) && u.type_id != BANSHEE && u.type_id != REAPER
                && u.type_id != VIKING_ASSAULT && u.type_id != VIKING_FIGHTER
        };
        if out.len() < 6 && picked {
            out.push(i);
        }
        i += 1;
    }
    assert(units@.take(units.len() as int) =~= units@);
    out
}

/// An attack is never ordered while the army defends.
pub proof fn defense_comes_first(enemy_supply: u128, my_supply: u32, closer_to_enemy: bool, o: PushObservation)
    ensures
        !offensive_rule(enemy_supply, my_supply, true, closer_to_enemy),
        o.defending ==> push_rule(o) == PushDecision::Hold,
{
}

/// More army supply never turns an attack into a retreat: the attack rule
/// is monotone in our supply (below the point where the enemy's count wraps).
pub proof fn attack_is_monotone_in_supply(enemy_supply: u128, a: u32, b: u32, defend: bool, closer: bool)
    requires
        a <= b,
        offensive_rule(enemy_supply, a, defend, closer),
    ensures
        offensive_rule(enemy_supply, b, defend, closer),
{
}

/// When the army pushes. A push gathers the army until `ASSEMBLE_LOOPS`
/// from now. Never while defending; otherwise it pushes with more than 12
/// army supply that outweighs the enemy's remembered army (counted in half
/// supply, so the enemy's supply is half the count), when more than 170
/// supply is used, while an earlier push still holds, or with more than 13
/// army supply when the army is already moving forward; in no other case.
/// More army supply never stops a push.
pub proof fn push_law(o: PushObservation, more: u32)
    ensures
        o.defending ==> push_rule(o) == PushDecision::Hold,
        push_rule(o) matches PushDecision::Assemble(t) ==> t == o.now + ASSEMBLE_LOOPS || o.now + ASSEMBLE_LOOPS > u32::MAX,
        !o.defending && o.supply_army > 12 && (o.enemy_supply_halves as int) < 2 * (o.supply_army as int)
            ==> push_rule(o) is Assemble,
        !o.defending && o.supply_used > 170 ==> push_rule(o) is Assemble,
        !o.defending && o.assembling_until > o.now ==> push_rule(o) is Assemble,
        !o.defending && o.supply_army > 13 && o.pushing_forward ==> push_rule(o) is Assemble,
        !o.defending && !(o.supply_army > 12 && (o.enemy_supply_halves as int) < 2 * (o.supply_army as int))
            && o.supply_used <= 170 && o.assembling_until <= o.now && !(o.supply_army > 13 && o.pushing_forward)
            ==> push_rule(o) == PushDecision::Hold,
        o.supply_army <= more && push_rule(o) is Assemble ==> push_rule(PushObservation { supply_army: more, ..o }) is Assemble,
{
}

/// The unit types an army leader is taken from.
#[verifier::allow_in_spec]
pub fn is_leader_type(t: u32) -> bool
    returns
        t == MARINE || t == MARAUDER || t == SIEGE_TANK || t == SIEGE_TANK_SIEGED || t == THOR,
{
    t == MARINE || t == MARAUDER || t == SIEGE_TANK || t == SIEGE_TANK_SIEGED || t == THOR
}

pub open spec fn leader_candidates(units: Seq<(u64, u32)>) -> Seq<u64>
    decreases units.len(),
{
    if units.len() == 0 {
        seq![]
    } else {
        leader_candidates(units.drop_last()) + if is_leader_type(units.last().1) {
            seq![units.last().0]
        } else {
            seq![]
        }
    }
}

/// Our units (tag and type) that may lead the army, in order.
pub fn army_leader_candidates(units: &Vec<(u64, u32)>) -> (r: Vec<u64>)
    ensures
        r@ == leader_candidates(units@),
{
    let mut out: Vec<u64> = Vec::new();
    let mut i: usize = 0;
    while i < units.len()
        invariant
            i <= units.len(),
            out@ == leader_candidates(units@.take(i as int)),
        decreases units.len() - i,
    {
        proof {
            assert(units@.take(i + 1).drop_last() =~= units@.take(i as int));
        }
        if is_leader_type(units[i].1) {
            out.push(units[i].0);
        }
        assert(out@ =~= leader_candidates(units@.take(i + 1)));
        i += 1;
    }
    assert(units@.take(units.len() as int) =~= units@);
    out
}

/// Keeps the army leader while it lives; else the candidate closest to the
/// candidates' center takes over, when there is one.
pub fn check_army_leader(leader: u64, my_tags: &Vec<u64>, closest_to_center: Option<u64>) -> (r: u64)
    ensures
        r == if my_tags@.contains(leader) {
            leader
        } else {
            match closest_to_center {
                Some(t) => t,
                None => leader,
            }
        },
{
    if crate::army::vec_contains_u64(my_tags, leader) {
        return leader;
    }
    match closest_to_center {
        Some(t) => t,
        None => leader,
    }
}

/// Where the army waits: a step along the ground path from a base to the
/// enemy, in front of that base when its path is empty, or the start
/// location when no base has a path.
#[derive(Clone, Copy, Debug, PartialEq, Eq, Structural)]
pub enum IdlePoint {
    /// The point at `step` on the path of the base at `base`.
    PathStep { base: usize, step: usize },
    /// In front of the base at this place, towards the enemy.
    TowardEnemy(usize),
    StartLocation,
}

/// The base whose path to the enemy is shortest (the first of equals),
/// with its path's length.
pub open spec fn shortest_path(lens: Seq<Option<usize>>) -> Option<(int, usize)>
    decreases lens.len(),
{
    if lens.len() == 0 {
        None
    } else {
        let p = shortest_path(lens.drop_last());
        match lens.last() {
            Some(l) => if l < 0x7fff_ffff && (match p {
                Some(q) => l < q.1,
                None => true,
            }) {
                Some((lens.len() - 1, l))
            } else {
                p
            },
            None => p,
        }
    }
}

/// The idle point from the shortest path: its sixth point, or its last when
/// shorter.
pub open spec fn idle_point_of(lens: Seq<Option<usize>>) -> IdlePoint {
    match shortest_path(lens) {
        Some(p) => if p.1 > 5 {
            IdlePoint::PathStep { base: p.0 as usize, step: 5 }
        } else if p.1 > 0 {
            IdlePoint::PathStep { base: p.0 as usize, step: (p.1 - 1) as usize }
        } else {
            IdlePoint::TowardEnemy(p.0 as usize)
        },
        None => IdlePoint::StartLocation,
    }
}

/// Chooses where the army waits. `path_lens` holds, for each finished base,
/// the length of its ground path to the enemy, when one was found.
pub fn refresh_idle_point(path_lens: &Vec<Option<usize>>) -> (r: IdlePoint)
    ensures
        r == idle_point_of(path_lens@),
{
    let mut best: Option<(usize, usize)> = None;
    let mut i: usize = 0;
    while i < path_lens.len()
        invariant
            i <= path_lens.len(),
            match best {
                Some(b) => shortest_path(path_lens@.take(i as int)) == Some((b.0 as int, b.1)),
                None => shortest_path(path_lens@.take(i as int)) is None,
            },
        decreases path_lens.len() - i,
    {
        proof {
            assert(path_lens@.take(i + 1).drop_last() =~= path_lens@.take(i as int));
        }
        match path_lens[i] {
            Some(l) => {
                let better = match best {
                    Some(b) => l < b.1,
                    None => true,
                };
                if l < 0x7fff_ffff && better {
                    best = Some((i, l));
                }
            },
            None => {},
        }
        i += 1;
    }
    assert(path_lens@.take(path_lens.len() as int) =~= path_lens@);
    match best {
        Some(b) => {
            if b.1 > 5 {
                IdlePoint::PathStep { base: b.0, step: 5 }
            } else if b.1 > 0 {
                IdlePoint::PathStep { base: b.0, step: b.1 - 1 }
            } else {
                IdlePoint::TowardEnemy(b.0)
            }
        },
        None => IdlePoint::StartLocation,
    }
}

} // verus!
