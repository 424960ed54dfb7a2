//! What each finished town hall does in a step: flee or land while flying,
//! lift off when dying, scan, call down mules, morph, or train workers.
use vstd::prelude::*;
use crate::seq_util::{first_index, lemma_first_index_found, lemma_first_index_none};
use crate::unit_types::{COMMAND_CENTER, ORBITAL_COMMAND, PLANETARY_FORTRESS, is_cloak_or_burrow};

verus! {

/// An enemy unit near a town hall, as far as the town hall cares.
#[derive(Clone, Copy, Debug)]
pub struct NearbyEnemy {
    pub attacks_air: bool,
    pub attacks_ground: bool,
}

/// A mineral field within reach of a town hall.
#[derive(Clone, Copy, Debug)]
pub struct MineralPatch {
    pub tag: u64,
    pub contents: u32,
}

/// One finished town hall.
#[derive(Clone, Debug)]
pub struct TownhallObservation {
    pub kind: u32,
    pub flying: bool,
    pub idle: bool,
    /// The town hall has orders queued.
    pub has_orders: bool,
    /// Health below 35 percent.
    pub low_health: bool,
    pub energy: Option<u32>,
    /// Enemy units within 15 of the town hall, in the game's order.
    pub nearby_enemies: Vec<NearbyEnemy>,
    /// Types of all visible enemy units, nearest to the town hall first.
    pub enemy_types_by_distance: Vec<u32>,
    /// Mineral fields within 10 of the town hall.
    pub minerals: Vec<MineralPatch>,
}

/// What every town hall shares in a step.
#[derive(Clone, Debug)]
pub struct TownhallContext {
    /// The current game loop.
    pub now: u32,
    /// There is an expansion to land at.
    pub has_expansion: bool,
    /// Our unit nearest to the enemy's start stands within 5 of it.
    pub at_enemy_start: bool,
    /// Some enemy structure is known.
    pub enemy_structures_known: bool,
    /// For every mineral field on the map, whether it is visible.
    pub mineral_visibility: Vec<bool>,
    /// Mineral fields within 10 of each of our town halls, ready or not.
    pub minerals_per_townhall: Vec<Vec<MineralPatch>>,
    pub enemy_cloaking: bool,
    pub enemy_flooding: bool,
    pub can_afford_planetary: bool,
    pub can_afford_orbital: bool,
    pub has_ready_engineering_bay: bool,
    pub has_ready_barracks: bool,
    /// Orbital commands, flying or not.
    pub orbitals: usize,
    pub workers: usize,
    /// Town halls, ready or not.
    pub townhalls: usize,
    pub pending_workers: usize,
}

/// What a scan is aimed at.
#[derive(Clone, Copy, Debug, PartialEq, Eq, Structural)]
pub enum ScanTarget {
    /// The enemy at this place in the town hall's distance order.
    Enemy(usize),
    /// The mineral field at this place in the map's list.
    Mineral(usize),
}

/// An order for a town hall.
#[derive(Clone, Copy, Debug, PartialEq, Eq, Structural)]
pub enum TownhallCommand {
    /// Move one step away from the nearby enemy at this place.
    FleeFrom(usize),
    Stop,
    /// Land at the next expansion.
    Land,
    Lift,
    Scan(ScanTarget),
    /// Call down a mule on this mineral field.
    CalldownMule(u64),
    MorphPlanetary,
    MorphOrbital,
    TrainWorker,
}

/// Game loops in ten seconds: how long a scan holds off the next one.
pub const SCAN_COOLDOWN: u64 = 224;

/// The place of the mineral field with the most minerals; of equals, the last.
pub open spec fn richest_index(m: Seq<MineralPatch>) -> int
    decreases m.len(),
{
    if m.len() <= 1 {
        0
    } else {
        let k = richest_index(m.drop_last());
        if m.last().contents >= m[k].contents {
            m.len() - 1
        } else {
            k
        }
    }
}

pub open spec fn richest_tag(m: Seq<MineralPatch>) -> Option<u64> {
    if m.len() == 0 {
        None
    } else {
        Some(m[richest_index(m)].tag)
    }
}

proof fn lemma_richest_index_bounds(m: Seq<MineralPatch>)
    requires
        m.len() > 0,
    ensures
        0 <= richest_index(m) < m.len(),
    decreases m.len(),
{
    if m.len() > 1 {
        lemma_richest_index_bounds(m.drop_last());
    }
}

/// The richest mineral field of a list, the last of equals.
pub fn richest_mineral(m: &Vec<MineralPatch>) -> (r: Option<u64>)
    ensures
        r == richest_tag(m@),
{
    if m.len() == 0 {
        return None;
    }
    let mut best: usize = 0;
    let mut i: usize = 1;
    while i < m.len()
        invariant
            1 <= i <= m.len(),
            best < i,
            best == richest_index(m@.take(i as int)),
        decreases m.len() - i,
    {
        proof {
            let t = m@.take(i + 1);
            assert(t.drop_last() =~= m@.take(i as int));
            lemma_richest_index_bounds(m@.take(i as int));
        }
        if m[i].contents >= m[best].contents {
            best = i;
        }
        i += 1;
    }
    assert(m@.take(m.len() as int) =~= m@);
    Some(m[best].tag)
}

/// The richest mineral field is at least as rich as every other, and richer
/// than every one after it.
pub proof fn richest_is_maximal(m: Seq<MineralPatch>)
    requires
        m.len() > 0,
    ensures
        forall|j: int| 0 <= j < m.len() ==> #[trigger] m[j].contents <= m[richest_index(m)].contents,
        forall|j: int| richest_index(m) < j < m.len() ==> #[trigger] m[j].contents < m[richest_index(m)].contents,
    decreases m.len(),
{
    lemma_richest_index_bounds(m);
    if m.len() > 1 {
        richest_is_maximal(m.drop_last());
        lemma_richest_index_bounds(m.drop_last());
        assert forall|j: int| 0 <= j < m.len() - 1 implies #[trigger] m[j] == m.drop_last()[j] by {}
    }
}

/// Flee from every nearby enemy that can shoot up, in order.
pub open spec fn flee_commands(e: Seq<NearbyEnemy>) -> Seq<TownhallCommand>
    decreases e.len(),
{
    if e.len() == 0 {
        seq![]
    } else {
        flee_commands(e.drop_last()) + if e.last().attacks_air {
            seq![TownhallCommand::FleeFrom((e.len() - 1) as usize)]
        } else {
            seq![]
        }
    }
}

/// A nearby enemy that cannot shoot up but can shoot the ground below.
pub open spec fn ground_threat(e: Seq<NearbyEnemy>) -> bool {
    exists|i: int| 0 <= i < e.len() && !e[i].attacks_air && #[trigger] e[i].attacks_ground
}

/// A flying town hall flees from anti-air, stops while ground units wait
/// below, and otherwise lands at the next expansion when it has no orders.
pub open spec fn flying_commands(b: TownhallObservation, has_expansion: bool) -> Seq<TownhallCommand> {
    let e = b.nearby_enemies@;
    flee_commands(e) + if ground_threat(e) {
        seq![TownhallCommand::Stop]
    } else if !b.has_orders && has_expansion {
        seq![TownhallCommand::Land]
    } else {
        seq![]
    }
}

pub open spec fn lifts(b: TownhallObservation) -> bool {
    b.idle && b.nearby_enemies@.len() > 0 && b.low_health && b.kind != PLANETARY_FORTRESS
}

/// A unit type that can hide from sight.
pub open spec fn cloaked_type() -> spec_fn(u32) -> bool {
    |t: u32| is_cloak_or_burrow(t)
}

/// A mineral field out of sight.
pub open spec fn out_of_sight() -> spec_fn(bool) -> bool {
    |v: bool| !v
}

/// A town hall with mineral fields next to it.
pub open spec fn has_minerals() -> spec_fn(Vec<MineralPatch>) -> bool {
    |v: Vec<MineralPatch>| v@.len() > 0
}

/// The orbital may scan: the previous scan has cooled down and it holds more than 50 energy.
pub open spec fn may_scan(b: TownhallObservation, ctx: TownhallContext, sweep: u64) -> bool {
    b.kind == ORBITAL_COMMAND && ctx.now > sweep && b.energy.unwrap() > 50
}

pub open spec fn cloaked_target(b: TownhallObservation) -> Option<int> {
    first_index(b.enemy_types_by_distance@, cloaked_type())
}

pub open spec fn hidden_mineral(ctx: TownhallContext) -> Option<int> {
    first_index(ctx.mineral_visibility@, out_of_sight())
}

/// Scan the nearest cloaked enemy; once at the enemy's start with no enemy
/// structure known, also scan the first mineral field out of sight.
pub open spec fn scan_commands(b: TownhallObservation, ctx: TownhallContext, sweep: u64) -> Seq<TownhallCommand> {
    if may_scan(b, ctx, sweep) {
        (match cloaked_target(b) {
            Some(k) => seq![TownhallCommand::Scan(ScanTarget::Enemy(k as usize))],
            None => seq![],
        }) + if ctx.at_enemy_start && !ctx.enemy_structures_known {
            match hidden_mineral(ctx) {
                Some(k) => seq![TownhallCommand::Scan(ScanTarget::Mineral(k as usize))],
                None => seq![],
            }
        } else {
            seq![]
        }
    } else {
        seq![]
    }
}

pub open spec fn mule_energy(ctx: TownhallContext) -> u32 {
    if ctx.enemy_cloaking {
        100
    } else {
        50
    }
}

pub open spec fn townhall_with_minerals(ctx: TownhallContext) -> Option<int> {
    first_index(ctx.minerals_per_townhall@, has_minerals())
}

/// With enough energy (twice as much once the enemy can cloak, to keep a
/// scan), call a mule down on the richest field here, else at the first
/// town hall that has minerals.
pub open spec fn mule_commands(b: TownhallObservation, ctx: TownhallContext) -> Seq<TownhallCommand> {
    if b.kind == ORBITAL_COMMAND && (b.energy matches Some(en) && en >= mule_energy(ctx)) {
        match richest_tag(b.minerals@) {
            Some(t) => seq![TownhallCommand::CalldownMule(t)],
            None => match townhall_with_minerals(ctx) {
                Some(j) => seq![
                    TownhallCommand::CalldownMule(richest_tag(ctx.minerals_per_townhall@[j]@).unwrap()),
                ],
                None => seq![],
            },
        }
    } else {
        seq![]
    }
}

/// An idle command center becomes a planetary fortress once two orbitals
/// stand (one when flooded), or an orbital once a barracks stands; otherwise
/// the town hall trains workers up to 22 per town hall and 70 in all.
pub open spec fn idle_commands(b: TownhallObservation, ctx: TownhallContext) -> Seq<TownhallCommand> {
    if !b.idle {
        seq![]
    } else if b.kind == COMMAND_CENTER && ctx.can_afford_planetary && ctx.has_ready_engineering_bay
        && (ctx.orbitals > 1 || (ctx.enemy_flooding && ctx.orbitals > 0)) {
        seq![TownhallCommand::MorphPlanetary]
    } else if b.kind == COMMAND_CENTER && ctx.can_afford_orbital && ctx.has_ready_barracks {
        seq![TownhallCommand::MorphOrbital]
    } else if ctx.workers < ctx.townhalls * 22 && ctx.workers + ctx.pending_workers < 70 {
        seq![TownhallCommand::TrainWorker]
    } else {
        seq![]
    }
}

/// Everything a town hall is told in a step, by the first phase that has something to do.
pub open spec fn townhall_commands(b: TownhallObservation, ctx: TownhallContext, sweep: u64) -> Seq<TownhallCommand> {
    if b.flying {
        flying_commands(b, ctx.has_expansion)
    } else if lifts(b) {
        seq![TownhallCommand::Lift]
    } else if scan_commands(b, ctx, sweep).len() > 0 {
        scan_commands(b, ctx, sweep)
    } else if mule_commands(b, ctx).len() > 0 {
        mule_commands(b, ctx)
    } else {
        idle_commands(b, ctx)
    }
}

/// A scan on a cloaked enemy holds off the next scan for ten seconds.
pub open spec fn sweep_after(b: TownhallObservation, ctx: TownhallContext, sweep: u64) -> u64 {
    if !b.flying && !lifts(b) && may_scan(b, ctx, sweep) && cloaked_target(b) is Some {
        (ctx.now + SCAN_COOLDOWN) as u64
    } else {
        sweep
    }
}

pub open spec fn well_formed_townhall(b: TownhallObservation) -> bool {
    b.kind == ORBITAL_COMMAND ==> b.energy is Some
}

fn flee_from_anti_air(e: &Vec<NearbyEnemy>) -> (r: (Vec<TownhallCommand>, bool))
    ensures
        r.0@ == flee_commands(e@),
        r.1 == ground_threat(e@),
{
    let mut cmds: Vec<TownhallCommand> = Vec::new();
    let mut threat = false;
    let mut i: usize = 0;
    while i < e.len()
        invariant
            i <= e.len(),
            cmds@ == flee_commands(e@.take(i as int)),
            threat == ground_threat(e@.take(i as int)),
        decreases e.len() - i,
    {
        proof {
            let t = e@.take(i + 1);
            assert(t.drop_last() =~= e@.take(i as int));
        }
        if e[i].attacks_air {
            cmds.push(TownhallCommand::FleeFrom(i));
        } else if e[i].attacks_ground {
            threat = true;
        }
        proof {
            let t = e@.take(i + 1);
            let t0 = e@.take(i as int);
            if ground_threat(t0) {
                let w = choose|j: int| 0 <= j < t0.len() && !t0[j].attacks_air && #[trigger] t0[j].attacks_ground;
                assert(t[w] == t0[w]);
            }
            if ground_threat(t) {
                let w = choose|j: int| 0 <= j < t.len() && !t[j].attacks_air && #[trigger] t[j].attacks_ground;
                if w < i {
                    assert(t0[w] == t[w]);
                }
            }
            if !e[i as int].attacks_air && e[i as int].attacks_ground {
                assert(t[i as int] == e@[i as int]);
            }
        }
        i += 1;
    }
    assert(e@.take(e.len() as int) =~= e@);
    (cmds, threat)
}

fn find_cloaked(types: &Vec<u32>) -> (r: Option<usize>)
    ensures
        r matches Some(k) ==> k < types@.len() && first_index(types@, cloaked_type()) == Some(k as int),
        r is None ==> first_index(types@, cloaked_type()) is None,
{
        let mut i: usize = 0;
    while i < types.len()
        invariant
            i <= types.len(),
            forall|j: int| 0 <= j < i ==> !cloaked_type()(#[trigger] types@[j]),
        decreases types.len() - i,
    {
        if is_cloak_or_burrow(types[i]) {
            proof {
                lemma_first_index_found(types@, cloaked_type(), i as int);
            }
            return Some(i);
        }
        i += 1;
    }
    proof {
        lemma_first_index_none(types@, cloaked_type());
    }
    None
}

fn find_hidden(visible: &Vec<bool>) -> (r: Option<usize>)
    ensures
        r matches Some(k) ==> k < visible@.len() && first_index(visible@, out_of_sight()) == Some(k as int),
        r is None ==> first_index(visible@, out_of_sight()) is None,
{
        let mut i: usize = 0;
    while i < visible.len()
        invariant
            i <= visible.len(),
            forall|j: int| 0 <= j < i ==> !out_of_sight()(#[trigger] visible@[j]),
        decreases visible.len() - i,
    {
        if !visible[i] {
            proof {
                lemma_first_index_found(visible@, out_of_sight(), i as int);
            }
            return Some(i);
        }
        i += 1;
    }
    proof {
        lemma_first_index_none(visible@, out_of_sight());
    }
    None
}

fn find_townhall_with_minerals(m: &Vec<Vec<MineralPatch>>) -> (r: Option<usize>)
    ensures
        r matches Some(k) ==> k < m@.len() && first_index(m@, has_minerals()) == Some(k as int),
        r is None ==> first_index(m@, has_minerals()) is None,
{
        let mut i: usize = 0;
    while i < m.len()
        invariant
            i <= m.len(),
            forall|j: int| 0 <= j < i ==> !has_minerals()(#[trigger] m@[j]),
        decreases m.len() - i,
    {
        if m[i].len() > 0 {
            proof {
                lemma_first_index_found(m@, has_minerals(), i as int);
            }
            return Some(i);
        }
        i += 1;
    }
    proof {
        lemma_first_index_none(m@, has_minerals());
    }
    None
}

fn scan_step(b: &TownhallObservation, ctx: &TownhallContext, sweep: u64) -> (r: Vec<TownhallCommand>)
    requires
        well_formed_townhall(*b),
    ensures
        r@ == scan_commands(*b, *ctx, sweep),
{
    let mut cmds: Vec<TownhallCommand> = Vec::new();
    if b.kind == ORBITAL_COMMAND && (ctx.now as u64) > sweep {
        let energy = match b.energy {
            Some(e) => e,
            None => 0,
        };
        if energy > 50 {
            match find_cloaked(&b.enemy_types_by_distance) {
                Some(k) => cmds.push(TownhallCommand::Scan(ScanTarget::Enemy(k))),
                None => {},
            }
            if ctx.at_enemy_start && !ctx.enemy_structures_known {
                match find_hidden(&ctx.mineral_visibility) {
                    Some(k) => cmds.push(TownhallCommand::Scan(ScanTarget::Mineral(k))),
                    None => {},
                }
            }
        }
    }
    proof {
        if may_scan(*b, *ctx, sweep) {
            assert(cmds@ =~= scan_commands(*b, *ctx, sweep));
        }
    }
    cmds
}

fn mule_step(b: &TownhallObservation, ctx: &TownhallContext) -> (r: Vec<TownhallCommand>)
    ensures
        r@ == mule_commands(*b, *ctx),
{
    let mut cmds: Vec<TownhallCommand> = Vec::new();
    if b.kind == ORBITAL_COMMAND {
        if let Some(energy) = b.energy {
            let needed: u32 = if ctx.enemy_cloaking {
                100
            } else {
                50
            };
            if energy >= needed {
                match richest_mineral(&b.minerals) {
                    Some(t) => cmds.push(TownhallCommand::CalldownMule(t)),
                    None => {
                        match find_townhall_with_minerals(&ctx.minerals_per_townhall) {
                            Some(j) => {
                                match richest_mineral(&ctx.minerals_per_townhall[j]) {
                                    Some(t) => cmds.push(TownhallCommand::CalldownMule(t)),
                                    None => {},
                                }
                            },
                            None => {},
                        }
                    },
                }
            }
        }
    }
    proof {
        if let Some(j) = townhall_with_minerals(*ctx) {
            crate::seq_util::lemma_first_index_spec(
                ctx.minerals_per_townhall@,
                has_minerals(),
            );
        }
    }
    cmds
}

fn idle_step(b: &TownhallObservation, ctx: &TownhallContext) -> (r: Vec<TownhallCommand>)
    ensures
        r@ == idle_commands(*b, *ctx),
{
    let mut cmds: Vec<TownhallCommand> = Vec::new();
    if b.idle {
        if b.kind == COMMAND_CENTER && ctx.can_afford_planetary && ctx.has_ready_engineering_bay && (
        ctx.orbitals > 1 || (ctx.enemy_flooding && ctx.orbitals > 0)) {
            cmds.push(TownhallCommand::MorphPlanetary);
        } else if b.kind == COMMAND_CENTER && ctx.can_afford_orbital && ctx.has_ready_barracks {
            cmds.push(TownhallCommand::MorphOrbital);
        } else if (ctx.workers as u128) < (ctx.townhalls as u128) * 22 && (ctx.workers as u128)
            + (ctx.pending_workers as u128) < 70 {
            cmds.push(TownhallCommand::TrainWorker);
        }
    }
    cmds
}

/// The orders for one finished town hall, and when the next scan may come.
pub fn townhall_step(b: &TownhallObservation, ctx: &TownhallContext, sweep: u64) -> (r: (Vec<TownhallCommand>, u64))
    requires
        well_formed_townhall(*b),
    ensures
        r.0@ == townhall_commands(*b, *ctx, sweep),
        r.1 == sweep_after(*b, *ctx, sweep),
{
    if b.flying {
        let (mut cmds, threat) = flee_from_anti_air(&b.nearby_enemies);
        if threat {
            cmds.push(TownhallCommand::Stop);
        } else if !b.has_orders && ctx.has_expansion {
            cmds.push(TownhallCommand::Land);
        }
        return (cmds, sweep);
    }
    if b.idle && b.nearby_enemies.len() > 0 && b.low_health && b.kind != PLANETARY_FORTRESS {
        let mut cmds: Vec<TownhallCommand> = Vec::new();
        cmds.push(TownhallCommand::Lift);
        return (cmds, sweep);
    }
    let scans = scan_step(b, ctx, sweep);
    let mut new_sweep = sweep;
    if scans.len() > 0 {
        if b.kind == ORBITAL_COMMAND && (ctx.now as u64) > sweep {
            match find_cloaked(&b.enemy_types_by_distance) {
                Some(_) => {
                    new_sweep = ctx.now as u64 + SCAN_COOLDOWN;
                },
                None => {},
            }
        }
        return (scans, new_sweep);
    }
    let mules = mule_step(b, ctx);
    if mules.len() > 0 {
        return (mules, sweep);
    }
    (idle_step(b, ctx), sweep)
}

/// The sweep time before the town hall at place `k` acts.
pub open spec fn sweep_before(bases: Seq<TownhallObservation>, ctx: TownhallContext, sweep: u64, k: int) -> u64
    decreases k,
{
    if k <= 0 {
        sweep
    } else {
        sweep_after(bases[k - 1], ctx, sweep_before(bases, ctx, sweep, k - 1))
    }
}

/// Orders for every finished town hall, in order; scans by one town hall hold
/// off scans by the next.
pub fn townhall_control(bases: &Vec<TownhallObservation>, ctx: &TownhallContext, sweep: &mut u64) -> (r: Vec<Vec<TownhallCommand>>)
    requires
        forall|i: int| 0 <= i < bases@.len() ==> well_formed_townhall(#[trigger] bases@[i]),
    ensures
        r@.len() == bases@.len(),
        forall|i: int| 0 <= i < bases@.len() ==> (#[trigger] r@[i])@ == townhall_commands(
            bases@[i],
            *ctx,
            sweep_before(bases@, *ctx, *old(sweep), i),
        ),
        *final(sweep) == sweep_before(bases@, *ctx, *old(sweep), bases@.len() as int),
{
    let ghost s0 = *sweep;
    let mut out: Vec<Vec<TownhallCommand>> = Vec::new();
    let mut i: usize = 0;
    while i < bases.len()
        invariant
            i <= bases.len(),
            forall|j: int| 0 <= j < bases@.len() ==> well_formed_townhall(#[trigger] bases@[j]),
            out@.len() == i,
            forall|j: int| 0 <= j < i ==> (#[trigger] out@[j])@ == townhall_commands(
                bases@[j],
                *ctx,
                sweep_before(bases@, *ctx, s0, j),
            ),
            *sweep == sweep_before(bases@, *ctx, s0, i as int),
        decreases bases.len() - i,
    {
        let (cmds, next) = townhall_step(&bases[i], ctx, *sweep);
        out.push(cmds);
        *sweep = next;
        i += 1;
    }
    out
}

/// A planetary fortress never lifts off, and a flying town hall is never
/// told to lift, morph or train.
pub proof fn fortress_stays_grounded(b: TownhallObservation, ctx: TownhallContext, sweep: u64)
    requires
        b.kind == PLANETARY_FORTRESS || b.flying,
    ensures
        !townhall_commands(b, ctx, sweep).contains(TownhallCommand::Lift),
{
    let cmds = townhall_commands(b, ctx, sweep);
    if b.flying {
        lemma_flee_only(b.nearby_enemies@);
        assert(!cmds.contains(TownhallCommand::Lift)) by {
            if cmds.contains(TownhallCommand::Lift) {
                let k = choose|k: int| 0 <= k < cmds.len() && cmds[k] == TownhallCommand::Lift;
                let f = flee_commands(b.nearby_enemies@);
                if k < f.len() {
                    assert(f[k] == cmds[k]);
                }
            }
        }
    } else {
        assert(!lifts(b));
        assert(!cmds.contains(TownhallCommand::Lift)) by {
            if cmds.contains(TownhallCommand::Lift) {
                let k = choose|k: int| 0 <= k < cmds.len() && cmds[k] == TownhallCommand::Lift;
                assert(cmds[k] == TownhallCommand::Lift);
            }
        }
    }
}

proof fn lemma_flee_only(e: Seq<NearbyEnemy>)
    ensures
        forall|k: int| 0 <= k < flee_commands(e).len() ==> (#[trigger] flee_commands(e)[k]) is FleeFrom,
    decreases e.len(),
{
    if e.len() > 0 {
        lemma_flee_only(e.drop_last());
    }
}

/// The scan timer only ever moves forward.
pub proof fn scan_timer_is_monotone(b: TownhallObservation, ctx: TownhallContext, sweep: u64)
    ensures
        sweep <= sweep_after(b, ctx, sweep),
{
}

/// A town hall, as the list of mining bases sees it.
#[derive(Clone, Copy, Debug)]
pub struct BaseCandidate {
    pub tag: u64,
    pub is_ready: bool,
    pub is_flying: bool,
    /// Some mineral field lies within ten of it.
    pub minerals_near: bool,
}

pub open spec fn mining_bases(bs: Seq<BaseCandidate>) -> Seq<u64>
    decreases bs.len(),
{
    if bs.len() == 0 {
        seq![]
    } else {
        let b = bs.last();
        mining_bases(bs.drop_last()) + if b.is_ready && !b.is_flying && b.minerals_near {
            seq![b.tag]
        } else {
            seq![]
        }
    }
}

/// The mining bases: finished, landed town halls with minerals next to them.
pub fn bases_init(bs: &Vec<BaseCandidate>) -> (r: Vec<u64>)
    ensures
        r@ == mining_bases(bs@),
{
    let mut out: Vec<u64> = Vec::new();
    let mut i: usize = 0;
    while i < bs.len()
        invariant
            i <= bs.len(),
            out@ == mining_bases(bs@.take(i as int)),
        decreases bs.len() - i,
    {
        proof {
            assert(bs@.take(i + 1).drop_last() =~= bs@.take(i as int));
        }
        let b = bs[i];
        if b.is_ready && !b.is_flying && b.minerals_near {
            out.push(b.tag);
        }
        assert(out@ =~= mining_bases(bs@.take(i + 1)));
        i += 1;
    }
    assert(bs@.take(bs.len() as int) =~= bs@);
    out
}

} // verus!
