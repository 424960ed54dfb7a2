//! Reading the enemy's plan from what is seen: worker rushes, ramp blocks,
//! floods, cloaked and flying units.
use vstd::prelude::*;
use crate::unit_types::{is_cloak_structure, is_cloaking_unit, is_flying_unit, is_worker};

verus! {

/// Game loops in three minutes: rushes and ramp blocks are only looked for before this.
pub const EARLY_GAME_LOOPS: u32 = 4032;

/// Game loops in five minutes: floods are only looked for before this.
pub const FLOOD_WINDOW_LOOPS: u32 = 6720;

/// Game loops in five seconds: a worker rush not seen for longer has ended.
pub const WORKER_RUSH_MEMORY_LOOPS: u32 = 112;

/// Game loops in three seconds (rounded down): a ramp block not seen for longer is forgotten.
pub const RAMP_BLOCK_MEMORY_LOOPS: u32 = 67;

/// What the bot believes of the enemy's plan.
#[derive(Clone, Copy, Debug)]
pub struct EnemyReadings {
    pub enemy_cloaking: bool,
    pub enemy_flooding: bool,
    pub enemy_worker_rush: bool,
    /// Game loop of the last step that saw the worker rush.
    pub enemy_worker_rush_time: u32,
    pub enemy_ramp_blocking: bool,
    /// Steps in a row (with gaps under three seconds) in which the ramp was blocked.
    pub enemy_ramp_blocking_steps: u64,
    /// Game loop of the last step that saw the ramp blocked.
    pub enemy_ramp_blocking_time: u32,
    pub enemy_flying_units: bool,
}

impl EnemyReadings {
    /// Nothing read yet.
    pub fn new() -> (r: EnemyReadings)
        ensures
            !r.enemy_cloaking,
            !r.enemy_flooding,
            !r.enemy_worker_rush,
            r.enemy_worker_rush_time == 0,
            !r.enemy_ramp_blocking,
            r.enemy_ramp_blocking_steps == 0,
            r.enemy_ramp_blocking_time == 0,
            !r.enemy_flying_units,
    {
        EnemyReadings {
            enemy_cloaking: false,
            enemy_flooding: false,
            enemy_worker_rush: false,
            enemy_worker_rush_time: 0,
            enemy_ramp_blocking: false,
            enemy_ramp_blocking_steps: 0,
            enemy_ramp_blocking_time: 0,
            enemy_flying_units: false,
        }
    }
}

/// A visible enemy unit, as far as the readings care.
#[derive(Clone, Copy, Debug)]
pub struct SeenEnemy {
    pub type_id: u32,
    pub can_attack: bool,
    /// Nearer to our start than to the enemy's start plus ten.
    pub near_our_side: bool,
}

/// What the readings see in a step.
#[derive(Clone, Debug)]
pub struct ReadingsObservation {
    /// The current game loop.
    pub now: u32,
    /// For each enemy worker: nearer to our start than to the enemy's.
    pub workers_toward_us: Vec<bool>,
    /// An enemy worker stands within 10 of our ramp.
    pub workers_at_ramp: bool,
    /// For each corner depot spot of our ramp (when the ramp has them):
    /// an enemy worker stands within 1 of it.
    pub corner_spots_blocked: Option<Vec<bool>>,
    /// Visible enemy units.
    pub enemies: Vec<SeenEnemy>,
    /// Types of the remembered enemy army.
    pub remembered_types: Vec<u32>,
    /// Types of visible enemy structures.
    pub structure_types: Vec<u32>,
}

/// How many entries of a list are set.
pub open spec fn count_true(s: Seq<bool>) -> int
    decreases s.len(),
{
    if s.len() == 0 {
        0
    } else {
        count_true(s.drop_last()) + if s.last() {
            1int
        } else {
            0
        }
    }
}

proof fn lemma_count_true_bound(s: Seq<bool>)
    ensures
        0 <= count_true(s) <= s.len(),
    decreases s.len(),
{
    if s.len() > 0 {
        lemma_count_true_bound(s.drop_last());
    }
}

/// Counts the set entries of a list.
pub fn count_set(s: &Vec<bool>) -> (r: usize)
    ensures
        r == count_true(s@),
{
    let mut n: usize = 0;
    let mut i: usize = 0;
    while i < s.len()
        invariant
            i <= s.len(),
            n == count_true(s@.take(i as int)),
        decreases s.len() - i,
    {
        proof {
            assert(s@.take(i + 1).drop_last() =~= s@.take(i as int));
            lemma_count_true_bound(s@.take(i as int));
        }
        if s[i] {
            n += 1;
        }
        i += 1;
    }
    assert(s@.take(s.len() as int) =~= s@);
    n
}

/// Enemy fighters (not workers) on our side of the map.
pub open spec fn offensive_units(e: Seq<SeenEnemy>) -> int
    decreases e.len(),
{
    if e.len() == 0 {
        0
    } else {
        offensive_units(e.drop_last()) + if e.last().can_attack && !is_worker(e.last().type_id)
            && e.last().near_our_side {
            1int
        } else {
            0
        }
    }
}

proof fn lemma_offensive_bound(e: Seq<SeenEnemy>)
    ensures
        0 <= offensive_units(e) <= e.len(),
    decreases e.len(),
{
    if e.len() > 0 {
        lemma_offensive_bound(e.drop_last());
    }
}

fn count_offensive(e: &Vec<SeenEnemy>) -> (r: usize)
    ensures
        r == offensive_units(e@),
{
    let mut n: usize = 0;
    let mut i: usize = 0;
    while i < e.len()
        invariant
            i <= e.len(),
            n == offensive_units(e@.take(i as int)),
        decreases e.len() - i,
    {
        proof {
            assert(e@.take(i + 1).drop_last() =~= e@.take(i as int));
            lemma_offensive_bound(e@.take(i as int));
        }
        let u = e[i];
        if u.can_attack && !is_worker(u.type_id) && u.near_our_side {
            n += 1;
        }
        i += 1;
    }
    assert(e@.take(e.len() as int) =~= e@);
    n
}

pub open spec fn any_true(s: Seq<bool>) -> bool {
    exists|i: int| 0 <= i < s.len() && #[trigger] s[i]
}

fn any_set(s: &Vec<bool>) -> (r: bool)
    ensures
        r == any_true(s@),
{
    let mut i: usize = 0;
    while i < s.len()
        invariant
            i <= s.len(),
            forall|j: int| 0 <= j < i ==> !#[trigger] s@[j],
        decreases s.len() - i,
    {
        if s[i] {
            return true;
        }
        i += 1;
    }
    false
}

pub open spec fn any_type(s: Seq<u32>, p: spec_fn(u32) -> bool) -> bool {
    exists|i: int| 0 <= i < s.len() && p(#[trigger] s[i])
}

/// Four or more enemy workers on our side mark a worker rush, renewed each step they are seen.
pub open spec fn after_worker_rush(r: EnemyReadings, o: ReadingsObservation) -> EnemyReadings {
    if count_true(o.workers_toward_us@) >= 4 {
        EnemyReadings { enemy_worker_rush_time: o.now, enemy_worker_rush: true, ..r }
    } else {
        r
    }
}

/// A worker rush not seen for five seconds has ended.
pub open spec fn after_rush_timeout(r: EnemyReadings, now: u32) -> EnemyReadings {
    if now as int - r.enemy_worker_rush_time as int > WORKER_RUSH_MEMORY_LOOPS as int {
        EnemyReadings { enemy_worker_rush: false, ..r }
    } else {
        r
    }
}

/// Workers standing on our ramp's corner spots for more than eight steps
/// (with gaps under three seconds) block the ramp; the block ends once no
/// worker stands near the ramp.
pub open spec fn after_ramp_blocking(r: EnemyReadings, o: ReadingsObservation) -> EnemyReadings {
    let r1 = if r.enemy_ramp_blocking && !o.workers_at_ramp {
        EnemyReadings { enemy_ramp_blocking: false, enemy_ramp_blocking_steps: 0, ..r }
    } else {
        r
    };
    let blocking = o.corner_spots_blocked matches Some(v) && any_true(v@);
    let r2 = if blocking {
        EnemyReadings {
            enemy_ramp_blocking_steps: (r1.enemy_ramp_blocking_steps + 1) as u64,
            enemy_ramp_blocking_time: o.now,
            ..r1
        }
    } else {
        r1
    };
    let r3 = if o.now as int - r2.enemy_ramp_blocking_time as int > RAMP_BLOCK_MEMORY_LOOPS as int {
        EnemyReadings { enemy_ramp_blocking_steps: 0, ..r2 }
    } else {
        r2
    };
    if r3.enemy_ramp_blocking_steps > 8 && !r3.enemy_ramp_blocking {
        EnemyReadings { enemy_ramp_blocking: true, ..r3 }
    } else {
        r3
    }
}

/// Five or more enemy fighters on our side within five minutes mark a flood;
/// after five minutes there is no flood.
pub open spec fn after_flooding(r: EnemyReadings, o: ReadingsObservation) -> EnemyReadings {
    if o.now > FLOOD_WINDOW_LOOPS {
        EnemyReadings { enemy_flooding: false, ..r }
    } else if offensive_units(o.enemies@) >= 5 && !r.enemy_flooding {
        EnemyReadings { enemy_flooding: true, ..r }
    } else {
        r
    }
}

/// A remembered cloaking unit, or a visible structure that unlocks cloak,
/// marks the enemy as able to cloak, for good.
pub open spec fn after_cloaking(r: EnemyReadings, o: ReadingsObservation) -> EnemyReadings {
    if r.enemy_cloaking {
        r
    } else if any_type(o.remembered_types@, |t: u32| is_cloaking_unit(t)) || any_type(
        o.structure_types@,
        |t: u32| is_cloak_structure(t),
    ) {
        EnemyReadings { enemy_cloaking: true, ..r }
    } else {
        r
    }
}

/// A remembered flying unit marks the enemy as flying, for good.
pub open spec fn after_flying(r: EnemyReadings, o: ReadingsObservation) -> EnemyReadings {
    if r.enemy_flying_units {
        r
    } else if any_type(o.remembered_types@, |t: u32| is_flying_unit(t)) {
        EnemyReadings { enemy_flying_units: true, ..r }
    } else {
        r
    }
}

/// All readings of one step.
pub open spec fn read_enemy_strategy_spec(r: EnemyReadings, o: ReadingsObservation) -> EnemyReadings {
    let early = if o.now < EARLY_GAME_LOOPS {
        after_ramp_blocking(after_rush_timeout(after_worker_rush(r, o), o.now), o)
    } else {
        r
    };
    after_flying(after_cloaking(after_flooding(early, o), o), o)
}

fn any_of_type(s: &Vec<u32>, which: u8) -> (r: bool)
    requires
        which < 3,
    ensures
        which == 0 ==> r == any_type(s@, |t: u32| is_cloaking_unit(t)),
        which == 1 ==> r == any_type(s@, |t: u32| is_cloak_structure(t)),
        which == 2 ==> r == any_type(s@, |t: u32| is_flying_unit(t)),
{
    let ghost p = if which == 0 {
        |t: u32| is_cloaking_unit(t)
    } else if which == 1 {
        |t: u32| is_cloak_structure(t)
    } else {
        |t: u32| is_flying_unit(t)
    };
    let mut i: usize = 0;
    while i < s.len()
        invariant
            i <= s.len(),
            which < 3,
            p == (if which == 0 {
                |t: u32| is_cloaking_unit(t)
            } else if which == 1 {
                |t: u32| is_cloak_structure(t)
            } else {
                |t: u32| is_flying_unit(t)
            }),
            forall|j: int| 0 <= j < i ==> !p(#[trigger] s@[j]),
        decreases s.len() - i,
    {
        let t = s[i];
        let hit = if which == 0 {
            is_cloaking_unit(t)
        } else if which == 1 {
            is_cloak_structure(t)
        } else {
            is_flying_unit(t)
        };
        if hit {
            assert(p(s@[i as int]));
            return true;
        }
        i += 1;
    }
    false
}

/// Updates the readings from what is seen in this step.
pub fn read_enemy_strategy(r: &mut EnemyReadings, o: &ReadingsObservation)
    requires
        old(r).enemy_ramp_blocking_steps < u64::MAX,
    ensures
        *final(r) == read_enemy_strategy_spec(*old(r), *o),
{
    let now = o.now;
    if now < EARLY_GAME_LOOPS {
        // Worker rush
        if count_set(&o.workers_toward_us) >= 4 {
            r.enemy_worker_rush_time = now;
            r.enemy_worker_rush = true;
        }
        if now > r.enemy_worker_rush_time && now - r.enemy_worker_rush_time > WORKER_RUSH_MEMORY_LOOPS {
            r.enemy_worker_rush = false;
        }
        // Ramp blocking
        if r.enemy_ramp_blocking && !o.workers_at_ramp {
            r.enemy_ramp_blocking = false;
            r.enemy_ramp_blocking_steps = 0;
        }
        let blocking = match &o.corner_spots_blocked {
            Some(v) => any_set(v),
            None => false,
        };
        if blocking {
            r.enemy_ramp_blocking_steps = r.enemy_ramp_blocking_steps + 1;
            r.enemy_ramp_blocking_time = now;
        }
        if now > r.enemy_ramp_blocking_time && now - r.enemy_ramp_blocking_time > RAMP_BLOCK_MEMORY_LOOPS {
            r.enemy_ramp_blocking_steps = 0;
        }
        if r.enemy_ramp_blocking_steps > 8 && !r.enemy_ramp_blocking {
            r.enemy_ramp_blocking = true;
        }
    }
    // Flooding
    if now > FLOOD_WINDOW_LOOPS {
        r.enemy_flooding = false;
    } else if count_offensive(&o.enemies) >= 5 && !r.enemy_flooding {
        r.enemy_flooding = true;
    }
    // Cloaking
    if !r.enemy_cloaking {
        if any_of_type(&o.remembered_types, 0) || any_of_type(&o.structure_types, 1) {
            r.enemy_cloaking = true;
        }
    }
    // Flying units
    if !r.enemy_flying_units {
        if any_of_type(&o.remembered_types, 2) {
            r.enemy_flying_units = true;
        }
    }
}

/// Once the enemy is known to cloak or to fly, it stays known; and after five
/// minutes there is no flood.
pub proof fn readings_laws(r: EnemyReadings, o: ReadingsObservation)
    ensures
        r.enemy_cloaking ==> read_enemy_strategy_spec(r, o).enemy_cloaking,
        r.enemy_flying_units ==> read_enemy_strategy_spec(r, o).enemy_flying_units,
        o.now > FLOOD_WINDOW_LOOPS ==> !read_enemy_strategy_spec(r, o).enemy_flooding,
        o.now >= EARLY_GAME_LOOPS ==> read_enemy_strategy_spec(r, o).enemy_worker_rush
            == r.enemy_worker_rush,
{
}

/// A flood, once read, lasts until five minutes have passed.
pub proof fn flood_lasts(r: EnemyReadings, o: ReadingsObservation)
    requires
        r.enemy_flooding,
        o.now <= FLOOD_WINDOW_LOOPS,
    ensures
        read_enemy_strategy_spec(r, o).enemy_flooding,
{
}

} // verus!
