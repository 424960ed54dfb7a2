//! When the bot may start a production or tech structure, and what its
//! finished production structures do.
use vstd::prelude::*;

verus! {

/// How many structures of one kind the bot has, and what they are doing.
#[derive(Clone, Copy, Debug)]
pub struct StructureCounts {
    /// Finished structures of the kind, on the ground.
    pub ready: usize,
    /// Finished structures of the kind, in the air.
    pub flying_ready: usize,
    /// Some structure of the kind is in the air.
    pub any_flying: bool,
    /// Some landed structure of the kind has nothing to do.
    pub any_idle: bool,
    /// Structures of the kind ordered but not yet started.
    pub pending: usize,
    /// A worker is on its way to start one.
    pub under_construction: bool,
    /// The bot has the minerals and gas for one.
    pub can_afford: bool,
}

/// The common gate: nothing of the kind on the way, and it is affordable.
pub open spec fn basic_gate(s: StructureCounts) -> bool {
    s.pending == 0 && !s.under_construction && s.can_afford
}

/// At most four of a kind, none flying and none idle.
pub open spec fn production_gate(s: StructureCounts) -> bool {
    s.ready + s.flying_ready + s.pending < 4 && !s.any_flying && !s.any_idle
}

pub open spec fn barracks_rule(b: StructureCounts, depots: usize, has_factory: bool, minerals: u32) -> bool {
    &&& basic_gate(b)
    &&& depots > 0
    &&& production_gate(b)
    &&& (b.ready > 0 ==> has_factory && minerals >= 300)
}

/// Whether another barracks may be started. `depots` counts finished supply
/// depots, raised or lowered; `has_factory` tells whether any factory exists.
pub fn should_try_build_barracks(b: &StructureCounts, depots: usize, has_factory: bool, minerals: u32) -> (r: bool)
    ensures
        r == barracks_rule(*b, depots, has_factory, minerals),
{
    if b.pending > 0 || b.under_construction || !b.can_afford {
        return false;
    }
    if depots == 0 {
        return false;
    }
    let total = b.ready as u128 + b.flying_ready as u128 + b.pending as u128;
    if total >= 4 {
        return false;
    }
    if b.any_flying || b.any_idle {
        return false;
    }
    if b.ready > 0 && (!has_factory || minerals < 300) {
        return false;
    }
    true
}

pub open spec fn factory_rule(f: StructureCounts, barracks: usize, starports: usize, minerals: u32) -> bool {
    &&& f.pending == 0
    &&& f.can_afford
    &&& barracks > 0
    &&& production_gate(f)
    &&& (f.ready > 0 && starports == 0 ==> minerals >= 300)
}

/// Whether another factory may be started. `barracks` and `starports` count
/// finished ones, landed or flying. A second factory waits for a starport
/// unless minerals pile up.
pub fn should_try_build_factory(f: &StructureCounts, barracks: usize, starports: usize, minerals: u32) -> (r: bool)
    ensures
        r == factory_rule(*f, barracks, starports, minerals),
{
    if f.pending > 0 || !f.can_afford {
        return false;
    }
    if barracks == 0 {
        return false;
    }
    let total = f.ready as u128 + f.flying_ready as u128 + f.pending as u128;
    if total >= 4 {
        return false;
    }
    if f.any_flying || f.any_idle {
        return false;
    }
    if f.ready > 0 {
        let has_starport = starports > 0;
        if !has_starport && minerals < 300 {
            return false;
        }
    }
    true
}

pub open spec fn starport_rule(s: StructureCounts, factories: usize) -> bool {
    &&& s.pending == 0
    &&& s.can_afford
    &&& factories > 0
    &&& production_gate(s)
}

/// Whether another starport may be started. `factories` counts finished
/// factories, landed or flying.
pub fn should_try_build_starport(s: &StructureCounts, factories: usize) -> (r: bool)
    ensures
        r == starport_rule(*s, factories),
{
    if s.pending > 0 || !s.can_afford {
        return false;
    }
    if factories == 0 {
        return false;
    }
    let total = s.ready as u128 + s.flying_ready as u128 + s.pending as u128;
    if total >= 4 {
        return false;
    }
    if s.any_flying || s.any_idle {
        return false;
    }
    true
}

/// Saving for an expansion: with an expansion planned first, a structure is
/// put off when its cost exceeds what is left above a 400 mineral reserve
/// (nothing is left below it).
pub open spec fn saving_for_expansion(expand_priority: bool, cost: u32, minerals: u32) -> bool {
    expand_priority && cost > (if minerals >= 400 { minerals - 400 } else { 0 })
}

fn saves_for_expansion(expand_priority: bool, cost: u32, minerals: u32) -> (r: bool)
    ensures
        r == saving_for_expansion(expand_priority, cost, minerals),
{
    expand_priority && cost > minerals.saturating_sub(400)
}

/// What the tech structure rules read beyond the structure's own counts.
#[derive(Clone, Copy, Debug)]
pub struct TechObservation {
    pub expand_priority: bool,
    pub minerals: u32,
    /// Minerals one structure of the kind costs.
    pub cost_minerals: u32,
    pub supply_army: u32,
    pub has_ready_factory: bool,
    pub has_ready_engineering_bay: bool,
    pub has_ready_townhall: bool,
    pub has_ready_barracks: bool,
    /// Finished town halls.
    pub ready_townhalls: usize,
    /// Marines and marauders.
    pub infantry: usize,
    pub enemy_cloaking: bool,
    pub enemy_flooding: bool,
    pub enemy_flying_units: bool,
}

pub open spec fn armory_rule(a: StructureCounts, t: TechObservation) -> bool {
    &&& t.has_ready_factory
    &&& !a.under_construction
    &&& a.pending == 0
    &&& a.ready == 0
    &&& !saving_for_expansion(t.expand_priority, t.cost_minerals, t.minerals)
    &&& a.can_afford
    &&& t.supply_army >= 10
    &&& t.has_ready_engineering_bay
}

/// Whether the (single) armory may be started.
pub fn should_try_build_armory(a: &StructureCounts, t: &TechObservation) -> (r: bool)
    ensures
        r == armory_rule(*a, *t),
{
    if !t.has_ready_factory {
        return false;
    }
    if a.under_construction || a.pending > 0 || a.ready > 0 {
        return false;
    }
    if saves_for_expansion(t.expand_priority, t.cost_minerals, t.minerals) {
        return false;
    }
    if !a.can_afford {
        return false;
    }
    if t.supply_army < 10 {
        return false;
    }
    t.has_ready_engineering_bay
}

pub open spec fn engineering_bay_rule(e: StructureCounts, t: TechObservation) -> bool {
    &&& t.has_ready_townhall
    &&& !e.under_construction
    &&& e.pending == 0
    &&& e.ready == 0
    &&& !saving_for_expansion(t.expand_priority, t.cost_minerals, t.minerals)
    &&& e.can_afford
    &&& (t.infantry >= 8 || t.enemy_cloaking)
}

/// Whether the (single) engineering bay may be started: once eight marines
/// and marauders stand, or as soon as the enemy can cloak.
pub fn should_try_build_engineering_bay(e: &StructureCounts, t: &TechObservation) -> (r: bool)
    ensures
        r == engineering_bay_rule(*e, *t),
{
    if !t.has_ready_townhall {
        return false;
    }
    if e.under_construction || e.pending > 0 || e.ready > 0 {
        return false;
    }
    if saves_for_expansion(t.expand_priority, t.cost_minerals, t.minerals) {
        return false;
    }
    if !e.can_afford {
        return false;
    }
    !(t.infantry < 8 && !t.enemy_cloaking)
}

pub open spec fn bunker_rule(b: StructureCounts, t: TechObservation) -> bool {
    &&& b.pending == 0
    &&& !b.under_construction
    &&& !saving_for_expansion(t.expand_priority, t.cost_minerals, t.minerals)
    &&& b.can_afford
    &&& t.has_ready_barracks
    &&& b.ready == 0
    &&& t.ready_townhalls <= 1
    &&& !t.enemy_flooding
}

/// Whether the one-base bunker may be started.
pub fn should_try_build_bunker(b: &StructureCounts, t: &TechObservation) -> (r: bool)
    ensures
        r == bunker_rule(*b, *t),
{
    let already_pending = b.pending > 0;
    let savings = saves_for_expansion(t.expand_priority, t.cost_minerals, t.minerals);
    let no_barracks = !t.has_ready_barracks;
    let already_have_bunker = b.ready as u128 + b.pending as u128 > 0;
    let not_needed_for_one_base = t.ready_townhalls > 1 || t.enemy_flooding;
    !(already_pending || b.under_construction || savings || !b.can_afford || no_barracks
        || already_have_bunker || not_needed_for_one_base)
}

pub open spec fn missile_turret_rule(m: StructureCounts, t: TechObservation) -> bool {
    &&& t.has_ready_engineering_bay
    &&& m.can_afford
    &&& !m.under_construction
    &&& (t.enemy_cloaking || t.enemy_flying_units || t.minerals >= 450)
}

/// Whether missile turrets may be placed at bases that lack one.
pub fn should_try_build_missile_turrets(m: &StructureCounts, t: &TechObservation) -> (r: bool)
    ensures
        r == missile_turret_rule(*m, *t),
{
    if !t.has_ready_engineering_bay || !m.can_afford || m.under_construction {
        return false;
    }
    !(!t.enemy_cloaking && !t.enemy_flying_units && t.minerals < 450)
}

/// What the expansion rule reads of the game.
pub struct ExpansionObservation {
    pub pending_command_centers: usize,
    pub command_center_under_construction: bool,
    pub minerals: u32,
    /// Workers each town hall can use, when the game reports it.
    pub ideal_harvesters: Vec<Option<u32>>,
    pub supply_workers: u32,
    /// The next expansion, and whether enemies that hit ground units stand near it.
    pub expansion_threatened: Option<bool>,
}

/// Workers that all town halls together can use.
pub open spec fn ideal_workers(h: Seq<Option<u32>>) -> int
    decreases h.len(),
{
    if h.len() == 0 {
        0
    } else {
        ideal_workers(h.drop_last()) + match h.last() {
            Some(n) => n as int,
            None => 0,
        }
    }
}

pub open spec fn expansion_rule(e: ExpansionObservation) -> bool {
    &&& e.pending_command_centers == 0
    &&& !e.command_center_under_construction
    &&& e.minerals >= 400
    &&& ideal_workers(e.ideal_harvesters@) <= e.supply_workers
    &&& e.expansion_threatened == Some(false)
}

proof fn lemma_ideal_workers_bound(h: Seq<Option<u32>>)
    ensures
        0 <= ideal_workers(h) <= h.len() * 0xffff_ffff,
    decreases h.len(),
{
    if h.len() > 0 {
        lemma_ideal_workers_bound(h.drop_last());
    }
}

/// Whether a command center should be started at the next expansion: one at
/// a time, with 400 minerals, once the bases are saturated and the spot is safe.
pub fn construct_command_centers(e: &ExpansionObservation) -> (r: bool)
    ensures
        r == expansion_rule(*e),
{
    if e.pending_command_centers > 0 || e.command_center_under_construction {
        return false;
    }
    if e.minerals < 400 {
        return false;
    }
    let mut ideal: u128 = 0;
    let mut i: usize = 0;
    while i < e.ideal_harvesters.len()
        invariant
            i <= e.ideal_harvesters.len(),
            e.ideal_harvesters.len() <= usize::MAX,
            ideal == ideal_workers(e.ideal_harvesters@.subrange(0, i as int)),
            ideal <= i * 0xffff_ffffu128,
        decreases e.ideal_harvesters.len() - i,
    {
        proof {
            assert(e.ideal_harvesters@.subrange(0, i + 1).drop_last() =~= e.ideal_harvesters@.subrange(
                0,
                i as int,
            ));
        }
        match e.ideal_harvesters[i] {
            Some(n) => {
                ideal = ideal + n as u128;
            },
            None => {},
        }
        i += 1;
    }
    proof {
        assert(e.ideal_harvesters@.subrange(0, i as int) =~= e.ideal_harvesters@);
    }
    if ideal > e.supply_workers as u128 {
        return false;
    }
    match e.expansion_threatened {
        Some(threatened) => !threatened,
        None => false,
    }
}

/// Where a production or tech structure is placed.
#[derive(Clone, Copy, Debug, PartialEq, Eq, Structural)]
pub enum BuildSite {
    /// The barracks spot in the middle of our ramp.
    RampMiddle,
    /// The first free spot of the building grid.
    Grid,
    /// In front of a base, towards the enemy.
    NearBase(u64),
}

/// Which of the candidate spots the game accepts for the structure.
pub struct SiteOptions {
    /// The ramp's barracks spot exists and fits.
    pub ramp_fits: bool,
    /// The grid has a spot and the structure fits there.
    pub grid_fits: bool,
    /// Each base, with whether the spot in front of it fits.
    pub base_spots: Vec<(u64, bool)>,
}

pub open spec fn fits() -> spec_fn((u64, bool)) -> bool {
    |s: (u64, bool)| s.1
}

/// The site chosen: the ramp first, then the grid, then the first base
/// whose spot fits.
pub open spec fn site_choice(o: SiteOptions) -> Option<BuildSite> {
    if o.ramp_fits {
        Some(BuildSite::RampMiddle)
    } else if o.grid_fits {
        Some(BuildSite::Grid)
    } else {
        match crate::seq_util::first_index(o.base_spots@, fits()) {
            Some(k) => Some(BuildSite::NearBase(o.base_spots@[k].0)),
            None => None,
        }
    }
}

/// Chooses where a structure goes.
pub fn choose_site(o: &SiteOptions) -> (r: Option<BuildSite>)
    ensures
        r == site_choice(*o),
{
    if o.ramp_fits {
        return Some(BuildSite::RampMiddle);
    }
    if o.grid_fits {
        return Some(BuildSite::Grid);
    }
    let mut i: usize = 0;
    while i < o.base_spots.len()
        invariant
            i <= o.base_spots.len(),
            !o.ramp_fits && !o.grid_fits,
            forall|j: int| 0 <= j < i ==> !(#[trigger] o.base_spots@[j]).1,
        decreases o.base_spots.len() - i,
    {
        if o.base_spots[i].1 {
            proof {
                crate::seq_util::lemma_first_index_found(o.base_spots@, fits(), i as int);
            }
            return Some(BuildSite::NearBase(o.base_spots[i].0));
        }
        i += 1;
    }
    proof {
        crate::seq_util::lemma_first_index_none(o.base_spots@, fits());
    }
    None
}

/// Where a barracks is started, if one may be.
pub fn construct_barracks(b: &StructureCounts, depots: usize, has_factory: bool, minerals: u32, o: &SiteOptions) -> (r: Option<BuildSite>)
    ensures
        r == if barracks_rule(*b, depots, has_factory, minerals) {
            site_choice(*o)
        } else {
            None
        },
{
    if !should_try_build_barracks(b, depots, has_factory, minerals) {
        return None;
    }
    choose_site(o)
}

/// Where a factory is started, if one may be.
pub fn construct_factory(f: &StructureCounts, barracks: usize, starports: usize, minerals: u32, o: &SiteOptions) -> (r: Option<BuildSite>)
    ensures
        r == if factory_rule(*f, barracks, starports, minerals) {
            site_choice(*o)
        } else {
            None
        },
{
    if !should_try_build_factory(f, barracks, starports, minerals) {
        return None;
    }
    choose_site(o)
}

/// Where a starport is started, if one may be.
pub fn construct_starport(s: &StructureCounts, factories: usize, o: &SiteOptions) -> (r: Option<BuildSite>)
    ensures
        r == if starport_rule(*s, factories) {
            site_choice(*o)
        } else {
            None
        },
{
    if !should_try_build_starport(s, factories) {
        return None;
    }
    choose_site(o)
}

/// Where the armory is started, if it may be.
pub fn construct_armory(a: &StructureCounts, t: &TechObservation, o: &SiteOptions) -> (r: Option<BuildSite>)
    ensures
        r == if armory_rule(*a, *t) {
            site_choice(*o)
        } else {
            None
        },
{
    if !should_try_build_armory(a, t) {
        return None;
    }
    choose_site(o)
}

/// Where the engineering bay is started, if it may be.
pub fn construct_engineering_bay(e: &StructureCounts, t: &TechObservation, o: &SiteOptions) -> (r: Option<BuildSite>)
    ensures
        r == if engineering_bay_rule(*e, *t) {
            site_choice(*o)
        } else {
            None
        },
{
    if !should_try_build_engineering_bay(e, t) {
        return None;
    }
    choose_site(o)
}

/// Where the bunker is started, if it may be.
pub fn construct_bunker(b: &StructureCounts, t: &TechObservation, bases: &Vec<crate::defenses::BaseAt>) -> (r: Option<crate::defenses::BunkerSite>)
    ensures
        !bunker_rule(*b, *t) ==> r is None,
        bunker_rule(*b, *t) && bases.len() == 1 ==> r == if bases[0].at_start {
            Some(crate::defenses::BunkerSite::AtRamp(bases[0].tag))
        } else {
            None
        },
        bunker_rule(*b, *t) && bases.len() == 2 ==> exists|k: int|
            crate::defenses::is_newest(bases@, k) && r == Some(crate::defenses::BunkerSite::TowardCenter(bases@[k].tag)),
        bunker_rule(*b, *t) && bases.len() != 1 && bases.len() != 2 ==> r is None,
{
    if !should_try_build_bunker(b, t) {
        return None;
    }
    crate::defenses::find_bunker_placement(bases)
}

/// At most four production structures of a kind: a new one is started only
/// while the finished, flying and ordered ones number fewer than four, and
/// never while one of them is idle or in the air.
pub proof fn production_is_capped(b: StructureCounts, depots: usize, has_factory: bool, minerals: u32, barracks: usize, starports: usize, factories: usize)
    ensures
        barracks_rule(b, depots, has_factory, minerals) ==> b.ready + b.flying_ready + b.pending < 4 && !b.any_idle
            && !b.any_flying,
        factory_rule(b, barracks, starports, minerals) ==> b.ready + b.flying_ready + b.pending < 4 && !b.any_idle
            && !b.any_flying,
        starport_rule(b, factories) ==> b.ready + b.flying_ready + b.pending < 4 && !b.any_idle && !b.any_flying,
{
}

/// The armory, the engineering bay and the bunker are single: none is
/// started while one stands or is ordered, and none while saving for an
/// expansion holds its cost back.
pub proof fn single_tech_structures(s: StructureCounts, t: TechObservation)
    ensures
        armory_rule(s, t) ==> s.ready == 0 && s.pending == 0,
        engineering_bay_rule(s, t) ==> s.ready == 0 && s.pending == 0,
        bunker_rule(s, t) ==> s.ready == 0 && s.pending == 0,
        saving_for_expansion(t.expand_priority, t.cost_minerals, t.minerals) ==> !armory_rule(s, t)
            && !engineering_bay_rule(s, t) && !bunker_rule(s, t),
{
}

} // verus!
