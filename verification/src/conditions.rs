//! When a structure should be built: supply depots, refineries, engineering
//! bays, armories, bunkers, missile turrets and command centers.
use vstd::prelude::*;
use crate::unit_types::{ARMORY, COMMAND_CENTER, ENGINEERING_BAY, MISSILE_TURRET, REFINERY, SUPPLY_DEPOT};

verus! {

/// What the ramp's middle depot spot looks like.
pub struct RampMiddle {
    /// Some structure of ours stands on the spot.
    pub occupied: bool,
    /// A barracks of ours stands next to the spot.
    pub barracks_near: bool,
}

/// A vespene geyser next to one of our bases.
pub struct GeyserSpot {
    /// Gas left in the geyser, when the game reports it.
    pub vespene: Option<u32>,
    /// Some structure of ours already stands on the geyser.
    pub occupied: bool,
}

/// The expansion that the bot would take next.
pub struct ExpansionSpot {
    /// A town hall of ours stands at the spot.
    pub townhall_near: bool,
    /// Enemy units are close to the spot.
    pub enemies_near: bool,
}

/// What the structure rules read of the game.
pub struct MacroObservation {
    pub supply_left: u32,
    pub supply_cap: u32,
    pub supply_used: u32,
    /// Number of town halls, ready or not.
    pub townhalls: usize,
    /// Number of mining bases.
    pub bases: usize,
    /// Number of workers.
    pub workers: usize,
    /// Structures of each kind in production (ordered, not yet placed or finished).
    pub pending_depots: usize,
    pub pending_refineries: usize,
    pub pending_engineering_bays: usize,
    pub pending_armories: usize,
    pub pending_missile_turrets: usize,
    pub pending_command_centers: usize,
    /// A depot has been ordered and its worker is on the way.
    pub depot_under_construction: bool,
    /// The ramp's middle depot spot, on maps where the ramp has one.
    pub ramp_middle: Option<RampMiddle>,
    /// A barracks exists (flying or not, ready or not).
    pub has_barracks: bool,
    /// A factory exists (flying or not, ready or not).
    pub has_factory: bool,
    /// A starport exists (flying or not, ready or not).
    pub has_starport: bool,
    /// A finished engineering bay exists.
    pub has_ready_engineering_bay: bool,
    pub engineering_bays: usize,
    pub armories: usize,
    /// Army counts.
    pub bio_units: usize,
    pub mech_units: usize,
    pub hellions: usize,
    /// Geysers next to our mining bases.
    pub geysers: Vec<GeyserSpot>,
    /// For each mining base, whether a missile turret stands next to it.
    pub base_has_turret: Vec<bool>,
    pub enemy_cloaking: bool,
    pub enemy_fliers: bool,
    /// The next expansion, when there is one.
    pub expansion: Option<ExpansionSpot>,
    /// The army has been called to defend.
    pub defending: bool,
}

/// The supply depot rule: build when supply is about to run out, or to close
/// the ramp once a barracks stands.
pub open spec fn depot_rule(o: MacroObservation) -> bool {
    if o.supply_cap > 199 || o.townhalls == 0 {
        false
    } else {
        ||| (o.supply_left < 6 && o.pending_depots == 0)
        ||| (o.supply_left < 6 && o.pending_depots < 2 && o.supply_used > 30)
        ||| (o.supply_used > 45 && o.supply_left < 3 && o.pending_depots < 3)
        ||| (o.supply_cap > 40 && o.supply_left < 8 && o.pending_depots == 0)
        ||| (o.ramp_middle matches Some(m) && !m.occupied && !m.barracks_near && o.has_barracks
            && o.pending_depots == 0)
    }
}

/// Whether another supply depot is needed now.
pub fn check_depots_needed(o: &MacroObservation) -> (r: bool)
    ensures
        r == (!o.depot_under_construction && depot_rule(*o)),
{
    if o.depot_under_construction {
        return false;
    }
    supply_depot_condition(o)
}

/// The supply depot rule, with no regard to depots under way.
pub fn supply_depot_condition(o: &MacroObservation) -> (r: bool)
    ensures
        r == depot_rule(*o),
{
    let pending = o.pending_depots;
    if o.supply_cap > 199 || o.townhalls == 0 {
        return false;
    }
    if o.supply_left < 6 && pending == 0 {
        return true;
    }
    if o.supply_left < 6 && pending < 2 && o.supply_used > 30 {
        return true;
    }
    if o.supply_used > 45 && o.supply_left < 3 && pending < 3 {
        return true;
    }
    if o.supply_cap > 40 && o.supply_left < 8 && pending == 0 {
        return true;
    }
    match &o.ramp_middle {
        Some(m) => !m.occupied && !m.barracks_near && o.has_barracks && pending == 0,
        None => false,
    }
}

/// A town hall of ours, and the depot spots the game found next to it.
#[derive(Clone, Copy, Debug)]
pub struct BaseDepotSpots {
    pub tag: u64,
    /// The town hall stands on the start location.
    pub at_start: bool,
    /// A spot towards the nearest ramp was found, with fewer than five depots near it.
    pub wall_found: bool,
    /// A spot towards the map center was found.
    pub center_found: bool,
}

/// The spots where the next supply depot may go.
#[derive(Clone, Debug)]
pub struct DepotSpots {
    /// For each corner depot spot of our ramp (on maps where it has them):
    /// no structure stands within two of it.
    pub corners_free: Option<Vec<bool>>,
    /// The ramp's middle depot spot, when there is one: no structure within two.
    pub middle_free: Option<bool>,
    /// Our town halls, in order.
    pub bases: Vec<BaseDepotSpots>,
    /// A spot was found behind the main base's minerals.
    pub behind_main: bool,
}

/// Where the next supply depot goes.
#[derive(Clone, Copy, Debug, PartialEq, Eq, Structural)]
pub enum DepotSite {
    /// The ramp's corner spot at this place.
    Corner(usize),
    RampMiddle,
    /// Towards the nearest ramp from this town hall.
    Wall(u64),
    /// Towards the map center from this town hall.
    TowardCenter(u64),
    BehindMain,
}

/// The first free place of a list.
pub open spec fn first_free(v: Seq<bool>) -> Option<int>
    decreases v.len(),
{
    if v.len() == 0 {
        None
    } else {
        match first_free(v.drop_last()) {
            Some(k) => Some(k),
            None => if v.last() {
                Some(v.len() - 1)
            } else {
                None
            },
        }
    }
}

/// The depot site next to one town hall: none at the start location; the
/// wall before the way to the map center.
pub open spec fn site_at_base(b: BaseDepotSpots) -> Option<DepotSite> {
    if b.at_start {
        None
    } else if b.wall_found {
        Some(DepotSite::Wall(b.tag))
    } else if b.center_found {
        Some(DepotSite::TowardCenter(b.tag))
    } else {
        None
    }
}

/// The depot site of the first town hall that has one.
pub open spec fn first_base_site(bs: Seq<BaseDepotSpots>) -> Option<DepotSite>
    decreases bs.len(),
{
    if bs.len() == 0 {
        None
    } else {
        match first_base_site(bs.drop_last()) {
            Some(s) => Some(s),
            None => site_at_base(bs.last()),
        }
    }
}

/// The depot site: a free corner of the ramp, its free middle, a spot at the
/// first town hall off the start location that has one, then behind the
/// main base.
pub open spec fn depot_site(s: DepotSpots) -> Option<DepotSite> {
    let corner = match s.corners_free {
        Some(v) => first_free(v@),
        None => None,
    };
    if corner is Some {
        Some(DepotSite::Corner(corner->0 as usize))
    } else if s.middle_free == Some(true) {
        Some(DepotSite::RampMiddle)
    } else if first_base_site(s.bases@) is Some {
        first_base_site(s.bases@)
    } else if s.behind_main {
        Some(DepotSite::BehindMain)
    } else {
        None
    }
}

fn first_free_corner(v: &Vec<bool>) -> (r: Option<usize>)
    ensures
        match first_free(v@) {
            Some(k) => r == Some(k as usize),
            None => r is None,
        },
{
    let mut found: Option<usize> = None;
    let mut i: usize = 0;
    while i < v.len()
        invariant
            i <= v.len(),
            match first_free(v@.take(i as int)) {
                Some(k) => found == Some(k as usize) && 0 <= k < i,
                None => found is None,
            },
        decreases v.len() - i,
    {
        proof {
            assert(v@.take(i + 1).drop_last() =~= v@.take(i as int));
        }
        if found.is_none() && v[i] {
            found = Some(i);
        }
        i += 1;
    }
    assert(v@.take(v.len() as int) =~= v@);
    found
}

fn first_base_depot_site(bs: &Vec<BaseDepotSpots>) -> (r: Option<DepotSite>)
    ensures
        r == first_base_site(bs@),
{
    let mut found: Option<DepotSite> = None;
    let mut i: usize = 0;
    while i < bs.len()
        invariant
            i <= bs.len(),
            found == first_base_site(bs@.take(i as int)),
        decreases bs.len() - i,
    {
        proof {
            assert(bs@.take(i + 1).drop_last() =~= bs@.take(i as int));
        }
        if found.is_none() {
            let b = bs[i];
            if !b.at_start {
                if b.wall_found {
                    found = Some(DepotSite::Wall(b.tag));
                } else if b.center_found {
                    found = Some(DepotSite::TowardCenter(b.tag));
                }
            }
        }
        i += 1;
    }
    assert(bs@.take(bs.len() as int) =~= bs@);
    found
}

/// Chooses where the next supply depot goes.
pub fn get_next_depot_position(s: &DepotSpots) -> (r: Option<DepotSite>)
    ensures
        r == depot_site(*s),
{
    let corner = match &s.corners_free {
        Some(v) => first_free_corner(v),
        None => None,
    };
    if let Some(k) = corner {
        return Some(DepotSite::Corner(k));
    }
    if s.middle_free == Some(true) {
        return Some(DepotSite::RampMiddle);
    }
    let at_base = first_base_depot_site(&s.bases);
    if at_base.is_some() {
        return at_base;
    }
    if s.behind_main {
        Some(DepotSite::BehindMain)
    } else {
        None
    }
}

/// A supply depot, when one is needed, at the site chosen for it.
pub fn construct_supply_depots(o: &MacroObservation, s: &DepotSpots) -> (r: Option<DepotSite>)
    ensures
        r == if !o.depot_under_construction && depot_rule(*o) {
            depot_site(*s)
        } else {
            None
        },
{
    if !check_depots_needed(o) {
        return None;
    }
    get_next_depot_position(s)
}

/// A geyser can take a refinery: it still holds gas and nothing stands on it.
pub open spec fn geyser_free(g: GeyserSpot) -> bool {
    g.vespene matches Some(v) && v > 0 && !g.occupied
}

pub open spec fn refinery_rule(o: MacroObservation) -> bool {
    &&& o.pending_refineries == 0
    &&& o.bases != 0
    &&& o.has_barracks
    &&& exists|i: int| 0 <= i < o.geysers@.len() && #[trigger] geyser_free(o.geysers@[i])
}

pub open spec fn engineering_bay_rule(o: MacroObservation) -> bool {
    if o.bio_units < 6 || o.engineering_bays > 1 || o.pending_engineering_bays > 0 {
        false
    } else {
        ||| (o.engineering_bays == 0 && o.bases > 1)
        ||| (o.engineering_bays == 1 && o.bases > 2 && o.bio_units > 20)
    }
}

pub open spec fn armory_rule(o: MacroObservation) -> bool {
    if o.pending_armories > 0 || o.armories > 1 {
        false
    } else {
        ||| (o.armories == 0 && o.hellions > 2)
        ||| (o.armories == 0 && o.bases > 1 && o.mech_units > 5)
        ||| (o.armories == 1 && o.bases > 2 && o.mech_units > 15)
    }
}

pub open spec fn missile_turret_rule(o: MacroObservation) -> bool {
    &&& o.pending_missile_turrets == 0
    &&& o.has_ready_engineering_bay
    &&& (o.enemy_cloaking || o.enemy_fliers)
    &&& exists|i: int| 0 <= i < o.base_has_turret@.len() && !#[trigger] o.base_has_turret@[i]
}

/// Our bases hold more workers than they can use.
pub open spec fn saturated(o: MacroObservation) -> bool {
    o.workers > o.townhalls * 22 || o.workers > 50
}

pub open spec fn command_center_rule(o: MacroObservation) -> bool {
    &&& o.expansion matches Some(e)
    &&& saturated(o)
    &&& o.has_factory
    &&& o.has_starport
    &&& o.pending_command_centers == 0
    &&& !e.townhall_near
    &&& !e.enemies_near
    &&& !o.defending
}

/// The rule for each kind of structure; kinds without one are never built by it.
pub open spec fn structure_rule(o: MacroObservation, structure: u32) -> bool {
    if structure == SUPPLY_DEPOT {
        depot_rule(o)
    } else if structure == REFINERY {
        refinery_rule(o)
    } else if structure == ENGINEERING_BAY {
        engineering_bay_rule(o)
    } else if structure == ARMORY {
        armory_rule(o)
    } else if structure == MISSILE_TURRET {
        missile_turret_rule(o)
    } else if structure == COMMAND_CENTER {
        command_center_rule(o)
    } else {
        false
    }
}

fn has_free_geyser(geysers: &Vec<GeyserSpot>) -> (r: bool)
    ensures
        r == exists|i: int| 0 <= i < geysers@.len() && #[trigger] geyser_free(geysers@[i]),
{
    let mut i: usize = 0;
    while i < geysers.len()
        invariant
            i <= geysers.len(),
            forall|j: int| 0 <= j < i ==> !#[trigger] geyser_free(geysers@[j]),
        decreases geysers.len() - i,
    {
        let g = &geysers[i];
        let free = match g.vespene {
            Some(v) => v > 0 && !g.occupied,
            None => false,
        };
        if free {
            assert(geyser_free(geysers@[i as int]));
            return true;
        }
        i += 1;
    }
    false
}

fn has_base_without_turret(bases: &Vec<bool>) -> (r: bool)
    ensures
        r == exists|i: int| 0 <= i < bases@.len() && !#[trigger] bases@[i],
{
    let mut i: usize = 0;
    while i < bases.len()
        invariant
            i <= bases.len(),
            forall|j: int| 0 <= j < i ==> #[trigger] bases@[j],
        decreases bases.len() - i,
    {
        if !bases[i] {
            return true;
        }
        i += 1;
    }
    false
}

/// Whether the bot should start the given kind of structure now.
pub fn get_conditions(o: &MacroObservation, structure: u32) -> (r: bool)
    ensures
        r == structure_rule(*o, structure),
{
    if structure == SUPPLY_DEPOT {
        supply_depot_condition(o)
    } else if structure == REFINERY {
        if o.pending_refineries > 0 || o.bases == 0 || !o.has_barracks {
            return false;
        }
        has_free_geyser(&o.geysers)
    } else if structure == ENGINEERING_BAY {
        let bio = o.bio_units;
        let amount = o.engineering_bays;
        if bio < 6 || amount > 1 || o.pending_engineering_bays > 0 {
            return false;
        }
        if amount == 0 && o.bases > 1 {
            return true;
        }
        amount == 1 && o.bases > 2 && bio > 20
    } else if structure == ARMORY {
        let amount = o.armories;
        if o.pending_armories > 0 || amount > 1 {
            return false;
        }
        if amount == 0 && o.hellions > 2 {
            return true;
        }
        if amount == 0 && o.bases > 1 && o.mech_units > 5 {
            return true;
        }
        amount == 1 && o.bases > 2 && o.mech_units > 15
    } else if structure == MISSILE_TURRET {
        if o.pending_missile_turrets > 0 || !o.has_ready_engineering_bay {
            return false;
        }
        if !(o.enemy_cloaking || o.enemy_fliers) {
            return false;
        }
        has_base_without_turret(&o.base_has_turret)
    } else if structure == COMMAND_CENTER {
        let saturated = (o.workers as u128) > (o.townhalls as u128) * 22 || o.workers > 50;
        match &o.expansion {
            Some(e) => saturated && o.has_factory && o.has_starport && o.pending_command_centers
                == 0 && !e.townhall_near && !e.enemies_near && !o.defending,
            None => false,
        }
    } else {
        false
    }
}

/// The older rule set: only supply depots are ever requested.
pub fn get_macro_conditions(o: &MacroObservation, structure: u32) -> (r: bool)
    ensures
        r == (structure == SUPPLY_DEPOT && depot_rule(*o)),
{
    if structure == SUPPLY_DEPOT {
        supply_depot_condition(o)
    } else {
        false
    }
}

/// Depots stop at the supply cap: none is asked for once the cap passes 199,
/// or without a town hall.
pub proof fn depots_stop_at_the_cap(o: MacroObservation)
    ensures
        depot_rule(o) ==> o.supply_cap <= 199 && o.townhalls > 0,
        structure_rule(o, SUPPLY_DEPOT) == depot_rule(o),
{
}

/// When the depot rule asks for a supply depot (`check_depots_needed` also
/// waits while a depot's worker is on its way). Never at a supply cap over
/// 199 or without a town hall. Otherwise one
/// is asked for when fewer than 6 supply are left and none is ordered;
/// fewer than 6 left, fewer than 2 ordered and over 30 used; over 45 used,
/// fewer than 3 left and fewer than 3 ordered; a cap over 40, fewer than 8
/// left and none ordered; or to close the ramp's free middle once a barracks
/// stands and none is ordered. With 8 or more supply left, or 3 or more
/// ordered, only the ramp can ask for one.
pub proof fn depot_law(o: MacroObservation)
    ensures
        o.supply_cap > 199 || o.townhalls == 0 ==> !depot_rule(o),
        o.supply_cap <= 199 && o.townhalls > 0 ==> {
            &&& o.supply_left < 6 && o.pending_depots == 0 ==> depot_rule(o)
            &&& o.supply_left < 6 && o.pending_depots < 2 && o.supply_used > 30 ==> depot_rule(o)
            &&& o.supply_used > 45 && o.supply_left < 3 && o.pending_depots < 3 ==> depot_rule(o)
            &&& o.supply_cap > 40 && o.supply_left < 8 && o.pending_depots == 0 ==> depot_rule(o)
            &&& (o.ramp_middle matches Some(m) && !m.occupied && !m.barracks_near) && o.has_barracks
                && o.pending_depots == 0 ==> depot_rule(o)
        },
        (o.supply_left >= 8 || o.pending_depots >= 3) && depot_rule(o) ==> (o.ramp_middle matches Some(m) && !m.occupied
            && !m.barracks_near) && o.has_barracks && o.pending_depots == 0,
{
}

} // verus!
