//! Unit type identifiers, numbered as the game numbers them, and the groups
//! of them that the bot's rules refer to.
use vstd::prelude::*;

verus! {

pub const ADEPT: u32 = 311;
pub const ADEPT_PHASE_SHIFT: u32 = 801;
pub const ARCHON: u32 = 141;
pub const ARMORY: u32 = 29;
pub const AUTO_TURRET: u32 = 31;
pub const BANELING: u32 = 9;
pub const BANELING_BURROWED: u32 = 115;
pub const BANELING_COCOON: u32 = 8;
pub const BANSHEE: u32 = 55;
pub const BARRACKS: u32 = 21;
pub const BARRACKS_FLYING: u32 = 46;
pub const BARRACKS_REACTOR: u32 = 38;
pub const BARRACKS_TECH_LAB: u32 = 37;
pub const BATTLECRUISER: u32 = 57;
pub const BROOD_LORD: u32 = 114;
pub const BROOD_LORD_COCOON: u32 = 113;
pub const BROODLING: u32 = 289;
pub const BUNKER: u32 = 24;
pub const CARRIER: u32 = 79;
pub const CHANGELING: u32 = 12;
pub const CHANGELING_MARINE: u32 = 15;
pub const CHANGELING_MARINE_SHIELD: u32 = 14;
pub const CHANGELING_ZEALOT: u32 = 13;
pub const CHANGELING_ZERGLING: u32 = 17;
pub const COLOSSUS: u32 = 4;
pub const COMMAND_CENTER: u32 = 18;
pub const COMMAND_CENTER_FLYING: u32 = 36;
pub const CORRUPTOR: u32 = 112;
pub const CYCLONE: u32 = 692;
pub const DARK_SHRINE: u32 = 69;
pub const DARK_TEMPLAR: u32 = 76;
pub const DRONE: u32 = 104;
pub const DRONE_BURROWED: u32 = 116;
pub const EGG: u32 = 103;
pub const ENGINEERING_BAY: u32 = 22;
pub const FACTORY: u32 = 27;
pub const FACTORY_FLYING: u32 = 43;
pub const FACTORY_REACTOR: u32 = 40;
pub const FACTORY_TECH_LAB: u32 = 39;
pub const FLEET_BEACON: u32 = 64;
pub const FUSION_CORE: u32 = 30;
pub const GHOST: u32 = 50;
pub const GHOST_ACADEMY: u32 = 26;
pub const GREATER_SPIRE: u32 = 102;
pub const HATCHERY: u32 = 86;
pub const HELLION: u32 = 53;
pub const HELLION_TANK: u32 = 484;
pub const HIGH_TEMPLAR: u32 = 75;
pub const HIVE: u32 = 101;
pub const HYDRALISK: u32 = 107;
pub const HYDRALISK_BURROWED: u32 = 117;
pub const IMMORTAL: u32 = 83;
pub const INFESTOR: u32 = 111;
pub const INFESTOR_BURROWED: u32 = 127;
pub const INTERCEPTOR: u32 = 85;
pub const LAIR: u32 = 100;
pub const LARVA: u32 = 151;
pub const LIBERATOR: u32 = 689;
pub const LIBERATOR_AG: u32 = 734;
pub const LOCUST_MP: u32 = 489;
pub const LOCUST_MP_FLYING: u32 = 693;
pub const LURKER_DEN_MP: u32 = 504;
pub const LURKER_MP: u32 = 502;
pub const LURKER_MP_BURROWED: u32 = 503;
pub const LURKER_MP_EGG: u32 = 501;
pub const MULE: u32 = 268;
pub const MARAUDER: u32 = 51;
pub const MARINE: u32 = 48;
pub const MEDIVAC: u32 = 54;
pub const MISSILE_TURRET: u32 = 23;
pub const MOTHERSHIP: u32 = 10;
pub const MUTALISK: u32 = 108;
pub const NEXUS: u32 = 59;
pub const OBSERVER: u32 = 82;
pub const OBSERVER_SIEGE_MODE: u32 = 1911;
pub const ORACLE: u32 = 495;
pub const ORBITAL_COMMAND: u32 = 132;
pub const ORBITAL_COMMAND_FLYING: u32 = 134;
pub const OVERLORD: u32 = 106;
pub const OVERLORD_COCOON: u32 = 128;
pub const OVERLORD_TRANSPORT: u32 = 893;
pub const OVERSEER: u32 = 129;
pub const OVERSEER_SIEGE_MODE: u32 = 1912;
pub const PHOENIX: u32 = 78;
pub const PHOTON_CANNON: u32 = 66;
pub const PLANETARY_FORTRESS: u32 = 130;
pub const PROBE: u32 = 84;
pub const QUEEN: u32 = 126;
pub const RAVAGER: u32 = 688;
pub const RAVAGER_BURROWED: u32 = 690;
pub const RAVEN: u32 = 56;
pub const REACTOR: u32 = 6;
pub const REAPER: u32 = 49;
pub const REFINERY: u32 = 20;
pub const REFINERY_RICH: u32 = 1943;
pub const ROACH: u32 = 110;
pub const ROACH_BURROWED: u32 = 118;
pub const SCV: u32 = 45;
pub const SENSOR_TOWER: u32 = 25;
pub const SENTRY: u32 = 77;
pub const SIEGE_TANK: u32 = 33;
pub const SIEGE_TANK_SIEGED: u32 = 32;
pub const SPINE_CRAWLER: u32 = 98;
pub const SPIRE: u32 = 92;
pub const SPORE_CRAWLER: u32 = 99;
pub const STALKER: u32 = 74;
pub const STARGATE: u32 = 67;
pub const STARPORT: u32 = 28;
pub const STARPORT_FLYING: u32 = 44;
pub const STARPORT_REACTOR: u32 = 42;
pub const STARPORT_TECH_LAB: u32 = 41;
pub const SUPPLY_DEPOT: u32 = 19;
pub const SUPPLY_DEPOT_LOWERED: u32 = 47;
pub const SWARM_HOST_BURROWED_MP: u32 = 493;
pub const SWARM_HOST_MP: u32 = 494;
pub const TECH_LAB: u32 = 5;
pub const TEMPEST: u32 = 496;
pub const THOR: u32 = 52;
pub const THOR_AA_LANCE: u32 = 807;
pub const THOR_AA_WEAPON: u32 = 269;
pub const THOR_AP: u32 = 691;
pub const ULTRALISK: u32 = 109;
pub const ULTRALISK_BURROWED: u32 = 131;
pub const VIKING_ASSAULT: u32 = 34;
pub const VIKING_FIGHTER: u32 = 35;
pub const VIPER: u32 = 499;
pub const VOID_RAY: u32 = 80;
pub const WARP_PRISM: u32 = 81;
pub const WARP_PRISM_PHASING: u32 = 136;
pub const WIDOW_MINE: u32 = 498;
pub const WIDOW_MINE_BURROWED: u32 = 500;
pub const ZEALOT: u32 = 73;
pub const ZERGLING: u32 = 105;
pub const ZERGLING_BURROWED: u32 = 119;

/// A worker of any race (the game library counts SCVs, drones and probes).
#[verifier::allow_in_spec]
pub fn is_worker(t: u32) -> bool
    returns
        t == SCV || t == DRONE || t == PROBE,
{
    t == SCV || t == DRONE || t == PROBE
}

/// A town hall of any race, flying command centers included (the game library's grouping).
#[verifier::allow_in_spec]
pub fn is_townhall(t: u32) -> bool
    returns
        t == COMMAND_CENTER || t == ORBITAL_COMMAND || t == PLANETARY_FORTRESS
        || t == COMMAND_CENTER_FLYING || t == ORBITAL_COMMAND_FLYING || t == HATCHERY
        || t == LAIR || t == HIVE || t == NEXUS,
{
    t == COMMAND_CENTER || t == ORBITAL_COMMAND || t == PLANETARY_FORTRESS
    || t == COMMAND_CENTER_FLYING || t == ORBITAL_COMMAND_FLYING || t == HATCHERY
    || t == LAIR || t == HIVE || t == NEXUS
}

/// A Terran add-on (the game library's grouping).
#[verifier::allow_in_spec]
pub fn is_addon(t: u32) -> bool
    returns
        t == TECH_LAB || t == REACTOR || t == BARRACKS_TECH_LAB || t == BARRACKS_REACTOR
        || t == FACTORY_TECH_LAB || t == FACTORY_REACTOR || t == STARPORT_TECH_LAB
        || t == STARPORT_REACTOR,
{
    t == TECH_LAB || t == REACTOR || t == BARRACKS_TECH_LAB || t == BARRACKS_REACTOR
    || t == FACTORY_TECH_LAB || t == FACTORY_REACTOR || t == STARPORT_TECH_LAB
    || t == STARPORT_REACTOR
}

/// Terran infantry trained at a barracks.
#[verifier::allow_in_spec]
pub fn is_bio(t: u32) -> bool
    returns
        t == MARINE || t == MARAUDER || t == REAPER || t == GHOST,
{
    t == MARINE || t == MARAUDER || t == REAPER || t == GHOST
}

/// Infantry that a bunker asks for when it is threatened.
#[verifier::allow_in_spec]
pub fn is_bunker_bio(t: u32) -> bool
    returns
        t == MARINE || t == MARAUDER || t == GHOST,
{
    t == MARINE || t == MARAUDER || t == GHOST
}

/// Terran vehicles and ships.
#[verifier::allow_in_spec]
pub fn is_mech(t: u32) -> bool
    returns
        t == HELLION || t == HELLION_TANK || t == SIEGE_TANK || t == SIEGE_TANK_SIEGED
        || t == WIDOW_MINE || t == WIDOW_MINE_BURROWED || t == CYCLONE || t == THOR_AP
        || t == THOR || t == VIKING_ASSAULT || t == VIKING_FIGHTER || t == RAVEN
        || t == BANSHEE || t == BATTLECRUISER,
{
    t == HELLION || t == HELLION_TANK || t == SIEGE_TANK || t == SIEGE_TANK_SIEGED
    || t == WIDOW_MINE || t == WIDOW_MINE_BURROWED || t == CYCLONE || t == THOR_AP
    || t == THOR || t == VIKING_ASSAULT || t == VIKING_FIGHTER || t == RAVEN
    || t == BANSHEE || t == BATTLECRUISER
}

/// A structure that trains army units.
#[verifier::allow_in_spec]
pub fn is_production(t: u32) -> bool
    returns
        t == BARRACKS || t == FACTORY || t == STARPORT,
{
    t == BARRACKS || t == FACTORY || t == STARPORT
}

/// Units that do not walk with the main army.
#[verifier::allow_in_spec]
pub fn is_excluded_from_main_army(t: u32) -> bool
    returns
        t == VIKING_ASSAULT || t == VIKING_FIGHTER || t == RAVEN || t == BANSHEE
        || t == REAPER || t == MEDIVAC || t == SCV || t == MULE || t == WIDOW_MINE
        || t == WIDOW_MINE_BURROWED,
{
    t == VIKING_ASSAULT || t == VIKING_FIGHTER || t == RAVEN || t == BANSHEE
    || t == REAPER || t == MEDIVAC || t == SCV || t == MULE || t == WIDOW_MINE
    || t == WIDOW_MINE_BURROWED
}

/// Units that the unit memory does not record.
#[verifier::allow_in_spec]
pub fn is_memory_ignored(t: u32) -> bool
    returns
        t == SCV || t == DRONE || t == DRONE_BURROWED || t == PROBE
        || t == ADEPT_PHASE_SHIFT || t == OBSERVER || t == OVERLORD
        || t == OVERLORD_TRANSPORT || t == OVERSEER || t == OVERLORD_COCOON
        || t == LARVA || t == EGG || t == BROOD_LORD_COCOON || t == BANELING_COCOON
        || t == LURKER_MP_EGG || t == CHANGELING || t == BROODLING || t == LOCUST_MP
        || t == LOCUST_MP_FLYING || t == MULE || t == CHANGELING_MARINE
        || t == CHANGELING_MARINE_SHIELD,
{
    t == SCV || t == DRONE || t == DRONE_BURROWED || t == PROBE
    || t == ADEPT_PHASE_SHIFT || t == OBSERVER || t == OVERLORD
    || t == OVERLORD_TRANSPORT || t == OVERSEER || t == OVERLORD_COCOON
    || t == LARVA || t == EGG || t == BROOD_LORD_COCOON || t == BANELING_COCOON
    || t == LURKER_MP_EGG || t == CHANGELING || t == BROODLING || t == LOCUST_MP
    || t == LOCUST_MP_FLYING || t == MULE || t == CHANGELING_MARINE
    || t == CHANGELING_MARINE_SHIELD
}

/// Units that can turn invisible or hide underground.
#[verifier::allow_in_spec]
pub fn is_cloak_or_burrow(t: u32) -> bool
    returns
        t == DARK_TEMPLAR || t == MOTHERSHIP || t == BANSHEE || t == GHOST
        || t == WIDOW_MINE || t == WIDOW_MINE_BURROWED || t == LURKER_MP
        || t == LURKER_MP_BURROWED || t == ROACH_BURROWED,
{
    t == DARK_TEMPLAR || t == MOTHERSHIP || t == BANSHEE || t == GHOST
    || t == WIDOW_MINE || t == WIDOW_MINE_BURROWED || t == LURKER_MP
    || t == LURKER_MP_BURROWED || t == ROACH_BURROWED
}

/// Structures that unlock cloaked or burrowed units.
#[verifier::allow_in_spec]
pub fn is_cloak_structure(t: u32) -> bool
    returns
        t == STARPORT_TECH_LAB || t == GHOST_ACADEMY || t == LURKER_DEN_MP
        || t == DARK_SHRINE,
{
    t == STARPORT_TECH_LAB || t == GHOST_ACADEMY || t == LURKER_DEN_MP
    || t == DARK_SHRINE
}

/// Units whose sighting marks the enemy as able to cloak.
#[verifier::allow_in_spec]
pub fn is_cloaking_unit(t: u32) -> bool
    returns
        t == BANSHEE || t == GHOST || t == WIDOW_MINE || t == WIDOW_MINE_BURROWED
        || t == ROACH || t == ROACH_BURROWED || t == DARK_TEMPLAR || t == MOTHERSHIP
        || t == LURKER_MP || t == LURKER_MP_BURROWED || t == LURKER_MP_EGG,
{
    t == BANSHEE || t == GHOST || t == WIDOW_MINE || t == WIDOW_MINE_BURROWED
    || t == ROACH || t == ROACH_BURROWED || t == DARK_TEMPLAR || t == MOTHERSHIP
    || t == LURKER_MP || t == LURKER_MP_BURROWED || t == LURKER_MP_EGG
}

/// Flying units that do not count as an air threat.
#[verifier::allow_in_spec]
pub fn is_ignored_flier(t: u32) -> bool
    returns
        t == OVERLORD || t == OVERLORD_COCOON || t == OVERSEER
        || t == OVERSEER_SIEGE_MODE || t == OVERLORD_TRANSPORT || t == OBSERVER
        || t == OBSERVER_SIEGE_MODE || t == MEDIVAC || t == PHOENIX,
{
    t == OVERLORD || t == OVERLORD_COCOON || t == OVERSEER
    || t == OVERSEER_SIEGE_MODE || t == OVERLORD_TRANSPORT || t == OBSERVER
    || t == OBSERVER_SIEGE_MODE || t == MEDIVAC || t == PHOENIX
}

/// Capital ships and what they spawn.
#[verifier::allow_in_spec]
pub fn is_heavy_flier(t: u32) -> bool
    returns
        t == TEMPEST || t == CARRIER || t == MOTHERSHIP || t == BATTLECRUISER
        || t == BROOD_LORD || t == BROODLING,
{
    t == TEMPEST || t == CARRIER || t == MOTHERSHIP || t == BATTLECRUISER
    || t == BROOD_LORD || t == BROODLING
}

/// Structures that produce air units.
#[verifier::allow_in_spec]
pub fn is_flying_production_structure(t: u32) -> bool
    returns
        t == STARPORT_TECH_LAB || t == STARPORT || t == STARPORT_REACTOR || t == SPIRE
        || t == GREATER_SPIRE || t == STARGATE || t == FLEET_BEACON,
{
    t == STARPORT_TECH_LAB || t == STARPORT || t == STARPORT_REACTOR || t == SPIRE
    || t == GREATER_SPIRE || t == STARGATE || t == FLEET_BEACON
}

/// Structures that unlock capital ships.
#[verifier::allow_in_spec]
pub fn is_heavy_flying_production_structure(t: u32) -> bool
    returns
        t == FUSION_CORE || t == FLEET_BEACON || t == GREATER_SPIRE,
{
    t == FUSION_CORE || t == FLEET_BEACON || t == GREATER_SPIRE
}

/// Enemy units that do not trigger a defense.
#[verifier::allow_in_spec]
pub fn is_defensive_ignored(t: u32) -> bool
    returns
        t == SCV || t == DRONE || t == DRONE_BURROWED || t == PROBE || t == OBSERVER
        || t == OVERLORD || t == OVERSEER || t == LARVA || t == CHANGELING || t == MULE
        || t == CHANGELING_MARINE || t == CHANGELING_MARINE_SHIELD,
{
    t == SCV || t == DRONE || t == DRONE_BURROWED || t == PROBE || t == OBSERVER
    || t == OVERLORD || t == OVERSEER || t == LARVA || t == CHANGELING || t == MULE
    || t == CHANGELING_MARINE || t == CHANGELING_MARINE_SHIELD
}

/// Units that can only be trained from a structure with a tech lab.
#[verifier::allow_in_spec]
pub fn needs_techlab(t: u32) -> bool
    returns
        t == MARAUDER || t == GHOST || t == SIEGE_TANK || t == THOR || t == BANSHEE
        || t == BATTLECRUISER,
{
    t == MARAUDER || t == GHOST || t == SIEGE_TANK || t == THOR || t == BANSHEE
    || t == BATTLECRUISER
}

/// Enemy units that a bunker does not shoot at.
#[verifier::allow_in_spec]
pub fn is_priority_zero(t: u32) -> bool
    returns
        t == LARVA || t == EGG || t == ADEPT_PHASE_SHIFT || t == INTERCEPTOR
        || t == OVERLORD || t == OVERLORD_COCOON || t == OVERSEER
        || t == OVERSEER_SIEGE_MODE || t == OVERLORD_TRANSPORT || t == OBSERVER
        || t == OBSERVER_SIEGE_MODE || t == MEDIVAC || t == PHOENIX,
{
    t == LARVA || t == EGG || t == ADEPT_PHASE_SHIFT || t == INTERCEPTOR
    || t == OVERLORD || t == OVERLORD_COCOON || t == OVERSEER
    || t == OVERSEER_SIEGE_MODE || t == OVERLORD_TRANSPORT || t == OBSERVER
    || t == OBSERVER_SIEGE_MODE || t == MEDIVAC || t == PHOENIX
}

/// Units that fly and fight.
#[verifier::allow_in_spec]
pub fn is_flying_unit(t: u32) -> bool
    returns
        t == VIKING_FIGHTER || t == VIKING_ASSAULT || t == BANSHEE || t == RAVEN
        || t == LIBERATOR || t == LIBERATOR_AG || t == BATTLECRUISER || t == MUTALISK
        || t == CORRUPTOR || t == BROOD_LORD || t == PHOENIX || t == VOID_RAY
        || t == CARRIER || t == TEMPEST || t == ORACLE || t == MOTHERSHIP,
{
    t == VIKING_FIGHTER || t == VIKING_ASSAULT || t == BANSHEE || t == RAVEN
    || t == LIBERATOR || t == LIBERATOR_AG || t == BATTLECRUISER || t == MUTALISK
    || t == CORRUPTOR || t == BROOD_LORD || t == PHOENIX || t == VOID_RAY
    || t == CARRIER || t == TEMPEST || t == ORACLE || t == MOTHERSHIP
}

/// Barracks units that need a tech lab.
#[verifier::allow_in_spec]
pub fn barracks_unit_requires_techlab(t: u32) -> bool
    returns
        t == MARAUDER || t == GHOST,
{
    t == MARAUDER || t == GHOST
}

/// Factory units that need a tech lab.
#[verifier::allow_in_spec]
pub fn factory_unit_requires_techlab(t: u32) -> bool
    returns
        t == SIEGE_TANK || t == CYCLONE || t == THOR,
{
    t == SIEGE_TANK || t == CYCLONE || t == THOR
}

/// Starport units that need a tech lab.
#[verifier::allow_in_spec]
pub fn starport_unit_requires_techlab(t: u32) -> bool
    returns
        t == BANSHEE || t == RAVEN || t == BATTLECRUISER,
{
    t == BANSHEE || t == RAVEN || t == BATTLECRUISER
}
} // verus!
