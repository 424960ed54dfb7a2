//! Chat commands for testing: a message names a unit, or an army that the
//! game should spawn, for us or, after "enemy ", for the opponent.
use vstd::prelude::*;
use vstd::string::StringExecFns;
use crate::unit_types::{
    BANELING, BANSHEE, BARRACKS, BATTLECRUISER, BUNKER, CARRIER, COLOSSUS, COMMAND_CENTER, CYCLONE,
    DARK_TEMPLAR, FACTORY, GHOST, HELLION, HELLION_TANK, HYDRALISK, IMMORTAL, LIBERATOR, MARAUDER,
    MARINE, MEDIVAC, MISSILE_TURRET, MULE, MUTALISK, OBSERVER, PROBE, RAVEN, REAPER, ROACH, SCV,
    SIEGE_TANK, STALKER, STARPORT, TEMPEST, THOR, ULTRALISK, VIKING_FIGHTER, VOID_RAY, WIDOW_MINE,
    ZEALOT, ZERGLING,
};

verus! {

/// Whether two strings hold the same characters.
pub fn str_is(a: &str, b: &str) -> (r: bool)
    ensures
        r == (a@ == b@),
{
    let n = a.unicode_len();
    let m = b.unicode_len();
    if n != m {
        return false;
    }
    let mut i: usize = 0;
    while i < n
        invariant
            i <= n,
            n == a@.len(),
            m == b@.len(),
            n == m,
            forall|j: int| 0 <= j < i ==> a@[j] == b@[j],
        decreases n - i,
    {
        if a.get_char(i) != b.get_char(i) {
            return false;
        }
        i += 1;
    }
    assert(a@ =~= b@);
    true
}

/// Whether a string begins with another.
pub fn starts_with(s: &str, prefix: &str) -> (r: bool)
    ensures
        r == (prefix@.len() <= s@.len() && s@.subrange(0, prefix@.len() as int) == prefix@),
{
    let n = s.unicode_len();
    let m = prefix.unicode_len();
    if m > n {
        return false;
    }
    let mut i: usize = 0;
    while i < m
        invariant
            i <= m,
            m <= n,
            n == s@.len(),
            m == prefix@.len(),
            forall|j: int| 0 <= j < i ==> s@[j] == prefix@[j],
        decreases m - i,
    {
        if s.get_char(i) != prefix.get_char(i) {
            assert(s@.subrange(0, m as int)[i as int] != prefix@[i as int]);
            return false;
        }
        i += 1;
    }
    assert(s@.subrange(0, m as int) =~= prefix@);
    true
}

/// The unit a chat word names.
pub open spec fn unit_named(n: Seq<char>) -> Option<u32> {
    if n == "marine"@ || n == "marines"@ {
        Some(MARINE)
    } else if n == "marauder"@ || n == "marauders"@ {
        Some(MARAUDER)
    } else if n == "reaper"@ || n == "reapers"@ {
        Some(REAPER)
    } else if n == "ghost"@ || n == "ghosts"@ {
        Some(GHOST)
    } else if n == "hellion"@ || n == "hellions"@ {
        Some(HELLION)
    } else if n == "hellbat"@ || n == "hellbats"@ {
        Some(HELLION_TANK)
    } else if n == "tank"@ || n == "tanks"@ || n == "siegetank"@ {
        Some(SIEGE_TANK)
    } else if n == "cyclone"@ || n == "cyclones"@ {
        Some(CYCLONE)
    } else if n == "thor"@ || n == "thors"@ {
        Some(THOR)
    } else if n == "widowmine"@ || n == "mine"@ || n == "mines"@ {
        Some(WIDOW_MINE)
    } else if n == "medivac"@ || n == "medivacs"@ {
        Some(MEDIVAC)
    } else if n == "viking"@ || n == "vikings"@ {
        Some(VIKING_FIGHTER)
    } else if n == "banshee"@ || n == "banshees"@ {
        Some(BANSHEE)
    } else if n == "raven"@ || n == "ravens"@ {
        Some(RAVEN)
    } else if n == "battlecruiser"@ || n == "bc"@ || n == "bcs"@ {
        Some(BATTLECRUISER)
    } else if n == "liberator"@ || n == "liberators"@ || n == "lib"@ {
        Some(LIBERATOR)
    } else if n == "scv"@ || n == "scvs"@ {
        Some(SCV)
    } else if n == "mule"@ || n == "mules"@ {
        Some(MULE)
    } else if n == "cc"@ || n == "commandcenter"@ {
        Some(COMMAND_CENTER)
    } else if n == "barracks"@ || n == "rax"@ {
        Some(BARRACKS)
    } else if n == "factory"@ || n == "fact"@ {
        Some(FACTORY)
    } else if n == "starport"@ || n == "port"@ {
        Some(STARPORT)
    } else if n == "bunker"@ || n == "bunkers"@ {
        Some(BUNKER)
    } else if n == "turret"@ || n == "turrets"@ || n == "missileturret"@ {
        Some(MISSILE_TURRET)
    } else if n == "zergling"@ || n == "ling"@ || n == "zerglings"@ || n == "lings"@ {
        Some(ZERGLING)
    } else if n == "roach"@ || n == "roaches"@ {
        Some(ROACH)
    } else if n == "hydra"@ || n == "hydras"@ || n == "hydralisk"@ {
        Some(HYDRALISK)
    } else if n == "mutalisk"@ || n == "muta"@ || n == "mutas"@ {
        Some(MUTALISK)
    } else if n == "ultralisk"@ || n == "ultra"@ || n == "ultras"@ {
        Some(ULTRALISK)
    } else if n == "baneling"@ || n == "banelings"@ || n == "bane"@ {
        Some(BANELING)
    } else if n == "zealot"@ || n == "zealots"@ {
        Some(ZEALOT)
    } else if n == "stalker"@ || n == "stalkers"@ {
        Some(STALKER)
    } else if n == "immortal"@ || n == "immortals"@ {
        Some(IMMORTAL)
    } else if n == "colossus"@ || n == "colossi"@ {
        Some(COLOSSUS)
    } else if n == "voidray"@ || n == "void"@ || n == "voidrays"@ {
        Some(VOID_RAY)
    } else if n == "carrier"@ || n == "carriers"@ {
        Some(CARRIER)
    } else if n == "tempest"@ {
        Some(TEMPEST)
    } else if n == "observer"@ || n == "obs"@ {
        Some(OBSERVER)
    } else {
        None
    }
}

/// Reads the unit a chat word names.
pub fn get_unit_from_string(n: &str) -> (r: Option<u32>)
    ensures
        r == unit_named(n@),
{
    if str_is(n, "marine") || str_is(n, "marines") {
        Some(MARINE)
    } else if str_is(n, "marauder") || str_is(n, "marauders") {
        Some(MARAUDER)
    } else if str_is(n, "reaper") || str_is(n, "reapers") {
        Some(REAPER)
    } else if str_is(n, "ghost") || str_is(n, "ghosts") {
        Some(GHOST)
    } else if str_is(n, "hellion") || str_is(n, "hellions") {
        Some(HELLION)
    } else if str_is(n, "hellbat") || str_is(n, "hellbats") {
        Some(HELLION_TANK)
    } else if str_is(n, "tank") || str_is(n, "tanks") || str_is(n, "siegetank") {
        Some(SIEGE_TANK)
    } else if str_is(n, "cyclone") || str_is(n, "cyclones") {
        Some(CYCLONE)
    } else if str_is(n, "thor") || str_is(n, "thors") {
        Some(THOR)
    } else if str_is(n, "widowmine") || str_is(n, "mine") || str_is(n, "mines") {
        Some(WIDOW_MINE)
    } else if str_is(n, "medivac") || str_is(n, "medivacs") {
        Some(MEDIVAC)
    } else if str_is(n, "viking") || str_is(n, "vikings") {
        Some(VIKING_FIGHTER)
    } else if str_is(n, "banshee") || str_is(n, "banshees") {
        Some(BANSHEE)
    } else if str_is(n, "raven") || str_is(n, "ravens") {
        Some(RAVEN)
    } else if str_is(n, "battlecruiser") || str_is(n, "bc") || str_is(n, "bcs") {
        Some(BATTLECRUISER)
    } else if str_is(n, "liberator") || str_is(n, "liberators") || str_is(n, "lib") {
        Some(LIBERATOR)
    } else if str_is(n, "scv") || str_is(n, "scvs") {
        Some(SCV)
    } else if str_is(n, "mule") || str_is(n, "mules") {
        Some(MULE)
    } else if str_is(n, "cc") || str_is(n, "commandcenter") {
        Some(COMMAND_CENTER)
    } else if str_is(n, "barracks") || str_is(n, "rax") {
        Some(BARRACKS)
    } else if str_is(n, "factory") || str_is(n, "fact") {
        Some(FACTORY)
    } else if str_is(n, "starport") || str_is(n, "port") {
        Some(STARPORT)
    } else if str_is(n, "bunker") || str_is(n, "bunkers") {
        Some(BUNKER)
    } else if str_is(n, "turret") || str_is(n, "turrets") || str_is(n, "missileturret") {
        Some(MISSILE_TURRET)
    } else if str_is(n, "zergling") || str_is(n, "ling") || str_is(n, "zerglings") || str_is(n, "lings") {
        Some(ZERGLING)
    } else if str_is(n, "roach") || str_is(n, "roaches") {
        Some(ROACH)
    } else if str_is(n, "hydra") || str_is(n, "hydras") || str_is(n, "hydralisk") {
        Some(HYDRALISK)
    } else if str_is(n, "mutalisk") || str_is(n, "muta") || str_is(n, "mutas") {
        Some(MUTALISK)
    } else if str_is(n, "ultralisk") || str_is(n, "ultra") || str_is(n, "ultras") {
        Some(ULTRALISK)
    } else if str_is(n, "baneling") || str_is(n, "banelings") || str_is(n, "bane") {
        Some(BANELING)
    } else if str_is(n, "zealot") || str_is(n, "zealots") {
        Some(ZEALOT)
    } else if str_is(n, "stalker") || str_is(n, "stalkers") {
        Some(STALKER)
    } else if str_is(n, "immortal") || str_is(n, "immortals") {
        Some(IMMORTAL)
    } else if str_is(n, "colossus") || str_is(n, "colossi") {
        Some(COLOSSUS)
    } else if str_is(n, "voidray") || str_is(n, "void") || str_is(n, "voidrays") {
        Some(VOID_RAY)
    } else if str_is(n, "carrier") || str_is(n, "carriers") {
        Some(CARRIER)
    } else if str_is(n, "tempest") {
        Some(TEMPEST)
    } else if str_is(n, "observer") || str_is(n, "obs") {
        Some(OBSERVER)
    } else {
        None
    }
}

/// The army a chat message names.
pub open spec fn army_named(m: Seq<char>) -> Option<Seq<(u32, u32)>> {
    if m == "enemy basic army"@ || m == "enemy basic"@ {
        Some(seq![(MARINE, 4), (MARAUDER, 2), (SIEGE_TANK, 1), (MEDIVAC, 1)])
    } else if m == "enemy bio army"@ || m == "enemy bio"@ {
        Some(seq![(MARINE, 8), (MARAUDER, 4), (MEDIVAC, 2)])
    } else if m == "enemy mech army"@ || m == "enemy mech"@ {
        Some(seq![(SIEGE_TANK, 3), (THOR, 2), (CYCLONE, 2), (HELLION, 4)])
    } else if m == "enemy marine push"@ {
        Some(seq![(MARINE, 12), (MEDIVAC, 1)])
    } else if m == "enemy tank push"@ {
        Some(seq![(SIEGE_TANK, 4), (MARINE, 6)])
    } else if m == "enemy all in"@ {
        Some(seq![(MARINE, 10), (MARAUDER, 6), (SIEGE_TANK, 2), (MEDIVAC, 2)])
    } else if m == "enemy massive"@ {
        Some(seq![(MARINE, 20), (MARAUDER, 10), (SIEGE_TANK, 4), (MEDIVAC, 3)])
    } else if m == "enemy ling flood"@ || m == "enemy zerglings"@ {
        Some(seq![(ZERGLING, 24)])
    } else if m == "enemy roach push"@ || m == "enemy roaches"@ {
        Some(seq![(ROACH, 12)])
    } else if m == "enemy hydra push"@ || m == "enemy hydras"@ {
        Some(seq![(HYDRALISK, 8)])
    } else if m == "enemy bane bust"@ || m == "enemy banelings"@ {
        Some(seq![(ZERGLING, 12), (BANELING, 8)])
    } else if m == "enemy roach hydra"@ {
        Some(seq![(ROACH, 6), (HYDRALISK, 6)])
    } else if m == "enemy muta harass"@ || m == "enemy mutas"@ {
        Some(seq![(MUTALISK, 8)])
    } else if m == "enemy zerg army"@ {
        Some(seq![(ROACH, 8), (HYDRALISK, 6), (ZERGLING, 12)])
    } else if m == "enemy zealot rush"@ || m == "enemy zealots"@ {
        Some(seq![(ZEALOT, 8)])
    } else if m == "enemy stalker push"@ || m == "enemy stalkers"@ {
        Some(seq![(STALKER, 8)])
    } else if m == "enemy protoss army"@ || m == "enemy toss army"@ {
        Some(seq![(STALKER, 6), (ZEALOT, 4), (IMMORTAL, 2)])
    } else if m == "enemy carrier rush"@ || m == "enemy carriers"@ {
        Some(seq![(CARRIER, 3)])
    } else if m == "enemy void rays"@ || m == "enemy voids"@ {
        Some(seq![(VOID_RAY, 5)])
    } else if m == "enemy colossus"@ {
        Some(seq![(COLOSSUS, 2), (STALKER, 6), (ZEALOT, 4)])
    } else if m == "enemy dt rush"@ || m == "enemy dark templars"@ {
        Some(seq![(DARK_TEMPLAR, 4)])
    } else if m == "enemy worker rush"@ || m == "enemy probes"@ {
        Some(seq![(PROBE, 12)])
    } else {
        None
    }
}

/// Reads the army a chat message names.
pub fn get_army_composition(m: &str) -> (r: Option<Vec<(u32, u32)>>)
    ensures
        match r {
            Some(v) => army_named(m@) == Some(v@),
            None => army_named(m@) is None,
        },
{
    if str_is(m, "enemy basic army") || str_is(m, "enemy basic") {
        let v: Vec<(u32, u32)> = vec![(MARINE, 4), (MARAUDER, 2), (SIEGE_TANK, 1), (MEDIVAC, 1)];
        assert(v@ =~= seq![(MARINE, 4), (MARAUDER, 2), (SIEGE_TANK, 1), (MEDIVAC, 1)]);
        Some(v)
    } else if str_is(m, "enemy bio army") || str_is(m, "enemy bio") {
        let v: Vec<(u32, u32)> = vec![(MARINE, 8), (MARAUDER, 4), (MEDIVAC, 2)];
        assert(v@ =~= seq![(MARINE, 8), (MARAUDER, 4), (MEDIVAC, 2)]);
        Some(v)
    } else if str_is(m, "enemy mech army") || str_is(m, "enemy mech") {
        let v: Vec<(u32, u32)> = vec![(SIEGE_TANK, 3), (THOR, 2), (CYCLONE, 2), (HELLION, 4)];
        assert(v@ =~= seq![(SIEGE_TANK, 3), (THOR, 2), (CYCLONE, 2), (HELLION, 4)]);
        Some(v)
    } else if str_is(m, "enemy marine push") {
        let v: Vec<(u32, u32)> = vec![(MARINE, 12), (MEDIVAC, 1)];
        assert(v@ =~= seq![(MARINE, 12), (MEDIVAC, 1)]);
        Some(v)
    } else if str_is(m, "enemy tank push") {
        let v: Vec<(u32, u32)> = vec![(SIEGE_TANK, 4), (MARINE, 6)];
        assert(v@ =~= seq![(SIEGE_TANK, 4), (MARINE, 6)]);
        Some(v)
    } else if str_is(m, "enemy all in") {
        let v: Vec<(u32, u32)> = vec![(MARINE, 10), (MARAUDER, 6), (SIEGE_TANK, 2), (MEDIVAC, 2)];
        assert(v@ =~= seq![(MARINE, 10), (MARAUDER, 6), (SIEGE_TANK, 2), (MEDIVAC, 2)]);
        Some(v)
    } else if str_is(m, "enemy massive") {
        let v: Vec<(u32, u32)> = vec![(MARINE, 20), (MARAUDER, 10), (SIEGE_TANK, 4), (MEDIVAC, 3)];
        assert(v@ =~= seq![(MARINE, 20), (MARAUDER, 10), (SIEGE_TANK, 4), (MEDIVAC, 3)]);
        Some(v)
    } else if str_is(m, "enemy ling flood") || str_is(m, "enemy zerglings") {
        let v: Vec<(u32, u32)> = vec![(ZERGLING, 24)];
        assert(v@ =~= seq![(ZERGLING, 24)]);
        Some(v)
    } else if str_is(m, "enemy roach push") || str_is(m, "enemy roaches") {
        let v: Vec<(u32, u32)> = vec![(ROACH, 12)];
        assert(v@ =~= seq![(ROACH, 12)]);
        Some(v)
    } else if str_is(m, "enemy hydra push") || str_is(m, "enemy hydras") {
        let v: Vec<(u32, u32)> = vec![(HYDRALISK, 8)];
        assert(v@ =~= seq![(HYDRALISK, 8)]);
        Some(v)
    } else if str_is(m, "enemy bane bust") || str_is(m, "enemy banelings") {
        let v: Vec<(u32, u32)> = vec![(ZERGLING, 12), (BANELING, 8)];
        assert(v@ =~= seq![(ZERGLING, 12), (BANELING, 8)]);
        Some(v)
    } else if str_is(m, "enemy roach hydra") {
        let v: Vec<(u32, u32)> = vec![(ROACH, 6), (HYDRALISK, 6)];
        assert(v@ =~= seq![(ROACH, 6), (HYDRALISK, 6)]);
        Some(v)
    } else if str_is(m, "enemy muta harass") || str_is(m, "enemy mutas") {
        let v: Vec<(u32, u32)> = vec![(MUTALISK, 8)];
        assert(v@ =~= seq![(MUTALISK, 8)]);
        Some(v)
    } else if str_is(m, "enemy zerg army") {
        let v: Vec<(u32, u32)> = vec![(ROACH, 8), (HYDRALISK, 6), (ZERGLING, 12)];
        assert(v@ =~= seq![(ROACH, 8), (HYDRALISK, 6), (ZERGLING, 12)]);
        Some(v)
    } else if str_is(m, "enemy zealot rush") || str_is(m, "enemy zealots") {
        let v: Vec<(u32, u32)> = vec![(ZEALOT, 8)];
        assert(v@ =~= seq![(ZEALOT, 8)]);
        Some(v)
    } else if str_is(m, "enemy stalker push") || str_is(m, "enemy stalkers") {
        let v: Vec<(u32, u32)> = vec![(STALKER, 8)];
        assert(v@ =~= seq![(STALKER, 8)]);
        Some(v)
    } else if str_is(m, "enemy protoss army") || str_is(m, "enemy toss army") {
        let v: Vec<(u32, u32)> = vec![(STALKER, 6), (ZEALOT, 4), (IMMORTAL, 2)];
        assert(v@ =~= seq![(STALKER, 6), (ZEALOT, 4), (IMMORTAL, 2)]);
        Some(v)
    } else if str_is(m, "enemy carrier rush") || str_is(m, "enemy carriers") {
        let v: Vec<(u32, u32)> = vec![(CARRIER, 3)];
        assert(v@ =~= seq![(CARRIER, 3)]);
        Some(v)
    } else if str_is(m, "enemy void rays") || str_is(m, "enemy voids") {
        let v: Vec<(u32, u32)> = vec![(VOID_RAY, 5)];
        assert(v@ =~= seq![(VOID_RAY, 5)]);
        Some(v)
    } else if str_is(m, "enemy colossus") {
        let v: Vec<(u32, u32)> = vec![(COLOSSUS, 2), (STALKER, 6), (ZEALOT, 4)];
        assert(v@ =~= seq![(COLOSSUS, 2), (STALKER, 6), (ZEALOT, 4)]);
        Some(v)
    } else if str_is(m, "enemy dt rush") || str_is(m, "enemy dark templars") {
        let v: Vec<(u32, u32)> = vec![(DARK_TEMPLAR, 4)];
        assert(v@ =~= seq![(DARK_TEMPLAR, 4)]);
        Some(v)
    } else if str_is(m, "enemy worker rush") || str_is(m, "enemy probes") {
        let v: Vec<(u32, u32)> = vec![(PROBE, 12)];
        assert(v@ =~= seq![(PROBE, 12)]);
        Some(v)
    } else {
        None
    }
}

/// A decimal number: the digits' value.
pub open spec fn decimal_value(d: Seq<char>) -> int
    decreases d.len(),
{
    if d.len() == 0 {
        0
    } else {
        decimal_value(d.drop_last()) * 10 + (d.last() as int - '0' as int)
    }
}

pub open spec fn all_digits(d: Seq<char>) -> bool {
    forall|i: int| 0 <= i < d.len() ==> '0' <= #[trigger] d[i] <= '9'
}

/// What reading a `u32` from text gives: an optional `+`, then one or more
/// decimal digits whose value fits.
pub open spec fn parsed_u32(s: Seq<char>) -> Option<u32> {
    let d = if s.len() > 0 && s[0] == '+' {
        s.drop_first()
    } else {
        s
    };
    if d.len() > 0 && all_digits(d) && decimal_value(d) <= u32::MAX {
        Some(decimal_value(d) as u32)
    } else {
        None
    }
}

proof fn lemma_decimal_nonneg(d: Seq<char>)
    requires
        all_digits(d),
    ensures
        decimal_value(d) >= 0,
    decreases d.len(),
{
    if d.len() > 0 {
        assert(all_digits(d.drop_last())) by {
            assert forall|i: int| 0 <= i < d.drop_last().len() implies '0' <= #[trigger] d.drop_last()[i] <= '9' by {
                assert(d.drop_last()[i] == d[i]);
            }
        }
        lemma_decimal_nonneg(d.drop_last());
        assert('0' <= d[d.len() - 1]);
    }
}

/// A longer run of digits is worth at least as much as its start.
proof fn lemma_decimal_grows(d: Seq<char>, k: int)
    requires
        all_digits(d),
        0 <= k <= d.len(),
    ensures
        decimal_value(d) >= decimal_value(d.take(k)),
    decreases d.len(),
{
    if k < d.len() {
        let p = d.drop_last();
        assert(all_digits(p)) by {
            assert forall|i: int| 0 <= i < p.len() implies '0' <= #[trigger] p[i] <= '9' by {
                assert(p[i] == d[i]);
            }
        }
        lemma_decimal_grows(p, k);
        assert(p.take(k) =~= d.take(k));
        lemma_decimal_nonneg(p);
        assert('0' <= d[d.len() - 1]);
    } else {
        assert(d.take(k) =~= d);
    }
}

/// Reads a `u32` from text as `str::parse` does: an optional `+`, then
/// decimal digits, and no overflow.
fn parse_u32(s: &str) -> (r: Option<u32>)
    ensures
        r == parsed_u32(s@),
{
    let n = s.unicode_len();
    let mut start: usize = 0;
    if n > 0 && s.get_char(0) == '+' {
        start = 1;
    }
    let ghost d = if s@.len() > 0 && s@[0] == '+' {
        s@.drop_first()
    } else {
        s@
    };
    assert(d =~= s@.subrange(start as int, n as int));
    if start >= n {
        return None;
    }
    let mut v: u64 = 0;
    let mut i: usize = start;
    while i < n
        invariant
            start <= i <= n,
            n == s@.len(),
            d == s@.subrange(start as int, n as int),
            parsed_u32(s@) == (if d.len() > 0 && all_digits(d) && decimal_value(d) <= u32::MAX {
                Some(decimal_value(d) as u32)
            } else {
                None
            }),
            all_digits(d.take(i - start)),
            v == decimal_value(d.take(i - start)),
            v <= u32::MAX,
        decreases n - i,
    {
        let c = s.get_char(i);
        assert(d[i - start] == c);
        if c < '0' || c > '9' {
            assert(!all_digits(d));
            return None;
        }
        let digit: u64 = (c as u32 - '0' as u32) as u64;
        proof {
            assert(d.take(i - start + 1).drop_last() =~= d.take(i - start));
            assert(all_digits(d.take(i - start + 1))) by {
                assert forall|j: int| 0 <= j < d.take(i - start + 1).len() implies '0' <= #[trigger] d.take(i - start + 1)[j] <= '9' by {
                    if j < i - start {
                        assert(d.take(i - start + 1)[j] == d.take(i - start)[j]);
                    }
                }
            }
        }
        let nv: u64 = v * 10 + digit;
        assert(nv == decimal_value(d.take(i - start + 1)));
        if nv > u32::MAX as u64 {
            proof {
                if all_digits(d) {
                    lemma_decimal_grows(d, i - start + 1);
                }
            }
            return None;
        }
        v = nv;
        i += 1;
    }
    assert(d.take(n - start) =~= d);
    Some(v as u32)
}

/// What `str::to_lowercase` gives for a text.
pub uninterp spec fn lowercase_of(s: Seq<char>) -> Seq<char>;

/// Lowercases a text with `str::to_lowercase`; its result is named, not stated.
#[verifier::external_body]
fn lowercase(s: &str) -> (r: String)
    ensures
        r@ == lowercase_of(s@),
{
    s.to_lowercase()
}

/// Unicode White_Space, which `char::is_whitespace` tests.
pub open spec fn is_white_space(c: char) -> bool {
    let n = c as u32;
    (0x09 <= n <= 0x0d) || n == 0x20 || n == 0x85 || n == 0xa0 || n == 0x1680 || (0x2000 <= n <= 0x200a) || n
        == 0x2028 || n == 0x2029 || n == 0x202f || n == 0x205f || n == 0x3000
}

/// The words closed so far in a text, and the word still open at its end.
pub open spec fn words_and_rest(s: Seq<char>) -> (Seq<Seq<char>>, Seq<char>)
    decreases s.len(),
{
    if s.len() == 0 {
        (seq![], seq![])
    } else {
        let (ws, cur) = words_and_rest(s.drop_last());
        if is_white_space(s.last()) {
            if cur.len() > 0 {
                (ws.push(cur), seq![])
            } else {
                (ws, seq![])
            }
        } else {
            (ws, cur.push(s.last()))
        }
    }
}

/// The words `str::split_whitespace` finds in a text: the maximal runs of
/// characters that are not white space, in order.
pub open spec fn words_of(s: Seq<char>) -> Seq<Seq<char>> {
    let (ws, cur) = words_and_rest(s);
    if cur.len() > 0 {
        ws.push(cur)
    } else {
        ws
    }
}

pub open spec fn word_views(v: Seq<String>) -> Seq<Seq<char>> {
    v.map_values(|w: String| w@)
}

fn is_white_space_char(c: char) -> (r: bool)
    ensures
        r == is_white_space(c),
{
    let n = c as u32;
    (0x09 <= n && n <= 0x0d) || n == 0x20 || n == 0x85 || n == 0xa0 || n == 0x1680 || (0x2000 <= n && n <= 0x200a)
        || n == 0x2028 || n == 0x2029 || n == 0x202f || n == 0x205f || n == 0x3000
}

/// Splits a text at white space as `str::split_whitespace` does: the
/// maximal runs of characters outside Unicode White_Space, in order.
fn split_words(s: &str) -> (r: Vec<String>)
    ensures
        word_views(r@) == words_of(s@),
{
    let n = s.unicode_len();
    let mut out: Vec<String> = Vec::new();
    let mut start: usize = 0;
    let mut i: usize = 0;
    while i < n
        invariant
            start <= i <= n,
            n == s@.len(),
            words_and_rest(s@.take(i as int)) == (word_views(out@), s@.subrange(start as int, i as int)),
        decreases n - i,
    {
        let c = s.get_char(i);
        proof {
            assert(s@.take(i + 1).drop_last() =~= s@.take(i as int));
            assert(s@.take(i + 1).last() == c);
        }
        if is_white_space_char(c) {
            if start < i {
                let w = String::from_str(s.substring_char(start, i));
                let ghost before = out@;
                out.push(w);
                assert(word_views(out@) =~= word_views(before).push(s@.subrange(start as int, i as int)));
            } else {
                assert(s@.subrange(start as int, i as int).len() == 0);
            }
            start = i + 1;
            assert(s@.subrange(start as int, i + 1) =~= Seq::<char>::empty());
        } else {
            assert(s@.subrange(start as int, i + 1) =~= s@.subrange(start as int, i as int).push(c));
        }
        i += 1;
    }
    assert(s@.take(n as int) =~= s@);
    if start < n {
        let w = String::from_str(s.substring_char(start, n));
        let ghost before = out@;
        out.push(w);
        assert(word_views(out@) =~= word_views(before).push(s@.subrange(start as int, n as int)));
    }
    out
}

/// What a chat message asks for.
#[derive(Clone, Debug)]
pub enum ChatAction {
    /// Spawn an army for a player.
    SpawnArmy { player: u32, army: Vec<(u32, u32)> },
    /// Spawn units of one type for a player.
    Spawn { player: u32, unit: u32, count: u32 },
    /// An enemy spawn named a unit that does not exist.
    UnknownUnit(String),
    /// An enemy spawn named no unit.
    Nothing,
    /// Plain chat.
    Chat,
}

/// A chat action as values.
pub enum ChatActionView {
    SpawnArmy { player: u32, army: Seq<(u32, u32)> },
    Spawn { player: u32, unit: u32, count: u32 },
    UnknownUnit(Seq<char>),
    Nothing,
    Chat,
}

impl ChatAction {
    pub open spec fn view_of(&self) -> ChatActionView {
        match self {
            ChatAction::SpawnArmy { player, army } => ChatActionView::SpawnArmy { player: *player, army: army@ },
            ChatAction::Spawn { player, unit, count } => ChatActionView::Spawn {
                player: *player,
                unit: *unit,
                count: *count,
            },
            ChatAction::UnknownUnit(n) => ChatActionView::UnknownUnit(n@),
            ChatAction::Nothing => ChatActionView::Nothing,
            ChatAction::Chat => ChatActionView::Chat,
        }
    }
}

/// An enemy spawn from the message's words: the second word names the unit,
/// the third, when it reads as a number, how many (five otherwise).
pub open spec fn enemy_spawn_of(words: Seq<Seq<char>>) -> ChatActionView {
    if words.len() < 2 {
        ChatActionView::Nothing
    } else {
        let count = if words.len() >= 3 {
            match parsed_u32(words[2]) {
                Some(c) => c,
                None => 5,
            }
        } else {
            5
        };
        match unit_named(words[1]) {
            Some(u) => ChatActionView::Spawn { player: 2, unit: u, count },
            None => ChatActionView::UnknownUnit(words[1]),
        }
    }
}

/// Reads an enemy spawn from a message's words.
pub fn enemy_spawn(words: &Vec<String>) -> (r: ChatAction)
    ensures
        r.view_of() == enemy_spawn_of(word_views(words@)),
{
    if words.len() < 2 {
        return ChatAction::Nothing;
    }
    let count: u32 = if words.len() >= 3 {
        match parse_u32(words[2].as_str()) {
            Some(c) => c,
            None => 5,
        }
    } else {
        5
    };
    match get_unit_from_string(words[1].as_str()) {
        Some(u) => ChatAction::Spawn { player: 2, unit: u, count },
        None => ChatAction::UnknownUnit(words[1].clone()),
    }
}

/// What a lowercased message asks for: a named army; else, after "enemy ",
/// the unit the next word names; else a unit the whole message names, one
/// of it; else it is plain chat. Enemy spawns go to player two, the others
/// to the sender.
pub open spec fn chat_action_of(m: Seq<char>, sender: u32) -> ChatActionView {
    let enemy = "enemy "@.len() <= m.len() && m.subrange(0, "enemy "@.len() as int) == "enemy "@;
    let player = if enemy {
        2
    } else {
        sender
    };
    match army_named(m) {
        Some(a) => ChatActionView::SpawnArmy { player, army: a },
        None => if enemy {
            enemy_spawn_of(words_of(m))
        } else {
            match unit_named(m) {
                Some(u) => ChatActionView::Spawn { player, unit: u, count: 1 },
                None => ChatActionView::Chat,
            }
        },
    }
}

/// Reads a lowercased chat message.
pub fn chat_command(m: &str, sender: u32) -> (r: ChatAction)
    ensures
        r.view_of() == chat_action_of(m@, sender),
{
    let enemy = starts_with(m, "enemy ");
    let player = if enemy {
        2
    } else {
        sender
    };
    match get_army_composition(m) {
        Some(army) => ChatAction::SpawnArmy { player, army },
        None => {
            if enemy {
                let words = split_words(m);
                enemy_spawn(&words)
            } else {
                match get_unit_from_string(m) {
                    Some(u) => ChatAction::Spawn { player, unit: u, count: 1 },
                    None => ChatAction::Chat,
                }
            }
        },
    }
}

/// Reads a chat message as a test command, after lowercasing it.
pub fn debug_spawn_unit(message: &str, sender: u32) -> (r: ChatAction)
    ensures
        r.view_of() == chat_action_of(lowercase_of(message@), sender),
{
    let m = lowercase(message);
    chat_command(m.as_str(), sender)
}

} // verus!
