//! Supply depots that open and close for our army, bunkers that call
//! infantry in, missile turrets at the bases, the next refinery, and the
//! building grid around the start location.
use vstd::prelude::*;
use crate::seq_util::{first_index, keep, lemma_first_index_found, lemma_first_index_none};
use crate::unit_types::is_bunker_bio;

verus! {

/// A supply depot and whether an enemy ground unit is within eight.
#[derive(Clone, Copy, Debug)]
pub struct Depot {
    pub tag: u64,
    pub is_ready: bool,
    pub lowered: bool,
    pub ground_enemy_near: bool,
}

#[derive(Clone, Copy, Debug, PartialEq, Eq, Structural)]
pub enum DepotCommand {
    Lower(u64),
    Raise(u64),
}

pub open spec fn lowers(ds: Seq<Depot>) -> Seq<DepotCommand>
    decreases ds.len(),
{
    if ds.len() == 0 {
        seq![]
    } else {
        lowers(ds.drop_last()) + if !ds.last().lowered && !ds.last().ground_enemy_near {
            seq![DepotCommand::Lower(ds.last().tag)]
        } else {
            seq![]
        }
    }
}

pub open spec fn raises(ds: Seq<Depot>) -> Seq<DepotCommand>
    decreases ds.len(),
{
    if ds.len() == 0 {
        seq![]
    } else {
        raises(ds.drop_last()) + if ds.last().lowered && ds.last().ground_enemy_near {
            seq![DepotCommand::Raise(ds.last().tag)]
        } else {
            seq![]
        }
    }
}

/// Opens the raised depots with no enemy ground unit near, then closes the
/// lowered ones that have one near.
pub fn supply_depots_control(ds: &Vec<Depot>) -> (r: Vec<DepotCommand>)
    ensures
        r@ == lowers(ds@) + raises(ds@),
{
    let mut out: Vec<DepotCommand> = Vec::new();
    let mut i: usize = 0;
    while i < ds.len()
        invariant
            i <= ds.len(),
            out@ == lowers(ds@.take(i as int)),
        decreases ds.len() - i,
    {
        proof {
            assert(ds@.take(i + 1).drop_last() =~= ds@.take(i as int));
        }
        let d = ds[i];
        let ghost before = out@;
        if !d.lowered && !d.ground_enemy_near {
            out.push(DepotCommand::Lower(d.tag));
        }
        assert(out@ =~= lowers(ds@.take(i + 1)));
        i += 1;
    }
    assert(ds@.take(ds.len() as int) =~= ds@);
    let ghost opened = out@;
    let mut k: usize = 0;
    while k < ds.len()
        invariant
            k <= ds.len(),
            out@ == opened + raises(ds@.take(k as int)),
        decreases ds.len() - k,
    {
        proof {
            assert(ds@.take(k + 1).drop_last() =~= ds@.take(k as int));
        }
        let d = ds[k];
        if d.lowered && d.ground_enemy_near {
            out.push(DepotCommand::Raise(d.tag));
        }
        assert(out@ =~= opened + raises(ds@.take(k + 1)));
        k += 1;
    }
    assert(ds@.take(ds.len() as int) =~= ds@);
    out
}

/// A depot never gets both orders in one step.
pub proof fn depot_orders_agree(ds: Seq<Depot>, tag: u64)
    requires
        forall|i: int, j: int| 0 <= i < j < ds.len() ==> #[trigger] ds[i].tag != #[trigger] ds[j].tag,
    ensures
        !(lowers(ds).contains(DepotCommand::Lower(tag)) && raises(ds).contains(DepotCommand::Raise(tag))),
{
    lemma_lowers_named(ds, tag);
    lemma_raises_named(ds, tag);
}

proof fn lemma_lowers_named(ds: Seq<Depot>, tag: u64)
    ensures
        lowers(ds).contains(DepotCommand::Lower(tag)) ==> exists|k: int| 0 <= k < ds.len() && #[trigger] ds[k].tag == tag
            && !ds[k].lowered,
    decreases ds.len(),
{
    if ds.len() > 0 {
        lemma_lowers_named(ds.drop_last(), tag);
        let a = lowers(ds.drop_last());
        if lowers(ds).contains(DepotCommand::Lower(tag)) {
            let i = choose|i: int| 0 <= i < lowers(ds).len() && lowers(ds)[i] == DepotCommand::Lower(tag);
            if i < a.len() {
                assert(a[i] == lowers(ds)[i]);
                let k = choose|k: int| 0 <= k < ds.drop_last().len() && #[trigger] ds.drop_last()[k].tag == tag
                    && !ds.drop_last()[k].lowered;
                assert(ds[k] == ds.drop_last()[k]);
            } else {
                assert(ds[ds.len() - 1].tag == tag);
            }
        }
    }
}

proof fn lemma_raises_named(ds: Seq<Depot>, tag: u64)
    ensures
        raises(ds).contains(DepotCommand::Raise(tag)) ==> exists|k: int| 0 <= k < ds.len() && #[trigger] ds[k].tag == tag
            && ds[k].lowered,
    decreases ds.len(),
{
    if ds.len() > 0 {
        lemma_raises_named(ds.drop_last(), tag);
        let a = raises(ds.drop_last());
        if raises(ds).contains(DepotCommand::Raise(tag)) {
            let i = choose|i: int| 0 <= i < raises(ds).len() && raises(ds)[i] == DepotCommand::Raise(tag);
            if i < a.len() {
                assert(a[i] == raises(ds)[i]);
                let k = choose|k: int| 0 <= k < ds.drop_last().len() && #[trigger] ds.drop_last()[k].tag == tag
                    && ds.drop_last()[k].lowered;
                assert(ds[k] == ds.drop_last()[k]);
            } else {
                assert(ds[ds.len() - 1].tag == tag);
            }
        }
    }
}

/// An infantry unit of ours near a bunker (within fifteen).
#[derive(Clone, Copy, Debug)]
pub struct BioUnit {
    pub tag: u64,
    pub type_id: u32,
    pub is_ready: bool,
    /// The room it takes in a bunker.
    pub cargo_size: u32,
}

pub open spec fn alive_in(alive: Seq<u64>) -> spec_fn(u64) -> bool {
    |t: u64| alive.contains(t)
}

/// The requests after the nearby infantry, closest first, have been asked
/// in while room is left: each that fits takes its room, and is asked once.
pub open spec fn fill_bunker(reqs: Seq<u64>, cargo: u32, units: Seq<BioUnit>) -> (Seq<u64>, u32)
    decreases units.len(),
{
    if units.len() == 0 {
        (reqs, cargo)
    } else {
        let p = fill_bunker(reqs, cargo, units.drop_last());
        let u = units.last();
        if p.1 == 0 || !(is_bunker_bio(u.type_id) && u.is_ready) || u.cargo_size > p.1 {
            p
        } else {
            let c = (p.1 - u.cargo_size) as u32;
            if p.0.contains(u.tag) {
                (p.0, c)
            } else {
                (p.0.push(u.tag), c)
            }
        }
    }
}

/// The infantry a threatened bunker asks for: with no room left, the
/// requests as they were; else the requests of units still alive, then the
/// nearby infantry that fit.
pub open spec fn requested_bio(cargo_left: u32, requests: Seq<u64>, alive: Seq<u64>, nearby: Seq<BioUnit>) -> Seq<u64> {
    if cargo_left == 0 {
        requests
    } else {
        fill_bunker(keep(requests, alive_in(alive)), cargo_left, nearby).0
    }
}

/// Asks infantry into a threatened bunker. `nearby` holds our units within
/// fifteen of it, closest first; `alive` the tags of our units.
pub fn request_bio(cargo_left: u32, requests: &Vec<u64>, alive: &Vec<u64>, nearby: &Vec<BioUnit>) -> (r: Vec<u64>)
    ensures
        r@ == requested_bio(cargo_left, requests@, alive@, nearby@),
{
    if cargo_left == 0 {
        return requests.clone();
    }
    let mut reqs: Vec<u64> = Vec::new();
    let mut i: usize = 0;
    while i < requests.len()
        invariant
            i <= requests.len(),
            reqs@ == keep(requests@.take(i as int), alive_in(alive@)),
        decreases requests.len() - i,
    {
        proof {
            assert(requests@.take(i + 1).drop_last() =~= requests@.take(i as int));
        }
        if crate::army::vec_contains_u64(alive, requests[i]) {
            reqs.push(requests[i]);
        }
        i += 1;
    }
    assert(requests@.take(requests.len() as int) =~= requests@);
    let mut cargo = cargo_left;
    let ghost start = reqs@;
    let mut k: usize = 0;
    while k < nearby.len()
        invariant
            k <= nearby.len(),
            (reqs@, cargo) == fill_bunker(start, cargo_left, nearby@.take(k as int)),
        decreases nearby.len() - k,
    {
        proof {
            assert(nearby@.take(k + 1).drop_last() =~= nearby@.take(k as int));
        }
        let u = nearby[k];
        if cargo != 0 && is_bunker_bio(u.type_id) && u.is_ready && u.cargo_size <= cargo {
            cargo = cargo - u.cargo_size;
            if !crate::army::vec_contains_u64(&reqs, u.tag) {
                reqs.push(u.tag);
            }
        }
        k += 1;
    }
    assert(nearby@.take(nearby.len() as int) =~= nearby@);
    reqs
}

/// The requests never ask for more room than the bunker had: the room they
/// take, together with the room left, is what there was.
pub open spec fn room_taken(units: Seq<BioUnit>, reqs: Seq<u64>, cargo: u32) -> int
    decreases units.len(),
{
    if units.len() == 0 {
        0
    } else {
        let p = fill_bunker(reqs, cargo, units.drop_last());
        let u = units.last();
        room_taken(units.drop_last(), reqs, cargo) + if p.1 == 0 || !(is_bunker_bio(u.type_id) && u.is_ready)
            || u.cargo_size > p.1 {
            0int
        } else {
            u.cargo_size as int
        }
    }
}

/// Filling a bunker never takes more room than it has.
pub proof fn bunker_never_overfills(reqs: Seq<u64>, cargo: u32, units: Seq<BioUnit>)
    ensures
        room_taken(units, reqs, cargo) + fill_bunker(reqs, cargo, units).1 == cargo,
        fill_bunker(reqs, cargo, units).1 <= cargo,
    decreases units.len(),
{
    if units.len() > 0 {
        bunker_never_overfills(reqs, cargo, units.drop_last());
    }
}

/// A bunker as the step sees it.
#[derive(Clone, Debug)]
pub struct BunkerObservation {
    pub tag: u64,
    pub is_ready: bool,
    pub has_rally: bool,
    pub closest_base: Option<u64>,
    /// An enemy is within ten, counting its range.
    pub in_danger: bool,
    pub cargo_left: u32,
    /// The infantry it has asked for so far.
    pub requests: Vec<u64>,
    /// Our units within fifteen of it, closest first.
    pub nearby: Vec<BioUnit>,
}

/// What the bunkers do in a step.
pub struct BunkerStep {
    /// Bunkers that send their units to a base.
    pub rallies: Vec<(u64, u64)>,
    /// Bunkers out of danger, whose requests are dropped.
    pub cleared: Vec<u64>,
    /// The requests each threatened bunker works out.
    pub requested: Vec<(u64, Vec<u64>)>,
}

pub open spec fn bunker_rallies(bs: Seq<BunkerObservation>) -> Seq<(u64, u64)>
    decreases bs.len(),
{
    if bs.len() == 0 {
        seq![]
    } else {
        let b = bs.last();
        bunker_rallies(bs.drop_last()) + if b.is_ready && !b.has_rally && b.closest_base is Some {
            seq![(b.tag, b.closest_base->0)]
        } else {
            seq![]
        }
    }
}

pub open spec fn bunkers_cleared(bs: Seq<BunkerObservation>) -> Seq<u64>
    decreases bs.len(),
{
    if bs.len() == 0 {
        seq![]
    } else {
        let b = bs.last();
        bunkers_cleared(bs.drop_last()) + if b.is_ready && !b.in_danger {
            seq![b.tag]
        } else {
            seq![]
        }
    }
}

pub open spec fn bunkers_requesting(bs: Seq<BunkerObservation>, alive: Seq<u64>) -> Seq<(u64, Seq<u64>)>
    decreases bs.len(),
{
    if bs.len() == 0 {
        seq![]
    } else {
        let b = bs.last();
        bunkers_requesting(bs.drop_last(), alive) + if b.is_ready && b.in_danger {
            seq![(b.tag, requested_bio(b.cargo_left, b.requests@, alive, b.nearby@))]
        } else {
            seq![]
        }
    }
}

pub open spec fn requests_view(r: Seq<(u64, Vec<u64>)>) -> Seq<(u64, Seq<u64>)> {
    r.map_values(|p: (u64, Vec<u64>)| (p.0, p.1@))
}

/// The finished bunkers' step: each without a rally point sends its units to
/// the closest base; a threatened one asks infantry in, a safe one drops its
/// requests.
pub fn control_bunker(bs: &Vec<BunkerObservation>, alive: &Vec<u64>) -> (r: BunkerStep)
    ensures
        r.rallies@ == bunker_rallies(bs@),
        r.cleared@ == bunkers_cleared(bs@),
        requests_view(r.requested@) == bunkers_requesting(bs@, alive@),
{
    let mut rallies: Vec<(u64, u64)> = Vec::new();
    let mut cleared: Vec<u64> = Vec::new();
    let mut requested: Vec<(u64, Vec<u64>)> = Vec::new();
    let mut i: usize = 0;
    while i < bs.len()
        invariant
            i <= bs.len(),
            rallies@ == bunker_rallies(bs@.take(i as int)),
            cleared@ == bunkers_cleared(bs@.take(i as int)),
            requests_view(requested@) == bunkers_requesting(bs@.take(i as int), alive@),
        decreases bs.len() - i,
    {
        proof {
            assert(bs@.take(i + 1).drop_last() =~= bs@.take(i as int));
        }
        let b = &bs[i];
        let ghost r0 = rallies@;
        let ghost c0 = cleared@;
        let ghost q0 = requested@;
        if b.is_ready {
            if !b.has_rally {
                match b.closest_base {
                    Some(base) => rallies.push((b.tag, base)),
                    None => {},
                }
            }
            if b.in_danger {
                let asked = request_bio(b.cargo_left, &b.requests, alive, &b.nearby);
                requested.push((b.tag, asked));
            } else {
                cleared.push(b.tag);
            }
        }
        assert(rallies@ =~= bunker_rallies(bs@.take(i + 1)));
        assert(cleared@ =~= bunkers_cleared(bs@.take(i + 1)));
        assert(requests_view(requested@) =~= bunkers_requesting(bs@.take(i + 1), alive@)) by {
            assert(requests_view(requested@) =~= requests_view(q0) + (requests_view(requested@).subrange(
                q0.len() as int,
                requested@.len() as int,
            )));
        }
        i += 1;
    }
    assert(bs@.take(bs.len() as int) =~= bs@);
    BunkerStep { rallies, cleared, requested }
}

/// Where the bunker goes: on one base that is the start location, between
/// the ramp (or the way to the enemy) and that base; on two bases, towards
/// the map center from the newest one.
#[derive(Clone, Copy, Debug, PartialEq, Eq, Structural)]
pub enum BunkerSite {
    AtRamp(u64),
    TowardCenter(u64),
}

/// A base, and whether it stands on the start location.
#[derive(Clone, Copy, Debug)]
pub struct BaseAt {
    pub tag: u64,
    pub at_start: bool,
}

pub open spec fn is_newest(bases: Seq<BaseAt>, k: int) -> bool {
    0 <= k < bases.len() && (forall|j: int| 0 <= j < bases.len() ==> #[trigger] bases[j].tag <= bases[k].tag)
        && (forall|j: int| k < j < bases.len() ==> #[trigger] bases[j].tag < bases[k].tag)
}

/// Chooses the bunker's site from our bases.
pub fn find_bunker_placement(bases: &Vec<BaseAt>) -> (r: Option<BunkerSite>)
    ensures
        bases.len() == 1 ==> r == if bases[0].at_start {
            Some(BunkerSite::AtRamp(bases[0].tag))
        } else {
            None
        },
        bases.len() == 2 ==> exists|k: int| is_newest(bases@, k) && r == Some(BunkerSite::TowardCenter(bases@[k].tag)),
        bases.len() != 1 && bases.len() != 2 ==> r is None,
{
    if bases.len() == 1 {
        if bases[0].at_start {
            return Some(BunkerSite::AtRamp(bases[0].tag));
        }
        return None;
    }
    if bases.len() == 2 {
        let k: usize = if bases[1].tag >= bases[0].tag {
            1
        } else {
            0
        };
        assert(is_newest(bases@, k as int));
        return Some(BunkerSite::TowardCenter(bases[k].tag));
    }
    None
}

/// A base and whether a missile turret stands within thirteen of it.
#[derive(Clone, Copy, Debug)]
pub struct TurretBase {
    pub tag: u64,
    pub is_ready: bool,
    pub has_turret: bool,
}

pub open spec fn bases_without_turret(bs: Seq<TurretBase>) -> Seq<u64>
    decreases bs.len(),
{
    if bs.len() == 0 {
        seq![]
    } else {
        bases_without_turret(bs.drop_last()) + if bs.last().is_ready && !bs.last().has_turret {
            seq![bs.last().tag]
        } else {
            seq![]
        }
    }
}

/// The finished bases that get a missile turret this step, when turrets may
/// be built at all.
pub fn construct_missile_turrets(allowed: bool, bs: &Vec<TurretBase>) -> (r: Vec<u64>)
    ensures
        r@ == if allowed {
            bases_without_turret(bs@)
        } else {
            seq![]
        },
{
    let mut out: Vec<u64> = Vec::new();
    if !allowed {
        return out;
    }
    let mut i: usize = 0;
    while i < bs.len()
        invariant
            i <= bs.len(),
            out@ == bases_without_turret(bs@.take(i as int)),
        decreases bs.len() - i,
    {
        proof {
            assert(bs@.take(i + 1).drop_last() =~= bs@.take(i as int));
        }
        if bs[i].is_ready && !bs[i].has_turret {
            out.push(bs[i].tag);
        }
        assert(out@ =~= bases_without_turret(bs@.take(i + 1)));
        i += 1;
    }
    assert(bs@.take(bs.len() as int) =~= bs@);
    out
}

/// A base and the free geyser the game offers next to it, with the gas it
/// holds when the game says.
#[derive(Clone, Copy, Debug)]
pub struct GasBase {
    pub is_ready: bool,
    pub geyser: Option<(u64, Option<u32>)>,
}

pub open spec fn geyser_tag(b: GasBase) -> u64 {
    match b.geyser {
        Some(g) => g.0,
        None => 0,
    }
}

pub open spec fn with_gas() -> spec_fn(GasBase) -> bool {
    |b: GasBase| has_gas(b)
}

pub open spec fn accepted() -> spec_fn(bool) -> bool {
    |b: bool| b
}

pub open spec fn has_gas(b: GasBase) -> bool {
    b.is_ready && (b.geyser matches Some(g) && (g.1 matches Some(v) && v > 0))
}

/// The geyser for the next refinery: none while it is unaffordable, one is
/// ordered, or no barracks exists; else that of the first finished base
/// whose free geyser still holds gas.
pub fn construct_refinery(can_afford: bool, pending: usize, has_barracks: bool, bases: &Vec<GasBase>) -> (r: Option<u64>)
    ensures
        r == if !can_afford || pending > 0 || !has_barracks {
            None
        } else {
            match first_index(bases@, with_gas()) {
                Some(k) => Some(geyser_tag(bases@[k])),
                None => None,
            }
        },
{
    if !can_afford || pending > 0 || !has_barracks {
        return None;
    }
    let mut i: usize = 0;
    while i < bases.len()
        invariant
            i <= bases.len(),
            can_afford && pending == 0 && has_barracks,
            forall|j: int| 0 <= j < i ==> !has_gas(#[trigger] bases@[j]),
        decreases bases.len() - i,
    {
        let b = bases[i];
        if b.is_ready {
            match b.geyser {
                Some(g) => match g.1 {
                    Some(v) => {
                        if v > 0 {
                            proof {
                                lemma_first_index_found(bases@, with_gas(), i as int);
                                assert(geyser_tag(bases@[i as int]) == g.0);
                            }
                            return Some(g.0);
                        }
                    },
                    None => {},
                },
                None => {},
            }
        }
        i += 1;
    }
    proof {
        lemma_first_index_none(bases@, with_gas());
    }
    None
}

/// The grid spots in one column, from the bottom, leaving the middle
/// corridor free.
pub open spec fn grid_column(x: int, j: nat) -> Seq<(i32, i32)>
    decreases 17 - j,
{
    if j >= 17 {
        seq![]
    } else {
        let y = -25 + 3 * j;
        (if -2 < x < 2 || -2 < y < 2 {
            seq![]
        } else {
            seq![(x as i32, y as i32)]
        }) + grid_column(x, j + 1)
    }
}

/// The grid spots from column `k` on, left to right.
pub open spec fn grid_from(k: nat) -> Seq<(i32, i32)>
    decreases 8 - k,
{
    if k >= 8 {
        seq![]
    } else {
        grid_column(-25 + 7 * k, 0) + grid_from(k + 1)
    }
}

/// The building grid around the start location, in the order it is searched:
/// columns every seven from -25, rows every three from -25, short of 25, with
/// a corridor through the middle.
pub open spec fn grid_offsets() -> Seq<(i32, i32)> {
    grid_from(0)
}

/// Lists the building grid's spots, relative to the start location.
pub fn grid_spots() -> (r: Vec<(i32, i32)>)
    ensures
        r@ == grid_offsets(),
{
    let mut out: Vec<(i32, i32)> = Vec::new();
    let mut k: u32 = 0;
    while k < 8
        invariant
            k <= 8,
            out@ + grid_from(k as nat) == grid_offsets(),
            out@.len() <= 17 * k,
        decreases 8 - k,
    {
        let x: i32 = -25 + 7 * (k as i32);
        let mut j: u32 = 0;
        while j < 17
            invariant
                k < 8,
                j <= 17,
                x == -25 + 7 * k,
                out@ + grid_column(x as int, j as nat) + grid_from((k + 1) as nat) == grid_offsets(),
                out@.len() <= 17 * k + j,
            decreases 17 - j,
        {
            let y: i32 = -25 + 3 * (j as i32);
            let ghost before = out@;
            if !(-2 < x && x < 2) && !(-2 < y && y < 2) {
                out.push((x, y));
            }
            assert(out@ + grid_column(x as int, (j + 1) as nat) =~= before + grid_column(x as int, j as nat));
            assert(out@ + grid_column(x as int, (j + 1) as nat) + grid_from((k + 1) as nat) =~= before + grid_column(
                x as int,
                j as nat,
            ) + grid_from((k + 1) as nat));
            j += 1;
        }
        assert(grid_column(x as int, 17) =~= Seq::<(i32, i32)>::empty());
        assert(out@ + grid_from((k + 1) as nat) =~= out@ + grid_column(x as int, 17) + grid_from((k + 1) as nat));
        k += 1;
    }
    assert(grid_from(8) =~= Seq::<(i32, i32)>::empty());
    assert(out@ =~= out@ + grid_from(8));
    out
}

/// The first spot of the grid that the game accepts for a production
/// structure with room for its add-on. `valid` says, spot by spot in the
/// grid's order, whether the game accepts it.
pub fn get_placement_on_grid(valid: &Vec<bool>) -> (r: Option<(i32, i32)>)
    ensures
        r == match first_index(valid@.take(if valid@.len() <= grid_offsets().len() { valid@.len() as int } else { grid_offsets().len() as int }), accepted()) {
            Some(k) => Some(grid_offsets()[k]),
            None => None,
        },
{
    let spots = grid_spots();
    let n: usize = if valid.len() <= spots.len() {
        valid.len()
    } else {
        spots.len()
    };
    let ghost pre = valid@.take(n as int);
    assert(pre == valid@.take(
        if valid@.len() <= grid_offsets().len() {
            valid@.len() as int
        } else {
            grid_offsets().len() as int
        },
    ));
    let mut i: usize = 0;
    while i < n
        invariant
            i <= n,
            n <= valid.len(),
            n <= spots@.len(),
            spots@ == grid_offsets(),
            pre == valid@.take(n as int),
            pre == valid@.take(
                if valid@.len() <= grid_offsets().len() {
                    valid@.len() as int
                } else {
                    grid_offsets().len() as int
                },
            ),
            forall|j: int| 0 <= j < i ==> !(#[trigger] valid@[j]),
        decreases n - i,
    {
        if valid[i] {
            proof {
                assert forall|j: int| 0 <= j < i implies !(#[trigger] pre[j]) by {
                    assert(pre[j] == valid@[j]);
                }
                assert(pre[i as int] == valid@[i as int]);
                lemma_first_index_found(pre, accepted(), i as int);
                assert(spots@[i as int] == grid_offsets()[i as int]);
            }
            return Some(spots[i]);
        }
        i += 1;
    }
    proof {
        assert forall|j: int| 0 <= j < pre.len() implies !(#[trigger] pre[j]) by {
            assert(pre[j] == valid@[j]);
        }
        lemma_first_index_none(pre, accepted());
    }
    None
}

pub open spec fn micro_lowers(ds: Seq<Depot>) -> Seq<DepotCommand>
    decreases ds.len(),
{
    if ds.len() == 0 {
        seq![]
    } else {
        micro_lowers(ds.drop_last()) + if ds.last().lowered && ds.last().ground_enemy_near {
            seq![DepotCommand::Lower(ds.last().tag)]
        } else {
            seq![]
        }
    }
}

pub open spec fn micro_raises(ds: Seq<Depot>) -> Seq<DepotCommand>
    decreases ds.len(),
{
    if ds.len() == 0 {
        seq![]
    } else {
        micro_raises(ds.drop_last()) + if !ds.last().lowered && ds.last().is_ready && !ds.last().ground_enemy_near {
            seq![DepotCommand::Raise(ds.last().tag)]
        } else {
            seq![]
        }
    }
}

/// The older depot step: a lowered depot with an enemy ground unit near is
/// told to lower, then each finished raised depot with none near is told to
/// raise.
pub fn depot_micro(ds: &Vec<Depot>) -> (r: Vec<DepotCommand>)
    ensures
        r@ == micro_lowers(ds@) + micro_raises(ds@),
{
    let mut out: Vec<DepotCommand> = Vec::new();
    let mut i: usize = 0;
    while i < ds.len()
        invariant
            i <= ds.len(),
            out@ == micro_lowers(ds@.take(i as int)),
        decreases ds.len() - i,
    {
        proof {
            assert(ds@.take(i + 1).drop_last() =~= ds@.take(i as int));
        }
        let d = ds[i];
        if d.lowered && d.ground_enemy_near {
            out.push(DepotCommand::Lower(d.tag));
        }
        assert(out@ =~= micro_lowers(ds@.take(i + 1)));
        i += 1;
    }
    assert(ds@.take(ds.len() as int) =~= ds@);
    let ghost first = out@;
    let mut k: usize = 0;
    while k < ds.len()
        invariant
            k <= ds.len(),
            out@ == first + micro_raises(ds@.take(k as int)),
        decreases ds.len() - k,
    {
        proof {
            assert(ds@.take(k + 1).drop_last() =~= ds@.take(k as int));
        }
        let d = ds[k];
        if !d.lowered && d.is_ready && !d.ground_enemy_near {
            out.push(DepotCommand::Raise(d.tag));
        }
        assert(out@ =~= first + micro_raises(ds@.take(k + 1)));
        k += 1;
    }
    assert(ds@.take(ds.len() as int) =~= ds@);
    out
}

/// An enemy near a bunker (within twenty).
#[derive(Clone, Copy, Debug)]
pub struct BunkerEnemy {
    pub tag: u64,
    pub type_id: u32,
    pub health: Option<u32>,
}

/// A finished bunker as the older bunker step sees it.
#[derive(Clone, Debug)]
pub struct BunkerMicroView {
    pub tag: u64,
    pub cargo_taken: Option<u32>,
    pub enemies: Vec<BunkerEnemy>,
}

pub open spec fn counted_enemy(e: BunkerEnemy) -> bool {
    !crate::unit_types::is_priority_zero(e.type_id)
}

pub open spec fn has_counted_enemy(es: Seq<BunkerEnemy>) -> bool {
    exists|i: int| 0 <= i < es.len() && counted_enemy(#[trigger] es[i])
}

/// The target with the least health among the counted enemies. As written
/// the pick starts empty and only ever replaces a pick it already has, so it
/// stays empty.
pub fn lowest_health_target(es: &Vec<BunkerEnemy>) -> (r: Option<u64>)
    ensures
        r is None,
{
    let mut lowest: Option<BunkerEnemy> = None;
    let mut i: usize = 0;
    while i < es.len()
        invariant
            i <= es.len(),
            lowest is None,
        decreases es.len() - i,
    {
        let e = es[i];
        if !crate::unit_types::is_priority_zero(e.type_id) {
            match lowest {
                Some(t) => match (t.health, e.health) {
                    (Some(th), Some(eh)) => {
                        if eh < th {
                            lowest = Some(t);
                        }
                    },
                    _ => {},
                },
                None => {},
            }
        }
        i += 1;
    }
    match lowest {
        Some(t) => Some(t.tag),
        None => None,
    }
}

/// The bunkers that unload: those holding units with no counted enemy near
/// while the army attacks.
pub open spec fn unloading(bs: Seq<BunkerMicroView>, attacking: bool) -> Seq<u64>
    decreases bs.len(),
{
    if bs.len() == 0 {
        seq![]
    } else {
        let b = bs.last();
        unloading(bs.drop_last(), attacking) + if (b.cargo_taken matches Some(c) && c > 0) && !has_counted_enemy(
            b.enemies@,
        ) && attacking {
            seq![b.tag]
        } else {
            seq![]
        }
    }
}

/// The older bunker step: a bunker holding units unloads when no counted
/// enemy is near and the army attacks; otherwise, with enemies near, it
/// would attack the weakest, which is never picked. Returns the bunkers to
/// unload.
pub fn bunker_micro(bs: &Vec<BunkerMicroView>, attacking: bool) -> (r: Vec<u64>)
    ensures
        r@ == unloading(bs@, attacking),
{
    let mut out: Vec<u64> = Vec::new();
    let mut i: usize = 0;
    while i < bs.len()
        invariant
            i <= bs.len(),
            out@ == unloading(bs@.take(i as int), attacking),
        decreases bs.len() - i,
    {
        proof {
            assert(bs@.take(i + 1).drop_last() =~= bs@.take(i as int));
        }
        let b = &bs[i];
        let mut any = false;
        let mut j: usize = 0;
        while j < b.enemies.len()
            invariant
                j <= b.enemies.len(),
                any == exists|k: int| 0 <= k < j && counted_enemy(#[trigger] b.enemies@[k]),
            decreases b.enemies.len() - j,
        {
            if !crate::unit_types::is_priority_zero(b.enemies[j].type_id) {
                any = true;
            }
            j += 1;
        }
        let loaded = match b.cargo_taken {
            Some(c) => c > 0,
            None => false,
        };
        if loaded && !any && attacking {
            out.push(b.tag);
        }
        assert(out@ =~= unloading(bs@.take(i + 1), attacking));
        i += 1;
    }
    assert(bs@.take(bs.len() as int) =~= bs@);
    out
}

} // verus!
