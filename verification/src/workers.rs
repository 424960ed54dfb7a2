//! Spreading workers over minerals and gas: which bases and geysers lack
//! workers, which have too many, and where each idle worker goes.
use vstd::prelude::*;

verus! {

/// Game loops between two rounds of spreading when no worker is idle.
pub const DISTRIBUTION_DELAY: u32 = 8;

/// Whether workers are spread in this step: only with workers, and, when none
/// is idle, no sooner than the delay after the last round. The last round's
/// loop moves to now when they are.
pub fn should_distribute(last_loop: &mut u32, game_loop: u32, has_workers: bool, has_idle: bool) -> (r: bool)
    ensures
        r == (has_workers && (has_idle || old(last_loop)@ as int + DISTRIBUTION_DELAY as int <= game_loop as int)),
        r ==> *final(last_loop) == game_loop,
        !r ==> *final(last_loop) == *old(last_loop),
{
    if !has_workers {
        return false;
    }
    if !has_idle && (*last_loop as u64) + (DISTRIBUTION_DELAY as u64) > game_loop as u64 {
        return false;
    }
    *last_loop = game_loop;
    true
}

/// A town hall or refinery and its workers.
#[derive(Clone, Copy, Debug)]
pub struct HarvestSite {
    pub tag: u64,
    pub assigned: u32,
    pub ideal: u32,
}

/// The tags of the sites short of workers, each once, in order.
pub open spec fn deficit_tags(s: Seq<HarvestSite>) -> Seq<u64>
    decreases s.len(),
{
    if s.len() == 0 {
        seq![]
    } else {
        let prev = deficit_tags(s.drop_last());
        if s.last().assigned < s.last().ideal && !prev.contains(s.last().tag) {
            prev.push(s.last().tag)
        } else {
            prev
        }
    }
}

/// Sites with too many workers, and how many to take off each.
pub open spec fn overflow_of(s: Seq<HarvestSite>) -> Seq<(u64, u32)>
    decreases s.len(),
{
    if s.len() == 0 {
        seq![]
    } else {
        overflow_of(s.drop_last()) + if s.last().assigned > s.last().ideal {
            seq![(s.last().tag, (s.last().assigned - s.last().ideal) as u32)]
        } else {
            seq![]
        }
    }
}

/// Whether a list of tags holds a tag.
fn has_tag(v: &Vec<u64>, x: u64) -> (r: bool)
    ensures
        r == v@.contains(x),
{
    let mut i: usize = 0;
    while i < v.len()
        invariant
            i <= v.len(),
            forall|j: int| 0 <= j < i ==> v@[j] != x,
        decreases v.len() - i,
    {
        if v[i] == x {
            assert(v@[i as int] == x);
            return true;
        }
        i += 1;
    }
    false
}

/// The sites short of workers. A site asks for workers once, however many it lacks.
pub fn deficit_sites(sites: &Vec<HarvestSite>) -> (r: Vec<u64>)
    ensures
        r@ == deficit_tags(sites@),
{
    let mut out: Vec<u64> = Vec::new();
    let mut i: usize = 0;
    while i < sites.len()
        invariant
            i <= sites.len(),
            out@ == deficit_tags(sites@.take(i as int)),
        decreases sites.len() - i,
    {
        proof {
            assert(sites@.take(i + 1).drop_last() =~= sites@.take(i as int));
        }
        let s = sites[i];
        if s.assigned < s.ideal && !has_tag(&out, s.tag) {
            out.push(s.tag);
        }
        i += 1;
    }
    assert(sites@.take(sites.len() as int) =~= sites@);
    out
}

/// The sites with too many workers, with the surplus of each.
pub fn overflow_sites(sites: &Vec<HarvestSite>) -> (r: Vec<(u64, u32)>)
    ensures
        r@ == overflow_of(sites@),
{
    let mut out: Vec<(u64, u32)> = Vec::new();
    let mut i: usize = 0;
    while i < sites.len()
        invariant
            i <= sites.len(),
            out@ == overflow_of(sites@.take(i as int)),
        decreases sites.len() - i,
    {
        proof {
            assert(sites@.take(i + 1).drop_last() =~= sites@.take(i as int));
        }
        let s = sites[i];
        if s.assigned > s.ideal {
            out.push((s.tag, s.assigned - s.ideal));
        }
        i += 1;
    }
    assert(sites@.take(sites.len() as int) =~= sites@);
    out
}

/// `a` followed by the tags of `b` that are not yet there, each once.
pub open spec fn merged(a: Seq<u64>, b: Seq<u64>) -> Seq<u64>
    decreases b.len(),
{
    if b.len() == 0 {
        a
    } else {
        let prev = merged(a, b.drop_last());
        if prev.contains(b.last()) {
            prev
        } else {
            prev.push(b.last())
        }
    }
}

/// Adds more workers to the idle ones, each worker once.
pub fn merge_idle(idle: &Vec<u64>, extra: &Vec<u64>) -> (r: Vec<u64>)
    ensures
        r@ == merged(idle@, extra@),
{
    let mut out: Vec<u64> = idle.clone();
    let mut i: usize = 0;
    while i < extra.len()
        invariant
            i <= extra.len(),
            out@ == merged(idle@, extra@.take(i as int)),
        decreases extra.len() - i,
    {
        proof {
            assert(extra@.take(i + 1).drop_last() =~= extra@.take(i as int));
        }
        if !has_tag(&out, extra[i]) {
            out.push(extra[i]);
        }
        i += 1;
    }
    assert(extra@.take(extra.len() as int) =~= extra@);
    out
}

/// An idle worker, with the sites short of workers ordered by its distance to them.
#[derive(Clone, Debug)]
pub struct IdleWorker {
    pub tag: u64,
    /// The worker has no orders at all (it may also be idle because it was
    /// taken off an oversaturated site).
    pub is_idle: bool,
    /// Places in the list of geysers short of workers, nearest first.
    pub geysers_by_distance: Vec<usize>,
    /// Places in the list of bases short of workers, nearest first.
    pub bases_by_distance: Vec<usize>,
    /// The nearest mineral field next to one of our bases.
    pub nearest_base_mineral: Option<u64>,
}

/// Where an idle worker is sent.
#[derive(Clone, Copy, Debug, PartialEq, Eq, Structural)]
pub enum Gather {
    /// Gather from a refinery.
    Gas(u64),
    /// Gather from the richest mineral field of a base short of workers.
    BaseMineral(u64),
    /// Gather from a mineral field next to a base.
    Mineral(u64),
}

/// The first place in an order that is still open.
pub open spec fn first_open(order: Seq<usize>, open: Seq<bool>) -> Option<int>
    decreases order.len(),
{
    if order.len() == 0 {
        None
    } else {
        match first_open(order.drop_last(), open) {
            Some(k) => Some(k),
            None => if order.last() < open.len() && open[order.last() as int] {
                Some(order.last() as int)
            } else {
                None
            },
        }
    }
}

proof fn lemma_first_open(order: Seq<usize>, open: Seq<bool>)
    ensures
        first_open(order, open) matches Some(k) ==> 0 <= k < open.len() && open[k],
    decreases order.len(),
{
    if order.len() > 0 {
        lemma_first_open(order.drop_last(), open);
    }
}

fn find_first_open(order: &Vec<usize>, open: &Vec<bool>) -> (r: Option<usize>)
    ensures
        r matches Some(k) ==> first_open(order@, open@) == Some(k as int),
        r is None ==> first_open(order@, open@) is None,
{
    let mut i: usize = 0;
    while i < order.len()
        invariant
            i <= order.len(),
            first_open(order@.take(i as int), open@) is None,
        decreases order.len() - i,
    {
        proof {
            assert(order@.take(i + 1).drop_last() =~= order@.take(i as int));
        }
        let k = order[i];
        if k < open.len() && open[k] {
            proof {
                lemma_first_open_prefix(order@, open@, i as int + 1);
            }
            return Some(k);
        }
        i += 1;
    }
    assert(order@.take(order.len() as int) =~= order@);
    None
}

proof fn lemma_first_open_prefix(order: Seq<usize>, open: Seq<bool>, n: int)
    requires
        0 < n <= order.len(),
        first_open(order.take(n), open) is Some,
    ensures
        first_open(order, open) == first_open(order.take(n), open),
    decreases order.len() - n,
{
    if n < order.len() {
        assert(order.take(n + 1).take(n) =~= order.take(n));
        assert(order.take(n + 1).drop_last() =~= order.take(n));
        lemma_first_open_prefix(order, open, n + 1);
    } else {
        assert(order.take(n) =~= order);
    }
}

/// The state of the assignment round after some workers.
pub struct AssignState {
    pub geysers_open: Seq<bool>,
    pub bases_open: Seq<bool>,
    pub orders: Seq<(u64, Gather)>,
}

/// One idle worker: the nearest open geyser, else the nearest open base (its
/// richest mineral field), else, if truly idle and minerals near bases are in
/// play, the nearest mineral field by a base. A geyser or base takes one worker.
pub open spec fn assign_one(s: AssignState, w: IdleWorker, geysers: Seq<u64>, base_minerals: Seq<u64>, use_base_minerals: bool) -> AssignState {
    match first_open(w.geysers_by_distance@, s.geysers_open) {
        Some(g) => AssignState {
            geysers_open: s.geysers_open.update(g, false),
            orders: s.orders.push((w.tag, Gather::Gas(geysers[g]))),
            ..s
        },
        None => match first_open(w.bases_by_distance@, s.bases_open) {
            Some(b) => AssignState {
                bases_open: s.bases_open.update(b, false),
                orders: s.orders.push((w.tag, Gather::BaseMineral(base_minerals[b]))),
                ..s
            },
            None => if w.is_idle && use_base_minerals && w.nearest_base_mineral is Some {
                AssignState {
                    orders: s.orders.push((w.tag, Gather::Mineral(w.nearest_base_mineral.unwrap()))),
                    ..s
                }
            } else {
                s
            },
        },
    }
}

pub open spec fn assign_all(s: AssignState, ws: Seq<IdleWorker>, geysers: Seq<u64>, base_minerals: Seq<u64>, use_base_minerals: bool) -> AssignState
    decreases ws.len(),
{
    if ws.len() == 0 {
        s
    } else {
        assign_one(assign_all(s, ws.drop_last(), geysers, base_minerals, use_base_minerals), ws.last(), geysers, base_minerals, use_base_minerals)
    }
}

pub open spec fn all_open(n: nat) -> Seq<bool> {
    Seq::new(n, |i: int| true)
}

/// Sends idle workers to the geysers and bases short of workers. `geysers`
/// are the refineries short of workers; `base_minerals` holds, for each base
/// short of workers, its richest mineral field. Minerals next to bases come
/// into play only when idle workers outnumber the sites short of workers.
pub fn assign_idle_workers(workers: &Vec<IdleWorker>, geysers: &Vec<u64>, base_minerals: &Vec<u64>) -> (r: Vec<(u64, Gather)>)
    ensures
        r@ == assign_all(
            AssignState {
                geysers_open: all_open(geysers@.len()),
                bases_open: all_open(base_minerals@.len()),
                orders: seq![],
            },
            workers@,
            geysers@,
            base_minerals@,
            workers@.len() > geysers@.len() + base_minerals@.len(),
        ).orders,
        (forall|j: int| 0 <= j < workers@.len() ==> covers((#[trigger] workers@[j]).geysers_by_distance@, geysers@.len()))
            && (forall|a: int, b: int| 0 <= a < b < geysers@.len() ==> geysers@[a] != geysers@[b]) ==> {
            &&& forall|k: int| 0 <= k < geysers@.len() ==> sent_to_geyser(r@, #[trigger] geysers@[k]) <= 1
            &&& has_mineral_order(r@) ==> forall|k: int| 0 <= k < geysers@.len() ==> sent_to_geyser(r@, #[trigger] geysers@[k]) == 1
        },
{
    let use_base_minerals = (workers.len() as u128) > (geysers.len() as u128) + (base_minerals.len() as u128);
    let mut geysers_open: Vec<bool> = Vec::new();
    let mut k: usize = 0;
    while k < geysers.len()
        invariant
            k <= geysers.len(),
            geysers_open@ == all_open(k as nat),
        decreases geysers.len() - k,
    {
        geysers_open.push(true);
        k += 1;
        assert(geysers_open@ =~= all_open(k as nat));
    }
    let mut bases_open: Vec<bool> = Vec::new();
    k = 0;
    while k < base_minerals.len()
        invariant
            k <= base_minerals.len(),
            bases_open@ == all_open(k as nat),
        decreases base_minerals.len() - k,
    {
        bases_open.push(true);
        k += 1;
        assert(bases_open@ =~= all_open(k as nat));
    }
    let ghost s0 = AssignState {
        geysers_open: all_open(geysers@.len()),
        bases_open: all_open(base_minerals@.len()),
        orders: seq![],
    };
    let mut orders: Vec<(u64, Gather)> = Vec::new();
    let mut i: usize = 0;
    while i < workers.len()
        invariant
            i <= workers.len(),
            geysers_open@.len() == geysers@.len(),
            bases_open@.len() == base_minerals@.len(),
            use_base_minerals == (workers@.len() > geysers@.len() + base_minerals@.len()),
            assign_all(s0, workers@.take(i as int), geysers@, base_minerals@, use_base_minerals) == (AssignState {
                geysers_open: geysers_open@,
                bases_open: bases_open@,
                orders: orders@,
            }),
        decreases workers.len() - i,
    {
        proof {
            assert(workers@.take(i + 1).drop_last() =~= workers@.take(i as int));
            lemma_first_open(workers@[i as int].geysers_by_distance@, geysers_open@);
            lemma_first_open(workers@[i as int].bases_by_distance@, bases_open@);
        }
        let w = &workers[i];
        match find_first_open(&w.geysers_by_distance, &geysers_open) {
            Some(g) => {
                geysers_open.set(g, false);
                orders.push((w.tag, Gather::Gas(geysers[g])));
            },
            None => match find_first_open(&w.bases_by_distance, &bases_open) {
                Some(b) => {
                    bases_open.set(b, false);
                    orders.push((w.tag, Gather::BaseMineral(base_minerals[b])));
                },
                None => {
                    if w.is_idle && use_base_minerals {
                        match w.nearest_base_mineral {
                            Some(m) => orders.push((w.tag, Gather::Mineral(m))),
                            None => {},
                        }
                    }
                },
            },
        }
        i += 1;
    }
    assert(workers@.take(workers.len() as int) =~= workers@);
    proof {
        if (forall|j: int| 0 <= j < workers@.len() ==> covers((#[trigger] workers@[j]).geysers_by_distance@, geysers@.len()))
            && (forall|a: int, b: int| 0 <= a < b < geysers@.len() ==> geysers@[a] != geysers@[b]) {
            gas_before_minerals(workers@, geysers@, base_minerals@, use_base_minerals);
        }
    }
    orders
}

/// Counts the orders that send a worker to the geyser at a place.
pub open spec fn sent_to_geyser(orders: Seq<(u64, Gather)>, g: u64) -> int
    decreases orders.len(),
{
    if orders.len() == 0 {
        0
    } else {
        sent_to_geyser(orders.drop_last(), g) + if orders.last().1 == Gather::Gas(g) {
            1int
        } else {
            0
        }
    }
}

/// In one round every geyser short of workers (all with distinct tags) gets
/// at most one worker: a geyser still open has had none, a closed one one.
pub proof fn one_worker_per_geyser(
    s: AssignState,
    ws: Seq<IdleWorker>,
    geysers: Seq<u64>,
    base_minerals: Seq<u64>,
    use_base_minerals: bool,
    k: int,
)
    requires
        0 <= k < geysers.len(),
        s.geysers_open.len() == geysers.len(),
        forall|a: int, b: int| 0 <= a < b < geysers.len() ==> geysers[a] != geysers[b],
        sent_to_geyser(s.orders, geysers[k]) + (if s.geysers_open[k] {
            1int
        } else {
            0
        }) <= 1,
    ensures
        assign_all(s, ws, geysers, base_minerals, use_base_minerals).geysers_open.len() == geysers.len(),
        sent_to_geyser(assign_all(s, ws, geysers, base_minerals, use_base_minerals).orders, geysers[k]) + (
        if assign_all(s, ws, geysers, base_minerals, use_base_minerals).geysers_open[k] {
            1int
        } else {
            0
        }) <= 1,
    decreases ws.len(),
{
    if ws.len() > 0 {
        one_worker_per_geyser(s, ws.drop_last(), geysers, base_minerals, use_base_minerals, k);
        let p = assign_all(s, ws.drop_last(), geysers, base_minerals, use_base_minerals);
        let w = ws.last();
        lemma_first_open(w.geysers_by_distance@, p.geysers_open);
        lemma_first_open(w.bases_by_distance@, p.bases_open);
        let r = assign_one(p, w, geysers, base_minerals, use_base_minerals);
        match first_open(w.geysers_by_distance@, p.geysers_open) {
            Some(g) => {
                assert(r.orders.drop_last() =~= p.orders);
                if g != k {
                    assert(geysers[g] != geysers[k]);
                }
            },
            None => {
                if r.orders.len() == p.orders.len() + 1 {
                    assert(r.orders.drop_last() =~= p.orders);
                }
            },
        }
    }
}

/// An order that sends a worker to minerals.
pub open spec fn to_minerals(o: (u64, Gather)) -> bool {
    o.1 is BaseMineral || o.1 is Mineral
}

pub open spec fn has_mineral_order(orders: Seq<(u64, Gather)>) -> bool {
    exists|i: int| 0 <= i < orders.len() && to_minerals(#[trigger] orders[i])
}

/// An ordering of sites names every one of the `n` sites.
pub open spec fn covers(order: Seq<usize>, n: nat) -> bool {
    forall|g: int| 0 <= g < n ==> #[trigger] names_site(order, g)
}

/// An ordering of sites names the site at a place.
pub open spec fn names_site(order: Seq<usize>, g: int) -> bool {
    exists|i: int| 0 <= i < order.len() && order[i] as int == g
}

/// Every site's worker count and openness add up to one, and once a worker
/// went to minerals, no geyser is open.
pub open spec fn gas_first(s: AssignState, geysers: Seq<u64>) -> bool {
    &&& s.geysers_open.len() == geysers.len()
    &&& forall|k: int| 0 <= k < geysers.len() ==> sent_to_geyser(s.orders, #[trigger] geysers[k]) + (if s.geysers_open[k] {
        1int
    } else {
        0
    }) == 1
    &&& has_mineral_order(s.orders) ==> forall|k: int| 0 <= k < geysers.len() ==> !#[trigger] s.geysers_open[k]
}

proof fn lemma_no_open_left(order: Seq<usize>, open: Seq<bool>)
    requires
        first_open(order, open) is None,
    ensures
        forall|i: int| 0 <= i < order.len() && order[i] < open.len() ==> !open[#[trigger] order[i] as int],
    decreases order.len(),
{
    if order.len() > 0 {
        lemma_no_open_left(order.drop_last(), open);
        assert forall|i: int| 0 <= i < order.len() && order[i] < open.len() implies !open[#[trigger] order[i] as int] by {
            if i < order.len() - 1 {
                assert(order.drop_last()[i] == order[i]);
            }
        }
    }
}

proof fn lemma_gas_first_step(s: AssignState, w: IdleWorker, geysers: Seq<u64>, base_minerals: Seq<u64>, use_base_minerals: bool)
    requires
        gas_first(s, geysers),
        covers(w.geysers_by_distance@, geysers.len()),
        forall|a: int, b: int| 0 <= a < b < geysers.len() ==> geysers[a] != geysers[b],
    ensures
        gas_first(assign_one(s, w, geysers, base_minerals, use_base_minerals), geysers),
{
    let r = assign_one(s, w, geysers, base_minerals, use_base_minerals);
    lemma_first_open(w.geysers_by_distance@, s.geysers_open);
    match first_open(w.geysers_by_distance@, s.geysers_open) {
        Some(g) => {
            assert(r.orders.drop_last() =~= s.orders);
            assert forall|k: int| 0 <= k < geysers.len() implies sent_to_geyser(r.orders, #[trigger] geysers[k]) + (
            if r.geysers_open[k] {
                1int
            } else {
                0
            }) == 1 by {
                assert(sent_to_geyser(s.orders, geysers[k]) + (if s.geysers_open[k] { 1int } else { 0 }) == 1);
                if k != g {
                    assert(geysers[g] != geysers[k]);
                }
            }
            if has_mineral_order(r.orders) {
                let i = choose|i: int| 0 <= i < r.orders.len() && to_minerals(#[trigger] r.orders[i]);
                assert(i < s.orders.len());
                assert(s.orders[i] == r.orders[i]);
                assert(has_mineral_order(s.orders));
                assert(!s.geysers_open[g]);
            }
        },
        None => {
            lemma_no_open_left(w.geysers_by_distance@, s.geysers_open);
            assert forall|k: int| 0 <= k < geysers.len() implies !#[trigger] s.geysers_open[k] by {
                assert(names_site(w.geysers_by_distance@, k));
                let i = choose|i: int| 0 <= i < w.geysers_by_distance@.len() && w.geysers_by_distance@[i] as int == k;
                assert(w.geysers_by_distance@[i] < s.geysers_open.len());
            }
            if r.orders.len() == s.orders.len() + 1 {
                assert(r.orders.drop_last() =~= s.orders);
                assert(to_minerals(r.orders[s.orders.len() as int]));
                assert forall|k: int| 0 <= k < geysers.len() implies sent_to_geyser(r.orders, #[trigger] geysers[k]) + (
                if r.geysers_open[k] {
                    1int
                } else {
                    0
                }) == 1 by {
                    assert(sent_to_geyser(s.orders, geysers[k]) + (if s.geysers_open[k] { 1int } else { 0 }) == 1);
                }
            } else {
                assert(r == s);
            }
        },
    }
}

proof fn lemma_gas_first(s: AssignState, ws: Seq<IdleWorker>, geysers: Seq<u64>, base_minerals: Seq<u64>, use_base_minerals: bool)
    requires
        gas_first(s, geysers),
        forall|j: int| 0 <= j < ws.len() ==> covers((#[trigger] ws[j]).geysers_by_distance@, geysers.len()),
        forall|a: int, b: int| 0 <= a < b < geysers.len() ==> geysers[a] != geysers[b],
    ensures
        gas_first(assign_all(s, ws, geysers, base_minerals, use_base_minerals), geysers),
    decreases ws.len(),
{
    if ws.len() > 0 {
        assert forall|j: int| 0 <= j < ws.drop_last().len() implies covers((#[trigger] ws.drop_last()[j]).geysers_by_distance@, geysers.len()) by {
            assert(ws.drop_last()[j] == ws[j]);
        }
        lemma_gas_first(s, ws.drop_last(), geysers, base_minerals, use_base_minerals);
        assert(covers(ws[ws.len() - 1].geysers_by_distance@, geysers.len()));
        lemma_gas_first_step(
            assign_all(s, ws.drop_last(), geysers, base_minerals, use_base_minerals),
            ws.last(),
            geysers,
            base_minerals,
            use_base_minerals,
        );
    }
}

/// Gas comes first: when every idle worker orders all the geysers short of
/// workers (their tags distinct) by distance, each geyser gets at most one
/// worker, and a worker is sent to minerals only once every geyser has had
/// its worker.
pub proof fn gas_before_minerals(ws: Seq<IdleWorker>, geysers: Seq<u64>, base_minerals: Seq<u64>, use_base_minerals: bool)
    requires
        forall|j: int| 0 <= j < ws.len() ==> covers((#[trigger] ws[j]).geysers_by_distance@, geysers.len()),
        forall|a: int, b: int| 0 <= a < b < geysers.len() ==> geysers[a] != geysers[b],
    ensures
        forall|k: int| 0 <= k < geysers.len() ==> sent_to_geyser(
            assign_all(
                AssignState { geysers_open: all_open(geysers.len()), bases_open: all_open(base_minerals.len()), orders: seq![] },
                ws,
                geysers,
                base_minerals,
                use_base_minerals,
            ).orders,
            #[trigger] geysers[k],
        ) <= 1,
        has_mineral_order(
            assign_all(
                AssignState { geysers_open: all_open(geysers.len()), bases_open: all_open(base_minerals.len()), orders: seq![] },
                ws,
                geysers,
                base_minerals,
                use_base_minerals,
            ).orders,
        ) ==> forall|k: int| 0 <= k < geysers.len() ==> sent_to_geyser(
            assign_all(
                AssignState { geysers_open: all_open(geysers.len()), bases_open: all_open(base_minerals.len()), orders: seq![] },
                ws,
                geysers,
                base_minerals,
                use_base_minerals,
            ).orders,
            #[trigger] geysers[k],
        ) == 1,
{
    let s0 = AssignState { geysers_open: all_open(geysers.len()), bases_open: all_open(base_minerals.len()), orders: seq![] };
    assert(gas_first(s0, geysers));
    lemma_gas_first(s0, ws, geysers, base_minerals, use_base_minerals);
    let r = assign_all(s0, ws, geysers, base_minerals, use_base_minerals);
    assert forall|k: int| 0 <= k < geysers.len() implies sent_to_geyser(r.orders, #[trigger] geysers[k]) <= 1 by {
        assert(sent_to_geyser(r.orders, geysers[k]) + (if r.geysers_open[k] { 1int } else { 0 }) == 1);
    }
    if has_mineral_order(r.orders) {
        assert forall|k: int| 0 <= k < geysers.len() implies sent_to_geyser(r.orders, #[trigger] geysers[k]) == 1 by {
            assert(sent_to_geyser(r.orders, geysers[k]) + (if r.geysers_open[k] { 1int } else { 0 }) == 1);
            assert(!r.geysers_open[k]);
        }
    }
}

/// What spreading workers reads of the game.
pub struct DistributionObservation {
    pub game_loop: u32,
    pub has_workers: bool,
    /// The idle workers, in order.
    pub idle_workers: Vec<u64>,
    pub has_mineral_fields: bool,
    /// The finished bases.
    pub bases: Vec<HarvestSite>,
    /// For each base, our workers on its minerals or bringing minerals to it, in order.
    pub base_workers: Vec<Vec<u64>>,
    /// The finished refineries that still hold gas.
    pub geysers: Vec<HarvestSite>,
    /// For each refinery, our workers on it or bringing gas from it, in order.
    pub geyser_workers: Vec<Vec<u64>>,
}

/// The round of spreading: the workers to send, and the sites short of workers.
pub struct DistributionPlan {
    pub idle: Vec<u64>,
    pub deficit_bases: Vec<u64>,
    pub deficit_geysers: Vec<u64>,
}

pub open spec fn worker_views(v: Seq<Vec<u64>>) -> Seq<Seq<u64>> {
    v.map_values(|w: Vec<u64>| w@)
}

/// The workers taken off sites with too many: from each, as many of its
/// workers as it has too many, first ones first.
pub open spec fn surplus_workers(sites: Seq<HarvestSite>, workers: Seq<Seq<u64>>) -> Seq<u64>
    decreases sites.len(),
{
    if sites.len() == 0 {
        seq![]
    } else {
        let k = sites.len() - 1;
        let s = sites[k];
        surplus_workers(sites.drop_last(), workers) + if s.assigned > s.ideal && k < workers.len() {
            let n = (s.assigned - s.ideal) as int;
            if n <= workers[k].len() {
                workers[k].take(n)
            } else {
                workers[k]
            }
        } else {
            seq![]
        }
    }
}

fn surplus_exec(sites: &Vec<HarvestSite>, workers: &Vec<Vec<u64>>) -> (r: Vec<u64>)
    ensures
        r@ == surplus_workers(sites@, worker_views(workers@)),
{
    let ghost wv = worker_views(workers@);
    let mut out: Vec<u64> = Vec::new();
    let mut i: usize = 0;
    while i < sites.len()
        invariant
            i <= sites.len(),
            wv == worker_views(workers@),
            out@ == surplus_workers(sites@.take(i as int), wv),
        decreases sites.len() - i,
    {
        proof {
            assert(sites@.take(i + 1).drop_last() =~= sites@.take(i as int));
        }
        let s = sites[i];
        let ghost before = out@;
        if s.assigned > s.ideal && i < workers.len() {
            proof {
                assert(wv[i as int] == workers@[i as int]@);
            }
            let n: u32 = s.assigned - s.ideal;
            let list = &workers[i];
            let mut j: usize = 0;
            while j < list.len() && (j as u64) < n as u64
                invariant
                    j <= list@.len(),
                    j <= n,
                    out@ == before + list@.take(j as int),
                decreases list.len() - j,
            {
                out.push(list[j]);
                assert(out@ =~= before + list@.take(j + 1));
                j += 1;
            }
            proof {
                if (n as int) <= list@.len() {
                    assert(j == n);
                } else {
                    assert(list@.take(j as int) =~= list@);
                }
            }
        }
        assert(out@ =~= surplus_workers(sites@.take(i + 1), wv));
        i += 1;
    }
    assert(sites@.take(sites.len() as int) =~= sites@);
    out
}

/// A round of spreading runs: there are workers, and some are idle or the
/// delay since the last round has passed.
pub open spec fn round_runs(last_loop: u32, o: DistributionObservation) -> bool {
    o.has_workers && (o.idle_workers@.len() > 0 || last_loop as int + DISTRIBUTION_DELAY as int <= o.game_loop as int)
}

/// The round of spreading, when there is one: the idle workers joined by
/// the surplus of bases and then of refineries (each worker once), and the
/// bases and refineries short of workers. There is none without workers,
/// before the delay when none is idle, without mineral fields, or without a
/// finished base.
pub open spec fn distribution_plan(last_loop: u32, o: DistributionObservation) -> Option<(Seq<u64>, Seq<u64>, Seq<u64>)> {
    if !round_runs(last_loop, o) {
        None
    } else if !o.has_mineral_fields || o.bases@.len() == 0 {
        None
    } else {
        Some((
            merged(o.idle_workers@, surplus_workers(o.bases@, worker_views(o.base_workers@)) + surplus_workers(
                o.geysers@,
                worker_views(o.geyser_workers@),
            )),
            deficit_tags(o.bases@),
            deficit_tags(o.geysers@),
        ))
    }
}

/// Plans a round of spreading workers; the closest sites for each worker
/// are then found by the caller and handed to `assign_idle_workers`.
pub fn distribute_workers(last_loop: &mut u32, o: &DistributionObservation) -> (r: Option<DistributionPlan>)
    ensures
        match r {
            Some(p) => distribution_plan(*old(last_loop), *o) == Some((p.idle@, p.deficit_bases@, p.deficit_geysers@)),
            None => distribution_plan(*old(last_loop), *o) is None,
        },
        round_runs(*old(last_loop), *o) ==> *final(last_loop) == o.game_loop,
        !round_runs(*old(last_loop), *o) ==> *final(last_loop) == *old(last_loop),
{
    let go = should_distribute(last_loop, o.game_loop, o.has_workers, o.idle_workers.len() > 0);
    if !go {
        return None;
    }
    if !o.has_mineral_fields || o.bases.len() == 0 {
        return None;
    }
    let deficit_bases = deficit_sites(&o.bases);
    let deficit_geysers = deficit_sites(&o.geysers);
    let mut extra = surplus_exec(&o.bases, &o.base_workers);
    let mut gas_extra = surplus_exec(&o.geysers, &o.geyser_workers);
    let ghost e1 = extra@;
    let ghost e2 = gas_extra@;
    extra.append(&mut gas_extra);
    assert(extra@ == e1 + e2);
    let idle = merge_idle(&o.idle_workers, &extra);
    Some(DistributionPlan { idle, deficit_bases, deficit_geysers })
}

/// A worker listed among the first (assigned - ideal) of a site with too
/// many workers.
pub open spec fn is_surplus(sites: Seq<HarvestSite>, workers: Seq<Seq<u64>>, x: u64) -> bool {
    exists|g: int, j: int|
        0 <= g < sites.len() && g < workers.len() && sites[g].assigned > sites[g].ideal && 0 <= j < sites[g].assigned
            - sites[g].ideal && j < workers[g].len() && #[trigger] workers[g][j] == x
}

proof fn lemma_concat_contains(a: Seq<u64>, b: Seq<u64>, x: u64)
    ensures
        (a + b).contains(x) <==> a.contains(x) || b.contains(x),
{
    let c = a + b;
    if c.contains(x) {
        let i = choose|i: int| 0 <= i < c.len() && c[i] == x;
        if i < a.len() {
            assert(a[i] == x);
        } else {
            assert(b[i - a.len()] == x);
        }
    }
    if a.contains(x) {
        let i = choose|i: int| 0 <= i < a.len() && a[i] == x;
        assert(c[i] == x);
    }
    if b.contains(x) {
        let i = choose|i: int| 0 <= i < b.len() && b[i] == x;
        assert(c[i + a.len()] == x);
    }
}

proof fn lemma_merged_contains(a: Seq<u64>, b: Seq<u64>, x: u64)
    ensures
        merged(a, b).contains(x) <==> a.contains(x) || b.contains(x),
    decreases b.len(),
{
    if b.len() > 0 {
        lemma_merged_contains(a, b.drop_last(), x);
        let prev = merged(a, b.drop_last());
        if b.drop_last().contains(x) {
            let i = choose|i: int| 0 <= i < b.drop_last().len() && b.drop_last()[i] == x;
            assert(b[i] == x);
        }
        if b.contains(x) && x != b.last() {
            let i = choose|i: int| 0 <= i < b.len() && b[i] == x;
            assert(b.drop_last()[i] == x);
        }
        if x == b.last() {
            assert(b[b.len() - 1] == x);
        }
        if !prev.contains(b.last()) {
            lemma_concat_contains(prev, seq![b.last()], x);
            assert(prev.push(b.last()) == prev + seq![b.last()]);
            assert(seq![b.last()].contains(x) <==> x == b.last()) by {
                if x == b.last() {
                    assert(seq![b.last()][0] == x);
                }
            }
        }
    }
}

proof fn lemma_surplus_contains(sites: Seq<HarvestSite>, workers: Seq<Seq<u64>>, x: u64)
    ensures
        surplus_workers(sites, workers).contains(x) <==> is_surplus(sites, workers, x),
    decreases sites.len(),
{
    if sites.len() > 0 {
        let init = sites.drop_last();
        let k = sites.len() - 1;
        let st = sites[k];
        lemma_surplus_contains(init, workers, x);
        let t = if st.assigned > st.ideal && k < workers.len() {
            let n = (st.assigned - st.ideal) as int;
            if n <= workers[k].len() {
                workers[k].take(n)
            } else {
                workers[k]
            }
        } else {
            seq![]
        };
        lemma_concat_contains(surplus_workers(init, workers), t, x);
        let here = exists|j: int| 0 <= j < st.assigned - st.ideal && j < workers[k].len() && st.assigned > st.ideal
            && k < workers.len() && workers[k][j] == x;
        assert(t.contains(x) <==> here) by {
            if t.contains(x) {
                let j = choose|j: int| 0 <= j < t.len() && t[j] == x;
                assert(workers[k][j] == x);
            }
            if here {
                let j = choose|j: int| 0 <= j < st.assigned - st.ideal && j < workers[k].len() && st.assigned > st.ideal
                    && k < workers.len() && workers[k][j] == x;
                assert(t[j] == x);
            }
        }
        if is_surplus(sites, workers, x) {
            let (g, j) = choose|g: int, j: int|
                0 <= g < sites.len() && g < workers.len() && sites[g].assigned > sites[g].ideal && 0 <= j < sites[g].assigned
                    - sites[g].ideal && j < workers[g].len() && #[trigger] workers[g][j] == x;
            if g < k {
                assert(init[g] == sites[g]);
                assert(is_surplus(init, workers, x));
            } else {
                assert(here);
            }
        }
        if is_surplus(init, workers, x) {
            let (g, j) = choose|g: int, j: int|
                0 <= g < init.len() && g < workers.len() && init[g].assigned > init[g].ideal && 0 <= j < init[g].assigned
                    - init[g].ideal && j < workers[g].len() && #[trigger] workers[g][j] == x;
            assert(init[g] == sites[g]);
        }
    }
}

proof fn lemma_deficit_contains(s: Seq<HarvestSite>, t: u64)
    ensures
        deficit_tags(s).contains(t) <==> exists|i: int| 0 <= i < s.len() && #[trigger] s[i].tag == t && s[i].assigned
            < s[i].ideal,
        forall|a: int, b: int| 0 <= a < b < deficit_tags(s).len() ==> deficit_tags(s)[a] != deficit_tags(s)[b],
    decreases s.len(),
{
    if s.len() > 0 {
        let init = s.drop_last();
        lemma_deficit_contains(init, t);
        lemma_deficit_contains(init, s.last().tag);
        let prev = deficit_tags(init);
        if exists|i: int| 0 <= i < init.len() && #[trigger] init[i].tag == t && init[i].assigned < init[i].ideal {
            let i = choose|i: int| 0 <= i < init.len() && #[trigger] init[i].tag == t && init[i].assigned < init[i].ideal;
            assert(s[i] == init[i]);
        }
        if exists|i: int| 0 <= i < s.len() && #[trigger] s[i].tag == t && s[i].assigned < s[i].ideal {
            let i = choose|i: int| 0 <= i < s.len() && #[trigger] s[i].tag == t && s[i].assigned < s[i].ideal;
            if i < init.len() {
                assert(init[i] == s[i]);
            }
        }
        let l = s.last();
        if l.assigned < l.ideal && !prev.contains(l.tag) {
            let d = prev.push(l.tag);
            if t == l.tag {
                assert(d[d.len() - 1] == t);
            }
            if d.contains(t) && t != l.tag {
                let j = choose|j: int| 0 <= j < d.len() && d[j] == t;
                assert(prev[j] == t);
            }
            if prev.contains(t) {
                let j = choose|j: int| 0 <= j < prev.len() && prev[j] == t;
                assert(d[j] == t);
            }
            assert forall|a: int, b: int| 0 <= a < b < d.len() implies d[a] != d[b] by {
                if b == d.len() - 1 {
                    assert(d[a] == prev[a]);
                    if prev[a] == l.tag {
                        assert(prev.contains(l.tag));
                    }
                }
            }
        } else if l.assigned < l.ideal && t == l.tag {
            assert(prev.contains(t));
        }
    }
}

/// A round of spreading workers. It runs exactly when there are workers,
/// some are idle or the delay since the last round has passed, mineral
/// fields exist and a base is finished. The workers it sends are exactly
/// the idle ones and the first (assigned - ideal) workers of every base and
/// every refinery with too many; the sites short of workers are exactly the
/// bases and refineries with fewer workers than they can use, each once.
pub proof fn distribution_law(last_loop: u32, o: DistributionObservation)
    ensures
        distribution_plan(last_loop, o) is Some <==> o.has_workers && (o.idle_workers@.len() > 0 || last_loop as int
            + DISTRIBUTION_DELAY as int <= o.game_loop as int) && o.has_mineral_fields && o.bases@.len() > 0,
        distribution_plan(last_loop, o) matches Some(p) ==> {
            &&& forall|x: u64| #[trigger] p.0.contains(x) <==> o.idle_workers@.contains(x) || is_surplus(
                o.bases@,
                worker_views(o.base_workers@),
                x,
            ) || is_surplus(o.geysers@, worker_views(o.geyser_workers@), x)
            &&& forall|t: u64| #[trigger] p.1.contains(t) <==> exists|i: int|
                0 <= i < o.bases@.len() && #[trigger] o.bases@[i].tag == t && o.bases@[i].assigned < o.bases@[i].ideal
            &&& forall|t: u64| #[trigger] p.2.contains(t) <==> exists|i: int|
                0 <= i < o.geysers@.len() && #[trigger] o.geysers@[i].tag == t && o.geysers@[i].assigned
                    < o.geysers@[i].ideal
            &&& forall|a: int, b: int| 0 <= a < b < p.1.len() ==> p.1[a] != p.1[b]
            &&& forall|a: int, b: int| 0 <= a < b < p.2.len() ==> p.2[a] != p.2[b]
        },
{
    if let Some(p) = distribution_plan(last_loop, o) {
        let bw = worker_views(o.base_workers@);
        let gw = worker_views(o.geyser_workers@);
        let sb = surplus_workers(o.bases@, bw);
        let sg = surplus_workers(o.geysers@, gw);
        assert forall|x: u64| #[trigger] p.0.contains(x) <==> o.idle_workers@.contains(x) || is_surplus(o.bases@, bw, x)
            || is_surplus(o.geysers@, gw, x) by {
            lemma_merged_contains(o.idle_workers@, sb + sg, x);
            lemma_concat_contains(sb, sg, x);
            lemma_surplus_contains(o.bases@, bw, x);
            lemma_surplus_contains(o.geysers@, gw, x);
        }
        assert forall|t: u64| #[trigger] p.1.contains(t) <==> exists|i: int|
            0 <= i < o.bases@.len() && #[trigger] o.bases@[i].tag == t && o.bases@[i].assigned < o.bases@[i].ideal by {
            lemma_deficit_contains(o.bases@, t);
        }
        assert forall|t: u64| #[trigger] p.2.contains(t) <==> exists|i: int|
            0 <= i < o.geysers@.len() && #[trigger] o.geysers@[i].tag == t && o.geysers@[i].assigned
                < o.geysers@[i].ideal by {
            lemma_deficit_contains(o.geysers@, t);
        }
        lemma_deficit_contains(o.bases@, 0);
        lemma_deficit_contains(o.geysers@, 0);
    }
}

} // verus!
