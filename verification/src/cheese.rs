//! The early-game cheese watch: worker rushes, contain rushes, ramp blocks
//! and floods, each started and ended by what is seen.
use vstd::prelude::*;
use crate::readings::{count_true, count_set};

verus! {

/// Game loops in 200 seconds: worker rushes start only before this.
pub const WORKER_RUSH_WINDOW_LOOPS: u32 = 4480;

/// Game loops in five minutes: contain rushes and floods start only before this.
pub const CONTAIN_WINDOW_LOOPS: u32 = 6720;

/// What the cheese watch remembers between steps.
#[derive(Clone, Copy, Debug, PartialEq, Eq, Structural)]
pub struct CheeseState {
    pub worker_rush: bool,
    pub contain_rush: bool,
    /// The enemy unit that blocks our ramp.
    pub ramp_blocker: Option<u64>,
    /// Steps in a row with an enemy unit on a ramp corner.
    pub ramp_blocker_timer: u64,
    pub flooding: bool,
}

impl CheeseState {
    pub fn new() -> (s: CheeseState)
        ensures
            s == (CheeseState {
                worker_rush: false,
                contain_rush: false,
                ramp_blocker: None,
                ramp_blocker_timer: 0,
                flooding: false,
            }),
    {
        CheeseState {
            worker_rush: false,
            contain_rush: false,
            ramp_blocker: None,
            ramp_blocker_timer: 0,
            flooding: false,
        }
    }
}

/// An enemy structure, as far as the watch cares.
#[derive(Clone, Copy, Debug)]
pub struct EnemyStructure {
    pub type_id: u32,
    /// Nearer to our start than to the enemy's.
    pub on_our_side: bool,
}

/// What the cheese watch sees in a step.
#[derive(Clone, Debug)]
pub struct CheeseObservation {
    pub now: u32,
    /// For each visible enemy unit: a worker nearer to our start than to the enemy's.
    pub workers_on_our_side: Vec<bool>,
    /// Visible enemy structures.
    pub structures: Vec<EnemyStructure>,
    /// The remembered ramp blocker is still visible.
    pub blocker_visible: bool,
    /// The remembered ramp blocker stands more than 12 from the ramp's middle.
    pub blocker_far: bool,
    /// Supply depots we have, raised or lowered.
    pub depots: usize,
    /// For each corner depot spot of our ramp (when the ramp has them): the
    /// nearest enemy unit, when it stands within 2 of the spot.
    pub corner_blockers: Option<Vec<Option<u64>>>,
    /// Enemy units within 30 of our idle point.
    pub enemies_at_idle_point: usize,
    pub townhalls: usize,
    pub has_ready_bunker: bool,
}

/// What the watch reports, to be logged.
#[derive(Clone, Copy, Debug, PartialEq, Eq, Structural)]
pub enum CheeseEvent {
    WorkerRushStarted,
    WorkerRushEnded,
    /// A contain rush, with the type of the structure that revealed it.
    ContainRushStarted(u32),
    ContainRushEnded,
    RampBlockStarted,
    FloodingStarted,
    FloodingEnded,
}

/// The first enemy structure on our side.
pub open spec fn first_close_structure(s: Seq<EnemyStructure>) -> Option<int>
    decreases s.len(),
{
    if s.len() == 0 {
        None
    } else {
        match first_close_structure(s.drop_last()) {
            Some(i) => Some(i),
            None => if s.last().on_our_side {
                Some(s.len() - 1)
            } else {
                None
            },
        }
    }
}

/// The last corner blocker seen (later corners overwrite earlier ones), if any.
pub open spec fn last_blocker(c: Seq<Option<u64>>) -> Option<u64>
    decreases c.len(),
{
    if c.len() == 0 {
        None
    } else if c.last() is Some {
        c.last()
    } else {
        last_blocker(c.drop_last())
    }
}

pub open spec fn any_blocker(c: Seq<Option<u64>>) -> bool {
    last_blocker(c) is Some
}

pub open spec fn worker_rush_step(s: CheeseState, o: CheeseObservation) -> CheeseState {
    if o.now < WORKER_RUSH_WINDOW_LOOPS || s.worker_rush {
        let n = count_true(o.workers_on_our_side@);
        if n > 4 {
            CheeseState { worker_rush: true, ..s }
        } else if n == 0 {
            CheeseState { worker_rush: false, ..s }
        } else {
            s
        }
    } else {
        s
    }
}

pub open spec fn contain_step(s: CheeseState, o: CheeseObservation) -> CheeseState {
    if o.now < CONTAIN_WINDOW_LOOPS || s.contain_rush {
        if o.structures@.len() > 0 {
            if first_close_structure(o.structures@) is Some {
                CheeseState { contain_rush: true, ..s }
            } else {
                s
            }
        } else {
            CheeseState { contain_rush: false, ..s }
        }
    } else {
        s
    }
}

pub open spec fn ramp_step(s: CheeseState, o: CheeseObservation) -> CheeseState {
    if s.ramp_blocker is Some {
        if !o.blocker_visible || o.blocker_far {
            CheeseState { ramp_blocker: None, ramp_blocker_timer: 0, ..s }
        } else {
            s
        }
    } else if o.depots < 2 {
        let c = match o.corner_blockers {
            Some(v) => v@,
            None => seq![],
        };
        let blocker = if s.ramp_blocker_timer > 20 {
            match last_blocker(c) {
                Some(t) => Some(t),
                None => s.ramp_blocker,
            }
        } else {
            s.ramp_blocker
        };
        let timer = if any_blocker(c) {
            (s.ramp_blocker_timer + 1) as u64
        } else {
            0
        };
        CheeseState { ramp_blocker: blocker, ramp_blocker_timer: timer, ..s }
    } else {
        s
    }
}

pub open spec fn flooding_step(s: CheeseState, o: CheeseObservation) -> CheeseState {
    if o.now < CONTAIN_WINDOW_LOOPS || s.flooding {
        if o.enemies_at_idle_point > 5 && !s.flooding {
            CheeseState { flooding: true, ..s }
        } else if s.flooding && (o.townhalls > 1 || o.has_ready_bunker) {
            CheeseState { flooding: false, ..s }
        } else {
            s
        }
    } else {
        s
    }
}

/// The worker rush's report: seen every step with more than four workers
/// on our side; ended when none is left while a rush was on.
pub open spec fn worker_rush_events(s: CheeseState, o: CheeseObservation) -> Seq<CheeseEvent> {
    if o.now < WORKER_RUSH_WINDOW_LOOPS || s.worker_rush {
        let n = count_true(o.workers_on_our_side@);
        if n > 4 {
            seq![CheeseEvent::WorkerRushStarted]
        } else if n == 0 && s.worker_rush {
            seq![CheeseEvent::WorkerRushEnded]
        } else {
            seq![]
        }
    } else {
        seq![]
    }
}

/// The contain rush's report: the first enemy structure on our side starts
/// it, with its type; no enemy structure in sight ends it.
pub open spec fn contain_events(s: CheeseState, o: CheeseObservation) -> Seq<CheeseEvent> {
    if o.now < CONTAIN_WINDOW_LOOPS || s.contain_rush {
        if o.structures@.len() > 0 {
            match first_close_structure(o.structures@) {
                Some(i) => if !s.contain_rush {
                    seq![CheeseEvent::ContainRushStarted(o.structures@[i].type_id)]
                } else {
                    seq![]
                },
                None => seq![],
            }
        } else if s.contain_rush {
            seq![CheeseEvent::ContainRushEnded]
        } else {
            seq![]
        }
    } else {
        seq![]
    }
}

/// The ramp block's report: a blocker taken after more than twenty steps.
pub open spec fn ramp_events(s: CheeseState, o: CheeseObservation) -> Seq<CheeseEvent> {
    let c = match o.corner_blockers {
        Some(v) => v@,
        None => seq![],
    };
    if s.ramp_blocker is None && o.depots < 2 && s.ramp_blocker_timer > 20 && any_blocker(c) {
        seq![CheeseEvent::RampBlockStarted]
    } else {
        seq![]
    }
}

/// The flood's report.
pub open spec fn flooding_events(s: CheeseState, o: CheeseObservation) -> Seq<CheeseEvent> {
    if o.now < CONTAIN_WINDOW_LOOPS || s.flooding {
        if o.enemies_at_idle_point > 5 && !s.flooding {
            seq![CheeseEvent::FloodingStarted]
        } else if s.flooding && (o.townhalls > 1 || o.has_ready_bunker) {
            seq![CheeseEvent::FloodingEnded]
        } else {
            seq![]
        }
    } else {
        seq![]
    }
}

/// What a step of the watch reports, in order: worker rush, contain rush,
/// ramp block, flood, each judged on the state its own stage starts from.
pub open spec fn cheese_events(s: CheeseState, o: CheeseObservation) -> Seq<CheeseEvent> {
    let s1 = worker_rush_step(s, o);
    let s2 = contain_step(s1, o);
    let s3 = ramp_step(s2, o);
    worker_rush_events(s, o) + contain_events(s1, o) + ramp_events(s2, o) + flooding_events(s3, o)
}

pub open spec fn cheese_step(s: CheeseState, o: CheeseObservation) -> CheeseState {
    flooding_step(ramp_step(contain_step(worker_rush_step(s, o), o), o), o)
}

fn find_close_structure(s: &Vec<EnemyStructure>) -> (r: Option<usize>)
    ensures
        r matches Some(i) ==> first_close_structure(s@) == Some(i as int) && i < s@.len(),
        r is None ==> first_close_structure(s@) is None,
{
    let mut i: usize = 0;
    while i < s.len()
        invariant
            i <= s.len(),
            first_close_structure(s@.take(i as int)) is None,
        decreases s.len() - i,
    {
        proof {
            assert(s@.take(i + 1).drop_last() =~= s@.take(i as int));
        }
        if s[i].on_our_side {
            proof {
                lemma_first_close_prefix(s@, i as int + 1);
            }
            return Some(i);
        }
        i += 1;
    }
    assert(s@.take(s.len() as int) =~= s@);
    None
}

proof fn lemma_first_close_prefix(s: Seq<EnemyStructure>, n: int)
    requires
        0 < n <= s.len(),
        first_close_structure(s.take(n)) is Some,
    ensures
        first_close_structure(s) == first_close_structure(s.take(n)),
    decreases s.len() - n,
{
    if n < s.len() {
        assert(s.take(n + 1).take(n) =~= s.take(n));
        lemma_first_close_prefix_step(s.take(n + 1), n);
        lemma_first_close_prefix(s, n + 1);
    } else {
        assert(s.take(n) =~= s);
    }
}

proof fn lemma_first_close_prefix_step(s: Seq<EnemyStructure>, n: int)
    requires
        n + 1 == s.len(),
        0 < n,
        first_close_structure(s.take(n)) is Some,
    ensures
        first_close_structure(s) == first_close_structure(s.take(n)),
{
    assert(s.drop_last() =~= s.take(n));
}

fn find_last_blocker(c: &Vec<Option<u64>>) -> (r: Option<u64>)
    ensures
        r == last_blocker(c@),
{
    let mut found: Option<u64> = None;
    let mut i: usize = 0;
    while i < c.len()
        invariant
            i <= c.len(),
            found == last_blocker(c@.take(i as int)),
        decreases c.len() - i,
    {
        proof {
            assert(c@.take(i + 1).drop_last() =~= c@.take(i as int));
        }
        if c[i].is_some() {
            found = c[i];
        }
        i += 1;
    }
    assert(c@.take(c.len() as int) =~= c@);
    found
}

fn worker_rush_stage(s: &mut CheeseState, o: &CheeseObservation, events: &mut Vec<CheeseEvent>)
    ensures
        *final(s) == worker_rush_step(*old(s), *o),
        final(events)@ == old(events)@ + worker_rush_events(*old(s), *o),
{
    let ghost e0 = events@;
    if o.now < WORKER_RUSH_WINDOW_LOOPS || s.worker_rush {
        let n = count_set(&o.workers_on_our_side);
        if n > 4 {
            events.push(CheeseEvent::WorkerRushStarted);
            s.worker_rush = true;
        } else if n == 0 {
            if s.worker_rush {
                events.push(CheeseEvent::WorkerRushEnded);
            }
            s.worker_rush = false;
        }
    }
    assert(events@ =~= e0 + worker_rush_events(*old(s), *o));
}

fn contain_stage(s: &mut CheeseState, o: &CheeseObservation, events: &mut Vec<CheeseEvent>)
    ensures
        *final(s) == contain_step(*old(s), *o),
        final(events)@ == old(events)@ + contain_events(*old(s), *o),
{
    let ghost e0 = events@;
    if o.now < CONTAIN_WINDOW_LOOPS || s.contain_rush {
        if o.structures.len() > 0 {
            match find_close_structure(&o.structures) {
                Some(i) => {
                    if !s.contain_rush {
                        events.push(CheeseEvent::ContainRushStarted(o.structures[i].type_id));
                        s.contain_rush = true;
                    }
                },
                None => {},
            }
        } else {
            if s.contain_rush {
                events.push(CheeseEvent::ContainRushEnded);
            }
            s.contain_rush = false;
        }
    }
    assert(events@ =~= e0 + contain_events(*old(s), *o));
}

fn ramp_stage(s: &mut CheeseState, o: &CheeseObservation, events: &mut Vec<CheeseEvent>)
    requires
        old(s).ramp_blocker_timer < u64::MAX,
    ensures
        *final(s) == ramp_step(*old(s), *o),
        final(events)@ == old(events)@ + ramp_events(*old(s), *o),
{
    let ghost e0 = events@;
    if s.ramp_blocker.is_some() {
        if !o.blocker_visible || o.blocker_far {
            s.ramp_blocker = None;
            s.ramp_blocker_timer = 0;
        }
    } else if o.depots < 2 {
        let last = match &o.corner_blockers {
            Some(v) => find_last_blocker(v),
            None => None,
        };
        if s.ramp_blocker_timer > 20 {
            if let Some(t) = last {
                s.ramp_blocker = Some(t);
                events.push(CheeseEvent::RampBlockStarted);
            }
        }
        if last.is_some() {
            s.ramp_blocker_timer = s.ramp_blocker_timer + 1;
        } else {
            s.ramp_blocker_timer = 0;
        }
    }
    assert(events@ =~= e0 + ramp_events(*old(s), *o));
}

fn flooding_stage(s: &mut CheeseState, o: &CheeseObservation, events: &mut Vec<CheeseEvent>)
    ensures
        *final(s) == flooding_step(*old(s), *o),
        final(events)@ == old(events)@ + flooding_events(*old(s), *o),
{
    let ghost e0 = events@;
    if o.now < CONTAIN_WINDOW_LOOPS || s.flooding {
        if o.enemies_at_idle_point > 5 && !s.flooding {
            events.push(CheeseEvent::FloodingStarted);
            s.flooding = true;
        } else if s.flooding && (o.townhalls > 1 || o.has_ready_bunker) {
            events.push(CheeseEvent::FloodingEnded);
            s.flooding = false;
        }
    }
    assert(events@ =~= e0 + flooding_events(*old(s), *o));
}

/// One step of the cheese watch; returns what started or ended, to log.
pub fn cheese_detection(s: &mut CheeseState, o: &CheeseObservation) -> (events: Vec<CheeseEvent>)
    requires
        old(s).ramp_blocker_timer < u64::MAX,
    ensures
        *final(s) == cheese_step(*old(s), *o),
        events@ == cheese_events(*old(s), *o),
{
    let mut events: Vec<CheeseEvent> = Vec::new();
    worker_rush_stage(s, o, &mut events);
    contain_stage(s, o, &mut events);
    ramp_stage(s, o, &mut events);
    flooding_stage(s, o, &mut events);
    assert(events@ =~= cheese_events(*old(s), *o));
    events
}

/// A worker rush, once seen, lasts until no enemy worker is left on our side;
/// a flood lasts until a second base or a bunker stands.
pub proof fn cheese_flags_persist(s: CheeseState, o: CheeseObservation)
    ensures
        s.worker_rush && count_true(o.workers_on_our_side@) > 0 ==> cheese_step(s, o).worker_rush,
        s.flooding && o.townhalls <= 1 && !o.has_ready_bunker ==> cheese_step(s, o).flooding,
        !s.worker_rush && o.now >= WORKER_RUSH_WINDOW_LOOPS ==> !cheese_step(s, o).worker_rush,
{
}

proof fn lemma_last_event(e: Seq<CheeseEvent>, x: CheeseEvent)
    ensures
        (e + seq![x]).contains(x),
        (e + seq![x])[(e + seq![x]).len() - 1] == x,
{
    assert((e + seq![x])[e.len() as int] == x);
}

/// How floods are read. A flood is read when, within the opening window,
/// more than five enemies stand at our idle point while none is on record;
/// it ends when a second town hall or a finished bunker stands, and is
/// reported as it starts and as it ends. Otherwise the flag stays as it was
/// (after the window, a flood off the record stays off). No other watch
/// touches the flag.
pub proof fn flooding_law(s: CheeseState, o: CheeseObservation)
    ensures
        s.flooding && (o.townhalls > 1 || o.has_ready_bunker) ==> !cheese_step(s, o).flooding && cheese_events(
            s,
            o,
        ).contains(CheeseEvent::FloodingEnded),
        !s.flooding && o.now < CONTAIN_WINDOW_LOOPS && o.enemies_at_idle_point > 5 ==> cheese_step(s, o).flooding
            && cheese_events(s, o).contains(CheeseEvent::FloodingStarted),
        s.flooding && o.townhalls <= 1 && !o.has_ready_bunker ==> cheese_step(s, o).flooding,
        !s.flooding && !(o.now < CONTAIN_WINDOW_LOOPS && o.enemies_at_idle_point > 5) ==> !cheese_step(s, o).flooding,
{
    let s1 = worker_rush_step(s, o);
    let s2 = contain_step(s1, o);
    let s3 = ramp_step(s2, o);
    assert(s3.flooding == s.flooding);
    let e = worker_rush_events(s, o) + contain_events(s1, o) + ramp_events(s2, o);
    if s.flooding && (o.townhalls > 1 || o.has_ready_bunker) {
        lemma_last_event(e, CheeseEvent::FloodingEnded);
    }
    if !s.flooding && o.now < CONTAIN_WINDOW_LOOPS && o.enemies_at_idle_point > 5 {
        lemma_last_event(e, CheeseEvent::FloodingStarted);
    }
}

/// How worker rushes are read. Within the rush window, or while a rush is
/// on, more than four enemy workers on our side mark a rush and report it;
/// none left on our side ends a rush that was on and reports the end; a few
/// workers leave the flag as it was. Outside the window no rush starts.
pub proof fn worker_rush_law(s: CheeseState, o: CheeseObservation)
    ensures
        (o.now < WORKER_RUSH_WINDOW_LOOPS || s.worker_rush) && count_true(o.workers_on_our_side@) > 4
            ==> cheese_step(s, o).worker_rush && cheese_events(s, o)[0] == CheeseEvent::WorkerRushStarted,
        s.worker_rush && count_true(o.workers_on_our_side@) == 0 ==> !cheese_step(s, o).worker_rush && cheese_events(
            s,
            o,
        )[0] == CheeseEvent::WorkerRushEnded,
        0 < count_true(o.workers_on_our_side@) <= 4 ==> cheese_step(s, o).worker_rush == s.worker_rush,
        !s.worker_rush && o.now >= WORKER_RUSH_WINDOW_LOOPS ==> !cheese_step(s, o).worker_rush,
{
    let s1 = worker_rush_step(s, o);
    let rest = contain_events(s1, o) + ramp_events(contain_step(s1, o), o) + flooding_events(
        ramp_step(contain_step(s1, o), o),
        o,
    );
    assert(cheese_events(s, o) =~= worker_rush_events(s, o) + rest);
    if worker_rush_events(s, o).len() > 0 {
        assert(cheese_events(s, o)[0] == worker_rush_events(s, o)[0]);
    }
}

/// How contain rushes are read. Within the contain window, or while one is
/// on, a visible enemy structure on our side marks a contain rush, reported
/// with the type of the first such structure; no enemy structure in sight
/// ends it; enemy structures all on their side leave the flag as it was.
pub proof fn contain_law(s: CheeseState, o: CheeseObservation, i: int)
    ensures
        (o.now < CONTAIN_WINDOW_LOOPS || s.contain_rush) && 0 <= i < o.structures@.len() && o.structures@[i].on_our_side
            ==> cheese_step(s, o).contain_rush,
        (o.now < CONTAIN_WINDOW_LOOPS || s.contain_rush) && first_close_structure(o.structures@) == Some(i) ==> 0 <= i
            < o.structures@.len() && o.structures@[i].on_our_side && (forall|j: int|
            0 <= j < i ==> !(#[trigger] o.structures@[j]).on_our_side),
        s.contain_rush && o.structures@.len() == 0 ==> !cheese_step(s, o).contain_rush,
        (forall|j: int| 0 <= j < o.structures@.len() ==> !(#[trigger] o.structures@[j]).on_our_side)
            && o.structures@.len() > 0 ==> cheese_step(s, o).contain_rush == s.contain_rush,
{
    lemma_first_close_spec(o.structures@);
    if 0 <= i < o.structures@.len() && o.structures@[i].on_our_side {
        assert(first_close_structure(o.structures@) is Some);
    }
}

proof fn lemma_first_close_spec(st: Seq<EnemyStructure>)
    ensures
        first_close_structure(st) matches Some(k) ==> 0 <= k < st.len() && st[k].on_our_side && forall|j: int|
            0 <= j < k ==> !(#[trigger] st[j]).on_our_side,
        first_close_structure(st) is None ==> forall|j: int| 0 <= j < st.len() ==> !(#[trigger] st[j]).on_our_side,
    decreases st.len(),
{
    if st.len() > 0 {
        lemma_first_close_spec(st.drop_last());
        assert forall|j: int| 0 <= j < st.len() - 1 implies #[trigger] st[j] == st.drop_last()[j] by {}
    }
}

} // verus!
