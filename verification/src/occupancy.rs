//! Who holds the tactical positions at each choke point: tanks and infantry
//! take a position, let it go when they attack, and lose it when they die.
//! A position is named by its choke and its place in the choke's list; the
//! map coordinates stay with the caller.
use vstd::prelude::*;

verus! {

/// The holders of one choke point's positions; `None` marks a free one.
#[derive(Clone, Debug)]
pub struct ChokeSlots {
    pub tank_slots: Vec<Option<u64>>,
    pub bio_slots: Vec<Option<u64>>,
}

pub struct ChokeSlotsView {
    pub tank_slots: Seq<Option<u64>>,
    pub bio_slots: Seq<Option<u64>>,
}

pub open spec fn slots_view(c: ChokeSlots) -> ChokeSlotsView {
    ChokeSlotsView { tank_slots: c.tank_slots@, bio_slots: c.bio_slots@ }
}

/// A holder keeps a position when the army holds back and it still lives.
pub open spec fn kept_holder(h: Option<u64>, attacking: bool, living: Seq<u64>) -> Option<u64> {
    if attacking {
        None
    } else {
        match h {
            Some(t) => if living.contains(t) {
                Some(t)
            } else {
                None
            },
            None => None,
        }
    }
}

pub open spec fn cleaned(s: Seq<Option<u64>>, attacking: bool, living: Seq<u64>) -> Seq<Option<u64>> {
    s.map_values(|h: Option<u64>| kept_holder(h, attacking, living))
}

fn clean_slots(s: &Vec<Option<u64>>, attacking: bool, living: &Vec<u64>) -> (r: Vec<Option<u64>>)
    ensures
        r@ == cleaned(s@, attacking, living@),
{
    let mut out: Vec<Option<u64>> = Vec::new();
    let mut i: usize = 0;
    while i < s.len()
        invariant
            i <= s.len(),
            out@ == cleaned(s@.take(i as int), attacking, living@),
        decreases s.len() - i,
    {
        let h = if attacking {
            None
        } else {
            match s[i] {
                Some(t) => if crate::army::vec_contains_u64(living, t) {
                    Some(t)
                } else {
                    None
                },
                None => None,
            }
        };
        out.push(h);
        assert(out@ =~= cleaned(s@.take(i + 1), attacking, living@));
        i += 1;
    }
    assert(s@.take(s.len() as int) =~= s@);
    out
}

/// Frees every position while the army attacks, and the positions of units
/// that died. `living` holds the tags of our units.
pub fn cleanup_tactical_positions(chokes: &Vec<ChokeSlots>, attacking: bool, living: &Vec<u64>) -> (r: Vec<ChokeSlots>)
    ensures
        r@.len() == chokes@.len(),
        forall|i: int|
            0 <= i < chokes@.len() ==> #[trigger] slots_view(r@[i]) == (ChokeSlotsView {
                tank_slots: cleaned(chokes@[i].tank_slots@, attacking, living@),
                bio_slots: cleaned(chokes@[i].bio_slots@, attacking, living@),
            }),
{
    let mut out: Vec<ChokeSlots> = Vec::new();
    let mut i: usize = 0;
    while i < chokes.len()
        invariant
            i <= chokes.len(),
            out@.len() == i,
            forall|j: int|
                0 <= j < i ==> #[trigger] slots_view(out@[j]) == (ChokeSlotsView {
                    tank_slots: cleaned(chokes@[j].tank_slots@, attacking, living@),
                    bio_slots: cleaned(chokes@[j].bio_slots@, attacking, living@),
                }),
        decreases chokes.len() - i,
    {
        let c = ChokeSlots {
            tank_slots: clean_slots(&chokes[i].tank_slots, attacking, living),
            bio_slots: clean_slots(&chokes[i].bio_slots, attacking, living),
        };
        out.push(c);
        i += 1;
    }
    out
}

/// The first tank position, choke by choke, that a unit holds.
pub open spec fn holds(chokes: Seq<ChokeSlots>, tag: u64, c: int, k: int) -> bool {
    0 <= c < chokes.len() && 0 <= k < chokes[c].tank_slots@.len() && chokes[c].tank_slots@[k] == Some(tag)
}

pub open spec fn comes_before(c1: int, k1: int, c2: int, k2: int) -> bool {
    c1 < c2 || (c1 == c2 && k1 < k2)
}

/// The tank position a unit holds, the first one in order of chokes, then
/// of positions; none when it holds none.
pub open spec fn first_holder(chokes: Seq<ChokeSlots>, tag: u64, r: Option<(usize, usize)>) -> bool {
    &&& r matches Some(p) ==> holds(chokes, tag, p.0 as int, p.1 as int) && forall|c: int, k: int|
        comes_before(c, k, p.0 as int, p.1 as int) ==> !#[trigger] holds(chokes, tag, c, k)
    &&& r is None ==> forall|c: int, k: int| !#[trigger] holds(chokes, tag, c, k)
}

/// Finds the tank position a unit holds: the first one in order of chokes,
/// then of positions.
pub fn get_tank_position_by_tag(chokes: &Vec<ChokeSlots>, tag: u64) -> (r: Option<(usize, usize)>)
    ensures
        first_holder(chokes@, tag, r),
{
    let mut c: usize = 0;
    while c < chokes.len()
        invariant
            c <= chokes.len(),
            forall|c2: int, k2: int| c2 < c ==> !#[trigger] holds(chokes@, tag, c2, k2),
        decreases chokes.len() - c,
    {
        let mut k: usize = 0;
        while k < chokes[c].tank_slots.len()
            invariant
                c < chokes.len(),
                k <= chokes@[c as int].tank_slots@.len(),
                forall|c2: int, k2: int| c2 < c ==> !#[trigger] holds(chokes@, tag, c2, k2),
                forall|k2: int| 0 <= k2 < k ==> !#[trigger] holds(chokes@, tag, c as int, k2),
            decreases chokes@[c as int].tank_slots@.len() - k,
        {
            if chokes[c].tank_slots[k] == Some(tag) {
                return Some((c, k));
            }
            k += 1;
        }
        c += 1;
    }
    None
}

/// The chokes after a unit takes the tank position at place `k` of choke
/// `c`, when that position exists; nothing else changes.
pub open spec fn marked(before: Seq<ChokeSlots>, after: Seq<ChokeSlots>, c: int, k: int, tag: u64) -> bool {
    &&& after.len() == before.len()
    &&& forall|j: int|
        0 <= j < before.len() ==> #[trigger] slots_view(after[j]) == if j == c && 0 <= k < before[j].tank_slots@.len() {
            ChokeSlotsView { tank_slots: before[j].tank_slots@.update(k, Some(tag)), bio_slots: before[j].bio_slots@ }
        } else {
            slots_view(before[j])
        }
}

/// Gives a tank position to a unit, when the position exists.
pub fn mark_position_occupied(chokes: &mut Vec<ChokeSlots>, c: usize, k: usize, tag: u64)
    ensures
        marked(old(chokes)@, final(chokes)@, c as int, k as int, tag),
{
    if c < chokes.len() && k < chokes[c].tank_slots.len() {
        let mut tanks = chokes[c].tank_slots.clone();
        let bios = chokes[c].bio_slots.clone();
        tanks.set(k, Some(tag));
        chokes.set(c, ChokeSlots { tank_slots: tanks, bio_slots: bios });
    }
}

/// A unit that held no tank position and is given one is found there: a
/// lookup of its tag after the marking gives exactly that position.
pub proof fn lookup_finds_the_marked_position(before: Seq<ChokeSlots>, after: Seq<ChokeSlots>, c: usize, k: usize, tag: u64)
    requires
        forall|c2: int, k2: int| !#[trigger] holds(before, tag, c2, k2),
        c < before.len(),
        k < before[c as int].tank_slots@.len(),
        marked(before, after, c as int, k as int, tag),
    ensures
        forall|r: Option<(usize, usize)>| #[trigger] first_holder(after, tag, r) ==> r == Some((c, k)),
{
    assert(slots_view(after[c as int]).tank_slots == before[c as int].tank_slots@.update(k as int, Some(tag)));
    assert(holds(after, tag, c as int, k as int));
    assert forall|c2: int, k2: int| #[trigger] holds(after, tag, c2, k2) implies c2 == c && k2 == k by {
        assert(slots_view(after[c2]).tank_slots == after[c2].tank_slots@);
        if !(c2 == c && k2 == k) {
            assert(holds(before, tag, c2, k2));
        }
    }
    assert forall|r: Option<(usize, usize)>| #[trigger] first_holder(after, tag, r) implies r == Some((c, k)) by {
        match r {
            Some(p) => {
                assert(holds(after, tag, p.0 as int, p.1 as int));
            },
            None => {
                assert(!holds(after, tag, c as int, k as int));
            },
        }
    }
}

} // verus!
