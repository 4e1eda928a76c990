//! The table of perimeter tiles on which units appear, and the random choice
//! of a subset of them.

use rand::Rng;
use vstd::prelude::*;

verus! {

/// A perimeter tile on which a unit may appear. Coordinates are tile indices:
/// the unit stands at the tile's centre, `(x + 0.5, y + 0.5)` in the world.
#[derive(Clone, Copy, Debug, PartialEq, Eq, Structural)]
pub struct SpawnPoint {
    pub x: i64,
    pub y: i64,
}

/// Number of candidate tiles in the table.
pub const MAX_SPAWNS: usize = 10;

/// The `i`-th candidate: four on the northern edge, one by the northern wall,
/// four on the southern edge, one by the southern wall.
pub open spec fn spawn_at(i: int) -> SpawnPoint {
    if i == 0 {
        SpawnPoint { x: 13, y: 1 }
    } else if i == 1 {
        SpawnPoint { x: 17, y: 1 }
    } else if i == 2 {
        SpawnPoint { x: 21, y: 1 }
    } else if i == 3 {
        SpawnPoint { x: 25, y: 1 }
    } else if i == 4 {
        SpawnPoint { x: 25, y: 3 }
    } else if i == 5 {
        SpawnPoint { x: 13, y: 21 }
    } else if i == 6 {
        SpawnPoint { x: 17, y: 21 }
    } else if i == 7 {
        SpawnPoint { x: 21, y: 21 }
    } else if i == 8 {
        SpawnPoint { x: 25, y: 21 }
    } else {
        SpawnPoint { x: 25, y: 19 }
    }
}

/// The candidate table, in its fixed order.
pub open spec fn spawn_table_spec() -> Seq<SpawnPoint> {
    Seq::new(MAX_SPAWNS as nat, |i: int| spawn_at(i))
}

/// No two candidates share a tile.
pub proof fn lemma_table_distinct()
    ensures
        forall|a: int, b: int|
            0 <= a < MAX_SPAWNS && 0 <= b < MAX_SPAWNS && a != b ==> #[trigger] spawn_at(a)
                != #[trigger] spawn_at(b),
{
}

/// Builds the candidate table.
pub fn spawn_table() -> (r: Vec<SpawnPoint>)
    ensures
        r@ == spawn_table_spec(),
{
    let mut r: Vec<SpawnPoint> = Vec::new();
    r.push(SpawnPoint { x: 13, y: 1 });
    r.push(SpawnPoint { x: 17, y: 1 });
    r.push(SpawnPoint { x: 21, y: 1 });
    r.push(SpawnPoint { x: 25, y: 1 });
    r.push(SpawnPoint { x: 25, y: 3 });
    r.push(SpawnPoint { x: 13, y: 21 });
    r.push(SpawnPoint { x: 17, y: 21 });
    r.push(SpawnPoint { x: 21, y: 21 });
    r.push(SpawnPoint { x: 25, y: 21 });
    r.push(SpawnPoint { x: 25, y: 19 });
    assert(r@ =~= spawn_table_spec());
    r
}

/// Whether `draws` is a valid sequence of draws for one pass over the table:
/// one draw per candidate, the draw for the `i`-th candidate lying in
/// `0..(MAX_SPAWNS - i)`, that is below the number of candidates left.
pub open spec fn valid_draws(draws: Seq<usize>) -> bool {
    &&& draws.len() == MAX_SPAWNS
    &&& forall|i: int| 0 <= i < MAX_SPAWNS ==> (#[trigger] draws[i] as int) < MAX_SPAWNS - i
}

/// Indices chosen from candidate `i` on, with `taken` already chosen and `k`
/// wanted: a candidate is taken when its draw lies below the number still
/// needed, and the walk stops once `k` are taken.
pub open spec fn picks_from(k: int, draws: Seq<usize>, i: int, taken: int) -> Seq<int>
    decreases MAX_SPAWNS - i,
{
    if i >= MAX_SPAWNS || taken >= k {
        seq![]
    } else if (draws[i] as int) < k - taken {
        seq![i] + picks_from(k, draws, i + 1, taken + 1)
    } else {
        picks_from(k, draws, i + 1, taken)
    }
}

/// The spawn points that one pass with the given draws selects, in table order.
pub open spec fn selection(k: int, draws: Seq<usize>) -> Seq<SpawnPoint> {
    picks_from(k, draws, 0, 0).map_values(|i: int| spawn_at(i))
}

/// The number of points a request for `k` yields.
pub open spec fn wanted(k: int) -> int {
    if k < MAX_SPAWNS {
        k
    } else {
        MAX_SPAWNS as int
    }
}

/// The properties every selection has, whatever the draws were.
pub open spec fn is_valid_sample(k: int, r: Seq<SpawnPoint>) -> bool {
    &&& r.len() == wanted(k)
    &&& forall|j: int| 0 <= j < r.len() ==> spawn_table_spec().contains(#[trigger] r[j])
    &&& forall|a: int, b: int| 0 <= a < b < r.len() ==> #[trigger] r[a] != #[trigger] r[b]
    &&& k >= MAX_SPAWNS ==> r == spawn_table_spec()
}

/// Walks the table once and keeps the `i`-th candidate when its draw lies
/// below the number of points still needed; with draws uniform over the
/// candidates left, every subset of `min(k, 10)` points is equally likely.
pub fn select_spawn_points(k: usize, draws: &Vec<usize>) -> (r: Vec<SpawnPoint>)
    requires
        valid_draws(draws@),
    ensures
        r@ == selection(k as int, draws@),
        is_valid_sample(k as int, r@),
{
    let table = spawn_table();
    let mut spawns: Vec<SpawnPoint> = Vec::new();
    let ghost mut idx: Seq<int> = seq![];
    let mut i: usize = 0;
    while i < MAX_SPAWNS && spawns.len() < k
        invariant
            table@ == spawn_table_spec(),
            valid_draws(draws@),
            i <= MAX_SPAWNS,
            spawns.len() == idx.len(),
            spawns.len() <= i,
            spawns.len() <= wanted(k as int),
            wanted(k as int) <= spawns.len() + (MAX_SPAWNS - i),
            idx + picks_from(k as int, draws@, i as int, spawns.len() as int) == picks_from(
                k as int,
                draws@,
                0,
                0,
            ),
            forall|j: int| 0 <= j < idx.len() ==> 0 <= #[trigger] idx[j] < i,
            forall|a: int, b: int| 0 <= a < b < idx.len() ==> #[trigger] idx[a] < #[trigger] idx[b],
            forall|j: int| 0 <= j < idx.len() ==> #[trigger] spawns@[j] == spawn_at(idx[j]),
            k >= MAX_SPAWNS ==> spawns.len() == i,
            k >= MAX_SPAWNS ==> forall|j: int| 0 <= j < idx.len() ==> #[trigger] idx[j] == j,
        decreases MAX_SPAWNS - i,
    {
        let needed = k - spawns.len();
        if draws[i] < needed {
            spawns.push(table[i]);
            proof {
                let old_idx = idx;
                idx = idx.push(i as int);
                assert(idx =~= old_idx + seq![i as int]);
                assert(seq![i as int] + picks_from(
                    k as int,
                    draws@,
                    i + 1,
                    spawns.len() as int,
                ) == picks_from(k as int, draws@, i as int, spawns.len() - 1));
                assert((old_idx + seq![i as int]) + picks_from(
                    k as int,
                    draws@,
                    i + 1,
                    spawns.len() as int,
                ) =~= old_idx + (seq![i as int] + picks_from(
                    k as int,
                    draws@,
                    i + 1,
                    spawns.len() as int,
                )));
            }
        }
        i = i + 1;
    }
    proof {
        assert(picks_from(k as int, draws@, i as int, spawns.len() as int) =~= seq![]);
        assert(idx =~= idx + seq![]);
        assert(spawns@ =~= selection(k as int, draws@));
        lemma_table_distinct();
        assert forall|j: int| 0 <= j < spawns.len() implies spawn_table_spec().contains(
            #[trigger] spawns@[j],
        ) by {
            assert(spawn_table_spec()[idx[j]] == spawns@[j]);
        }
        if k >= MAX_SPAWNS {
            assert(spawns@ =~= spawn_table_spec());
        }
    }
    spawns
}

/// Relies on `rand::Rng::gen_range` over `rand::thread_rng()`: a value drawn
/// from `0..n`; it panics on an empty range, hence `n > 0`.
#[verifier::external_body]
fn draw_below(n: usize) -> (r: usize)
    requires
        n > 0,
    ensures
        r < n,
{
    rand::thread_rng().gen_range(0..n)
}

/// Chooses `min(k, 10)` distinct candidates uniformly at random, in table
/// order; asking for the whole table or more returns the whole table. One
/// random number is drawn per candidate visited, and the walk stops once
/// enough are taken; the candidates never visited get a zero, which the
/// selection does not read.
pub fn generate_spawn_points(k: usize) -> (r: Vec<SpawnPoint>)
    ensures
        is_valid_sample(k as int, r@),
        exists|draws: Seq<usize>| valid_draws(draws) && r@ == selection(k as int, draws),
{
    let mut draws: Vec<usize> = Vec::new();
    let mut taken: usize = 0;
    let mut i: usize = 0;
    while i < MAX_SPAWNS && taken < k
        invariant
            i <= MAX_SPAWNS,
            taken <= k,
            draws.len() == i,
            forall|j: int| 0 <= j < i ==> (#[trigger] draws@[j] as int) < MAX_SPAWNS - j,
        decreases MAX_SPAWNS - i,
    {
        let d = draw_below(MAX_SPAWNS - i);
        draws.push(d);
        if d < k - taken {
            taken = taken + 1;
        }
        i = i + 1;
    }
    while i < MAX_SPAWNS
        invariant
            i <= MAX_SPAWNS,
            draws.len() == i,
            forall|j: int| 0 <= j < i ==> (#[trigger] draws@[j] as int) < MAX_SPAWNS - j,
        decreases MAX_SPAWNS - i,
    {
        draws.push(0);
        i = i + 1;
    }
    select_spawn_points(k, &draws)
}

} // verus!
