//! Cities and the static adjacency table of the board.
use vstd::prelude::*;

verus! {

/// Identifier of a city: its position in the adjacency table of the game.
#[derive(Debug, Clone, Copy, PartialEq, Eq, Structural, Hash)]
pub struct CityCard(pub usize);

/// Every neighbour named in rows `0..upto` of `graph` is a city of the graph.
pub open spec fn rows_in_range(graph: Seq<Vec<CityCard>>, upto: int) -> bool {
    forall|c: int, k: int|
        0 <= c < upto && 0 <= k < graph[c]@.len() ==> (#[trigger] graph[c]@[k]).0 < graph.len()
}

/// An adjacency table is usable when it has a city and names only its own cities.
pub open spec fn graph_wf(graph: Seq<Vec<CityCard>>) -> bool {
    &&& graph.len() >= 1
    &&& rows_in_range(graph, graph.len() as int)
}

/// Whether `to` is listed among the neighbours of `from`.
pub open spec fn adjacent(graph: Seq<Vec<CityCard>>, from: CityCard, to: CityCard) -> bool {
    0 <= from.0 < graph.len() && graph[from.0 as int]@.contains(to)
}

/// Every card of `cards` names a city below `ncities`.
pub open spec fn cities_in_range(cards: Seq<CityCard>, ncities: int) -> bool {
    forall|i: int| 0 <= i < cards.len() ==> (#[trigger] cards[i]).0 < ncities
}

/// Tells whether an adjacency table names only its own cities.
pub fn neighbors_in_range(graph: &Vec<Vec<CityCard>>) -> (ok: bool)
    ensures
        ok == rows_in_range(graph@, graph@.len() as int),
{
    let n = graph.len();
    let mut c: usize = 0;
    while c < n
        invariant
            c <= n,
            n == graph@.len(),
            rows_in_range(graph@, c as int),
        decreases n - c,
    {
        let row = &graph[c];
        let mut k: usize = 0;
        while k < row.len()
            invariant
                k <= row.len(),
                c < n,
                n == graph@.len(),
                row@ == graph@[c as int]@,
                forall|j: int| 0 <= j < k ==> (#[trigger] row@[j]).0 < n,
            decreases row.len() - k,
        {
            if row[k].0 >= n {
                assert(!(graph@[c as int]@[k as int].0 < graph@.len()));
                return false;
            }
            k += 1;
        }
        c += 1;
    }
    true
}

/// Tells whether `city` occurs in `cards`.
pub fn contains_city(cards: &Vec<CityCard>, city: CityCard) -> (found: bool)
    ensures
        found == cards@.contains(city),
{
    let mut k: usize = 0;
    while k < cards.len()
        invariant
            k <= cards.len(),
            forall|j: int| 0 <= j < k ==> cards@[j] != city,
        decreases cards.len() - k,
    {
        if cards[k] == city {
            return true;
        }
        k += 1;
    }
    false
}

} // verus!
