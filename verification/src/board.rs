//! The cubes on the board and the way an outbreak spreads.
use vstd::prelude::*;

use crate::city_graph::{cities_in_range, CityCard};
use crate::game_enums::{Disease, GameEnd, PerDisease};
use crate::pandemic_game::{PandemicGameConfig, MAX_CUBES_PER_CITY};

verus! {

/// Number of cubes of one disease on all the cities together.
pub open spec fn cubes_on_board(cubes: Seq<PerDisease<u32>>, disease: Disease) -> nat
    decreases cubes.len(),
{
    if cubes.len() == 0 {
        0
    } else {
        cubes_on_board(cubes.drop_last(), disease) + cubes.last().spec_get(disease) as nat
    }
}

/// A board without cubes holds no cube of any disease.
pub proof fn lemma_cubes_on_empty_board(cubes: Seq<PerDisease<u32>>, disease: Disease)
    requires
        forall|c: int| 0 <= c < cubes.len() ==> (#[trigger] cubes[c]).spec_get(disease) == 0,
    ensures
        cubes_on_board(cubes, disease) == 0,
    decreases cubes.len(),
{
    if cubes.len() > 0 {
        lemma_cubes_on_empty_board(cubes.drop_last(), disease);
    }
}

/// Changing the cubes of one city changes the number on the board by as much,
/// for the disease concerned, and leaves the other diseases as they were.
pub proof fn lemma_cubes_after_change(
    cubes: Seq<PerDisease<u32>>,
    city: int,
    disease: Disease,
    count: u32,
    other: Disease,
)
    requires
        0 <= city < cubes.len(),
    ensures
        cubes_on_board(cubes.update(city, cubes[city].spec_set(disease, count)), disease)
            == cubes_on_board(cubes, disease) - cubes[city].spec_get(disease) + count,
        other != disease ==> cubes_on_board(
            cubes.update(city, cubes[city].spec_set(disease, count)),
            other,
        ) == cubes_on_board(cubes, other),
        cubes_on_board(cubes, disease) >= cubes[city].spec_get(disease),
    decreases cubes.len(),
{
    let changed = cubes.update(city, cubes[city].spec_set(disease, count));
    if city == cubes.len() - 1 {
        assert(changed.drop_last() =~= cubes.drop_last());
    } else {
        lemma_cubes_after_change(cubes.drop_last(), city, disease, count, other);
        assert(changed.drop_last() =~= cubes.drop_last().update(
            city,
            cubes.drop_last()[city].spec_set(disease, count),
        ));
    }
}

/// A board that holds at least as many cubes of a disease in every city as
/// another holds at least as many in all, and more if some city holds more.
pub proof fn lemma_cubes_grow_with_cities(
    fewer: Seq<PerDisease<u32>>,
    more: Seq<PerDisease<u32>>,
    disease: Disease,
    city: int,
)
    requires
        fewer.len() == more.len(),
        forall|c: int|
            0 <= c < fewer.len() ==> (#[trigger] fewer[c]).spec_get(disease) <= more[c].spec_get(
                disease,
            ),
    ensures
        cubes_on_board(fewer, disease) <= cubes_on_board(more, disease),
        0 <= city < fewer.len() && fewer[city].spec_get(disease) < more[city].spec_get(disease)
            ==> cubes_on_board(fewer, disease) < cubes_on_board(more, disease),
    decreases fewer.len(),
{
    if fewer.len() > 0 {
        let last = fewer.len() - 1;
        assert(fewer[last].spec_get(disease) <= more[last].spec_get(disease));
        assert forall|c: int| 0 <= c < fewer.drop_last().len() implies (
        #[trigger] fewer.drop_last()[c]).spec_get(disease) <= more.drop_last()[c].spec_get(
            disease,
        ) by {
            assert(fewer[c].spec_get(disease) <= more[c].spec_get(disease));
        }
        lemma_cubes_grow_with_cities(fewer.drop_last(), more.drop_last(), disease, city);
    }
}

/// Distinct cities of a board of `ncities` cities number at most `ncities`.
pub proof fn lemma_distinct_cities_bound(cities: Seq<CityCard>, ncities: int)
    requires
        cities.no_duplicates(),
        cities_in_range(cities, ncities),
        0 <= ncities,
    ensures
        cities.len() <= ncities,
    decreases ncities,
{
    if ncities == 0 {
        if cities.len() > 0 {
            assert(cities[0].0 < ncities);
        }
    } else {
        let top = CityCard((ncities - 1) as usize);
        if cities.contains(top) {
            let k = cities.index_of(top);
            let rest = cities.remove(k);
            assert forall|i: int| 0 <= i < rest.len() implies (#[trigger] rest[i]).0 < ncities - 1 by {
                let j = if i < k { i } else { i + 1 };
                assert(rest[i] == cities[j]);
                assert(cities[j].0 < ncities);
                assert(cities[j] != cities[k]);
            }
            assert forall|i: int, j: int| 0 <= i < rest.len() && 0 <= j < rest.len() && i != j
                implies rest[i] != rest[j] by {
                let i2 = if i < k { i } else { i + 1 };
                let j2 = if j < k { j } else { j + 1 };
                assert(rest[i] == cities[i2] && rest[j] == cities[j2]);
            }
            lemma_distinct_cities_bound(rest, ncities - 1);
        } else {
            assert forall|i: int| 0 <= i < cities.len() implies (#[trigger] cities[i]).0 < ncities
                - 1 by {
                assert(cities[i].0 < ncities);
                assert(cities.contains(cities[i]));
            }
            lemma_distinct_cities_bound(cities, ncities - 1);
        }
    }
}

/// The part of a game that cubes and outbreaks change.
pub struct Board {
    /// Cubes of each disease, by city.
    pub cubes: Seq<PerDisease<u32>>,
    /// Cubes of each disease on the whole board.
    pub totals: PerDisease<u32>,
    /// Outbreaks so far in the game.
    pub outbreaks: u32,
}

impl Board {
    /// Cubes of a disease in a city.
    pub open spec fn count(self, city: CityCard, disease: Disease) -> u32 {
        self.cubes[city.0 as int].spec_get(disease)
    }

    /// The board with one more cube of a disease in a city.
    pub open spec fn with_cube(self, city: CityCard, disease: Disease) -> Board {
        Board {
            cubes: self.cubes.update(
                city.0 as int,
                self.cubes[city.0 as int].spec_set(disease, (self.count(city, disease) + 1) as u32),
            ),
            totals: self.totals.spec_set(disease, (self.totals.spec_get(disease) + 1) as u32),
            ..self
        }
    }

    /// The board with all but `left` cubes of a disease taken from a city.
    pub open spec fn with_count(self, city: CityCard, disease: Disease, left: u32) -> Board {
        Board {
            cubes: self.cubes.update(city.0 as int, self.cubes[city.0 as int].spec_set(disease, left)),
            totals: self.totals.spec_set(
                disease,
                (self.totals.spec_get(disease) - self.count(city, disease) + left) as u32,
            ),
            ..self
        }
    }

    /// The board with one more outbreak counted.
    pub open spec fn with_outbreak(self) -> Board {
        Board { outbreaks: (self.outbreaks + 1) as u32, ..self }
    }

    /// No city holds more than three cubes of a disease, the totals are the
    /// sums over the cities and respect the limit, and so do the outbreaks.
    pub open spec fn wf(self, config: &PandemicGameConfig) -> bool {
        &&& cubes_ok(config, self.cubes, self.totals)
        &&& self.outbreaks <= config.max_outbreaks
    }
}

/// There is an entry for every city, no city holds more than three cubes of a
/// disease, and the totals are the sums over the cities and respect the limit.
pub open spec fn cubes_ok(
    config: &PandemicGameConfig,
    cubes: Seq<PerDisease<u32>>,
    totals: PerDisease<u32>,
) -> bool {
    &&& cubes.len() == config.ncities()
    &&& forall|c: int, d: Disease|
        0 <= c < cubes.len() ==> (#[trigger] cubes[c].spec_get(d)) <= MAX_CUBES_PER_CITY
    &&& forall|d: Disease| (#[trigger] totals.spec_get(d)) == cubes_on_board(cubes, d)
    &&& forall|d: Disease| (#[trigger] totals.spec_get(d)) <= config.max_disease_cubes_per_color
}

/// Where a cascade stands or ended: the board, the cities that have broken
/// out in it, in order, and the terminal condition that stopped it, if any.
pub struct Cascade {
    pub board: Board,
    pub outbroken: Seq<CityCard>,
    pub end: Option<GameEnd>,
}

/// What a cascade needs of its bookkeeping: the cities that have broken out
/// are distinct cities of the board, and the placements still to make name
/// cities of the board.
pub open spec fn cascade_inputs_ok(
    config: &PandemicGameConfig,
    outbroken: Seq<CityCard>,
    pending: Seq<CityCard>,
) -> bool {
    &&& config.graph_ok()
    &&& outbroken.no_duplicates()
    &&& cities_in_range(outbroken, config.ncities())
    &&& cities_in_range(pending, config.ncities())
}

/// Places one cube of `disease` for each entry of `pending`, last entry first.
///
/// A city that has broken out in this cascade takes no cube. A city below
/// three cubes gains one, unless the board already holds as many cubes of the
/// disease as the limit allows: then the cascade ends with the cube limit and
/// the board as it is. A city at three cubes breaks out: unless the outbreaks
/// already stand at their limit, the counter goes up by one and the city joins
/// those that have broken out; the cascade ends there if the counter has
/// reached the limit, and else goes on with one placement for each neighbour,
/// in the order of the neighbour list, before the placements that were pending.
pub open spec fn spread(
    config: &PandemicGameConfig,
    disease: Disease,
    board: Board,
    outbroken: Seq<CityCard>,
    pending: Seq<CityCard>,
) -> Cascade
    decreases config.ncities() - outbroken.len(), pending.len(),
    when cascade_inputs_ok(config, outbroken, pending)
{
    if pending.len() == 0 {
        Cascade { board, outbroken, end: None }
    } else {
        let city = pending.last();
        let rest = pending.drop_last();
        if outbroken.contains(city) {
            spread(config, disease, board, outbroken, rest)
        } else if board.count(city, disease) < MAX_CUBES_PER_CITY {
            if board.totals.spec_get(disease) < config.max_disease_cubes_per_color {
                spread(config, disease, board.with_cube(city, disease), outbroken, rest)
            } else {
                Cascade { board, outbroken, end: Some(GameEnd::DiseaseCubeLimit) }
            }
        } else if board.outbreaks >= config.max_outbreaks {
            Cascade { board, outbroken, end: Some(GameEnd::OutbreakLimit) }
        } else if board.outbreaks + 1 >= config.max_outbreaks {
            Cascade {
                board: board.with_outbreak(),
                outbroken: outbroken.push(city),
                end: Some(GameEnd::OutbreakLimit),
            }
        } else {
            proof {
                lemma_outbreak_marks_new_city(config, outbroken, pending);
            }
            spread(
                config,
                disease,
                board.with_outbreak(),
                outbroken.push(city),
                rest + config.neighbors(city).reverse(),
            )
        }
    }
}

/// The cascade that one more cube of `disease` in `city` sets off.
pub open spec fn cascade(
    config: &PandemicGameConfig,
    board: Board,
    city: CityCard,
    disease: Disease,
) -> Cascade {
    spread(config, disease, board, Seq::empty(), seq![city])
}

/// One more cube for a city below three cubes sets nothing off: it is
/// placed if the total of the disease is below the limit, and else the game
/// ends on the cube limit with the board as it is.
pub proof fn lemma_cascade_below_three(
    config: &PandemicGameConfig,
    board: Board,
    city: CityCard,
    disease: Disease,
)
    requires
        config.graph_ok(),
        city.0 < config.ncities(),
        board.count(city, disease) < MAX_CUBES_PER_CITY,
    ensures
        cascade(config, board, city, disease) == if board.totals.spec_get(disease)
            < config.max_disease_cubes_per_color {
            Cascade { board: board.with_cube(city, disease), outbroken: Seq::empty(), end: None }
        } else {
            Cascade { board, outbroken: Seq::empty(), end: Some(GameEnd::DiseaseCubeLimit) }
        },
{
    let none = Seq::<CityCard>::empty();
    assert(seq![city].drop_last() =~= none);
    assert(!none.contains(city));
    assert(cascade_inputs_ok(config, none, seq![city]));
    assert(cascade_inputs_ok(config, none, none));
    assert(spread(config, disease, board.with_cube(city, disease), none, none) == (Cascade {
        board: board.with_cube(city, disease),
        outbroken: none,
        end: None,
    }));
}

/// A city that breaks out is new among those that have: they stay distinct
/// cities of the board, and so stay fewer than the board has cities.
pub proof fn lemma_outbreak_marks_new_city(
    config: &PandemicGameConfig,
    outbroken: Seq<CityCard>,
    pending: Seq<CityCard>,
)
    requires
        cascade_inputs_ok(config, outbroken, pending),
        pending.len() > 0,
        !outbroken.contains(pending.last()),
    ensures
        outbroken.len() < config.ncities(),
        cascade_inputs_ok(
            config,
            outbroken.push(pending.last()),
            pending.drop_last() + config.neighbors(pending.last()).reverse(),
        ),
{
    let city = pending.last();
    let marked = outbroken.push(city);
    let n = config.ncities();
    assert(city.0 < n);
    assert forall|i: int, j: int| 0 <= i < marked.len() && 0 <= j < marked.len() && i != j
        implies marked[i] != marked[j] by {
        if i < outbroken.len() {
            assert(outbroken.contains(marked[i]));
        }
        if j < outbroken.len() {
            assert(outbroken.contains(marked[j]));
        }
    }
    assert(cities_in_range(marked, n));
    lemma_distinct_cities_bound(marked, n);
    let rest = pending.drop_last();
    let neighbors = config.neighbors(city).reverse();
    let next = rest + neighbors;
    assert forall|i: int| 0 <= i < next.len() implies (#[trigger] next[i]).0 < n by {
        if i < rest.len() {
            assert(next[i] == pending[i]);
        } else {
            let k = i - rest.len();
            assert(next[i] == neighbors[k]);
            assert(neighbors[k] == config.neighbors(city)[config.neighbors(city).len() - 1 - k]);
            assert(config.city_graph@[city.0 as int]@[config.neighbors(city).len() - 1 - k].0 < n);
        }
    }
}

/// What holds of every cascade on a well-formed board.
///
/// The board stays well formed: no city above three cubes, no total above the
/// limit. The cities that break out are distinct, each holds three cubes at the
/// end, and the outbreak counter rises by their number. No city loses a cube
/// and no other disease is touched. A cascade ends only on the cube limit, with
/// the total of the disease at the limit, or on the outbreak limit, with the
/// counter at its limit.
pub proof fn lemma_spread_laws(
    config: &PandemicGameConfig,
    disease: Disease,
    board: Board,
    outbroken: Seq<CityCard>,
    pending: Seq<CityCard>,
)
    requires
        cascade_inputs_ok(config, outbroken, pending),
        board.wf(config),
    ensures
        ({
            let r = spread(config, disease, board, outbroken, pending);
            &&& r.board.wf(config)
            &&& r.outbroken.no_duplicates()
            &&& cities_in_range(r.outbroken, config.ncities())
            &&& r.outbroken.len() >= outbroken.len()
            &&& r.outbroken.subrange(0, outbroken.len() as int) == outbroken
            &&& r.board.outbreaks == board.outbreaks + (r.outbroken.len() - outbroken.len())
            &&& forall|i: int|
                outbroken.len() <= i < r.outbroken.len() ==> r.board.count(
                    #[trigger] r.outbroken[i],
                    disease,
                ) == MAX_CUBES_PER_CITY
            &&& forall|c: int, d: Disease|
                0 <= c < board.cubes.len() ==> {
                    &&& (#[trigger] r.board.cubes[c].spec_get(d)) >= board.cubes[c].spec_get(d)
                    &&& d != disease ==> r.board.cubes[c].spec_get(d) == board.cubes[c].spec_get(d)
                }
            &&& r.end is None || r.end == Some(GameEnd::DiseaseCubeLimit) || r.end == Some(
                GameEnd::OutbreakLimit,
            )
            &&& r.end == Some(GameEnd::DiseaseCubeLimit) ==> r.board.totals.spec_get(disease)
                == config.max_disease_cubes_per_color
            &&& r.end == Some(GameEnd::OutbreakLimit) ==> r.board.outbreaks == config.max_outbreaks
        }),
    decreases config.ncities() - outbroken.len(), pending.len(),
{
    let r = spread(config, disease, board, outbroken, pending);
    assert(outbroken.subrange(0, outbroken.len() as int) =~= outbroken);
    if pending.len() == 0 {
    } else {
        let city = pending.last();
        let rest = pending.drop_last();
        assert(city.0 < config.ncities());
        assert(cities_in_range(rest, config.ncities()));
        if outbroken.contains(city) {
            lemma_spread_laws(config, disease, board, outbroken, rest);
        } else if board.count(city, disease) < MAX_CUBES_PER_CITY {
            if board.totals.spec_get(disease) < config.max_disease_cubes_per_color {
                let next = board.with_cube(city, disease);
                lemma_with_cube_wf(config, board, city, disease);
                lemma_spread_laws(config, disease, next, outbroken, rest);
                assert forall|c: int, d: Disease| 0 <= c < board.cubes.len() implies {
                    &&& (#[trigger] r.board.cubes[c].spec_get(d)) >= board.cubes[c].spec_get(d)
                    &&& d != disease ==> r.board.cubes[c].spec_get(d) == board.cubes[c].spec_get(d)
                } by {
                    assert(r.board.cubes[c].spec_get(d) >= next.cubes[c].spec_get(d));
                }
            }
        } else if board.outbreaks >= config.max_outbreaks {
        } else {
            let after = board.with_outbreak();
            let marked = outbroken.push(city);
            assert(board.cubes[city.0 as int].spec_get(disease) <= MAX_CUBES_PER_CITY);
            lemma_outbreak_marks_new_city(config, outbroken, pending);
            if board.outbreaks + 1 >= config.max_outbreaks {
                assert(r.outbroken.subrange(0, outbroken.len() as int) =~= outbroken);
            } else {
                let next = rest + config.neighbors(city).reverse();
                lemma_spread_laws(config, disease, after, marked, next);
                assert(r.outbroken.subrange(0, outbroken.len() as int) =~= r.outbroken.subrange(
                    0,
                    marked.len() as int,
                ).subrange(0, outbroken.len() as int));
                assert(r.outbroken[outbroken.len() as int] == r.outbroken.subrange(
                    0,
                    marked.len() as int,
                )[outbroken.len() as int]);
                assert(r.outbroken[outbroken.len() as int] == city);
                assert(r.board.cubes[city.0 as int].spec_get(disease)
                    >= after.cubes[city.0 as int].spec_get(disease));
                assert(r.board.cubes[city.0 as int].spec_get(disease) <= MAX_CUBES_PER_CITY);
            }
        }
    }
}

/// What holds of the cascade that one more cube sets off on a well-formed
/// board.
///
/// Every city ends with zero to three cubes of every disease, no city loses
/// a cube, and the city that got the cube keeps its three cubes if it broke
/// out. The cities that broke out are distinct, and the outbreak counter
/// rose by their number. The total of no disease exceeds the limit; a
/// cascade that ends on the cube limit leaves the total of the disease at
/// the limit, and one that ends on the outbreak limit leaves the counter at
/// its limit.
pub proof fn lemma_cascade_laws(
    config: &PandemicGameConfig,
    board: Board,
    city: CityCard,
    disease: Disease,
)
    requires
        config.graph_ok(),
        board.wf(config),
        city.0 < config.ncities(),
    ensures
        ({
            let r = cascade(config, board, city, disease);
            &&& r.board.wf(config)
            &&& forall|c: int, d: Disease|
                0 <= c < board.cubes.len() ==> board.cubes[c].spec_get(d) <= (
                #[trigger] r.board.cubes[c].spec_get(d)) <= MAX_CUBES_PER_CITY
            &&& forall|c: int, d: Disease|
                0 <= c < board.cubes.len() && d != disease ==> (
                #[trigger] r.board.cubes[c].spec_get(d)) == board.cubes[c].spec_get(d)
            &&& r.outbroken.no_duplicates()
            &&& r.board.outbreaks == board.outbreaks + r.outbroken.len()
            &&& forall|i: int|
                0 <= i < r.outbroken.len() ==> r.board.count(#[trigger] r.outbroken[i], disease)
                    == MAX_CUBES_PER_CITY
            &&& forall|d: Disease|
                (#[trigger] r.board.totals.spec_get(d)) <= config.max_disease_cubes_per_color
            &&& r.end == Some(GameEnd::DiseaseCubeLimit) ==> r.board.totals.spec_get(disease)
                == config.max_disease_cubes_per_color
            &&& r.end == Some(GameEnd::OutbreakLimit) ==> r.board.outbreaks == config.max_outbreaks
            &&& r.end is None || r.end == Some(GameEnd::DiseaseCubeLimit) || r.end == Some(
                GameEnd::OutbreakLimit,
            )
        }),
{
    lemma_spread_laws(config, disease, board, Seq::empty(), seq![city]);
    let r = cascade(config, board, city, disease);
    assert forall|c: int, d: Disease| 0 <= c < board.cubes.len() implies board.cubes[c].spec_get(d)
        <= (#[trigger] r.board.cubes[c].spec_get(d)) <= MAX_CUBES_PER_CITY by {}
}

/// A board stays well formed when a city below three cubes gains one while the
/// total of the disease is below the limit.
pub proof fn lemma_with_cube_wf(
    config: &PandemicGameConfig,
    board: Board,
    city: CityCard,
    disease: Disease,
)
    requires
        board.wf(config),
        city.0 < config.ncities(),
        board.count(city, disease) < MAX_CUBES_PER_CITY,
        board.totals.spec_get(disease) < config.max_disease_cubes_per_color,
    ensures
        board.with_cube(city, disease).wf(config),
        board.with_cube(city, disease).cubes.len() == board.cubes.len(),
{
    let next = board.with_cube(city, disease);
    let count = (board.count(city, disease) + 1) as u32;
    assert forall|d: Disease| (#[trigger] next.totals.spec_get(d)) == cubes_on_board(next.cubes, d) by {
        lemma_cubes_after_change(board.cubes, city.0 as int, disease, count, d);
        assert(board.totals.spec_get(d) == cubes_on_board(board.cubes, d));
    }
    assert forall|d: Disease| (#[trigger] next.totals.spec_get(d))
        <= config.max_disease_cubes_per_color by {
        assert(board.totals.spec_get(d) <= config.max_disease_cubes_per_color);
    }
    assert forall|c: int, d: Disease| 0 <= c < next.cubes.len() implies (
    #[trigger] next.cubes[c].spec_get(d)) <= MAX_CUBES_PER_CITY by {
        assert(board.cubes[c].spec_get(d) <= MAX_CUBES_PER_CITY);
    }
}

} // verus!
