//! Testing at run time whether a game state keeps the invariant of the game.
use vstd::prelude::*;
use vstd::seq_lib::*;

use crate::agent::Agent;
use crate::board::{cubes_ok, cubes_on_board};
use crate::city_graph::{cities_in_range, CityCard};
use crate::decks::{epidemics_in, lemma_no_epidemics};
use crate::game_enums::{all_diseases, Disease, PerDisease, PlayerCard};
use crate::hands::all_distinct;
use crate::pandemic_game::{
    agents_ok, hands_ok, rates_ok, PandemicGameConfig, PandemicGameState, TurnPhase,
    MAX_CUBES_PER_CITY,
};

verus! {

/// The cubes of the first cities are among the cubes of all cities.
pub proof fn lemma_cubes_of_first_cities(cubes: Seq<PerDisease<u32>>, k: int, disease: Disease)
    requires
        0 <= k <= cubes.len(),
    ensures
        cubes_on_board(cubes.subrange(0, k), disease) <= cubes_on_board(cubes, disease),
    decreases cubes.len() - k,
{
    if k < cubes.len() {
        let longer = cubes.subrange(0, k + 1);
        assert(longer.drop_last() =~= cubes.subrange(0, k));
        lemma_cubes_of_first_cities(cubes, k + 1, disease);
    } else {
        assert(cubes.subrange(0, k) =~= cubes);
    }
}

/// Tells whether every card names a city below `ncities`.
pub fn all_cities_in_range(cards: &Vec<CityCard>, ncities: usize) -> (ok: bool)
    ensures
        ok == cities_in_range(cards@, ncities as int),
{
    let mut i: usize = 0;
    while i < cards.len()
        invariant
            i <= cards.len(),
            forall|k: int| 0 <= k < i ==> (#[trigger] cards@[k]).0 < ncities,
        decreases cards.len() - i,
    {
        if cards[i].0 >= ncities {
            return false;
        }
        i += 1;
    }
    true
}

/// Counts the epidemics among the cards.
pub fn count_epidemics(cards: &Vec<PlayerCard>) -> (count: usize)
    ensures
        count == epidemics_in(cards@),
{
    let mut count: usize = 0;
    let mut i: usize = 0;
    proof {
        lemma_no_epidemics(cards@.subrange(0, 0));
    }
    while i < cards.len()
        invariant
            i <= cards.len(),
            count <= i,
            count == epidemics_in(cards@.subrange(0, i as int)),
        decreases cards.len() - i,
    {
        proof {
            assert(cards@.subrange(0, i + 1) =~= cards@.subrange(0, i as int).push(cards@[i as int]));
            to_multiset_build(cards@.subrange(0, i as int), cards@[i as int]);
        }
        if cards[i] == PlayerCard::Epidemic {
            count += 1;
        }
        i += 1;
    }
    assert(cards@.subrange(0, cards@.len() as int) =~= cards@);
    count
}

/// Tells whether the cubes in the cities are within their limits and add up
/// to the totals.
pub fn check_cubes(
    config: &PandemicGameConfig,
    cubes: &Vec<PerDisease<u32>>,
    totals: &PerDisease<u32>,
) -> (ok: bool)
    ensures
        ok == cubes_ok(config, cubes@, *totals),
{
    if cubes.len() != config.city_graph.len() {
        return false;
    }
    let limit: u64 = config.max_disease_cubes_per_color as u64;
    let diseases = Disease::all();
    let mut k: usize = 0;
    while k < diseases.len()
        invariant
            k <= diseases.len(),
            diseases@ == all_diseases(),
            limit == config.max_disease_cubes_per_color,
            cubes@.len() == config.ncities(),
            forall|j: int|
                0 <= j < k ==> {
                    &&& totals.spec_get(diseases@[j]) == cubes_on_board(cubes@, diseases@[j])
                    &&& totals.spec_get(diseases@[j]) <= config.max_disease_cubes_per_color
                    &&& forall|c: int|
                        0 <= c < cubes@.len() ==> (#[trigger] cubes@[c]).spec_get(diseases@[j])
                            <= MAX_CUBES_PER_CITY
                },
        decreases diseases.len() - k,
    {
        let disease = diseases[k];
        let mut sum: u64 = 0;
        let mut c: usize = 0;
        assert(cubes@.subrange(0, 0) =~= Seq::<PerDisease<u32>>::empty());
        while c < cubes.len()
            invariant
                c <= cubes.len(),
                limit == config.max_disease_cubes_per_color,
                sum == cubes_on_board(cubes@.subrange(0, c as int), disease),
                sum <= limit,
                forall|j: int| 0 <= j < c ==> (#[trigger] cubes@[j]).spec_get(disease) <= MAX_CUBES_PER_CITY,
            decreases cubes.len() - c,
        {
            let count = cubes[c].get(disease);
            proof {
                assert(cubes@.subrange(0, c + 1).drop_last() =~= cubes@.subrange(0, c as int));
                lemma_cubes_of_first_cities(cubes@, c + 1, disease);
            }
            if count > MAX_CUBES_PER_CITY {
                return false;
            }
            sum = sum + count as u64;
            if sum > limit {
                // the cities counted so far hold more than the limit allows
                assert(totals.spec_get(disease) > limit || totals.spec_get(disease) != cubes_on_board(
                    cubes@,
                    disease,
                ));
                return false;
            }
            c += 1;
        }
        assert(cubes@.subrange(0, cubes@.len() as int) =~= cubes@);
        if totals.get(disease) as u64 != sum {
            assert(totals.spec_get(disease) != cubes_on_board(cubes@, disease));
            return false;
        }
        k += 1;
    }
    proof {
        assert forall|d: Disease| (#[trigger] totals.spec_get(d)) == cubes_on_board(cubes@, d)
            && totals.spec_get(d) <= config.max_disease_cubes_per_color by {
            let j = match d {
                Disease::Blue => 0int,
                Disease::Red => 1int,
                Disease::Black => 2int,
                Disease::Yellow => 3int,
            };
            assert(diseases@[j] == d);
        }
        assert forall|c: int, d: Disease| 0 <= c < cubes@.len() implies (
        #[trigger] cubes@[c].spec_get(d)) <= MAX_CUBES_PER_CITY by {
            let j = match d {
                Disease::Blue => 0int,
                Disease::Red => 1int,
                Disease::Black => 2int,
                Disease::Yellow => 3int,
            };
            assert(diseases@[j] == d);
            assert(cubes@[c].spec_get(diseases@[j]) <= MAX_CUBES_PER_CITY);
        }
    }
    true
}

impl Agent {
    /// Tells whether the agent has the actions of its role, in their order.
    pub fn is_well_formed(&self) -> (ok: bool)
        ensures
            ok == self.wf(),
    {
        let expected = Agent::new(self.agent_type);
        if self.actions.len() != expected.actions.len() {
            return false;
        }
        let mut i: usize = 0;
        while i < self.actions.len()
            invariant
                i <= self.actions.len(),
                self.actions@.len() == expected.actions@.len(),
                expected.wf(),
                expected.agent_type == self.agent_type,
                forall|k: int| 0 <= k < i ==> self.actions@[k] == expected.actions@[k],
            decreases self.actions.len() - i,
        {
            if self.actions[i] != expected.actions[i] {
                return false;
            }
            i += 1;
        }
        assert(self.actions@ =~= expected.actions@);
        true
    }
}

impl PandemicGameState {
    /// Tells whether the state keeps the invariant of the game. A state that
    /// was built by `new` and changed by the functions of the game only
    /// always does.
    pub fn is_well_formed(&self) -> (ok: bool)
        ensures
            ok == self.wf(),
    {
        if !self.config.is_playable() {
            return false;
        }
        let ncities: usize = self.config.city_graph.len();
        let nagents: usize = self.agents.len();
        if !check_cubes(
            &self.config,
            &self.cur_city_diseases,
            &self.total_cubes_on_board_per_disease,
        ) {
            return false;
        }
        if self.outbreaks > self.config.max_outbreaks || self.research_stations.len() != ncities {
            return false;
        }
        if !all_cities_in_range(&self.infection_deck, ncities) || !all_cities_in_range(
            &self.infection_discard,
            ncities,
        ) || !all_cities_in_range(&self.forecasted_infection_deck, ncities)
            || !all_cities_in_range(&self.player_locations, ncities) {
            return false;
        }
        if nagents != self.config.nplayers as usize || self.player_hands.len() != nagents
            || self.player_locations.len() != nagents || self.current_player_i as usize >= nagents
            || self.event_seat > nagents {
            return false;
        }
        let mut a: usize = 0;
        while a < nagents
            invariant
                a <= nagents,
                nagents == self.agents@.len(),
                self.player_hands@.len() == nagents,
                forall|k: int| 0 <= k < a ==> (#[trigger] self.agents@[k]).wf(),
                forall|k: int| 0 <= k < a ==> (#[trigger] self@.hands[k]).no_duplicates(),
            decreases nagents - a,
        {
            if !self.agents[a].is_well_formed() {
                return false;
            }
            if !all_distinct(&self.player_hands[a]) {
                assert(!self@.hands[a as int].no_duplicates());
                return false;
            }
            assert(self@.hands[a as int].no_duplicates());
            a += 1;
        }
        let nrates: usize = self.config.infection_rates.len();
        if self.infection_rate_i >= nrates {
            return false;
        }
        let room: usize = nrates - self.infection_rate_i;
        let in_deck: usize = count_epidemics(&self.player_deck);
        if in_deck >= room {
            return false;
        }
        let in_drawn: usize = count_epidemics(&self.drawn_cards);
        if in_drawn >= room - in_deck {
            return false;
        }
        if (self.drawn_cards.len() > 0 || self.intensify_pending) && !matches!(
            self.phase,
            TurnPhase::CardsDrawn
        ) {
            return false;
        }
        assert(agents_ok(&self.config, self@.agents));
        assert(hands_ok(self@.hands));
        assert(rates_ok(&self.config, self@.rate_i, self@.player_deck, self@.drawn));
        true
    }
}

} // verus!
