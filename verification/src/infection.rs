//! The infection engine: placing cubes, outbreaks and their cascades, and
//! the removal of cubes.
use vstd::prelude::*;

use crate::agent::{
    action_text_fits, action_verdict, refuse_action, ActionEndState, ActionFault,
    ActionVerdict, AgentName,
};
use crate::board::{
    cascade, cascade_inputs_ok, cubes_on_board, lemma_cubes_after_change,
    lemma_outbreak_marks_new_city, lemma_spread_laws, lemma_with_cube_wf, spread, Cascade,
};
use crate::city_graph::{cities_in_range, CityCard};
use crate::game_enums::{Disease, GameEnd};
use crate::pandemic_game::{GameView, PandemicGameState, MAX_CUBES_PER_CITY};

verus! {

/// The result that goes with the end of a cascade.
pub open spec fn cascade_result(end: Option<GameEnd>) -> Result<(), GameEnd> {
    match end {
        None => Ok(()),
        Some(e) => Err(e),
    }
}

impl GameView {
    /// What placing and removing cubes relies on: the board names only its
    /// own cities, no city holds more than three cubes of a disease, the
    /// totals are the sums over the cities and respect the limit, and so do
    /// the outbreaks.
    pub open spec fn board_ok(self) -> bool {
        &&& self.config.graph_ok()
        &&& self.board().wf(&self.config)
    }

    /// The game after the outbreak counter was asked to count one more.
    pub open spec fn after_outbreak(self) -> GameView {
        if self.outbreaks >= self.config.max_outbreaks {
            self
        } else {
            GameView { outbreaks: (self.outbreaks + 1) as u32, ..self }
        }
    }

    /// Cubes removed by treating a disease in a city: one, or all of them for
    /// the medic and for a cured disease.
    pub open spec fn treated(self, city: CityCard, disease: Disease, is_medic: bool) -> u32 {
        if is_medic || self.cured_or_eradicated(disease) {
            self.board().count(city, disease)
        } else {
            1
        }
    }

    /// The game after a disease was treated in a city that holds cubes of it.
    pub open spec fn after_treatment(
        self,
        city: CityCard,
        disease: Disease,
        is_medic: bool,
    ) -> GameView {
        self.with_board(
            self.board().with_count(
                city,
                disease,
                (self.board().count(city, disease) - self.treated(city, disease, is_medic)) as u32,
            ),
        )
    }

    /// The game after the cubes of one disease were swept from a city, which
    /// happens if the disease is cured and the city holds cubes of it.
    pub open spec fn after_sweep(self, city: CityCard, disease: Disease) -> GameView {
        if self.cured_or_eradicated(disease) && self.board().count(city, disease) > 0 {
            self.with_board(self.board().with_count(city, disease, 0))
        } else {
            self
        }
    }

    /// The game after an agent has arrived in its city: the medic sweeps the
    /// cubes of every cured disease from it, and no other role changes anything.
    pub open spec fn after_arrival(self, agent_idx: int) -> GameView {
        if self.role(agent_idx) == AgentName::Medic {
            let city = self.locations[agent_idx];
            self.after_sweep(city, Disease::Blue).after_sweep(city, Disease::Red).after_sweep(
                city,
                Disease::Black,
            ).after_sweep(city, Disease::Yellow)
        } else {
            self
        }
    }
}

/// A board stays well formed when cubes of a disease are taken from a city,
/// and so does the game.
pub proof fn lemma_with_count_wf(game: GameView, city: CityCard, disease: Disease, left: u32)
    requires
        game.board_ok(),
        city.0 < game.config.ncities(),
        left <= game.board().count(city, disease),
    ensures
        game.with_board(game.board().with_count(city, disease, left)).board_ok(),
        game.wf() ==> game.with_board(game.board().with_count(city, disease, left)).wf(),
{
    let board = game.board();
    let next = board.with_count(city, disease, left);
    assert forall|d: Disease|
        (#[trigger] next.totals.spec_get(d)) == cubes_on_board(next.cubes, d)
            && next.totals.spec_get(d) <= game.config.max_disease_cubes_per_color by {
        lemma_cubes_after_change(board.cubes, city.0 as int, disease, left, d);
        assert(board.totals.spec_get(d) == cubes_on_board(board.cubes, d));
        assert(board.totals.spec_get(d) <= game.config.max_disease_cubes_per_color);
    }
    assert forall|c: int, d: Disease| 0 <= c < next.cubes.len() implies (
    #[trigger] next.cubes[c].spec_get(d)) <= MAX_CUBES_PER_CITY by {
        assert(board.cubes[c].spec_get(d) <= MAX_CUBES_PER_CITY);
    }
}

impl PandemicGameState {
    /// Places one cube of `disease` in `city`, with the cascade of outbreaks
    /// that this may set off. With `setup` the city must be below three cubes:
    /// seeding the board never sets off an outbreak.
    ///
    /// The board afterwards and the result are those of the cascade. No city
    /// ends above three cubes, none loses a cube, and no other disease is
    /// touched; the cities that broke out are distinct, hold three cubes, and
    /// the outbreak counter rose by their number; the cube limit ends the call
    /// with the total of the disease at the limit, and the outbreak limit with
    /// the counter at it.
    pub fn add_disease_cube(
        &mut self,
        city: CityCard,
        disease: Disease,
        setup: bool,
    ) -> (result: Result<(), GameEnd>)
        requires
            old(self)@.board_ok(),
            city.0 < old(self)@.config.ncities(),
            setup ==> old(self)@.board().count(city, disease) < MAX_CUBES_PER_CITY,
        ensures
            final(self)@.board_ok(),
            old(self).wf() ==> final(self).wf(),
            ({
                let c = cascade(&old(self)@.config, old(self)@.board(), city, disease);
                &&& final(self)@ == old(self)@.with_board(c.board)
                &&& result == cascade_result(c.end)
                &&& c.outbroken.no_duplicates()
                &&& final(self)@.outbreaks == old(self)@.outbreaks + c.outbroken.len()
                &&& forall|i: int|
                    0 <= i < c.outbroken.len() ==> final(self)@.board().count(
                        #[trigger] c.outbroken[i],
                        disease,
                    ) == MAX_CUBES_PER_CITY
                &&& setup ==> c.outbroken.len() == 0
            }),
            forall|c: int, d: Disease|
                0 <= c < old(self)@.cubes.len() ==> {
                    &&& old(self)@.cubes[c].spec_get(d) <= (#[trigger] final(self)@.cubes[c].spec_get(d))
                        <= MAX_CUBES_PER_CITY
                    &&& d != disease ==> final(self)@.cubes[c].spec_get(d) == old(self)@.cubes[c].spec_get(d)
                },
            result is Ok || result == Err::<(), GameEnd>(GameEnd::DiseaseCubeLimit) || result == Err::<
                (),
                GameEnd,
            >(GameEnd::OutbreakLimit),
            result == Err::<(), GameEnd>(GameEnd::DiseaseCubeLimit) ==> final(self)@.totals.spec_get(disease)
                == old(self)@.config.max_disease_cubes_per_color,
            result == Err::<(), GameEnd>(GameEnd::OutbreakLimit) ==> final(self)@.outbreaks == old(
                self,
            )@.config.max_outbreaks,
    {
        let ghost start = self@;
        let ghost whole = cascade(&start.config, start.board(), city, disease);
        proof {
            lemma_spread_laws(&start.config, disease, start.board(), Seq::empty(), seq![city]);
            assert(whole.outbroken.subrange(0, 0) =~= Seq::<CityCard>::empty());
            if setup {
                assert(seq![city].drop_last() =~= Seq::<CityCard>::empty());
                assert(!Seq::<CityCard>::empty().contains(city));
                let none = Seq::<CityCard>::empty();
                if start.totals.spec_get(disease) < start.config.max_disease_cubes_per_color {
                    let next = start.board().with_cube(city, disease);
                    assert(spread(&start.config, disease, next, none, none).outbroken == none);
                }
                assert(whole.outbroken.len() == 0);
            }
        }
        let n = self.cur_city_diseases.len();
        let mut visited: Vec<bool> = vec![false; n];
        let mut pending: Vec<CityCard> = Vec::new();
        pending.push(city);
        let mut end: Option<GameEnd> = None;
        let ghost mut outbroken: Seq<CityCard> = Seq::empty();
        assert(pending@ =~= seq![city]);
        while end.is_none() && pending.len() > 0
            invariant
                self@ == start.with_board(self@.board()),
                start.board_ok(),
                self@.board().wf(&self.config),
                n == start.config.ncities(),
                cascade_inputs_ok(&self.config, outbroken, pending@),
                visited@.len() == n,
                forall|c: int| 0 <= c < n ==> visited@[c] == outbroken.contains(CityCard(c as usize)),
                end is None ==> spread(&self.config, disease, self@.board(), outbroken, pending@)
                    == whole,
                end is Some ==> whole == (Cascade { board: self@.board(), outbroken, end }),
            decreases n - outbroken.len(), pending.len() + if end is None { 1int } else { 0int },
        {
            let ghost before = pending@;
            let ghost board = self@.board();
            let current = pending.pop().unwrap();
            assert(current == before.last() && pending@ == before.drop_last());
            assert(current.0 < n);
            assert(cities_in_range(pending@, n as int));
            let count = self.cur_city_diseases[current.0].get(disease);
            if visited[current.0] {
                assert(outbroken.contains(current));
            } else if count < MAX_CUBES_PER_CITY {
                assert(!outbroken.contains(current));
                let total = self.total_cubes_on_board_per_disease.get(disease);
                if total < self.config.max_disease_cubes_per_color {
                    let mut entry = self.cur_city_diseases[current.0];
                    entry.set(disease, count + 1);
                    self.cur_city_diseases[current.0] = entry;
                    self.total_cubes_on_board_per_disease.set(disease, total + 1);
                    proof {
                        lemma_with_cube_wf(&start.config, board, current, disease);
                        assert(self@.board() == board.with_cube(current, disease));
                    }
                } else {
                    end = Some(GameEnd::DiseaseCubeLimit);
                }
            } else {
                assert(!outbroken.contains(current));
                if self.outbreaks >= self.config.max_outbreaks {
                    end = Some(GameEnd::OutbreakLimit);
                } else {
                    proof {
                        lemma_outbreak_marks_new_city(&self.config, outbroken, before);
                    }
                    self.outbreaks = self.outbreaks + 1;
                    visited[current.0] = true;
                    proof {
                        assert forall|c: int| 0 <= c < n implies visited@[c] == outbroken.push(
                            current,
                        ).contains(CityCard(c as usize)) by {
                            let card = CityCard(c as usize);
                            if outbroken.contains(card) {
                                let i = outbroken.index_of(card);
                                assert(outbroken.push(current)[i] == card);
                            }
                            if c == current.0 {
                                assert(outbroken.push(current)[outbroken.len() as int] == card);
                            }
                            if outbroken.push(current).contains(card) && card != current {
                                let i = outbroken.push(current).index_of(card);
                                assert(outbroken[i] == card);
                            }
                        }
                        outbroken = outbroken.push(current);
                        assert(self@.board() == board.with_outbreak());
                    }
                    if self.outbreaks >= self.config.max_outbreaks {
                        end = Some(GameEnd::OutbreakLimit);
                        proof {
                            assert(cities_in_range(pending@, n as int));
                        }
                    } else {
                        let ghost rest = pending@;
                        let neighbors = &self.config.city_graph[current.0];
                        let mut j: usize = neighbors.len();
                        while j > 0
                            invariant
                                j <= neighbors.len(),
                                pending@ == rest + neighbors@.subrange(
                                    j as int,
                                    neighbors@.len() as int,
                                ).reverse(),
                            decreases j,
                        {
                            j -= 1;
                            pending.push(neighbors[j]);
                            assert(pending@ =~= rest + neighbors@.subrange(
                                j as int,
                                neighbors@.len() as int,
                            ).reverse());
                        }
                        assert(neighbors@.subrange(0, neighbors@.len() as int) =~= neighbors@);
                    }
                }
            }
        }
        assert(final(self)@ == start.with_board(whole.board));
        match end {
            None => Ok(()),
            Some(e) => Err(e),
        }
    }

    /// Counts one more outbreak. At the limit nothing is counted and the game
    /// ends; it also ends when the count reaches the limit.
    pub fn increment_outbreak(&mut self) -> (result: Result<(), GameEnd>)
        ensures
            old(self)@.board_ok() ==> final(self)@.board_ok(),
            old(self).wf() ==> final(self).wf(),
            final(self)@ == old(self)@.after_outbreak(),
            result is Ok <==> old(self)@.outbreaks + 1 < old(self)@.config.max_outbreaks,
            result is Err ==> result == Err::<(), GameEnd>(GameEnd::OutbreakLimit),
    {
        if self.outbreaks >= self.config.max_outbreaks {
            return Err(GameEnd::OutbreakLimit);
        }
        self.outbreaks = self.outbreaks + 1;
        if self.outbreaks == self.config.max_outbreaks {
            return Err(GameEnd::OutbreakLimit);
        }
        Ok(())
    }

    /// Cubes of a disease in the city where an agent stands.
    pub fn get_n_disease_cubes_on_board(&self, agent_idx: usize, disease: Disease) -> (count: u32)
        requires
            self.wf(),
            agent_idx < self@.nagents(),
        ensures
            count == self@.board().count(self@.locations[agent_idx as int], disease),
            count <= MAX_CUBES_PER_CITY,
    {
        let city = self.player_locations[agent_idx];
        assert(city.0 < self@.config.ncities());
        self.cur_city_diseases[city.0].get(disease)
    }

    /// Removes cubes of a disease from a city: one cube, or all of them when
    /// the medic treats or the disease is cured. A city without cubes of the
    /// disease cannot be treated.
    pub fn treat_disease_internal(
        &mut self,
        city: CityCard,
        disease: Disease,
        is_medic: bool,
    ) -> (result: Result<(), ActionEndState>)
        requires
            old(self)@.board_ok(),
        ensures
            final(self)@.board_ok(),
            old(self).wf() ==> final(self).wf(),
            action_text_fits(result),
            final(self)@.same_schedule(old(self)@),
            action_verdict(result) == if city.0 >= old(self)@.config.ncities() {
                ActionVerdict::Refused(ActionFault::TargetOutOfRange)
            } else if old(self)@.board().count(city, disease) == 0 {
                ActionVerdict::Refused(ActionFault::NoCubesToTreat)
            } else {
                ActionVerdict::Done
            },
            final(self)@ == if result is Ok {
                old(self)@.after_treatment(city, disease, is_medic)
            } else {
                old(self)@
            },
    {
        if city.0 >= self.cur_city_diseases.len() {
            return refuse_action(ActionFault::TargetOutOfRange);
        }
        let ndiseases = self.cur_city_diseases[city.0].get(disease);
        if ndiseases == 0 {
            return refuse_action(ActionFault::NoCubesToTreat);
        }
        let mut n_to_treat: u32 = 1;
        if is_medic || self.is_cured(disease) {
            n_to_treat = ndiseases;
        }
        proof {
            lemma_with_count_wf(self@, city, disease, (ndiseases - n_to_treat) as u32);
            lemma_cubes_after_change(self@.cubes, city.0 as int, disease, 0, disease);
        }
        let total = self.total_cubes_on_board_per_disease.get(disease);
        let mut entry = self.cur_city_diseases[city.0];
        entry.set(disease, ndiseases - n_to_treat);
        self.cur_city_diseases[city.0] = entry;
        self.total_cubes_on_board_per_disease.set(disease, total - n_to_treat);
        Ok(())
    }

    /// Sweeps the cubes of every cured disease from the city of an agent, if
    /// the agent is the medic.
    pub fn remove_cured_if_medic(&mut self, agent_idx: usize)
        requires
            old(self).wf(),
            agent_idx < old(self)@.nagents(),
        ensures
            final(self).wf(),
            final(self)@ == old(self)@.after_arrival(agent_idx as int),
            final(self)@.same_schedule(old(self)@),
    {
        if self.agents[agent_idx].agent_type == AgentName::Medic {
            let city = self.player_locations[agent_idx];
            assert(city.0 < self@.config.ncities());
            self.sweep_cured(city, Disease::Blue);
            self.sweep_cured(city, Disease::Red);
            self.sweep_cured(city, Disease::Black);
            self.sweep_cured(city, Disease::Yellow);
        }
    }

    /// Takes every cube of a disease from a city, if the disease is cured.
    fn sweep_cured(&mut self, city: CityCard, disease: Disease)
        requires
            old(self).wf(),
            city.0 < old(self)@.config.ncities(),
        ensures
            final(self).wf(),
            final(self)@ == old(self)@.after_sweep(city, disease),
            final(self)@.same_schedule(old(self)@),
    {
        let count = self.cur_city_diseases[city.0].get(disease);
        if self.is_cured(disease) && count > 0 {
            proof {
                lemma_with_count_wf(self@, city, disease, 0);
                lemma_cubes_after_change(self@.cubes, city.0 as int, disease, 0, disease);
            }
            let total = self.total_cubes_on_board_per_disease.get(disease);
            let mut entry = self.cur_city_diseases[city.0];
            entry.set(disease, 0);
            self.cur_city_diseases[city.0] = entry;
            self.total_cubes_on_board_per_disease.set(disease, total - count);
        }
    }
}

} // verus!
