//! The configuration of a game and the single aggregate that a game mutates.
use vstd::prelude::*;

use crate::agent::{Agent, AgentName};
use crate::board::{cubes_ok, Board};
use crate::city_graph::{cities_in_range, graph_wf, neighbors_in_range, CityCard};
use crate::decks::epidemics_in;
use crate::game_enums::{all_events, Disease, EventCard, GameEnd, PerDisease, PlayerCard};

verus! {

/// Most cubes of one disease that a city holds.
pub const MAX_CUBES_PER_CITY: u32 = 3;

/// Most cards that a hand keeps once a card gain has been settled.
pub const HAND_LIMIT: usize = 7;

/// Number of infection cards drawn to seed the board.
pub const SETUP_INFECTION_CARDS: usize = 9;

/// Number of cards that a forecast looks at.
pub const FORECAST_CARDS: usize = 6;

/// Why a configuration was refused.
#[derive(Debug, Clone, Copy, PartialEq, Eq, Structural, Hash)]
pub enum ConfigError {
    /// Only two to four players are supported.
    InvalidPlayerCount,
    /// There must be an infection rate, and one more of them than epidemics.
    InfectionRatesTooShort,
    /// The adjacency table has no city.
    EmptyCityGraph,
    /// The disease table does not have one colour per city.
    CityDiseasesMismatch,
    /// A neighbour list names a city that the adjacency table does not have.
    NeighborOutOfRange,
}

/// The states of the turn scheduler. The last four are terminal.
#[derive(Debug, Clone, Copy, PartialEq, Eq, Structural, Hash)]
pub enum TurnPhase {
    AwaitingActions,
    ActionsDone,
    CardsDrawn,
    InfectionDone,
    TurnComplete,
    PlayerDeckExhausted,
    DiseaseCubeCapExceeded,
    OutbreakCapExceeded,
    Win,
}

/// The terminal state that a terminal condition leads to.
pub open spec fn terminal_phase(end: GameEnd) -> TurnPhase {
    match end {
        GameEnd::PlayerDeckLimit => TurnPhase::PlayerDeckExhausted,
        GameEnd::DiseaseCubeLimit => TurnPhase::DiseaseCubeCapExceeded,
        GameEnd::OutbreakLimit => TurnPhase::OutbreakCapExceeded,
        GameEnd::Win => TurnPhase::Win,
    }
}

impl TurnPhase {
    pub open spec fn spec_is_terminal(self) -> bool {
        self == TurnPhase::PlayerDeckExhausted || self == TurnPhase::DiseaseCubeCapExceeded
            || self == TurnPhase::OutbreakCapExceeded || self == TurnPhase::Win
    }

    /// Whether the game has ended in this state.
    #[verifier::when_used_as_spec(spec_is_terminal)]
    pub fn is_terminal(self) -> (b: bool)
        ensures
            b == self.spec_is_terminal(),
    {
        match self {
            TurnPhase::PlayerDeckExhausted => true,
            TurnPhase::DiseaseCubeCapExceeded => true,
            TurnPhase::OutbreakCapExceeded => true,
            TurnPhase::Win => true,
            _ => false,
        }
    }
}

/// Cards in a starting hand, by number of players.
pub open spec fn starting_hand_size(nplayers: int) -> int {
    6 - nplayers
}

/// Cubes that seeding places on the `k`-th infection card drawn, counted from 0:
/// three on each of the first three, two on the next three, one on the last three.
pub open spec fn seed_cubes(k: int) -> int {
    3 - k / 3
}

/// Cubes that seeding places in all on the first `k` cards drawn, for `k` up to 9.
pub open spec fn seed_cubes_upto(k: int) -> int {
    if k <= 3 {
        3 * k
    } else if k <= 6 {
        9 + 2 * (k - 3)
    } else {
        15 + (k - 6)
    }
}

/// Number of infection cards that seeding draws from a deck of `ncities` cards.
pub open spec fn seed_draws(ncities: int) -> int {
    if ncities < SETUP_INFECTION_CARDS as int {
        ncities
    } else {
        SETUP_INFECTION_CARDS as int
    }
}

/// The immutable parameters of a game.
#[derive(Debug)]
pub struct PandemicGameConfig {
    pub nplayers: i32,
    pub nepidemics: i32,
    pub ncards_to_draw: u32,
    pub max_disease_cubes_per_color: u32,
    pub max_outbreaks: u32,
    pub infection_rates: Vec<usize>,
    pub starting_cards_per_hand: i32,
    /// Neighbours of each city, by city.
    pub city_graph: Vec<Vec<CityCard>>,
    /// Colour of each city, by city.
    pub city_diseases: Vec<Disease>,
    pub ndiseases: u32,
    pub events: Vec<EventCard>,
    pub testing: bool,
    pub interactive: bool,
    pub do_events: bool,
}

/// The first reason, if any, for which the parameters of a game are refused.
pub open spec fn config_fault(
    nplayers: i32,
    nepidemics: i32,
    infection_rates: Seq<usize>,
    city_graph: Seq<Vec<CityCard>>,
    city_diseases: Seq<Disease>,
) -> Option<ConfigError> {
    let ncities = city_graph.len() as int;
    if !(2 <= nplayers <= 4) {
        Some(ConfigError::InvalidPlayerCount)
    } else if infection_rates.len() < nepidemics + 1 || infection_rates.len() == 0 {
        Some(ConfigError::InfectionRatesTooShort)
    } else if ncities == 0 {
        Some(ConfigError::EmptyCityGraph)
    } else if city_diseases.len() != ncities {
        Some(ConfigError::CityDiseasesMismatch)
    } else if !graph_wf(city_graph) {
        Some(ConfigError::NeighborOutOfRange)
    } else {
        None
    }
}

impl PandemicGameConfig {
    /// Number of cities of the board.
    pub open spec fn ncities(&self) -> int {
        self.city_graph@.len() as int
    }

    /// The neighbours of a city, in the order of its list.
    pub open spec fn neighbors(&self, city: CityCard) -> Seq<CityCard> {
        self.city_graph@[city.0 as int]@
    }

    /// The colour of a city.
    pub open spec fn disease_of(&self, city: CityCard) -> Disease {
        self.city_diseases@[city.0 as int]
    }

    /// Number of cards of the player deck once the starting hands are dealt.
    pub open spec fn deck_after_deal(&self) -> int {
        self.ncities() + self.events@.len() - self.nplayers * self.starting_cards_per_hand
    }

    /// The adjacency table has a city and names only its own cities.
    pub open spec fn graph_ok(&self) -> bool {
        graph_wf(self.city_graph@)
    }

    /// Whether the player deck can fill the starting hands and then has a
    /// card for each segment into which the epidemics split it.
    pub open spec fn spec_can_deal(&self) -> bool {
        &&& self.deck_after_deal() >= 0
        &&& self.nepidemics > 0 ==> self.deck_after_deal() >= self.nepidemics
    }

    /// A configuration of a game: two to four players with their starting
    /// hands, the five events, the four diseases, rates for every epidemic,
    /// and a board that names only its own cities.
    pub open spec fn wf(&self) -> bool {
        &&& self.starting_cards_per_hand == starting_hand_size(self.nplayers as int)
        &&& self.events@ == all_events()
        &&& self.ndiseases == 4
        &&& config_fault(
            self.nplayers,
            self.nepidemics,
            self.infection_rates@,
            self.city_graph@,
            self.city_diseases@,
        ) is None
    }

    /// Builds the configuration of a game. Parameters left out take their
    /// defaults: 4 epidemics, 2 cards drawn per turn, 24 cubes per colour, 8
    /// outbreaks, the rates 2, 2, 2, 3, 3, 4, 4, no testing mode, interactive
    /// play, events enabled.
    pub fn new(
        nplayers: i32,
        nepidemics: Option<i32>,
        ncards_to_draw: Option<u32>,
        max_disease_cubes_per_color: Option<u32>,
        max_outbreaks: Option<u32>,
        infection_rates: Option<Vec<usize>>,
        testing: Option<bool>,
        interactive: Option<bool>,
        do_events: Option<bool>,
        city_graph: Vec<Vec<CityCard>>,
        city_diseases: Vec<Disease>,
    ) -> (result: Result<Self, ConfigError>)
        ensures
            ({
                let rates = match infection_rates {
                    Some(r) => r@,
                    None => seq![2usize, 2, 2, 3, 3, 4, 4],
                };
                let epidemics = match nepidemics { Some(e) => e, None => 4i32 };
                let cubes = match max_disease_cubes_per_color { Some(m) => m, None => 24u32 };
                let fault = config_fault(nplayers, epidemics, rates, city_graph@, city_diseases@);
                match result {
                    Err(e) => fault == Some(e),
                    Ok(config) => {
                        &&& fault is None
                        &&& config.wf()
                        &&& config.nplayers == nplayers
                        &&& config.nepidemics == epidemics
                        &&& config.ncards_to_draw == match ncards_to_draw { Some(n) => n, None => 2u32 }
                        &&& config.max_disease_cubes_per_color == cubes
                        &&& config.max_outbreaks == match max_outbreaks { Some(m) => m, None => 8u32 }
                        &&& config.infection_rates@ == rates
                        &&& config.city_graph == city_graph
                        &&& config.city_diseases == city_diseases
                        &&& config.testing == match testing { Some(b) => b, None => false }
                        &&& config.interactive == match interactive { Some(b) => b, None => true }
                        &&& config.do_events == match do_events { Some(b) => b, None => true }
                    },
                }
            }),
    {
        let nepidemics: i32 = match nepidemics { Some(e) => e, None => 4 };
        let infection_rates: Vec<usize> = match infection_rates {
            Some(r) => r,
            None => {
                let r: Vec<usize> = vec![2, 2, 2, 3, 3, 4, 4];
                assert(r@ =~= seq![2usize, 2, 2, 3, 3, 4, 4]);
                r
            },
        };
        let max_disease_cubes_per_color: u32 = match max_disease_cubes_per_color {
            Some(m) => m,
            None => 24,
        };
        match check_parameters(
            nplayers,
            nepidemics,
            &infection_rates,
            &city_graph,
            &city_diseases,
        ) {
            Some(fault) => Err(fault),
            None => Ok(
                PandemicGameConfig {
                    nplayers,
                    nepidemics,
                    ncards_to_draw: match ncards_to_draw { Some(n) => n, None => 2 },
                    max_disease_cubes_per_color,
                    max_outbreaks: match max_outbreaks { Some(m) => m, None => 8 },
                    infection_rates,
                    starting_cards_per_hand: 6 - nplayers,
                    city_graph,
                    city_diseases,
                    ndiseases: 4,
                    events: EventCard::all(),
                    testing: match testing { Some(b) => b, None => false },
                    interactive: match interactive { Some(b) => b, None => true },
                    do_events: match do_events { Some(b) => b, None => true },
                },
            ),
        }
    }

    /// Tells whether the configuration is one that `new` hands out: players,
    /// starting hands, events, diseases, rates and board in order.
    pub fn is_playable(&self) -> (ok: bool)
        ensures
            ok == self.wf(),
    {
        if self.nplayers < 2 || self.nplayers > 4 {
            return false;
        }
        if self.starting_cards_per_hand != 6 - self.nplayers || self.ndiseases != 4 {
            return false;
        }
        let events = EventCard::all();
        if self.events.len() != events.len() {
            return false;
        }
        let mut i: usize = 0;
        while i < events.len()
            invariant
                i <= events.len(),
                events@ == all_events(),
                self.events@.len() == events@.len(),
                forall|k: int| 0 <= k < i ==> self.events@[k] == events@[k],
            decreases events.len() - i,
        {
            if self.events[i] != events[i] {
                return false;
            }
            i += 1;
        }
        assert(self.events@ =~= all_events());
        check_parameters(
            self.nplayers,
            self.nepidemics,
            &self.infection_rates,
            &self.city_graph,
            &self.city_diseases,
        ).is_none()
    }

    /// Tells whether the player deck can fill the starting hands and then
    /// has a card for each segment into which the epidemics split it.
    #[verifier::when_used_as_spec(spec_can_deal)]
    pub fn can_deal(&self) -> (ok: bool)
        requires
            self.wf(),
        ensures
            ok == self.spec_can_deal(),
    {
        let ncities: usize = self.city_graph.len();
        let nevents: usize = self.events.len();
        let dealt: usize = if self.nplayers == 3 { 9 } else { 8 };
        assert(dealt == self.nplayers * self.starting_cards_per_hand) by {
            if self.nplayers == 2 {
                assert(self.nplayers * self.starting_cards_per_hand == 2 * 4);
            } else if self.nplayers == 3 {
                assert(self.nplayers * self.starting_cards_per_hand == 3 * 3);
            } else {
                assert(self.nplayers * self.starting_cards_per_hand == 4 * 2);
            }
        }
        if ncities < dealt - nevents {
            return false;
        }
        let left: usize = ncities - (dealt - nevents);
        self.nepidemics <= 0 || self.nepidemics as usize <= left
    }
}

/// Finds the first reason, if any, for which the parameters of a game are
/// refused.
pub fn check_parameters(
    nplayers: i32,
    nepidemics: i32,
    infection_rates: &Vec<usize>,
    city_graph: &Vec<Vec<CityCard>>,
    city_diseases: &Vec<Disease>,
) -> (fault: Option<ConfigError>)
    ensures
        fault == config_fault(
            nplayers,
            nepidemics,
            infection_rates@,
            city_graph@,
            city_diseases@,
        ),
{
    if nplayers < 2 || nplayers > 4 {
        return Some(ConfigError::InvalidPlayerCount);
    }
    if infection_rates.len() == 0 || (nepidemics >= 0 && infection_rates.len()
        <= nepidemics as usize) {
        return Some(ConfigError::InfectionRatesTooShort);
    }
    let ncities: usize = city_graph.len();
    if ncities == 0 {
        return Some(ConfigError::EmptyCityGraph);
    }
    if city_diseases.len() != ncities {
        return Some(ConfigError::CityDiseasesMismatch);
    }
    if !neighbors_in_range(city_graph) {
        return Some(ConfigError::NeighborOutOfRange);
    }
    None
}

/// The single mutable aggregate of a game.
#[derive(Debug)]
pub struct PandemicGameState {
    /// Cubes of each disease, by city.
    pub cur_city_diseases: Vec<PerDisease<u32>>,
    /// Where each agent stands, by seat.
    pub player_locations: Vec<CityCard>,
    /// Whether a city has a research station, by city.
    pub research_stations: Vec<bool>,
    pub total_cubes_on_board_per_disease: PerDisease<u32>,
    /// The infection deck; cards are drawn from its end.
    pub infection_deck: Vec<CityCard>,
    pub infection_discard: Vec<CityCard>,
    /// The player deck; cards are drawn from its end.
    pub player_deck: Vec<PlayerCard>,
    pub player_discard: Vec<PlayerCard>,
    /// The hand of each agent, by seat. No card occurs twice in a hand.
    pub player_hands: Vec<Vec<PlayerCard>>,
    pub cured_diseases: PerDisease<bool>,
    pub infection_rate_i: usize,
    pub outbreaks: u32,
    /// The cards that the last forecast set aside, in the order of the deck.
    pub forecasted_infection_deck: Vec<CityCard>,
    pub skip_next_infect_cities: bool,
    pub current_player_i: u32,
    pub agents: Vec<Agent>,
    /// The event that the contingency planner keeps in reserve.
    pub contingency_planner_event_card: Option<EventCard>,
    /// Where the turn scheduler stands.
    pub phase: TurnPhase,
    /// The player cards drawn this turn and not yet resolved, in the order
    /// drawn: the first is resolved next.
    pub drawn_cards: Vec<PlayerCard>,
    /// Whether an epidemic still has to put the infection discards back.
    pub intensify_pending: bool,
    /// The seat that is asked next for an event, where agents are asked; the
    /// number of seats once all have been asked.
    pub event_seat: usize,
    pub config: PandemicGameConfig,
}

/// The mathematical content of a game state.
pub struct GameView {
    pub cubes: Seq<PerDisease<u32>>,
    pub locations: Seq<CityCard>,
    pub stations: Seq<bool>,
    pub totals: PerDisease<u32>,
    pub infection_deck: Seq<CityCard>,
    pub infection_discard: Seq<CityCard>,
    pub player_deck: Seq<PlayerCard>,
    pub player_discard: Seq<PlayerCard>,
    pub hands: Seq<Seq<PlayerCard>>,
    pub cured: PerDisease<bool>,
    pub rate_i: usize,
    pub outbreaks: u32,
    pub forecast: Seq<CityCard>,
    pub skip_next_infection: bool,
    pub current_player: u32,
    pub agents: Seq<Agent>,
    pub reserve: Option<EventCard>,
    pub phase: TurnPhase,
    pub drawn: Seq<PlayerCard>,
    pub intensify_pending: bool,
    pub event_seat: usize,
    pub config: PandemicGameConfig,
}

impl View for PandemicGameState {
    type V = GameView;

    open spec fn view(&self) -> GameView {
        GameView {
            cubes: self.cur_city_diseases@,
            locations: self.player_locations@,
            stations: self.research_stations@,
            totals: self.total_cubes_on_board_per_disease,
            infection_deck: self.infection_deck@,
            infection_discard: self.infection_discard@,
            player_deck: self.player_deck@,
            player_discard: self.player_discard@,
            hands: Seq::new(self.player_hands@.len(), |i: int| self.player_hands@[i]@),
            cured: self.cured_diseases,
            rate_i: self.infection_rate_i,
            outbreaks: self.outbreaks,
            forecast: self.forecasted_infection_deck@,
            skip_next_infection: self.skip_next_infect_cities,
            current_player: self.current_player_i,
            agents: self.agents@,
            reserve: self.contingency_planner_event_card,
            phase: self.phase,
            drawn: self.drawn_cards@,
            intensify_pending: self.intensify_pending,
            event_seat: self.event_seat,
            config: self.config,
        }
    }
}

impl GameView {
    /// The part of the game that cubes and outbreaks change.
    pub open spec fn board(self) -> Board {
        Board { cubes: self.cubes, totals: self.totals, outbreaks: self.outbreaks }
    }

    /// The game with that part replaced.
    pub open spec fn with_board(self, board: Board) -> GameView {
        GameView { cubes: board.cubes, totals: board.totals, outbreaks: board.outbreaks, ..self }
    }

    /// Number of seated agents.
    pub open spec fn nagents(self) -> int {
        self.agents.len() as int
    }

    /// The role of the agent at a seat.
    pub open spec fn role(self, agent_idx: int) -> AgentName {
        self.agents[agent_idx].agent_type
    }

    /// Whether a city has a research station.
    pub open spec fn has_station(self, city: CityCard) -> bool {
        0 <= city.0 < self.stations.len() && self.stations[city.0 as int]
    }

    /// A disease is eradicated when no cube of it is on the board.
    pub open spec fn eradicated(self, disease: Disease) -> bool {
        self.totals.spec_get(disease) == 0
    }

    /// A disease counts as cured when its cure was found or it is eradicated.
    pub open spec fn cured_or_eradicated(self, disease: Disease) -> bool {
        self.cured.spec_get(disease) || self.eradicated(disease)
    }

    /// Whether the scheduler stands where it stood in `before`: the state,
    /// the current player, the cards that wait to be resolved, and the seat
    /// that is asked next for an event.
    pub open spec fn same_schedule(self, before: GameView) -> bool {
        &&& self.phase == before.phase
        &&& self.current_player == before.current_player
        &&& self.drawn == before.drawn
        &&& self.intensify_pending == before.intensify_pending
        &&& self.event_seat == before.event_seat
        &&& self.config == before.config
    }

    /// Whether no hand holds more cards than the limit.
    pub open spec fn hands_within_limit(self) -> bool {
        forall|i: int| 0 <= i < self.hands.len() ==> (#[trigger] self.hands[i]).len() <= HAND_LIMIT
    }

    /// The invariant of the game.
    ///
    /// The configuration is playable; the board is well formed; decks, discards
    /// and locations name cities of the board; every agent has a hand and a
    /// location, every agent has the actions of its role, and no hand holds a
    /// card twice; the infection rate index, even after every epidemic still to
    /// come, stays inside the rate sequence; one seated agent is the current
    /// player; the seat asked next for an event is a seat or the end of the
    /// seats; and cards wait to be resolved only while the scheduler is
    /// resolving cards.
    pub open spec fn wf(self) -> bool {
        &&& self.config.wf()
        &&& cubes_ok(&self.config, self.cubes, self.totals)
        &&& self.outbreaks <= self.config.max_outbreaks
        &&& self.stations.len() == self.config.ncities()
        &&& cities_in_range(self.infection_deck, self.config.ncities())
        &&& cities_in_range(self.infection_discard, self.config.ncities())
        &&& cities_in_range(self.forecast, self.config.ncities())
        &&& cities_in_range(self.locations, self.config.ncities())
        &&& agents_ok(&self.config, self.agents)
        &&& hands_ok(self.hands)
        &&& self.hands.len() == self.agents.len()
        &&& self.locations.len() == self.agents.len()
        &&& self.current_player < self.agents.len()
        &&& self.event_seat <= self.agents.len()
        &&& rates_ok(&self.config, self.rate_i, self.player_deck, self.drawn)
        &&& (self.drawn.len() > 0 || self.intensify_pending) ==> self.phase == TurnPhase::CardsDrawn
    }
}

/// As many agents are seated as the game has players, each with the actions
/// of its role.
pub open spec fn agents_ok(config: &PandemicGameConfig, agents: Seq<Agent>) -> bool {
    &&& agents.len() == config.nplayers
    &&& forall|i: int| 0 <= i < agents.len() ==> (#[trigger] agents[i]).wf()
}

/// No hand holds a card twice.
pub open spec fn hands_ok(hands: Seq<Seq<PlayerCard>>) -> bool {
    forall|i: int| 0 <= i < hands.len() ==> (#[trigger] hands[i]).no_duplicates()
}

/// The infection rate index stays inside the rate sequence even after every
/// epidemic that the player deck and the cards drawn still hold.
pub open spec fn rates_ok(
    config: &PandemicGameConfig,
    rate_i: usize,
    player_deck: Seq<PlayerCard>,
    drawn: Seq<PlayerCard>,
) -> bool {
    rate_i + epidemics_in(player_deck) + epidemics_in(drawn) < config.infection_rates@.len()
}

impl PandemicGameState {
    /// The invariant of the game holds of the state.
    pub open spec fn wf(&self) -> bool {
        self@.wf()
    }

    /// Whether a city has a research station.
    pub fn has_research_station(&self, city: CityCard) -> (b: bool)
        ensures
            b == self@.has_station(city),
    {
        city.0 < self.research_stations.len() && self.research_stations[city.0]
    }

    /// Whether no cube of a disease is on the board.
    pub fn is_eradicated(&self, disease: Disease) -> (b: bool)
        ensures
            b == self@.eradicated(disease),
    {
        self.total_cubes_on_board_per_disease.get(disease) == 0
    }

    /// Whether the cure of a disease was found, or the disease is eradicated.
    pub fn is_cured(&self, disease: Disease) -> (b: bool)
        ensures
            b == self@.cured_or_eradicated(disease),
    {
        self.cured_diseases.get(disease) || self.is_eradicated(disease)
    }

    /// Passes the turn to the next seat, in a fixed rotation.
    pub fn incr_current_player(&mut self)
        requires
            old(self).wf(),
        ensures
            final(self)@ == (GameView {
                current_player: ((old(self)@.current_player + 1) % old(self)@.nagents()) as u32,
                ..old(self)@
            }),
            final(self).wf(),
    {
        let n = self.agents.len() as u32;
        self.current_player_i = (self.current_player_i + 1) % n;
    }

    /// The agent whose turn it is.
    pub fn current_player(&self) -> (agent: &Agent)
        requires
            self.wf(),
        ensures
            *agent == self.agents@[self@.current_player as int],
    {
        &self.agents[self.current_player_i as usize]
    }

    /// The agent whose turn comes next.
    pub fn next_player(&self) -> (agent: &Agent)
        requires
            self.wf(),
        ensures
            *agent == self.agents@[(self@.current_player + 1) % self@.nagents()],
    {
        let n = self.agents.len() as u32;
        &self.agents[((self.current_player_i + 1) % n) as usize]
    }

    /// Number of infection cards drawn in an infection step.
    pub fn infection_rate(&self) -> (rate: usize)
        requires
            self.wf(),
        ensures
            rate == self@.config.infection_rates@[self@.rate_i as int],
    {
        self.config.infection_rates[self.infection_rate_i]
    }

    /// Puts a research station in a city.
    pub fn add_research_station(&mut self, city: CityCard)
        requires
            old(self).wf(),
            city.0 < old(self)@.config.ncities(),
        ensures
            final(self)@ == (GameView {
                stations: old(self)@.stations.update(city.0 as int, true),
                ..old(self)@
            }),
            final(self).wf(),
    {
        self.research_stations[city.0] = true;
    }
}

} // verus!
