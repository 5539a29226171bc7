//! The actions of the agents, and their dispatch through the action lists of
//! the roles.
use vstd::prelude::*;

use crate::agent::{
    action_text_fits, action_verdict, refuse_action, create_action_err_result_win,
    ActionEndState, ActionFault, ActionVerdict, AgentName,
};
use crate::city_graph::{adjacent, contains_city, CityCard};
use crate::game_enums::{Disease, GameEnd, PlayerCard};
use crate::hands::{
    add_to_hand, all_distinct, all_in_hand, as_player_cards, contains_card, hand_with, hand_without,
    hand_without_all, lemma_hand_with, lemma_hand_without, lemma_hand_without_all, remove_from_hand,
};
use crate::pandemic_game::{hands_ok, GameView, PandemicGameConfig, PandemicGameState, HAND_LIMIT};

verus! {

/// The verdict that goes with the outcome of the checks of an action.
pub open spec fn verdict_of(fault: Option<ActionFault>) -> ActionVerdict {
    match fault {
        None => ActionVerdict::Done,
        Some(f) => ActionVerdict::Refused(f),
    }
}

impl GameView {
    /// The game with an agent in another city.
    pub open spec fn moved(self, agent_idx: int, city: CityCard) -> GameView {
        GameView { locations: self.locations.update(agent_idx, city), ..self }
    }

    /// The game with a card gone from the hand of an agent to the player
    /// discard pile.
    pub open spec fn spent(self, agent_idx: int, card: PlayerCard) -> GameView {
        GameView {
            hands: self.hands.update(agent_idx, hand_without(self.hands[agent_idx], card)),
            player_discard: self.player_discard.push(card),
            ..self
        }
    }

    /// The game with a card gone from the hand of an agent, and from the game.
    pub open spec fn dropped(self, agent_idx: int, card: PlayerCard) -> GameView {
        GameView {
            hands: self.hands.update(agent_idx, hand_without(self.hands[agent_idx], card)),
            ..self
        }
    }

    /// Why an agent may not have its flight paid from the hand of another
    /// seat: only the agent itself and the dispatcher may pay, with the card.
    pub open spec fn payment_fault(
        self,
        agent_idx: usize,
        payer_idx: usize,
        card: PlayerCard,
    ) -> Option<ActionFault> {
        if payer_idx >= self.agents.len() {
            Some(ActionFault::AgentOutOfRange)
        } else if payer_idx != agent_idx && self.role(payer_idx as int) != AgentName::Dispatcher {
            Some(ActionFault::RoleMismatch)
        } else if !self.hands[payer_idx as int].contains(card) {
            Some(ActionFault::MissingCard)
        } else {
            None
        }
    }

    /// Why a drive is refused: the target must be next to the current city.
    pub open spec fn drive_fault(
        self,
        agent_idx: usize,
        new_city: CityCard,
    ) -> Option<ActionFault> {
        if agent_idx >= self.agents.len() {
            Some(ActionFault::AgentOutOfRange)
        } else if !adjacent(self.config.city_graph@, self.locations[agent_idx as int], new_city) {
            Some(ActionFault::NotConnected)
        } else {
            None
        }
    }

    /// The game after a movement to a city: the agent stands there, and the
    /// medic has swept the cubes of the cured diseases from it.
    pub open spec fn after_move(self, agent_idx: usize, new_city: CityCard) -> GameView {
        self.moved(agent_idx as int, new_city).after_arrival(agent_idx as int)
    }

    /// Why a direct flight is refused: the payer must hold the card of the
    /// target city.
    pub open spec fn direct_flight_fault(
        self,
        agent_idx: usize,
        new_city: CityCard,
        agent_to_discard_idx: usize,
    ) -> Option<ActionFault> {
        if agent_idx >= self.agents.len() {
            Some(ActionFault::AgentOutOfRange)
        } else if new_city.0 >= self.config.ncities() {
            Some(ActionFault::TargetOutOfRange)
        } else {
            self.payment_fault(agent_idx, agent_to_discard_idx, PlayerCard::CityCard(new_city))
        }
    }

    /// The game after a direct flight.
    pub open spec fn after_direct_flight(
        self,
        agent_idx: usize,
        new_city: CityCard,
        agent_to_discard_idx: usize,
    ) -> GameView {
        self.spent(agent_to_discard_idx as int, PlayerCard::CityCard(new_city)).after_move(
            agent_idx,
            new_city,
        )
    }

    /// Why a charter flight is refused: the payer must hold the card of the
    /// city that the agent leaves.
    pub open spec fn charter_flight_fault(
        self,
        agent_idx: usize,
        new_city: CityCard,
        agent_to_discard_idx: usize,
    ) -> Option<ActionFault> {
        if agent_idx >= self.agents.len() {
            Some(ActionFault::AgentOutOfRange)
        } else if new_city.0 >= self.config.ncities() {
            Some(ActionFault::TargetOutOfRange)
        } else {
            self.payment_fault(
                agent_idx,
                agent_to_discard_idx,
                PlayerCard::CityCard(self.locations[agent_idx as int]),
            )
        }
    }

    /// The game after a charter flight.
    pub open spec fn after_charter_flight(
        self,
        agent_idx: usize,
        new_city: CityCard,
        agent_to_discard_idx: usize,
    ) -> GameView {
        self.spent(
            agent_to_discard_idx as int,
            PlayerCard::CityCard(self.locations[agent_idx as int]),
        ).after_move(agent_idx, new_city)
    }

    /// Why a shuttle flight is refused: both cities need a research station.
    pub open spec fn shuttle_flight_fault(
        self,
        agent_idx: usize,
        new_city: CityCard,
    ) -> Option<ActionFault> {
        if agent_idx >= self.agents.len() {
            Some(ActionFault::AgentOutOfRange)
        } else if !self.has_station(new_city) || !self.has_station(self.locations[agent_idx as int]) {
            Some(ActionFault::MissingResearchStation)
        } else {
            None
        }
    }
}

impl PandemicGameState {
    /// Puts an agent in a city.
    fn move_agent(&mut self, agent_idx: usize, city: CityCard)
        requires
            old(self).wf(),
            agent_idx < old(self)@.nagents(),
            city.0 < old(self)@.config.ncities(),
        ensures
            final(self).wf(),
            final(self)@ == old(self)@.moved(agent_idx as int, city),
            final(self)@.same_schedule(old(self)@),
    {
        self.player_locations[agent_idx] = city;
    }

    /// Moves a card from the hand of an agent to the player discard pile.
    fn spend_card(&mut self, agent_idx: usize, card: PlayerCard)
        requires
            old(self).wf(),
            agent_idx < old(self)@.nagents(),
        ensures
            final(self).wf(),
            final(self)@ == old(self)@.spent(agent_idx as int, card),
            final(self)@.same_schedule(old(self)@),
    {
        proof {
            lemma_hand_without(self@.hands[agent_idx as int], card);
        }
        remove_from_hand(&mut self.player_hands[agent_idx], card);
        self.player_discard.push(card);
        assert(self@.hands =~= old(self)@.hands.update(
            agent_idx as int,
            hand_without(old(self)@.hands[agent_idx as int], card),
        ));
    }

    /// Takes a card out of the hand of an agent, and out of the game.
    pub(crate) fn drop_card(&mut self, agent_idx: usize, card: PlayerCard)
        requires
            old(self).wf(),
            agent_idx < old(self)@.nagents(),
        ensures
            final(self).wf(),
            final(self)@ == old(self)@.dropped(agent_idx as int, card),
            final(self)@.same_schedule(old(self)@),
    {
        proof {
            lemma_hand_without(self@.hands[agent_idx as int], card);
        }
        remove_from_hand(&mut self.player_hands[agent_idx], card);
        assert(self@.hands =~= old(self)@.hands.update(
            agent_idx as int,
            hand_without(old(self)@.hands[agent_idx as int], card),
        ));
    }

    /// Tells whether the hand of an agent holds a card.
    pub fn hand_contains(&self, agent_idx: usize, card: PlayerCard) -> (found: bool)
        requires
            agent_idx < self@.hands.len(),
        ensures
            found == self@.hands[agent_idx as int].contains(card),
    {
        contains_card(&self.player_hands[agent_idx], card)
    }

    /// Checks who pays for a flight.
    fn check_payment(
        &self,
        agent_idx: usize,
        payer_idx: usize,
        card: PlayerCard,
    ) -> (fault: Option<ActionFault>)
        requires
            self.wf(),
        ensures
            fault == self@.payment_fault(agent_idx, payer_idx, card),
    {
        if payer_idx >= self.agents.len() {
            Some(ActionFault::AgentOutOfRange)
        } else if payer_idx != agent_idx && self.agents[payer_idx].agent_type
            != AgentName::Dispatcher {
            Some(ActionFault::RoleMismatch)
        } else if !self.hand_contains(payer_idx, card) {
            Some(ActionFault::MissingCard)
        } else {
            None
        }
    }

    /// Moves an agent to a city next to the one where it stands.
    pub fn drive(
        &mut self,
        agent_idx: usize,
        new_city: CityCard,
    ) -> (result: Result<(), ActionEndState>)
        requires
            old(self).wf(),
        ensures
            final(self).wf(),
            action_text_fits(result),
            final(self)@.same_schedule(old(self)@),
            action_verdict(result) == verdict_of(old(self)@.drive_fault(agent_idx, new_city)),
            final(self)@ == if result is Ok {
                old(self)@.after_move(agent_idx, new_city)
            } else {
                old(self)@
            },
    {
        if agent_idx >= self.agents.len() {
            return refuse_action(ActionFault::AgentOutOfRange);
        }
        let cur_city = self.player_locations[agent_idx];
        assert(cur_city.0 < self@.config.ncities());
        if !contains_city(&self.config.city_graph[cur_city.0], new_city) {
            return refuse_action(ActionFault::NotConnected);
        }
        proof {
            let row = self.config.city_graph@[cur_city.0 as int]@;
            let k = row.index_of(new_city);
            assert(row[k] == new_city);
            assert(self.config.city_graph@[cur_city.0 as int]@[k].0 < self.config.city_graph@.len());
        }
        self.move_agent(agent_idx, new_city);
        self.remove_cured_if_medic(agent_idx);
        Ok(())
    }

    /// Flies an agent to a city whose card is discarded, from its own hand or
    /// from the hand of the dispatcher.
    pub fn direct_flight(
        &mut self,
        agent_idx: usize,
        new_city: CityCard,
        agent_to_discard_idx: usize,
    ) -> (result: Result<(), ActionEndState>)
        requires
            old(self).wf(),
        ensures
            final(self).wf(),
            action_text_fits(result),
            final(self)@.same_schedule(old(self)@),
            action_verdict(result) == verdict_of(
                old(self)@.direct_flight_fault(agent_idx, new_city, agent_to_discard_idx),
            ),
            final(self)@ == if result is Ok {
                old(self)@.after_direct_flight(agent_idx, new_city, agent_to_discard_idx)
            } else {
                old(self)@
            },
    {
        if agent_idx >= self.agents.len() {
            return refuse_action(ActionFault::AgentOutOfRange);
        }
        if new_city.0 >= self.config.city_graph.len() {
            return refuse_action(ActionFault::TargetOutOfRange);
        }
        let card = PlayerCard::CityCard(new_city);
        match self.check_payment(agent_idx, agent_to_discard_idx, card) {
            Some(fault) => {
                return refuse_action(fault);
            },
            None => {},
        }
        self.spend_card(agent_to_discard_idx, card);
        self.move_agent(agent_idx, new_city);
        self.remove_cured_if_medic(agent_idx);
        Ok(())
    }

    /// Flies an agent anywhere for the card of the city it leaves, discarded
    /// from its own hand or from the hand of the dispatcher.
    pub fn charter_flight(
        &mut self,
        agent_idx: usize,
        new_city: CityCard,
        agent_to_discard_idx: usize,
    ) -> (result: Result<(), ActionEndState>)
        requires
            old(self).wf(),
        ensures
            final(self).wf(),
            action_text_fits(result),
            final(self)@.same_schedule(old(self)@),
            action_verdict(result) == verdict_of(
                old(self)@.charter_flight_fault(agent_idx, new_city, agent_to_discard_idx),
            ),
            final(self)@ == if result is Ok {
                old(self)@.after_charter_flight(agent_idx, new_city, agent_to_discard_idx)
            } else {
                old(self)@
            },
    {
        if agent_idx >= self.agents.len() {
            return refuse_action(ActionFault::AgentOutOfRange);
        }
        if new_city.0 >= self.config.city_graph.len() {
            return refuse_action(ActionFault::TargetOutOfRange);
        }
        let cur_city_as_player_card = PlayerCard::CityCard(self.player_locations[agent_idx]);
        match self.check_payment(agent_idx, agent_to_discard_idx, cur_city_as_player_card) {
            Some(fault) => {
                return refuse_action(fault);
            },
            None => {},
        }
        self.spend_card(agent_to_discard_idx, cur_city_as_player_card);
        self.move_agent(agent_idx, new_city);
        self.remove_cured_if_medic(agent_idx);
        Ok(())
    }

    /// Moves an agent between two cities that both have a research station.
    pub fn shuttle_flight(
        &mut self,
        agent_idx: usize,
        new_city: CityCard,
    ) -> (result: Result<(), ActionEndState>)
        requires
            old(self).wf(),
        ensures
            final(self).wf(),
            action_text_fits(result),
            final(self)@.same_schedule(old(self)@),
            action_verdict(result) == verdict_of(old(self)@.shuttle_flight_fault(agent_idx, new_city)),
            final(self)@ == if result is Ok {
                old(self)@.after_move(agent_idx, new_city)
            } else {
                old(self)@
            },
    {
        if agent_idx >= self.agents.len() {
            return refuse_action(ActionFault::AgentOutOfRange);
        }
        let cur_city = self.player_locations[agent_idx];
        if !self.has_research_station(new_city) {
            return refuse_action(ActionFault::MissingResearchStation);
        }
        if !self.has_research_station(cur_city) {
            return refuse_action(ActionFault::MissingResearchStation);
        }
        self.move_agent(agent_idx, new_city);
        self.remove_cured_if_medic(agent_idx);
        Ok(())
    }
}

/// Whether every card shows the colour of a disease.
pub open spec fn all_of_color(
    config: &PandemicGameConfig,
    cities: Seq<CityCard>,
    disease: Disease,
) -> bool {
    forall|i: int| 0 <= i < cities.len() ==> config.disease_of(#[trigger] cities[i]) == disease
}

/// Whether every card names a city of the board.
pub open spec fn all_on_board(config: &PandemicGameConfig, cities: Seq<CityCard>) -> bool {
    forall|i: int| 0 <= i < cities.len() ==> (#[trigger] cities[i]).0 < config.ncities()
}

/// Number of city cards that a role plays to find a cure.
pub open spec fn cards_for_cure(role: AgentName) -> int {
    if role == AgentName::Scientist {
        4
    } else {
        5
    }
}

/// Number of cards that a hand holds over the limit.
pub open spec fn excess(hand: Seq<PlayerCard>) -> int {
    if hand.len() > HAND_LIMIT {
        hand.len() - HAND_LIMIT
    } else {
        0
    }
}

/// A selection of discards fits a hand when it names distinct cards of the
/// hand, as many as the hand holds over the limit.
pub open spec fn discards_fit(hand: Seq<PlayerCard>, discards: Seq<PlayerCard>) -> bool {
    &&& discards.len() == excess(hand)
    &&& discards.no_duplicates()
    &&& all_in_hand(hand, discards)
}

impl GameView {
    /// Why a research station cannot be built: the city has one, or the
    /// agent lacks the card of the city, which only the operations expert
    /// can do without.
    pub open spec fn build_fault(self, agent_idx: usize) -> Option<ActionFault> {
        if agent_idx >= self.agents.len() {
            Some(ActionFault::AgentOutOfRange)
        } else if self.has_station(self.locations[agent_idx as int]) {
            Some(ActionFault::StationAlreadyBuilt)
        } else if self.role(agent_idx as int) != AgentName::Operations && !self.hands[agent_idx as int].contains(
            PlayerCard::CityCard(self.locations[agent_idx as int]),
        ) {
            Some(ActionFault::MissingCard)
        } else {
            None
        }
    }

    /// The game after a research station was built where an agent stands.
    /// The card of the city leaves the hand and the game.
    pub open spec fn after_build(self, agent_idx: usize) -> GameView {
        let city = self.locations[agent_idx as int];
        let built = GameView { stations: self.stations.update(city.0 as int, true), ..self };
        if self.role(agent_idx as int) != AgentName::Operations {
            built.dropped(agent_idx as int, PlayerCard::CityCard(city))
        } else {
            built
        }
    }

    /// Why a disease cannot be treated where an agent stands.
    pub open spec fn treat_fault(self, agent_idx: usize, disease: Disease) -> Option<ActionFault> {
        if agent_idx >= self.agents.len() {
            Some(ActionFault::AgentOutOfRange)
        } else if self.board().count(self.locations[agent_idx as int], disease) == 0 {
            Some(ActionFault::NoCubesToTreat)
        } else {
            None
        }
    }

    /// The hand of the receiver once a card was given to it.
    pub open spec fn hand_after_gift(
        self,
        receiving_agent_idx: usize,
        city: CityCard,
    ) -> Seq<PlayerCard> {
        hand_with(self.hands[receiving_agent_idx as int], PlayerCard::CityCard(city))
    }

    /// Why a card cannot be handed over. The acting agent gives or receives;
    /// both stand in the same city; the giver holds the card; the card is that
    /// of the city where they stand, unless the researcher gives; and the
    /// discards bring the hand of the receiver back to the limit. An agent
    /// may hand a card to itself, which leaves the card where it is.
    pub open spec fn share_fault(
        self,
        agent_idx: usize,
        giving_agent_idx: usize,
        receiving_agent_idx: usize,
        city: CityCard,
        discards: Seq<PlayerCard>,
    ) -> Option<ActionFault> {
        if agent_idx >= self.agents.len() || giving_agent_idx >= self.agents.len()
            || receiving_agent_idx >= self.agents.len() {
            Some(ActionFault::AgentOutOfRange)
        } else if agent_idx != giving_agent_idx && agent_idx != receiving_agent_idx {
            Some(ActionFault::MalformedSelection)
        } else if self.locations[giving_agent_idx as int] != self.locations[receiving_agent_idx as int] {
            Some(ActionFault::NotInSameCity)
        } else if !self.hands[giving_agent_idx as int].contains(PlayerCard::CityCard(city)) {
            Some(ActionFault::MissingCard)
        } else if city != self.locations[giving_agent_idx as int] && self.role(giving_agent_idx as int)
            != AgentName::Researcher {
            Some(ActionFault::RoleMismatch)
        } else if !discards_fit(self.hand_after_gift(receiving_agent_idx, city), discards) {
            Some(ActionFault::MalformedSelection)
        } else {
            None
        }
    }

    /// The game after a card was handed over and the receiver discarded.
    pub open spec fn after_share(
        self,
        giving_agent_idx: usize,
        receiving_agent_idx: usize,
        city: CityCard,
        discards: Seq<PlayerCard>,
    ) -> GameView {
        let card = PlayerCard::CityCard(city);
        GameView {
            hands: self.hands.update(
                giving_agent_idx as int,
                hand_without(self.hands[giving_agent_idx as int], card),
            ).update(
                receiving_agent_idx as int,
                hand_without_all(self.hand_after_gift(receiving_agent_idx, city), discards),
            ),
            player_discard: self.player_discard + discards,
            ..self
        }
    }

    /// Why a cure cannot be found. The agent plays five city cards, or four as
    /// the scientist; the disease is not cured yet; the cards are distinct
    /// cards of its hand; they name cities of the board, all of the colour of
    /// the disease.
    pub open spec fn cure_fault(
        self,
        agent_idx: usize,
        disease: Disease,
        cards: Seq<CityCard>,
    ) -> Option<ActionFault> {
        if agent_idx >= self.agents.len() {
            Some(ActionFault::AgentOutOfRange)
        } else if cards.len() != cards_for_cure(self.role(agent_idx as int)) {
            Some(ActionFault::MalformedSelection)
        } else if self.cured.spec_get(disease) {
            Some(ActionFault::AlreadyCured)
        } else if !as_player_cards(cards).no_duplicates() {
            Some(ActionFault::MalformedSelection)
        } else if !all_in_hand(self.hands[agent_idx as int], as_player_cards(cards)) {
            Some(ActionFault::MissingCard)
        } else if !all_on_board(&self.config, cards) {
            Some(ActionFault::TargetOutOfRange)
        } else if !all_of_color(&self.config, cards, disease) {
            Some(ActionFault::ColorMismatch)
        } else {
            None
        }
    }

    /// The game after a cure was found.
    pub open spec fn after_cure(
        self,
        agent_idx: usize,
        disease: Disease,
        cards: Seq<CityCard>,
    ) -> GameView {
        GameView {
            hands: self.hands.update(
                agent_idx as int,
                hand_without_all(self.hands[agent_idx as int], as_player_cards(cards)),
            ),
            player_discard: self.player_discard + as_player_cards(cards),
            cured: self.cured.spec_set(disease, true),
            ..self
        }
    }

    /// Whether the cure of every disease has been found.
    pub open spec fn all_cured(self) -> bool {
        self.cured.blue && self.cured.red && self.cured.black && self.cured.yellow
    }

    /// Why the dispatcher cannot fly another agent to a city: it must hold the
    /// card of that city, which it keeps.
    pub open spec fn dispatch_flight_fault(
        self,
        agent_idx: usize,
        other_agent_idx: usize,
        new_city: CityCard,
    ) -> Option<ActionFault> {
        if agent_idx >= self.agents.len() {
            Some(ActionFault::AgentOutOfRange)
        } else if self.role(agent_idx as int) != AgentName::Dispatcher {
            Some(ActionFault::RoleMismatch)
        } else if other_agent_idx >= self.agents.len() {
            Some(ActionFault::AgentOutOfRange)
        } else if new_city.0 >= self.config.ncities() {
            Some(ActionFault::TargetOutOfRange)
        } else if !self.hands[agent_idx as int].contains(PlayerCard::CityCard(new_city)) {
            Some(ActionFault::MissingCard)
        } else {
            None
        }
    }

    /// Why the operations expert cannot move: it must stand in a city with a
    /// research station.
    pub open spec fn operations_move_fault(
        self,
        agent_idx: usize,
        new_city: CityCard,
    ) -> Option<ActionFault> {
        if agent_idx >= self.agents.len() {
            Some(ActionFault::AgentOutOfRange)
        } else if self.role(agent_idx as int) != AgentName::Operations {
            Some(ActionFault::RoleMismatch)
        } else if new_city.0 >= self.config.ncities() {
            Some(ActionFault::TargetOutOfRange)
        } else if !self.has_station(self.locations[agent_idx as int]) {
            Some(ActionFault::MissingResearchStation)
        } else {
            None
        }
    }

    /// Why the contingency planner cannot take a card of the player discard
    /// pile in reserve: the reserve must be free and the card an event.
    pub open spec fn contingency_fault(
        self,
        agent_idx: usize,
        player_discard_event_index: usize,
    ) -> Option<ActionFault> {
        if agent_idx >= self.agents.len() {
            Some(ActionFault::AgentOutOfRange)
        } else if self.role(agent_idx as int) != AgentName::Contingency {
            Some(ActionFault::RoleMismatch)
        } else if player_discard_event_index >= self.player_discard.len() {
            Some(ActionFault::TargetOutOfRange)
        } else if self.reserve is Some {
            Some(ActionFault::ReserveOccupied)
        } else if !(self.player_discard[player_discard_event_index as int] is EventCard) {
            Some(ActionFault::NotAnEventCard)
        } else {
            None
        }
    }

    /// The game after the contingency planner took an event in reserve: the
    /// card has left the discard pile for good.
    pub open spec fn after_contingency(self, player_discard_event_index: usize) -> GameView {
        GameView {
            player_discard: self.player_discard.remove(player_discard_event_index as int),
            reserve: Some(self.player_discard[player_discard_event_index as int]->EventCard_0),
            ..self
        }
    }
}

/// Tells whether a selection of discards fits a hand.
pub fn choose_cards_to_discard(hand: &Vec<PlayerCard>, discards: &Vec<PlayerCard>) -> (fits: bool)
    ensures
        fits == discards_fit(hand@, discards@),
{
    let over = if hand.len() > HAND_LIMIT {
        hand.len() - HAND_LIMIT
    } else {
        0
    };
    if discards.len() != over {
        return false;
    }
    if !all_distinct(discards) {
        return false;
    }
    let mut i: usize = 0;
    while i < discards.len()
        invariant
            i <= discards.len(),
            forall|k: int| 0 <= k < i ==> hand@.contains(#[trigger] discards@[k]),
        decreases discards.len() - i,
    {
        if !contains_card(hand, discards[i]) {
            return false;
        }
        i += 1;
    }
    true
}

impl PandemicGameState {
    /// Takes the cards of a list out of the hand of an agent and puts them
    /// on the player discard pile.
    pub(crate) fn discard_cards(&mut self, agent_idx: usize, cards: &Vec<PlayerCard>)
        requires
            old(self).wf(),
            agent_idx < old(self)@.nagents(),
        ensures
            final(self).wf(),
            final(self)@ == (GameView {
                hands: old(self)@.hands.update(
                    agent_idx as int,
                    hand_without_all(old(self)@.hands[agent_idx as int], cards@),
                ),
                player_discard: old(self)@.player_discard + cards@,
                ..old(self)@
            }),
            final(self)@.same_schedule(old(self)@),
    {
        let mut i: usize = 0;
        assert(cards@.subrange(0, 0) =~= Seq::<PlayerCard>::empty());
        assert(self@.hands =~= old(self)@.hands.update(
            agent_idx as int,
            hand_without_all(old(self)@.hands[agent_idx as int], cards@.subrange(0, 0)),
        ));
        assert(self@.player_discard =~= old(self)@.player_discard + cards@.subrange(0, 0));
        while i < cards.len()
            invariant
                i <= cards.len(),
                agent_idx < old(self)@.nagents(),
                old(self).wf(),
                self.wf(),
                self@ == (GameView {
                    hands: old(self)@.hands.update(
                        agent_idx as int,
                        hand_without_all(old(self)@.hands[agent_idx as int], cards@.subrange(0, i as int)),
                    ),
                    player_discard: old(self)@.player_discard + cards@.subrange(0, i as int),
                    ..old(self)@
                }),
            decreases cards.len() - i,
        {
            let ghost before = self@;
            self.spend_card(agent_idx, cards[i]);
            proof {
                let done = cards@.subrange(0, i as int);
                let next = cards@.subrange(0, i + 1);
                assert(next.drop_last() =~= done);
                assert(next.last() == cards@[i as int]);
                assert(self@.hands =~= old(self)@.hands.update(
                    agent_idx as int,
                    hand_without_all(old(self)@.hands[agent_idx as int], next),
                ));
                assert(self@.player_discard =~= old(self)@.player_discard + next);
            }
            i += 1;
        }
        assert(cards@.subrange(0, cards@.len() as int) =~= cards@);
    }

    /// Removes cubes of a disease in the city where an agent stands: one
    /// cube, or all of them when the medic treats or the disease is cured.
    pub fn treat_disease(
        &mut self,
        agent_idx: usize,
        disease: Disease,
    ) -> (result: Result<(), ActionEndState>)
        requires
            old(self).wf(),
        ensures
            final(self).wf(),
            action_text_fits(result),
            final(self)@.same_schedule(old(self)@),
            action_verdict(result) == verdict_of(old(self)@.treat_fault(agent_idx, disease)),
            final(self)@ == if result is Ok {
                old(self)@.after_treatment(
                    old(self)@.locations[agent_idx as int],
                    disease,
                    old(self)@.role(agent_idx as int) == AgentName::Medic,
                )
            } else {
                old(self)@
            },
    {
        if agent_idx >= self.agents.len() {
            return refuse_action(ActionFault::AgentOutOfRange);
        }
        let agent_name = self.agents[agent_idx].agent_type;
        let cur_city = self.player_locations[agent_idx];
        assert(cur_city.0 < self@.config.ncities());
        self.treat_disease_internal(cur_city, disease, agent_name == AgentName::Medic)
    }

    /// Builds a research station where an agent stands, for the card of the
    /// city, which leaves the game. The operations expert builds without the
    /// card.
    pub fn build_research_station(
        &mut self,
        agent_idx: usize,
    ) -> (result: Result<(), ActionEndState>)
        requires
            old(self).wf(),
        ensures
            final(self).wf(),
            action_text_fits(result),
            final(self)@.same_schedule(old(self)@),
            action_verdict(result) == verdict_of(old(self)@.build_fault(agent_idx)),
            final(self)@ == if result is Ok {
                old(self)@.after_build(agent_idx)
            } else {
                old(self)@
            },
    {
        if agent_idx >= self.agents.len() {
            return refuse_action(ActionFault::AgentOutOfRange);
        }
        let agent_name = self.agents[agent_idx].agent_type;
        let cur_city = self.player_locations[agent_idx];
        assert(cur_city.0 < self@.config.ncities());
        if self.has_research_station(cur_city) {
            return refuse_action(ActionFault::StationAlreadyBuilt);
        }
        let card = PlayerCard::CityCard(cur_city);
        if agent_name != AgentName::Operations && !self.hand_contains(agent_idx, card) {
            return refuse_action(ActionFault::MissingCard);
        }
        self.add_research_station(cur_city);
        if agent_name != AgentName::Operations {
            self.drop_card(agent_idx, card);
        }
        Ok(())
    }

    /// Hands a city card from one agent to another in the same city. A
    /// receiver left with more than seven cards discards down to seven with
    /// the cards of `discards`; otherwise `discards` must be empty.
    pub fn share_knowledge(
        &mut self,
        agent_idx: usize,
        giving_agent_idx: usize,
        receiving_agent_idx: usize,
        city: CityCard,
        discards: &Vec<PlayerCard>,
    ) -> (result: Result<(), ActionEndState>)
        requires
            old(self).wf(),
        ensures
            final(self).wf(),
            action_text_fits(result),
            final(self)@.same_schedule(old(self)@),
            action_verdict(result) == verdict_of(
                old(self)@.share_fault(agent_idx, giving_agent_idx, receiving_agent_idx, city, discards@),
            ),
            final(self)@ == if result is Ok {
                old(self)@.after_share(giving_agent_idx, receiving_agent_idx, city, discards@)
            } else {
                old(self)@
            },
            result is Ok ==> final(self)@.hands[receiving_agent_idx as int].len() <= HAND_LIMIT,
    {
        let nagents = self.agents.len();
        if agent_idx >= nagents || giving_agent_idx >= nagents || receiving_agent_idx >= nagents {
            return refuse_action(ActionFault::AgentOutOfRange);
        }
        if agent_idx != giving_agent_idx && agent_idx != receiving_agent_idx {
            return refuse_action(ActionFault::MalformedSelection);
        }
        let giving_agent_name = self.agents[giving_agent_idx].agent_type;
        let g_player_loc = self.player_locations[giving_agent_idx];
        let r_player_loc = self.player_locations[receiving_agent_idx];
        if g_player_loc != r_player_loc {
            return refuse_action(ActionFault::NotInSameCity);
        }
        let city_as_player_card = PlayerCard::CityCard(city);
        if !self.hand_contains(giving_agent_idx, city_as_player_card) {
            return refuse_action(ActionFault::MissingCard);
        }
        if city != g_player_loc && giving_agent_name != AgentName::Researcher {
            return refuse_action(ActionFault::RoleMismatch);
        }
        let mut received: Vec<PlayerCard> = self.player_hands[receiving_agent_idx].clone();
        assert(received@ =~= self@.hands[receiving_agent_idx as int]);
        add_to_hand(&mut received, city_as_player_card);
        if !choose_cards_to_discard(&received, discards) {
            return refuse_action(ActionFault::MalformedSelection);
        }
        proof {
            let giver = self@.hands[giving_agent_idx as int];
            let taker = self@.hands[receiving_agent_idx as int];
            lemma_hand_without(giver, city_as_player_card);
            lemma_hand_with(taker, city_as_player_card);
            lemma_hand_without_all(hand_with(taker, city_as_player_card), discards@);
        }
        if giving_agent_idx != receiving_agent_idx {
            remove_from_hand(&mut self.player_hands[giving_agent_idx], city_as_player_card);
            add_to_hand(&mut self.player_hands[receiving_agent_idx], city_as_player_card);
        }
        let ghost gifted = self@;
        assert(gifted.hands =~= old(self)@.hands.update(
            giving_agent_idx as int,
            hand_without(old(self)@.hands[giving_agent_idx as int], city_as_player_card),
        ).update(receiving_agent_idx as int, old(self)@.hand_after_gift(receiving_agent_idx, city)));
        assert(hands_ok(gifted.hands));
        self.discard_cards(receiving_agent_idx, discards);
        assert(self@.hands =~= old(self)@.after_share(
            giving_agent_idx,
            receiving_agent_idx,
            city,
            discards@,
        ).hands);
        Ok(())
    }

    /// Finds the cure of a disease for five city cards of its colour from
    /// the hand of the agent, or four from the hand of the scientist. The
    /// game is won at once when all four diseases are cured.
    #[verifier::loop_isolation(false)]
    pub fn discover_cure(
        &mut self,
        agent_idx: usize,
        disease: Disease,
        matching_city_cards: &Vec<CityCard>,
    ) -> (result: Result<(), ActionEndState>)
        requires
            old(self).wf(),
        ensures
            final(self).wf(),
            action_text_fits(result),
            final(self)@.same_schedule(old(self)@),
            action_verdict(result) == match old(self)@.cure_fault(agent_idx, disease, matching_city_cards@) {
                Some(fault) => ActionVerdict::Refused(fault),
                None => if old(self)@.after_cure(agent_idx, disease, matching_city_cards@).all_cured() {
                    ActionVerdict::Ended(GameEnd::Win)
                } else {
                    ActionVerdict::Done
                },
            },
            final(self)@ == if old(self)@.cure_fault(agent_idx, disease, matching_city_cards@) is None {
                old(self)@.after_cure(agent_idx, disease, matching_city_cards@)
            } else {
                old(self)@
            },
    {
        if agent_idx >= self.agents.len() {
            return refuse_action(ActionFault::AgentOutOfRange);
        }
        let agent_name = self.agents[agent_idx].agent_type;
        let needed: usize = if agent_name == AgentName::Scientist {
            4
        } else {
            5
        };
        if matching_city_cards.len() != needed {
            return refuse_action(ActionFault::MalformedSelection);
        }
        if self.cured_diseases.get(disease) {
            return refuse_action(ActionFault::AlreadyCured);
        }
        let mut cards: Vec<PlayerCard> = Vec::new();
        let mut i: usize = 0;
        while i < matching_city_cards.len()
            invariant
                i <= matching_city_cards.len(),
                cards@.len() == i,
                forall|k: int| 0 <= k < i ==> cards@[k] == PlayerCard::CityCard(matching_city_cards@[k]),
            decreases matching_city_cards.len() - i,
        {
            cards.push(PlayerCard::CityCard(matching_city_cards[i]));
            i += 1;
        }
        assert(cards@ =~= as_player_cards(matching_city_cards@));
        if !all_distinct(&cards) {
            return refuse_action(ActionFault::MalformedSelection);
        }
        let mut h: usize = 0;
        while h < cards.len()
            invariant
                h <= cards.len(),
                self@ == old(self)@,
                agent_idx < self@.nagents(),
                forall|k: int| 0 <= k < h ==> self@.hands[agent_idx as int].contains(#[trigger] cards@[k]),
            decreases cards.len() - h,
        {
            if !self.hand_contains(agent_idx, cards[h]) {
                return refuse_action(ActionFault::MissingCard);
            }
            h += 1;
        }
        let mut b: usize = 0;
        while b < matching_city_cards.len()
            invariant
                b <= matching_city_cards.len(),
                self@ == old(self)@,
                forall|k: int|
                    0 <= k < b ==> (#[trigger] matching_city_cards@[k]).0 < self@.config.ncities(),
            decreases matching_city_cards.len() - b,
        {
            if matching_city_cards[b].0 >= self.config.city_graph.len() {
                return refuse_action(ActionFault::TargetOutOfRange);
            }
            b += 1;
        }
        let mut c: usize = 0;
        while c < matching_city_cards.len()
            invariant
                c <= matching_city_cards.len(),
                self@ == old(self)@,
                self.wf(),
                all_on_board(&self@.config, matching_city_cards@),
                forall|k: int|
                    0 <= k < c ==> self@.config.disease_of(#[trigger] matching_city_cards@[k]) == disease,
            decreases matching_city_cards.len() - c,
        {
            let city = matching_city_cards[c];
            assert(city.0 < self@.config.ncities());
            if self.config.city_diseases[city.0] != disease {
                return refuse_action(ActionFault::ColorMismatch);
            }
            c += 1;
        }
        self.discard_cards(agent_idx, &cards);
        self.cured_diseases.set(disease, true);
        assert(self@ == old(self)@.after_cure(agent_idx, disease, matching_city_cards@));
        if self.cured_diseases.blue && self.cured_diseases.red && self.cured_diseases.black
            && self.cured_diseases.yellow {
            create_action_err_result_win()
        } else {
            Ok(())
        }
    }

    /// Lets the dispatcher fly another agent to a city of which the
    /// dispatcher holds the card. The card stays in its hand.
    pub fn dispatch_flight(
        &mut self,
        agent_idx: usize,
        other_agent_idx: usize,
        new_city: CityCard,
    ) -> (result: Result<(), ActionEndState>)
        requires
            old(self).wf(),
        ensures
            final(self).wf(),
            action_text_fits(result),
            final(self)@.same_schedule(old(self)@),
            action_verdict(result) == verdict_of(
                old(self)@.dispatch_flight_fault(agent_idx, other_agent_idx, new_city),
            ),
            final(self)@ == if result is Ok {
                old(self)@.after_move(other_agent_idx, new_city)
            } else {
                old(self)@
            },
    {
        if agent_idx >= self.agents.len() {
            return refuse_action(ActionFault::AgentOutOfRange);
        }
        if self.agents[agent_idx].agent_type != AgentName::Dispatcher {
            return refuse_action(ActionFault::RoleMismatch);
        }
        if other_agent_idx >= self.agents.len() {
            return refuse_action(ActionFault::AgentOutOfRange);
        }
        if new_city.0 >= self.config.city_graph.len() {
            return refuse_action(ActionFault::TargetOutOfRange);
        }
        if !self.hand_contains(agent_idx, PlayerCard::CityCard(new_city)) {
            return refuse_action(ActionFault::MissingCard);
        }
        self.move_agent(other_agent_idx, new_city);
        self.remove_cured_if_medic(other_agent_idx);
        Ok(())
    }

    /// Moves the operations expert from a city with a research station to
    /// any city, without a connection and without a discard.
    pub fn operations_move(
        &mut self,
        agent_idx: usize,
        new_city: CityCard,
    ) -> (result: Result<(), ActionEndState>)
        requires
            old(self).wf(),
        ensures
            final(self).wf(),
            action_text_fits(result),
            final(self)@.same_schedule(old(self)@),
            action_verdict(result) == verdict_of(old(self)@.operations_move_fault(agent_idx, new_city)),
            final(self)@ == if result is Ok {
                old(self)@.moved(agent_idx as int, new_city)
            } else {
                old(self)@
            },
    {
        if agent_idx >= self.agents.len() {
            return refuse_action(ActionFault::AgentOutOfRange);
        }
        if self.agents[agent_idx].agent_type != AgentName::Operations {
            return refuse_action(ActionFault::RoleMismatch);
        }
        if new_city.0 >= self.config.city_graph.len() {
            return refuse_action(ActionFault::TargetOutOfRange);
        }
        if !self.has_research_station(self.player_locations[agent_idx]) {
            return refuse_action(ActionFault::MissingResearchStation);
        }
        self.move_agent(agent_idx, new_city);
        Ok(())
    }

    /// Lets the contingency planner take an event card of the player discard
    /// pile in reserve. The card leaves the pile for good.
    pub fn contingency_plan(
        &mut self,
        agent_idx: usize,
        player_discard_event_index: usize,
    ) -> (result: Result<(), ActionEndState>)
        requires
            old(self).wf(),
        ensures
            final(self).wf(),
            action_text_fits(result),
            final(self)@.same_schedule(old(self)@),
            action_verdict(result) == verdict_of(
                old(self)@.contingency_fault(agent_idx, player_discard_event_index),
            ),
            final(self)@ == if result is Ok {
                old(self)@.after_contingency(player_discard_event_index)
            } else {
                old(self)@
            },
    {
        if agent_idx >= self.agents.len() {
            return refuse_action(ActionFault::AgentOutOfRange);
        }
        if self.agents[agent_idx].agent_type != AgentName::Contingency {
            return refuse_action(ActionFault::RoleMismatch);
        }
        if player_discard_event_index >= self.player_discard.len() {
            return refuse_action(ActionFault::TargetOutOfRange);
        }
        if self.contingency_planner_event_card.is_some() {
            return refuse_action(ActionFault::ReserveOccupied);
        }
        match self.player_discard[player_discard_event_index] {
            PlayerCard::EventCard(event_card) => {
                self.player_discard.remove(player_discard_event_index);
                self.contingency_planner_event_card = Some(event_card);
                Ok(())
            },
            _ => refuse_action(ActionFault::NotAnEventCard),
        }
    }
}

} // verus!
