//! The event cards and what each of them does.
use vstd::prelude::*;

use crate::actions::verdict_of;
use crate::agent::{
    action_text_fits, action_verdict, refuse_action, ActionEndState, ActionFault,
    AgentName,
};
use crate::city_graph::CityCard;
use crate::decks::{at_most, below_top};
use crate::game_enums::{EventCard, PlayerCard};
use crate::pandemic_game::{GameView, PandemicGameState, FORECAST_CARDS};

verus! {

/// An event together with the decisions that it needs.
#[derive(Debug, Clone)]
pub enum EventChoice {
    /// Puts the agent who plays it in any city.
    Airlift { city: CityCard },
    /// Puts a research station in any city.
    GovernmentGrant { city: CityCard },
    /// Takes the card at a position of the infection discard pile out of the game.
    ResilientPopulation { card_idx: usize },
    /// Puts the top cards of the infection deck back in a chosen order.
    Forecast { order: Vec<usize> },
    /// Lets the next infection step pass.
    OneQuietNight,
}

impl EventChoice {
    pub open spec fn spec_card(&self) -> EventCard {
        match self {
            EventChoice::Airlift { .. } => EventCard::Airlift,
            EventChoice::GovernmentGrant { .. } => EventCard::GovernmentGrant,
            EventChoice::ResilientPopulation { .. } => EventCard::ResilientPopulation,
            EventChoice::Forecast { .. } => EventCard::Forecast,
            EventChoice::OneQuietNight => EventCard::OneQuietNight,
        }
    }

    /// The event card that is played.
    #[verifier::when_used_as_spec(spec_card)]
    pub fn card(&self) -> (card: EventCard)
        ensures
            card == self.spec_card(),
    {
        match self {
            EventChoice::Airlift { .. } => EventCard::Airlift,
            EventChoice::GovernmentGrant { .. } => EventCard::GovernmentGrant,
            EventChoice::ResilientPopulation { .. } => EventCard::ResilientPopulation,
            EventChoice::Forecast { .. } => EventCard::Forecast,
            EventChoice::OneQuietNight => EventCard::OneQuietNight,
        }
    }
}

/// Whether `order` names every position below its length exactly once.
pub open spec fn is_ordering(order: Seq<usize>) -> bool {
    &&& order.no_duplicates()
    &&& forall|i: int| 0 <= i < order.len() ==> (#[trigger] order[i]) < order.len()
}

/// The cards put in the order given: position `j` takes the card that stood
/// at position `order[j]`.
pub open spec fn reordered(cards: Seq<CityCard>, order: Seq<usize>) -> Seq<CityCard> {
    Seq::new(order.len(), |j: int| cards[order[j] as int])
}

/// The cards that a forecast looks at: the top six of the infection deck, or
/// all of a smaller deck, in the order of the deck.
pub open spec fn forecast_cards(deck: Seq<CityCard>) -> Seq<CityCard> {
    deck.subrange(deck.len() - at_most(FORECAST_CARDS as int, deck.len() as int), deck.len() as int)
}

impl GameView {
    /// Whether an agent may play an event: the card is in its hand, or the
    /// agent is the contingency planner and keeps the card in reserve.
    pub open spec fn holds_event(self, agent_idx: int, event: EventCard) -> bool {
        self.hands[agent_idx].contains(PlayerCard::EventCard(event)) || (self.role(agent_idx)
            == AgentName::Contingency && self.reserve == Some(event))
    }

    /// The game with an event card used up: it leaves the hand, or else the
    /// reserve, and with it the game.
    pub open spec fn event_used(self, agent_idx: int, event: EventCard) -> GameView {
        if self.hands[agent_idx].contains(PlayerCard::EventCard(event)) {
            self.dropped(agent_idx, PlayerCard::EventCard(event))
        } else {
            GameView { reserve: None, ..self }
        }
    }

    /// Why the second step of a forecast is refused: the cards set aside
    /// must fit on the deck, and the order must order exactly these cards.
    pub open spec fn forecast_fault(self, order: Seq<usize>) -> Option<ActionFault> {
        if self.forecast.len() > self.infection_deck.len() {
            Some(ActionFault::TargetOutOfRange)
        } else if order.len() != self.forecast.len() || !is_ordering(order) {
            Some(ActionFault::MalformedSelection)
        } else {
            None
        }
    }

    /// The game with the top cards of the infection deck set aside for a forecast.
    pub open spec fn forecast_started(self) -> GameView {
        GameView { forecast: forecast_cards(self.infection_deck), ..self }
    }

    /// The game with the cards that were set aside put back on top of the
    /// infection deck in the order given.
    pub open spec fn forecast_done(self, order: Seq<usize>) -> GameView {
        GameView {
            infection_deck: below_top(self.infection_deck, self.forecast.len() as int) + reordered(
                self.forecast,
                order,
            ),
            forecast: reordered(self.forecast, order),
            ..self
        }
    }

    /// Why the effect of an event is refused.
    pub open spec fn effect_fault(self, choice: EventChoice) -> Option<ActionFault> {
        match choice {
            EventChoice::Airlift { city } => if city.0 >= self.config.ncities() {
                Some(ActionFault::TargetOutOfRange)
            } else {
                None
            },
            EventChoice::GovernmentGrant { city } => if city.0 >= self.config.ncities() {
                Some(ActionFault::TargetOutOfRange)
            } else {
                None
            },
            EventChoice::ResilientPopulation { card_idx } => if card_idx >= self.infection_discard.len() {
                Some(ActionFault::TargetOutOfRange)
            } else {
                None
            },
            EventChoice::Forecast { order } => self.forecast_started().forecast_fault(order@),
            EventChoice::OneQuietNight => None,
        }
    }

    /// The game after the effect of an event.
    pub open spec fn after_effect(self, agent_idx: int, choice: EventChoice) -> GameView {
        match choice {
            EventChoice::Airlift { city } => self.moved(agent_idx, city),
            EventChoice::GovernmentGrant { city } => GameView {
                stations: self.stations.update(city.0 as int, true),
                ..self
            },
            EventChoice::ResilientPopulation { card_idx } => GameView {
                infection_discard: self.infection_discard.remove(card_idx as int),
                ..self
            },
            EventChoice::Forecast { order } => self.forecast_started().forecast_done(order@),
            EventChoice::OneQuietNight => GameView { skip_next_infection: true, ..self },
        }
    }

    /// Why an event is refused: the agent must be seated and hold the event,
    /// and the effect must be possible.
    pub open spec fn event_fault(
        self,
        agent_idx: usize,
        choice: EventChoice,
    ) -> Option<ActionFault> {
        if agent_idx >= self.agents.len() {
            Some(ActionFault::AgentOutOfRange)
        } else if !self.holds_event(agent_idx as int, choice.spec_card()) {
            Some(ActionFault::MissingCard)
        } else {
            self.effect_fault(choice)
        }
    }

    /// The game after an event: its effect, and the card used up.
    pub open spec fn after_event(self, agent_idx: usize, choice: EventChoice) -> GameView {
        self.after_effect(agent_idx as int, choice).event_used(agent_idx as int, choice.spec_card())
    }
}

/// Tells whether `order` names every position below its length exactly once.
pub fn check_ordering(order: &Vec<usize>) -> (ok: bool)
    ensures
        ok == is_ordering(order@),
{
    let n = order.len();
    let mut i: usize = 0;
    while i < n
        invariant
            i <= n,
            n == order@.len(),
            forall|a: int| 0 <= a < i ==> (#[trigger] order@[a]) < n,
            forall|a: int, b: int| 0 <= a < i && 0 <= b < n && a != b ==> order@[a] != order@[b],
        decreases n - i,
    {
        if order[i] >= n {
            return false;
        }
        let mut j: usize = 0;
        while j < n
            invariant
                i < n,
                j <= n,
                n == order@.len(),
                forall|b: int| 0 <= b < j && b != i ==> order@[i as int] != order@[b],
            decreases n - j,
        {
            if j != i && order[i] == order[j] {
                return false;
            }
            j += 1;
        }
        i += 1;
    }
    true
}

impl PandemicGameState {
    /// Puts the agent who plays the event in any city.
    pub fn airlift(
        &mut self,
        agent_idx: usize,
        city: CityCard,
    ) -> (result: Result<(), ActionEndState>)
        requires
            old(self).wf(),
            agent_idx < old(self)@.nagents(),
        ensures
            final(self).wf(),
            action_text_fits(result),
            final(self)@.same_schedule(old(self)@),
            action_verdict(result) == verdict_of(old(self)@.effect_fault(EventChoice::Airlift { city })),
            final(self)@ == if result is Ok {
                old(self)@.moved(agent_idx as int, city)
            } else {
                old(self)@
            },
    {
        if city.0 >= self.config.city_graph.len() {
            return refuse_action(ActionFault::TargetOutOfRange);
        }
        self.player_locations[agent_idx] = city;
        Ok(())
    }

    /// Puts a research station in any city.
    pub fn government_grant(
        &mut self,
        _agent_idx: usize,
        city: CityCard,
    ) -> (result: Result<(), ActionEndState>)
        requires
            old(self).wf(),
        ensures
            final(self).wf(),
            action_text_fits(result),
            final(self)@.same_schedule(old(self)@),
            action_verdict(result) == verdict_of(
                old(self)@.effect_fault(EventChoice::GovernmentGrant { city }),
            ),
            final(self)@ == if result is Ok {
                GameView { stations: old(self)@.stations.update(city.0 as int, true), ..old(self)@ }
            } else {
                old(self)@
            },
    {
        if city.0 >= self.config.city_graph.len() {
            return refuse_action(ActionFault::TargetOutOfRange);
        }
        self.add_research_station(city);
        Ok(())
    }

    /// Takes a card of the infection discard pile out of the game.
    pub fn resilient_population(
        &mut self,
        _agent_idx: usize,
        card_idx: usize,
    ) -> (result: Result<(), ActionEndState>)
        requires
            old(self).wf(),
        ensures
            final(self).wf(),
            action_text_fits(result),
            final(self)@.same_schedule(old(self)@),
            action_verdict(result) == verdict_of(
                old(self)@.effect_fault(EventChoice::ResilientPopulation { card_idx }),
            ),
            final(self)@ == if result is Ok {
                GameView {
                    infection_discard: old(self)@.infection_discard.remove(card_idx as int),
                    ..old(self)@
                }
            } else {
                old(self)@
            },
    {
        if card_idx >= self.infection_discard.len() {
            return refuse_action(ActionFault::TargetOutOfRange);
        }
        self.infection_discard.remove(card_idx);
        Ok(())
    }

    /// Looks at the top six cards of the infection deck and puts them back
    /// in the order given: position `j` from the bottom of the six takes the
    /// card that stood at position `order[j]`.
    pub fn forecast(
        &mut self,
        _agent_idx: usize,
        order: &Vec<usize>,
    ) -> (result: Result<(), ActionEndState>)
        requires
            old(self).wf(),
        ensures
            final(self).wf(),
            action_text_fits(result),
            final(self)@.same_schedule(old(self)@),
            action_verdict(result) == verdict_of(old(self)@.forecast_started().forecast_fault(order@)),
            final(self)@ == if result is Ok {
                old(self)@.forecast_started().forecast_done(order@)
            } else {
                old(self)@
            },
    {
        let ghost start = self@;
        let kept = self.forecasted_infection_deck.clone();
        assert(kept@ =~= start.forecast);
        self.forecast_part_1();
        match self.forecast_part_2(order) {
            Ok(()) => Ok(()),
            Err(e) => {
                self.forecasted_infection_deck = kept;
                assert(self@ == start);
                Err(e)
            },
        }
    }

    /// Sets the top six cards of the infection deck aside, or all of a
    /// smaller deck, in the order of the deck. The deck stays as it is.
    pub fn forecast_part_1(&mut self)
        requires
            old(self).wf(),
        ensures
            final(self).wf(),
            final(self)@ == old(self)@.forecast_started(),
            final(self)@.same_schedule(old(self)@),
    {
        let len = self.infection_deck.len();
        let k = if len < FORECAST_CARDS {
            len
        } else {
            FORECAST_CARDS
        };
        let mut cards: Vec<CityCard> = Vec::new();
        let mut i: usize = len - k;
        while i < len
            invariant
                k <= len,
                len - k <= i <= len,
                len == self@.infection_deck.len(),
                self@ == old(self)@,
                cards@ == self@.infection_deck.subrange(len - k, i as int),
            decreases len - i,
        {
            cards.push(self.infection_deck[i]);
            i += 1;
            assert(cards@ =~= self@.infection_deck.subrange(len - k, i as int));
        }
        self.forecasted_infection_deck = cards;
    }

    /// Puts the cards that were set aside back on top of the infection deck,
    /// in the order given.
    pub fn forecast_part_2(&mut self, order: &Vec<usize>) -> (result: Result<(), ActionEndState>)
        requires
            old(self).wf(),
        ensures
            final(self).wf(),
            action_text_fits(result),
            final(self)@.same_schedule(old(self)@),
            action_verdict(result) == verdict_of(old(self)@.forecast_fault(order@)),
            final(self)@ == if result is Ok {
                old(self)@.forecast_done(order@)
            } else {
                old(self)@
            },
    {
        let k = self.forecasted_infection_deck.len();
        if k > self.infection_deck.len() {
            return refuse_action(ActionFault::TargetOutOfRange);
        }
        if order.len() != k || !check_ordering(order) {
            return refuse_action(ActionFault::MalformedSelection);
        }
        let mut new_forecasted_infection_deck: Vec<CityCard> = Vec::new();
        let mut j: usize = 0;
        while j < k
            invariant
                j <= k,
                k == order@.len(),
                k == self@.forecast.len(),
                is_ordering(order@),
                self@ == old(self)@,
                new_forecasted_infection_deck@.len() == j,
                forall|a: int|
                    0 <= a < j ==> new_forecasted_infection_deck@[a] == self@.forecast[order@[a] as int],
            decreases k - j,
        {
            new_forecasted_infection_deck.push(self.forecasted_infection_deck[order[j]]);
            j += 1;
        }
        assert(new_forecasted_infection_deck@ =~= reordered(self@.forecast, order@));
        let infection_deck_len = self.infection_deck.len();
        self.infection_deck.truncate(infection_deck_len - k);
        let mut t: usize = 0;
        while t < k
            invariant
                t <= k,
                k == new_forecasted_infection_deck@.len(),
                self@ == (GameView {
                    infection_deck: below_top(old(self)@.infection_deck, k as int)
                        + new_forecasted_infection_deck@.subrange(0, t as int),
                    ..old(self)@
                }),
            decreases k - t,
        {
            self.infection_deck.push(new_forecasted_infection_deck[t]);
            t += 1;
            assert(self@.infection_deck =~= below_top(old(self)@.infection_deck, k as int)
                + new_forecasted_infection_deck@.subrange(0, t as int));
        }
        assert(new_forecasted_infection_deck@.subrange(0, k as int) =~= new_forecasted_infection_deck@);
        proof {
            let n = self@.config.ncities();
            let deck = self@.infection_deck;
            assert forall|i: int| 0 <= i < deck.len() implies (#[trigger] deck[i]).0 < n by {
                if i < old(self)@.infection_deck.len() - k {
                    assert(deck[i] == old(self)@.infection_deck[i]);
                } else {
                    let a = i - (old(self)@.infection_deck.len() - k);
                    assert(deck[i] == new_forecasted_infection_deck@[a]);
                    assert(old(self)@.forecast[order@[a] as int].0 < n);
                }
            }
            assert forall|i: int| 0 <= i < new_forecasted_infection_deck@.len() implies (
            #[trigger] new_forecasted_infection_deck@[i]).0 < n by {
                assert(old(self)@.forecast[order@[i] as int].0 < n);
            }
        }
        self.forecasted_infection_deck = new_forecasted_infection_deck;
        Ok(())
    }

    /// Lets the next infection step pass without infection.
    pub fn one_quiet_night(&mut self, _agent_idx: usize) -> (result: Result<(), ActionEndState>)
        requires
            old(self).wf(),
        ensures
            final(self).wf(),
            result is Ok,
            final(self)@ == (GameView { skip_next_infection: true, ..old(self)@ }),
    {
        self.skip_next_infect_cities = true;
        Ok(())
    }

    /// Plays an event for an agent that holds it: in its hand or, for the
    /// contingency planner, in reserve. The card is used up.
    pub fn do_event(
        &mut self,
        agent_idx: usize,
        choice: &EventChoice,
    ) -> (result: Result<(), ActionEndState>)
        requires
            old(self).wf(),
        ensures
            final(self).wf(),
            action_text_fits(result),
            final(self)@.same_schedule(old(self)@),
            action_verdict(result) == verdict_of(old(self)@.event_fault(agent_idx, *choice)),
            final(self)@ == if result is Ok {
                old(self)@.after_event(agent_idx, *choice)
            } else {
                old(self)@
            },
    {
        if agent_idx >= self.agents.len() {
            return refuse_action(ActionFault::AgentOutOfRange);
        }
        let agent_name = self.agents[agent_idx].agent_type;
        let event = choice.card();
        let in_hand = self.hand_contains(agent_idx, PlayerCard::EventCard(event));
        let in_reserve = agent_name == AgentName::Contingency && match self.contingency_planner_event_card {
            Some(kept) => kept == event,
            None => false,
        };
        if !in_hand && !in_reserve {
            return refuse_action(ActionFault::MissingCard);
        }
        let result = match choice {
            EventChoice::Airlift { city } => self.airlift(agent_idx, *city),
            EventChoice::GovernmentGrant { city } => self.government_grant(agent_idx, *city),
            EventChoice::ResilientPopulation { card_idx } => self.resilient_population(
                agent_idx,
                *card_idx,
            ),
            EventChoice::Forecast { order } => self.forecast(agent_idx, order),
            EventChoice::OneQuietNight => self.one_quiet_night(agent_idx),
        };
        if result.is_err() {
            return result;
        }
        if in_hand {
            self.drop_card(agent_idx, PlayerCard::EventCard(event));
        } else {
            self.contingency_planner_event_card = None;
        }
        Ok(())
    }
}

} // verus!
