//! The turn scheduler: the actions of a turn, the cards drawn after them, the
//! infection step, and the passing of the turn, one step at a time.
use vstd::prelude::*;
use vstd::seq_lib::*;

use crate::actions::{choose_cards_to_discard, discards_fit, verdict_of};
use crate::agent::{
    action_fault_text, action_text_fits, action_verdict, refuse_action, turn_fault_text,
    ActionEndState, ActionFault, ActionVerdict, TurnEndState, TurnError, TurnFault, TurnVerdict,
};
use crate::board::{cascade, lemma_spread_laws};
use crate::city_graph::{cities_in_range, CityCard};
use crate::decks::{
    at_most, below_top, epidemics_in, lemma_epidemics_split, lemma_no_epidemics, top_cards,
};
use crate::dispatch::ActionParams;
use crate::events::EventChoice;
use crate::game_enums::{GameEnd, PlayerCard};
use crate::hands::{
    add_to_hand, hand_with, hand_without_all, lemma_hand_with, lemma_hand_without_all,
};
use crate::infection::cascade_result;
use crate::pandemic_game::{terminal_phase, GameView, PandemicGameState, TurnPhase, HAND_LIMIT};

verus! {

/// One of the action invocations of a turn: the place of the action in the
/// list of the role, and its parameters.
#[derive(Debug, Clone)]
pub struct ActionChoice {
    pub action_idx: usize,
    pub params: ActionParams,
}

/// Reads the verdict off the result of a step of a turn.
pub open spec fn turn_verdict<T>(result: Result<T, TurnEndState>) -> TurnVerdict {
    match result {
        Ok(_) => TurnVerdict::Done,
        Err(TurnEndState::TErr(e)) => TurnVerdict::Refused(e.kind),
        Err(TurnEndState::AErr(e)) => TurnVerdict::Broken(e.kind),
        Err(TurnEndState::GameOver(end)) => TurnVerdict::Ended(end),
    }
}

/// An error of a step of a turn carries the text of its reason.
pub open spec fn turn_text_fits<T>(result: Result<T, TurnEndState>) -> bool {
    match result {
        Err(TurnEndState::TErr(e)) => e.msg@ == turn_fault_text(e.kind),
        Err(TurnEndState::AErr(e)) => e.msg@ == action_fault_text(e.kind),
        _ => true,
    }
}

/// A game and what the steps that led to it came to.
pub struct TurnOutcome {
    pub game: GameView,
    pub verdict: TurnVerdict,
}

/// Applies the action invocations of an agent in order. The first one that
/// ends the game or is refused stops the sequence, with the game as it then is.
pub open spec fn after_actions(
    game: GameView,
    agent_idx: usize,
    choices: Seq<ActionChoice>,
) -> TurnOutcome
    decreases choices.len(),
{
    if choices.len() == 0 {
        TurnOutcome { game, verdict: TurnVerdict::Done }
    } else {
        let first = choices[0];
        let next = game.after_invocation(agent_idx, first.action_idx, first.params);
        match game.invocation_verdict(agent_idx, first.action_idx, first.params) {
            ActionVerdict::Done => after_actions(next, agent_idx, choices.subrange(1, choices.len() as int)),
            ActionVerdict::Refused(fault) => TurnOutcome { game: next, verdict: TurnVerdict::Broken(fault) },
            ActionVerdict::Ended(end) => TurnOutcome { game: next, verdict: TurnVerdict::Ended(end) },
        }
    }
}

/// Places one cube for each infection card, in order, of the colour of its
/// city, and passes over the cities of an eradicated disease. The first
/// cascade that ends the game stops the sequence.
pub open spec fn infect_cities(game: GameView, cards: Seq<CityCard>) -> (GameView, Option<GameEnd>)
    decreases cards.len(),
{
    if cards.len() == 0 {
        (game, None)
    } else {
        let city = cards[0];
        let rest = cards.subrange(1, cards.len() as int);
        let disease = game.config.disease_of(city);
        if game.eradicated(disease) {
            infect_cities(game, rest)
        } else {
            let c = cascade(&game.config, game.board(), city, disease);
            match c.end {
                Some(end) => (game.with_board(c.board), Some(end)),
                None => infect_cities(game.with_board(c.board), rest),
            }
        }
    }
}

/// What the scheduler does next.
#[derive(Debug, Clone, Copy, PartialEq, Eq, Structural)]
pub enum TurnStep {
    /// Nothing: the step is refused for the reason given.
    Refuse(TurnFault),
    /// Ask the agent at the seat given whether it plays an event.
    AskEvent(usize),
    /// Draw the player cards of the turn.
    DrawCards,
    /// Resolve the next of the cards drawn.
    ResolveCard,
    /// Put the infection discards back on the deck, to finish an epidemic.
    Intensify,
    /// Run the infection step.
    Infect,
    /// Close the turn.
    CompleteTurn,
    /// Pass the turn to the next player.
    NextPlayer,
}

impl GameView {
    /// Why a turn cannot start: the scheduler must await actions, the caller
    /// must be the current player, and a turn takes exactly four actions.
    pub open spec fn turn_start_fault(self, agent_idx: usize, nactions: int) -> Option<TurnFault> {
        if self.phase != TurnPhase::AwaitingActions {
            Some(TurnFault::WrongPhase)
        } else if agent_idx != self.current_player {
            Some(TurnFault::NotCurrentPlayer)
        } else if nactions != 4 {
            Some(TurnFault::WrongActionCount)
        } else {
            None
        }
    }

    /// The game with the scheduler in the state that goes with a verdict on
    /// the actions of a turn.
    pub open spec fn with_actions_closed(self, verdict: TurnVerdict) -> GameView {
        match verdict {
            TurnVerdict::Done => GameView { phase: TurnPhase::ActionsDone, ..self },
            TurnVerdict::Ended(end) => GameView { phase: terminal_phase(end), ..self },
            _ => self,
        }
    }

    /// What the scheduler does next. It does nothing while it awaits actions,
    /// once the game has ended, and while a hand is over the limit. Where
    /// events are enabled, every agent is asked for an event, in seating
    /// order, before a card is resolved, before an epidemic intensifies,
    /// before the infection step and before the turn is closed.
    pub open spec fn spec_next_step(self) -> TurnStep {
        if self.phase == TurnPhase::AwaitingActions || self.phase.spec_is_terminal() {
            TurnStep::Refuse(TurnFault::WrongPhase)
        } else if !self.hands_within_limit() {
            TurnStep::Refuse(TurnFault::DiscardRequired)
        } else if self.config.do_events && self.event_seat < self.agents.len() && (self.phase
            == TurnPhase::CardsDrawn || self.phase == TurnPhase::InfectionDone) {
            TurnStep::AskEvent(self.event_seat)
        } else {
            self.step_due()
        }
    }

    /// The step that the state of the scheduler calls for.
    pub open spec fn step_due(self) -> TurnStep {
        if self.phase == TurnPhase::ActionsDone {
            TurnStep::DrawCards
        } else if self.phase == TurnPhase::CardsDrawn {
            if self.intensify_pending {
                TurnStep::Intensify
            } else if self.drawn.len() > 0 {
                TurnStep::ResolveCard
            } else {
                TurnStep::Infect
            }
        } else if self.phase == TurnPhase::InfectionDone {
            TurnStep::CompleteTurn
        } else {
            TurnStep::NextPlayer
        }
    }

    /// The game after the player cards of the turn were drawn. A deck with
    /// too few cards ends the game.
    pub open spec fn after_draw(self) -> GameView {
        if self.config.ncards_to_draw > self.player_deck.len() {
            GameView { phase: TurnPhase::PlayerDeckExhausted, ..self }
        } else {
            GameView {
                player_deck: below_top(self.player_deck, self.config.ncards_to_draw as int),
                drawn: top_cards(self.player_deck, self.config.ncards_to_draw as int),
                phase: TurnPhase::CardsDrawn,
                ..self
            }
        }
    }

    /// The game after the first half of an epidemic: the infection rate has
    /// advanced, and one infection card was drawn and discarded.
    pub open spec fn after_epidemic(self) -> GameView {
        let k = at_most(1, self.infection_deck.len() as int);
        GameView {
            rate_i: (self.rate_i + 1) as usize,
            infection_deck: below_top(self.infection_deck, k),
            infection_discard: self.infection_discard + top_cards(self.infection_deck, k),
            ..self
        }
    }

    /// The game after the next of the cards drawn was resolved: an epidemic
    /// runs its first half and leaves the intensify step pending, any other
    /// card joins the hand of the current player.
    pub open spec fn after_resolve(self) -> GameView {
        let card = self.drawn[0];
        let rest = GameView { drawn: self.drawn.remove(0), ..self };
        if card == PlayerCard::Epidemic {
            GameView { intensify_pending: true, ..rest.after_epidemic() }
        } else {
            GameView {
                hands: self.hands.update(
                    self.current_player as int,
                    hand_with(self.hands[self.current_player as int], card),
                ),
                ..rest
            }
        }
    }

    /// Whether `after` is the game with the infection discards shuffled and
    /// put on top of the infection deck.
    pub open spec fn intensified_to(self, after: GameView) -> bool {
        &&& after == (GameView {
            infection_deck: after.infection_deck,
            infection_discard: Seq::empty(),
            ..self
        })
        &&& after.infection_deck.len() == self.infection_deck.len() + self.infection_discard.len()
        &&& after.infection_deck.subrange(0, self.infection_deck.len() as int) == self.infection_deck
        &&& after.infection_deck.subrange(
            self.infection_deck.len() as int,
            after.infection_deck.len() as int,
        ).to_multiset() == self.infection_discard.to_multiset()
    }

    /// The game after an infection step, and the terminal condition that it
    /// met, if any. A pending quiet night is used up instead.
    pub open spec fn after_infect_step(self) -> (GameView, Option<GameEnd>) {
        if self.skip_next_infection {
            (GameView { skip_next_infection: false, ..self }, None)
        } else {
            let rate = self.config.infection_rates@[self.rate_i as int];
            let k = at_most(rate as int, self.infection_deck.len() as int);
            let cards = top_cards(self.infection_deck, k);
            infect_cities(
                GameView {
                    infection_deck: below_top(self.infection_deck, k),
                    infection_discard: self.infection_discard + cards,
                    ..self
                },
                cards,
            )
        }
    }

    /// The game with the scheduler moved on after the infection step.
    pub open spec fn after_infect(self) -> GameView {
        let (game, end) = self.after_infect_step();
        match end {
            None => GameView { phase: TurnPhase::InfectionDone, ..game },
            Some(e) => GameView { phase: terminal_phase(e), ..game },
        }
    }

    /// The game with the agents to be asked for events anew.
    pub open spec fn asked_anew(self) -> GameView {
        GameView { event_seat: 0, ..self }
    }

    /// Whether an agent may answer the question for an event: events are
    /// enabled, and the scheduler asks just this agent.
    pub open spec fn is_asked(self, agent_idx: usize) -> bool {
        self.config.do_events && self.spec_next_step() == TurnStep::AskEvent(agent_idx)
    }

    /// The game with the next agent to be asked for an event.
    pub open spec fn asked_next(self) -> GameView {
        GameView { event_seat: (self.event_seat + 1) as usize, ..self }
    }

    /// The game with the turn passed to the next seat.
    pub open spec fn after_next_player(self) -> GameView {
        GameView {
            current_player: ((self.current_player + 1) % self.nagents()) as u32,
            phase: TurnPhase::AwaitingActions,
            ..self
        }
    }

    /// Why a selection of discards is refused.
    pub open spec fn discard_fault(
        self,
        agent_idx: usize,
        discards: Seq<PlayerCard>,
    ) -> Option<ActionFault> {
        if agent_idx >= self.agents.len() {
            Some(ActionFault::AgentOutOfRange)
        } else if !discards_fit(self.hands[agent_idx as int], discards) {
            Some(ActionFault::MalformedSelection)
        } else {
            None
        }
    }
}

/// Infecting the cities of well-placed cards keeps the game well formed, and
/// ends it only on the cube limit or the outbreak limit.
pub proof fn lemma_infect_cities(game: GameView, cards: Seq<CityCard>)
    requires
        game.wf(),
        cities_in_range(cards, game.config.ncities()),
    ensures
        infect_cities(game, cards).0.wf(),
        infect_cities(game, cards).0 == game.with_board(infect_cities(game, cards).0.board()),
        infect_cities(game, cards).1 is None || infect_cities(game, cards).1 == Some(
            GameEnd::DiseaseCubeLimit,
        ) || infect_cities(game, cards).1 == Some(GameEnd::OutbreakLimit),
    decreases cards.len(),
{
    if cards.len() > 0 {
        let city = cards[0];
        let rest = cards.subrange(1, cards.len() as int);
        let disease = game.config.disease_of(city);
        assert(city.0 < game.config.ncities());
        if game.eradicated(disease) {
            lemma_infect_cities(game, rest);
        } else {
            lemma_spread_laws(&game.config, disease, game.board(), Seq::empty(), seq![city]);
            let c = cascade(&game.config, game.board(), city, disease);
            if c.end is None {
                lemma_infect_cities(game.with_board(c.board), rest);
            }
        }
    }
}

/// The limit on the hands is kept. A card that is resolved while every hand
/// is within the limit leaves no hand more than one card over it; the
/// scheduler takes no step while a hand is over the limit; and a selection of
/// discards that fits a hand leaves it with seven cards at most.
pub proof fn lemma_hand_limit(game: GameView, agent_idx: usize, discards: Seq<PlayerCard>)
    requires
        game.wf(),
    ensures
        game.spec_next_step() == TurnStep::ResolveCard ==> forall|i: int|
            0 <= i < game.hands.len() ==> (#[trigger] game.after_resolve().hands[i]).len() <= HAND_LIMIT
                + 1,
        !game.hands_within_limit() ==> game.spec_next_step() is Refuse,
        game.discard_fault(agent_idx, discards) is None ==> hand_without_all(
            game.hands[agent_idx as int],
            discards,
        ).len() <= HAND_LIMIT,
{
    if game.spec_next_step() == TurnStep::ResolveCard {
        let seat = game.current_player as int;
        lemma_hand_with(game.hands[seat], game.drawn[0]);
        assert forall|i: int| 0 <= i < game.hands.len() implies (
        #[trigger] game.after_resolve().hands[i]).len() <= HAND_LIMIT + 1 by {
            assert(game.hands[i].len() <= HAND_LIMIT);
        }
    }
    if game.discard_fault(agent_idx, discards) is None {
        lemma_hand_without_all(game.hands[agent_idx as int], discards);
    }
}

impl PandemicGameState {
    /// Applies the actions of a turn in order, and moves the scheduler on:
    /// to the drawing of cards when all are done, to a terminal state when
    /// one ends the game. A refused action breaks the turn where it stands.
    fn player_turn_part_1(
        &mut self,
        agent_idx: usize,
        actions: &Vec<ActionChoice>,
    ) -> (result: Result<(), TurnEndState>)
        requires
            old(self).wf(),
            old(self)@.phase == TurnPhase::AwaitingActions,
        ensures
            final(self).wf(),
            turn_text_fits(result),
            turn_verdict(result) == after_actions(old(self)@, agent_idx, actions@).verdict,
            final(self)@ == after_actions(old(self)@, agent_idx, actions@).game.with_actions_closed(
                after_actions(old(self)@, agent_idx, actions@).verdict,
            ),
    {
        let ghost whole = after_actions(self@, agent_idx, actions@);
        let mut i: usize = 0;
        assert(actions@.subrange(0, actions@.len() as int) =~= actions@);
        while i < actions.len()
            invariant
                i <= actions.len(),
                self.wf(),
                self@.phase == TurnPhase::AwaitingActions,
                after_actions(self@, agent_idx, actions@.subrange(i as int, actions@.len() as int))
                    == whole,
                whole == after_actions(old(self)@, agent_idx, actions@),
            decreases actions.len() - i,
        {
            let ghost rest = actions@.subrange(i as int, actions@.len() as int);
            assert(rest[0] == actions@[i as int]);
            assert(rest.subrange(1, rest.len() as int) =~= actions@.subrange(
                i + 1,
                actions@.len() as int,
            ));
            let ghost before = self@;
            let result = self.do_action(agent_idx, actions[i].action_idx, &actions[i].params);
            match result {
                Ok(()) => {},
                Err(ActionEndState::GameOver(game_end)) => {
                    self.phase = match game_end {
                        GameEnd::PlayerDeckLimit => TurnPhase::PlayerDeckExhausted,
                        GameEnd::DiseaseCubeLimit => TurnPhase::DiseaseCubeCapExceeded,
                        GameEnd::OutbreakLimit => TurnPhase::OutbreakCapExceeded,
                        GameEnd::Win => TurnPhase::Win,
                    };
                    return Err(TurnEndState::GameOver(game_end));
                },
                Err(ActionEndState::Error(action_error)) => {
                    return Err(TurnEndState::AErr(action_error));
                },
            }
            i += 1;
        }
        self.phase = TurnPhase::ActionsDone;
        Ok(())
    }

    /// Takes the four actions of the current player and applies them in
    /// order. The first action that ends the game stops the turn with that
    /// end; an action that is refused breaks the turn, with the actions
    /// before it applied. When all four are done, the scheduler goes on to
    /// the drawing of cards.
    pub fn player_turn(
        &mut self,
        agent_idx: usize,
        actions: &Vec<ActionChoice>,
    ) -> (result: Result<(), TurnEndState>)
        requires
            old(self).wf(),
        ensures
            final(self).wf(),
            turn_text_fits(result),
            match old(self)@.turn_start_fault(agent_idx, actions@.len() as int) {
                Some(fault) => {
                    &&& turn_verdict(result) == TurnVerdict::Refused(fault)
                    &&& final(self)@ == old(self)@
                },
                None => {
                    &&& turn_verdict(result) == after_actions(old(self)@, agent_idx, actions@).verdict
                    &&& final(self)@ == after_actions(
                        old(self)@,
                        agent_idx,
                        actions@,
                    ).game.with_actions_closed(after_actions(old(self)@, agent_idx, actions@).verdict)
                },
            },
    {
        if !matches!(self.phase, TurnPhase::AwaitingActions) {
            return Err(TurnEndState::TErr(TurnError::of(TurnFault::WrongPhase)));
        }
        if agent_idx != self.current_player_i as usize {
            return Err(TurnEndState::TErr(TurnError::of(TurnFault::NotCurrentPlayer)));
        }
        if actions.len() != 4 {
            return Err(TurnEndState::TErr(TurnError::of(TurnFault::WrongActionCount)));
        }
        self.player_turn_part_1(agent_idx, actions)
    }

    /// Tells whether no hand holds more than seven cards.
    pub fn hands_within_limit(&self) -> (within: bool)
        ensures
            within == self@.hands_within_limit(),
    {
        let mut i: usize = 0;
        while i < self.player_hands.len()
            invariant
                i <= self.player_hands.len(),
                forall|k: int| 0 <= k < i ==> (#[trigger] self@.hands[k]).len() <= HAND_LIMIT,
            decreases self.player_hands.len() - i,
        {
            if self.player_hands[i].len() > HAND_LIMIT {
                assert(self@.hands[i as int].len() > HAND_LIMIT);
                return false;
            }
            i += 1;
        }
        true
    }

    /// Tells what the scheduler does next.
    #[verifier::when_used_as_spec(spec_next_step_of)]
    pub fn next_step(&self) -> (step: TurnStep)
        ensures
            step == self@.spec_next_step(),
    {
        match self.phase {
            TurnPhase::AwaitingActions
            | TurnPhase::PlayerDeckExhausted
            | TurnPhase::DiseaseCubeCapExceeded
            | TurnPhase::OutbreakCapExceeded
            | TurnPhase::Win => TurnStep::Refuse(TurnFault::WrongPhase),
            _ => {
                let at_checkpoint = matches!(self.phase, TurnPhase::CardsDrawn) || matches!(
                    self.phase,
                    TurnPhase::InfectionDone
                );
                if !self.hands_within_limit() {
                    TurnStep::Refuse(TurnFault::DiscardRequired)
                } else if self.config.do_events && self.event_seat < self.agents.len()
                    && at_checkpoint {
                    TurnStep::AskEvent(self.event_seat)
                } else {
                    match self.phase {
                        TurnPhase::ActionsDone => TurnStep::DrawCards,
                        TurnPhase::CardsDrawn => {
                            if self.intensify_pending {
                                TurnStep::Intensify
                            } else if self.drawn_cards.len() > 0 {
                                TurnStep::ResolveCard
                            } else {
                                TurnStep::Infect
                            }
                        },
                        TurnPhase::InfectionDone => TurnStep::CompleteTurn,
                        _ => TurnStep::NextPlayer,
                    }
                }
            },
        }
    }

    pub open spec fn spec_next_step_of(&self) -> TurnStep {
        self@.spec_next_step()
    }

    /// Cuts a hand that is over the limit down to seven cards: the cards of
    /// the selection go to the player discard pile. A hand within the limit
    /// takes the empty selection only.
    pub fn discard_to_limit(
        &mut self,
        agent_idx: usize,
        discards: &Vec<PlayerCard>,
    ) -> (result: Result<(), ActionEndState>)
        requires
            old(self).wf(),
        ensures
            final(self).wf(),
            action_text_fits(result),
            action_verdict(result) == verdict_of(
                old(self)@.discard_fault(agent_idx, discards@),
            ),
            final(self)@ == if result is Ok {
                GameView {
                    hands: old(self)@.hands.update(
                        agent_idx as int,
                        hand_without_all(old(self)@.hands[agent_idx as int], discards@),
                    ),
                    player_discard: old(self)@.player_discard + discards@,
                    ..old(self)@
                }
            } else {
                old(self)@
            },
            result is Ok ==> final(self)@.hands[agent_idx as int].len() <= HAND_LIMIT,
    {
        if agent_idx >= self.agents.len() {
            return refuse_action(ActionFault::AgentOutOfRange);
        }
        if !choose_cards_to_discard(&self.player_hands[agent_idx], discards) {
            return refuse_action(ActionFault::MalformedSelection);
        }
        proof {
            lemma_hand_without_all(self@.hands[agent_idx as int], discards@);
        }
        self.discard_cards(agent_idx, discards);
        Ok(())
    }

    /// Runs the first half of an epidemic: the infection rate advances, and
    /// one infection card is drawn and discarded. The second half puts the
    /// discards back on the deck, once the agents had their say.
    pub fn do_epidemic(&mut self) -> (result: Result<(), GameEnd>)
        requires
            old(self).wf(),
            old(self)@.rate_i + 1 + epidemics_in(old(self)@.player_deck) + epidemics_in(
                old(self)@.drawn,
            ) < old(self)@.config.infection_rates@.len(),
        ensures
            final(self).wf(),
            result is Ok,
            final(self)@ == old(self)@.after_epidemic(),
    {
        let nrates = self.config.infection_rates.len();
        assert(self.infection_rate_i + 1 < nrates);
        self.infection_rate_i += 1;
        self.draw_infection_cards(1);
        Ok(())
    }

    /// Runs the second half of an epidemic: the infection discards are
    /// shuffled and put on top of the infection deck.
    pub fn intensify(&mut self)
        requires
            old(self).wf(),
        ensures
            final(self).wf(),
            old(self)@.intensified_to(final(self)@),
    {
        self.shuffle_infection_discard();
        let ghost deck = self@.infection_deck;
        let ghost pile = self@.infection_discard;
        self.infection_deck.append(&mut self.infection_discard);
        proof {
            assert(self@.infection_discard =~= Seq::empty());
            assert(self@.infection_deck.subrange(0, deck.len() as int) =~= deck);
            assert(self@.infection_deck.subrange(deck.len() as int, self@.infection_deck.len() as int)
                =~= pile);
            let n = self@.config.ncities();
            assert forall|i: int| 0 <= i < self@.infection_deck.len() implies (
            #[trigger] self@.infection_deck[i]).0 < n by {
                if i < deck.len() {
                    assert(self@.infection_deck[i] == deck[i]);
                } else {
                    assert(self@.infection_deck[i] == pile[i - deck.len()]);
                }
            }
        }
    }

    /// Runs the infection step: draws as many infection cards as the current
    /// rate says and places one cube for each, of the colour of its city.
    /// Cities of an eradicated disease are passed over. A pending quiet
    /// night is used up instead of all this.
    pub fn do_infect_step(&mut self) -> (result: Result<(), GameEnd>)
        requires
            old(self).wf(),
        ensures
            final(self).wf(),
            final(self)@ == old(self)@.after_infect_step().0,
            final(self)@.same_schedule(old(self)@),
            result == cascade_result(old(self)@.after_infect_step().1),
            result is Ok || result == Err::<(), GameEnd>(GameEnd::DiseaseCubeLimit) || result == Err::<
                (),
                GameEnd,
            >(GameEnd::OutbreakLimit),
    {
        if self.skip_next_infect_cities {
            self.skip_next_infect_cities = false;
            return Ok(());
        }
        let rate = self.infection_rate();
        let cards = self.draw_infection_cards(rate);
        let ghost start = self@;
        let ghost whole = infect_cities(start, cards@);
        proof {
            lemma_infect_cities(start, cards@);
            assert(cards@.subrange(0, cards@.len() as int) =~= cards@);
        }
        let mut i: usize = 0;
        while i < cards.len()
            invariant
                i <= cards.len(),
                self.wf(),
                cities_in_range(cards@, self@.config.ncities()),
                infect_cities(self@, cards@.subrange(i as int, cards@.len() as int)) == whole,
                whole == old(self)@.after_infect_step(),
                self@.same_schedule(old(self)@),
            decreases cards.len() - i,
        {
            let ghost rest = cards@.subrange(i as int, cards@.len() as int);
            assert(rest[0] == cards@[i as int]);
            assert(rest.subrange(1, rest.len() as int) =~= cards@.subrange(
                i + 1,
                cards@.len() as int,
            ));
            let card = cards[i];
            assert(card.0 < self@.config.ncities());
            let disease = self.config.city_diseases[card.0];
            if !self.is_eradicated(disease) {
                match self.add_disease_cube(card, disease, false) {
                    Ok(()) => {},
                    Err(game_end) => {
                        return Err(game_end);
                    },
                }
            }
            i += 1;
        }
        Ok(())
    }

    /// Takes the answer of the agent that is asked for an event: no event,
    /// or the event that it plays. The next agent is asked then. An event
    /// that is refused changes nothing, and the agent is asked again. With
    /// events disabled nothing is asked and nothing happens.
    pub fn maybe_do_event(
        &mut self,
        agent_idx: usize,
        choice: Option<&EventChoice>,
    ) -> (result: Result<(), ActionEndState>)
        requires
            old(self).wf(),
        ensures
            final(self).wf(),
            action_text_fits(result),
            !old(self)@.config.do_events ==> result is Ok && final(self)@ == old(self)@,
            old(self)@.config.do_events && !old(self)@.is_asked(agent_idx) ==> {
                &&& action_verdict(result) == ActionVerdict::Refused(ActionFault::NotAsked)
                &&& final(self)@ == old(self)@
            },
            old(self)@.is_asked(agent_idx) ==> match choice {
                None => {
                    &&& result is Ok
                    &&& final(self)@ == old(self)@.asked_next()
                },
                Some(event) => {
                    &&& action_verdict(result) == verdict_of(old(self)@.event_fault(agent_idx, *event))
                    &&& final(self)@ == if result is Ok {
                        old(self)@.after_event(agent_idx, *event).asked_next()
                    } else {
                        old(self)@
                    }
                },
            },
    {
        if !self.config.do_events {
            return Ok(());
        }
        match self.next_step() {
            TurnStep::AskEvent(seat) => {
                if seat != agent_idx {
                    return refuse_action(ActionFault::NotAsked);
                }
            },
            _ => {
                return refuse_action(ActionFault::NotAsked);
            },
        }
        match choice {
            None => {},
            Some(event) => {
                let played = self.do_event(agent_idx, event);
                if played.is_err() {
                    return played;
                }
            },
        }
        self.event_seat = self.event_seat + 1;
        Ok(())
    }

    /// Takes one step of the turn after its actions.
    ///
    /// The steps, in order: the player cards of the turn are drawn, and a
    /// deck with too few cards ends the game; the cards drawn are resolved
    /// one by one, an epidemic in two steps, any other card into the hand of
    /// the current player; the infection step runs; the turn is closed; the
    /// turn passes to the next player. No step is taken while a hand holds
    /// more than seven cards, while agents are still to be asked for events,
    /// while actions are awaited, or once the game has ended. The result is
    /// the state of the scheduler after the step.
    pub fn player_turn_part_2(&mut self) -> (result: Result<TurnPhase, TurnEndState>)
        requires
            old(self).wf(),
        ensures
            final(self).wf(),
            turn_text_fits(result),
            result matches Ok(phase) ==> phase == final(self)@.phase && !phase.spec_is_terminal(),
            result matches Err(TurnEndState::GameOver(end)) ==> final(self)@.phase == terminal_phase(end),
            !(result matches Err(TurnEndState::AErr(_))),
            match old(self)@.spec_next_step() {
                TurnStep::Refuse(fault) => {
                    &&& turn_verdict(result) == TurnVerdict::Refused(fault)
                    &&& final(self)@ == old(self)@
                },
                TurnStep::AskEvent(_) => {
                    &&& turn_verdict(result) == TurnVerdict::Refused(TurnFault::EventsPending)
                    &&& final(self)@ == old(self)@
                },
                TurnStep::DrawCards => {
                    &&& final(self)@ == old(self)@.after_draw().asked_anew()
                    &&& turn_verdict(result) == if old(self)@.config.ncards_to_draw > old(
                        self,
                    )@.player_deck.len() {
                        TurnVerdict::Ended(GameEnd::PlayerDeckLimit)
                    } else {
                        TurnVerdict::Done
                    }
                },
                TurnStep::ResolveCard => {
                    &&& final(self)@ == old(self)@.after_resolve().asked_anew()
                    &&& result is Ok
                },
                TurnStep::Intensify => {
                    &&& old(self)@.intensified_to(
                        GameView {
                            intensify_pending: true,
                            event_seat: old(self)@.event_seat,
                            ..final(self)@
                        },
                    )
                    &&& !final(self)@.intensify_pending
                    &&& final(self)@.event_seat == 0
                    &&& result is Ok
                },
                TurnStep::Infect => {
                    &&& final(self)@ == old(self)@.after_infect().asked_anew()
                    &&& turn_verdict(result) == match old(self)@.after_infect_step().1 {
                        None => TurnVerdict::Done,
                        Some(end) => TurnVerdict::Ended(end),
                    }
                },
                TurnStep::CompleteTurn => {
                    &&& final(self)@ == (GameView {
                        phase: TurnPhase::TurnComplete,
                        ..old(self)@
                    }).asked_anew()
                    &&& result is Ok
                },
                TurnStep::NextPlayer => {
                    &&& final(self)@ == old(self)@.after_next_player().asked_anew()
                    &&& result is Ok
                },
            },
    {
        let step = self.next_step();
        let result = match step {
            TurnStep::Refuse(fault) => {
                return Err(TurnEndState::TErr(TurnError::of(fault)));
            },
            TurnStep::AskEvent(_) => {
                return Err(TurnEndState::TErr(TurnError::of(TurnFault::EventsPending)));
            },
            TurnStep::DrawCards => {
                match self.draw_player_cards(self.config.ncards_to_draw) {
                    Ok(cards) => {
                        proof {
                            lemma_epidemics_split(
                                old(self)@.player_deck,
                                old(self)@.config.ncards_to_draw as int,
                            );
                            assert(old(self)@.drawn =~= Seq::empty());
                            lemma_no_epidemics(old(self)@.drawn);
                        }
                        self.drawn_cards = cards;
                        self.phase = TurnPhase::CardsDrawn;
                        Ok(TurnPhase::CardsDrawn)
                    },
                    Err(game_end) => {
                        self.phase = TurnPhase::PlayerDeckExhausted;
                        Err(TurnEndState::GameOver(game_end))
                    },
                }
            },
            TurnStep::ResolveCard => {
                proof {
                    to_multiset_remove(self@.drawn, 0);
                    to_multiset_contains(self@.drawn, self@.drawn[0]);
                    assert(self@.drawn.contains(self@.drawn[0]));
                }
                let card = self.drawn_cards.remove(0);
                if card == PlayerCard::Epidemic {
                    let _ = self.do_epidemic();
                    self.intensify_pending = true;
                } else {
                    let agent_idx = self.current_player_i as usize;
                    proof {
                        lemma_hand_with(self@.hands[agent_idx as int], card);
                    }
                    add_to_hand(&mut self.player_hands[agent_idx], card);
                    assert(self@.hands =~= old(self)@.after_resolve().hands);
                }
                Ok(TurnPhase::CardsDrawn)
            },
            TurnStep::Intensify => {
                self.intensify();
                self.intensify_pending = false;
                Ok(TurnPhase::CardsDrawn)
            },
            TurnStep::Infect => {
                match self.do_infect_step() {
                    Ok(()) => {
                        self.phase = TurnPhase::InfectionDone;
                        Ok(TurnPhase::InfectionDone)
                    },
                    Err(game_end) => {
                        self.phase = match game_end {
                            GameEnd::PlayerDeckLimit => TurnPhase::PlayerDeckExhausted,
                            GameEnd::DiseaseCubeLimit => TurnPhase::DiseaseCubeCapExceeded,
                            GameEnd::OutbreakLimit => TurnPhase::OutbreakCapExceeded,
                            GameEnd::Win => TurnPhase::Win,
                        };
                        Err(TurnEndState::GameOver(game_end))
                    },
                }
            },
            TurnStep::CompleteTurn => {
                self.phase = TurnPhase::TurnComplete;
                Ok(TurnPhase::TurnComplete)
            },
            TurnStep::NextPlayer => {
                self.incr_current_player();
                self.phase = TurnPhase::AwaitingActions;
                Ok(TurnPhase::AwaitingActions)
            },
        };
        self.event_seat = 0;
        result
    }
}

} // verus!
