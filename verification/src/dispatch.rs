//! Invoking an action of an agent by its place in the action list of the role.
use vstd::prelude::*;

use crate::actions::verdict_of;
use crate::agent::{
    action_text_fits, action_verdict, refuse_action, ActionEndState, ActionFault,
    ActionKind, ActionVerdict, AgentName,
};
use crate::city_graph::CityCard;
use crate::game_enums::{Disease, GameEnd, PlayerCard};
use crate::pandemic_game::{GameView, PandemicGameState};

verus! {

/// A movement together with the decisions that it needs.
#[derive(Debug, Clone, Copy)]
pub enum Movement {
    Drive { new_city: CityCard },
    DirectFlight { new_city: CityCard, agent_to_discard_idx: usize },
    CharterFlight { new_city: CityCard, agent_to_discard_idx: usize },
    ShuttleFlight { new_city: CityCard },
}

/// An action together with the decisions that it needs.
#[derive(Debug, Clone)]
pub enum ActionParams {
    Drive { new_city: CityCard },
    DirectFlight { new_city: CityCard, agent_to_discard_idx: usize },
    CharterFlight { new_city: CityCard, agent_to_discard_idx: usize },
    ShuttleFlight { new_city: CityCard },
    BuildResearchStation,
    TreatDisease { disease: Disease },
    ShareKnowledge {
        giving_agent_idx: usize,
        receiving_agent_idx: usize,
        city: CityCard,
        discards: Vec<PlayerCard>,
    },
    DiscoverCure { disease: Disease, matching_city_cards: Vec<CityCard> },
    DispatchFlight { other_agent_idx: usize, new_city: CityCard },
    DispatchMove { other_agent_idx: usize, movement: Movement },
    OperationsMove { new_city: CityCard },
    ContingencyPlan { player_discard_event_index: usize },
}

impl ActionParams {
    pub open spec fn spec_kind(&self) -> ActionKind {
        match self {
            ActionParams::Drive { .. } => ActionKind::Drive,
            ActionParams::DirectFlight { .. } => ActionKind::DirectFlight,
            ActionParams::CharterFlight { .. } => ActionKind::CharterFlight,
            ActionParams::ShuttleFlight { .. } => ActionKind::ShuttleFlight,
            ActionParams::BuildResearchStation => ActionKind::BuildResearchStation,
            ActionParams::TreatDisease { .. } => ActionKind::TreatDisease,
            ActionParams::ShareKnowledge { .. } => ActionKind::ShareKnowledge,
            ActionParams::DiscoverCure { .. } => ActionKind::DiscoverCure,
            ActionParams::DispatchFlight { .. } => ActionKind::DispatchFlight,
            ActionParams::DispatchMove { .. } => ActionKind::DispatchMove,
            ActionParams::OperationsMove { .. } => ActionKind::OperationsMove,
            ActionParams::ContingencyPlan { .. } => ActionKind::ContingencyPlan,
        }
    }

    /// The action that the parameters are for.
    #[verifier::when_used_as_spec(spec_kind)]
    pub fn kind(&self) -> (kind: ActionKind)
        ensures
            kind == self.spec_kind(),
    {
        match self {
            ActionParams::Drive { .. } => ActionKind::Drive,
            ActionParams::DirectFlight { .. } => ActionKind::DirectFlight,
            ActionParams::CharterFlight { .. } => ActionKind::CharterFlight,
            ActionParams::ShuttleFlight { .. } => ActionKind::ShuttleFlight,
            ActionParams::BuildResearchStation => ActionKind::BuildResearchStation,
            ActionParams::TreatDisease { .. } => ActionKind::TreatDisease,
            ActionParams::ShareKnowledge { .. } => ActionKind::ShareKnowledge,
            ActionParams::DiscoverCure { .. } => ActionKind::DiscoverCure,
            ActionParams::DispatchFlight { .. } => ActionKind::DispatchFlight,
            ActionParams::DispatchMove { .. } => ActionKind::DispatchMove,
            ActionParams::OperationsMove { .. } => ActionKind::OperationsMove,
            ActionParams::ContingencyPlan { .. } => ActionKind::ContingencyPlan,
        }
    }
}

impl GameView {
    /// Why a movement of an agent is refused.
    pub open spec fn movement_fault(
        self,
        agent_idx: usize,
        movement: Movement,
    ) -> Option<ActionFault> {
        match movement {
            Movement::Drive { new_city } => self.drive_fault(agent_idx, new_city),
            Movement::DirectFlight { new_city, agent_to_discard_idx } => self.direct_flight_fault(
                agent_idx,
                new_city,
                agent_to_discard_idx,
            ),
            Movement::CharterFlight { new_city, agent_to_discard_idx } => self.charter_flight_fault(
                agent_idx,
                new_city,
                agent_to_discard_idx,
            ),
            Movement::ShuttleFlight { new_city } => self.shuttle_flight_fault(agent_idx, new_city),
        }
    }

    /// The game after a movement of an agent.
    pub open spec fn after_movement(self, agent_idx: usize, movement: Movement) -> GameView {
        match movement {
            Movement::Drive { new_city } => self.after_move(agent_idx, new_city),
            Movement::DirectFlight { new_city, agent_to_discard_idx } => self.after_direct_flight(
                agent_idx,
                new_city,
                agent_to_discard_idx,
            ),
            Movement::CharterFlight { new_city, agent_to_discard_idx } => self.after_charter_flight(
                agent_idx,
                new_city,
                agent_to_discard_idx,
            ),
            Movement::ShuttleFlight { new_city } => self.after_move(agent_idx, new_city),
        }
    }

    /// Why the dispatcher cannot move another agent: only the dispatcher
    /// may, and the movement must be open to the agent that is moved.
    pub open spec fn dispatch_move_fault(
        self,
        agent_idx: usize,
        other_agent_idx: usize,
        movement: Movement,
    ) -> Option<ActionFault> {
        if agent_idx >= self.agents.len() {
            Some(ActionFault::AgentOutOfRange)
        } else if self.role(agent_idx as int) != AgentName::Dispatcher {
            Some(ActionFault::RoleMismatch)
        } else {
            self.movement_fault(other_agent_idx, movement)
        }
    }

    /// Why an action of an agent is refused, whatever its place in a list.
    pub open spec fn action_fault(
        self,
        agent_idx: usize,
        params: ActionParams,
    ) -> Option<ActionFault> {
        match params {
            ActionParams::Drive { new_city } => self.drive_fault(agent_idx, new_city),
            ActionParams::DirectFlight { new_city, agent_to_discard_idx } => self.direct_flight_fault(
                agent_idx,
                new_city,
                agent_to_discard_idx,
            ),
            ActionParams::CharterFlight { new_city, agent_to_discard_idx } => self.charter_flight_fault(
                agent_idx,
                new_city,
                agent_to_discard_idx,
            ),
            ActionParams::ShuttleFlight { new_city } => self.shuttle_flight_fault(agent_idx, new_city),
            ActionParams::BuildResearchStation => self.build_fault(agent_idx),
            ActionParams::TreatDisease { disease } => self.treat_fault(agent_idx, disease),
            ActionParams::ShareKnowledge { giving_agent_idx, receiving_agent_idx, city, discards } => self.share_fault(
                agent_idx,
                giving_agent_idx,
                receiving_agent_idx,
                city,
                discards@,
            ),
            ActionParams::DiscoverCure { disease, matching_city_cards } => self.cure_fault(
                agent_idx,
                disease,
                matching_city_cards@,
            ),
            ActionParams::DispatchFlight { other_agent_idx, new_city } => self.dispatch_flight_fault(
                agent_idx,
                other_agent_idx,
                new_city,
            ),
            ActionParams::DispatchMove { other_agent_idx, movement } => self.dispatch_move_fault(
                agent_idx,
                other_agent_idx,
                movement,
            ),
            ActionParams::OperationsMove { new_city } => self.operations_move_fault(agent_idx, new_city),
            ActionParams::ContingencyPlan { player_discard_event_index } => self.contingency_fault(
                agent_idx,
                player_discard_event_index,
            ),
        }
    }

    /// The game after an action that was not refused.
    pub open spec fn after_action(self, agent_idx: usize, params: ActionParams) -> GameView {
        match params {
            ActionParams::Drive { new_city } => self.after_move(agent_idx, new_city),
            ActionParams::DirectFlight { new_city, agent_to_discard_idx } => self.after_direct_flight(
                agent_idx,
                new_city,
                agent_to_discard_idx,
            ),
            ActionParams::CharterFlight { new_city, agent_to_discard_idx } => self.after_charter_flight(
                agent_idx,
                new_city,
                agent_to_discard_idx,
            ),
            ActionParams::ShuttleFlight { new_city } => self.after_move(agent_idx, new_city),
            ActionParams::BuildResearchStation => self.after_build(agent_idx),
            ActionParams::TreatDisease { disease } => self.after_treatment(
                self.locations[agent_idx as int],
                disease,
                self.role(agent_idx as int) == AgentName::Medic,
            ),
            ActionParams::ShareKnowledge { giving_agent_idx, receiving_agent_idx, city, discards } => self.after_share(
                giving_agent_idx,
                receiving_agent_idx,
                city,
                discards@,
            ),
            ActionParams::DiscoverCure { disease, matching_city_cards } => self.after_cure(
                agent_idx,
                disease,
                matching_city_cards@,
            ),
            ActionParams::DispatchFlight { other_agent_idx, new_city } => self.after_move(
                other_agent_idx,
                new_city,
            ),
            ActionParams::DispatchMove { other_agent_idx, movement } => self.after_movement(
                other_agent_idx,
                movement,
            ),
            ActionParams::OperationsMove { new_city } => self.moved(agent_idx as int, new_city),
            ActionParams::ContingencyPlan { player_discard_event_index } => self.after_contingency(
                player_discard_event_index,
            ),
        }
    }

    /// Why the invocation of an action is refused: the agent must be seated,
    /// its role must have an action at the index, the parameters must be
    /// those of that action, and the action itself must not be refused.
    pub open spec fn invocation_fault(
        self,
        agent_idx: usize,
        action_idx: usize,
        params: ActionParams,
    ) -> Option<ActionFault> {
        if agent_idx >= self.agents.len() {
            Some(ActionFault::AgentOutOfRange)
        } else if action_idx >= self.agents[agent_idx as int].actions@.len() {
            Some(ActionFault::ActionOutOfRange)
        } else if self.agents[agent_idx as int].actions@[action_idx as int] != params.spec_kind() {
            Some(ActionFault::MalformedSelection)
        } else {
            self.action_fault(agent_idx, params)
        }
    }

    /// What the invocation of an action comes to. Finding the last cure wins
    /// the game on the spot.
    #[verifier::opaque]
    pub open spec fn invocation_verdict(
        self,
        agent_idx: usize,
        action_idx: usize,
        params: ActionParams,
    ) -> ActionVerdict {
        match self.invocation_fault(agent_idx, action_idx, params) {
            Some(fault) => ActionVerdict::Refused(fault),
            None => if params is DiscoverCure && self.after_action(agent_idx, params).all_cured() {
                ActionVerdict::Ended(GameEnd::Win)
            } else {
                ActionVerdict::Done
            },
        }
    }

    /// The game after the invocation of an action: a refused action changes
    /// nothing.
    #[verifier::opaque]
    pub open spec fn after_invocation(
        self,
        agent_idx: usize,
        action_idx: usize,
        params: ActionParams,
    ) -> GameView {
        if self.invocation_fault(agent_idx, action_idx, params) is None {
            self.after_action(agent_idx, params)
        } else {
            self
        }
    }
}

impl PandemicGameState {
    /// Performs a movement of an agent.
    fn do_movement(
        &mut self,
        agent_idx: usize,
        movement: Movement,
    ) -> (result: Result<(), ActionEndState>)
        requires
            old(self).wf(),
        ensures
            final(self).wf(),
            action_text_fits(result),
            final(self)@.same_schedule(old(self)@),
            action_verdict(result) == verdict_of(old(self)@.movement_fault(agent_idx, movement)),
            final(self)@ == if result is Ok {
                old(self)@.after_movement(agent_idx, movement)
            } else {
                old(self)@
            },
    {
        match movement {
            Movement::Drive { new_city } => self.drive(agent_idx, new_city),
            Movement::DirectFlight { new_city, agent_to_discard_idx } => self.direct_flight(
                agent_idx,
                new_city,
                agent_to_discard_idx,
            ),
            Movement::CharterFlight { new_city, agent_to_discard_idx } => self.charter_flight(
                agent_idx,
                new_city,
                agent_to_discard_idx,
            ),
            Movement::ShuttleFlight { new_city } => self.shuttle_flight(agent_idx, new_city),
        }
    }

    /// Lets the dispatcher move another agent as that agent could move itself.
    pub fn dispatch_move(
        &mut self,
        agent_idx: usize,
        other_agent_idx: usize,
        movement: Movement,
    ) -> (result: Result<(), ActionEndState>)
        requires
            old(self).wf(),
        ensures
            final(self).wf(),
            action_text_fits(result),
            final(self)@.same_schedule(old(self)@),
            action_verdict(result) == verdict_of(
                old(self)@.dispatch_move_fault(agent_idx, other_agent_idx, movement),
            ),
            final(self)@ == if result is Ok {
                old(self)@.after_movement(other_agent_idx, movement)
            } else {
                old(self)@
            },
    {
        if agent_idx >= self.agents.len() {
            return refuse_action(ActionFault::AgentOutOfRange);
        }
        if self.agents[agent_idx].agent_type != AgentName::Dispatcher {
            return refuse_action(ActionFault::RoleMismatch);
        }
        self.do_movement(other_agent_idx, movement)
    }

    /// Invokes the action at an index of the action list of an agent, with
    /// the parameters given.
    pub fn do_action(
        &mut self,
        agent_idx: usize,
        action_idx: usize,
        params: &ActionParams,
    ) -> (result: Result<(), ActionEndState>)
        requires
            old(self).wf(),
        ensures
            final(self).wf(),
            action_text_fits(result),
            final(self)@.same_schedule(old(self)@),
            action_verdict(result) == old(self)@.invocation_verdict(agent_idx, action_idx, *params),
            final(self)@ == old(self)@.after_invocation(agent_idx, action_idx, *params),
    {
        reveal(GameView::invocation_verdict);
        reveal(GameView::after_invocation);
        if agent_idx >= self.agents.len() {
            return refuse_action(ActionFault::AgentOutOfRange);
        }
        if action_idx >= self.agents[agent_idx].actions.len() {
            return refuse_action(ActionFault::ActionOutOfRange);
        }
        if self.agents[agent_idx].actions[action_idx] != params.kind() {
            return refuse_action(ActionFault::MalformedSelection);
        }
        match params {
            ActionParams::Drive { new_city } => self.drive(agent_idx, *new_city),
            ActionParams::DirectFlight { new_city, agent_to_discard_idx } => self.direct_flight(
                agent_idx,
                *new_city,
                *agent_to_discard_idx,
            ),
            ActionParams::CharterFlight { new_city, agent_to_discard_idx } => self.charter_flight(
                agent_idx,
                *new_city,
                *agent_to_discard_idx,
            ),
            ActionParams::ShuttleFlight { new_city } => self.shuttle_flight(agent_idx, *new_city),
            ActionParams::BuildResearchStation => self.build_research_station(agent_idx),
            ActionParams::TreatDisease { disease } => self.treat_disease(agent_idx, *disease),
            ActionParams::ShareKnowledge { giving_agent_idx, receiving_agent_idx, city, discards } => self.share_knowledge(
                agent_idx,
                *giving_agent_idx,
                *receiving_agent_idx,
                *city,
                discards,
            ),
            ActionParams::DiscoverCure { disease, matching_city_cards } => self.discover_cure(
                agent_idx,
                *disease,
                matching_city_cards,
            ),
            ActionParams::DispatchFlight { other_agent_idx, new_city } => self.dispatch_flight(
                agent_idx,
                *other_agent_idx,
                *new_city,
            ),
            ActionParams::DispatchMove { other_agent_idx, movement } => self.dispatch_move(
                agent_idx,
                *other_agent_idx,
                *movement,
            ),
            ActionParams::OperationsMove { new_city } => self.operations_move(agent_idx, *new_city),
            ActionParams::ContingencyPlan { player_discard_event_index } => self.contingency_plan(
                agent_idx,
                *player_discard_event_index,
            ),
        }
    }
}

} // verus!
