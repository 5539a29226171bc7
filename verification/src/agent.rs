//! Roles, the actions each role may invoke, and the errors of actions and turns.
use vstd::prelude::*;
use vstd::string::*;

use crate::game_enums::GameEnd;

verus! {

/// Why a turn was refused before anything was changed.
#[derive(Debug, Clone, Copy, PartialEq, Eq, Structural, Hash)]
pub enum TurnFault {
    /// The caller is not the currently active agent.
    NotCurrentPlayer,
    /// A turn takes exactly four action invocations.
    WrongActionCount,
    /// The scheduler is in a state in which the request has no meaning.
    WrongPhase,
    /// A hand holds more than seven cards and must be cut down first.
    DiscardRequired,
    /// The agents have not all been asked for an event yet.
    EventsPending,
    /// Built from a bare message.
    Unspecified,
}

/// Why an action was refused. The game goes on after such an error.
#[derive(Debug, Clone, Copy, PartialEq, Eq, Structural, Hash)]
pub enum ActionFault {
    /// No agent is seated at the given index.
    AgentOutOfRange,
    /// The role has no action at the given index.
    ActionOutOfRange,
    /// The parameters do not fit the action, or a selection is not well formed.
    MalformedSelection,
    /// The action belongs to another role.
    RoleMismatch,
    /// A card that the action needs is not in the hand.
    MissingCard,
    /// A research station that the action needs is not there.
    MissingResearchStation,
    /// A city or a pile position lies outside its table.
    TargetOutOfRange,
    /// The target city is not next to the current one.
    NotConnected,
    /// The city already has a research station.
    StationAlreadyBuilt,
    /// There is no cube of the disease to remove.
    NoCubesToTreat,
    /// The disease has been cured before.
    AlreadyCured,
    /// The cards do not all show the colour of the disease.
    ColorMismatch,
    /// The two agents do not stand in the same city.
    NotInSameCity,
    /// The contingency planner already keeps an event in reserve.
    ReserveOccupied,
    /// The chosen card of the discard pile is no event.
    NotAnEventCard,
    /// It is not the moment at which this agent is asked for an event.
    NotAsked,
    /// Built from a bare message.
    Unspecified,
}

/// The text that goes with each reason for refusing a turn.
pub open spec fn turn_fault_text(kind: TurnFault) -> Seq<char> {
    match kind {
        TurnFault::NotCurrentPlayer => "player is not the current player"@,
        TurnFault::WrongActionCount => "must do 4 actions in a turn"@,
        TurnFault::WrongPhase => "the turn is not at this step"@,
        TurnFault::DiscardRequired => "a hand must be cut down to 7 cards first"@,
        TurnFault::EventsPending => "the agents must be asked for events first"@,
        TurnFault::Unspecified => ""@,
    }
}

/// The text that goes with each reason for refusing an action.
pub open spec fn action_fault_text(kind: ActionFault) -> Seq<char> {
    match kind {
        ActionFault::AgentOutOfRange => "agent_idx > agents.len()"@,
        ActionFault::ActionOutOfRange => "action_idx > agent.actions.len()"@,
        ActionFault::MalformedSelection => "selection does not fit the request"@,
        ActionFault::RoleMismatch => "action belongs to another role"@,
        ActionFault::MissingCard => "player hand does not contain the card"@,
        ActionFault::MissingResearchStation => "city does not have research station"@,
        ActionFault::TargetOutOfRange => "target is out of range"@,
        ActionFault::NotConnected => "cannot drive to city not connected to current city"@,
        ActionFault::StationAlreadyBuilt => "cannot build research station in city with research station"@,
        ActionFault::NoCubesToTreat => "cannot treat disease in city with no disease cubes"@,
        ActionFault::AlreadyCured => "disease already cured"@,
        ActionFault::ColorMismatch => "cards do not have matching disease colors"@,
        ActionFault::NotInSameCity => "agents not in same city"@,
        ActionFault::ReserveOccupied => "contingency planner already has an event card to be used"@,
        ActionFault::NotAnEventCard => "chosen card is not an event card"@,
        ActionFault::NotAsked => "agent is not asked for an event now"@,
        ActionFault::Unspecified => ""@,
    }
}

impl TurnFault {
    /// The text that goes with the reason.
    pub fn describe(self) -> (text: String)
        ensures
            text@ == turn_fault_text(self),
    {
        match self {
            TurnFault::NotCurrentPlayer => String::from_str("player is not the current player"),
            TurnFault::WrongActionCount => String::from_str("must do 4 actions in a turn"),
            TurnFault::WrongPhase => String::from_str("the turn is not at this step"),
            TurnFault::DiscardRequired => String::from_str("a hand must be cut down to 7 cards first"),
            TurnFault::EventsPending => String::from_str("the agents must be asked for events first"),
            TurnFault::Unspecified => String::from_str(""),
        }
    }
}

impl ActionFault {
    /// The text that goes with the reason.
    pub fn describe(self) -> (text: String)
        ensures
            text@ == action_fault_text(self),
    {
        match self {
            ActionFault::AgentOutOfRange => String::from_str("agent_idx > agents.len()"),
            ActionFault::ActionOutOfRange => String::from_str("action_idx > agent.actions.len()"),
            ActionFault::MalformedSelection => String::from_str("selection does not fit the request"),
            ActionFault::RoleMismatch => String::from_str("action belongs to another role"),
            ActionFault::MissingCard => String::from_str("player hand does not contain the card"),
            ActionFault::MissingResearchStation => String::from_str("city does not have research station"),
            ActionFault::TargetOutOfRange => String::from_str("target is out of range"),
            ActionFault::NotConnected => String::from_str("cannot drive to city not connected to current city"),
            ActionFault::StationAlreadyBuilt => String::from_str("cannot build research station in city with research station"),
            ActionFault::NoCubesToTreat => String::from_str("cannot treat disease in city with no disease cubes"),
            ActionFault::AlreadyCured => String::from_str("disease already cured"),
            ActionFault::ColorMismatch => String::from_str("cards do not have matching disease colors"),
            ActionFault::NotInSameCity => String::from_str("agents not in same city"),
            ActionFault::ReserveOccupied => String::from_str("contingency planner already has an event card to be used"),
            ActionFault::NotAnEventCard => String::from_str("chosen card is not an event card"),
            ActionFault::NotAsked => String::from_str("agent is not asked for an event now"),
            ActionFault::Unspecified => String::from_str(""),
        }
    }
}

/// A refused turn: the reason and its text.
#[derive(Debug, Clone)]
pub struct TurnError {
    pub kind: TurnFault,
    pub msg: String,
}

/// A refused action: the reason and its text.
#[derive(Debug, Clone)]
pub struct ActionError {
    pub kind: ActionFault,
    pub msg: String,
}

impl TurnError {
    /// An error that carries only a message.
    pub fn new(msg: String) -> (e: Self)
        ensures
            e.msg == msg,
            e.kind == TurnFault::Unspecified,
    {
        Self { kind: TurnFault::Unspecified, msg }
    }

    /// The error for a given reason, with the text of that reason.
    pub fn of(kind: TurnFault) -> (e: Self)
        ensures
            e.kind == kind,
            e.msg@ == turn_fault_text(kind),
    {
        Self { kind, msg: kind.describe() }
    }
}

impl ActionError {
    /// An error that carries only a message.
    pub fn new(msg: String) -> (e: Self)
        ensures
            e.msg == msg,
            e.kind == ActionFault::Unspecified,
    {
        Self { kind: ActionFault::Unspecified, msg }
    }

    /// The error for a given reason, with the text of that reason.
    pub fn of(kind: ActionFault) -> (e: Self)
        ensures
            e.kind == kind,
            e.msg@ == action_fault_text(kind),
    {
        Self { kind, msg: kind.describe() }
    }
}

/// How a turn can stop short: refused, broken by an action error, or ended by
/// a terminal condition of the game.
#[derive(Debug)]
pub enum TurnEndState {
    TErr(TurnError),
    AErr(ActionError),
    GameOver(GameEnd),
}

/// How an action can stop short: refused, or ended by a terminal condition.
#[derive(Debug)]
pub enum ActionEndState {
    Error(ActionError),
    GameOver(GameEnd),
}

/// What an action came to, with the text of an error left aside.
#[derive(PartialEq, Eq, Structural)]
pub enum ActionVerdict {
    Done,
    Refused(ActionFault),
    Ended(GameEnd),
}

/// What a step of a turn came to, with the text of an error left aside.
#[derive(PartialEq, Eq, Structural)]
pub enum TurnVerdict {
    Done,
    Refused(TurnFault),
    Broken(ActionFault),
    Ended(GameEnd),
}

/// Reads the verdict off the result of an action.
pub open spec fn action_verdict(result: Result<(), ActionEndState>) -> ActionVerdict {
    match result {
        Ok(_) => ActionVerdict::Done,
        Err(ActionEndState::Error(e)) => ActionVerdict::Refused(e.kind),
        Err(ActionEndState::GameOver(end)) => ActionVerdict::Ended(end),
    }
}

/// An error of an action carries the text of its reason.
pub open spec fn action_text_fits(result: Result<(), ActionEndState>) -> bool {
    result matches Err(ActionEndState::Error(e)) ==> e.msg@ == action_fault_text(e.kind)
}

/// The result of an action that is refused for a reason, with the text of
/// the reason.
pub fn refuse_action(kind: ActionFault) -> (result: Result<(), ActionEndState>)
    ensures
        action_verdict(result) == ActionVerdict::Refused(kind),
        action_text_fits(result),
{
    Result::Err(ActionEndState::Error(ActionError::of(kind)))
}

/// The result of an action that is refused with a bare message.
pub fn create_action_err_result(msg: String) -> (result: Result<(), ActionEndState>)
    ensures
        action_verdict(result) == ActionVerdict::Refused(ActionFault::Unspecified),
        result matches Err(ActionEndState::Error(e)) && e.msg == msg,
{
    Result::Err(ActionEndState::Error(ActionError::new(msg)))
}

/// The result of the action that wins the game.
pub fn create_action_err_result_win() -> (result: Result<(), ActionEndState>)
    ensures
        action_verdict(result) == ActionVerdict::Ended(GameEnd::Win),
        result == Err::<(), ActionEndState>(ActionEndState::GameOver(GameEnd::Win)),
{
    Result::Err(ActionEndState::GameOver(GameEnd::Win))
}

/// The seven roles.
#[derive(Debug, Clone, Copy, PartialEq, Eq, Structural, Hash)]
pub enum AgentName {
    Contingency,
    Dispatcher,
    Medic,
    Operations,
    Quarantine,
    Researcher,
    Scientist,
}

/// Number of roles.
pub const N_AGENT_NAMES: usize = 7;

/// The position of a role in the fixed order of the roles.
pub open spec fn role_index(role: AgentName) -> int {
    match role {
        AgentName::Contingency => 0,
        AgentName::Dispatcher => 1,
        AgentName::Medic => 2,
        AgentName::Operations => 3,
        AgentName::Quarantine => 4,
        AgentName::Researcher => 5,
        AgentName::Scientist => 6,
    }
}

impl AgentName {
    pub fn index(&self) -> (i: usize)
        ensures
            i == role_index(*self),
    {
        match self {
            AgentName::Contingency => 0,
            AgentName::Dispatcher => 1,
            AgentName::Medic => 2,
            AgentName::Operations => 3,
            AgentName::Quarantine => 4,
            AgentName::Researcher => 5,
            AgentName::Scientist => 6,
        }
    }

    /// The role at a position of the fixed order, if there is one.
    pub fn from_index(i: usize) -> (role: Option<AgentName>)
        ensures
            i < N_AGENT_NAMES ==> role.is_some() && role_index(role.unwrap()) == i,
            i >= N_AGENT_NAMES ==> role.is_none(),
    {
        match i {
            0 => Some(AgentName::Contingency),
            1 => Some(AgentName::Dispatcher),
            2 => Some(AgentName::Medic),
            3 => Some(AgentName::Operations),
            4 => Some(AgentName::Quarantine),
            5 => Some(AgentName::Researcher),
            6 => Some(AgentName::Scientist),
            _ => None,
        }
    }
}

/// The actions of the game.
#[derive(Debug, Clone, Copy, PartialEq, Eq, Structural, Hash)]
pub enum ActionKind {
    Drive,
    DirectFlight,
    CharterFlight,
    ShuttleFlight,
    BuildResearchStation,
    TreatDisease,
    ShareKnowledge,
    DiscoverCure,
    DispatchFlight,
    DispatchMove,
    OperationsMove,
    ContingencyPlan,
}

/// The ordered list of actions that a role invokes by their place in the
/// list. The dispatcher has four, the contingency planner, the operations
/// expert and the researcher one each, and the other roles none. Every
/// action, listed or not, can also be called by its own name.
pub open spec fn role_actions(role: AgentName) -> Seq<ActionKind> {
    match role {
        AgentName::Contingency => seq![ActionKind::ContingencyPlan],
        AgentName::Dispatcher => seq![
            ActionKind::DispatchFlight,
            ActionKind::CharterFlight,
            ActionKind::DirectFlight,
            ActionKind::DispatchMove,
        ],
        AgentName::Operations => seq![ActionKind::OperationsMove],
        AgentName::Researcher => seq![ActionKind::ShareKnowledge],
        _ => Seq::empty(),
    }
}

/// A seated agent: its role and the actions it may invoke, in order.
#[derive(Debug, Clone)]
pub struct Agent {
    pub agent_type: AgentName,
    pub actions: Vec<ActionKind>,
}

impl Agent {
    /// An agent is well formed when its action list is the one of its role.
    pub open spec fn wf(self) -> bool {
        self.actions@ == role_actions(self.agent_type)
    }

    /// The agent of a role, with the action list of the role.
    pub fn new(agent_type: AgentName) -> (agent: Self)
        ensures
            agent.agent_type == agent_type,
            agent.wf(),
    {
        let mut actions: Vec<ActionKind> = Vec::new();
        match agent_type {
            AgentName::Contingency => {
                actions.push(ActionKind::ContingencyPlan);
            },
            AgentName::Dispatcher => {
                actions.push(ActionKind::DispatchFlight);
                actions.push(ActionKind::CharterFlight);
                actions.push(ActionKind::DirectFlight);
                actions.push(ActionKind::DispatchMove);
            },
            AgentName::Operations => {
                actions.push(ActionKind::OperationsMove);
            },
            AgentName::Researcher => {
                actions.push(ActionKind::ShareKnowledge);
            },
            _ => {},
        }
        assert(actions@ =~= role_actions(agent_type));
        Self { agent_type, actions }
    }
}

} // verus!
