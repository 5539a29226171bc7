use pandemic_rust::agent::{
    create_action_err_result, create_action_err_result_win, refuse_action, ActionEndState,
    ActionError, ActionFault, ActionKind, Agent, AgentName, TurnError, TurnFault,
};
use pandemic_rust::game_enums::GameEnd;
use pandemic_rust::city_graph::CityCard;
use pandemic_rust::game_enums::{Disease, EventCard, PerDisease, PlayerCard};
use pandemic_rust::text::{decimal_text, read_decimal};

#[test]
fn cards_are_written_differently() {
    let cards = [
        PlayerCard::Epidemic,
        PlayerCard::CityCard(CityCard(0)),
        PlayerCard::CityCard(CityCard(7)),
        PlayerCard::CityCard(CityCard(70)),
        PlayerCard::CityCard(CityCard(usize::MAX)),
        PlayerCard::EventCard(EventCard::GovernmentGrant),
        PlayerCard::EventCard(EventCard::ResilientPopulation),
        PlayerCard::EventCard(EventCard::Airlift),
        PlayerCard::EventCard(EventCard::Forecast),
        PlayerCard::EventCard(EventCard::OneQuietNight),
    ];
    for (i, card) in cards.iter().enumerate() {
        for other in &cards[..i] {
            assert_ne!(card.to_str(), other.to_str());
        }
    }
}

#[test]
fn card_text() {
    assert_eq!(PlayerCard::Epidemic.to_str(), "Epidemic");
    assert_eq!(PlayerCard::from_str(&PlayerCard::Epidemic.to_str()), Ok(PlayerCard::Epidemic));
    assert_eq!(PlayerCard::CityCard(CityCard(0)).to_str(), "CityCard(0)");
    assert_eq!(PlayerCard::CityCard(CityCard(305)).to_str(), "CityCard(305)");
    assert_eq!(PlayerCard::EventCard(EventCard::Airlift).to_str(), "EventCard(Airlift)");
    assert_eq!(
        PlayerCard::EventCard(EventCard::OneQuietNight).to_str(),
        "EventCard(OneQuietNight)"
    );
    assert_eq!(
        PlayerCard::EventCard(EventCard::GovernmentGrant).to_str(),
        format!("{:?}", PlayerCard::EventCard(EventCard::GovernmentGrant))
    );
    assert_eq!(PlayerCard::Epidemic.to_str(), format!("{:?}", PlayerCard::Epidemic));
}

#[test]
fn reading_a_card() {
    assert_eq!(PlayerCard::from_str("Epidemic"), Ok(PlayerCard::Epidemic));
    assert_eq!(
        PlayerCard::from_str("Forecast"),
        Ok(PlayerCard::EventCard(EventCard::Forecast))
    );
    assert_eq!(
        PlayerCard::from_str("GovernmentGrant"),
        Ok(PlayerCard::EventCard(EventCard::GovernmentGrant))
    );
    assert_eq!(
        PlayerCard::from_str("ResilientPopulation"),
        Ok(PlayerCard::EventCard(EventCard::ResilientPopulation))
    );
    assert_eq!(PlayerCard::from_str("12"), Ok(PlayerCard::CityCard(CityCard(12))));
    assert_eq!(PlayerCard::from_str("007"), Ok(PlayerCard::CityCard(CityCard(7))));
    assert_eq!(PlayerCard::from_str(""), Err(()));
    assert_eq!(PlayerCard::from_str("epidemic"), Err(()));
    assert_eq!(PlayerCard::from_str("Airlift "), Err(()));
    assert_eq!(PlayerCard::from_str("-1"), Err(()));
    assert_eq!(PlayerCard::from_str("1a"), Err(()));
    assert_eq!(PlayerCard::from_str("Atlanta"), Err(()));
    assert_eq!(PlayerCard::from_str("EventCard(Airlift)"), Err(()));
    assert_eq!(PlayerCard::from_str("CityCard(12)"), Err(()));
}

#[test]
fn decimal_digits() {
    assert_eq!(decimal_text(0), "0");
    assert_eq!(decimal_text(9), "9");
    assert_eq!(decimal_text(10), "10");
    assert_eq!(decimal_text(4096), "4096");
    assert_eq!(decimal_text(usize::MAX), usize::MAX.to_string());
    assert_eq!(read_decimal("0"), Some(0));
    assert_eq!(read_decimal("4096"), Some(4096));
    assert_eq!(read_decimal(&usize::MAX.to_string()), Some(usize::MAX));
    assert_eq!(read_decimal("99999999999999999999999999"), None);
    assert_eq!(read_decimal(&format!("{}0", usize::MAX)), None);
    assert_eq!(read_decimal(""), None);
    assert_eq!(read_decimal("12x"), None);
    assert_eq!(read_decimal("١٢"), None);
}

#[test]
fn event_names() {
    for event in EventCard::all() {
        assert_eq!(EventCard::from_name(&event.name()), Some(event));
    }
    assert_eq!(EventCard::from_name("Epidemic"), None);
    assert_eq!(EventCard::default(), EventCard::GovernmentGrant);
    assert_eq!(PlayerCard::default(), PlayerCard::Epidemic);
    assert_eq!(
        PlayerCard::from_city_card(CityCard(3)),
        PlayerCard::CityCard(CityCard(3))
    );
    assert_eq!(
        PlayerCard::from_event_card(EventCard::Airlift),
        PlayerCard::EventCard(EventCard::Airlift)
    );
}

#[test]
fn errors_carry_their_text() {
    let e = TurnError::new("player 1 is not current player 0".to_string());
    assert_eq!(e.msg, "player 1 is not current player 0");
    assert_eq!(e.kind, TurnFault::Unspecified);
    let e = ActionError::new("no".to_string());
    assert_eq!(e.msg, "no");
    assert_eq!(e.kind, ActionFault::Unspecified);
    let e = TurnError::of(TurnFault::WrongActionCount);
    assert_eq!(e.msg, "must do 4 actions in a turn");
    let e = ActionError::of(ActionFault::AlreadyCured);
    assert_eq!(e.kind, ActionFault::AlreadyCured);
    assert_eq!(e.msg, "disease already cured");
    assert_eq!(
        ActionFault::NotConnected.describe(),
        "cannot drive to city not connected to current city"
    );
}

#[test]
fn roles_in_their_order() {
    let roles = [
        AgentName::Contingency,
        AgentName::Dispatcher,
        AgentName::Medic,
        AgentName::Operations,
        AgentName::Quarantine,
        AgentName::Researcher,
        AgentName::Scientist,
    ];
    for (i, role) in roles.iter().enumerate() {
        assert_eq!(role.index(), i);
        assert_eq!(AgentName::from_index(i), Some(*role));
    }
    assert_eq!(AgentName::from_index(7), None);
}

#[test]
fn action_lists_of_the_roles() {
    assert_eq!(
        Agent::new(AgentName::Dispatcher).actions,
        vec![
            ActionKind::DispatchFlight,
            ActionKind::CharterFlight,
            ActionKind::DirectFlight,
            ActionKind::DispatchMove,
        ]
    );
    assert_eq!(Agent::new(AgentName::Contingency).actions, vec![ActionKind::ContingencyPlan]);
    assert_eq!(Agent::new(AgentName::Operations).actions, vec![ActionKind::OperationsMove]);
    assert_eq!(Agent::new(AgentName::Researcher).actions, vec![ActionKind::ShareKnowledge]);
    assert!(Agent::new(AgentName::Medic).actions.is_empty());
    assert!(Agent::new(AgentName::Quarantine).actions.is_empty());
    assert!(Agent::new(AgentName::Scientist).actions.is_empty());
    assert_eq!(Agent::new(AgentName::Operations).agent_type, AgentName::Operations);
}

#[test]
fn one_value_per_disease() {
    let mut counts = PerDisease::uniform(0u32);
    counts.set(Disease::Black, 2);
    counts.set(Disease::Yellow, 3);
    assert_eq!(counts, PerDisease { blue: 0, red: 0, black: 2, yellow: 3 });
    assert_eq!(counts.get(Disease::Black), 2);
    assert_eq!(counts.get(Disease::Blue), 0);
    assert_eq!(
        Disease::all(),
        vec![Disease::Blue, Disease::Red, Disease::Black, Disease::Yellow]
    );
}

#[test]
fn results_of_actions_that_stop_short() {
    match create_action_err_result("no such thing".to_string()) {
        Err(ActionEndState::Error(e)) => {
            assert_eq!(e.msg, "no such thing");
            assert_eq!(e.kind, ActionFault::Unspecified);
        }
        other => panic!("not an error: {:?}", other),
    }
    match refuse_action(ActionFault::NotInSameCity) {
        Err(ActionEndState::Error(e)) => {
            assert_eq!(e.msg, "agents not in same city");
            assert_eq!(e.kind, ActionFault::NotInSameCity);
        }
        other => panic!("not an error: {:?}", other),
    }
    assert!(matches!(
        create_action_err_result_win(),
        Err(ActionEndState::GameOver(GameEnd::Win))
    ));
}

#[test]
fn every_reason_has_its_text() {
    let actions = [
        ActionFault::AgentOutOfRange,
        ActionFault::ActionOutOfRange,
        ActionFault::MalformedSelection,
        ActionFault::RoleMismatch,
        ActionFault::MissingCard,
        ActionFault::MissingResearchStation,
        ActionFault::TargetOutOfRange,
        ActionFault::NotConnected,
        ActionFault::StationAlreadyBuilt,
        ActionFault::NoCubesToTreat,
        ActionFault::AlreadyCured,
        ActionFault::ColorMismatch,
        ActionFault::NotInSameCity,
        ActionFault::ReserveOccupied,
        ActionFault::NotAnEventCard,
        ActionFault::NotAsked,
    ];
    for (i, fault) in actions.iter().enumerate() {
        assert!(!fault.describe().is_empty());
        for other in &actions[..i] {
            assert_ne!(fault.describe(), other.describe());
        }
    }
    assert_eq!(ActionFault::Unspecified.describe(), "");
    let turns = [
        TurnFault::NotCurrentPlayer,
        TurnFault::WrongActionCount,
        TurnFault::WrongPhase,
        TurnFault::DiscardRequired,
        TurnFault::EventsPending,
    ];
    for (i, fault) in turns.iter().enumerate() {
        assert!(!fault.describe().is_empty());
        for other in &turns[..i] {
            assert_ne!(fault.describe(), other.describe());
        }
    }
    assert_eq!(TurnFault::Unspecified.describe(), "");
}
