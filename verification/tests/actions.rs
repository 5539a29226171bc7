use pandemic_rust::agent::{ActionEndState, ActionFault, ActionKind, Agent, AgentName};
use pandemic_rust::city_graph::CityCard;
use pandemic_rust::dispatch::{ActionParams, Movement};
use pandemic_rust::game_enums::{Disease, EventCard, GameEnd, PerDisease, PlayerCard};
use pandemic_rust::pandemic_game::{PandemicGameConfig, PandemicGameState};

/// Twenty cities on a ring, five of each colour in the order blue, red,
/// black, yellow; two players; testing mode; no epidemics.
fn game() -> PandemicGameState {
    let graph: Vec<Vec<CityCard>> =
        (0..20).map(|i| vec![CityCard((i + 19) % 20), CityCard((i + 1) % 20)]).collect();
    let diseases: Vec<Disease> = (0..20)
        .map(|i| match i / 5 {
            0 => Disease::Blue,
            1 => Disease::Red,
            2 => Disease::Black,
            _ => Disease::Yellow,
        })
        .collect();
    let config = PandemicGameConfig::new(
        2,
        Some(0),
        None,
        None,
        None,
        None,
        Some(true),
        Some(false),
        Some(false),
        graph,
        diseases,
    )
    .unwrap();
    let mut state = PandemicGameState::new(config).unwrap();
    seat(&mut state, 0, AgentName::Scientist);
    seat(&mut state, 1, AgentName::Quarantine);
    state
}

fn seat(state: &mut PandemicGameState, agent_idx: usize, role: AgentName) {
    state.agents[agent_idx] = Agent::new(role);
}

fn city(i: usize) -> PlayerCard {
    PlayerCard::CityCard(CityCard(i))
}

fn fault(result: Result<(), ActionEndState>) -> ActionFault {
    match result {
        Err(ActionEndState::Error(e)) => {
            assert_eq!(e.msg, e.kind.describe());
            e.kind
        }
        Err(ActionEndState::GameOver(end)) => panic!("the game ended: {:?}", end),
        Ok(()) => panic!("the action was done"),
    }
}

#[test]
fn the_game_starts_as_seeded() {
    let state = game();
    assert_eq!(state.player_locations, vec![CityCard(0), CityCard(0)]);
    // the cities 19 down to 11 were drawn
    assert_eq!(
        state.total_cubes_on_board_per_disease,
        PerDisease { blue: 0, red: 0, black: 5, yellow: 13 }
    );
    assert_eq!(
        state.player_hands[1],
        vec![PlayerCard::EventCard(EventCard::GovernmentGrant), city(19), city(18), city(17)]
    );
    assert_eq!(state.player_deck.len(), 17);
    assert!(state.is_well_formed());
}

#[test]
fn drive_needs_a_connection() {
    let mut state = game();
    assert!(state.drive(0, CityCard(1)).is_ok());
    assert_eq!(state.player_locations, vec![CityCard(1), CityCard(0)]);
    assert!(state.drive(0, CityCard(2)).is_ok());
    assert_eq!(fault(state.drive(0, CityCard(4))), ActionFault::NotConnected);
    assert_eq!(fault(state.drive(0, CityCard(2))), ActionFault::NotConnected);
    assert_eq!(fault(state.drive(0, CityCard(20))), ActionFault::NotConnected);
    assert_eq!(fault(state.drive(2, CityCard(1))), ActionFault::AgentOutOfRange);
    assert_eq!(state.player_locations, vec![CityCard(2), CityCard(0)]);
    assert!(state.drive(1, CityCard(19)).is_ok());
    assert_eq!(state.player_locations, vec![CityCard(2), CityCard(19)]);
    assert!(state.is_well_formed());
}

#[test]
fn direct_flight_discards_the_card_of_the_target() {
    let mut state = game();
    assert_eq!(fault(state.direct_flight(0, CityCard(18), 0)), ActionFault::MissingCard);
    assert_eq!(fault(state.direct_flight(1, CityCard(20), 1)), ActionFault::TargetOutOfRange);
    assert_eq!(fault(state.direct_flight(1, CityCard(18), 2)), ActionFault::AgentOutOfRange);
    assert_eq!(fault(state.direct_flight(5, CityCard(18), 1)), ActionFault::AgentOutOfRange);
    // the other agent is no dispatcher and cannot pay
    assert_eq!(fault(state.direct_flight(0, CityCard(18), 1)), ActionFault::RoleMismatch);
    assert!(state.direct_flight(1, CityCard(18), 1).is_ok());
    assert_eq!(state.player_locations[1], CityCard(18));
    assert_eq!(
        state.player_hands[1],
        vec![PlayerCard::EventCard(EventCard::GovernmentGrant), city(19), city(17)]
    );
    assert_eq!(state.player_discard, vec![city(18)]);
    // the dispatcher pays for another agent
    seat(&mut state, 1, AgentName::Dispatcher);
    assert!(state.direct_flight(0, CityCard(17), 1).is_ok());
    assert_eq!(state.player_locations[0], CityCard(17));
    assert_eq!(state.player_discard, vec![city(18), city(17)]);
    assert_eq!(state.player_hands[1].len(), 2);
    assert!(state.is_well_formed());
}

#[test]
fn charter_flight_discards_the_card_of_the_city_left() {
    let mut state = game();
    assert_eq!(fault(state.charter_flight(1, CityCard(5), 1)), ActionFault::MissingCard);
    state.player_locations[1] = CityCard(19);
    assert_eq!(fault(state.charter_flight(1, CityCard(25), 1)), ActionFault::TargetOutOfRange);
    assert_eq!(fault(state.charter_flight(1, CityCard(5), 3)), ActionFault::AgentOutOfRange);
    assert!(state.charter_flight(1, CityCard(5), 1).is_ok());
    assert_eq!(state.player_locations[1], CityCard(5));
    assert_eq!(state.player_discard, vec![city(19)]);
    assert!(!state.player_hands[1].contains(&city(19)));
    assert!(state.is_well_formed());
}

#[test]
fn shuttle_flight_runs_between_research_stations() {
    let mut state = game();
    assert_eq!(
        fault(state.shuttle_flight(0, CityCard(7))),
        ActionFault::MissingResearchStation
    );
    assert_eq!(
        fault(state.shuttle_flight(0, CityCard(70))),
        ActionFault::MissingResearchStation
    );
    state.add_research_station(CityCard(7));
    assert!(state.has_research_station(CityCard(7)));
    assert!(!state.has_research_station(CityCard(8)));
    assert!(!state.has_research_station(CityCard(80)));
    assert!(state.shuttle_flight(0, CityCard(7)).is_ok());
    assert_eq!(state.player_locations[0], CityCard(7));
    state.player_locations[1] = CityCard(3);
    assert_eq!(
        fault(state.shuttle_flight(1, CityCard(7))),
        ActionFault::MissingResearchStation
    );
    assert!(state.is_well_formed());
}

#[test]
fn medic_sweeps_a_cured_disease_on_arrival() {
    let mut state = game();
    seat(&mut state, 0, AgentName::Medic);
    // city 19 holds three yellow cubes
    assert_eq!(state.cur_city_diseases[19].yellow, 3);
    assert!(state.drive(0, CityCard(19)).is_ok());
    assert_eq!(state.cur_city_diseases[19].yellow, 3);
    assert!(state.drive(0, CityCard(0)).is_ok());
    state.cured_diseases.yellow = true;
    assert!(state.drive(0, CityCard(19)).is_ok());
    assert_eq!(state.cur_city_diseases[19].yellow, 0);
    assert_eq!(state.total_cubes_on_board_per_disease.yellow, 10);
    // another role leaves the cubes
    assert_eq!(state.cur_city_diseases[18].yellow, 3);
    state.player_locations[1] = CityCard(19);
    assert!(state.drive(1, CityCard(18)).is_ok());
    assert_eq!(state.cur_city_diseases[18].yellow, 3);
    assert_eq!(state.get_n_disease_cubes_on_board(1, Disease::Yellow), 3);
    assert_eq!(state.get_n_disease_cubes_on_board(0, Disease::Yellow), 0);
    assert!(state.is_well_formed());
}

#[test]
fn treating_where_the_agent_stands() {
    let mut state = game();
    assert_eq!(fault(state.treat_disease(0, Disease::Yellow)), ActionFault::NoCubesToTreat);
    assert_eq!(fault(state.treat_disease(4, Disease::Yellow)), ActionFault::AgentOutOfRange);
    state.player_locations[0] = CityCard(19);
    assert!(state.treat_disease(0, Disease::Yellow).is_ok());
    assert_eq!(state.cur_city_diseases[19].yellow, 2);
    assert_eq!(fault(state.treat_disease(0, Disease::Blue)), ActionFault::NoCubesToTreat);
    seat(&mut state, 0, AgentName::Medic);
    assert!(state.treat_disease(0, Disease::Yellow).is_ok());
    assert_eq!(state.cur_city_diseases[19].yellow, 0);
    assert_eq!(state.total_cubes_on_board_per_disease.yellow, 10);
    assert!(state.is_well_formed());
}

#[test]
fn building_a_research_station() {
    let mut state = game();
    assert_eq!(
        fault(state.build_research_station(0)),
        ActionFault::StationAlreadyBuilt
    );
    state.player_locations[1] = CityCard(4);
    assert_eq!(fault(state.build_research_station(1)), ActionFault::MissingCard);
    state.player_locations[1] = CityCard(17);
    assert!(state.build_research_station(1).is_ok());
    assert!(state.has_research_station(CityCard(17)));
    // the card has left the game
    assert!(!state.player_hands[1].contains(&city(17)));
    assert!(state.player_discard.is_empty());
    // the operations expert builds without the card
    seat(&mut state, 0, AgentName::Operations);
    state.player_locations[0] = CityCard(9);
    let hand = state.player_hands[0].clone();
    assert!(state.build_research_station(0).is_ok());
    assert!(state.has_research_station(CityCard(9)));
    assert_eq!(state.player_hands[0], hand);
    assert_eq!(fault(state.build_research_station(9)), ActionFault::AgentOutOfRange);
    assert!(state.is_well_formed());
}

#[test]
fn sharing_knowledge() {
    let mut state = game();
    let none: Vec<PlayerCard> = vec![];
    // agent 1 holds the cards of the cities 19, 18, 17; both stand in city 0
    assert_eq!(
        fault(state.share_knowledge(1, 1, 0, CityCard(19), &none)),
        ActionFault::RoleMismatch
    );
    assert_eq!(
        fault(state.share_knowledge(1, 1, 0, CityCard(3), &none)),
        ActionFault::MissingCard
    );
    assert_eq!(
        fault(state.share_knowledge(1, 1, 2, CityCard(19), &none)),
        ActionFault::AgentOutOfRange
    );
    assert_eq!(
        fault(state.share_knowledge(0, 1, 1, CityCard(19), &none)),
        ActionFault::MalformedSelection
    );
    state.player_locations = vec![CityCard(19), CityCard(19)];
    assert_eq!(
        fault(state.share_knowledge(0, 1, 0, CityCard(19), &vec![city(19)])),
        ActionFault::MalformedSelection
    );
    assert!(state.share_knowledge(0, 1, 0, CityCard(19), &none).is_ok());
    assert!(state.player_hands[0].contains(&city(19)));
    assert!(!state.player_hands[1].contains(&city(19)));
    assert_eq!(state.player_hands[0].len(), 5);
    assert_eq!(state.player_hands[1].len(), 3);
    state.player_locations[1] = CityCard(18);
    assert_eq!(
        fault(state.share_knowledge(1, 1, 0, CityCard(18), &none)),
        ActionFault::NotInSameCity
    );
    // the researcher gives any card
    seat(&mut state, 1, AgentName::Researcher);
    state.player_locations[1] = CityCard(19);
    assert!(state.share_knowledge(1, 1, 0, CityCard(17), &none).is_ok());
    assert!(state.player_hands[0].contains(&city(17)));
    assert!(state.is_well_formed());
}

#[test]
fn receiver_over_the_limit_discards_down_to_seven() {
    let mut state = game();
    state.player_locations = vec![CityCard(19), CityCard(19)];
    state.player_hands[0] = (0..7).map(city).collect();
    let none: Vec<PlayerCard> = vec![];
    assert_eq!(
        fault(state.share_knowledge(0, 1, 0, CityCard(19), &none)),
        ActionFault::MalformedSelection
    );
    assert_eq!(
        fault(state.share_knowledge(0, 1, 0, CityCard(19), &vec![city(12)])),
        ActionFault::MalformedSelection
    );
    assert_eq!(
        fault(state.share_knowledge(0, 1, 0, CityCard(19), &vec![city(1), city(2)])),
        ActionFault::MalformedSelection
    );
    assert_eq!(state.player_hands[0].len(), 7);
    assert!(state.player_hands[1].contains(&city(19)));
    assert!(state.share_knowledge(0, 1, 0, CityCard(19), &vec![city(3)]).is_ok());
    assert_eq!(
        state.player_hands[0],
        vec![city(0), city(1), city(2), city(4), city(5), city(6), city(19)]
    );
    assert_eq!(state.player_discard, vec![city(3)]);
    // the card just received may be the one discarded
    state.player_locations = vec![CityCard(18), CityCard(18)];
    assert!(state.share_knowledge(0, 1, 0, CityCard(18), &vec![city(18)]).is_ok());
    assert_eq!(state.player_hands[0].len(), 7);
    assert_eq!(state.player_discard, vec![city(3), city(18)]);
    assert!(state.is_well_formed());
}

#[test]
fn discovering_a_cure() {
    let mut state = game();
    let reds: Vec<CityCard> = (5..10).map(CityCard).collect();
    assert_eq!(fault(state.discover_cure(1, Disease::Red, &reds)), ActionFault::MissingCard);
    state.player_hands[1] = (5..11).map(city).collect();
    assert_eq!(
        fault(state.discover_cure(1, Disease::Red, &reds[..4].to_vec())),
        ActionFault::MalformedSelection
    );
    assert_eq!(
        fault(state.discover_cure(1, Disease::Black, &reds)),
        ActionFault::ColorMismatch
    );
    let mixed: Vec<CityCard> = (6..11).map(CityCard).collect();
    assert_eq!(
        fault(state.discover_cure(1, Disease::Red, &mixed)),
        ActionFault::ColorMismatch
    );
    let twice = vec![CityCard(5), CityCard(6), CityCard(7), CityCard(8), CityCard(5)];
    assert_eq!(
        fault(state.discover_cure(1, Disease::Red, &twice)),
        ActionFault::MalformedSelection
    );
    assert_eq!(
        fault(state.discover_cure(7, Disease::Red, &reds)),
        ActionFault::AgentOutOfRange
    );
    assert!(state.discover_cure(1, Disease::Red, &reds).is_ok());
    assert_eq!(
        state.cured_diseases,
        PerDisease { blue: false, red: true, black: false, yellow: false }
    );
    assert_eq!(state.player_hands[1], vec![city(10)]);
    assert_eq!(state.player_discard, (5..10).map(city).collect::<Vec<_>>());
    state.player_hands[1] = (5..10).map(city).collect();
    assert_eq!(
        fault(state.discover_cure(1, Disease::Red, &reds)),
        ActionFault::AlreadyCured
    );
    state.player_hands[1] = vec![city(5), city(6), city(7), city(8), city(40)];
    state.cured_diseases.red = false;
    let far = vec![CityCard(5), CityCard(6), CityCard(7), CityCard(8), CityCard(40)];
    assert_eq!(
        fault(state.discover_cure(1, Disease::Red, &far)),
        ActionFault::TargetOutOfRange
    );
    assert!(state.is_well_formed());
}

#[test]
fn scientist_cures_with_four_cards() {
    let mut state = game();
    state.player_hands[0] = (0..5).map(city).collect();
    let five: Vec<CityCard> = (0..5).map(CityCard).collect();
    let four: Vec<CityCard> = (0..4).map(CityCard).collect();
    assert_eq!(
        fault(state.discover_cure(0, Disease::Blue, &five)),
        ActionFault::MalformedSelection
    );
    assert!(state.discover_cure(0, Disease::Blue, &four).is_ok());
    assert!(state.cured_diseases.blue);
    assert_eq!(state.player_hands[0], vec![city(4)]);
    assert!(state.is_well_formed());
}

#[test]
fn curing_the_last_disease_wins_at_once() {
    let mut state = game();
    state.cured_diseases = PerDisease { blue: true, red: true, black: true, yellow: false };
    // a hand over the limit does not stand in the way
    state.player_hands[1] = (10..20).map(city).collect();
    let yellows: Vec<CityCard> = (15..20).map(CityCard).collect();
    let result = state.discover_cure(1, Disease::Yellow, &yellows);
    assert!(matches!(result, Err(ActionEndState::GameOver(GameEnd::Win))));
    assert_eq!(
        state.cured_diseases,
        PerDisease { blue: true, red: true, black: true, yellow: true }
    );
    assert_eq!(state.player_hands[1], (10..15).map(city).collect::<Vec<_>>());
    assert!(state.is_well_formed());
}

#[test]
fn curing_the_third_disease_does_not_win() {
    let mut state = game();
    state.cured_diseases = PerDisease { blue: true, red: true, black: false, yellow: false };
    state.player_hands[1] = (15..20).map(city).collect();
    let yellows: Vec<CityCard> = (15..20).map(CityCard).collect();
    assert!(state.discover_cure(1, Disease::Yellow, &yellows).is_ok());
    assert!(state.is_well_formed());
}

#[test]
fn dispatcher_flies_another_agent() {
    let mut state = game();
    assert_eq!(
        fault(state.dispatch_flight(1, 0, CityCard(18))),
        ActionFault::RoleMismatch
    );
    seat(&mut state, 1, AgentName::Dispatcher);
    assert_eq!(
        fault(state.dispatch_flight(1, 0, CityCard(3))),
        ActionFault::MissingCard
    );
    assert_eq!(
        fault(state.dispatch_flight(1, 2, CityCard(18))),
        ActionFault::AgentOutOfRange
    );
    assert_eq!(
        fault(state.dispatch_flight(1, 0, CityCard(21))),
        ActionFault::TargetOutOfRange
    );
    assert!(state.dispatch_flight(1, 0, CityCard(18)).is_ok());
    assert_eq!(state.player_locations, vec![CityCard(18), CityCard(0)]);
    // the dispatcher keeps the card
    assert!(state.player_discard.is_empty());
    assert!(state.player_hands[1].contains(&city(18)));
    assert!(state.is_well_formed());
}

#[test]
fn dispatcher_moves_another_agent() {
    let mut state = game();
    let drive = Movement::Drive { new_city: CityCard(1) };
    assert_eq!(fault(state.dispatch_move(1, 0, drive)), ActionFault::RoleMismatch);
    seat(&mut state, 1, AgentName::Dispatcher);
    assert!(state.dispatch_move(1, 0, drive).is_ok());
    assert_eq!(state.player_locations, vec![CityCard(1), CityCard(0)]);
    assert_eq!(
        fault(state.dispatch_move(1, 0, Movement::Drive { new_city: CityCard(5) })),
        ActionFault::NotConnected
    );
    assert_eq!(
        fault(state.dispatch_move(1, 4, drive)),
        ActionFault::AgentOutOfRange
    );
    let flight = Movement::DirectFlight { new_city: CityCard(19), agent_to_discard_idx: 1 };
    assert!(state.dispatch_move(1, 0, flight).is_ok());
    assert_eq!(state.player_locations[0], CityCard(19));
    assert_eq!(state.player_discard, vec![city(19)]);
    state.add_research_station(CityCard(19));
    let shuttle = Movement::ShuttleFlight { new_city: CityCard(0) };
    assert!(state.dispatch_move(1, 0, shuttle).is_ok());
    assert_eq!(state.player_locations[0], CityCard(0));
    state.player_locations[0] = CityCard(17);
    let charter = Movement::CharterFlight { new_city: CityCard(3), agent_to_discard_idx: 1 };
    assert!(state.dispatch_move(1, 0, charter).is_ok());
    assert_eq!(state.player_locations[0], CityCard(3));
    assert_eq!(state.player_discard, vec![city(19), city(17)]);
    assert!(state.is_well_formed());
}

#[test]
fn operations_expert_moves_from_a_research_station() {
    let mut state = game();
    assert_eq!(fault(state.operations_move(1, CityCard(9))), ActionFault::RoleMismatch);
    seat(&mut state, 1, AgentName::Operations);
    assert_eq!(fault(state.operations_move(1, CityCard(29))), ActionFault::TargetOutOfRange);
    assert_eq!(fault(state.operations_move(3, CityCard(9))), ActionFault::AgentOutOfRange);
    let hand = state.player_hands[1].clone();
    assert!(state.operations_move(1, CityCard(9)).is_ok());
    assert_eq!(state.player_locations[1], CityCard(9));
    // nothing is discarded
    assert_eq!(state.player_hands[1], hand);
    assert!(state.player_discard.is_empty());
    assert_eq!(
        fault(state.operations_move(1, CityCard(2))),
        ActionFault::MissingResearchStation
    );
    assert!(state.is_well_formed());
}

#[test]
fn contingency_planner_takes_an_event_in_reserve() {
    let mut state = game();
    state.player_discard =
        vec![city(3), PlayerCard::EventCard(EventCard::Airlift), PlayerCard::Epidemic];
    assert_eq!(fault(state.contingency_plan(1, 1)), ActionFault::RoleMismatch);
    seat(&mut state, 1, AgentName::Contingency);
    assert_eq!(fault(state.contingency_plan(1, 3)), ActionFault::TargetOutOfRange);
    assert_eq!(fault(state.contingency_plan(1, 0)), ActionFault::NotAnEventCard);
    assert_eq!(fault(state.contingency_plan(1, 2)), ActionFault::NotAnEventCard);
    assert!(state.contingency_plan(1, 1).is_ok());
    assert_eq!(state.contingency_planner_event_card, Some(EventCard::Airlift));
    assert_eq!(state.player_discard, vec![city(3), PlayerCard::Epidemic]);
    state.player_discard.push(PlayerCard::EventCard(EventCard::Forecast));
    assert_eq!(fault(state.contingency_plan(1, 2)), ActionFault::ReserveOccupied);
    assert!(state.is_well_formed());
}

#[test]
fn actions_are_invoked_by_their_place_in_the_list() {
    let mut state = game();
    seat(&mut state, 0, AgentName::Dispatcher);
    seat(&mut state, 1, AgentName::Medic);
    let drive = ActionParams::Drive { new_city: CityCard(1) };
    assert_eq!(fault(state.do_action(2, 0, &drive)), ActionFault::AgentOutOfRange);
    // the medic has no action in its list
    assert_eq!(fault(state.do_action(1, 0, &drive)), ActionFault::ActionOutOfRange);
    assert_eq!(fault(state.do_action(0, 4, &drive)), ActionFault::ActionOutOfRange);
    // the parameters must be those of the action at the place
    assert_eq!(fault(state.do_action(0, 3, &drive)), ActionFault::MalformedSelection);
    let other = ActionParams::DispatchMove {
        other_agent_idx: 1,
        movement: Movement::Drive { new_city: CityCard(1) },
    };
    assert_eq!(fault(state.do_action(0, 0, &other)), ActionFault::MalformedSelection);
    assert!(state.do_action(0, 3, &other).is_ok());
    assert_eq!(state.player_locations, vec![CityCard(0), CityCard(1)]);
    let far = ActionParams::DispatchMove {
        other_agent_idx: 1,
        movement: Movement::Drive { new_city: CityCard(9) },
    };
    assert_eq!(fault(state.do_action(0, 3, &far)), ActionFault::NotConnected);
    // an action without a place in a list is called by its name
    assert!(state.drive(1, CityCard(2)).is_ok());
    assert_eq!(state.player_locations, vec![CityCard(0), CityCard(2)]);
    assert_eq!(other.kind(), ActionKind::DispatchMove);
    assert_eq!(drive.kind(), ActionKind::Drive);
    assert!(state.is_well_formed());
}

#[test]
fn every_listed_action_can_be_invoked() {
    let mut state = game();
    seat(&mut state, 0, AgentName::Dispatcher);
    state.player_hands[0] = vec![city(0), city(5), city(7)];
    let flight = ActionParams::DispatchFlight { other_agent_idx: 1, new_city: CityCard(5) };
    assert!(state.do_action(0, 0, &flight).is_ok());
    assert_eq!(state.player_locations, vec![CityCard(0), CityCard(5)]);
    let charter = ActionParams::CharterFlight { new_city: CityCard(3), agent_to_discard_idx: 0 };
    assert!(state.do_action(0, 1, &charter).is_ok());
    assert_eq!(state.player_locations[0], CityCard(3));
    let direct = ActionParams::DirectFlight { new_city: CityCard(7), agent_to_discard_idx: 0 };
    assert!(state.do_action(0, 2, &direct).is_ok());
    assert_eq!(state.player_locations[0], CityCard(7));
    assert_eq!(state.player_discard, vec![city(0), city(7)]);
    assert_eq!(state.player_hands[0], vec![city(5)]);
    let other = ActionParams::DispatchMove {
        other_agent_idx: 1,
        movement: Movement::Drive { new_city: CityCard(6) },
    };
    assert!(state.do_action(0, 3, &other).is_ok());
    assert_eq!(state.player_locations[1], CityCard(6));

    seat(&mut state, 1, AgentName::Contingency);
    state.player_discard.push(PlayerCard::EventCard(EventCard::Forecast));
    let plan = ActionParams::ContingencyPlan { player_discard_event_index: 2 };
    assert!(state.do_action(1, 0, &plan).is_ok());
    assert_eq!(state.contingency_planner_event_card, Some(EventCard::Forecast));
    assert_eq!(fault(state.do_action(1, 1, &plan)), ActionFault::ActionOutOfRange);

    seat(&mut state, 1, AgentName::Operations);
    let ops = ActionParams::OperationsMove { new_city: CityCard(10) };
    assert_eq!(fault(state.do_action(1, 0, &ops)), ActionFault::MissingResearchStation);
    state.add_research_station(CityCard(6));
    assert!(state.do_action(1, 0, &ops).is_ok());
    assert_eq!(state.player_locations[1], CityCard(10));

    seat(&mut state, 1, AgentName::Researcher);
    state.player_locations[0] = CityCard(10);
    let share = ActionParams::ShareKnowledge {
        giving_agent_idx: 1,
        receiving_agent_idx: 0,
        city: CityCard(17),
        discards: vec![],
    };
    assert!(state.do_action(1, 0, &share).is_ok());
    assert_eq!(state.player_hands[0], vec![city(5), city(17)]);

    // the other roles have no list
    for role in [AgentName::Medic, AgentName::Quarantine, AgentName::Scientist] {
        seat(&mut state, 1, role);
        assert_eq!(fault(state.do_action(1, 0, &share)), ActionFault::ActionOutOfRange);
    }
    assert!(state.is_well_formed());
}

#[test]
fn handing_a_card_to_oneself_leaves_the_hand() {
    let mut state = game();
    state.player_locations = vec![CityCard(19), CityCard(19)];
    let hand = state.player_hands[1].clone();
    let none: Vec<PlayerCard> = vec![];
    assert!(state.share_knowledge(1, 1, 1, CityCard(19), &none).is_ok());
    assert_eq!(state.player_hands[1], hand);
    assert!(state.player_discard.is_empty());
    assert_eq!(
        fault(state.share_knowledge(1, 1, 1, CityCard(3), &none)),
        ActionFault::MissingCard
    );
    assert_eq!(
        fault(state.share_knowledge(1, 1, 1, CityCard(18), &none)),
        ActionFault::RoleMismatch
    );
    // a hand over the limit is cut down even so
    state.player_hands[1] = (12..20).map(city).collect();
    assert_eq!(
        fault(state.share_knowledge(1, 1, 1, CityCard(19), &none)),
        ActionFault::MalformedSelection
    );
    assert!(state.share_knowledge(1, 1, 1, CityCard(19), &vec![city(12)]).is_ok());
    assert_eq!(state.player_hands[1], (13..20).map(city).collect::<Vec<_>>());
    assert_eq!(state.player_discard, vec![city(12)]);
    assert!(state.is_well_formed());
}
