use pandemic_rust::agent::{ActionEndState, ActionFault, Agent, AgentName};
use pandemic_rust::city_graph::CityCard;
use pandemic_rust::events::{check_ordering, EventChoice};
use pandemic_rust::game_enums::{Disease, EventCard, PlayerCard};
use pandemic_rust::pandemic_game::{PandemicGameConfig, PandemicGameState};

/// Twelve cities without connections; two players; testing mode. The first
/// agent holds the events OneQuietNight, Forecast, Airlift and
/// ResilientPopulation, the second GovernmentGrant and three city cards.
fn game(do_events: bool) -> PandemicGameState {
    let config = PandemicGameConfig::new(
        2,
        Some(0),
        None,
        None,
        None,
        None,
        Some(true),
        Some(false),
        Some(do_events),
        (0..12).map(|_| Vec::new()).collect(),
        (0..12).map(|_| Disease::Red).collect(),
    )
    .unwrap();
    let mut state = PandemicGameState::new(config).unwrap();
    state.agents[0] = Agent::new(AgentName::Medic);
    state.agents[1] = Agent::new(AgentName::Researcher);
    state
}

fn event(card: EventCard) -> PlayerCard {
    PlayerCard::EventCard(card)
}

fn fault(result: Result<(), ActionEndState>) -> ActionFault {
    match result {
        Err(ActionEndState::Error(e)) => e.kind,
        Err(ActionEndState::GameOver(end)) => panic!("the game ended: {:?}", end),
        Ok(()) => panic!("the event was played"),
    }
}

#[test]
fn event_needs_its_card() {
    let mut state = game(true);
    let grant = EventChoice::GovernmentGrant { city: CityCard(4) };
    assert_eq!(fault(state.do_event(0, &grant)), ActionFault::MissingCard);
    assert_eq!(fault(state.do_event(2, &grant)), ActionFault::AgentOutOfRange);
    assert!(state.do_event(1, &grant).is_ok());
    assert!(state.has_research_station(CityCard(4)));
    // the card has left the game
    assert!(!state.player_hands[1].contains(&event(EventCard::GovernmentGrant)));
    assert!(state.player_discard.is_empty());
    assert_eq!(fault(state.do_event(1, &grant)), ActionFault::MissingCard);
    assert_eq!(grant.card(), EventCard::GovernmentGrant);
    assert!(state.is_well_formed());
}

#[test]
fn refused_event_keeps_its_card() {
    let mut state = game(true);
    let far = EventChoice::Airlift { city: CityCard(12) };
    assert_eq!(fault(state.do_event(0, &far)), ActionFault::TargetOutOfRange);
    assert!(state.player_hands[0].contains(&event(EventCard::Airlift)));
    assert!(state.player_discard.is_empty());
    let grant = EventChoice::GovernmentGrant { city: CityCard(12) };
    assert_eq!(fault(state.do_event(1, &grant)), ActionFault::TargetOutOfRange);
    let none = EventChoice::ResilientPopulation { card_idx: 9 };
    assert_eq!(fault(state.do_event(0, &none)), ActionFault::TargetOutOfRange);
    assert!(state.is_well_formed());
}

#[test]
fn airlift_moves_the_agent() {
    let mut state = game(true);
    assert!(state.do_event(0, &EventChoice::Airlift { city: CityCard(7) }).is_ok());
    assert_eq!(state.player_locations, vec![CityCard(7), CityCard(0)]);
    assert_eq!(state.player_hands[0].len(), 3);
    assert!(!state.player_hands[0].contains(&event(EventCard::Airlift)));
    assert!(state.is_well_formed());
}

#[test]
fn resilient_population_removes_an_infection_discard() {
    let mut state = game(true);
    // the cities 11 down to 3 were drawn at setup
    assert_eq!(state.infection_discard.len(), 9);
    assert_eq!(state.infection_discard[2], CityCard(9));
    assert!(state.do_event(0, &EventChoice::ResilientPopulation { card_idx: 2 }).is_ok());
    assert_eq!(
        state.infection_discard,
        vec![11, 10, 8, 7, 6, 5, 4, 3].into_iter().map(CityCard).collect::<Vec<_>>()
    );
    assert_eq!(state.infection_deck, vec![CityCard(0), CityCard(1), CityCard(2)]);
    assert!(state.is_well_formed());
}

#[test]
fn one_quiet_night_skips_the_next_infection() {
    let mut state = game(true);
    assert!(state.do_event(0, &EventChoice::OneQuietNight).is_ok());
    assert!(state.skip_next_infect_cities);
    let deck = state.infection_deck.clone();
    let cubes = state.cur_city_diseases.clone();
    assert_eq!(state.do_infect_step(), Ok(()));
    assert!(!state.skip_next_infect_cities);
    assert_eq!(state.infection_deck, deck);
    assert_eq!(state.cur_city_diseases, cubes);
    assert_eq!(state.do_infect_step(), Ok(()));
    assert_eq!(state.infection_deck, vec![CityCard(0)]);
    assert_eq!(state.cur_city_diseases[2].red, 1);
    assert_eq!(state.cur_city_diseases[1].red, 1);
    assert!(state.is_well_formed());
}

#[test]
fn forecast_reorders_the_top_six_cards() {
    let mut state = game(true);
    state.infection_deck = (0..8).map(CityCard).collect();
    let order = vec![5, 4, 3, 2, 1, 0];
    assert!(state.do_event(0, &EventChoice::Forecast { order }).is_ok());
    assert_eq!(
        state.infection_deck,
        vec![0, 1, 7, 6, 5, 4, 3, 2].into_iter().map(CityCard).collect::<Vec<_>>()
    );
    assert_eq!(
        state.forecasted_infection_deck,
        vec![7, 6, 5, 4, 3, 2].into_iter().map(CityCard).collect::<Vec<_>>()
    );
    assert_eq!(state.draw_infection_cards(1), vec![CityCard(2)]);
    assert!(state.is_well_formed());
}

#[test]
fn forecast_in_two_steps() {
    let mut state = game(true);
    state.infection_deck = (0..8).map(CityCard).collect();
    state.forecast_part_1();
    assert_eq!(state.forecasted_infection_deck, (2..8).map(CityCard).collect::<Vec<_>>());
    assert_eq!(state.infection_deck.len(), 8);
    assert_eq!(
        fault(state.forecast_part_2(&vec![0, 1, 2, 3, 4])),
        ActionFault::MalformedSelection
    );
    assert_eq!(
        fault(state.forecast_part_2(&vec![0, 1, 2, 3, 4, 4])),
        ActionFault::MalformedSelection
    );
    assert_eq!(
        fault(state.forecast_part_2(&vec![0, 1, 2, 3, 4, 6])),
        ActionFault::MalformedSelection
    );
    assert!(state.forecast_part_2(&vec![1, 0, 2, 3, 5, 4]).is_ok());
    assert_eq!(
        state.infection_deck,
        vec![0, 1, 3, 2, 4, 5, 7, 6].into_iter().map(CityCard).collect::<Vec<_>>()
    );
    state.infection_deck.truncate(3);
    assert_eq!(
        fault(state.forecast_part_2(&vec![0, 1, 2, 3, 4, 5])),
        ActionFault::TargetOutOfRange
    );
    assert!(state.is_well_formed());
}

#[test]
fn forecast_of_a_small_deck_orders_what_is_there() {
    let mut state = game(true);
    // three cards are left after setup
    assert_eq!(state.infection_deck.len(), 3);
    assert_eq!(
        fault(state.forecast(0, &vec![0, 1, 2, 3, 4, 5])),
        ActionFault::MalformedSelection
    );
    assert!(state.forecasted_infection_deck.is_empty());
    assert!(state.forecast(0, &vec![2, 0, 1]).is_ok());
    assert_eq!(state.infection_deck, vec![CityCard(2), CityCard(0), CityCard(1)]);
    assert!(state.is_well_formed());
}

#[test]
fn orderings() {
    assert!(check_ordering(&vec![]));
    assert!(check_ordering(&vec![0]));
    assert!(check_ordering(&vec![2, 0, 1]));
    assert!(!check_ordering(&vec![1]));
    assert!(!check_ordering(&vec![0, 0]));
    assert!(!check_ordering(&vec![0, 1, 3]));
}

#[test]
fn contingency_planner_plays_from_its_reserve() {
    let mut state = game(true);
    state.agents[1] = Agent::new(AgentName::Contingency);
    state.contingency_planner_event_card = Some(EventCard::OneQuietNight);
    // the card in the reserve of the planner is of no use to another agent
    state.player_hands[0].retain(|c| *c != event(EventCard::OneQuietNight));
    assert_eq!(fault(state.do_event(0, &EventChoice::OneQuietNight)), ActionFault::MissingCard);
    assert_eq!(
        fault(state.do_event(1, &EventChoice::Airlift { city: CityCard(3) })),
        ActionFault::MissingCard
    );
    assert!(state.do_event(1, &EventChoice::OneQuietNight).is_ok());
    assert!(state.skip_next_infect_cities);
    assert_eq!(state.contingency_planner_event_card, None);
    // the card has left the game
    assert!(state.player_discard.is_empty());
    assert_eq!(fault(state.do_event(1, &EventChoice::OneQuietNight)), ActionFault::MissingCard);
    assert!(state.is_well_formed());
}
