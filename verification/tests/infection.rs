use pandemic_rust::agent::{ActionEndState, ActionFault, Agent, AgentName};
use pandemic_rust::city_graph::CityCard;
use pandemic_rust::game_enums::{Disease, GameEnd, PerDisease};
use pandemic_rust::pandemic_game::{PandemicGameConfig, PandemicGameState, TurnPhase};

const A: CityCard = CityCard(0);
const B: CityCard = CityCard(1);
const C: CityCard = CityCard(2);

fn path_graph() -> Vec<Vec<CityCard>> {
    vec![vec![B], vec![A, C], vec![B]]
}

fn triangle_graph() -> Vec<Vec<CityCard>> {
    vec![vec![B, C], vec![A, C], vec![A, B]]
}

/// A two-player game in testing mode without epidemics. Seeding has put
/// three blue cubes in each of the three cities.
fn game_on(graph: Vec<Vec<CityCard>>, max_cubes: u32, max_outbreaks: u32) -> PandemicGameState {
    let config = PandemicGameConfig::new(
        2,
        Some(0),
        None,
        Some(max_cubes),
        Some(max_outbreaks),
        None,
        Some(true),
        Some(false),
        Some(false),
        graph,
        vec![Disease::Blue, Disease::Blue, Disease::Blue],
    )
    .unwrap();
    PandemicGameState::new(config).unwrap()
}

fn clear(state: &mut PandemicGameState, city: CityCard) {
    assert!(state.treat_disease_internal(city, Disease::Blue, true).is_ok());
}

fn blue(state: &PandemicGameState, city: CityCard) -> u32 {
    state.cur_city_diseases[city.0].blue
}

#[test]
fn seeding_places_three_two_and_one_cubes() {
    let graph: Vec<Vec<CityCard>> = (0..12).map(|_| Vec::new()).collect();
    let diseases = vec![
        Disease::Blue,
        Disease::Red,
        Disease::Black,
        Disease::Yellow,
        Disease::Blue,
        Disease::Red,
        Disease::Black,
        Disease::Yellow,
        Disease::Blue,
        Disease::Red,
        Disease::Black,
        Disease::Yellow,
    ];
    let config = PandemicGameConfig::new(
        2,
        Some(0),
        None,
        None,
        None,
        None,
        Some(true),
        Some(false),
        Some(false),
        graph,
        diseases,
    )
    .unwrap();
    let state = PandemicGameState::new(config).unwrap();
    // cards are drawn from the end of the deck: cities 11, 10, ..., 3
    let drawn: Vec<CityCard> = (3..12).rev().map(CityCard).collect();
    assert_eq!(state.infection_discard, drawn);
    assert_eq!(state.infection_deck, vec![CityCard(0), CityCard(1), CityCard(2)]);
    let none = PerDisease { blue: 0, red: 0, black: 0, yellow: 0 };
    assert_eq!(state.cur_city_diseases[11], PerDisease { yellow: 3, ..none });
    assert_eq!(state.cur_city_diseases[10], PerDisease { black: 3, ..none });
    assert_eq!(state.cur_city_diseases[9], PerDisease { red: 3, ..none });
    assert_eq!(state.cur_city_diseases[8], PerDisease { blue: 2, ..none });
    assert_eq!(state.cur_city_diseases[7], PerDisease { yellow: 2, ..none });
    assert_eq!(state.cur_city_diseases[6], PerDisease { black: 2, ..none });
    assert_eq!(state.cur_city_diseases[5], PerDisease { red: 1, ..none });
    assert_eq!(state.cur_city_diseases[4], PerDisease { blue: 1, ..none });
    assert_eq!(state.cur_city_diseases[3], PerDisease { yellow: 1, ..none });
    assert_eq!(state.cur_city_diseases[2], none);
    assert_eq!(state.cur_city_diseases[1], none);
    assert_eq!(state.cur_city_diseases[0], none);
    assert_eq!(
        state.total_cubes_on_board_per_disease,
        PerDisease { blue: 3, red: 4, black: 5, yellow: 6 }
    );
    assert_eq!(state.outbreaks, 0);
    assert_eq!(state.research_stations[0], true);
    assert!(state.research_stations[1..].iter().all(|s| !s));
    assert_eq!(state.player_locations, vec![CityCard(0), CityCard(0)]);
    assert!(state.is_well_formed());
}

#[test]
fn cube_is_placed_below_three() {
    let mut state = game_on(path_graph(), 24, 8);
    clear(&mut state, A);
    assert_eq!(blue(&state, A), 0);
    assert_eq!(state.total_cubes_on_board_per_disease.blue, 6);
    assert_eq!(state.add_disease_cube(A, Disease::Blue, false), Ok(()));
    assert_eq!(blue(&state, A), 1);
    assert_eq!(state.add_disease_cube(A, Disease::Blue, true), Ok(()));
    assert_eq!(state.add_disease_cube(A, Disease::Blue, false), Ok(()));
    assert_eq!(blue(&state, A), 3);
    assert_eq!(state.total_cubes_on_board_per_disease.blue, 9);
    assert_eq!(state.outbreaks, 0);
    // other colours are untouched
    assert_eq!(state.cur_city_diseases[0].red, 0);
    assert_eq!(state.total_cubes_on_board_per_disease.red, 0);
    assert!(state.is_well_formed());
}

#[test]
fn outbreak_on_path_spreads_to_both_neighbours() {
    let mut state = game_on(path_graph(), 24, 8);
    clear(&mut state, A);
    clear(&mut state, C);
    assert_eq!((blue(&state, A), blue(&state, B), blue(&state, C)), (0, 3, 0));
    assert_eq!(state.add_disease_cube(B, Disease::Blue, false), Ok(()));
    assert_eq!(state.outbreaks, 1);
    assert_eq!((blue(&state, A), blue(&state, B), blue(&state, C)), (1, 3, 1));
    assert_eq!(state.total_cubes_on_board_per_disease.blue, 5);
    assert!(state.is_well_formed());
}

#[test]
fn chain_reaction_counts_each_city_once() {
    // a triangle with three cubes everywhere: every city breaks out once
    let mut state = game_on(triangle_graph(), 24, 8);
    assert_eq!(state.add_disease_cube(A, Disease::Blue, false), Ok(()));
    assert_eq!(state.outbreaks, 3);
    assert_eq!((blue(&state, A), blue(&state, B), blue(&state, C)), (3, 3, 3));
    assert_eq!(state.total_cubes_on_board_per_disease.blue, 9);
    assert!(state.is_well_formed());
}

#[test]
fn chain_reaction_reaches_a_city_filled_by_the_cascade() {
    // A-B, A-C, B-C; C starts at 2: B's outbreak fills it, A's cube breaks it out
    let mut state = game_on(triangle_graph(), 24, 8);
    clear(&mut state, C);
    assert_eq!(state.add_disease_cube(C, Disease::Blue, false), Ok(()));
    assert_eq!(state.add_disease_cube(C, Disease::Blue, false), Ok(()));
    assert_eq!(blue(&state, C), 2);
    assert_eq!(state.add_disease_cube(A, Disease::Blue, false), Ok(()));
    // A breaks out, then B (first neighbour of A), which fills C; the cube that
    // A sends to C then breaks C out
    assert_eq!(state.outbreaks, 3);
    assert_eq!((blue(&state, A), blue(&state, B), blue(&state, C)), (3, 3, 3));
    assert_eq!(state.total_cubes_on_board_per_disease.blue, 9);
    assert!(state.is_well_formed());
}

#[test]
fn neighbour_gains_a_cube_from_each_outbreak() {
    // path A-B-C with B empty: A and C broken out one after the other
    let mut state = game_on(path_graph(), 24, 8);
    clear(&mut state, B);
    assert_eq!(state.add_disease_cube(A, Disease::Blue, false), Ok(()));
    assert_eq!(state.add_disease_cube(C, Disease::Blue, false), Ok(()));
    assert_eq!(state.outbreaks, 2);
    assert_eq!((blue(&state, A), blue(&state, B), blue(&state, C)), (3, 2, 3));
    assert!(state.is_well_formed());
}

/// Nine blue cities in testing mode with a limit of 18 cubes: seeding places
/// 3, 3, 3, 2, 2, 2, 1, 1, 1 cubes on the cities 8 down to 0, which is the limit.
fn full_board(graph: Vec<Vec<CityCard>>) -> PandemicGameState {
    let config = PandemicGameConfig::new(
        2,
        Some(0),
        None,
        Some(18),
        None,
        None,
        Some(true),
        Some(false),
        Some(false),
        graph,
        (0..9).map(|_| Disease::Blue).collect(),
    )
    .unwrap();
    PandemicGameState::new(config).unwrap()
}

#[test]
fn cube_that_would_exceed_the_limit_is_not_placed() {
    let mut state = full_board((0..9).map(|_| Vec::new()).collect());
    assert_eq!(state.total_cubes_on_board_per_disease.blue, 18);
    assert_eq!(blue(&state, CityCard(0)), 1);
    let before = state.cur_city_diseases.clone();
    assert_eq!(
        state.add_disease_cube(CityCard(0), Disease::Blue, false),
        Err(GameEnd::DiseaseCubeLimit)
    );
    assert_eq!(state.total_cubes_on_board_per_disease.blue, 18);
    assert_eq!(state.cur_city_diseases, before);
    assert_eq!(state.outbreaks, 0);
    assert!(state.is_well_formed());
}

#[test]
fn cube_fits_again_once_one_is_removed() {
    let mut state = full_board((0..9).map(|_| Vec::new()).collect());
    assert!(state.treat_disease_internal(CityCard(8), Disease::Blue, false).is_ok());
    assert_eq!(state.total_cubes_on_board_per_disease.blue, 17);
    assert_eq!(state.add_disease_cube(CityCard(0), Disease::Blue, false), Ok(()));
    assert_eq!(blue(&state, CityCard(0)), 2);
    assert_eq!(state.total_cubes_on_board_per_disease.blue, 18);
    assert_eq!(
        state.add_disease_cube(CityCard(0), Disease::Blue, false),
        Err(GameEnd::DiseaseCubeLimit)
    );
    assert_eq!(blue(&state, CityCard(0)), 2);
    assert!(state.is_well_formed());
}

#[test]
fn cascade_stops_at_the_cube_limit() {
    // city 8 holds three cubes and has city 0 for neighbour
    let mut graph: Vec<Vec<CityCard>> = (0..9).map(|_| Vec::new()).collect();
    graph[8].push(CityCard(0));
    graph[0].push(CityCard(8));
    let mut state = full_board(graph);
    let before = state.cur_city_diseases.clone();
    assert_eq!(
        state.add_disease_cube(CityCard(8), Disease::Blue, false),
        Err(GameEnd::DiseaseCubeLimit)
    );
    // the outbreak of city 8 was counted before its cube for city 0 met the limit
    assert_eq!(state.outbreaks, 1);
    assert_eq!(state.cur_city_diseases, before);
    assert_eq!(state.total_cubes_on_board_per_disease.blue, 18);
    assert!(state.is_well_formed());
}

#[test]
fn outbreak_limit_ends_the_game_when_reached() {
    let mut state = game_on(triangle_graph(), 24, 2);
    // three cities would break out, the second reaches the limit
    assert_eq!(
        state.add_disease_cube(A, Disease::Blue, false),
        Err(GameEnd::OutbreakLimit)
    );
    assert_eq!(state.outbreaks, 2);
    // at the limit nothing more is counted
    assert_eq!(
        state.add_disease_cube(A, Disease::Blue, false),
        Err(GameEnd::OutbreakLimit)
    );
    assert_eq!(state.outbreaks, 2);
    assert_eq!(state.increment_outbreak(), Err(GameEnd::OutbreakLimit));
    assert_eq!(state.outbreaks, 2);
    assert!(state.is_well_formed());
}

#[test]
fn increment_outbreak_counts_up_to_the_limit() {
    let mut state = game_on(path_graph(), 24, 3);
    assert_eq!(state.increment_outbreak(), Ok(()));
    assert_eq!(state.outbreaks, 1);
    assert_eq!(state.increment_outbreak(), Ok(()));
    assert_eq!(state.outbreaks, 2);
    assert_eq!(state.increment_outbreak(), Err(GameEnd::OutbreakLimit));
    assert_eq!(state.outbreaks, 3);
    assert!(state.is_well_formed());
}

#[test]
fn eradicated_means_no_cube_on_the_board() {
    let mut state = game_on(path_graph(), 24, 8);
    assert!(!state.is_eradicated(Disease::Blue));
    assert!(state.is_eradicated(Disease::Red));
    assert!(state.is_cured(Disease::Red));
    assert!(!state.is_cured(Disease::Blue));
    clear(&mut state, A);
    clear(&mut state, B);
    clear(&mut state, C);
    assert!(state.is_eradicated(Disease::Blue));
    assert!(state.is_cured(Disease::Blue));
    state.cured_diseases.black = true;
    assert!(state.is_cured(Disease::Black));
    assert!(state.is_well_formed());
}

#[test]
fn treating_removes_one_cube_or_all() {
    let mut state = game_on(path_graph(), 24, 8);
    assert!(state.treat_disease_internal(A, Disease::Blue, false).is_ok());
    assert_eq!(blue(&state, A), 2);
    assert_eq!(state.total_cubes_on_board_per_disease.blue, 8);
    assert!(state.treat_disease_internal(A, Disease::Blue, true).is_ok());
    assert_eq!(blue(&state, A), 0);
    assert_eq!(state.total_cubes_on_board_per_disease.blue, 6);
    state.cured_diseases.blue = true;
    assert!(state.treat_disease_internal(B, Disease::Blue, false).is_ok());
    assert_eq!(blue(&state, B), 0);
    assert_eq!(state.total_cubes_on_board_per_disease.blue, 3);
    let none = state.treat_disease_internal(B, Disease::Blue, false);
    assert!(matches!(
        none,
        Err(ActionEndState::Error(ref e)) if e.kind == ActionFault::NoCubesToTreat
    ));
    let nowhere = state.treat_disease_internal(CityCard(3), Disease::Blue, false);
    assert!(matches!(
        nowhere,
        Err(ActionEndState::Error(ref e)) if e.kind == ActionFault::TargetOutOfRange
    ));
    assert!(state.is_well_formed());
}

/// Two cities next to each other with three cubes each, set up by hand: the
/// deck of so small a board cannot fill the starting hands.
fn two_full_cities() -> PandemicGameState {
    let config = PandemicGameConfig::new(
        2,
        Some(0),
        None,
        None,
        None,
        None,
        Some(true),
        Some(false),
        Some(false),
        vec![vec![B], vec![A]],
        vec![Disease::Blue, Disease::Blue],
    )
    .unwrap();
    assert!(!config.can_deal());
    let full = PerDisease { blue: 3, red: 0, black: 0, yellow: 0 };
    PandemicGameState {
        cur_city_diseases: vec![full, full],
        player_locations: vec![A, A],
        research_stations: vec![true, false],
        total_cubes_on_board_per_disease: PerDisease { blue: 6, red: 0, black: 0, yellow: 0 },
        infection_deck: vec![],
        infection_discard: vec![A, B],
        player_deck: vec![],
        player_discard: vec![],
        player_hands: vec![vec![], vec![]],
        cured_diseases: PerDisease { blue: false, red: false, black: false, yellow: false },
        infection_rate_i: 0,
        outbreaks: 0,
        forecasted_infection_deck: vec![],
        skip_next_infect_cities: false,
        current_player_i: 0,
        agents: vec![Agent::new(AgentName::Medic), Agent::new(AgentName::Scientist)],
        contingency_planner_event_card: None,
        phase: TurnPhase::AwaitingActions,
        drawn_cards: vec![],
        intensify_pending: false,
        event_seat: 0,
        config,
    }
}

#[test]
fn each_placement_starts_with_no_city_broken_out() {
    let mut state = two_full_cities();
    assert!(state.is_well_formed());
    assert_eq!(state.add_disease_cube(A, Disease::Blue, false), Ok(()));
    assert_eq!(state.outbreaks, 2);
    // the cities that broke out in the first call break out again in the second
    assert_eq!(state.add_disease_cube(A, Disease::Blue, false), Ok(()));
    assert_eq!(state.outbreaks, 4);
    assert_eq!((blue(&state, A), blue(&state, B)), (3, 3));
    assert_eq!(state.total_cubes_on_board_per_disease.blue, 6);
    // movement and treatment are open to the small board as well
    assert!(state.drive(0, B).is_ok());
    assert!(state.treat_disease(0, Disease::Blue).is_ok());
    assert_eq!(blue(&state, B), 0);
    assert!(state.is_well_formed());
}
