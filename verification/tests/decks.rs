use pandemic_rust::city_graph::CityCard;
use pandemic_rust::decks::{draw_from_top, seed_epidemics};
use pandemic_rust::game_enums::{Disease, EventCard, GameEnd, PlayerCard};
use pandemic_rust::pandemic_game::{PandemicGameConfig, PandemicGameState};

fn cities(n: usize) -> Vec<Vec<CityCard>> {
    (0..n).map(|_| Vec::new()).collect()
}

fn colours(n: usize) -> Vec<Disease> {
    (0..n)
        .map(|i| match i % 4 {
            0 => Disease::Blue,
            1 => Disease::Red,
            2 => Disease::Black,
            _ => Disease::Yellow,
        })
        .collect()
}

fn game(ncities: usize, nplayers: i32, nepidemics: i32, testing: bool) -> PandemicGameState {
    let config = PandemicGameConfig::new(
        nplayers,
        Some(nepidemics),
        None,
        None,
        None,
        None,
        Some(testing),
        Some(false),
        Some(false),
        cities(ncities),
        colours(ncities),
    )
    .unwrap();
    PandemicGameState::new(config).unwrap()
}

fn plain_deck(n: usize) -> Vec<PlayerCard> {
    (0..n).map(|i| PlayerCard::CityCard(CityCard(i))).collect()
}

fn epidemic_positions(deck: &[PlayerCard]) -> Vec<usize> {
    deck.iter()
        .enumerate()
        .filter(|(_, c)| **c == PlayerCard::Epidemic)
        .map(|(i, _)| i)
        .collect()
}

#[test]
fn draw_from_top_takes_the_last_card_first() {
    let mut deck = vec![1, 2, 3, 4, 5];
    assert_eq!(draw_from_top(&mut deck, 2), vec![5, 4]);
    assert_eq!(deck, vec![1, 2, 3]);
    assert_eq!(draw_from_top(&mut deck, 0), Vec::<i32>::new());
    assert_eq!(deck, vec![1, 2, 3]);
    assert_eq!(draw_from_top(&mut deck, 7), vec![3, 2, 1]);
    assert!(deck.is_empty());
}

#[test]
fn infection_deck_underflow_gives_the_cards_it_has() {
    let mut state = game(12, 2, 0, true);
    // seeding drew nine of the twelve cards
    assert_eq!(state.infection_deck, vec![CityCard(0), CityCard(1), CityCard(2)]);
    assert_eq!(state.infection_discard.len(), 9);
    let drawn = state.draw_infection_cards(2);
    assert_eq!(drawn, vec![CityCard(2), CityCard(1)]);
    assert_eq!(state.infection_deck, vec![CityCard(0)]);
    assert_eq!(state.infection_discard.len(), 11);
    assert_eq!(state.infection_discard[9..], [CityCard(2), CityCard(1)]);
    let drawn = state.draw_infection_cards(5);
    assert_eq!(drawn, vec![CityCard(0)]);
    assert!(state.infection_deck.is_empty());
    assert_eq!(state.infection_discard.len(), 12);
    let drawn = state.draw_infection_cards(3);
    assert!(drawn.is_empty());
    assert_eq!(state.infection_discard.len(), 12);
    assert!(state.is_well_formed());
}

#[test]
fn player_deck_with_too_few_cards_ends_the_game() {
    let mut state = game(12, 2, 0, true);
    // 12 cities and 5 events, 8 cards dealt
    assert_eq!(state.player_deck.len(), 9);
    let before = state.player_deck.clone();
    assert_eq!(state.draw_player_cards(10), Err(GameEnd::PlayerDeckLimit));
    assert_eq!(state.player_deck, before);
    let drawn = state.draw_player_cards(2).unwrap();
    assert_eq!(
        drawn,
        vec![PlayerCard::CityCard(CityCard(8)), PlayerCard::CityCard(CityCard(7))]
    );
    assert_eq!(state.player_deck.len(), 7);
    let rest = state.draw_player_cards(7).unwrap();
    assert_eq!(rest.len(), 7);
    assert!(state.player_deck.is_empty());
    assert_eq!(state.draw_player_cards(1), Err(GameEnd::PlayerDeckLimit));
    assert_eq!(state.draw_player_cards(0), Ok(vec![]));
    assert!(state.is_well_formed());
}

#[test]
fn starting_hands_come_off_the_top_in_testing_mode() {
    let state = game(12, 3, 0, true);
    assert_eq!(state.player_hands.len(), 3);
    assert_eq!(
        state.player_hands[0],
        vec![
            PlayerCard::EventCard(EventCard::OneQuietNight),
            PlayerCard::EventCard(EventCard::Forecast),
            PlayerCard::EventCard(EventCard::Airlift),
        ]
    );
    assert_eq!(
        state.player_hands[1],
        vec![
            PlayerCard::EventCard(EventCard::ResilientPopulation),
            PlayerCard::EventCard(EventCard::GovernmentGrant),
            PlayerCard::CityCard(CityCard(11)),
        ]
    );
    assert_eq!(
        state.player_hands[2],
        vec![
            PlayerCard::CityCard(CityCard(10)),
            PlayerCard::CityCard(CityCard(9)),
            PlayerCard::CityCard(CityCard(8)),
        ]
    );
    assert_eq!(state.player_deck, plain_deck(8));
    assert!(state.is_well_formed());
}

#[test]
fn epidemics_in_testing_mode_open_each_segment() {
    // 24 city cards and 4 events in 4 segments of 7: the slots 0, 7, 14, 21
    // become the positions 0, 8, 16, 24
    let mut state = game(48, 2, 4, true);
    let mut deck = plain_deck(24);
    deck.extend([
        PlayerCard::EventCard(EventCard::Airlift),
        PlayerCard::EventCard(EventCard::Forecast),
        PlayerCard::EventCard(EventCard::GovernmentGrant),
        PlayerCard::EventCard(EventCard::OneQuietNight),
    ]);
    state.player_deck = deck.clone();
    state.add_epidemic_card_to_player_deck();
    assert_eq!(state.player_deck.len(), 32);
    assert_eq!(epidemic_positions(&state.player_deck), vec![0, 8, 16, 24]);
    let others: Vec<PlayerCard> = state
        .player_deck
        .iter()
        .copied()
        .filter(|c| *c != PlayerCard::Epidemic)
        .collect();
    assert_eq!(others, deck);
    assert!(state.is_well_formed());
}

#[test]
fn epidemics_in_testing_mode_are_the_same_in_every_run() {
    let first = game(48, 2, 4, true);
    let second = game(48, 2, 4, true);
    assert_eq!(first.player_deck, second.player_deck);
    // 45 cards after the deal, segments of 11
    assert_eq!(first.player_deck.len(), 49);
    assert_eq!(epidemic_positions(&first.player_deck), vec![0, 12, 24, 36]);
}

#[test]
fn seeding_with_offsets_puts_each_epidemic_at_its_slot() {
    // 10 cards, 3 epidemics: segments of 3, the last of 3 + 1
    let mut deck = plain_deck(10);
    seed_epidemics(&mut deck, &vec![2, 0, 3]);
    assert_eq!(deck.len(), 13);
    // slots 2, 3, 9 moved up by 0, 1, 2
    assert_eq!(epidemic_positions(&deck), vec![2, 4, 11]);
    let others: Vec<PlayerCard> =
        deck.iter().copied().filter(|c| *c != PlayerCard::Epidemic).collect();
    assert_eq!(others, plain_deck(10));
    assert_eq!(deck[12], PlayerCard::CityCard(CityCard(9)));
}

#[test]
fn seeding_with_one_epidemic_may_use_the_whole_deck() {
    let mut deck = plain_deck(5);
    seed_epidemics(&mut deck, &vec![4]);
    assert_eq!(epidemic_positions(&deck), vec![4]);
    assert_eq!(deck.len(), 6);
}

#[test]
fn random_seeding_keeps_one_epidemic_per_segment() {
    for _ in 0..50 {
        let state = game(48, 4, 5, false);
        // 53 cards, 8 dealt: 45 cards in 5 segments of 9
        assert_eq!(state.player_deck.len(), 50);
        let positions = epidemic_positions(&state.player_deck);
        assert_eq!(positions.len(), 5);
        for (i, position) in positions.iter().enumerate() {
            let slot = position - i;
            assert!(slot < 45);
            assert_eq!(slot / 9, i);
        }
        assert!(state.is_well_formed());
    }
}

#[test]
fn shuffled_decks_hold_the_same_cards() {
    let state = game(48, 2, 0, false);
    let mut infection: Vec<CityCard> = state.infection_deck.clone();
    infection.extend(state.infection_discard.iter().copied());
    assert_eq!(infection.len(), 48);
    let identity: Vec<CityCard> = (0..48).map(CityCard).collect();
    let mut sorted = infection.clone();
    sorted.sort_by_key(|c| c.0);
    assert_eq!(sorted, identity);
    let mut players: Vec<PlayerCard> = state.player_deck.clone();
    assert_eq!(players.len(), 45);
    players.sort_by_key(|c| match c {
        PlayerCard::CityCard(city) => city.0,
        _ => usize::MAX,
    });
    players.dedup();
    assert_eq!(players.len(), 45);
    assert!(state.is_well_formed());
}

#[test]
fn shuffling_changes_the_order() {
    let mut state = game(48, 2, 0, true);
    state.infection_deck = (0..48).map(CityCard).collect();
    let before = state.infection_deck.clone();
    let mut moved = false;
    for _ in 0..5 {
        state.shuffle_infection_deck();
        moved = moved || state.infection_deck != before;
    }
    assert!(moved);
    let mut sorted = state.infection_deck.clone();
    sorted.sort_by_key(|c| c.0);
    assert_eq!(sorted, before);
    state.infection_discard = (0..48).map(CityCard).collect();
    let mut moved = false;
    for _ in 0..5 {
        state.shuffle_infection_discard();
        moved = moved || state.infection_discard != before;
    }
    assert!(moved);
    assert!(state.is_well_formed());
}

#[test]
fn roles_are_distinct_and_carry_their_actions() {
    for _ in 0..20 {
        let state = game(48, 4, 4, false);
        assert_eq!(state.agents.len(), 4);
        for i in 0..4 {
            for j in 0..i {
                assert_ne!(state.agents[i].agent_type, state.agents[j].agent_type);
            }
            assert!(state.agents[i].is_well_formed());
        }
        assert!(state.current_player_i < 4);
        assert!(state.is_well_formed());
    }
}

#[test]
fn a_game_without_epidemics_has_none_in_its_deck() {
    for nepidemics in [0, -1, -7] {
        let state = game(12, 2, nepidemics, true);
        assert!(epidemic_positions(&state.player_deck).is_empty());
        assert_eq!(state.player_deck, plain_deck(9));
        assert!(state.is_well_formed());
    }
}
