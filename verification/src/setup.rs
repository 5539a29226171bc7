//! Drawing cards, and building a game: roles, decks, hands and the seeded board.
use vstd::prelude::*;
use vstd::seq_lib::*;

use crate::agent::{role_index, Agent, AgentName, N_AGENT_NAMES};
use crate::board::{
    cascade, cubes_ok, cubes_on_board, lemma_cascade_below_three, lemma_cubes_grow_with_cities,
    lemma_cubes_on_empty_board,
    lemma_distinct_cities_bound,
};
use crate::chance::{random_below, shuffle};
use crate::city_graph::{cities_in_range, CityCard};
use crate::decks::{
    at_most, below_top, draw_from_top, epidemics_in, lemma_epidemics_split, lemma_no_epidemics,
    lemma_seeded, offsets_ok, seed_epidemics, seeded, segment_size, top_cards, zero_offsets,
};
use crate::infection::cascade_result;
use crate::game_enums::{all_events, Disease, EventCard, GameEnd, PerDisease, PlayerCard};
use crate::pandemic_game::{
    agents_ok, hands_ok, rates_ok, seed_cubes, seed_cubes_upto, seed_draws, starting_hand_size,
    GameView, PandemicGameConfig, PandemicGameState, TurnPhase, SETUP_INFECTION_CARDS,
};

verus! {

/// No two agents have the same role.
pub open spec fn distinct_roles(agents: Seq<Agent>) -> bool {
    forall|i: int, j: int|
        0 <= i < agents.len() && 0 <= j < agents.len() && i != j ==> agents[i].agent_type
            != agents[j].agent_type
}

impl PandemicGameState {
    /// Draws up to `ncards` infection cards and puts them on the discard
    /// pile, first drawn first. A deck that runs out gives what it has.
    pub fn draw_infection_cards(&mut self, ncards: usize) -> (cards: Vec<CityCard>)
        ensures
            cards@ == top_cards(
                old(self)@.infection_deck,
                at_most(ncards as int, old(self)@.infection_deck.len() as int),
            ),
            final(self)@ == (GameView {
                infection_deck: below_top(
                    old(self)@.infection_deck,
                    at_most(ncards as int, old(self)@.infection_deck.len() as int),
                ),
                infection_discard: old(self)@.infection_discard + cards@,
                ..old(self)@
            }),
            old(self).wf() ==> final(self).wf(),
            old(self).wf() ==> cities_in_range(cards@, old(self)@.config.ncities()),
    {
        let cards = draw_from_top(&mut self.infection_deck, ncards);
        let mut i: usize = 0;
        while i < cards.len()
            invariant
                i <= cards.len(),
                self@ == (GameView {
                    infection_deck: self@.infection_deck,
                    infection_discard: old(self)@.infection_discard + cards@.subrange(0, i as int),
                    ..old(self)@
                }),
                self@.infection_deck == below_top(
                    old(self)@.infection_deck,
                    at_most(ncards as int, old(self)@.infection_deck.len() as int),
                ),
            decreases cards.len() - i,
        {
            self.infection_discard.push(cards[i]);
            i += 1;
            assert(self@.infection_discard =~= old(self)@.infection_discard + cards@.subrange(
                0,
                i as int,
            ));
        }
        assert(cards@.subrange(0, cards@.len() as int) =~= cards@);
        proof {
            if old(self).wf() {
                let n = old(self)@.config.ncities();
                let deck = old(self)@.infection_deck;
                let k = at_most(ncards as int, deck.len() as int);
                assert forall|j: int| 0 <= j < cards@.len() implies (#[trigger] cards@[j]).0 < n by {
                    assert(cards@[j] == deck[deck.len() - 1 - j]);
                }
                assert forall|j: int| 0 <= j < self@.infection_discard.len() implies (
                #[trigger] self@.infection_discard[j]).0 < n by {
                    if j < old(self)@.infection_discard.len() {
                        assert(self@.infection_discard[j] == old(self)@.infection_discard[j]);
                    } else {
                        assert(self@.infection_discard[j] == cards@[j - old(
                            self,
                        )@.infection_discard.len()]);
                    }
                }
                assert forall|j: int| 0 <= j < self@.infection_deck.len() implies (
                #[trigger] self@.infection_deck[j]).0 < n by {
                    assert(self@.infection_deck[j] == deck[j]);
                }
            }
        }
        cards
    }

    /// Draws `n` player cards, first drawn first. The game ends, with nothing
    /// drawn, if the deck holds fewer than `n` cards.
    pub fn draw_player_cards(&mut self, n: u32) -> (result: Result<Vec<PlayerCard>, GameEnd>)
        ensures
            n > old(self)@.player_deck.len() ==> result == Err::<Vec<PlayerCard>, GameEnd>(
                GameEnd::PlayerDeckLimit,
            ) && final(self)@ == old(self)@,
            n <= old(self)@.player_deck.len() ==> result is Ok && result->Ok_0@ == top_cards(
                old(self)@.player_deck,
                n as int,
            ) && final(self)@ == (GameView {
                player_deck: below_top(old(self)@.player_deck, n as int),
                ..old(self)@
            }),
            old(self).wf() ==> final(self).wf(),
    {
        if n as usize > self.player_deck.len() {
            return Err(GameEnd::PlayerDeckLimit);
        }
        proof {
            lemma_epidemics_split(self@.player_deck, n as int);
        }
        let cards = draw_from_top(&mut self.player_deck, n as usize);
        Ok(cards)
    }

    /// Shuffles the infection deck.
    pub fn shuffle_infection_deck(&mut self)
        ensures
            final(self)@ == (GameView { infection_deck: final(self)@.infection_deck, ..old(self)@ }),
            final(self)@.infection_deck.to_multiset() == old(self)@.infection_deck.to_multiset(),
            final(self)@.infection_deck.len() == old(self)@.infection_deck.len(),
            old(self).wf() ==> final(self).wf(),
    {
        shuffle(&mut self.infection_deck);
        proof {
            lemma_same_cards_in_range(
                old(self)@.infection_deck,
                self@.infection_deck,
                old(self)@.config.ncities(),
            );
        }
    }

    /// Shuffles the infection discard pile.
    pub fn shuffle_infection_discard(&mut self)
        ensures
            final(self)@ == (GameView {
                infection_discard: final(self)@.infection_discard,
                ..old(self)@
            }),
            final(self)@.infection_discard.to_multiset() == old(self)@.infection_discard.to_multiset(),
            final(self)@.infection_discard.len() == old(self)@.infection_discard.len(),
            old(self).wf() ==> final(self).wf(),
    {
        shuffle(&mut self.infection_discard);
        proof {
            lemma_same_cards_in_range(
                old(self)@.infection_discard,
                self@.infection_discard,
                old(self)@.config.ncities(),
            );
        }
    }
}

impl PandemicGameState {
    /// Seats as many agents as the game has players, each with a role drawn
    /// at random and no role given twice.
    pub fn select_roles(&mut self)
        requires
            2 <= old(self)@.config.nplayers <= 4,
        ensures
            final(self)@ == (GameView { agents: final(self)@.agents, ..old(self)@ }),
            agents_ok(&final(self)@.config, final(self)@.agents),
            distinct_roles(final(self)@.agents),
    {
        let mut role_indices: Vec<usize> = Vec::new();
        let mut r: usize = 0;
        while r < N_AGENT_NAMES
            invariant
                r <= N_AGENT_NAMES,
                role_indices@.len() == r,
                forall|k: int| 0 <= k < r ==> role_indices@[k] == k,
            decreases N_AGENT_NAMES - r,
        {
            role_indices.push(r);
            r += 1;
        }
        let ghost ordered = role_indices@;
        shuffle(&mut role_indices);
        proof {
            lemma_same_items_distinct(ordered, role_indices@);
            assert forall|k: int| 0 <= k < role_indices@.len() implies role_indices@[k]
                < N_AGENT_NAMES by {
                let v = role_indices@[k];
                assert(role_indices@.contains(v));
                to_multiset_contains(role_indices@, v);
                to_multiset_contains(ordered, v);
                let j = ordered.index_of(v);
                assert(ordered[j] == j);
            }
        }
        let nplayers = self.config.nplayers as usize;
        let mut agents: Vec<Agent> = Vec::new();
        let mut p: usize = 0;
        while p < nplayers
            invariant
                p <= nplayers <= 4,
                role_indices@.len() == N_AGENT_NAMES,
                role_indices@.no_duplicates(),
                forall|k: int| 0 <= k < role_indices@.len() ==> role_indices@[k] < N_AGENT_NAMES,
                agents@.len() == p,
                forall|k: int|
                    0 <= k < p ==> (#[trigger] agents@[k]).wf() && role_index(
                        agents@[k].agent_type,
                    ) == role_indices@[k],
            decreases nplayers - p,
        {
            let agent_type = AgentName::from_index(role_indices[p]).unwrap();
            agents.push(Agent::new(agent_type));
            p += 1;
        }
        self.agents = agents;
        proof {
            assert forall|i: int, j: int|
                0 <= i < self@.agents.len() && 0 <= j < self@.agents.len() && i != j implies self@.agents[i].agent_type
                != self@.agents[j].agent_type by {
                assert(self@.agents[i].wf() && self@.agents[j].wf());
                assert(role_indices@[i] != role_indices@[j]);
            }
        }
    }

    /// Seeds the player deck with as many epidemics as the game has, one in
    /// each segment of the deck: at the start of the segment in testing mode,
    /// at a random place of it otherwise.
    pub fn add_epidemic_card_to_player_deck(&mut self)
        requires
            1 <= old(self)@.config.nepidemics <= old(self)@.player_deck.len(),
        ensures
            exists|offsets: Seq<usize>| #[trigger] old(self)@.seeded_to(final(self)@, offsets),
            final(self)@.player_deck.len() == old(self)@.player_deck.len() + old(
                self,
            )@.config.nepidemics,
            epidemics_in(final(self)@.player_deck) == epidemics_in(old(self)@.player_deck) + old(
                self,
            )@.config.nepidemics,
    {
        let nepidemics: usize = self.config.nepidemics as usize;
        let len: usize = self.player_deck.len();
        let segment: usize = len / nepidemics;
        assert(segment + len % nepidemics <= len) by (nonlinear_arith)
            requires
                segment == (len as int) / (nepidemics as int),
                1 <= nepidemics,
        ;
        let last_segment: usize = segment + len % nepidemics;
        proof {
            assert(segment >= 1) by (nonlinear_arith)
                requires
                    segment == (len as int) / (nepidemics as int),
                    1 <= nepidemics <= len,
            ;
        }
        let mut offsets: Vec<usize> = Vec::new();
        let mut i: usize = 0;
        while i < nepidemics
            invariant
                i <= nepidemics,
                1 <= nepidemics,
                offsets@.len() == i,
                segment >= 1,
                segment == segment_size(len as int, nepidemics as int),
                last_segment == segment + len % nepidemics,
                forall|k: int|
                    0 <= k < i && k < nepidemics - 1 ==> (#[trigger] offsets@[k]) < segment,
                i == nepidemics ==> offsets@[nepidemics - 1] < last_segment,
                self.config.testing ==> forall|k: int| 0 <= k < i ==> offsets@[k] == 0,
                self.config == old(self).config,
            decreases nepidemics - i,
        {
            let offset: usize = if self.config.testing {
                0
            } else if i + 1 < nepidemics {
                random_below(segment)
            } else {
                random_below(last_segment)
            };
            offsets.push(offset);
            i += 1;
        }
        proof {
            assert(offsets_ok(len as int, offsets@));
            lemma_seeded(self@.player_deck, offsets@);
            if self.config.testing {
                assert(offsets@ =~= zero_offsets(nepidemics as int));
            }
        }
        seed_epidemics(&mut self.player_deck, &offsets);
        assert(old(self)@.seeded_to(self@, offsets@));
    }
}

impl GameView {
    /// Whether `after` is the game with its player deck seeded with one
    /// epidemic per offset: as many offsets as the game has epidemics, each
    /// inside its segment, and each at the start of its segment in testing
    /// mode.
    pub open spec fn seeded_to(self, after: GameView, offsets: Seq<usize>) -> bool {
        &&& offsets.len() == self.config.nepidemics
        &&& offsets_ok(self.player_deck.len() as int, offsets)
        &&& self.config.testing ==> offsets == zero_offsets(self.config.nepidemics as int)
        &&& after == (GameView { player_deck: seeded(self.player_deck, offsets), ..self })
    }
}

/// Whether `deck` is what is left of the undealt player deck once the
/// starting hands are dealt, put in the order `rest` and seeded with the
/// epidemics of the game at `offsets`. The order is that of the undealt deck
/// in testing mode, and the offsets open their segments there.
pub open spec fn dealt_and_seeded(
    config: &PandemicGameConfig,
    undealt: Seq<PlayerCard>,
    deck: Seq<PlayerCard>,
    rest: Seq<PlayerCard>,
    offsets: Seq<usize>,
) -> bool {
    let left = below_top(undealt, config.nplayers * config.starting_cards_per_hand);
    &&& rest.to_multiset() == left.to_multiset()
    &&& rest.len() == left.len()
    &&& config.testing ==> rest == left
    &&& if config.nepidemics > 0 {
        &&& offsets.len() == config.nepidemics
        &&& offsets_ok(rest.len() as int, offsets)
        &&& config.testing ==> offsets == zero_offsets(config.nepidemics as int)
        &&& deck == seeded(rest, offsets)
    } else {
        deck == rest
    }
}

/// Whether `deck` is a player deck that the game can start with: the cards
/// left of the undealt deck in some order, seeded with the epidemics of the
/// game, one in each segment.
pub open spec fn is_starting_deck(
    config: &PandemicGameConfig,
    undealt: Seq<PlayerCard>,
    deck: Seq<PlayerCard>,
) -> bool {
    exists|rest: Seq<PlayerCard>, offsets: Seq<usize>| #[trigger]
        dealt_and_seeded(config, undealt, deck, rest, offsets)
}

/// Every city of a board of `ncities` cities, in the order of the table.
pub open spec fn all_cities(ncities: int) -> Seq<CityCard> {
    Seq::new(ncities as nat, |c: int| CityCard(c as usize))
}

/// The player deck before it is dealt from: a city card for each card of the
/// infection deck, in its order, and then the event cards.
pub open spec fn undealt_player_deck(
    cities: Seq<CityCard>,
    events: Seq<EventCard>,
) -> Seq<PlayerCard> {
    Seq::new(
        cities.len() + events.len(),
        |i: int|
            if i < cities.len() {
                PlayerCard::CityCard(cities[i])
            } else {
                PlayerCard::EventCard(events[i - cities.len()])
            },
    )
}

/// The player deck of a game in testing mode, once the starting hands are
/// dealt: the undealt deck without the cards of the hands, in its order, with
/// an epidemic at the start of each of its segments.
pub open spec fn testing_player_deck(config: &PandemicGameConfig) -> Seq<PlayerCard> {
    let rest = below_top(
        undealt_player_deck(all_cities(config.ncities()), config.events@),
        config.nplayers * config.starting_cards_per_hand,
    );
    if config.nepidemics > 0 {
        seeded(rest, zero_offsets(config.nepidemics as int))
    } else {
        rest
    }
}

/// When setting up a game ends it, and how.
///
/// The game ends on the player deck exactly when the deck cannot fill the
/// starting hands or is then left with fewer cards than the game has
/// epidemics. Otherwise it can end on the cube limit only, and only if the
/// limit is below all the cubes that seeding places; in testing mode, where
/// no deck is shuffled, it does so exactly when the cities at the end of the
/// table take more cubes of some disease than the limit allows.
pub open spec fn setup_end_fits<T>(config: &PandemicGameConfig, result: Result<T, GameEnd>) -> bool {
    if !config.spec_can_deal() {
        result == Err::<T, GameEnd>(GameEnd::PlayerDeckLimit)
    } else {
        &&& result is Err ==> result == Err::<T, GameEnd>(GameEnd::DiseaseCubeLimit)
            && config.max_disease_cubes_per_color < seed_cubes_upto(seed_draws(config.ncities()))
        &&& config.testing ==> (result is Err <==> seeding_passes_limit(
            config,
            testing_seed_cards(config),
        ))
    }
}

/// The infection cards that seeding draws in testing mode, where the deck is
/// not shuffled: the last cities of the table, the last city first.
pub open spec fn testing_seed_cards(config: &PandemicGameConfig) -> Seq<CityCard> {
    top_cards(all_cities(config.ncities()), seed_draws(config.ncities()))
}

/// The starting hands dealt from a deck: the agent at seat `i` gets the
/// `size` cards on top once the seats before it have been dealt.
pub open spec fn dealt_hands(
    deck: Seq<PlayerCard>,
    nagents: int,
    size: int,
) -> Seq<Seq<PlayerCard>> {
    Seq::new(nagents as nat, |i: int| top_cards(below_top(deck, i * size), size))
}

/// Cubes on the board while it is seeded: the cities drawn before position
/// `k` hold their cubes, the city at position `k` holds `j` cubes, and every
/// other city holds none. All cubes of a city are of its own colour.
pub open spec fn seeding_cubes(
    config: &PandemicGameConfig,
    drawn: Seq<CityCard>,
    k: int,
    j: int,
) -> Seq<PerDisease<u32>> {
    Seq::new(
        config.ncities() as nat,
        |c: int|
            {
                let card = CityCard(c as usize);
                let none = PerDisease { blue: 0u32, red: 0u32, black: 0u32, yellow: 0u32 };
                if drawn.contains(card) {
                    let at = drawn.index_of(card);
                    let count = if at < k {
                        seed_cubes(at)
                    } else if at == k {
                        j
                    } else {
                        0
                    };
                    none.spec_set(config.disease_of(card), count as u32)
                } else {
                    none
                }
            },
    )
}

/// Whether seeding the cities drawn would put more cubes of some disease on
/// the board than the limit allows.
pub open spec fn seeding_passes_limit(config: &PandemicGameConfig, drawn: Seq<CityCard>) -> bool {
    exists|d: Disease| #[trigger]
        cubes_on_board(seeded_cubes(config, drawn), d) > config.max_disease_cubes_per_color
}

/// Cubes on a seeded board: the city drawn at position `k` holds three, two
/// or one cube of its colour, for the first, second and last three cards.
pub open spec fn seeded_cubes(
    config: &PandemicGameConfig,
    drawn: Seq<CityCard>,
) -> Seq<PerDisease<u32>> {
    seeding_cubes(config, drawn, drawn.len() as int, 0)
}

impl GameView {
    /// The game with an empty board, a research station in the first city of
    /// the table only, and every agent there.
    pub open spec fn with_fresh_board(self) -> GameView {
        GameView {
            cubes: Seq::new(
                self.config.ncities() as nat,
                |c: int| PerDisease { blue: 0u32, red: 0u32, black: 0u32, yellow: 0u32 },
            ),
            totals: PerDisease { blue: 0u32, red: 0u32, black: 0u32, yellow: 0u32 },
            stations: Seq::new(self.config.ncities() as nat, |c: int| c == 0),
            locations: Seq::new(self.agents.len(), |i: int| CityCard(0)),
            ..self
        }
    }

    /// The state from which a game is built: the infection deck with every
    /// city in the order of the table, nobody seated, and nothing else.
    pub open spec fn is_blank(self) -> bool {
        &&& self == (GameView {
            infection_deck: all_cities(self.config.ncities()),
            infection_discard: Seq::empty(),
            player_deck: Seq::empty(),
            player_discard: Seq::empty(),
            hands: Seq::empty(),
            cured: PerDisease { blue: false, red: false, black: false, yellow: false },
            rate_i: 0,
            outbreaks: 0,
            forecast: Seq::empty(),
            skip_next_infection: false,
            current_player: 0,
            agents: Seq::empty(),
            reserve: None,
            phase: TurnPhase::AwaitingActions,
            drawn: Seq::empty(),
            intensify_pending: false,
            event_seat: 0,
            ..self
        })
    }
}

/// The top cards of a deck without repeated cards, and the cards below them,
/// are without repeated cards, and no card is in both.
pub proof fn lemma_split_distinct<T>(deck: Seq<T>, k: int)
    requires
        deck.no_duplicates(),
        0 <= k <= deck.len(),
    ensures
        top_cards(deck, k).no_duplicates(),
        below_top(deck, k).no_duplicates(),
        top_cards(deck, k).len() == k,
        below_top(deck, k).len() == deck.len() - k,
        forall|i: int| 0 <= i < k ==> top_cards(deck, k)[i] == deck[deck.len() - 1 - i],
        forall|i: int| 0 <= i < deck.len() - k ==> below_top(deck, k)[i] == deck[i],
{
}

impl GameView {
    /// Whether this is the game `before` with its player deck built and
    /// dealt from: every agent holds the starting hand dealt from the undealt
    /// deck, and the player deck is what the deal left, in some order, seeded
    /// with the epidemics of the game.
    pub open spec fn deck_built_from(self, before: GameView) -> bool {
        let config = &before.config;
        let undealt = undealt_player_deck(before.infection_deck, config.events@);
        let epidemics = if config.nepidemics > 0 {
            config.nepidemics as int
        } else {
            0
        };
        &&& self == (GameView {
            hands: dealt_hands(
                undealt,
                before.nagents(),
                config.starting_cards_per_hand as int,
            ),
            player_deck: self.player_deck,
            ..before
        })
        &&& hands_ok(self.hands)
        &&& forall|i: int|
            0 <= i < self.hands.len() ==> (#[trigger] self.hands[i]).len()
                == config.starting_cards_per_hand
        &&& is_starting_deck(config, undealt, self.player_deck)
        &&& self.player_deck.len() == config.deck_after_deal() + epidemics
        &&& epidemics_in(self.player_deck) == epidemics
        &&& config.testing ==> self.player_deck == if config.nepidemics > 0 {
            seeded(
                below_top(undealt, config.nplayers * config.starting_cards_per_hand),
                zero_offsets(config.nepidemics as int),
            )
        } else {
            below_top(undealt, config.nplayers * config.starting_cards_per_hand)
        }
    }
}

impl PandemicGameState {
    /// Deals the starting hands from the top of the player deck, seat by seat.
    pub fn init_player_hands(&mut self)
        requires
            old(self)@.config.wf(),
            old(self)@.agents.len() == old(self)@.config.nplayers,
            old(self)@.player_deck.no_duplicates(),
            old(self)@.player_deck.len() >= old(self)@.config.nplayers * old(self)@.config.starting_cards_per_hand,
        ensures
            final(self)@ == (GameView {
                hands: dealt_hands(
                    old(self)@.player_deck,
                    old(self)@.nagents(),
                    old(self)@.config.starting_cards_per_hand as int,
                ),
                player_deck: below_top(
                    old(self)@.player_deck,
                    old(self)@.config.nplayers * old(self)@.config.starting_cards_per_hand,
                ),
                ..old(self)@
            }),
            hands_ok(final(self)@.hands),
            forall|i: int|
                0 <= i < final(self)@.hands.len() ==> (#[trigger] final(self)@.hands[i]).len() == old(
                    self,
                )@.config.starting_cards_per_hand,
    {
        let ghost deck = self@.player_deck;
        let nagents = self.agents.len();
        let size = self.config.starting_cards_per_hand as u32;
        let mut hands: Vec<Vec<PlayerCard>> = Vec::new();
        let mut i: usize = 0;
        let ghost mut dealt: int = 0;
        assert(self@.player_deck =~= below_top(deck, 0));
        assert(nagents * size <= deck.len()) by (nonlinear_arith)
            requires
                nagents == self@.config.nplayers,
                size == self@.config.starting_cards_per_hand,
                deck.len() >= self@.config.nplayers * self@.config.starting_cards_per_hand,
        ;
        while i < nagents
            invariant
                i <= nagents,
                nagents == old(self)@.agents.len(),
                nagents <= 4,
                2 <= size <= 4,
                size == old(self)@.config.starting_cards_per_hand,
                deck == old(self)@.player_deck,
                deck.no_duplicates(),
                dealt == i * size,
                nagents * size <= deck.len(),
                hands@.len() == i,
                forall|k: int|
                    0 <= k < i ==> (#[trigger] hands@[k])@ == top_cards(below_top(deck, k * size), size as int),
                self@ == (GameView { player_deck: below_top(deck, dealt), ..old(self)@ }),
            decreases nagents - i,
        {
            proof {
                assert((i + 1) * size == i * size + size) by (nonlinear_arith);
                assert((i + 1) * size <= nagents * size) by (nonlinear_arith)
                    requires
                        i + 1 <= nagents,
                        size >= 0,
                ;
                lemma_split_distinct(deck, dealt);
            }
            let ghost rest = self@.player_deck;
            let cards = self.draw_player_cards(size).unwrap();
            hands.push(cards);
            proof {
                assert(below_top(rest, size as int) =~= below_top(deck, dealt + size));
                dealt = dealt + size;
            }
            i += 1;
        }
        self.player_hands = hands;
        proof {
            let size_int = old(self)@.config.starting_cards_per_hand as int;
            assert(self@.hands =~= dealt_hands(deck, nagents as int, size_int));
            let np = old(self)@.config.nplayers as int;
            assert(nagents * size == np * size_int) by (nonlinear_arith)
                requires
                    nagents == np,
                    size == size_int,
            ;
            assert forall|k: int| 0 <= k < self@.hands.len() implies (#[trigger] self@.hands[k]).no_duplicates()
                && self@.hands[k].len() == size_int by {
                assert(0 <= k * size_int && k * size_int + size_int <= nagents * size_int)
                    by (nonlinear_arith)
                    requires
                        0 <= k < nagents,
                        size_int >= 0,
                ;
                lemma_split_distinct(deck, k * size_int);
                lemma_split_distinct(below_top(deck, k * size_int), size_int);
            }
        }
    }

    /// Builds the player deck and deals from it: a city card for each card of
    /// the infection deck, then the events; the starting hands come off the
    /// top; the rest is shuffled, except in testing mode, and seeded with the
    /// epidemics of the game. A deck that cannot fill the starting hands, or
    /// is then left with fewer cards than the game has epidemics, ends the
    /// game with nothing changed.
    pub fn gen_player_deck(&mut self) -> (result: Result<(), GameEnd>)
        requires
            old(self)@.config.wf(),
            old(self)@.agents.len() == old(self)@.config.nplayers,
            old(self)@.infection_deck.len() == old(self)@.config.ncities(),
            old(self)@.infection_deck.no_duplicates(),
        ensures
            result is Err <==> !old(self)@.config.spec_can_deal(),
            result is Err ==> result == Err::<(), GameEnd>(GameEnd::PlayerDeckLimit) && final(self)@
                == old(self)@,
            result is Ok ==> final(self)@.deck_built_from(old(self)@),
    {
        if !self.config.can_deal() {
            return Err(GameEnd::PlayerDeckLimit);
        }
        let ghost cities = self@.infection_deck;
        let ghost events = self@.config.events@;
        let ghost whole = undealt_player_deck(cities, events);
        let mut deck: Vec<PlayerCard> = Vec::new();
        let mut i: usize = 0;
        while i < self.infection_deck.len()
            invariant
                i <= self.infection_deck.len(),
                self@ == old(self)@,
                cities == self@.infection_deck,
                deck@.len() == i,
                forall|k: int| 0 <= k < i ==> deck@[k] == PlayerCard::CityCard(cities[k]),
            decreases self.infection_deck.len() - i,
        {
            deck.push(PlayerCard::from_city_card(self.infection_deck[i]));
            i += 1;
        }
        let mut e: usize = 0;
        while e < self.config.events.len()
            invariant
                e <= self.config.events.len(),
                self@ == old(self)@,
                cities == self@.infection_deck,
                events == self@.config.events@,
                deck@.len() == cities.len() + e,
                forall|k: int| 0 <= k < cities.len() ==> deck@[k] == PlayerCard::CityCard(cities[k]),
                forall|k: int|
                    cities.len() <= k < cities.len() + e ==> deck@[k] == PlayerCard::EventCard(
                        events[k - cities.len()],
                    ),
            decreases self.config.events.len() - e,
        {
            deck.push(PlayerCard::from_event_card(self.config.events[e]));
            e += 1;
        }
        assert(deck@ =~= whole);
        self.player_deck = deck;
        let ghost dealt = self@.config.nplayers * self@.config.starting_cards_per_hand;
        proof {
            assert forall|a: int, b: int| 0 <= a < whole.len() && 0 <= b < whole.len() && a != b
                implies whole[a] != whole[b] by {
                if a < cities.len() && b < cities.len() {
                    assert(cities[a] != cities[b]);
                } else if a >= cities.len() && b >= cities.len() {
                    assert(events == all_events());
                    assert(events[a - cities.len()] != events[b - cities.len()]);
                }
            }
            assert(dealt == self@.config.nplayers * starting_hand_size(
                self@.config.nplayers as int,
            ));
            lemma_split_distinct(whole, dealt);
            assert forall|k: int| 0 <= k < whole.len() implies whole[k] != PlayerCard::Epidemic by {}
            lemma_no_epidemics(whole);
            lemma_epidemics_split(whole, dealt);
        }
        self.init_player_hands();
        if !self.config.testing {
            shuffle(&mut self.player_deck);
        }
        assert(epidemics_in(self@.player_deck) == 0);
        assert(self@.player_deck.len() == old(self)@.config.deck_after_deal());
        let ghost rest = self@.player_deck;
        let ghost shuffled = self@;
        if self.config.nepidemics > 0 {
            self.add_epidemic_card_to_player_deck();
            proof {
                let offsets = choose|offsets: Seq<usize>| #[trigger]
                    shuffled.seeded_to(self@, offsets);
                assert(dealt_and_seeded(&self.config, whole, self@.player_deck, rest, offsets));
            }
        } else {
            assert(dealt_and_seeded(&self.config, whole, self@.player_deck, rest, Seq::empty()));
        }
        Ok(())
    }
}

/// While the city at position `k` still has cubes to take, the seeded board
/// will hold more cubes of its colour than the board holds now.
pub proof fn lemma_seeding_still_grows(
    config: &PandemicGameConfig,
    drawn: Seq<CityCard>,
    k: int,
    j: int,
)
    requires
        drawn.no_duplicates(),
        drawn.len() <= 9,
        cities_in_range(drawn, config.ncities()),
        config.ncities() <= usize::MAX,
        0 <= k < drawn.len(),
        0 <= j < seed_cubes(k),
    ensures
        cubes_on_board(seeding_cubes(config, drawn, k, j), config.disease_of(drawn[k]))
            < cubes_on_board(seeded_cubes(config, drawn), config.disease_of(drawn[k])),
{
    let disease = config.disease_of(drawn[k]);
    let now = seeding_cubes(config, drawn, k, j);
    let full = seeded_cubes(config, drawn);
    let city = drawn[k];
    assert forall|c: int| 0 <= c < now.len() implies (#[trigger] now[c]).spec_get(disease)
        <= full[c].spec_get(disease) by {
        let card = CityCard(c as usize);
        if drawn.contains(card) {
            let at = drawn.index_of(card);
            assert(0 <= at < drawn.len());
        }
    }
    assert(drawn.contains(city));
    let at = drawn.index_of(city);
    assert(drawn[at] == city);
    assert(at == k);
    assert(CityCard(city.0 as int as usize) == city);
    assert(now[city.0 as int].spec_get(disease) == j);
    assert(full[city.0 as int].spec_get(disease) == seed_cubes(k));
    lemma_cubes_grow_with_cities(now, full, disease, city.0 as int);
}

/// A game whose board is seeded and well formed holds no more cubes of any
/// disease than the limit allows.
pub proof fn lemma_seeding_within_limit(game: GameView, drawn: Seq<CityCard>)
    requires
        game.wf(),
        game.cubes == seeded_cubes(&game.config, drawn),
    ensures
        !seeding_passes_limit(&game.config, drawn),
{
    assert forall|d: Disease| #[trigger] cubes_on_board(seeded_cubes(&game.config, drawn), d)
        <= game.config.max_disease_cubes_per_color by {
        assert(game.totals.spec_get(d) == cubes_on_board(game.cubes, d));
    }
}

/// Seeding places more cubes the more cards it draws, up to nine.
pub proof fn lemma_seed_cubes_grow(k: int, j: int, draws: int)
    requires
        0 <= k < draws <= 9,
        0 <= j < seed_cubes(k),
    ensures
        seed_cubes_upto(k) + j < seed_cubes_upto(draws),
        seed_cubes_upto(k + 1) == seed_cubes_upto(k)
            + seed_cubes(k),
        1 <= seed_cubes(k) <= 3,
{
}

/// Seeds the board from the `j`-th cube of the `k`-th card drawn on: each
/// card drawn takes its cubes one by one, of the colour of its city, and the
/// first placement that ends the game stops the seeding.
pub open spec fn seed_from(game: GameView, drawn: Seq<CityCard>, k: int, j: int) -> (
    GameView,
    Option<GameEnd>,
)
    decreases drawn.len() - k, seed_cubes(k) - j,
{
    if k < 0 || k >= drawn.len() {
        (game, None)
    } else if j < 0 || j >= seed_cubes(k) {
        seed_from(game, drawn, k + 1, 0)
    } else {
        let city = drawn[k];
        let c = cascade(&game.config, game.board(), city, game.config.disease_of(city));
        match c.end {
            Some(end) => (game.with_board(c.board), Some(end)),
            None => seed_from(game.with_board(c.board), drawn, k, j + 1),
        }
    }
}

impl GameView {
    /// The game laid out for seeding: the board fresh, and the infection
    /// cards that seeding draws on the discard pile.
    pub open spec fn laid_out(self) -> GameView {
        let draws = seed_draws(self.infection_deck.len() as int);
        GameView {
            infection_deck: below_top(self.infection_deck, draws),
            infection_discard: self.infection_discard + top_cards(self.infection_deck, draws),
            ..self.with_fresh_board()
        }
    }

    /// The infection cards that seeding draws, first drawn first.
    pub open spec fn seed_cards(self) -> Seq<CityCard> {
        top_cards(self.infection_deck, seed_draws(self.infection_deck.len() as int))
    }
}

impl PandemicGameState {
    /// Lays out the board: no cube anywhere, a research station in the first
    /// city of the table, every agent there. Then draws nine infection cards
    /// and places three cubes on each of the first three cities drawn, two on
    /// each of the next three, one on each of the last three, of the colour of
    /// the city. A deck of fewer than nine cards seeds the cities it has.
    ///
    /// No placement of the seeding is an outbreak. A placement that finds
    /// the board at the cube limit of its colour ends the game there, which
    /// cannot happen if the limit covers all the cubes that seeding places.
    pub fn init_board(&mut self) -> (result: Result<(), GameEnd>)
        requires
            old(self)@.with_fresh_board().wf(),
            old(self)@.infection_deck.no_duplicates(),
        ensures
            final(self).wf(),
            final(self)@ == seed_from(old(self)@.laid_out(), old(self)@.seed_cards(), 0, 0).0,
            result == cascade_result(
                seed_from(old(self)@.laid_out(), old(self)@.seed_cards(), 0, 0).1,
            ),
            final(self)@ == (GameView {
                cubes: final(self)@.cubes,
                totals: final(self)@.totals,
                ..old(self)@.laid_out()
            }),
            result is Ok ==> final(self)@.cubes == seeded_cubes(
                &old(self)@.config,
                old(self)@.seed_cards(),
            ),
            result is Err <==> seeding_passes_limit(&old(self)@.config, old(self)@.seed_cards()),
            result is Err ==> result == Err::<(), GameEnd>(GameEnd::DiseaseCubeLimit) && old(
                self,
            )@.config.max_disease_cubes_per_color < seed_cubes_upto(
                seed_draws(old(self)@.infection_deck.len() as int),
            ),
    {
        let n = self.config.city_graph.len();
        let nagents = self.agents.len();
        let none = PerDisease::uniform(0u32);
        let mut cubes: Vec<PerDisease<u32>> = Vec::new();
        let mut stations: Vec<bool> = Vec::new();
        let mut c: usize = 0;
        while c < n
            invariant
                c <= n,
                cubes@.len() == c,
                stations@.len() == c,
                none == (PerDisease { blue: 0u32, red: 0u32, black: 0u32, yellow: 0u32 }),
                forall|k: int| 0 <= k < c ==> cubes@[k] == none,
                forall|k: int| 0 <= k < c ==> stations@[k] == (k == 0),
            decreases n - c,
        {
            cubes.push(none);
            stations.push(c == 0);
            c += 1;
        }
        let mut locations: Vec<CityCard> = Vec::new();
        let mut a: usize = 0;
        while a < nagents
            invariant
                a <= nagents,
                locations@.len() == a,
                forall|k: int| 0 <= k < a ==> locations@[k] == CityCard(0),
            decreases nagents - a,
        {
            locations.push(CityCard(0));
            a += 1;
        }
        self.cur_city_diseases = cubes;
        self.research_stations = stations;
        self.player_locations = locations;
        self.total_cubes_on_board_per_disease = none;
        let ghost fresh = old(self)@.with_fresh_board();
        assert(self@.cubes =~= fresh.cubes);
        assert(self@.stations =~= fresh.stations);
        assert(self@.locations =~= fresh.locations);
        assert(self@ == fresh);
        let ghost deck = self@.infection_deck;
        let ghost draws = seed_draws(deck.len() as int);
        let cards = self.draw_infection_cards(SETUP_INFECTION_CARDS);
        let ghost drawn = cards@;
        let ghost base = self@;
        let ghost whole = seed_from(base, drawn, 0, 0);
        proof {
            assert(base == old(self)@.laid_out());
            assert(drawn == old(self)@.seed_cards());
            assert(base.config.ncities() == n);
            lemma_distinct_cities_bound(deck, fresh.config.ncities());
            lemma_split_distinct(deck, draws);
            assert(self@.cubes =~= seeding_cubes(&self.config, drawn, 0, 0));
        }
        let mut k: usize = 0;
        while k < cards.len()
            invariant
                k <= cards.len(),
                base == old(self)@.laid_out(),
                base.wf(),
                drawn == old(self)@.seed_cards(),
                cards@ == drawn,
                drawn.len() == draws,
                draws <= 9,
                draws == seed_draws(old(self)@.infection_deck.len() as int),
                base.config.ncities() <= usize::MAX,
                drawn.no_duplicates(),
                cities_in_range(drawn, base.config.ncities()),
                whole == seed_from(base, drawn, 0, 0),
                self.wf(),
                self@ == (GameView {
                    cubes: seeding_cubes(&base.config, drawn, k as int, 0),
                    totals: self@.totals,
                    ..base
                }),
                self@.totals.blue + self@.totals.red + self@.totals.black + self@.totals.yellow
                    == seed_cubes_upto(k as int),
                seed_from(self@, drawn, k as int, 0) == whole,
            decreases cards.len() - k,
        {
            let city = cards[k];
            assert(city.0 < base.config.ncities());
            let disease = self.config.city_diseases[city.0];
            let ncubes: u32 = 3 - (k as u32) / 3;
            let mut j: u32 = 0;
            while j < ncubes
                invariant
                    j <= ncubes,
                    ncubes == seed_cubes(k as int),
                    k < cards.len(),
                    base == old(self)@.laid_out(),
                    base.wf(),
                    drawn == old(self)@.seed_cards(),
                    cards@ == drawn,
                    drawn.len() == draws,
                    draws <= 9,
                    draws == seed_draws(old(self)@.infection_deck.len() as int),
                    base.config.ncities() <= usize::MAX,
                    drawn.no_duplicates(),
                    cities_in_range(drawn, base.config.ncities()),
                    whole == seed_from(base, drawn, 0, 0),
                    city == drawn[k as int],
                    disease == base.config.disease_of(city),
                    self.wf(),
                    self@ == (GameView {
                        cubes: seeding_cubes(&base.config, drawn, k as int, j as int),
                        totals: self@.totals,
                        ..base
                    }),
                    self@.totals.blue + self@.totals.red + self@.totals.black + self@.totals.yellow
                        == seed_cubes_upto(k as int) + j,
                    seed_from(self@, drawn, k as int, j as int) == whole,
                decreases ncubes - j,
            {
                let ghost before = self@;
                proof {
                    lemma_seed_cubes_grow(k as int, j as int, draws);
                    assert(drawn.contains(city));
                    assert(drawn.index_of(city) == k) by {
                        let at = drawn.index_of(city);
                        assert(drawn[at] == city);
                    }
                    assert(before.board().count(city, disease) == j);
                    assert(before.totals.spec_get(disease) <= before.totals.blue + before.totals.red
                        + before.totals.black + before.totals.yellow);
                    lemma_cascade_below_three(&self.config, before.board(), city, disease);
                }
                match self.add_disease_cube(city, disease, true) {
                    Ok(()) => {},
                    Err(game_end) => {
                        proof {
                            // the cubes of this city that are still to come pass the limit
                            lemma_seeding_still_grows(&base.config, drawn, k as int, j as int);
                            assert(self@.totals.spec_get(disease) == cubes_on_board(
                                self@.cubes,
                                disease,
                            ));
                            assert(cubes_on_board(seeded_cubes(&base.config, drawn), disease)
                                > base.config.max_disease_cubes_per_color);
                        }
                        return Err(game_end);
                    },
                }
                proof {
                    assert(self@.cubes =~= seeding_cubes(&base.config, drawn, k as int, j + 1)) by {
                        assert forall|c: int| 0 <= c < self@.cubes.len() implies self@.cubes[c]
                            == seeding_cubes(&base.config, drawn, k as int, j + 1)[c] by {
                            if c != city.0 {
                                assert(CityCard(c as usize) != city);
                            }
                        }
                    }
                }
                j += 1;
            }
            proof {
                lemma_seed_cubes_grow(k as int, 0, draws);
                assert(seeding_cubes(&base.config, drawn, k as int, ncubes as int) =~= seeding_cubes(
                    &base.config,
                    drawn,
                    k + 1,
                    0,
                ));
            }
            k += 1;
        }
        proof {
            lemma_seeding_within_limit(self@, drawn);
        }
        Ok(())
    }

    /// Builds the game from the blank state: roles, the player deck and the
    /// starting hands, the infection deck, the seeded board, and the player
    /// who starts. Testing mode shuffles no deck and lets the first seat
    /// start. Seeding that meets the cube limit ends the game before it
    /// starts; this cannot happen if the limit covers all the cubes that
    /// seeding places. So does a player deck that cannot fill the starting
    /// hands and take the epidemics.
    pub fn initialize(&mut self) -> (result: Result<(), GameEnd>)
        requires
            old(self)@.is_blank(),
            old(self)@.config.wf(),
        ensures
            final(self)@.config == old(self)@.config,
            result is Ok ==> final(self).wf() && final(self)@.is_set_up(),
            setup_end_fits(&old(self)@.config, result),
    {
        let ncities: usize = self.config.city_graph.len();
        let ghost cities = all_cities(self@.config.ncities());
        assert(cities.no_duplicates());
        self.select_roles();
        match self.gen_player_deck() {
            Ok(()) => {},
            Err(game_end) => {
                return Err(game_end);
            },
        }
        if !self.config.testing {
            self.shuffle_infection_deck();
        }
        let ghost deck = self@.infection_deck;
        proof {
            lemma_same_items_distinct(cities, deck);
            lemma_same_cards_in_range(cities, deck, self@.config.ncities());
            let fresh = self@.with_fresh_board();
            assert forall|d: Disease| (#[trigger] fresh.totals.spec_get(d))
                == cubes_on_board(fresh.cubes, d) by {
                lemma_cubes_on_empty_board(fresh.cubes, d);
            }
            assert forall|c: int, d: Disease| 0 <= c < fresh.cubes.len() implies (
            #[trigger] fresh.cubes[c].spec_get(d)) <= 3 by {}
            assert(fresh.drawn =~= Seq::empty());
            lemma_no_epidemics(fresh.drawn);
            assert(cubes_ok(&fresh.config, fresh.cubes, fresh.totals));
            assert(cities_in_range(fresh.locations, fresh.config.ncities()));
            assert(agents_ok(&fresh.config, fresh.agents));
            assert(hands_ok(fresh.hands));
            assert(rates_ok(&fresh.config, fresh.rate_i, fresh.player_deck, fresh.drawn));
            assert(fresh.wf());
        }
        match self.init_board() {
            Ok(()) => {},
            Err(game_end) => {
                return Err(game_end);
            },
        }
        proof {
            let draws = seed_draws(deck.len() as int);
            assert(self@.infection_discard =~= top_cards(deck, draws));
            assert(self@.infection_deck + self@.infection_discard.reverse() =~= deck);
        }
        if self.config.testing {
            self.current_player_i = 0;
        } else {
            self.current_player_i = random_below(self.agents.len()) as u32;
        }
        Ok(())
    }

    /// Sets up a game from its configuration. A player deck that cannot fill
    /// the starting hands and take the epidemics ends the game before it
    /// starts, and so does seeding that meets the cube limit; the latter
    /// cannot happen if the limit covers all the cubes that seeding places.
    pub fn new(config: PandemicGameConfig) -> (result: Result<Self, GameEnd>)
        requires
            config.wf(),
        ensures
            result matches Ok(state) ==> {
                &&& state.wf()
                &&& state@.config == config
                &&& state@.is_set_up()
            },
            setup_end_fits(&config, result),
    {
        let n = config.city_graph.len();
        let mut infection_deck: Vec<CityCard> = Vec::new();
        let mut c: usize = 0;
        while c < n
            invariant
                c <= n,
                infection_deck@.len() == c,
                forall|k: int| 0 <= k < c ==> infection_deck@[k] == CityCard(k as usize),
            decreases n - c,
        {
            infection_deck.push(CityCard(c));
            c += 1;
        }
        let mut state = PandemicGameState {
            cur_city_diseases: Vec::new(),
            player_locations: Vec::new(),
            research_stations: Vec::new(),
            total_cubes_on_board_per_disease: PerDisease::uniform(0),
            infection_deck,
            infection_discard: Vec::new(),
            player_deck: Vec::new(),
            player_discard: Vec::new(),
            player_hands: Vec::new(),
            cured_diseases: PerDisease::uniform(false),
            infection_rate_i: 0,
            outbreaks: 0,
            forecasted_infection_deck: Vec::new(),
            skip_next_infect_cities: false,
            current_player_i: 0,
            agents: Vec::new(),
            contingency_planner_event_card: None,
            phase: TurnPhase::AwaitingActions,
            drawn_cards: Vec::new(),
            intensify_pending: false,
            event_seat: 0,
            config,
        };
        proof {
            assert(state@.infection_deck =~= all_cities(state@.config.ncities()));
            assert(state@.hands =~= Seq::empty());
            assert(state@.is_blank());
        }
        match state.initialize() {
            Ok(()) => Ok(state),
            Err(game_end) => Err(game_end),
        }
    }
}

impl GameView {
    /// What holds of a game that has just been set up.
    ///
    /// The scheduler awaits actions; nothing has broken out, been cured or
    /// discarded; the agents have distinct roles, stand in the first city of
    /// the table, where the only research station is, and hold the starting
    /// hands dealt from the undealt player deck; the infection deck and its
    /// discard pile hold every city once; the cities that seeding drew lie on
    /// the discard pile and hold their cubes; the player deck is what the
    /// deal left, in some order, seeded with the epidemics of the game. In
    /// testing mode the first seat starts and no deck is shuffled.
    pub open spec fn is_set_up(self) -> bool {
        let undealt = undealt_player_deck(all_cities(self.config.ncities()), self.config.events@);
        &&& self.phase == TurnPhase::AwaitingActions
        &&& self.outbreaks == 0
        &&& self.rate_i == 0
        &&& self.cured == (PerDisease { blue: false, red: false, black: false, yellow: false })
        &&& self.reserve is None
        &&& !self.skip_next_infection
        &&& self.drawn.len() == 0
        &&& self.player_discard.len() == 0
        &&& distinct_roles(self.agents)
        &&& self.hands == dealt_hands(
            undealt,
            self.config.nplayers as int,
            self.config.starting_cards_per_hand as int,
        )
        &&& forall|i: int|
            0 <= i < self.hands.len() ==> (#[trigger] self.hands[i]).len()
                == self.config.starting_cards_per_hand
        &&& self.locations == Seq::new(self.agents.len(), |i: int| CityCard(0))
        &&& self.stations == Seq::new(self.config.ncities() as nat, |c: int| c == 0)
        &&& (self.infection_deck + self.infection_discard.reverse()).to_multiset() == all_cities(
            self.config.ncities(),
        ).to_multiset()
        &&& self.infection_discard.len() == seed_draws(self.config.ncities())
        &&& self.cubes == seeded_cubes(&self.config, self.infection_discard)
        &&& !seeding_passes_limit(&self.config, self.infection_discard)
        &&& is_starting_deck(&self.config, undealt, self.player_deck)
        &&& self.player_deck.len() == self.config.deck_after_deal() + if self.config.nepidemics > 0 {
            self.config.nepidemics as int
        } else {
            0
        }
        &&& epidemics_in(self.player_deck) == if self.config.nepidemics > 0 {
            self.config.nepidemics as int
        } else {
            0
        }
        &&& self.config.testing ==> {
            &&& self.current_player == 0
            &&& self.infection_deck + self.infection_discard.reverse() == all_cities(
                self.config.ncities(),
            )
            &&& self.player_deck == testing_player_deck(&self.config)
        }
    }
}

/// The same cards in another order name cities of the board if they did.
pub proof fn lemma_same_cards_in_range(before: Seq<CityCard>, after: Seq<CityCard>, ncities: int)
    requires
        before.to_multiset() == after.to_multiset(),
    ensures
        cities_in_range(before, ncities) ==> cities_in_range(after, ncities),
{
    if cities_in_range(before, ncities) {
        assert forall|i: int| 0 <= i < after.len() implies (#[trigger] after[i]).0 < ncities by {
            let card = after[i];
            assert(after.contains(card));
            to_multiset_contains(after, card);
            to_multiset_contains(before, card);
            let j = before.index_of(card);
            assert(before[j].0 < ncities);
        }
    }
}

/// The same items in another order are distinct if they were.
pub proof fn lemma_same_items_distinct<T>(before: Seq<T>, after: Seq<T>)
    requires
        before.to_multiset() == after.to_multiset(),
        before.no_duplicates(),
    ensures
        after.no_duplicates(),
{
    before.lemma_multiset_has_no_duplicates();
    after.lemma_multiset_has_no_duplicates_conv();
}

} // verus!
