//! The closed enumerations of the game: ways to end, diseases and cards.
use vstd::prelude::*;

use crate::city_graph::CityCard;

verus! {

/// The terminal conditions of a game. None of them is a failure of the engine.
#[derive(Debug, Clone, Copy, PartialEq, Eq, Structural, Hash)]
pub enum GameEnd {
    PlayerDeckLimit,
    DiseaseCubeLimit,
    OutbreakLimit,
    Win,
}

/// The four disease colours.
#[derive(Debug, Clone, Copy, PartialEq, Eq, Structural, Hash)]
pub enum Disease {
    Blue,
    Red,
    Black,
    Yellow,
}

/// The diseases in their fixed order.
pub open spec fn all_diseases() -> Seq<Disease> {
    seq![Disease::Blue, Disease::Red, Disease::Black, Disease::Yellow]
}

impl Disease {
    /// The diseases in their fixed order.
    pub fn all() -> (v: Vec<Disease>)
        ensures
            v@ == all_diseases(),
    {
        vec![Disease::Blue, Disease::Red, Disease::Black, Disease::Yellow]
    }
}

/// One value per disease colour.
#[derive(Debug, Clone, Copy, PartialEq, Eq, Structural, Hash)]
pub struct PerDisease<T> {
    pub blue: T,
    pub red: T,
    pub black: T,
    pub yellow: T,
}

impl<T: Copy> PerDisease<T> {
    pub open spec fn spec_get(self, disease: Disease) -> T {
        match disease {
            Disease::Blue => self.blue,
            Disease::Red => self.red,
            Disease::Black => self.black,
            Disease::Yellow => self.yellow,
        }
    }

    pub open spec fn spec_set(self, disease: Disease, value: T) -> Self {
        match disease {
            Disease::Blue => PerDisease { blue: value, ..self },
            Disease::Red => PerDisease { red: value, ..self },
            Disease::Black => PerDisease { black: value, ..self },
            Disease::Yellow => PerDisease { yellow: value, ..self },
        }
    }

    /// The same value for every colour.
    pub fn uniform(value: T) -> (all: Self)
        ensures
            forall|d: Disease| all.spec_get(d) == value,
            all == (PerDisease { blue: value, red: value, black: value, yellow: value }),
    {
        PerDisease { blue: value, red: value, black: value, yellow: value }
    }

    #[verifier::when_used_as_spec(spec_get)]
    pub fn get(self, disease: Disease) -> (value: T)
        ensures
            value == self.spec_get(disease),
    {
        match disease {
            Disease::Blue => self.blue,
            Disease::Red => self.red,
            Disease::Black => self.black,
            Disease::Yellow => self.yellow,
        }
    }

    pub fn set(&mut self, disease: Disease, value: T)
        ensures
            *final(self) == old(self).spec_set(disease, value),
    {
        match disease {
            Disease::Blue => { self.blue = value; },
            Disease::Red => { self.red = value; },
            Disease::Black => { self.black = value; },
            Disease::Yellow => { self.yellow = value; },
        }
    }
}

/// The special cards of the player deck.
#[derive(Debug, Clone, Copy, PartialEq, Eq, Structural, Hash)]
pub enum EventCard {
    GovernmentGrant,
    ResilientPopulation,
    Airlift,
    Forecast,
    OneQuietNight,
}

/// The event cards in their fixed order.
pub open spec fn all_events() -> Seq<EventCard> {
    seq![
        EventCard::GovernmentGrant,
        EventCard::ResilientPopulation,
        EventCard::Airlift,
        EventCard::Forecast,
        EventCard::OneQuietNight,
    ]
}

impl EventCard {
    /// The event cards in their fixed order.
    pub fn all() -> (v: Vec<EventCard>)
        ensures
            v@ == all_events(),
    {
        vec![
            EventCard::GovernmentGrant,
            EventCard::ResilientPopulation,
            EventCard::Airlift,
            EventCard::Forecast,
            EventCard::OneQuietNight,
        ]
    }
}

impl Default for EventCard {
    fn default() -> (card: EventCard)
        ensures
            card == EventCard::GovernmentGrant,
    {
        EventCard::GovernmentGrant
    }
}

/// A card of the player deck.
#[derive(Debug, Clone, Copy, PartialEq, Eq, Structural, Hash)]
pub enum PlayerCard {
    CityCard(CityCard),
    EventCard(EventCard),
    Epidemic,
}

impl Default for PlayerCard {
    fn default() -> (card: PlayerCard)
        ensures
            card == PlayerCard::Epidemic,
    {
        PlayerCard::Epidemic
    }
}

impl PlayerCard {
    pub fn from_city_card(card: CityCard) -> (player_card: PlayerCard)
        ensures
            player_card == PlayerCard::CityCard(card),
    {
        PlayerCard::CityCard(card)
    }

    pub fn from_event_card(card: EventCard) -> (player_card: PlayerCard)
        ensures
            player_card == PlayerCard::EventCard(card),
    {
        PlayerCard::EventCard(card)
    }
}

} // verus!
