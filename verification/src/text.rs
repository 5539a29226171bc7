//! The written form of cards: an event by its name, a city by the decimal
//! digits of its index, an epidemic by the word `Epidemic`.
use vstd::prelude::*;
use vstd::string::*;

use crate::city_graph::CityCard;
use crate::game_enums::{EventCard, PlayerCard};

verus! {

/// The digit that stands for a number below ten.
pub open spec fn digit_char(d: int) -> char {
    if d == 0 {
        '0'
    } else if d == 1 {
        '1'
    } else if d == 2 {
        '2'
    } else if d == 3 {
        '3'
    } else if d == 4 {
        '4'
    } else if d == 5 {
        '5'
    } else if d == 6 {
        '6'
    } else if d == 7 {
        '7'
    } else if d == 8 {
        '8'
    } else {
        '9'
    }
}

/// The number that a digit stands for, if the character is a digit.
pub open spec fn digit_value(c: char) -> Option<int> {
    if c == '0' {
        Some(0)
    } else if c == '1' {
        Some(1)
    } else if c == '2' {
        Some(2)
    } else if c == '3' {
        Some(3)
    } else if c == '4' {
        Some(4)
    } else if c == '5' {
        Some(5)
    } else if c == '6' {
        Some(6)
    } else if c == '7' {
        Some(7)
    } else if c == '8' {
        Some(8)
    } else if c == '9' {
        Some(9)
    } else {
        None
    }
}

/// The decimal digits of a number, without leading zeros.
pub open spec fn decimal(n: nat) -> Seq<char>
    decreases n,
{
    if n < 10 {
        seq![digit_char(n as int)]
    } else {
        decimal(n / 10).push(digit_char((n % 10) as int))
    }
}

/// Whether every character is a digit.
pub open spec fn all_digits(text: Seq<char>) -> bool {
    forall|i: int| 0 <= i < text.len() ==> digit_value(#[trigger] text[i]) is Some
}

/// The number that a sequence of digits stands for.
pub open spec fn decimal_value(text: Seq<char>) -> nat
    decreases text.len(),
{
    if text.len() == 0 {
        0
    } else {
        (decimal_value(text.drop_last()) * 10 + digit_value(text.last()).unwrap()) as nat
    }
}

/// The name of an event.
pub open spec fn event_name(event: EventCard) -> Seq<char> {
    match event {
        EventCard::GovernmentGrant => "GovernmentGrant"@,
        EventCard::ResilientPopulation => "ResilientPopulation"@,
        EventCard::Airlift => "Airlift"@,
        EventCard::Forecast => "Forecast"@,
        EventCard::OneQuietNight => "OneQuietNight"@,
    }
}

/// The event that a text names, if it names one.
pub open spec fn parse_event(text: Seq<char>) -> Option<EventCard> {
    if text == "GovernmentGrant"@ {
        Some(EventCard::GovernmentGrant)
    } else if text == "ResilientPopulation"@ {
        Some(EventCard::ResilientPopulation)
    } else if text == "Airlift"@ {
        Some(EventCard::Airlift)
    } else if text == "Forecast"@ {
        Some(EventCard::Forecast)
    } else if text == "OneQuietNight"@ {
        Some(EventCard::OneQuietNight)
    } else {
        None
    }
}

/// The city that a text names, if it is made of digits that give an index
/// that the machine can hold.
pub open spec fn parse_city(text: Seq<char>) -> Option<CityCard> {
    if text.len() > 0 && all_digits(text) && decimal_value(text) <= usize::MAX {
        Some(CityCard(decimal_value(text) as usize))
    } else {
        None
    }
}

/// The written form of a card: the kind of card, with the event or the
/// index of the city in brackets behind it.
pub open spec fn card_text(card: PlayerCard) -> Seq<char> {
    match card {
        PlayerCard::CityCard(city) => "CityCard("@ + decimal(city.0 as nat) + ")"@,
        PlayerCard::EventCard(event) => "EventCard("@ + event_name(event) + ")"@,
        PlayerCard::Epidemic => "Epidemic"@,
    }
}

/// The card that a text stands for: an event, else a city, else an epidemic.
pub open spec fn parse_card(text: Seq<char>) -> Option<PlayerCard> {
    match parse_event(text) {
        Some(event) => Some(PlayerCard::EventCard(event)),
        None => match parse_city(text) {
            Some(city) => Some(PlayerCard::CityCard(city)),
            None => if text == "Epidemic"@ {
                Some(PlayerCard::Epidemic)
            } else {
                None
            },
        },
    }
}

/// The decimal digits of a number are digits, and stand for the number.
pub proof fn lemma_decimal_round_trip(n: nat)
    ensures
        decimal(n).len() > 0,
        all_digits(decimal(n)),
        decimal_value(decimal(n)) == n,
    decreases n,
{
    if n < 10 {
        let text = decimal(n);
        assert(text.drop_last() =~= Seq::<char>::empty());
        assert(decimal_value(text.drop_last()) == 0);
        assert(text.last() == digit_char(n as int));
    } else {
        lemma_decimal_round_trip(n / 10);
        let text = decimal(n);
        assert(text.drop_last() =~= decimal(n / 10));
        assert(text.last() == digit_char((n % 10) as int));
        assert forall|i: int| 0 <= i < text.len() implies digit_value(#[trigger] text[i]) is Some by {
            if i < text.len() - 1 {
                assert(text[i] == decimal(n / 10)[i]);
            }
        }
    }
}

/// A text in brackets behind a word is found again in the whole, which
/// begins as the word does.
proof fn lemma_bracketed(word: Seq<char>, inner: Seq<char>, close: Seq<char>)
    ensures
        (word + inner + close).len() == word.len() + inner.len() + close.len(),
        (word + inner + close).subrange(word.len() as int, (word.len() + inner.len()) as int) == inner,
        word.len() > 0 ==> (word + inner + close)[0] == word[0],
        word.len() > 1 ==> (word + inner + close)[1] == word[1],
{
    assert((word + inner + close).subrange(word.len() as int, (word.len() + inner.len()) as int) =~= inner);
}

/// Two cards are written differently.
pub proof fn lemma_card_text_distinct(a: PlayerCard, b: PlayerCard)
    requires
        a != b,
    ensures
        card_text(a) != card_text(b),
{
    reveal_strlit("GovernmentGrant");
    reveal_strlit("ResilientPopulation");
    reveal_strlit("Airlift");
    reveal_strlit("Forecast");
    reveal_strlit("OneQuietNight");
    reveal_strlit("Epidemic");
    reveal_strlit("CityCard(");
    reveal_strlit("EventCard(");
    reveal_strlit(")");
    match a {
        PlayerCard::CityCard(x) => {
            lemma_bracketed("CityCard("@, decimal(x.0 as nat), ")"@);
            lemma_decimal_round_trip(x.0 as nat);
        },
        PlayerCard::EventCard(e) => {
            lemma_bracketed("EventCard("@, event_name(e), ")"@);
        },
        PlayerCard::Epidemic => {},
    }
    match b {
        PlayerCard::CityCard(y) => {
            lemma_bracketed("CityCard("@, decimal(y.0 as nat), ")"@);
            lemma_decimal_round_trip(y.0 as nat);
        },
        PlayerCard::EventCard(f) => {
            lemma_bracketed("EventCard("@, event_name(f), ")"@);
        },
        PlayerCard::Epidemic => {},
    }
    if card_text(a) == card_text(b) {
        match (a, b) {
            (PlayerCard::CityCard(x), PlayerCard::CityCard(y)) => {
                let dx = decimal(x.0 as nat);
                let dy = decimal(y.0 as nat);
                assert(dx.len() == dy.len());
                assert(dx == card_text(a).subrange(9, (9 + dx.len()) as int));
                assert(dy == card_text(b).subrange(9, (9 + dy.len()) as int));
                assert(decimal_value(dx) == decimal_value(dy));
                assert(x.0 == y.0);
            },
            (PlayerCard::EventCard(e), PlayerCard::EventCard(f)) => {
                let ne = event_name(e);
                let nf = event_name(f);
                assert(ne.len() == nf.len());
                assert(e == f);
            },
            (PlayerCard::CityCard(_), _) => {
                assert(card_text(a)[0] == 'C');
                assert(card_text(b)[0] == 'E');
            },
            (_, PlayerCard::CityCard(_)) => {
                assert(card_text(b)[0] == 'C');
                assert(card_text(a)[0] == 'E');
            },
            (PlayerCard::EventCard(_), PlayerCard::Epidemic) => {
                assert(card_text(a)[1] == 'v');
                assert(card_text(b)[1] == 'p');
            },
            (PlayerCard::Epidemic, PlayerCard::EventCard(_)) => {
                assert(card_text(b)[1] == 'v');
                assert(card_text(a)[1] == 'p');
            },
            (PlayerCard::Epidemic, PlayerCard::Epidemic) => {},
        }
    }
}

/// The number that a digit stands for, if the character is a digit.
fn digit_of(c: char) -> (d: Option<usize>)
    ensures
        d is Some == digit_value(c) is Some,
        d is Some ==> d.unwrap() == digit_value(c).unwrap(),
{
    if c == '0' {
        Some(0)
    } else if c == '1' {
        Some(1)
    } else if c == '2' {
        Some(2)
    } else if c == '3' {
        Some(3)
    } else if c == '4' {
        Some(4)
    } else if c == '5' {
        Some(5)
    } else if c == '6' {
        Some(6)
    } else if c == '7' {
        Some(7)
    } else if c == '8' {
        Some(8)
    } else if c == '9' {
        Some(9)
    } else {
        None
    }
}

/// The digit that stands for a number below ten, as a text.
fn digit_text(d: usize) -> (text: &'static str)
    requires
        d < 10,
    ensures
        text@ == seq![digit_char(d as int)],
{
    proof {
        reveal_strlit("0");
        reveal_strlit("1");
        reveal_strlit("2");
        reveal_strlit("3");
        reveal_strlit("4");
        reveal_strlit("5");
        reveal_strlit("6");
        reveal_strlit("7");
        reveal_strlit("8");
        reveal_strlit("9");
    }
    let text = if d == 0 {
        "0"
    } else if d == 1 {
        "1"
    } else if d == 2 {
        "2"
    } else if d == 3 {
        "3"
    } else if d == 4 {
        "4"
    } else if d == 5 {
        "5"
    } else if d == 6 {
        "6"
    } else if d == 7 {
        "7"
    } else if d == 8 {
        "8"
    } else {
        "9"
    };
    assert(text@ =~= seq![digit_char(d as int)]);
    text
}

/// A longer sequence of digits stands for a number that is no smaller.
proof fn lemma_decimal_value_grows(text: Seq<char>, k: int)
    requires
        0 <= k <= text.len(),
        all_digits(text),
    ensures
        decimal_value(text.subrange(0, k)) <= decimal_value(text),
    decreases text.len() - k,
{
    if k < text.len() {
        let longer = text.subrange(0, k + 1);
        assert(longer.drop_last() =~= text.subrange(0, k));
        assert(digit_value(longer.last()) is Some);
        lemma_decimal_value_grows(text, k + 1);
    } else {
        assert(text.subrange(0, k) =~= text);
    }
}

/// Writes a number in decimal digits.
pub fn decimal_text(n: usize) -> (text: String)
    ensures
        text@ == decimal(n as nat),
{
    let mut text = String::from_str(digit_text(n % 10));
    let mut rest = n / 10;
    // `text` holds the digits of `n` below the place that `rest` has reached
    assert(n >= 10 ==> decimal(n as nat) =~= decimal((n / 10) as nat) + text@);
    while rest > 0
        invariant
            decimal(n as nat) == if rest == 0 {
                text@
            } else {
                decimal(rest as nat) + text@
            },
        decreases rest,
    {
        let digit = String::from_str(digit_text(rest % 10));
        proof {
            let low = digit_char((rest % 10) as int);
            if rest >= 10 {
                assert(decimal(rest as nat) =~= decimal((rest / 10) as nat).push(low));
                assert(decimal(rest as nat) + text@ =~= decimal((rest / 10) as nat) + (seq![low]
                    + text@));
            } else {
                assert(decimal(rest as nat) + text@ =~= seq![low] + text@);
            }
        }
        text = digit.concat(text.as_str());
        rest = rest / 10;
    }
    text
}

/// Reads a number written in decimal digits, if the text is one that the
/// machine can hold.
pub fn read_decimal(text: &str) -> (n: Option<usize>)
    ensures
        n is Some == (text@.len() > 0 && all_digits(text@) && decimal_value(text@) <= usize::MAX),
        n is Some ==> n.unwrap() == decimal_value(text@),
{
    let len = text.unicode_len();
    if len == 0 {
        return None;
    }
    let mut value: usize = 0;
    let mut i: usize = 0;
    assert(text@.subrange(0, 0) =~= Seq::<char>::empty());
    while i < len
        invariant
            i <= len,
            len == text@.len(),
            all_digits(text@.subrange(0, i as int)),
            value == decimal_value(text@.subrange(0, i as int)),
        decreases len - i,
    {
        let ghost before = text@.subrange(0, i as int);
        let ghost longer = text@.subrange(0, i + 1);
        assert(longer.drop_last() =~= before);
        assert(longer.last() == text@[i as int]);
        match digit_of(text.get_char(i)) {
            None => {
                assert(!all_digits(text@));
                return None;
            },
            Some(d) => {
                proof {
                    assert forall|k: int| 0 <= k < longer.len() implies digit_value(
                        #[trigger] longer[k],
                    ) is Some by {
                        if k < i {
                            assert(longer[k] == before[k]);
                        }
                    }
                }
                if value > (usize::MAX - d) / 10 {
                    proof {
                        // the digits read so far already stand for too large a number
                        assert(decimal_value(longer) > usize::MAX);
                        if all_digits(text@) {
                            lemma_decimal_value_grows(text@, i + 1);
                        }
                    }
                    return None;
                }
                value = value * 10 + d;
            },
        }
        i += 1;
    }
    assert(text@.subrange(0, len as int) =~= text@);
    Some(value)
}

impl EventCard {
    /// The name of the event.
    pub fn name(self) -> (text: String)
        ensures
            text@ == event_name(self),
    {
        match self {
            EventCard::GovernmentGrant => String::from_str("GovernmentGrant"),
            EventCard::ResilientPopulation => String::from_str("ResilientPopulation"),
            EventCard::Airlift => String::from_str("Airlift"),
            EventCard::Forecast => String::from_str("Forecast"),
            EventCard::OneQuietNight => String::from_str("OneQuietNight"),
        }
    }

    /// The event that a text names, if it names one.
    pub fn from_name(s: &str) -> (event: Option<EventCard>)
        ensures
            event == parse_event(s@),
    {
        let text = String::from_str(s);
        if text == String::from_str("GovernmentGrant") {
            Some(EventCard::GovernmentGrant)
        } else if text == String::from_str("ResilientPopulation") {
            Some(EventCard::ResilientPopulation)
        } else if text == String::from_str("Airlift") {
            Some(EventCard::Airlift)
        } else if text == String::from_str("Forecast") {
            Some(EventCard::Forecast)
        } else if text == String::from_str("OneQuietNight") {
            Some(EventCard::OneQuietNight)
        } else {
            None
        }
    }
}

impl PlayerCard {
    /// Reads a card: the name of an event, else the index of a city in
    /// decimal digits, else the word `Epidemic`.
    pub fn from_str(s: &str) -> (card: Result<PlayerCard, ()>)
        ensures
            match parse_card(s@) {
                Some(c) => card == Ok::<PlayerCard, ()>(c),
                None => card is Err,
            },
    {
        match EventCard::from_name(s) {
            Some(event_card) => Result::Ok(PlayerCard::EventCard(event_card)),
            None => match read_decimal(s) {
                Some(index) => Result::Ok(PlayerCard::CityCard(CityCard(index))),
                None => {
                    if String::from_str(s) == String::from_str("Epidemic") {
                        Ok(PlayerCard::Epidemic)
                    } else {
                        Result::Err(())
                    }
                },
            },
        }
    }

    /// Writes a card: `CityCard(7)` for the city of index 7,
    /// `EventCard(Airlift)` for an event, `Epidemic` for an epidemic. Two
    /// cards are never written alike, and the epidemic is written as
    /// `from_str` reads it.
    pub fn to_str(self) -> (text: String)
        ensures
            text@ == card_text(self),
            self == PlayerCard::Epidemic ==> parse_card(text@) == Some(self),
    {
        proof {
            reveal_strlit("GovernmentGrant");
            reveal_strlit("ResilientPopulation");
            reveal_strlit("Airlift");
            reveal_strlit("Forecast");
            reveal_strlit("OneQuietNight");
            reveal_strlit("Epidemic");
            assert(digit_value("Epidemic"@[0]) is None);
        }
        match self {
            PlayerCard::CityCard(city) => String::from_str("CityCard(").concat(
                decimal_text(city.0).as_str(),
            ).concat(")"),
            PlayerCard::EventCard(event) => String::from_str("EventCard(").concat(
                event.name().as_str(),
            ).concat(")"),
            PlayerCard::Epidemic => String::from_str("Epidemic"),
        }
    }
}

} // verus!
