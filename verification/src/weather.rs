use vstd::prelude::*;
use vstd::string::*;

use crate::number_text::{decimal, decimal_string, lemma_parse_decimal, parse_number, parse_usize};

verus! {

/// A point on the globe. Latitude and longitude are kept as the bit
/// patterns of the `f64` values the geocoding service returned, so that
/// they pass through the dialogue unchanged.
#[derive(Clone, Copy, PartialEq, Eq, Structural, Debug)]
pub struct Point {
    pub lat: u64,
    pub lng: u64,
}

/// One hit of a geocoding query.
#[derive(Clone, Debug, PartialEq)]
pub struct GeoLocation {
    pub point: Point,
    pub country: Option<String>,
    pub name: Option<String>,
}

/// The hits of a geocoding query, in the order the service gave them.
#[derive(Clone, Debug, PartialEq)]
pub struct GeoLocationResponse {
    pub hits: Vec<GeoLocation>,
}

/// Where the conversation with a user stands.
#[derive(Clone, Debug, PartialEq)]
pub enum State {
    /// Nothing asked yet.
    Start,
    /// The bot asked for the name of a location.
    ReceiveLocationName,
    /// The bot listed these locations and asked the user to pick one by number.
    GeoApiLocationChoice { locations: GeoLocationResponse },
    /// The user picked this location; the next message asks for its weather.
    ApiInfoSearch { location: GeoLocation },
}

impl Default for State {
    fn default() -> (r: State)
        ensures
            r == State::Start,
    {
        State::Start
    }
}

/// A message the bot sends.
#[derive(Clone, Debug, PartialEq)]
pub enum Reply {
    AskLocationName,
    AskPlainText,
    /// One line of the list of locations: its number and its name.
    LocationOption { number: usize, name: String },
    AskLocationNumber,
    AskAnyMessage,
    NumberOutOfRange,
    NumberNotValid,
    /// The weather's description and the temperature, already written out.
    WeatherReport { description: String, temperature: String },
}

/// The text the user sees for a reply.
pub open spec fn reply_text(r: Reply) -> Seq<char> {
    match r {
        Reply::AskLocationName => "Eneter the name of the location"@,
        Reply::AskPlainText => "send me plain text."@,
        Reply::LocationOption { number, name } => decimal(number as nat) + ". "@ + name@,
        Reply::AskLocationNumber => "Select location by intering its number"@,
        Reply::AskAnyMessage => "enter any message to continue"@,
        Reply::NumberOutOfRange => "number out of range, enter valid number."@,
        Reply::NumberNotValid => "number is not valid enter, enter valid number."@,
        Reply::WeatherReport { description, temperature } => "the weather is "@ + description@
            + "\nand the temperature is "@ + temperature@,
    }
}

impl Reply {
    /// The text of the reply (see `reply_text`).
    pub fn text(&self) -> (r: String)
        ensures
            r@ == reply_text(*self),
            self matches Reply::WeatherReport { description, temperature } ==> r@ == "the weather is "@
                + description@ + "\nand the temperature is "@ + temperature@,
            self matches Reply::LocationOption { number, name } ==> r@ == decimal(number as nat)
                + ". "@ + name@,
    {
        match self {
            Reply::AskLocationName => String::from_str("Eneter the name of the location"),
            Reply::AskPlainText => String::from_str("send me plain text."),
            Reply::LocationOption { number, name } => {
                let mut r = decimal_string(*number);
                r.append(". ");
                r.append(name.as_str());
                r
            },
            Reply::AskLocationNumber => String::from_str("Select location by intering its number"),
            Reply::AskAnyMessage => String::from_str("enter any message to continue"),
            Reply::NumberOutOfRange => String::from_str("number out of range, enter valid number."),
            Reply::NumberNotValid => String::from_str(
                "number is not valid enter, enter valid number.",
            ),
            Reply::WeatherReport { description, temperature } => {
                let mut r = String::from_str("the weather is ");
                r.append(description.as_str());
                r.append("\nand the temperature is ");
                r.append(temperature.as_str());
                r
            },
        }
    }
}

/// What a message leads to: the replies to send, in order, and the state the
/// conversation moves to (`None`: it stays where it is).
pub struct Transition {
    pub replies: Vec<Reply>,
    pub next: Option<State>,
}

/// The first message: the bot asks for a location name.
pub fn start() -> (t: Transition)
    ensures
        t.replies@ == seq![Reply::AskLocationName],
        t.next == Some(State::ReceiveLocationName),
{
    let mut replies: Vec<Reply> = Vec::new();
    replies.push(Reply::AskLocationName);
    Transition { replies, next: Some(State::ReceiveLocationName) }
}

/// What a message with a location name leads to.
pub enum LocationNameStep {
    /// The message held no text: answer, and keep waiting for a name.
    Refuse(Transition),
    /// Query the geocoding service with this text, then call `list_locations`.
    Lookup { query: String },
}

/// A message arrived while the bot waits for a location name: its text, if
/// any, is what the geocoding service is asked about.
pub fn receive_location_name(text: Option<&str>) -> (r: LocationNameStep)
    ensures
        match text {
            None => r matches LocationNameStep::Refuse(t) && t.replies@ == seq![
                Reply::AskPlainText,
            ] && t.next is None,
            Some(s) => r matches LocationNameStep::Lookup { query } && query@ == s@,
        },
{
    match text {
        None => {
            let mut replies: Vec<Reply> = Vec::new();
            replies.push(Reply::AskPlainText);
            LocationNameStep::Refuse(Transition { replies, next: None })
        },
        Some(s) => LocationNameStep::Lookup { query: s.to_owned() },
    }
}

/// Whether every hit has a name.
pub open spec fn all_named(hits: Seq<GeoLocation>) -> bool {
    forall|i: int| 0 <= i < hits.len() ==> (#[trigger] hits[i]).name is Some
}

/// The list the user picks from: the hits numbered from 1 in the order
/// given, then the request to pick one.
pub open spec fn listing(hits: Seq<GeoLocation>) -> Seq<Reply> {
    Seq::new(
        hits.len(),
        |i: int| Reply::LocationOption { number: (i + 1) as usize, name: hits[i].name->0 },
    ).push(Reply::AskLocationNumber)
}

/// The geocoding service answered: its hits are listed and the user is
/// asked to pick one.
pub fn list_locations(locations: GeoLocationResponse) -> (t: Transition)
    requires
        all_named(locations.hits@),
        locations.hits@.len() < usize::MAX,
    ensures
        t.replies@ == listing(locations.hits@),
        t.next == Some(State::GeoApiLocationChoice { locations }),
        t.replies@.len() == locations.hits@.len() + 1,
        forall|i: int|
            0 <= i < locations.hits@.len() ==> t.replies@[i] == (Reply::LocationOption {
                number: (i + 1) as usize,
                name: locations.hits@[i].name->0,
            }),
        t.replies@.last() == Reply::AskLocationNumber,
{
    proof {
        lemma_listing_lines(locations.hits@);
    }
    let mut replies: Vec<Reply> = Vec::new();
    let n = locations.hits.len();
    let mut i: usize = 0;
    while i < n
        invariant
            n == locations.hits@.len(),
            n < usize::MAX,
            i <= n,
            all_named(locations.hits@),
            replies@ =~= listing(locations.hits@).take(i as int),
        decreases n - i,
    {
        let name = match &locations.hits[i].name {
            Some(name) => name.clone(),
            None => String::new(),
        };
        replies.push(Reply::LocationOption { number: i + 1, name });
        i += 1;
    }
    replies.push(Reply::AskLocationNumber);
    Transition { replies, next: Some(State::GeoApiLocationChoice { locations }) }
}

/// The text of a message, if it has one.
pub open spec fn text_view(text: Option<&str>) -> Option<Seq<char>> {
    match text {
        Some(s) => Some(s@),
        None => None,
    }
}

/// The number a message's text reads as, if any.
pub open spec fn chosen_number(text: Option<Seq<char>>) -> Option<usize> {
    match text {
        Some(t) => parse_usize(t),
        None => None,
    }
}

/// The replies to a pick: a number is acknowledged, and one past the end of
/// the list is refused; anything else is not a number.
pub open spec fn choice_replies(count: nat, number: Option<usize>) -> Seq<Reply> {
    match number {
        Some(k) => if k <= count {
            seq![Reply::AskAnyMessage]
        } else {
            seq![Reply::AskAnyMessage, Reply::NumberOutOfRange]
        },
        None => seq![Reply::NumberNotValid],
    }
}

/// Where a pick leads: the `k`-th hit (counting from 1) is the chosen
/// location; otherwise the conversation stays where it is.
pub open spec fn choice_next(hits: Seq<GeoLocation>, number: Option<usize>) -> Option<State> {
    match number {
        Some(k) => if 1 <= k <= hits.len() {
            Some(State::ApiInfoSearch { location: hits[k - 1] })
        } else {
            None
        },
        None => None,
    }
}

/// A message arrived while the user is to pick one of the listed locations.
pub fn geo_api_location_choice(locations: GeoLocationResponse, text: Option<&str>) -> (t:
    Transition)
    requires
        chosen_number(text_view(text)) != Some(0usize),
    ensures
        t.replies@ == choice_replies(
            locations.hits@.len(),
            chosen_number(text_view(text)),
        ),
        t.next == choice_next(locations.hits@, chosen_number(text_view(text))),
        chosen_number(text_view(text)) is None ==> t.replies@ == seq![Reply::NumberNotValid]
            && t.next is None,
        chosen_number(text_view(text)) is Some && chosen_number(text_view(text))->0
            <= locations.hits@.len() ==> t.replies@ == seq![Reply::AskAnyMessage] && t.next == Some(
            State::ApiInfoSearch {
                location: locations.hits@[chosen_number(text_view(text))->0 - 1],
            },
        ),
        chosen_number(text_view(text)) is Some && chosen_number(text_view(text))->0
            > locations.hits@.len() ==> t.replies@ == seq![
            Reply::AskAnyMessage,
            Reply::NumberOutOfRange,
        ] && t.next is None,
        t.next is Some ==> chosen_number(text_view(text)) is Some && 1 <= chosen_number(
            text_view(text),
        )->0 <= locations.hits@.len(),
{
    proof {
        lemma_pick_outcome(locations.hits@, chosen_number(text_view(text)));
    }
    let number = match text {
        Some(s) => parse_number(s),
        None => None,
    };
    let mut replies: Vec<Reply> = Vec::new();
    match number {
        Some(k) => {
            replies.push(Reply::AskAnyMessage);
            let mut hits = locations.hits;
            if k - 1 < hits.len() {
                let location = hits.remove(k - 1);
                Transition { replies, next: Some(State::ApiInfoSearch { location }) }
            } else {
                replies.push(Reply::NumberOutOfRange);
                Transition { replies, next: None }
            }
        },
        None => {
            replies.push(Reply::NumberNotValid);
            Transition { replies, next: None }
        },
    }
}

/// The weather service answered for the chosen location: the report names
/// the first weather description (none when the service gave none) and the
/// temperature, and the conversation starts over.
pub fn api_info_search(weather: Option<Vec<String>>, temperature: String) -> (t: Transition)
    requires
        weather matches Some(v) ==> v@.len() > 0,
    ensures
        t.replies@.len() == 1,
        t.replies@[0] matches Reply::WeatherReport { description, temperature: shown } && shown
            == temperature && match weather {
            Some(v) => description == v@[0],
            None => description@ == Seq::<char>::empty(),
        },
        t.next == Some(State::Start),
{
    let description = match &weather {
        Some(v) => v[0].clone(),
        None => String::new(),
    };
    let mut replies: Vec<Reply> = Vec::new();
    replies.push(Reply::WeatherReport { description, temperature });
    Transition { replies, next: Some(State::Start) }
}

/// Typing back the number shown next to a listed location picks that
/// location: the `i`-th line of the list reads "`n`. name" with `n` written
/// in decimal, and a message holding just that decimal text is acknowledged
/// and moves the conversation to the `i`-th hit.
pub proof fn lemma_listed_number_selects_location(hits: Seq<GeoLocation>, i: int)
    requires
        0 <= i < hits.len(),
        hits.len() < usize::MAX,
    ensures
        listing(hits)[i] matches Reply::LocationOption { number, name } && {
            &&& reply_text(listing(hits)[i]) == decimal(number as nat) + ". "@ + name@
            &&& chosen_number(Some(decimal(number as nat))) == Some(number)
            &&& choice_replies(hits.len(), chosen_number(Some(decimal(number as nat)))) == seq![
                Reply::AskAnyMessage,
            ]
            &&& choice_next(hits, chosen_number(Some(decimal(number as nat)))) == Some(
                State::ApiInfoSearch { location: hits[i] },
            )
        },
{
    let number = (i + 1) as usize;
    assert(listing(hits)[i] == Reply::LocationOption { number, name: hits[i].name->0 });
    lemma_parse_decimal(number);
}

/// The list shows, for each hit in the order given, the number that picks it
/// (its position counted from 1) beside that hit's own name, and ends with
/// the request to pick one.
pub proof fn lemma_listing_lines(hits: Seq<GeoLocation>)
    ensures
        listing(hits).len() == hits.len() + 1,
        forall|i: int|
            0 <= i < hits.len() ==> listing(hits)[i] == (Reply::LocationOption {
                number: (i + 1) as usize,
                name: hits[i].name->0,
            }),
        listing(hits).last() == Reply::AskLocationNumber,
{
}

/// A pick by the number `k`: with 1 <= k <= the number of hits, it is
/// acknowledged and selects hit `k` (counting from 1); past the list it is
/// acknowledged, refused as out of range and the conversation stays; without
/// a number it is refused as not valid and the conversation stays. Only an
/// in-range number moves the conversation.
pub proof fn lemma_pick_outcome(hits: Seq<GeoLocation>, number: Option<usize>)
    requires
        number != Some(0usize),
    ensures
        number is None ==> choice_replies(hits.len(), number) == seq![Reply::NumberNotValid]
            && choice_next(hits, number) is None,
        number is Some && number->0 <= hits.len() ==> choice_replies(hits.len(), number) == seq![
            Reply::AskAnyMessage,
        ] && choice_next(hits, number) == Some(
            State::ApiInfoSearch { location: hits[number->0 - 1] },
        ),
        number is Some && number->0 > hits.len() ==> choice_replies(hits.len(), number) == seq![
            Reply::AskAnyMessage,
            Reply::NumberOutOfRange,
        ] && choice_next(hits, number) is None,
        choice_next(hits, number) is Some ==> number is Some && 1 <= number->0 <= hits.len(),
{
}

/// The weather report shows the description in full between its fixed
/// words, then the temperature.
pub proof fn lemma_weather_text(description: String, temperature: String)
    ensures
        reply_text(Reply::WeatherReport { description, temperature }) == "the weather is "@
            + description@ + "\nand the temperature is "@ + temperature@,
        reply_text(Reply::WeatherReport { description, temperature }).subrange(
            "the weather is "@.len() as int,
            ("the weather is "@.len() + description@.len()) as int,
        ) == description@,
{
    let s = reply_text(Reply::WeatherReport { description, temperature });
    let p = "the weather is "@;
    assert(s.subrange(p.len() as int, (p.len() + description@.len()) as int) =~= description@);
}

} // verus!
