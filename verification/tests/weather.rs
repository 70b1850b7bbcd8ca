use socks_weather::number_text::{decimal_string, parse_number};
use socks_weather::weather::{
    api_info_search, geo_api_location_choice, list_locations, receive_location_name, start,
    GeoLocation, GeoLocationResponse, LocationNameStep, Point, Reply, State,
};

fn hit(name: &str, lat: f64, lng: f64) -> GeoLocation {
    GeoLocation {
        point: Point { lat: lat.to_bits(), lng: lng.to_bits() },
        country: Some("FR".to_string()),
        name: Some(name.to_string()),
    }
}

fn two_hits() -> GeoLocationResponse {
    GeoLocationResponse { hits: vec![hit("Paris", 48.85, 2.35), hit("Paris, Texas", 33.66, -95.55)] }
}

fn texts(replies: &[Reply]) -> Vec<String> {
    replies.iter().map(|r| r.text()).collect()
}

#[test]
fn start_asks_for_a_location() {
    let t = start();
    assert_eq!(texts(&t.replies), vec!["Eneter the name of the location"]);
    assert_eq!(t.next, Some(State::ReceiveLocationName));
    assert_eq!(State::default(), State::Start);
}

#[test]
fn location_name_without_text_is_refused() {
    match receive_location_name(None) {
        LocationNameStep::Refuse(t) => {
            assert_eq!(texts(&t.replies), vec!["send me plain text."]);
            assert_eq!(t.next, None);
        }
        _ => panic!("expected a refusal"),
    }
    match receive_location_name(Some("Lyon")) {
        LocationNameStep::Lookup { query } => assert_eq!(query, "Lyon"),
        _ => panic!("expected a lookup"),
    }
}

#[test]
fn locations_are_listed_from_one() {
    let t = list_locations(two_hits());
    assert_eq!(
        texts(&t.replies),
        vec!["1. Paris", "2. Paris, Texas", "Select location by intering its number"]
    );
    assert_eq!(t.next, Some(State::GeoApiLocationChoice { locations: two_hits() }));
    let empty = list_locations(GeoLocationResponse { hits: vec![] });
    assert_eq!(texts(&empty.replies), vec!["Select location by intering its number"]);
}

#[test]
fn picking_a_listed_number() {
    let t = geo_api_location_choice(two_hits(), Some("2"));
    assert_eq!(texts(&t.replies), vec!["enter any message to continue"]);
    assert_eq!(
        t.next,
        Some(State::ApiInfoSearch { location: hit("Paris, Texas", 33.66, -95.55) })
    );
    let t = geo_api_location_choice(two_hits(), Some("+1"));
    assert_eq!(t.next, Some(State::ApiInfoSearch { location: hit("Paris", 48.85, 2.35) }));
}

#[test]
fn picking_past_the_list() {
    let t = geo_api_location_choice(two_hits(), Some("3"));
    assert_eq!(
        texts(&t.replies),
        vec!["enter any message to continue", "number out of range, enter valid number."]
    );
    assert_eq!(t.next, None);
}

#[test]
fn picking_without_a_number() {
    for text in [None, Some("two"), Some(""), Some(" 1"), Some("-1"), Some("1.0")] {
        let t = geo_api_location_choice(two_hits(), text);
        assert_eq!(texts(&t.replies), vec!["number is not valid enter, enter valid number."]);
        assert_eq!(t.next, None);
    }
}

#[test]
fn listed_number_picks_its_location() {
    let hits = two_hits();
    let listed = list_locations(hits.clone());
    for (i, reply) in listed.replies.iter().take(hits.hits.len()).enumerate() {
        let number = match reply {
            Reply::LocationOption { number, .. } => *number,
            _ => panic!("expected a numbered line"),
        };
        let typed = decimal_string(number);
        assert!(reply.text().starts_with(&format!("{}. ", typed)));
        let t = geo_api_location_choice(hits.clone(), Some(typed.as_str()));
        assert_eq!(t.next, Some(State::ApiInfoSearch { location: hits.hits[i].clone() }));
    }
}

#[test]
fn weather_report() {
    let t = api_info_search(Some(vec!["Clouds".to_string(), "Rain".to_string()]), "5.5".to_string());
    assert_eq!(texts(&t.replies), vec!["the weather is Clouds\nand the temperature is 5.5"]);
    assert_eq!(t.next, Some(State::Start));
    let t = api_info_search(None, "-2".to_string());
    assert_eq!(texts(&t.replies), vec!["the weather is \nand the temperature is -2"]);
    assert_eq!(t.next, Some(State::Start));
}

#[test]
fn numbers_parse_like_usize() {
    assert_eq!(parse_number("42"), Some(42));
    assert_eq!(parse_number("+7"), Some(7));
    assert_eq!(parse_number("007"), Some(7));
    assert_eq!(parse_number("0"), Some(0));
    assert_eq!(parse_number(""), None);
    assert_eq!(parse_number("+"), None);
    assert_eq!(parse_number("-1"), None);
    assert_eq!(parse_number("4 2"), None);
    assert_eq!(parse_number("١"), None);
    assert_eq!(parse_number("18446744073709551615"), "18446744073709551615".parse::<usize>().ok());
    assert_eq!(parse_number("18446744073709551616"), None);
    assert_eq!(parse_number("99999999999999999999999"), None);
    for s in ["12", "+0", "x", "", "3a", "+-3", "123456789"] {
        assert_eq!(parse_number(s), s.parse::<usize>().ok());
    }
}

#[test]
fn decimal_text() {
    assert_eq!(decimal_string(0), "0");
    assert_eq!(decimal_string(9), "9");
    assert_eq!(decimal_string(10), "10");
    assert_eq!(decimal_string(1234), "1234");
    assert_eq!(decimal_string(usize::MAX), usize::MAX.to_string());
}

#[test]
fn reply_texts() {
    assert_eq!(Reply::AskLocationNumber.text(), "Select location by intering its number");
    assert_eq!(
        Reply::LocationOption { number: 12, name: "Nice".to_string() }.text(),
        "12. Nice"
    );
    assert_eq!(Reply::NumberOutOfRange.text(), "number out of range, enter valid number.");
}
