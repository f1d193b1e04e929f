use geojson::{Error, Json, JsonKind, Poly, Ring};

fn num(text: &str) -> Json {
    Json::Number(text.to_string())
}

fn position(coords: &[&str]) -> Vec<String> {
    coords.iter().map(|c| c.to_string()).collect()
}

fn square() -> Ring {
    Ring(vec![
        position(&["0", "0"]),
        position(&["1", "0"]),
        position(&["1", "1"]),
        position(&["0", "0"]),
    ])
}

fn hole() -> Ring {
    Ring(vec![
        position(&["0.2", "0.2"]),
        position(&["0.4", "0.2"]),
        position(&["0.2", "0.2"]),
    ])
}

#[test]
fn encode_empty_poly() {
    assert_eq!(Poly(vec![]).to_json(), Json::Array(vec![]));
}

#[test]
fn decode_empty_poly() {
    assert_eq!(Poly::from_json(&vec![]), Ok(Poly(vec![])));
}

#[test]
fn encode_poly() {
    let poly = Poly(vec![Ring(vec![position(&["1.5", "-2"]), position(&["3", "4", "5"])])]);
    assert_eq!(
        poly.to_json(),
        Json::Array(vec![Json::Array(vec![
            Json::Array(vec![num("1.5"), num("-2")]),
            Json::Array(vec![num("3"), num("4"), num("5")]),
        ])])
    );
}

#[test]
fn decode_poly() {
    let json = vec![Json::Array(vec![
        Json::Array(vec![num("0"), num("0")]),
        Json::Array(vec![num("1"), num("0")]),
        Json::Array(vec![num("1"), num("1")]),
        Json::Array(vec![num("0"), num("0")]),
    ])];
    assert_eq!(Poly::from_json(&json), Ok(Poly(vec![square()])));
}

#[test]
fn poly_round_trip() {
    let poly = Poly(vec![square(), hole()]);
    let json = match poly.to_json() {
        Json::Array(items) => items,
        other => panic!("not an array: {:?}", other),
    };
    assert_eq!(Poly::from_json(&json), Ok(poly));
}

#[test]
fn ring_round_trip() {
    assert_eq!(Ring::from_json(&hole().to_json()), Ok(hole()));
}

#[test]
fn decode_ring_that_is_not_an_array() {
    let json = vec![Json::Array(vec![]), num("1")];
    assert_eq!(Poly::from_json(&json), Err(Error::TypeMismatch(JsonKind::Array)));
}

#[test]
fn decode_position_that_is_not_an_array() {
    let json = vec![Json::Array(vec![Json::Array(vec![num("1"), num("2")]), Json::Null])];
    assert_eq!(Poly::from_json(&json), Err(Error::TypeMismatch(JsonKind::Array)));
}

#[test]
fn decode_coordinate_that_is_not_a_number() {
    let json = vec![Json::Array(vec![Json::Array(vec![num("1"), Json::String("2".to_string())])])];
    assert_eq!(Poly::from_json(&json), Err(Error::TypeMismatch(JsonKind::Number)));
}

#[test]
fn decode_reports_first_failure() {
    let json = vec![
        Json::Array(vec![Json::Array(vec![Json::Boolean(false)])]),
        Json::Null,
    ];
    assert_eq!(Poly::from_json(&json), Err(Error::TypeMismatch(JsonKind::Number)));
}
