use geojson::{Crs, Error, Json, JsonKind, JsonObject, Property};

fn s(text: &str) -> String {
    text.to_string()
}

fn string(text: &str) -> Json {
    Json::String(s(text))
}

fn object(members: Vec<(&str, Json)>) -> JsonObject {
    members.into_iter().map(|(k, v)| (s(k), v)).collect()
}

fn crs_object(type_: Json, properties: Json) -> JsonObject {
    object(vec![("type", type_), ("properties", properties)])
}

#[test]
fn decode_named() {
    let obj = crs_object(
        string("name"),
        Json::Object(object(vec![("name", string("urn:ogc:def:crs:EPSG::4326"))])),
    );
    assert_eq!(
        Crs::from_object(&obj),
        Ok(Crs::Named { name: s("urn:ogc:def:crs:EPSG::4326") })
    );
}

#[test]
fn decode_linked_without_type() {
    let obj = crs_object(
        string("link"),
        Json::Object(object(vec![("href", string("http://example.com/crs.json"))])),
    );
    assert_eq!(
        Crs::from_object(&obj),
        Ok(Crs::Linked { href: s("http://example.com/crs.json"), type_: None })
    );
}

#[test]
fn decode_linked_with_type() {
    let obj = crs_object(
        string("link"),
        Json::Object(object(vec![("href", string("x")), ("type", string("proj4"))])),
    );
    assert_eq!(
        Crs::from_object(&obj),
        Ok(Crs::Linked { href: s("x"), type_: Some(s("proj4")) })
    );
}

#[test]
fn decode_named_without_name() {
    let obj = crs_object(string("name"), Json::Object(object(vec![])));
    assert_eq!(Crs::from_object(&obj), Err(Error::MissingProperty(Property::Name)));
}

#[test]
fn decode_unknown_type() {
    let obj = crs_object(string("mercator"), Json::Object(object(vec![])));
    assert_eq!(Crs::from_object(&obj), Err(Error::CrsUnknownType(s("mercator"))));
}

#[test]
fn decode_without_type() {
    assert_eq!(Crs::from_object(&object(vec![])), Err(Error::UnsupportedType));
}

#[test]
fn decode_type_not_a_string() {
    let obj = crs_object(Json::Number(s("4326")), Json::Object(object(vec![])));
    assert_eq!(Crs::from_object(&obj), Err(Error::UnsupportedType));
}

#[test]
fn decode_without_properties() {
    let obj = object(vec![("type", string("name"))]);
    assert_eq!(Crs::from_object(&obj), Err(Error::MissingProperty(Property::Properties)));
}

#[test]
fn decode_properties_not_an_object() {
    let obj = crs_object(string("name"), string("urn:ogc:def:crs:EPSG::4326"));
    assert_eq!(Crs::from_object(&obj), Err(Error::TypeMismatch(JsonKind::Object)));
}

#[test]
fn decode_name_not_a_string() {
    let obj = crs_object(string("name"), Json::Object(object(vec![("name", Json::Null)])));
    assert_eq!(Crs::from_object(&obj), Err(Error::TypeMismatch(JsonKind::String)));
}

#[test]
fn decode_linked_without_href() {
    let obj = crs_object(string("link"), Json::Object(object(vec![("type", string("proj4"))])));
    assert_eq!(Crs::from_object(&obj), Err(Error::MissingProperty(Property::Href)));
}

#[test]
fn decode_href_not_a_string() {
    let obj = crs_object(
        string("link"),
        Json::Object(object(vec![("href", Json::Boolean(true))])),
    );
    assert_eq!(Crs::from_object(&obj), Err(Error::TypeMismatch(JsonKind::String)));
}

#[test]
fn decode_link_type_not_a_string() {
    let obj = crs_object(
        string("link"),
        Json::Object(object(vec![("href", string("x")), ("type", Json::Number(s("4")))])),
    );
    assert_eq!(Crs::from_object(&obj), Err(Error::TypeMismatch(JsonKind::String)));
}

#[test]
fn decode_ignores_other_members() {
    let obj = object(vec![
        ("extra", Json::Null),
        ("type", string("name")),
        ("properties", Json::Object(object(vec![("name", string("EPSG:3857")), ("x", Json::Null)]))),
    ]);
    assert_eq!(Crs::from_object(&obj), Ok(Crs::Named { name: s("EPSG:3857") }));
}

#[test]
fn decode_value_that_is_not_an_object() {
    assert_eq!(Crs::from_json(&Json::Null), Err(Error::TypeMismatch(JsonKind::Object)));
    let value = Json::Object(object(vec![("type", string("link")), ("properties", Json::Object(object(vec![("href", string("y"))])))]));
    assert_eq!(Crs::from_json(&value), Ok(Crs::Linked { href: s("y"), type_: None }));
}

#[test]
fn encode_named() {
    let crs = Crs::Named { name: s("EPSG:4326") };
    let expected = object(vec![
        ("properties", Json::Object(object(vec![("name", string("EPSG:4326"))]))),
        ("type", string("name")),
    ]);
    assert_eq!(crs.to_object(), expected);
    assert_eq!(crs.to_json(), Json::Object(expected));
}

#[test]
fn encode_linked() {
    let with_type = Crs::Linked { href: s("x"), type_: Some(s("proj4")) };
    assert_eq!(
        with_type.to_object(),
        object(vec![
            ("properties", Json::Object(object(vec![("href", string("x")), ("type", string("proj4"))]))),
            ("type", string("link")),
        ])
    );
    let without_type = Crs::Linked { href: s("x"), type_: None };
    assert_eq!(
        without_type.to_object(),
        object(vec![
            ("properties", Json::Object(object(vec![("href", string("x"))]))),
            ("type", string("link")),
        ])
    );
}

#[test]
fn crs_round_trip() {
    let values = vec![
        Crs::Named { name: s("urn:ogc:def:crs:OGC:1.3:CRS84") },
        Crs::Linked { href: s("http://example.com/crs.json"), type_: None },
        Crs::Linked { href: s("data.crs"), type_: Some(s("ogcwkt")) },
    ];
    for crs in values {
        assert_eq!(Crs::from_object(&crs.to_object()), Ok(crs));
    }
}
