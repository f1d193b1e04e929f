use vstd::prelude::*;

use crate::error::{Error, JsonKind, Property};
use crate::json::{find_member, member, Json, JsonObject};

verus! {

/// Coordinate reference system object.
#[derive(Debug, PartialEq)]
pub enum Crs {
    /// A CRS identified by a well-known name.
    Named { name: String },
    /// A CRS identified by a link, with an optional hint on the linked resource's format.
    Linked { href: String, type_: Option<String> },
}

/// `j` is a JSON string whose text is `s`.
pub open spec fn is_string(j: Json, s: Seq<char>) -> bool {
    match j {
        Json::String(t) => t@ == s,
        _ => false,
    }
}

/// What decoding a CRS object with members `obj` gives.
pub open spec fn crs_of(obj: Seq<(String, Json)>) -> Result<Crs, Error> {
    match member(obj, "type"@) {
        Some(Json::String(t)) => match member(obj, "properties"@) {
            None => Err(Error::MissingProperty(Property::Properties)),
            Some(Json::Object(props)) => {
                if t@ == "name"@ {
                    match member(props@, "name"@) {
                        None => Err(Error::MissingProperty(Property::Name)),
                        Some(Json::String(name)) => Ok(Crs::Named { name }),
                        Some(_) => Err(Error::TypeMismatch(JsonKind::String)),
                    }
                } else if t@ == "link"@ {
                    match member(props@, "href"@) {
                        None => Err(Error::MissingProperty(Property::Href)),
                        Some(Json::String(href)) => match member(props@, "type"@) {
                            None => Ok(Crs::Linked { href, type_: None }),
                            Some(Json::String(ty)) => Ok(Crs::Linked { href, type_: Some(ty) }),
                            Some(_) => Err(Error::TypeMismatch(JsonKind::String)),
                        },
                        Some(_) => Err(Error::TypeMismatch(JsonKind::String)),
                    }
                } else {
                    Err(Error::CrsUnknownType(t))
                }
            },
            Some(_) => Err(Error::TypeMismatch(JsonKind::Object)),
        },
        _ => Err(Error::UnsupportedType),
    }
}

/// `props` are the members of the `properties` object that encodes `c`.
pub open spec fn crs_properties(c: Crs, props: Seq<(String, Json)>) -> bool {
    match c {
        Crs::Named { name } => props.len() == 1 && props[0].0@ == "name"@ && props[0].1
            == Json::String(name),
        Crs::Linked { href, type_ } => props.len() >= 1 && props[0].0@ == "href"@ && props[0].1
            == Json::String(href) && match type_ {
            None => props.len() == 1,
            Some(ty) => props.len() == 2 && props[1].0@ == "type"@ && props[1].1 == Json::String(ty),
        },
    }
}

/// `obj` are the members of the object that encodes `c`: `properties`, then `type`.
pub open spec fn crs_object(c: Crs, obj: Seq<(String, Json)>) -> bool {
    &&& obj.len() == 2
    &&& obj[0].0@ == "properties"@
    &&& match obj[0].1 {
        Json::Object(props) => crs_properties(c, props@),
        _ => false,
    }
    &&& obj[1].0@ == "type"@
    &&& is_string(
        obj[1].1,
        match c {
            Crs::Named { .. } => "name"@,
            Crs::Linked { .. } => "link"@,
        },
    )
}

/// Decoding what encodes a CRS gives that CRS back.
pub proof fn lemma_crs_round_trip(c: Crs, obj: Seq<(String, Json)>)
    requires
        crs_object(c, obj),
    ensures
        crs_of(obj) == Ok::<Crs, Error>(c),
{
    reveal_strlit("type");
    reveal_strlit("properties");
    reveal_strlit("name");
    reveal_strlit("link");
    reveal_strlit("href");
    reveal_with_fuel(member, 3);
    assert("properties"@.len() != "type"@.len());
    assert("href"@[0] != "type"@[0]);
    assert("name"@[0] != "link"@[0]);
    assert(member(obj, "type"@) == Some(obj[1].1));
    assert(member(obj, "properties"@) == Some(obj[0].1));
    let props = match obj[0].1 {
        Json::Object(p) => p@,
        _ => Seq::empty(),
    };
    match c {
        Crs::Named { name } => {
            assert(member(props, "name"@) == Some(props[0].1));
        },
        Crs::Linked { href, type_ } => {
            assert(member(props, "href"@) == Some(props[0].1));
            if props.len() == 2 {
                assert(member(props, "type"@) == Some(props[1].1));
            } else {
                assert(member(props, "type"@) is None);
            }
        },
    }
}

impl Crs {
    /// Reads a CRS from the members of a JSON object.
    pub fn from_object(object: &JsonObject) -> (r: Result<Crs, Error>)
        ensures
            r == crs_of(object@),
    {
        let type_ = match find_member(object, &"type".to_owned()) {
            Some(i) => match &object[i].1 {
                Json::String(t) => t,
                _ => return Err(Error::UnsupportedType),
            },
            None => return Err(Error::UnsupportedType),
        };
        let properties = match find_member(object, &"properties".to_owned()) {
            Some(i) => match &object[i].1 {
                Json::Object(p) => p,
                _ => return Err(Error::TypeMismatch(JsonKind::Object)),
            },
            None => return Err(Error::MissingProperty(Property::Properties)),
        };
        if *type_ == "name".to_owned() {
            match find_member(properties, &"name".to_owned()) {
                Some(i) => match &properties[i].1 {
                    Json::String(name) => Ok(Crs::Named { name: name.clone() }),
                    _ => Err(Error::TypeMismatch(JsonKind::String)),
                },
                None => Err(Error::MissingProperty(Property::Name)),
            }
        } else if *type_ == "link".to_owned() {
            let href = match find_member(properties, &"href".to_owned()) {
                Some(i) => match &properties[i].1 {
                    Json::String(href) => href.clone(),
                    _ => return Err(Error::TypeMismatch(JsonKind::String)),
                },
                None => return Err(Error::MissingProperty(Property::Href)),
            };
            let type_ = match find_member(properties, &"type".to_owned()) {
                Some(i) => match &properties[i].1 {
                    Json::String(ty) => Some(ty.clone()),
                    _ => return Err(Error::TypeMismatch(JsonKind::String)),
                },
                None => None,
            };
            Ok(Crs::Linked { href, type_ })
        } else {
            Err(Error::CrsUnknownType(type_.clone()))
        }
    }

    /// Reads a CRS from a JSON value, which must be an object.
    pub fn from_json(value: &Json) -> (r: Result<Crs, Error>)
        ensures
            r == match value {
                Json::Object(obj) => crs_of(obj@),
                _ => Err(Error::TypeMismatch(JsonKind::Object)),
            },
    {
        match value {
            Json::Object(obj) => Crs::from_object(obj),
            _ => Err(Error::TypeMismatch(JsonKind::Object)),
        }
    }

    /// The members of the JSON object for this CRS, in lexicographic order of name.
    pub fn to_object(&self) -> (r: JsonObject)
        ensures
            crs_object(*self, r@),
    {
        let mut properties: JsonObject = Vec::new();
        let tag: String;
        match self {
            Crs::Named { name } => {
                tag = "name".to_owned();
                properties.push(("name".to_owned(), Json::String(name.clone())));
            },
            Crs::Linked { href, type_ } => {
                tag = "link".to_owned();
                properties.push(("href".to_owned(), Json::String(href.clone())));
                if let Some(ty) = type_ {
                    properties.push(("type".to_owned(), Json::String(ty.clone())));
                }
            },
        }
        let mut object: JsonObject = Vec::new();
        object.push(("properties".to_owned(), Json::Object(properties)));
        object.push(("type".to_owned(), Json::String(tag)));
        object
    }

    /// This CRS as a JSON object value.
    pub fn to_json(&self) -> (r: Json)
        ensures
            match r {
                Json::Object(obj) => crs_object(*self, obj@),
                _ => false,
            },
    {
        Json::Object(self.to_object())
    }
}

} // verus!
