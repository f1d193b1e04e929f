use vstd::prelude::*;

use crate::error::{Error, JsonKind};
use crate::json::{lemma_read_all_failed, lemma_read_all_ok, lemma_read_all_step, read_all, Json};

verus! {

/// A coordinate: a JSON number, read as its text.
pub open spec fn read_coordinate(j: Json) -> Result<String, Error> {
    match j {
        Json::Number(n) => Ok(n),
        _ => Err(Error::TypeMismatch(JsonKind::Number)),
    }
}

/// `read_coordinate` as a value, to read each item of a sequence with.
pub open spec fn coordinate_reader() -> spec_fn(Json) -> Result<String, Error> {
    |j: Json| read_coordinate(j)
}

/// A position: an array of coordinates.
pub open spec fn read_position(j: Json) -> Result<Seq<String>, Error> {
    match j {
        Json::Array(a) => read_all(a@, coordinate_reader()),
        _ => Err(Error::TypeMismatch(JsonKind::Array)),
    }
}

/// `read_position` as a value, to read each item of a sequence with.
pub open spec fn position_reader() -> spec_fn(Json) -> Result<Seq<String>, Error> {
    |j: Json| read_position(j)
}

/// What decoding the items of a JSON array as a ring gives.
pub open spec fn ring_of(s: Seq<Json>) -> Result<Seq<Seq<String>>, Error> {
    read_all(s, position_reader())
}

/// `j` is the JSON array of the position `p`.
pub open spec fn position_json(p: Seq<String>, j: Json) -> bool {
    match j {
        Json::Array(a) => a@ == p.map_values(|c: String| Json::Number(c)),
        _ => false,
    }
}

/// `s` are the items of the JSON array of the ring `ring`.
pub open spec fn ring_json(ring: Seq<Seq<String>>, s: Seq<Json>) -> bool {
    &&& s.len() == ring.len()
    &&& forall|i: int| 0 <= i < s.len() ==> position_json(ring[i], #[trigger] s[i])
}

/// A closed sequence of positions; each position lists its coordinates as JSON number text.
#[derive(Debug, PartialEq)]
pub struct Ring(pub Vec<Vec<String>>);

impl View for Ring {
    type V = Seq<Seq<String>>;

    open spec fn view(&self) -> Seq<Seq<String>> {
        self.0@.map_values(|p: Vec<String>| p@)
    }
}

/// Reads the coordinates of a position from the items of a JSON array.
fn position_from_json(items: &Vec<Json>) -> (r: Result<Vec<String>, Error>)
    ensures
        match r {
            Ok(p) => read_all(items@, coordinate_reader()) == Ok::<Seq<String>, Error>(p@),
            Err(e) => read_all(items@, coordinate_reader()) == Err::<Seq<String>, Error>(e),
        },
{
    let mut coordinates: Vec<String> = Vec::new();
    let mut i: usize = 0;
    while i < items.len()
        invariant
            i <= items@.len(),
            read_all(items@.subrange(0, i as int), coordinate_reader()) == Ok::<
                Seq<String>,
                Error,
            >(coordinates@),
        decreases items@.len() - i,
    {
        proof {
            lemma_read_all_step(items@, coordinate_reader(), i as int);
        }
        match &items[i] {
            Json::Number(n) => coordinates.push(n.clone()),
            _ => {
                proof {
                    lemma_read_all_failed(items@, coordinate_reader(), i + 1);
                }
                return Err(Error::TypeMismatch(JsonKind::Number));
            },
        }
        i += 1;
    }
    assert(items@.subrange(0, items@.len() as int) =~= items@);
    Ok(coordinates)
}

/// The items of the JSON array of a position.
fn position_to_json(p: &Vec<String>) -> (r: Vec<Json>)
    ensures
        r@ == p@.map_values(|c: String| Json::Number(c)),
{
    let mut items: Vec<Json> = Vec::new();
    let mut i: usize = 0;
    while i < p.len()
        invariant
            i <= p@.len(),
            items@ =~= p@.subrange(0, i as int).map_values(|c: String| Json::Number(c)),
        decreases p@.len() - i,
    {
        items.push(Json::Number(p[i].clone()));
        i += 1;
    }
    assert(p@.subrange(0, p@.len() as int) =~= p@);
    items
}

impl Ring {
    /// Reads a ring from the items of a JSON array: each must be an array of numbers.
    pub fn from_json(json_ring: &Vec<Json>) -> (r: Result<Ring, Error>)
        ensures
            match r {
                Ok(ring) => ring_of(json_ring@) == Ok::<Seq<Seq<String>>, Error>(ring@),
                Err(e) => ring_of(json_ring@) == Err::<Seq<Seq<String>>, Error>(e),
            },
    {
        let mut positions: Vec<Vec<String>> = Vec::new();
        let mut i: usize = 0;
        assert(positions@.map_values(|p: Vec<String>| p@) =~= Seq::<Seq<String>>::empty());
        while i < json_ring.len()
            invariant
                i <= json_ring@.len(),
                read_all(json_ring@.subrange(0, i as int), position_reader()) == Ok::<
                    Seq<Seq<String>>,
                    Error,
                >(positions@.map_values(|p: Vec<String>| p@)),
            decreases json_ring@.len() - i,
        {
            proof {
                lemma_read_all_step(json_ring@, position_reader(), i as int);
            }
            let read = match &json_ring[i] {
                Json::Array(items) => position_from_json(items),
                _ => Err(Error::TypeMismatch(JsonKind::Array)),
            };
            match read {
                Ok(p) => {
                    let ghost before = positions@;
                    positions.push(p);
                    assert(positions@.map_values(|p: Vec<String>| p@) =~= before.map_values(
                        |p: Vec<String>| p@,
                    ).push(p@));
                },
                Err(e) => {
                    proof {
                        lemma_read_all_failed(json_ring@, position_reader(), i + 1);
                    }
                    return Err(e);
                },
            }
            i += 1;
        }
        assert(json_ring@.subrange(0, json_ring@.len() as int) =~= json_ring@);
        Ok(Ring(positions))
    }

    /// The items of the JSON array for this ring: one array of numbers per position.
    pub fn to_json(&self) -> (r: Vec<Json>)
        ensures
            ring_json(self@, r@),
    {
        let mut items: Vec<Json> = Vec::new();
        let mut i: usize = 0;
        while i < self.0.len()
            invariant
                i <= self.0@.len(),
                items@.len() == i,
                forall|k: int| 0 <= k < i ==> position_json(self@[k], #[trigger] items@[k]),
            decreases self.0@.len() - i,
        {
            items.push(Json::Array(position_to_json(&self.0[i])));
            i += 1;
        }
        items
    }
}

/// Decoding the JSON array of a ring gives that ring back.
pub proof fn lemma_ring_round_trip(ring: Seq<Seq<String>>, s: Seq<Json>)
    requires
        ring_json(ring, s),
    ensures
        ring_of(s) == Ok::<Seq<Seq<String>>, Error>(ring),
{
    assert forall|i: int| 0 <= i < s.len() implies position_reader()(s[i]) == Ok::<
        Seq<String>,
        Error,
    >(ring[i]) by {
        assert(position_json(ring[i], s[i]));
        let a = match s[i] {
            Json::Array(a) => a@,
            _ => Seq::empty(),
        };
        assert forall|k: int| 0 <= k < a.len() implies coordinate_reader()(a[k]) == Ok::<
            String,
            Error,
        >(ring[i][k]) by {}
        lemma_read_all_ok(a, coordinate_reader(), ring[i]);
    }
    lemma_read_all_ok(s, position_reader(), ring);
}

} // verus!
