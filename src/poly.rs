use vstd::prelude::*;

use crate::error::{Error, JsonKind};
use crate::json::{lemma_read_all_failed, lemma_read_all_ok, lemma_read_all_step, read_all, Json};
use crate::ring::{lemma_ring_round_trip, ring_json, ring_of, Ring};

verus! {

/// A ring: an array whose items read as a ring.
pub open spec fn read_ring(j: Json) -> Result<Seq<Seq<String>>, Error> {
    match j {
        Json::Array(a) => ring_of(a@),
        _ => Err(Error::TypeMismatch(JsonKind::Array)),
    }
}

/// `read_ring` as a value, to read each item of a sequence with.
pub open spec fn ring_reader() -> spec_fn(Json) -> Result<Seq<Seq<String>>, Error> {
    |j: Json| read_ring(j)
}

/// What decoding the items of a JSON array as a polygon gives: its rings in order, or the
/// first failure.
pub open spec fn poly_of(s: Seq<Json>) -> Result<Seq<Seq<Seq<String>>>, Error> {
    read_all(s, ring_reader())
}

/// `s` are the items of the JSON array of the polygon `poly`: one array per ring, in order.
pub open spec fn poly_json(poly: Seq<Seq<Seq<String>>>, s: Seq<Json>) -> bool {
    &&& s.len() == poly.len()
    &&& forall|i: int|
        0 <= i < s.len() ==> match #[trigger] s[i] {
            Json::Array(a) => ring_json(poly[i], a@),
            _ => false,
        }
}

/// A polygon: its rings in order, the exterior boundary first and then the holes.
#[derive(Debug, PartialEq)]
pub struct Poly(pub Vec<Ring>);

impl View for Poly {
    type V = Seq<Seq<Seq<String>>>;

    open spec fn view(&self) -> Seq<Seq<Seq<String>>> {
        self.0@.map_values(|r: Ring| r@)
    }
}

impl Poly {
    /// Reads a polygon from the items of a JSON array: each must be an array that reads as a
    /// ring. The first item that does not fails the whole polygon.
    pub fn from_json(json_poly: &Vec<Json>) -> (r: Result<Poly, Error>)
        ensures
            match r {
                Ok(poly) => poly_of(json_poly@) == Ok::<Seq<Seq<Seq<String>>>, Error>(poly@),
                Err(e) => poly_of(json_poly@) == Err::<Seq<Seq<Seq<String>>>, Error>(e),
            },
    {
        let mut rings: Vec<Ring> = Vec::new();
        let mut i: usize = 0;
        assert(rings@.map_values(|r: Ring| r@) =~= Seq::<Seq<Seq<String>>>::empty());
        while i < json_poly.len()
            invariant
                i <= json_poly@.len(),
                read_all(json_poly@.subrange(0, i as int), ring_reader()) == Ok::<
                    Seq<Seq<Seq<String>>>,
                    Error,
                >(rings@.map_values(|r: Ring| r@)),
            decreases json_poly@.len() - i,
        {
            proof {
                lemma_read_all_step(json_poly@, ring_reader(), i as int);
            }
            let read = match &json_poly[i] {
                Json::Array(items) => Ring::from_json(items),
                _ => Err(Error::TypeMismatch(JsonKind::Array)),
            };
            match read {
                Ok(ring) => {
                    let ghost before = rings@;
                    rings.push(ring);
                    assert(rings@.map_values(|r: Ring| r@) =~= before.map_values(|r: Ring| r@).push(
                        ring@,
                    ));
                },
                Err(e) => {
                    proof {
                        lemma_read_all_failed(json_poly@, ring_reader(), i + 1);
                    }
                    return Err(e);
                },
            }
            i += 1;
        }
        assert(json_poly@.subrange(0, json_poly@.len() as int) =~= json_poly@);
        Ok(Poly(rings))
    }

    /// This polygon as a JSON array of its rings, in order.
    pub fn to_json(&self) -> (r: Json)
        ensures
            match r {
                Json::Array(a) => poly_json(self@, a@),
                _ => false,
            },
    {
        let mut items: Vec<Json> = Vec::new();
        let mut i: usize = 0;
        while i < self.0.len()
            invariant
                i <= self.0@.len(),
                items@.len() == i,
                forall|k: int|
                    0 <= k < i ==> match #[trigger] items@[k] {
                        Json::Array(a) => ring_json(self@[k], a@),
                        _ => false,
                    },
            decreases self.0@.len() - i,
        {
            items.push(Json::Array(self.0[i].to_json()));
            i += 1;
        }
        Json::Array(items)
    }
}

/// Decoding the JSON array of a polygon gives that polygon back, ring for ring.
pub proof fn lemma_poly_round_trip(poly: Poly, s: Seq<Json>)
    requires
        poly_json(poly@, s),
    ensures
        poly_of(s) == Ok::<Seq<Seq<Seq<String>>>, Error>(poly@),
{
    assert forall|i: int| 0 <= i < s.len() implies ring_reader()(s[i]) == Ok::<
        Seq<Seq<String>>,
        Error,
    >(poly@[i]) by {
        match s[i] {
            Json::Array(a) => lemma_ring_round_trip(poly@[i], a@),
            _ => {},
        }
    }
    lemma_read_all_ok(s, ring_reader(), poly@);
}

} // verus!
