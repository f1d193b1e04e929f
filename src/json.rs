use vstd::prelude::*;

use crate::error::Error;

verus! {

/// A JSON document tree.
#[derive(Debug, PartialEq)]
pub enum Json {
    Null,
    Boolean(bool),
    /// A number, kept as the text it is written with.
    Number(String),
    String(String),
    Array(Vec<Json>),
    Object(Vec<(String, Json)>),
}

/// The members of a JSON object, in order.
pub type JsonObject = Vec<(String, Json)>;

/// The value of the first member named `key`.
pub open spec fn member(entries: Seq<(String, Json)>, key: Seq<char>) -> Option<Json>
    decreases entries.len(),
{
    if entries.len() == 0 {
        None
    } else if entries[0].0@ == key {
        Some(entries[0].1)
    } else {
        member(entries.drop_first(), key)
    }
}

/// Index of the first member whose name is `key`.
pub fn find_member(entries: &JsonObject, key: &String) -> (r: Option<usize>)
    ensures
        match r {
            Some(i) => i < entries@.len() && member(entries@, key@) == Some(entries@[i as int].1),
            None => member(entries@, key@) is None,
        },
{
    let mut i: usize = 0;
    assert(entries@.subrange(0, entries@.len() as int) =~= entries@);
    while i < entries.len()
        invariant
            i <= entries@.len(),
            member(entries@, key@) == member(entries@.subrange(i as int, entries@.len() as int), key@),
        decreases entries@.len() - i,
    {
        if entries[i].0 == *key {
            return Some(i);
        }
        assert(entries@.subrange(i as int, entries@.len() as int).drop_first() =~= entries@.subrange(i + 1, entries@.len() as int));
        i += 1;
    }
    None
}

/// Reads each item of `s` with `f`, in order: the values read, or the first failure.
pub open spec fn read_all<T>(s: Seq<Json>, f: spec_fn(Json) -> Result<T, Error>) -> Result<
    Seq<T>,
    Error,
>
    decreases s.len(),
{
    if s.len() == 0 {
        Ok(Seq::empty())
    } else {
        match read_all(s.drop_last(), f) {
            Err(e) => Err(e),
            Ok(prefix) => match f(s.last()) {
                Err(e) => Err(e),
                Ok(x) => Ok(prefix.push(x)),
            },
        }
    }
}

/// Reading one more item extends what the shorter prefix gave.
pub proof fn lemma_read_all_step<T>(s: Seq<Json>, f: spec_fn(Json) -> Result<T, Error>, i: int)
    requires
        0 <= i < s.len(),
    ensures
        read_all(s.subrange(0, i + 1), f) == match read_all(s.subrange(0, i), f) {
            Err(e) => Err(e),
            Ok(prefix) => match f(s[i]) {
                Err(e) => Err(e),
                Ok(x) => Ok(prefix.push(x)),
            },
        },
{
    assert(s.subrange(0, i + 1).drop_last() =~= s.subrange(0, i));
}

/// A failure on a prefix is the failure of the whole sequence.
pub proof fn lemma_read_all_failed<T>(s: Seq<Json>, f: spec_fn(Json) -> Result<T, Error>, i: int)
    requires
        0 <= i <= s.len(),
        read_all(s.subrange(0, i), f) is Err,
    ensures
        read_all(s, f) == read_all(s.subrange(0, i), f),
    decreases s.len() - i,
{
    if i < s.len() {
        lemma_read_all_step(s, f, i);
        lemma_read_all_failed(s, f, i + 1);
    } else {
        assert(s.subrange(0, i) =~= s);
    }
}

/// Where every item reads as the matching value, the sequence reads as all of them.
pub proof fn lemma_read_all_ok<T>(s: Seq<Json>, f: spec_fn(Json) -> Result<T, Error>, v: Seq<T>)
    requires
        s.len() == v.len(),
        forall|i: int| 0 <= i < s.len() ==> f(s[i]) == Ok::<T, Error>(v[i]),
    ensures
        read_all(s, f) == Ok::<Seq<T>, Error>(v),
    decreases s.len(),
{
    if s.len() > 0 {
        assert(f(s[s.len() - 1]) == Ok::<T, Error>(v[s.len() - 1]));
        assert forall|i: int| 0 <= i < s.len() - 1 implies f(s.drop_last()[i]) == Ok::<T, Error>(
            v.drop_last()[i],
        ) by {
            assert(f(s[i]) == Ok::<T, Error>(v[i]));
        }
        lemma_read_all_ok(s.drop_last(), f, v.drop_last());
        assert(v.drop_last().push(v.last()) =~= v);
    } else {
        assert(v =~= Seq::<T>::empty());
    }
}

} // verus!
