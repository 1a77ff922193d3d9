use vstd::prelude::*;
use vstd::string::StrSliceExecFns;
use crate::error::Error;
use crate::object_type::{arity, type_of_word, DatabaseObjectType};
use crate::text::chars_of;

verus! {

/// The parts of `s` between occurrences of `sep`: one more part than there
/// are separators, empty parts included.
pub open spec fn split(s: Seq<char>, sep: char) -> Seq<Seq<char>>
    decreases s.len(),
{
    if s.len() == 0 {
        seq![Seq::<char>::empty()]
    } else {
        let before = split(s.drop_last(), sep);
        if s.last() == sep {
            before.push(Seq::<char>::empty())
        } else {
            before.drop_last().push(before.last().push(s.last()))
        }
    }
}

/// The dot-separated parts of an object id.
pub open spec fn id_parts(id: Seq<char>) -> Seq<Seq<char>> {
    split(id, '.')
}

/// The object type that the first part of an id names, if it names one.
pub open spec fn id_type(id: Seq<char>) -> Option<DatabaseObjectType> {
    type_of_word(id_parts(id)[0])
}

/// An id is well formed when its first part names a type and it has as many
/// parts as that type asks for.
pub open spec fn valid_id(id: Seq<char>) -> bool {
    id_type(id) matches Some(t) && id_parts(id).len() == arity(t)
}

/// The error that an id gives that is not well formed.
pub open spec fn id_error(id: Seq<char>) -> Error {
    if id_type(id) is None {
        Error::UnknownObjectType
    } else {
        Error::MalformedId
    }
}

/// Whether `e` is the error of the first id of the list that is not well
/// formed.
pub open spec fn first_invalid(ids: Seq<Seq<char>>, e: Error) -> bool {
    exists|i: int|
        0 <= i < ids.len() && !valid_id(#[trigger] ids[i]) && e == id_error(ids[i]) && forall|
            j: int,
        |
            0 <= j < i ==> valid_id(#[trigger] ids[j])
}

/// Whether ids of this type carry a schema part.
pub open spec fn has_schema(t: DatabaseObjectType) -> bool {
    arity(t) >= 3
}

/// Whether ids of this type carry a table part.
pub open spec fn has_table(t: DatabaseObjectType) -> bool {
    arity(t) == 4
}

/// There is always at least one part.
pub proof fn lemma_split_nonempty(s: Seq<char>, sep: char)
    ensures
        split(s, sep).len() >= 1,
    decreases s.len(),
{
    if s.len() > 0 {
        lemma_split_nonempty(s.drop_last(), sep);
    }
}

/// Whether the first `n` entries of `bounds` delimit the first `n` of `parts`
/// inside `chars`.
spec fn delimits(bounds: Seq<(usize, usize)>, chars: Seq<char>, parts: Seq<Seq<char>>, n: int) -> bool {
    forall|k: int|
        0 <= k < n ==> {
            &&& (#[trigger] bounds[k]).0 <= bounds[k].1 <= chars.len()
            &&& parts[k] == chars.subrange(bounds[k].0 as int, bounds[k].1 as int)
        }
}

/// Where each part of `chars` starts and ends.
fn part_bounds(chars: &Vec<char>, sep: char) -> (bounds: Vec<(usize, usize)>)
    ensures
        bounds.len() == split(chars@, sep).len(),
        delimits(bounds@, chars@, split(chars@, sep), bounds.len() as int),
{
    let mut bounds: Vec<(usize, usize)> = Vec::new();
    let mut start: usize = 0;
    let mut i: usize = 0;
    proof {
        assert(chars@.take(0) =~= Seq::<char>::empty());
        assert(chars@.subrange(0, 0) =~= Seq::<char>::empty());
    }
    while i < chars.len()
        invariant
            start <= i <= chars.len(),
            bounds.len() + 1 == split(chars@.take(i as int), sep).len(),
            split(chars@.take(i as int), sep).last() == chars@.subrange(start as int, i as int),
            delimits(bounds@, chars@, split(chars@.take(i as int), sep), bounds.len() as int),
        decreases chars.len() - i,
    {
        let ghost before = split(chars@.take(i as int), sep);
        let ghost next = chars@.take(i + 1);
        proof {
            assert(next.drop_last() =~= chars@.take(i as int));
            assert(next.last() == chars@[i as int]);
        }
        if chars[i] == sep {
            bounds.push((start, i));
            start = i + 1;
            proof {
                assert(split(next, sep) == before.push(Seq::<char>::empty()));
                assert(chars@.subrange(start as int, i + 1) =~= Seq::<char>::empty());
            }
        } else {
            proof {
                assert(split(next, sep) == before.drop_last().push(
                    before.last().push(chars@[i as int]),
                ));
                assert(chars@.subrange(start as int, i + 1) =~= chars@.subrange(
                    start as int,
                    i as int,
                ).push(chars@[i as int]));
            }
        }
        i = i + 1;
    }
    proof {
        assert(chars@.take(i as int) =~= chars@);
    }
    bounds.push((start, i));
    bounds
}

/// The dot-separated parts of an id, as slices of it.
fn parts_of<'t>(id: &'t str) -> (parts: Vec<&'t str>)
    ensures
        parts.len() == id_parts(id@).len(),
        forall|k: int| 0 <= k < parts.len() ==> (#[trigger] parts[k])@ == id_parts(id@)[k],
{
    let chars = chars_of(id);
    let bounds = part_bounds(&chars, '.');
    let mut parts: Vec<&'t str> = Vec::new();
    let mut k: usize = 0;
    while k < bounds.len()
        invariant
            chars@ == id@,
            k <= bounds.len(),
            parts.len() == k,
            bounds.len() == id_parts(id@).len(),
            delimits(bounds@, chars@, split(chars@, '.'), bounds.len() as int),
            forall|j: int| 0 <= j < k ==> (#[trigger] parts[j])@ == id_parts(id@)[j],
        decreases bounds.len() - k,
    {
        let (from, to) = bounds[k];
        proof {
            assert(bounds@[k as int] == (from, to));
        }
        let part = id.substring_char(from, to);
        parts.push(part);
        k = k + 1;
    }
    parts
}

/// The object type named by the first part of an id.
pub fn get_object_type(id: &str) -> (r: Result<DatabaseObjectType, Error>)
    ensures
        match r {
            Ok(t) => id_type(id@) == Some(t),
            Err(e) => id_type(id@) is None && e is UnknownObjectType,
        },
{
    let parts = parts_of(id);
    proof {
        lemma_split_nonempty(id@, '.');
    }
    DatabaseObjectType::from_str(parts[0])
}

/// Checks that an id names a known type and has the number of parts that the
/// type asks for.
pub fn validate_object_id(id: &str) -> (r: Result<(), Error>)
    ensures
        r is Ok <==> valid_id(id@),
        r matches Err(e) ==> {
            if id_type(id@) is None {
                e is UnknownObjectType
            } else {
                e is MalformedId
            }
        },
{
    let parts = parts_of(id);
    proof {
        lemma_split_nonempty(id@, '.');
    }
    match DatabaseObjectType::from_str(parts[0]) {
        Ok(t) => {
            if parts.len() == t.id_parts() {
                Ok(())
            } else {
                Err(Error::MalformedId)
            }
        },
        Err(e) => Err(e),
    }
}

/// Part `i` of a well-formed id.
pub fn get_id_part<'t>(id: &'t str, i: usize) -> (r: Result<&'t str, Error>)
    requires
        valid_id(id@) ==> i < id_parts(id@).len(),
    ensures
        r is Ok <==> valid_id(id@),
        r matches Ok(part) ==> part@ == id_parts(id@)[i as int],
        r matches Err(e) ==> {
            if id_type(id@) is None {
                e is UnknownObjectType
            } else {
                e is MalformedId
            }
        },
{
    let parts = parts_of(id);
    proof {
        lemma_split_nonempty(id@, '.');
    }
    match DatabaseObjectType::from_str(parts[0]) {
        Ok(t) => {
            if parts.len() == t.id_parts() {
                Ok(parts[i])
            } else {
                Err(Error::MalformedId)
            }
        },
        Err(e) => Err(e),
    }
}

/// The schema part of an id: the second part, for the types that live in a
/// schema.
pub fn get_schema(id: &str) -> (r: Result<&str, Error>)
    ensures
        r is Ok <==> valid_id(id@) && has_schema(id_type(id@).unwrap()),
        r matches Ok(part) ==> part@ == id_parts(id@)[1],
        r matches Err(e) ==> match id_type(id@) {
            None => e is UnknownObjectType,
            Some(t) => if has_schema(t) {
                e is MalformedId
            } else {
                e is NoSchema
            },
        },
{
    let object_type = get_object_type(id)?;
    match object_type {
        DatabaseObjectType::Constraint
        | DatabaseObjectType::Trigger
        | DatabaseObjectType::Policy
        | DatabaseObjectType::Table
        | DatabaseObjectType::View
        | DatabaseObjectType::Function
        | DatabaseObjectType::Type => get_id_part(id, 1),
        DatabaseObjectType::Role
        | DatabaseObjectType::Schema
        | DatabaseObjectType::Extension => Err(Error::NoSchema),
    }
}

/// The table part of an id: the third part, for the types that hang on a
/// table.
pub fn get_table(id: &str) -> (r: Result<&str, Error>)
    ensures
        r is Ok <==> valid_id(id@) && has_table(id_type(id@).unwrap()),
        r matches Ok(part) ==> part@ == id_parts(id@)[2],
        r matches Err(e) ==> match id_type(id@) {
            None => e is UnknownObjectType,
            Some(t) => if has_table(t) {
                e is MalformedId
            } else {
                e is NoTable
            },
        },
{
    let object_type = get_object_type(id)?;
    match object_type {
        DatabaseObjectType::Constraint
        | DatabaseObjectType::Trigger
        | DatabaseObjectType::Policy => get_id_part(id, 2),
        _ => Err(Error::NoTable),
    }
}

/// The name of the object itself: the last part of a well-formed id.
pub fn get_name(id: &str) -> (r: Result<&str, Error>)
    ensures
        r is Ok <==> valid_id(id@),
        r matches Ok(part) ==> part@ == id_parts(id@).last(),
        r matches Err(e) ==> {
            if id_type(id@) is None {
                e is UnknownObjectType
            } else {
                e is MalformedId
            }
        },
{
    let object_type = get_object_type(id)?;
    match object_type {
        DatabaseObjectType::Constraint
        | DatabaseObjectType::Trigger
        | DatabaseObjectType::Policy => get_id_part(id, 3),
        DatabaseObjectType::Table
        | DatabaseObjectType::View
        | DatabaseObjectType::Type
        | DatabaseObjectType::Function => get_id_part(id, 2),
        DatabaseObjectType::Role
        | DatabaseObjectType::Schema
        | DatabaseObjectType::Extension => get_id_part(id, 1),
    }
}

} // verus!
