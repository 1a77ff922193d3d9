use vstd::prelude::*;
use vstd::string::StringExecFns;
use crate::error::Error;
use crate::hashing::{content_hash, hex_text, md5_digest};
use crate::object_id::{
    get_name, get_object_type, get_schema, has_schema, id_error, id_parts, id_type, valid_id,
    validate_object_id,
};
use crate::object_type::DatabaseObjectType;
use crate::project::{
    clone_strings, contains_str, declares, holds, strs, unique_ids, DatabaseObject, DatabaseProject,
};
use crate::text::str_eq;
use crate::words::{contains_whole_word_ci, has_word};

verus! {

/// What is known of a declared object before its edges are computed.
pub struct ObjectInfo {
    pub id: String,
    pub object_type: DatabaseObjectType,
    pub path: String,
    pub script: String,
}

/// The name part of an id: its last part.
pub open spec fn name_of(id: Seq<char>) -> Seq<char> {
    id_parts(id).last()
}

/// The schema part of an id: its second part.
pub open spec fn schema_of(id: Seq<char>) -> Seq<char> {
    id_parts(id)[1]
}

/// Whether the list is fit for building the graph: every id is well formed
/// and names the type that is stored beside it, and no id occurs twice.
pub open spec fn sound(infos: Seq<ObjectInfo>) -> bool {
    &&& forall|i: int|
        0 <= i < infos.len() ==> valid_id((#[trigger] infos[i]).id@) && id_type(infos[i].id@)
            == Some(infos[i].object_type)
    &&& forall|i: int, j: int|
        0 <= i < infos.len() && 0 <= j < infos.len() && i != j ==> infos[i].id@ != infos[j].id@
}

/// What is wrong with the object at position `i`, if anything: its id is
/// not well formed, or names another type than the one stored beside it, or
/// stands earlier in the list already.
pub open spec fn fault_at(infos: Seq<ObjectInfo>, i: int) -> Option<Error> {
    let id = infos[i].id@;
    if !valid_id(id) {
        Some(id_error(id))
    } else if id_type(id) != Some(infos[i].object_type) {
        Some(Error::TypeMismatch)
    } else if exists|j: int| 0 <= j < i && (#[trigger] infos[j]).id@ == id {
        Some(Error::DuplicateId { id: infos[i].id })
    } else {
        None
    }
}

/// Whether `e` is what is wrong with the first object of the list with
/// which something is wrong.
pub open spec fn first_fault(infos: Seq<ObjectInfo>, e: Error) -> bool {
    exists|i: int|
        0 <= i < infos.len() && #[trigger] fault_at(infos, i) == Some(e) && forall|j: int|
            0 <= j < i ==> #[trigger] fault_at(infos, j) is None
}

/// The word by which other scripts refer to an object, for the types that
/// are referred to by one: the bare name inside a search schema, else the
/// name behind its schema and a dot; the name alone for a role or an
/// extension.
pub open spec fn search_term(
    id: Seq<char>,
    t: DatabaseObjectType,
    search_schemas: Seq<Seq<char>>,
) -> Option<Seq<char>> {
    match t {
        DatabaseObjectType::Function
        | DatabaseObjectType::Table
        | DatabaseObjectType::Type
        | DatabaseObjectType::View => if search_schemas.contains(schema_of(id)) {
            Some(name_of(id))
        } else {
            Some(schema_of(id) + "."@ + name_of(id))
        },
        DatabaseObjectType::Extension | DatabaseObjectType::Role => Some(name_of(id)),
        _ => None,
    }
}

/// Whether object `b` needs object `a`. No object needs itself.
/// A schema is needed by the roles, extensions and schemas whose script
/// holds its name, and by every other object that lives in it. A role is
/// needed by the roles whose script holds its name. Any other object is
/// needed by the objects whose script holds its search term.
pub open spec fn needs(b: ObjectInfo, a: ObjectInfo, search_schemas: Seq<Seq<char>>) -> bool {
    a.id@ != b.id@ && match a.object_type {
        DatabaseObjectType::Schema => if b.object_type == DatabaseObjectType::Extension
            || b.object_type == DatabaseObjectType::Schema || b.object_type
            == DatabaseObjectType::Role {
            has_word(b.script@, name_of(a.id@))
        } else {
            schema_of(b.id@) == name_of(a.id@)
        },
        DatabaseObjectType::Role => b.object_type == DatabaseObjectType::Role && has_word(
            b.script@,
            name_of(a.id@),
        ),
        t => search_term(a.id@, t, search_schemas) matches Some(term) && has_word(
            b.script@,
            term,
        ),
    }
}

/// The ids of the objects of `infos` that need `a`, in order.
pub open spec fn needing(infos: Seq<ObjectInfo>, a: ObjectInfo, search_schemas: Seq<Seq<char>>) -> Seq<
    Seq<char>,
>
    decreases infos.len(),
{
    if infos.len() == 0 {
        Seq::empty()
    } else {
        let before = needing(infos.drop_last(), a, search_schemas);
        if needs(infos.last(), a, search_schemas) {
            before.push(infos.last().id@)
        } else {
            before
        }
    }
}

/// The ids among `ids` whose list in `required_by` holds `id`, in order,
/// `id` itself left out.
pub open spec fn needed_by(ids: Seq<String>, required_by: Seq<Vec<String>>, id: Seq<char>) -> Seq<
    Seq<char>,
>
    decreases ids.len(),
{
    if ids.len() == 0 {
        Seq::empty()
    } else {
        let before = needed_by(ids.drop_last(), required_by, id);
        if ids.last()@ != id && holds(required_by[ids.len() - 1]@, id) {
            before.push(ids.last()@)
        } else {
            before
        }
    }
}

/// What `needing` holds.
pub proof fn lemma_needing(
    infos: Seq<ObjectInfo>,
    a: ObjectInfo,
    search_schemas: Seq<Seq<char>>,
    s: Seq<char>,
)
    ensures
        needing(infos, a, search_schemas).contains(s) <==> exists|b: int|
            0 <= b < infos.len() && (#[trigger] infos[b]).id@ == s && needs(
                infos[b],
                a,
                search_schemas,
            ),
    decreases infos.len(),
{
    if infos.len() > 0 {
        let head = infos.drop_last();
        let before = needing(head, a, search_schemas);
        lemma_needing(head, a, search_schemas, s);
        let now = needing(infos, a, search_schemas);
        if now.contains(s) {
            let w = choose|w: int| 0 <= w < now.len() && now[w] == s;
            if w < before.len() {
                assert(before[w] == s);
                let b = choose|b: int|
                    0 <= b < head.len() && (#[trigger] head[b]).id@ == s && needs(
                        head[b],
                        a,
                        search_schemas,
                    );
                assert(infos[b] == head[b]);
            } else {
                assert(infos[infos.len() - 1].id@ == s);
            }
        }
        if exists|b: int|
            0 <= b < infos.len() && (#[trigger] infos[b]).id@ == s && needs(
                infos[b],
                a,
                search_schemas,
            ) {
            let b = choose|b: int|
                0 <= b < infos.len() && (#[trigger] infos[b]).id@ == s && needs(
                    infos[b],
                    a,
                    search_schemas,
                );
            if b < head.len() {
                assert(head[b] == infos[b]);
                assert(before.contains(s));
                let w = choose|w: int| 0 <= w < before.len() && before[w] == s;
                assert(now[w] == s);
            } else {
                assert(now[now.len() - 1] == s);
            }
        }
    }
}

/// What `needed_by` holds.
pub proof fn lemma_needed_by(
    ids: Seq<String>,
    required_by: Seq<Vec<String>>,
    id: Seq<char>,
    s: Seq<char>,
)
    requires
        ids.len() <= required_by.len(),
    ensures
        needed_by(ids, required_by, id).contains(s) <==> s != id && exists|a: int|
            0 <= a < ids.len() && (#[trigger] ids[a])@ == s && holds(required_by[a]@, id),
    decreases ids.len(),
{
    if ids.len() > 0 {
        let head = ids.drop_last();
        let before = needed_by(head, required_by, id);
        lemma_needed_by(head, required_by, id, s);
        let now = needed_by(ids, required_by, id);
        if now.contains(s) {
            let w = choose|w: int| 0 <= w < now.len() && now[w] == s;
            if w < before.len() {
                assert(before[w] == s);
                let a = choose|a: int|
                    0 <= a < head.len() && (#[trigger] head[a])@ == s && holds(
                        required_by[a]@,
                        id,
                    );
                assert(ids[a] == head[a]);
            } else {
                assert(ids[ids.len() - 1]@ == s);
            }
        }
        if s != id && exists|a: int|
            0 <= a < ids.len() && (#[trigger] ids[a])@ == s && holds(required_by[a]@, id) {
            let a = choose|a: int|
                0 <= a < ids.len() && (#[trigger] ids[a])@ == s && holds(required_by[a]@, id);
            if a < head.len() {
                assert(head[a] == ids[a]);
                assert(before.contains(s));
                let w = choose|w: int| 0 <= w < before.len() && before[w] == s;
                assert(now[w] == s);
            } else {
                assert(now[now.len() - 1] == s);
            }
        }
    }
}

/// Checks that a list is fit for building the graph.
pub fn check_infos(infos: &Vec<ObjectInfo>) -> (r: Result<(), Error>)
    ensures
        r is Ok <==> sound(infos@),
        r matches Err(e) ==> first_fault(infos@, e),
{
    let mut i: usize = 0;
    while i < infos.len()
        invariant
            i <= infos.len(),
            sound(infos@.take(i as int)),
            forall|j: int| 0 <= j < i ==> #[trigger] fault_at(infos@, j) is None,
        decreases infos.len() - i,
    {
        match validate_object_id(infos[i].id.as_str()) {
            Ok(()) => {},
            Err(e) => {
                proof {
                    assert(fault_at(infos@, i as int) == Some(e));
                }
                return Err(e);
            },
        }
        match get_object_type(infos[i].id.as_str()) {
            Ok(t) => {
                if t != infos[i].object_type {
                    proof {
                        assert(fault_at(infos@, i as int) == Some(Error::TypeMismatch));
                    }
                    return Err(Error::TypeMismatch);
                }
            },
            Err(e) => {
                return Err(e);
            },
        }
        let mut j: usize = 0;
        while j < i
            invariant
                j <= i,
                i < infos.len(),
                valid_id(infos[i as int].id@),
                id_type(infos[i as int].id@) == Some(infos[i as int].object_type),
                forall|k: int| 0 <= k < i ==> #[trigger] fault_at(infos@, k) is None,
                forall|k: int| 0 <= k < j ==> (#[trigger] infos[k]).id@ != infos[i as int].id@,
            decreases i - j,
        {
            if str_eq(infos[j].id.as_str(), infos[i].id.as_str()) {
                let id = infos[i].id.clone();
                proof {
                    assert(infos[j as int].id@ == infos[i as int].id@);
                    assert(fault_at(infos@, i as int) == Some(Error::DuplicateId { id }));
                }
                return Err(Error::DuplicateId { id });
            }
            j = j + 1;
        }
        proof {
            let now = infos@.take(i + 1);
            assert forall|a: int, b: int|
                0 <= a < now.len() && 0 <= b < now.len() && a != b implies now[a].id@
                != now[b].id@ by {
                let before = infos@.take(i as int);
                if a < i && b < i {
                    assert(before[a] == now[a] && before[b] == now[b]);
                }
            }
            assert forall|a: int| 0 <= a < now.len() implies valid_id((#[trigger] now[a]).id@)
                && id_type(now[a].id@) == Some(now[a].object_type) by {
                let before = infos@.take(i as int);
                if a < i {
                    assert(before[a] == now[a]);
                }
            }
            assert(fault_at(infos@, i as int) is None);
        }
        i = i + 1;
    }
    proof {
        assert(infos@.take(infos.len() as int) =~= infos@);
    }
    Ok(())
}

/// The word by which other scripts refer to the object. Constraints,
/// triggers and policies have none; a schema has none either, and asking for
/// it is an error.
pub fn get_search_term(
    object_id: &str,
    object_type: &DatabaseObjectType,
    search_schemas: &Vec<String>,
) -> (r: Result<Option<String>, Error>)
    ensures
        r is Ok <==> match *object_type {
            DatabaseObjectType::Schema => false,
            DatabaseObjectType::Policy
            | DatabaseObjectType::Constraint
            | DatabaseObjectType::Trigger => true,
            DatabaseObjectType::Extension | DatabaseObjectType::Role => valid_id(object_id@),
            _ => valid_id(object_id@) && has_schema(id_type(object_id@).unwrap()),
        },
        r matches Ok(term) ==> match term {
            Some(word) => search_term(object_id@, *object_type, strs(search_schemas@)) == Some(word@),
            None => search_term(object_id@, *object_type, strs(search_schemas@)) is None,
        },
        r matches Err(e) ==> match *object_type {
            DatabaseObjectType::Schema => e is SchemaSearchTerm,
            _ => match id_type(object_id@) {
                None => e is UnknownObjectType,
                Some(t) => if *object_type == DatabaseObjectType::Extension || *object_type
                    == DatabaseObjectType::Role || has_schema(t) {
                    e is MalformedId
                } else {
                    e is NoSchema
                },
            },
        },
{
    match object_type {
        DatabaseObjectType::Function
        | DatabaseObjectType::Table
        | DatabaseObjectType::Type
        | DatabaseObjectType::View => {
            let schema = get_schema(object_id)?;
            let name = get_name(object_id)?;
            proof {
                lemma_holds(search_schemas@, schema@);
            }
            if contains_str(search_schemas, schema) {
                Ok(Some(String::from_str(name)))
            } else {
                let mut term = String::from_str(schema);
                term.append(".");
                term.append(name);
                Ok(Some(term))
            }
        },
        DatabaseObjectType::Policy
        | DatabaseObjectType::Constraint
        | DatabaseObjectType::Trigger => Ok(None),
        DatabaseObjectType::Extension | DatabaseObjectType::Role => {
            let name = get_name(object_id)?;
            Ok(Some(String::from_str(name)))
        },
        DatabaseObjectType::Schema => Err(Error::SchemaSearchTerm),
    }
}

/// The ids of the objects that need the schema at position `a`.
fn calc_required_by_for_schema(
    a: usize,
    infos: &Vec<ObjectInfo>,
    Ghost(search_schemas): Ghost<Seq<Seq<char>>>,
) -> (r: Result<Vec<String>, Error>)
    requires
        sound(infos@),
        a < infos.len(),
        infos[a as int].object_type == DatabaseObjectType::Schema,
    ensures
        r matches Ok(out) && strs(out@) == needing(infos@, infos[a as int], search_schemas),
{
    let mut out: Vec<String> = Vec::new();
    let schema = match get_name(infos[a].id.as_str()) {
        Ok(name) => name,
        Err(e) => {
            return Err(e);
        },
    };
    let mut b: usize = 0;
    while b < infos.len()
        invariant
            sound(infos@),
            a < infos.len(),
            b <= infos.len(),
            infos[a as int].object_type == DatabaseObjectType::Schema,
            schema@ == name_of(infos[a as int].id@),
            strs(out@) == needing(infos@.take(b as int), infos[a as int], search_schemas),
        decreases infos.len() - b,
    {
        let other = &infos[b];
        let ghost before = strs(out@);
        proof {
            assert(infos@.take(b + 1).drop_last() =~= infos@.take(b as int));
            assert(infos@.take(b + 1).last() == infos@[b as int]);
        }
        let mut yes = false;
        if !str_eq(other.id.as_str(), infos[a].id.as_str()) {
            if other.object_type == DatabaseObjectType::Extension || other.object_type
                == DatabaseObjectType::Schema || other.object_type == DatabaseObjectType::Role {
                yes = contains_whole_word_ci(other.script.as_str(), schema);
            } else {
                match get_schema(other.id.as_str()) {
                    Ok(other_schema) => {
                        yes = str_eq(schema, other_schema);
                    },
                    Err(e) => {
                        return Err(e);
                    },
                }
            }
        }
        if yes {
            out.push(other.id.clone());
            proof {
                assert(strs(out@) =~= before.push(other.id@));
            }
        }
        b = b + 1;
    }
    proof {
        assert(infos@.take(infos.len() as int) =~= infos@);
    }
    Ok(out)
}

/// The ids of the roles that need the role at position `a`. Only a role can
/// need a role.
fn calc_required_by_for_role(
    a: usize,
    infos: &Vec<ObjectInfo>,
    Ghost(search_schemas): Ghost<Seq<Seq<char>>>,
) -> (r: Result<Vec<String>, Error>)
    requires
        sound(infos@),
        a < infos.len(),
        infos[a as int].object_type == DatabaseObjectType::Role,
    ensures
        r matches Ok(out) && strs(out@) == needing(infos@, infos[a as int], search_schemas),
{
    let mut out: Vec<String> = Vec::new();
    let role_name = match get_name(infos[a].id.as_str()) {
        Ok(name) => name,
        Err(e) => {
            return Err(e);
        },
    };
    let mut b: usize = 0;
    while b < infos.len()
        invariant
            sound(infos@),
            a < infos.len(),
            b <= infos.len(),
            infos[a as int].object_type == DatabaseObjectType::Role,
            role_name@ == name_of(infos[a as int].id@),
            strs(out@) == needing(infos@.take(b as int), infos[a as int], search_schemas),
        decreases infos.len() - b,
    {
        let other = &infos[b];
        let ghost before = strs(out@);
        proof {
            assert(infos@.take(b + 1).drop_last() =~= infos@.take(b as int));
            assert(infos@.take(b + 1).last() == infos@[b as int]);
        }
        if other.object_type == DatabaseObjectType::Role && !str_eq(
            other.id.as_str(),
            infos[a].id.as_str(),
        ) && contains_whole_word_ci(other.script.as_str(), role_name) {
            out.push(other.id.clone());
            proof {
                assert(strs(out@) =~= before.push(other.id@));
            }
        }
        b = b + 1;
    }
    proof {
        assert(infos@.take(infos.len() as int) =~= infos@);
    }
    Ok(out)
}

/// The ids of the objects that need the object at position `a`.
pub fn calc_required_by_for_object(
    a: usize,
    infos: &Vec<ObjectInfo>,
    search_schemas: &Vec<String>,
) -> (r: Result<Vec<String>, Error>)
    requires
        sound(infos@),
        a < infos.len(),
    ensures
        r matches Ok(out) && strs(out@) == needing(infos@, infos[a as int], strs(search_schemas@)),
{
    let object_type = infos[a].object_type;
    if object_type == DatabaseObjectType::Schema {
        return calc_required_by_for_schema(a, infos, Ghost(strs(search_schemas@)));
    } else if object_type == DatabaseObjectType::Role {
        return calc_required_by_for_role(a, infos, Ghost(strs(search_schemas@)));
    }
    let mut out: Vec<String> = Vec::new();
    let term = match get_search_term(infos[a].id.as_str(), &object_type, search_schemas) {
        Ok(term) => term,
        Err(e) => {
            return Err(e);
        },
    };
    let mut b: usize = 0;
    while b < infos.len()
        invariant
            sound(infos@),
            a < infos.len(),
            b <= infos.len(),
            object_type == infos[a as int].object_type,
            object_type != DatabaseObjectType::Schema,
            object_type != DatabaseObjectType::Role,
            match term {
                Some(word) => search_term(infos[a as int].id@, object_type, strs(search_schemas@))
                    == Some(word@),
                None => search_term(infos[a as int].id@, object_type, strs(search_schemas@)) is None,
            },
            strs(out@) == needing(infos@.take(b as int), infos[a as int], strs(search_schemas@)),
        decreases infos.len() - b,
    {
        let other = &infos[b];
        let ghost before = strs(out@);
        proof {
            assert(infos@.take(b + 1).drop_last() =~= infos@.take(b as int));
            assert(infos@.take(b + 1).last() == infos@[b as int]);
        }
        let yes = match &term {
            Some(word) => !str_eq(other.id.as_str(), infos[a].id.as_str())
                && contains_whole_word_ci(other.script.as_str(), word.as_str()),
            None => false,
        };
        if yes {
            out.push(other.id.clone());
            proof {
                assert(strs(out@) =~= before.push(other.id@));
            }
        }
        b = b + 1;
    }
    proof {
        assert(infos@.take(infos.len() as int) =~= infos@);
    }
    Ok(out)
}

/// For every object, the ids of the objects that need it. The list must be
/// fit for building the graph.
pub fn calc_required_by(infos: &Vec<ObjectInfo>, search_schemas: &Vec<String>) -> (r: Result<
    Vec<Vec<String>>,
    Error,
>)
    ensures
        r is Ok <==> sound(infos@),
        r matches Ok(required_by) ==> required_by.len() == infos.len() && forall|a: int|
            0 <= a < infos.len() ==> strs((#[trigger] required_by[a])@) == needing(
                infos@,
                infos[a],
                strs(search_schemas@),
            ),
        r matches Err(e) ==> first_fault(infos@, e),
{
    check_infos(infos)?;
    let mut required_by: Vec<Vec<String>> = Vec::new();
    let mut a: usize = 0;
    while a < infos.len()
        invariant
            sound(infos@),
            a <= infos.len(),
            required_by.len() == a,
            forall|k: int|
                0 <= k < a ==> strs((#[trigger] required_by[k])@) == needing(
                    infos@,
                    infos[k],
                    strs(search_schemas@),
                ),
        decreases infos.len() - a,
    {
        match calc_required_by_for_object(a, infos, search_schemas) {
            Ok(list) => {
                required_by.push(list);
            },
            Err(e) => {
                proof {
                    assert(false);
                }
                return Err(e);
            },
        }
        a = a + 1;
    }
    Ok(required_by)
}

/// The ids of the objects that `object_id` needs: those whose list in
/// `required_by` holds it. `required_by[a]` belongs to `ids[a]`.
pub fn calc_depends_on_for_object(
    object_id: &str,
    ids: &Vec<String>,
    required_by: &Vec<Vec<String>>,
) -> (out: Vec<String>)
    requires
        ids.len() == required_by.len(),
    ensures
        strs(out@) == needed_by(ids@, required_by@, object_id@),
{
    let mut out: Vec<String> = Vec::new();
    let mut a: usize = 0;
    while a < ids.len()
        invariant
            a <= ids.len(),
            ids.len() == required_by.len(),
            strs(out@) == needed_by(ids@.take(a as int), required_by@, object_id@),
        decreases ids.len() - a,
    {
        let ghost before = strs(out@);
        proof {
            assert(ids@.take(a + 1).drop_last() =~= ids@.take(a as int));
            assert(ids@.take(a + 1).last() == ids@[a as int]);
        }
        if !str_eq(object_id, ids[a].as_str()) && contains_str(&required_by[a], object_id) {
            out.push(ids[a].clone());
            proof {
                assert(strs(out@) =~= before.push(ids[a as int]@));
            }
        }
        a = a + 1;
    }
    proof {
        assert(ids@.take(ids.len() as int) =~= ids@);
    }
    out
}

/// For every object, the ids of the objects that it needs: the inverse of
/// `required_by`.
pub fn calc_depends_on(ids: &Vec<String>, required_by: &Vec<Vec<String>>) -> (depends_on: Vec<
    Vec<String>,
>)
    requires
        ids.len() == required_by.len(),
    ensures
        depends_on.len() == ids.len(),
        forall|b: int|
            0 <= b < ids.len() ==> strs((#[trigger] depends_on[b])@) == needed_by(
                ids@,
                required_by@,
                ids[b]@,
            ),
{
    let mut depends_on: Vec<Vec<String>> = Vec::new();
    let mut b: usize = 0;
    while b < ids.len()
        invariant
            b <= ids.len(),
            ids.len() == required_by.len(),
            depends_on.len() == b,
            forall|k: int|
                0 <= k < b ==> strs((#[trigger] depends_on[k])@) == needed_by(
                    ids@,
                    required_by@,
                    ids[k]@,
                ),
        decreases ids.len() - b,
    {
        let list = calc_depends_on_for_object(ids[b].as_str(), ids, required_by);
        depends_on.push(list);
        b = b + 1;
    }
    depends_on
}

/// A list holds a string exactly when its sequence of strings contains it.
pub proof fn lemma_holds(v: Seq<String>, s: Seq<char>)
    ensures
        holds(v, s) <==> strs(v).contains(s),
{
    if holds(v, s) {
        let i = choose|i: int| 0 <= i < v.len() && (#[trigger] v[i])@ == s;
        assert(strs(v)[i] == s);
    }
    if strs(v).contains(s) {
        let i = choose|i: int| 0 <= i < strs(v).len() && strs(v)[i] == s;
        assert(v[i]@ == s);
    }
}

/// Whether the two kinds of edges mirror each other: object `b` is among
/// those that need `a` exactly when `a` is among those that `b` needs.
pub open spec fn inverse_edges(objects: Seq<DatabaseObject>) -> bool {
    forall|a: int, b: int|
        0 <= a < objects.len() && 0 <= b < objects.len() ==> (holds(
            (#[trigger] objects[a]).required_by@,
            (#[trigger] objects[b]).id@,
        ) <==> holds(objects[b].depends_on@, objects[a].id@))
}

/// Whether every edge ends at a declared object.
pub open spec fn closed_edges(objects: Seq<DatabaseObject>) -> bool {
    forall|a: int, s: Seq<char>|
        0 <= a < objects.len() && (holds((#[trigger] objects[a]).required_by@, s) || holds(
            objects[a].depends_on@,
            s,
        )) ==> #[trigger] declares(objects, s)
}

/// The ids of the objects that the object with this id needs: those whose
/// `required_by` holds the id, in order, the id itself left out.
pub open spec fn needed_ids(objects: Seq<DatabaseObject>, id: Seq<char>) -> Seq<Seq<char>>
    decreases objects.len(),
{
    if objects.len() == 0 {
        Seq::empty()
    } else {
        let before = needed_ids(objects.drop_last(), id);
        if objects.last().id@ != id && holds(objects.last().required_by@, id) {
            before.push(objects.last().id@)
        } else {
            before
        }
    }
}

/// `needed_by` over the ids and lists of the first `n` objects is
/// `needed_ids` over these objects.
proof fn lemma_needed_ids(
    ids: Seq<String>,
    required_by: Seq<Vec<String>>,
    objects: Seq<DatabaseObject>,
    id: Seq<char>,
    n: int,
)
    requires
        0 <= n <= ids.len(),
        ids.len() == objects.len(),
        ids.len() == required_by.len(),
        forall|k: int|
            0 <= k < ids.len() ==> (#[trigger] objects[k]).id@ == ids[k]@
                && objects[k].required_by@ == required_by[k]@,
    ensures
        needed_by(ids.take(n), required_by, id) == needed_ids(objects.take(n), id),
    decreases n,
{
    if n > 0 {
        lemma_needed_ids(ids, required_by, objects, id, n - 1);
        assert(ids.take(n).drop_last() =~= ids.take(n - 1));
        assert(objects.take(n).drop_last() =~= objects.take(n - 1));
        assert(ids.take(n).last() == ids[n - 1]);
        assert(objects.take(n).last() == objects[n - 1]);
    }
}

/// Whether `objects` are the objects of `infos` with their digests and
/// edges.
pub open spec fn linked(
    infos: Seq<ObjectInfo>,
    objects: Seq<DatabaseObject>,
    search_schemas: Seq<Seq<char>>,
) -> bool {
    &&& objects.len() == infos.len()
    &&& forall|i: int|
        0 <= i < infos.len() ==> {
            &&& (#[trigger] objects[i]).id@ == infos[i].id@
            &&& objects[i].path@ == infos[i].path@
            &&& objects[i].script@ == infos[i].script@
            &&& objects[i].md5@ == hex_text(md5_digest(infos[i].script@))
            &&& strs(objects[i].required_by@) == needing(infos, infos[i], search_schemas)
            &&& strs(objects[i].depends_on@) == needed_ids(objects, objects[i].id@)
        }
    &&& unique_ids(objects)
    &&& inverse_edges(objects)
    &&& closed_edges(objects)
}

/// After the graph is built, `a` is required by `b` exactly when `b` depends
/// on `a`.
pub proof fn lemma_exact_inverse(
    infos: Seq<ObjectInfo>,
    objects: Seq<DatabaseObject>,
    search_schemas: Seq<Seq<char>>,
    a: int,
    b: int,
)
    requires
        linked(infos, objects, search_schemas),
        0 <= a < objects.len(),
        0 <= b < objects.len(),
    ensures
        holds(objects[a].required_by@, objects[b].id@) <==> holds(
            objects[b].depends_on@,
            objects[a].id@,
        ),
{
}

/// Puts the objects together: each with the digest of its script and with
/// its edges. `required_by[i]` and `depends_on[i]` belong to `infos[i]`.
pub fn build_database_objects(
    infos: &Vec<ObjectInfo>,
    required_by: &Vec<Vec<String>>,
    depends_on: &Vec<Vec<String>>,
) -> (objects: Vec<DatabaseObject>)
    requires
        required_by.len() == infos.len(),
        depends_on.len() == infos.len(),
    ensures
        objects.len() == infos.len(),
        forall|i: int|
            0 <= i < infos.len() ==> {
                &&& (#[trigger] objects[i]).id@ == infos[i].id@
                &&& objects[i].path@ == infos[i].path@
                &&& objects[i].script@ == infos[i].script@
                &&& objects[i].md5@ == hex_text(md5_digest(infos[i].script@))
                &&& objects[i].required_by@ == required_by[i]@
                &&& objects[i].depends_on@ == depends_on[i]@
            },
{
    let mut objects: Vec<DatabaseObject> = Vec::new();
    let mut i: usize = 0;
    while i < infos.len()
        invariant
            i <= infos.len(),
            required_by.len() == infos.len(),
            depends_on.len() == infos.len(),
            objects.len() == i,
            forall|k: int|
                0 <= k < i ==> {
                    &&& (#[trigger] objects[k]).id@ == infos[k].id@
                    &&& objects[k].path@ == infos[k].path@
                    &&& objects[k].script@ == infos[k].script@
                    &&& objects[k].md5@ == hex_text(md5_digest(infos[k].script@))
                    &&& objects[k].required_by@ == required_by[k]@
                    &&& objects[k].depends_on@ == depends_on[k]@
                },
        decreases infos.len() - i,
    {
        let info = &infos[i];
        let object = DatabaseObject {
            id: info.id.clone(),
            path: info.path.clone(),
            script: info.script.clone(),
            md5: content_hash(info.script.as_str()),
            depends_on: clone_strings(&depends_on[i]),
            required_by: clone_strings(&required_by[i]),
        };
        objects.push(object);
        i = i + 1;
    }
    objects
}

/// Builds the declared objects with their edges from what was read of them.
/// An id that is malformed, that names another type than the one stored
/// beside it, or that occurs twice is an error.
pub fn link_objects(infos: &Vec<ObjectInfo>, search_schemas: &Vec<String>) -> (r: Result<
    Vec<DatabaseObject>,
    Error,
>)
    ensures
        r is Ok <==> sound(infos@),
        r matches Ok(objects) ==> linked(infos@, objects@, strs(search_schemas@)),
        r matches Err(e) ==> first_fault(infos@, e),
{
    let required_by = calc_required_by(infos, search_schemas)?;
    let mut ids: Vec<String> = Vec::new();
    let mut i: usize = 0;
    while i < infos.len()
        invariant
            i <= infos.len(),
            ids.len() == i,
            forall|k: int| 0 <= k < i ==> (#[trigger] ids[k])@ == infos[k].id@,
        decreases infos.len() - i,
    {
        ids.push(infos[i].id.clone());
        i = i + 1;
    }
    let depends_on = calc_depends_on(&ids, &required_by);
    let objects = build_database_objects(infos, &required_by, &depends_on);
    proof {
        let objs = objects@;
        let schemas = strs(search_schemas@);
        assert forall|a: int, b: int| 0 <= a < objs.len() && 0 <= b < objs.len() implies (holds(
            (#[trigger] objs[a]).required_by@,
            (#[trigger] objs[b]).id@,
        ) <==> holds(objs[b].depends_on@, objs[a].id@)) by {
            let id_a = objs[a].id@;
            let id_b = objs[b].id@;
            lemma_holds(objs[a].required_by@, id_b);
            lemma_holds(objs[b].depends_on@, id_a);
            lemma_needing(infos@, infos[a], schemas, id_b);
            lemma_needed_by(ids@, required_by@, id_b, id_a);
            assert(ids[b]@ == id_b);
            if holds(objs[a].required_by@, id_b) {
                let w = choose|w: int|
                    0 <= w < infos.len() && (#[trigger] infos[w]).id@ == id_b && needs(
                        infos[w],
                        infos[a as int],
                        schemas,
                    );
                assert(id_a != id_b);
                assert(ids[a]@ == id_a && holds(required_by[a]@, id_b));
            }
            if holds(objs[b].depends_on@, id_a) {
                let w = choose|w: int|
                    0 <= w < ids.len() && (#[trigger] ids[w])@ == id_a && holds(
                        required_by[w]@,
                        id_b,
                    );
                assert(infos[w].id@ == id_a);
                assert(w == a);
            }
        }
        assert forall|a: int, s: Seq<char>|
            0 <= a < objs.len() && (holds((#[trigger] objs[a]).required_by@, s) || holds(
                objs[a].depends_on@,
                s,
            )) implies #[trigger] declares(objs, s) by {
            lemma_holds(objs[a].required_by@, s);
            lemma_holds(objs[a].depends_on@, s);
            lemma_needing(infos@, infos[a], schemas, s);
            lemma_needed_by(ids@, required_by@, objs[a].id@, s);
            assert(ids[a]@ == objs[a].id@);
            if holds(objs[a].required_by@, s) {
                let w = choose|w: int|
                    0 <= w < infos.len() && (#[trigger] infos[w]).id@ == s && needs(
                        infos[w],
                        infos[a as int],
                        schemas,
                    );
                assert(objs[w].id@ == s);
            } else {
                let w = choose|w: int|
                    0 <= w < ids.len() && (#[trigger] ids[w])@ == s && holds(
                        required_by[w]@,
                        objs[a].id@,
                    );
                assert(objs[w].id@ == s);
            }
        }
        assert forall|i: int, j: int|
            0 <= i < objs.len() && 0 <= j < objs.len() && i != j implies objs[i].id@
            != objs[j].id@ by {
            assert(infos[i].id@ != infos[j].id@);
        }
        assert forall|i: int| 0 <= i < infos.len() implies strs(
            (#[trigger] objs[i]).required_by@,
        ) == needing(infos@, infos[i], schemas) && strs(objs[i].depends_on@) == needed_ids(
            objs,
            objs[i].id@,
        ) by {
            assert(objs[i].required_by@ == required_by[i]@);
            assert(objs[i].depends_on@ == depends_on[i]@);
            assert(ids[i]@ == objs[i].id@);
            lemma_needed_ids(ids@, required_by@, objs, objs[i].id@, ids.len() as int);
            assert(ids@.take(ids.len() as int) =~= ids@);
            assert(objs.take(objs.len() as int) =~= objs);
        }
    }
    Ok(objects)
}

impl DatabaseProject {
    /// Whether the objects form a graph: no id occurs twice, every edge ends
    /// at a declared object, and the two kinds of edges mirror each other.
    pub open spec fn wf(&self) -> bool {
        &&& unique_ids(self.objects@)
        &&& closed_edges(self.objects@)
        &&& inverse_edges(self.objects@)
    }

    /// Puts a project together from what was read of it. Names are looked
    /// for in the schema `public` without their schema in front.
    pub fn from_parts(
        project_dirpath: String,
        create_scripts: Vec<(String, String)>,
        drop_scripts: Vec<(String, String)>,
        migration_scripts: Vec<(String, String)>,
        infos: &Vec<ObjectInfo>,
    ) -> (r: Result<DatabaseProject, Error>)
        ensures
            r is Ok <==> sound(infos@),
            r matches Ok(project) ==> {
                &&& project.wf()
                &&& project.project_dirpath == project_dirpath
                &&& project.create_scripts == create_scripts
                &&& project.drop_scripts == drop_scripts
                &&& project.migration_scripts == migration_scripts
                &&& linked(infos@, project.objects@, seq!["public"@])
            },
            r matches Err(e) ==> e is UnknownObjectType || e is MalformedId || e is TypeMismatch
                || e is DuplicateId,
    {
        let mut search_schemas: Vec<String> = Vec::new();
        search_schemas.push(String::from_str("public"));
        proof {
            assert(strs(search_schemas@) =~= seq!["public"@]);
        }
        let objects = link_objects(infos, &search_schemas)?;
        Ok(
            DatabaseProject {
                project_dirpath,
                create_scripts,
                drop_scripts,
                migration_scripts,
                objects,
            },
        )
    }
}

} // verus!
