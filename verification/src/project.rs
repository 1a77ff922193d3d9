use vstd::prelude::*;
use crate::error::Error;
use crate::object_id::{
    get_name, get_object_type, get_schema, get_table, has_schema, has_table, id_parts, id_type,
    valid_id, validate_object_id,
};
use crate::object_type::DatabaseObjectType;
use crate::text::{lex_lt, str_eq, str_lt};

verus! {

/// The character sequences that a list of strings holds, in order.
pub open spec fn strs(v: Seq<String>) -> Seq<Seq<char>> {
    Seq::new(v.len(), |i: int| v[i]@)
}

/// Whether no string occurs twice in the list.
pub open spec fn distinct(v: Seq<String>) -> bool {
    forall|i: int, j: int| 0 <= i < v.len() && 0 <= j < v.len() && i != j ==> v[i]@ != v[j]@
}

/// Whether the list holds the given characters as one of its strings.
pub open spec fn holds(v: Seq<String>, s: Seq<char>) -> bool {
    exists|i: int| 0 <= i < v.len() && (#[trigger] v[i])@ == s
}

/// One managed object: its id, where its script came from, the script, the
/// digest of the script, and its edges in the dependency graph.
#[derive(Debug, Clone)]
pub struct DatabaseObject {
    pub id: String,
    pub path: String,
    pub script: String,
    pub md5: String,
    pub depends_on: Vec<String>,
    pub required_by: Vec<String>,
}

/// The ids of a list of objects, in order.
pub open spec fn ids_of(objects: Seq<DatabaseObject>) -> Seq<Seq<char>> {
    Seq::new(objects.len(), |i: int| objects[i].id@)
}

/// Whether some object of the list has this id.
pub open spec fn declares(objects: Seq<DatabaseObject>, id: Seq<char>) -> bool {
    exists|i: int| 0 <= i < objects.len() && (#[trigger] objects[i]).id@ == id
}

/// Whether no two objects of the list share an id.
pub open spec fn unique_ids(objects: Seq<DatabaseObject>) -> bool {
    forall|i: int, j: int|
        0 <= i < objects.len() && 0 <= j < objects.len() && i != j ==> objects[i].id@
            != objects[j].id@
}

/// Whether `i` is the first position at which an object has this id.
pub open spec fn first_at(objects: Seq<DatabaseObject>, id: Seq<char>, i: int) -> bool {
    &&& 0 <= i < objects.len()
    &&& objects[i].id@ == id
    &&& forall|j: int| 0 <= j < i ==> (#[trigger] objects[j]).id@ != id
}

/// The first position at which an object has this id, if there is one.
pub open spec fn position_of(objects: Seq<DatabaseObject>, id: Seq<char>) -> Option<int> {
    if declares(objects, id) {
        Some(choose|i: int| first_at(objects, id, i))
    } else {
        None
    }
}

/// The first position with an id is the one `position_of` names.
pub proof fn lemma_first_at(objects: Seq<DatabaseObject>, id: Seq<char>, i: int)
    requires
        first_at(objects, id, i),
    ensures
        declares(objects, id),
        position_of(objects, id) == Some(i),
{
    let c = choose|c: int| first_at(objects, id, c);
    assert(first_at(objects, id, c));
    if c < i {
        assert(objects[c].id@ != id);
    }
    if i < c {
        assert(objects[i].id@ != id);
    }
}

/// The object that stands for an id in a list: the first that has it.
pub open spec fn object_of(objects: Seq<DatabaseObject>, id: Seq<char>) -> Option<DatabaseObject> {
    match position_of(objects, id) {
        Some(i) => Some(objects[i]),
        None => None,
    }
}

/// The position of the first object with this id.
pub fn find_object(objects: &Vec<DatabaseObject>, id: &str) -> (r: Option<usize>)
    ensures
        match r {
            Some(i) => i < objects.len() && objects[i as int].id@ == id@ && forall|j: int|
                0 <= j < i ==> (#[trigger] objects[j]).id@ != id@,
            None => !declares(objects@, id@),
        },
        r is Some <==> declares(objects@, id@),
        match r {
            Some(i) => position_of(objects@, id@) == Some(i as int),
            None => position_of(objects@, id@) is None,
        },
{
    let mut i: usize = 0;
    while i < objects.len()
        invariant
            i <= objects.len(),
            forall|j: int| 0 <= j < i ==> (#[trigger] objects[j]).id@ != id@,
        decreases objects.len() - i,
    {
        if str_eq(objects[i].id.as_str(), id) {
            proof {
                lemma_first_at(objects@, id@, i as int);
            }
            return Some(i);
        }
        i = i + 1;
    }
    None
}

/// Whether no two objects of the list share an id.
pub fn has_unique_ids(objects: &Vec<DatabaseObject>) -> (r: bool)
    ensures
        r == unique_ids(objects@),
{
    let mut i: usize = 0;
    while i < objects.len()
        invariant
            i <= objects.len(),
            forall|a: int, b: int| 0 <= a < b < i ==> objects[a].id@ != objects[b].id@,
        decreases objects.len() - i,
    {
        let mut j: usize = 0;
        while j < i
            invariant
                j <= i,
                i < objects.len(),
                forall|a: int| 0 <= a < j ==> (#[trigger] objects[a]).id@ != objects[i as int].id@,
            decreases i - j,
        {
            if str_eq(objects[j].id.as_str(), objects[i].id.as_str()) {
                return false;
            }
            j = j + 1;
        }
        i = i + 1;
    }
    proof {
        assert forall|a: int, b: int|
            0 <= a < objects.len() && 0 <= b < objects.len() && a != b implies objects[a].id@
            != objects[b].id@ by {
            if b < a {
                assert(objects[b].id@ != objects[a].id@);
            }
        }
    }
    true
}

/// A copy of a list of strings.
pub fn clone_strings(v: &Vec<String>) -> (out: Vec<String>)
    ensures
        out@ == v@,
{
    let mut out: Vec<String> = Vec::new();
    let mut i: usize = 0;
    while i < v.len()
        invariant
            i <= v.len(),
            out@ == v@.take(i as int),
        decreases v.len() - i,
    {
        out.push(v[i].clone());
        proof {
            assert(v@.take(i + 1) =~= v@.take(i as int).push(v[i as int]));
        }
        i = i + 1;
    }
    proof {
        assert(v@.take(v.len() as int) =~= v@);
    }
    out
}

/// The strings of `a` that `b` does not hold, in order.
pub open spec fn minus(a: Seq<String>, b: Seq<String>) -> Seq<String>
    decreases a.len(),
{
    if a.len() == 0 {
        Seq::empty()
    } else if holds(b, a.last()@) {
        minus(a.drop_last(), b)
    } else {
        minus(a.drop_last(), b).push(a.last())
    }
}

/// The strings of `a` that `b` does not hold, in order.
pub fn without(a: &Vec<String>, b: &Vec<String>) -> (out: Vec<String>)
    ensures
        out@ == minus(a@, b@),
{
    let mut out: Vec<String> = Vec::new();
    let mut i: usize = 0;
    while i < a.len()
        invariant
            i <= a.len(),
            out@ == minus(a@.take(i as int), b@),
        decreases a.len() - i,
    {
        proof {
            assert(a@.take(i + 1).drop_last() =~= a@.take(i as int));
            assert(a@.take(i + 1).last() == a@[i as int]);
        }
        if !contains_str(b, a[i].as_str()) {
            out.push(a[i].clone());
        }
        i = i + 1;
    }
    proof {
        assert(a@.take(a.len() as int) =~= a@);
    }
    out
}

/// Whether the list holds this string.
pub fn contains_str(v: &Vec<String>, s: &str) -> (r: bool)
    ensures
        r == holds(v@, s@),
{
    let mut i: usize = 0;
    while i < v.len()
        invariant
            i <= v.len(),
            forall|j: int| 0 <= j < i ==> (#[trigger] v[j])@ != s@,
        decreases v.len() - i,
    {
        if str_eq(v[i].as_str(), s) {
            return true;
        }
        i = i + 1;
    }
    false
}

/// The list without its repetitions: each string once, where it first stood.
pub open spec fn deduped(v: Seq<String>) -> Seq<String>
    decreases v.len(),
{
    if v.len() == 0 {
        Seq::empty()
    } else if holds(deduped(v.drop_last()), v.last()@) {
        deduped(v.drop_last())
    } else {
        deduped(v.drop_last()).push(v.last())
    }
}

/// The list without its repetitions holds no string twice, and holds the
/// strings that the list holds.
pub proof fn lemma_deduped(v: Seq<String>)
    ensures
        distinct(deduped(v)),
        forall|s: Seq<char>| holds(deduped(v), s) <==> holds(v, s),
    decreases v.len(),
{
    if v.len() > 0 {
        let head = v.drop_last();
        let before = deduped(head);
        let now = deduped(v);
        lemma_deduped(head);
        assert forall|s: Seq<char>| holds(now, s) <==> holds(v, s) by {
            if holds(now, s) {
                let k = choose|k: int| 0 <= k < now.len() && (#[trigger] now[k])@ == s;
                if k < before.len() {
                    assert(before[k]@ == s);
                    assert(holds(before, s));
                    assert(holds(head, s));
                    let w = choose|w: int| 0 <= w < head.len() && (#[trigger] head[w])@ == s;
                    assert(v[w]@ == s);
                } else {
                    assert(v[v.len() - 1]@ == s);
                }
            }
            if holds(v, s) {
                let w = choose|w: int| 0 <= w < v.len() && (#[trigger] v[w])@ == s;
                if w < head.len() {
                    assert(head[w]@ == s);
                    assert(holds(head, s));
                    assert(holds(before, s));
                    let k = choose|k: int| 0 <= k < before.len() && (#[trigger] before[k])@ == s;
                    assert(now[k]@ == s);
                } else if holds(before, v.last()@) {
                    let k = choose|k: int| 0 <= k < before.len() && (#[trigger] before[k])@ == s;
                    assert(now[k]@ == s);
                } else {
                    assert(now[now.len() - 1]@ == s);
                }
            }
        }
        if !holds(before, v.last()@) {
            assert forall|i: int, j: int|
                0 <= i < now.len() && 0 <= j < now.len() && i != j implies now[i]@ != now[j]@ by {
                if i < before.len() && j < before.len() {
                    assert(before[i] == now[i] && before[j] == now[j]);
                } else if i < before.len() {
                    assert(before[i]@ == now[i]@);
                } else {
                    assert(before[j]@ == now[j]@);
                }
            }
        }
    }
}

/// The list without its repetitions: each string once, where it first stood.
pub fn dedup(v: Vec<String>) -> (out: Vec<String>)
    ensures
        out@ == deduped(v@),
        distinct(out@),
        forall|s: Seq<char>| holds(out@, s) <==> holds(v@, s),
{
    let mut out: Vec<String> = Vec::new();
    let mut i: usize = 0;
    while i < v.len()
        invariant
            i <= v.len(),
            out@ == deduped(v@.take(i as int)),
        decreases v.len() - i,
    {
        proof {
            assert(v@.take(i + 1).drop_last() =~= v@.take(i as int));
            assert(v@.take(i + 1).last() == v@[i as int]);
        }
        if !contains_str(&out, v[i].as_str()) {
            out.push(v[i].clone());
        }
        i = i + 1;
    }
    proof {
        assert(v@.take(v.len() as int) =~= v@);
        lemma_deduped(v@);
    }
    out
}

impl DatabaseObject {
    /// Whether the id is well formed.
    pub open spec fn wf(&self) -> bool {
        valid_id(self.id@)
    }

    /// The type named by the id, for a well-formed id.
    pub fn object_type(&self) -> (r: Result<DatabaseObjectType, Error>)
        ensures
            match r {
                Ok(t) => valid_id(self.id@) && id_type(self.id@) == Some(t),
                Err(e) => !valid_id(self.id@) && if id_type(self.id@) is None {
                    e is UnknownObjectType
                } else {
                    e is MalformedId
                },
            },
    {
        validate_object_id(self.id.as_str())?;
        get_object_type(self.id.as_str())
    }

    /// The schema part of the id.
    pub fn schema(&self) -> (r: Result<&str, Error>)
        ensures
            r is Ok <==> valid_id(self.id@) && has_schema(id_type(self.id@).unwrap()),
            r matches Ok(part) ==> part@ == id_parts(self.id@)[1],
            r matches Err(e) ==> match id_type(self.id@) {
                None => e is UnknownObjectType,
                Some(t) => if has_schema(t) {
                    e is MalformedId
                } else {
                    e is NoSchema
                },
            },
    {
        get_schema(self.id.as_str())
    }

    /// The table part of the id.
    pub fn table(&self) -> (r: Result<&str, Error>)
        ensures
            r is Ok <==> valid_id(self.id@) && has_table(id_type(self.id@).unwrap()),
            r matches Ok(part) ==> part@ == id_parts(self.id@)[2],
            r matches Err(e) ==> match id_type(self.id@) {
                None => e is UnknownObjectType,
                Some(t) => if has_table(t) {
                    e is MalformedId
                } else {
                    e is NoTable
                },
            },
    {
        get_table(self.id.as_str())
    }

    /// The name part of the id.
    pub fn name(&self) -> (r: Result<&str, Error>)
        ensures
            r is Ok <==> valid_id(self.id@),
            r matches Ok(part) ==> part@ == id_parts(self.id@).last(),
            r matches Err(e) ==> if id_type(self.id@) is None {
                e is UnknownObjectType
            } else {
                e is MalformedId
            },
    {
        get_name(self.id.as_str())
    }

    /// Builds an object from the columns of one catalog row. The two edge
    /// columns are read as sets: repetitions are dropped.
    pub fn from_db_row(
        po_id: String,
        po_md5: String,
        po_script: String,
        po_path: String,
        po_depends_on: Vec<String>,
        po_required_by: Vec<String>,
    ) -> (r: Result<DatabaseObject, Error>)
        ensures
            r is Ok <==> valid_id(po_id@),
            r matches Ok(o) ==> {
                &&& o.id@ == po_id@
                &&& o.md5@ == po_md5@
                &&& o.script@ == po_script@
                &&& o.path@ == po_path@
                &&& o.depends_on@ == deduped(po_depends_on@)
                &&& o.required_by@ == deduped(po_required_by@)
            },
            r matches Err(e) ==> if id_type(po_id@) is None {
                e is UnknownObjectType
            } else {
                e is MalformedId
            },
    {
        let depends_on = dedup(po_depends_on);
        let required_by = dedup(po_required_by);
        validate_object_id(po_id.as_str())?;
        Ok(
            DatabaseObject {
                id: po_id,
                path: po_path,
                script: po_script,
                md5: po_md5,
                depends_on,
                required_by,
            },
        )
    }
}

/// The desired state: the declared objects, the scripts that create and drop
/// the database, and the migrations in the order of their ids.
pub struct DatabaseProject {
    pub project_dirpath: String,
    pub create_scripts: Vec<(String, String)>,
    pub drop_scripts: Vec<(String, String)>,
    pub migration_scripts: Vec<(String, String)>,
    pub objects: Vec<DatabaseObject>,
}

/// The position of the first migration whose id comes after `id`, or the
/// number of migrations if there is none.
pub open spec fn next_migration_index(migrations: Seq<(String, String)>, id: Seq<char>) -> int
    decreases migrations.len(),
{
    if migrations.len() == 0 {
        0
    } else if lex_lt(id, migrations[0].0@) {
        0
    } else {
        1 + next_migration_index(migrations.drop_first(), id)
    }
}

/// The index lies within the list or just past it, every migration before it
/// is at or below `id`, and the one at it, if any, is above.
pub proof fn lemma_next_migration_index(migrations: Seq<(String, String)>, id: Seq<char>)
    ensures
        0 <= next_migration_index(migrations, id) <= migrations.len(),
        forall|k: int|
            0 <= k < next_migration_index(migrations, id) ==> !lex_lt(
                id,
                (#[trigger] migrations[k]).0@,
            ),
        next_migration_index(migrations, id) < migrations.len() ==> lex_lt(
            id,
            migrations[next_migration_index(migrations, id)].0@,
        ),
    decreases migrations.len(),
{
    if migrations.len() > 0 && !lex_lt(id, migrations[0].0@) {
        let rest = migrations.drop_first();
        lemma_next_migration_index(rest, id);
        let n = next_migration_index(rest, id);
        assert forall|k: int| 0 <= k < n + 1 implies !lex_lt(id, (#[trigger] migrations[k]).0@) by {
            if k > 0 {
                assert(migrations[k] == rest[k - 1]);
            }
        }
        if n < rest.len() {
            assert(migrations[n + 1] == rest[n]);
        }
    }
}

impl DatabaseProject {
    /// The first migration, in the project's order, whose id comes strictly
    /// after `migration_id`.
    pub fn get_next_migration(&self, migration_id: &str) -> (r: Option<(String, String)>)
        ensures
            ({
                let k = next_migration_index(self.migration_scripts@, migration_id@);
                match r {
                    Some(pair) => k < self.migration_scripts.len() && pair.0@
                        == self.migration_scripts[k].0@ && pair.1@ == self.migration_scripts[k].1@,
                    None => k == self.migration_scripts.len(),
                }
            }),
    {
        proof {
            lemma_next_migration_index(self.migration_scripts@, migration_id@);
        }
        let mut i: usize = 0;
        while i < self.migration_scripts.len()
            invariant
                i <= self.migration_scripts.len(),
                next_migration_index(self.migration_scripts@, migration_id@) >= i,
                forall|k: int|
                    0 <= k < next_migration_index(self.migration_scripts@, migration_id@)
                        ==> !lex_lt(migration_id@, (#[trigger] self.migration_scripts[k]).0@),
                next_migration_index(self.migration_scripts@, migration_id@)
                    < self.migration_scripts.len() ==> lex_lt(
                    migration_id@,
                    self.migration_scripts[next_migration_index(
                        self.migration_scripts@,
                        migration_id@,
                    )].0@,
                ),
            decreases self.migration_scripts.len() - i,
        {
            if str_lt(migration_id, self.migration_scripts[i].0.as_str()) {
                return Some(
                    (self.migration_scripts[i].0.clone(), self.migration_scripts[i].1.clone()),
                );
            }
            i = i + 1;
        }
        None
    }
}

} // verus!
