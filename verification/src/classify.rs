use vstd::prelude::*;
use crate::error::Error;
use crate::object_id::{first_invalid, id_type, valid_id};
use crate::object_type::DatabaseObjectType;
use crate::project::{declares, find_object, holds, ids_of, strs, unique_ids, DatabaseObject};
use crate::sorted::{ascending, sort_strings};
use crate::text::str_eq;

verus! {

/// What becomes of an object that the catalog records.
#[derive(PartialEq, Eq, Debug, Copy, Clone, Structural)]
pub enum Verdict {
    /// Declared and unchanged: nothing to do.
    Keep,
    /// To be dropped, and created again if it is still declared.
    Drop,
    /// A table that changed or left the project: never dropped by the tool.
    DirtyTable,
    /// A schema, extension or type whose script changed: only a migration
    /// changes it, so the catalog record is forgotten.
    Stale,
}

/// The verdict on a recorded object of type `t`, given whether the project
/// still declares it and, if so, whether its script has the recorded digest.
/// A role is dropped on every run.
pub open spec fn verdict(t: DatabaseObjectType, declared: bool, same_digest: bool) -> Verdict {
    if t == DatabaseObjectType::Role {
        Verdict::Drop
    } else if !declared {
        if t == DatabaseObjectType::Table {
            Verdict::DirtyTable
        } else {
            Verdict::Drop
        }
    } else if same_digest {
        Verdict::Keep
    } else {
        match t {
            DatabaseObjectType::Table => Verdict::DirtyTable,
            DatabaseObjectType::Schema
            | DatabaseObjectType::Extension
            | DatabaseObjectType::Type => Verdict::Stale,
            _ => Verdict::Drop,
        }
    }
}

/// Judges one recorded object.
pub fn judge(t: DatabaseObjectType, declared: bool, same_digest: bool) -> (v: Verdict)
    ensures
        v == verdict(t, declared, same_digest),
{
    if t == DatabaseObjectType::Role {
        Verdict::Drop
    } else if !declared {
        if t == DatabaseObjectType::Table {
            Verdict::DirtyTable
        } else {
            Verdict::Drop
        }
    } else if same_digest {
        Verdict::Keep
    } else {
        match t {
            DatabaseObjectType::Table => Verdict::DirtyTable,
            DatabaseObjectType::Schema
            | DatabaseObjectType::Extension
            | DatabaseObjectType::Type => Verdict::Stale,
            _ => Verdict::Drop,
        }
    }
}

/// Whether a declared object that the catalog does not record, and that
/// exists in the database all the same, is dropped so that it can be created
/// from its script. Schemas, tables, extensions and types are left alone.
pub open spec fn replaces_unrecorded(t: DatabaseObjectType) -> bool {
    !(t == DatabaseObjectType::Schema || t == DatabaseObjectType::Table || t
        == DatabaseObjectType::Extension || t == DatabaseObjectType::Type)
}

/// Decides on a declared, unrecorded object that exists.
pub fn drops_unrecorded(t: DatabaseObjectType) -> (r: bool)
    ensures
        r == replaces_unrecorded(t),
{
    match t {
        DatabaseObjectType::Schema
        | DatabaseObjectType::Table
        | DatabaseObjectType::Extension
        | DatabaseObjectType::Type => false,
        _ => true,
    }
}

/// What is done about a dirty table.
#[derive(PartialEq, Eq, Debug, Copy, Clone, Structural)]
pub enum DirtyTableAction {
    /// It exists and left the project: stop, a person has to step in.
    Refuse,
    /// It is gone and left the project: forget its catalog record.
    Forget,
    /// It exists and is declared with another script: overwrite the record,
    /// touch nothing else.
    Overwrite,
    /// It is gone and declared: it will be created with the other objects.
    Leave,
}

/// The rule for dirty tables.
pub open spec fn dirty_table_action(exists: bool, declared: bool) -> DirtyTableAction {
    if exists && !declared {
        DirtyTableAction::Refuse
    } else if !exists && !declared {
        DirtyTableAction::Forget
    } else if exists && declared {
        DirtyTableAction::Overwrite
    } else {
        DirtyTableAction::Leave
    }
}

/// Decides on one dirty table.
pub fn resolve_dirty_table(exists: bool, declared: bool) -> (a: DirtyTableAction)
    ensures
        a == dirty_table_action(exists, declared),
{
    if exists && !declared {
        DirtyTableAction::Refuse
    } else if !exists && !declared {
        DirtyTableAction::Forget
    } else if exists && declared {
        DirtyTableAction::Overwrite
    } else {
        DirtyTableAction::Leave
    }
}

/// Whether the project declares an object with this id and this digest.
pub open spec fn declares_digest(declared: Seq<DatabaseObject>, id: Seq<char>, md5: Seq<char>) -> bool {
    exists|i: int|
        0 <= i < declared.len() && (#[trigger] declared[i]).id@ == id && declared[i].md5@ == md5
}

/// The verdict on a recorded object with a well-formed id.
pub open spec fn verdict_on(o: DatabaseObject, declared: Seq<DatabaseObject>) -> Verdict {
    verdict(
        id_type(o.id@).unwrap(),
        declares(declared, o.id@),
        declares_digest(declared, o.id@, o.md5@),
    )
}

/// The ids of the recorded objects that get the verdict `want`, in the order
/// of the catalog.
pub open spec fn judged(
    recorded: Seq<DatabaseObject>,
    declared: Seq<DatabaseObject>,
    want: Verdict,
) -> Seq<Seq<char>>
    decreases recorded.len(),
{
    if recorded.len() == 0 {
        Seq::empty()
    } else {
        let before = judged(recorded.drop_last(), declared, want);
        if verdict_on(recorded.last(), declared) == want {
            before.push(recorded.last().id@)
        } else {
            before
        }
    }
}

/// The ids of `objects` that no object of `others` has, in order.
pub open spec fn ids_missing_from(objects: Seq<DatabaseObject>, others: Seq<DatabaseObject>) -> Seq<
    Seq<char>,
>
    decreases objects.len(),
{
    if objects.len() == 0 {
        Seq::empty()
    } else {
        let before = ids_missing_from(objects.drop_last(), others);
        if declares(others, objects.last().id@) {
            before
        } else {
            before.push(objects.last().id@)
        }
    }
}

/// Whether every object of the list has a well-formed id.
pub open spec fn all_valid(objects: Seq<DatabaseObject>) -> bool {
    forall|i: int| 0 <= i < objects.len() ==> valid_id((#[trigger] objects[i]).id@)
}

/// The outcome of comparing the catalog with the project.
pub struct Classification {
    /// Recorded objects to drop.
    pub drop_set: Vec<String>,
    /// Tables that changed or left the project, in ascending order.
    pub dirty_tables: Vec<String>,
    /// Recorded schemas, extensions and types whose script changed.
    pub stale: Vec<String>,
    /// Declared objects that the catalog does not record.
    pub unrecorded: Vec<String>,
}

impl Classification {
    /// Whether this is the classification of `recorded` against `declared`.
    pub open spec fn of(&self, recorded: Seq<DatabaseObject>, declared: Seq<DatabaseObject>) -> bool {
        &&& strs(self.drop_set@) == judged(recorded, declared, Verdict::Drop)
        &&& strs(self.stale@) == judged(recorded, declared, Verdict::Stale)
        &&& strs(self.unrecorded@) == ids_missing_from(declared, recorded)
        &&& ascending(self.dirty_tables@)
        &&& strs(self.dirty_tables@).to_multiset() == judged(
            recorded,
            declared,
            Verdict::DirtyTable,
        ).to_multiset()
        &&& self.dirty_tables.len() == judged(recorded, declared, Verdict::DirtyTable).len()
        &&& forall|s: Seq<char>|
            holds(self.dirty_tables@, s) <==> judged(
                recorded,
                declared,
                Verdict::DirtyTable,
            ).contains(s)
    }
}

/// Compares the catalog with the project: which recorded objects are
/// dropped, which tables are dirty, which records are stale, and which
/// declared objects the catalog does not know.
pub fn classify(recorded: &Vec<DatabaseObject>, declared: &Vec<DatabaseObject>) -> (r: Result<
    Classification,
    Error,
>)
    requires
        unique_ids(declared@),
    ensures
        r is Ok <==> all_valid(recorded@),
        r matches Ok(c) ==> c.of(recorded@, declared@),
        r matches Err(e) ==> first_invalid(ids_of(recorded@), e),
{
    let mut drop_set: Vec<String> = Vec::new();
    let mut dirty: Vec<String> = Vec::new();
    let mut stale: Vec<String> = Vec::new();
    let mut i: usize = 0;
    while i < recorded.len()
        invariant
            i <= recorded.len(),
            unique_ids(declared@),
            forall|j: int| 0 <= j < i ==> valid_id((#[trigger] recorded[j]).id@),
            strs(drop_set@) == judged(recorded@.take(i as int), declared@, Verdict::Drop),
            strs(stale@) == judged(recorded@.take(i as int), declared@, Verdict::Stale),
            strs(dirty@) == judged(recorded@.take(i as int), declared@, Verdict::DirtyTable),
        decreases recorded.len() - i,
    {
        let object = &recorded[i];
        let t = match object.object_type() {
            Ok(t) => t,
            Err(e) => {
                proof {
                    let ids = ids_of(recorded@);
                    assert(!valid_id(ids[i as int]));
                    assert forall|j: int| 0 <= j < i implies valid_id(#[trigger] ids[j]) by {
                        assert(valid_id(recorded[j].id@));
                    }
                }
                return Err(e);
            },
        };
        let found = find_object(declared, object.id.as_str());
        let same = match found {
            Some(j) => str_eq(declared[j].md5.as_str(), object.md5.as_str()),
            None => false,
        };
        proof {
            assert(recorded@.take(i + 1).drop_last() =~= recorded@.take(i as int));
            assert(recorded@.take(i + 1).last() == recorded@[i as int]);
            if found is Some {
                assert(declares(declared@, object.id@));
            }
            assert(same == declares_digest(declared@, object.id@, object.md5@));
        }
        let ghost drop_before = strs(drop_set@);
        let ghost stale_before = strs(stale@);
        let ghost dirty_before = strs(dirty@);
        match judge(t, found.is_some(), same) {
            Verdict::Keep => {},
            Verdict::Drop => {
                drop_set.push(object.id.clone());
                proof {
                    assert(strs(drop_set@) =~= drop_before.push(object.id@));
                }
            },
            Verdict::DirtyTable => {
                dirty.push(object.id.clone());
                proof {
                    assert(strs(dirty@) =~= dirty_before.push(object.id@));
                }
            },
            Verdict::Stale => {
                stale.push(object.id.clone());
                proof {
                    assert(strs(stale@) =~= stale_before.push(object.id@));
                }
            },
        }
        i = i + 1;
    }
    proof {
        assert(recorded@.take(recorded.len() as int) =~= recorded@);
    }
    let mut unrecorded: Vec<String> = Vec::new();
    let mut k: usize = 0;
    while k < declared.len()
        invariant
            k <= declared.len(),
            strs(unrecorded@) == ids_missing_from(declared@.take(k as int), recorded@),
        decreases declared.len() - k,
    {
        let ghost before = strs(unrecorded@);
        proof {
            assert(declared@.take(k + 1).drop_last() =~= declared@.take(k as int));
            assert(declared@.take(k + 1).last() == declared@[k as int]);
        }
        if find_object(recorded, declared[k].id.as_str()).is_none() {
            unrecorded.push(declared[k].id.clone());
            proof {
                assert(strs(unrecorded@) =~= before.push(declared[k as int].id@));
            }
        }
        k = k + 1;
    }
    proof {
        assert(declared@.take(declared.len() as int) =~= declared@);
    }
    let dirty_tables = sort_strings(&dirty);
    proof {
        let want = judged(recorded@, declared@, Verdict::DirtyTable);
        assert forall|s: Seq<char>| holds(dirty@, s) <==> want.contains(s) by {
            if holds(dirty@, s) {
                let w = choose|w: int| 0 <= w < dirty.len() && (#[trigger] dirty[w])@ == s;
                assert(strs(dirty@)[w] == s);
            }
            if want.contains(s) {
                let w = choose|w: int| 0 <= w < want.len() && want[w] == s;
                assert(dirty[w]@ == strs(dirty@)[w]);
            }
        }
    }
    Ok(Classification { drop_set, dirty_tables, stale, unrecorded })
}

/// Whether the catalog and the project agree: every declared object is
/// recorded, and every recorded object has a well-formed id, is no role, and
/// is declared with the recorded digest.
pub open spec fn converged(recorded: Seq<DatabaseObject>, declared: Seq<DatabaseObject>) -> bool {
    &&& all_valid(recorded)
    &&& forall|i: int| 0 <= i < declared.len() ==> declares(recorded, (#[trigger] declared[i]).id@)
    &&& forall|i: int|
        0 <= i < recorded.len() ==> {
            &&& id_type((#[trigger] recorded[i]).id@) != Some(DatabaseObjectType::Role)
            &&& declares_digest(declared, recorded[i].id@, recorded[i].md5@)
        }
}

/// Where every recorded object is kept, no id gets another verdict.
pub proof fn lemma_all_kept(
    recorded: Seq<DatabaseObject>,
    declared: Seq<DatabaseObject>,
    want: Verdict,
)
    requires
        want != Verdict::Keep,
        forall|i: int|
            0 <= i < recorded.len() ==> verdict_on(#[trigger] recorded[i], declared)
                == Verdict::Keep,
    ensures
        judged(recorded, declared, want).len() == 0,
    decreases recorded.len(),
{
    if recorded.len() > 0 {
        let before = recorded.drop_last();
        assert forall|i: int| 0 <= i < before.len() implies verdict_on(
            #[trigger] before[i],
            declared,
        ) == Verdict::Keep by {
            assert(before[i] == recorded[i]);
        }
        lemma_all_kept(before, declared, want);
        assert(verdict_on(recorded[recorded.len() - 1], declared) == Verdict::Keep);
    }
}

/// Where every object of `objects` has its id among `others`, none is
/// missing.
pub proof fn lemma_none_missing(objects: Seq<DatabaseObject>, others: Seq<DatabaseObject>)
    requires
        forall|i: int| 0 <= i < objects.len() ==> declares(others, (#[trigger] objects[i]).id@),
    ensures
        ids_missing_from(objects, others).len() == 0,
    decreases objects.len(),
{
    if objects.len() > 0 {
        let before = objects.drop_last();
        assert forall|i: int| 0 <= i < before.len() implies declares(
            others,
            (#[trigger] before[i]).id@,
        ) by {
            assert(before[i] == objects[i]);
        }
        lemma_none_missing(before, others);
        assert(declares(others, objects[objects.len() - 1].id@));
    }
}

/// Where the catalog and the project agree, the comparison finds nothing to
/// drop, no dirty table, no stale record and no unrecorded object.
pub proof fn lemma_converged_classification(
    c: Classification,
    recorded: Seq<DatabaseObject>,
    declared: Seq<DatabaseObject>,
)
    requires
        c.of(recorded, declared),
        converged(recorded, declared),
    ensures
        c.drop_set.len() == 0,
        c.dirty_tables.len() == 0,
        c.stale.len() == 0,
        c.unrecorded.len() == 0,
{
    assert forall|i: int| 0 <= i < recorded.len() implies verdict_on(
        #[trigger] recorded[i],
        declared,
    ) == Verdict::Keep by {
        let o = recorded[i];
        let w = choose|w: int|
            0 <= w < declared.len() && (#[trigger] declared[w]).id@ == o.id@ && declared[w].md5@
                == o.md5@;
        assert(declares(declared, o.id@));
    }
    lemma_all_kept(recorded, declared, Verdict::Drop);
    lemma_all_kept(recorded, declared, Verdict::Stale);
    lemma_all_kept(recorded, declared, Verdict::DirtyTable);
    lemma_none_missing(declared, recorded);
    assert(strs(c.drop_set@).len() == 0);
    assert(strs(c.stale@).len() == 0);
    assert(strs(c.unrecorded@).len() == 0);
}

} // verus!
