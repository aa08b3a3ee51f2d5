//! The entity resolver: from a kind and a natural key to an identifier.
//!
//! Each lookup has two halves. The first makes the statement; the second
//! reads the store's reply to it.

use vstd::prelude::*;
use crate::kind::Kind;
use crate::report::{LinkError, LinkErrorView};
use crate::statement::{IdRow, Statement, StatementView, StoreError};
use crate::store::Store;

verus! {

/// The reply of the store as a mathematical value: the identifiers of the
/// rows in the order given, or the store's complaint.
pub open spec fn reply_view(reply: Result<Vec<IdRow>, StoreError>) -> Result<Seq<i32>, Seq<char>> {
    match reply {
        Ok(rows) => Ok(rows@.map_values(|row: IdRow| row.id)),
        Err(error) => Err(error@),
    }
}

/// What a reply to the lookup of one entity says: the identifier in its
/// first row; without a row, that the entity is missing.
pub open spec fn found_id(kind: Kind, name: Seq<char>, reply: Result<Seq<i32>, Seq<char>>) -> Result<
    i32,
    LinkErrorView,
> {
    match reply {
        Err(error) => Err(LinkErrorView::Store(error)),
        Ok(ids) => if ids.len() == 0 {
            Err(LinkErrorView::NotFound { kind, name })
        } else {
            Ok(ids[0])
        },
    }
}

/// The statement that looks up the one entity of `kind` whose natural key
/// is `name`, by equality.
pub fn resolve_id(kind: Kind, name: &String) -> (statement: Statement)
    ensures
        statement@ == (StatementView::SelectId { kind, name: name@ }),
{
    Statement::SelectId { kind, name: name.clone() }
}

/// Reads the reply to `resolve_id`. A reply without a row is a failure, never
/// a made-up identifier.
pub fn read_id(kind: Kind, name: String, reply: Result<Vec<IdRow>, StoreError>) -> (found: Result<
    i32,
    LinkError,
>)
    ensures
        found matches Ok(id) ==> found_id(kind, name@, reply_view(reply)) == Ok::<
            i32,
            LinkErrorView,
        >(id),
        found matches Err(error) ==> found_id(kind, name@, reply_view(reply)) == Err::<
            i32,
            LinkErrorView,
        >(error@),
{
    match reply {
        Err(error) => Err(LinkError::Store(error)),
        Ok(rows) => {
            if rows.len() == 0 {
                Err(LinkError::NotFound { kind, name })
            } else {
                Ok(rows[0].id)
            }
        },
    }
}

/// The statement that looks up all entities of `kind` whose natural key is
/// one of `names`. The names are bound as one list and matched by
/// membership, so that each name that exists is found, however many are
/// given.
pub fn resolve_ids(kind: Kind, names: &Vec<String>) -> (statement: Statement)
    ensures
        statement@ == (StatementView::SelectIds { kind, names: names.deep_view() }),
{
    let mut copy: Vec<String> = Vec::new();
    let mut i: usize = 0;
    while i < names.len()
        invariant
            i <= names.len(),
            copy.len() == i,
            forall|j: int| 0 <= j < i ==> copy[j]@ == names[j]@,
        decreases names.len() - i,
    {
        copy.push(names[i].clone());
        i += 1;
    }
    assert(copy.deep_view() =~= names.deep_view());
    Statement::SelectIds { kind, names: copy }
}

/// Reads the reply to `resolve_ids`: the identifiers of the rows, in the
/// order in which the store gave them. Names without a match have no row.
pub fn read_ids(reply: Result<Vec<IdRow>, StoreError>) -> (found: Result<Vec<i32>, StoreError>)
    ensures
        found matches Ok(ids) ==> reply_view(reply) == Ok::<Seq<i32>, Seq<char>>(ids@),
        found matches Err(error) ==> reply_view(reply) == Err::<Seq<i32>, Seq<char>>(error@),
{
    match reply {
        Err(error) => Err(error),
        Ok(rows) => {
            let mut ids: Vec<i32> = Vec::new();
            let mut i: usize = 0;
            while i < rows.len()
                invariant
                    i <= rows.len(),
                    ids.len() == i,
                    forall|j: int| 0 <= j < i ==> ids[j] == rows[j].id,
                decreases rows.len() - i,
            {
                ids.push(rows[i].id);
                i += 1;
            }
            assert(ids@ =~= rows@.map_values(|row: IdRow| row.id));
            Ok(ids)
        },
    }
}

/// The names of a list, each once, in the order in which they first occur.
pub open spec fn distinct(names: Seq<Seq<char>>) -> Seq<Seq<char>>
    decreases names.len(),
{
    if names.len() == 0 {
        names
    } else {
        let before = distinct(names.drop_last());
        if before.contains(names.last()) {
            before
        } else {
            before.push(names.last())
        }
    }
}

/// A list of names made distinct holds no name twice, and holds exactly the
/// names of the list.
pub proof fn lemma_distinct(names: Seq<Seq<char>>)
    ensures
        distinct(names).no_duplicates(),
        distinct(names).len() <= names.len(),
        forall|name: Seq<char>| distinct(names).contains(name) <==> names.contains(name),
    decreases names.len(),
{
    if names.len() > 0 {
        let rest = names.drop_last();
        let before = distinct(rest);
        lemma_distinct(rest);
        assert forall|name: Seq<char>| distinct(names).contains(name) <==> names.contains(
            name,
        ) by {
            if names.contains(name) {
                let i = choose|i: int| 0 <= i < names.len() && names[i] == name;
                if i < names.len() - 1 {
                    assert(rest[i] == name);
                    assert(rest.contains(name));
                    assert(before.contains(name));
                    if !before.contains(names.last()) {
                        let j = choose|j: int| 0 <= j < before.len() && before[j] == name;
                        assert(before.push(names.last())[j] == name);
                    }
                } else {
                    if !before.contains(names.last()) {
                        assert(before.push(names.last())[before.len() as int] == name);
                    }
                }
            }
            if distinct(names).contains(name) {
                let i = choose|i: int| 0 <= i < distinct(names).len() && distinct(names)[i] == name;
                if i < before.len() {
                    assert(before[i] == name);
                    assert(before.contains(name));
                    assert(rest.contains(name));
                    let j = choose|j: int| 0 <= j < rest.len() && rest[j] == name;
                    assert(names[j] == name);
                } else {
                    assert(names[names.len() - 1] == name);
                }
            }
        }
    }
}

/// Whether `name` is one of `names`.
fn holds_name(names: &Vec<String>, name: &String) -> (found: bool)
    ensures
        found == names.deep_view().contains(name@),
{
    let mut i: usize = 0;
    while i < names.len()
        invariant
            i <= names.len(),
            forall|j: int| 0 <= j < i ==> names.deep_view()[j] != name@,
        decreases names.len() - i,
    {
        if names[i] == *name {
            assert(names.deep_view()[i as int] == name@);
            return true;
        }
        i += 1;
    }
    false
}

/// The names of a list, each once, in the order in which they first occur:
/// the set of names that a lookup of many is made for.
pub fn distinct_names(names: &Vec<String>) -> (set: Vec<String>)
    ensures
        set.deep_view() == distinct(names.deep_view()),
{
    let mut set: Vec<String> = Vec::new();
    let mut i: usize = 0;
    assert(names.deep_view().take(0) =~= Seq::<Seq<char>>::empty());
    assert(set.deep_view() =~= Seq::<Seq<char>>::empty());
    while i < names.len()
        invariant
            i <= names.len(),
            set.deep_view() == distinct(names.deep_view().take(i as int)),
        decreases names.len() - i,
    {
        let ghost before = set.deep_view();
        assert(names.deep_view().take(i + 1).drop_last() =~= names.deep_view().take(i as int));
        assert(names.deep_view().take(i + 1).last() == names[i as int]@);
        if !holds_name(&set, &names[i]) {
            set.push(names[i].clone());
            assert(set.deep_view() =~= before.push(names[i as int]@));
        }
        i += 1;
    }
    assert(names.deep_view().take(i as int) =~= names.deep_view());
    set
}

/// Read from an honest reply, the lookup of one entity gives the identifier
/// that the store holds for the name, which no other name of the kind has;
/// where the store holds none, it gives the finding that the entity is
/// missing.
pub proof fn lemma_resolve_id_finds(store: Store, kind: Kind, name: Seq<char>, ids: Seq<i32>)
    requires
        store.wf(),
        store.answers(StatementView::SelectId { kind, name }, ids),
    ensures
        found_id(kind, name, Ok(ids)) == match store.lookup(kind, name) {
            Some(id) => Ok::<i32, LinkErrorView>(id),
            None => Err(LinkErrorView::NotFound { kind, name }),
        },
        forall|other: Seq<char>|
            store.lookup(kind, name) is Some && #[trigger] store.lookup(kind, other)
                == store.lookup(kind, name) ==> other == name,
{
    assert forall|other: Seq<char>|
        store.lookup(kind, name) is Some && #[trigger] store.lookup(kind, other) == store.lookup(
            kind,
            name,
        ) implies other == name by {
        assert(store.ids[(kind, other)] == store.ids[(kind, name)]);
    }
}

} // verus!
