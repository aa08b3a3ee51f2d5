//! A mathematical picture of the store, against which the library's
//! statements are given their meaning.
//!
//! Nothing here runs. The picture says what the store holds, what an honest
//! store replies to each statement, and what a statement leaves behind.

use vstd::prelude::*;
use crate::kind::Kind;
use crate::statement::{LinkInsert, LinkedSelect, StatementView};
use crate::topology::{junction_of, JunctionTable};

verus! {

/// A row of a junction table: the identifier in the column of the table's
/// first kind, then the one in the column of its second kind.
pub type StoredLink = (i32, i32);

/// What the store holds.
pub struct Store {
    /// The identifier of each entity, by kind and natural key. A natural key
    /// names at most one entity of a kind.
    pub ids: Map<(Kind, Seq<char>), i32>,
    /// The rows of each junction table, oldest first. Equal rows may occur
    /// more than once.
    pub links: Map<JunctionTable, Seq<StoredLink>>,
}

impl LinkInsert {
    /// Whether the row names the junction table of its two kinds.
    pub open spec fn fits(self) -> bool {
        junction_of(self.parent_kind, self.child_kind) == Some(self.table)
    }

    /// The row as the table stores it: each identifier in the column of its
    /// own kind, whichever of the two is the parent.
    pub open spec fn stored(self) -> StoredLink {
        if self.parent_kind == self.table.first() {
            (self.parent_id, self.child_id)
        } else {
            (self.child_id, self.parent_id)
        }
    }
}

impl Store {
    /// No two entities of a kind share an identifier.
    pub open spec fn wf(self) -> bool {
        forall|kind: Kind, a: Seq<char>, b: Seq<char>|
            #![trigger self.ids[(kind, a)], self.ids[(kind, b)]]
            self.ids.contains_key((kind, a)) && self.ids.contains_key((kind, b)) && self.ids[(
                kind,
                a,
            )] == self.ids[(kind, b)] ==> a == b
    }

    /// The identifier of the entity of `kind` with natural key `name`.
    pub open spec fn lookup(self, kind: Kind, name: Seq<char>) -> Option<i32> {
        if self.ids.contains_key((kind, name)) {
            Some(self.ids[(kind, name)])
        } else {
            None
        }
    }

    /// The rows of a junction table.
    pub open spec fn rows(self, table: JunctionTable) -> Seq<StoredLink> {
        if self.links.contains_key(table) {
            self.links[table]
        } else {
            Seq::empty()
        }
    }

    /// The store after one more row was inserted. Nothing is checked against
    /// the rows that are there: a row that is there already is stored again.
    pub open spec fn insert(self, link: LinkInsert) -> Store {
        Store {
            links: self.links.insert(link.table, self.rows(link.table).push(link.stored())),
            ..self
        }
    }

    /// The store after `links` were inserted one after the other.
    pub open spec fn insert_all(self, links: Seq<LinkInsert>) -> Store
        decreases links.len(),
    {
        if links.len() == 0 {
            self
        } else {
            self.insert(links[0]).insert_all(links.skip(1))
        }
    }

    /// The store after a statement that went through.
    pub open spec fn after(self, statement: StatementView) -> Store {
        match statement {
            StatementView::InsertLink(link) => self.insert(link),
            _ => self,
        }
    }

    /// Whether `ids` is an honest reply to the lookup of one entity: its
    /// identifier where it exists, nothing where it does not.
    pub open spec fn answers_one(self, kind: Kind, name: Seq<char>, ids: Seq<i32>) -> bool {
        match self.lookup(kind, name) {
            Some(id) => ids == seq![id],
            None => ids.len() == 0,
        }
    }

    /// Whether `ids` is an honest reply to the lookup of many names: the
    /// identifier of every name that exists, each once and in any order, and
    /// nothing else.
    pub open spec fn answers_many(self, kind: Kind, names: Seq<Seq<char>>, ids: Seq<i32>) -> bool {
        &&& ids.no_duplicates()
        &&& forall|id: i32|
            ids.contains(id) <==> exists|name: Seq<char>|
                names.contains(name) && #[trigger] self.lookup(kind, name) == Some(id)
    }

    /// Whether `ids` is an honest reply to `statement`.
    pub open spec fn answers(self, statement: StatementView, ids: Seq<i32>) -> bool {
        match statement {
            StatementView::SelectId { kind, name } => self.answers_one(kind, name, ids),
            StatementView::SelectIds { kind, names } => self.answers_many(kind, names, ids),
            StatementView::InsertLink(_) => ids.len() == 0,
        }
    }

    /// Whether `ids` is an honest reply to the lookup of linked entities: one
    /// identifier for each row that links the given entity, in any order.
    pub open spec fn answers_linked(self, select: LinkedSelect, ids: Seq<i32>) -> bool {
        ids.to_multiset() == self.linked(select.kind, select.id, select.other).to_multiset()
    }

    /// The identifiers of the entities of kind `other` that the store links
    /// to the entity `id` of `kind`, one for each row, oldest first.
    pub open spec fn linked(self, kind: Kind, id: i32, other: Kind) -> Seq<i32> {
        match junction_of(kind, other) {
            None => Seq::empty(),
            Some(table) => self.rows(table).filter(holds(table.first() == kind, id)).map_values(
                across(table.first() == kind),
            ),
        }
    }
}

/// The test that a row holds `id` in its first column, or in its second.
pub open spec fn holds(first: bool, id: i32) -> spec_fn(StoredLink) -> bool {
    |row: StoredLink|
        if first {
            row.0 == id
        } else {
            row.1 == id
        }
}

/// What a row holds in the column across from its first, or from its second.
pub open spec fn across(first: bool) -> spec_fn(StoredLink) -> i32 {
    |row: StoredLink|
        if first {
            row.1
        } else {
            row.0
        }
}

/// Inserting the rows of a stretch of a plan is inserting its first row and
/// then the rest of the stretch.
pub proof fn lemma_insert_all_from(store: Store, plan: Seq<LinkInsert>, next: int, stop: int)
    requires
        0 <= next < stop <= plan.len(),
    ensures
        store.insert_all(plan.subrange(next, stop)) == store.insert(plan[next]).insert_all(
            plan.subrange(next + 1, stop),
        ),
{
    assert(plan.subrange(next, stop).skip(1) =~= plan.subrange(next + 1, stop));
    assert(plan.subrange(next, stop)[0] == plan[next]);
}

/// Rows inserted into one table are appended to that table in order, as
/// stored; the other tables and the entities stay as they were.
pub proof fn lemma_insert_all_rows(store: Store, plan: Seq<LinkInsert>, table: JunctionTable)
    requires
        forall|i: int| 0 <= i < plan.len() ==> (#[trigger] plan[i]).table == table,
    ensures
        store.insert_all(plan).ids == store.ids,
        store.insert_all(plan).rows(table) == store.rows(table) + plan.map_values(
            |link: LinkInsert| link.stored(),
        ),
        forall|other: JunctionTable|
            other != table ==> #[trigger] store.insert_all(plan).rows(other) == store.rows(other),
    decreases plan.len(),
{
    let stored = |link: LinkInsert| link.stored();
    if plan.len() == 0 {
        assert(store.rows(table) + plan.map_values(stored) =~= store.rows(table));
    } else {
        let first = store.insert(plan[0]);
        lemma_insert_all_rows(first, plan.skip(1), table);
        assert(first.rows(table) == store.rows(table).push(plan[0].stored()));
        assert(store.rows(table).push(plan[0].stored()) + plan.skip(1).map_values(stored)
            =~= store.rows(table) + plan.map_values(stored));
        assert forall|other: JunctionTable| other != table implies #[trigger] store.insert_all(
            plan,
        ).rows(other) == store.rows(other) by {
            assert(first.rows(other) == store.rows(other));
        }
    }
}

/// An association is stored the same way whichever of the two entities is
/// called the parent.
pub proof fn lemma_stored_is_symmetric(link: LinkInsert)
    requires
        link.fits(),
    ensures
        ({
            let turned = LinkInsert {
                table: link.table,
                parent_kind: link.child_kind,
                parent_id: link.child_id,
                child_kind: link.parent_kind,
                child_id: link.parent_id,
            };
            turned.fits() && turned.stored() == link.stored()
        }),
{
}

} // verus!
