//! The association writer: from a parent, a kind of child and the children's
//! identifiers to the rows to insert.

use vstd::prelude::*;
use crate::kind::Kind;
use crate::statement::LinkInsert;
use crate::store::{lemma_insert_all_rows, Store};
use crate::topology::{junction_of, resolve_junction, JunctionTable, TopologyGap};

verus! {

/// Why no rows could be planned for a request that names its kinds in text.
#[derive(Clone, Copy, Debug, PartialEq, Eq, Structural)]
pub enum PlanError {
    /// The text given for the parent's kind names no kind.
    UnknownParentKind,
    /// The text given for the child's kind names no kind.
    UnknownChildKind,
    /// Both texts name the same kind, and a kind has no table with itself.
    TopologyGap(TopologyGap),
}

/// The rows that associate one parent with each of `child_ids`, in order.
pub open spec fn link_rows(
    table: JunctionTable,
    parent_kind: Kind,
    parent_id: i32,
    child_kind: Kind,
    child_ids: Seq<i32>,
) -> Seq<LinkInsert> {
    Seq::new(
        child_ids.len(),
        |i: int| LinkInsert { table, parent_kind, parent_id, child_kind, child_id: child_ids[i] },
    )
}

/// Plans the rows that associate the parent with each child: one row for each
/// identifier in `child_ids`, in the same order, all for the junction table of
/// the two kinds. An empty list gives an empty plan. Where the two kinds are
/// the same there is no table, and nothing is planned.
pub fn write_associations(
    parent_kind: Kind,
    child_kind: Kind,
    parent_id: i32,
    child_ids: &Vec<i32>,
) -> (plan: Result<Vec<LinkInsert>, TopologyGap>)
    ensures
        plan is Ok <==> parent_kind != child_kind,
        plan matches Ok(rows) ==> junction_of(parent_kind, child_kind) matches Some(table)
            && rows@ == link_rows(table, parent_kind, parent_id, child_kind, child_ids@),
        plan matches Err(gap) ==> gap.kind == parent_kind,
{
    let table = match resolve_junction(parent_kind, child_kind) {
        Ok(table) => table,
        Err(gap) => {
            return Err(gap);
        },
    };
    let mut rows: Vec<LinkInsert> = Vec::new();
    let mut i: usize = 0;
    while i < child_ids.len()
        invariant
            i <= child_ids.len(),
            rows@ == link_rows(table, parent_kind, parent_id, child_kind, child_ids@.take(i as int)),
        decreases child_ids.len() - i,
    {
        rows.push(LinkInsert { table, parent_kind, parent_id, child_kind, child_id: child_ids[i] });
        i += 1;
    }
    assert(child_ids@.take(i as int) == child_ids@);
    Ok(rows)
}

/// What `update_link_table` gives for the two texts and the identifiers.
pub open spec fn planned_rows(
    parent_entity_type: Seq<char>,
    child_entity_type: Seq<char>,
    parent_id: i32,
    child_ids: Seq<i32>,
) -> Result<Seq<LinkInsert>, PlanError> {
    match (Kind::named_by(parent_entity_type), Kind::named_by(child_entity_type)) {
        (None, _) => Err(PlanError::UnknownParentKind),
        (Some(_), None) => Err(PlanError::UnknownChildKind),
        (Some(parent_kind), Some(child_kind)) => match junction_of(parent_kind, child_kind) {
            None => Err(PlanError::TopologyGap(TopologyGap { kind: parent_kind })),
            Some(table) => Ok(link_rows(table, parent_kind, parent_id, child_kind, child_ids)),
        },
    }
}

/// Plans the rows for a request that names its two kinds in text, as a
/// caller does who already holds the identifiers of both sides.
pub fn update_link_table(
    parent_entity_type: &str,
    child_entity_type: &str,
    parent_id: i32,
    child_ids: &Vec<i32>,
) -> (plan: Result<Vec<LinkInsert>, PlanError>)
    ensures
        plan is Ok <==> planned_rows(
            parent_entity_type@,
            child_entity_type@,
            parent_id,
            child_ids@,
        ) is Ok,
        plan matches Ok(rows) ==> Ok::<Seq<LinkInsert>, PlanError>(rows@) == planned_rows(
            parent_entity_type@,
            child_entity_type@,
            parent_id,
            child_ids@,
        ),
        plan matches Err(error) ==> Err::<Seq<LinkInsert>, PlanError>(error) == planned_rows(
            parent_entity_type@,
            child_entity_type@,
            parent_id,
            child_ids@,
        ),
{
    let parent_kind = match Kind::parse(parent_entity_type) {
        Some(kind) => kind,
        None => {
            return Err(PlanError::UnknownParentKind);
        },
    };
    let child_kind = match Kind::parse(child_entity_type) {
        Some(kind) => kind,
        None => {
            return Err(PlanError::UnknownChildKind);
        },
    };
    match write_associations(parent_kind, child_kind, parent_id, child_ids) {
        Ok(rows) => Ok(rows),
        Err(gap) => Err(PlanError::TopologyGap(gap)),
    }
}

/// What the rows planned for one parent leave behind once they are all
/// inserted: the junction table of the two kinds has gained them, in order
/// and behind what it held, each with the parent's and the child's
/// identifier in the column of its kind. The other tables and the entities
/// are as before. With no children nothing has changed at all.
pub proof fn lemma_associations_fill_one_table(
    store: Store,
    table: JunctionTable,
    parent_kind: Kind,
    parent_id: i32,
    child_kind: Kind,
    child_ids: Seq<i32>,
)
    requires
        junction_of(parent_kind, child_kind) == Some(table),
    ensures
        ({
            let rows = link_rows(table, parent_kind, parent_id, child_kind, child_ids);
            let end = store.insert_all(rows);
            &&& end.ids == store.ids
            &&& end.rows(table) == store.rows(table) + child_ids.map_values(
                |child_id: i32|
                    if parent_kind == table.first() {
                        (parent_id, child_id)
                    } else {
                        (child_id, parent_id)
                    },
            )
            &&& forall|other: JunctionTable|
                other != table ==> #[trigger] end.rows(other) == store.rows(other)
            &&& child_ids.len() == 0 ==> end == store
        }),
{
    let rows = link_rows(table, parent_kind, parent_id, child_kind, child_ids);
    lemma_insert_all_rows(store, rows, table);
    assert(rows.map_values(|link: LinkInsert| link.stored()) =~= child_ids.map_values(
        |child_id: i32|
            if parent_kind == table.first() {
                (parent_id, child_id)
            } else {
                (child_id, parent_id)
            },
    ));
}

} // verus!
