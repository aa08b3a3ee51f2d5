//! The statements that the library asks the store to run, and the replies
//! that the store gives.
//!
//! A statement is plain data: its text with numbered placeholders, and the
//! values bound to them. Running it is the caller's part.

use vstd::prelude::*;
use crate::kind::Kind;
use crate::topology::{junction_of, resolve_junction, JunctionTable, TopologyGap};

verus! {

/// A row that holds nothing but an identifier.
#[derive(Clone, Copy, Debug, PartialEq, Eq, Structural)]
pub struct IdRow {
    pub id: i32,
}

/// One association to insert: the table, and the identifier that goes into
/// the column of each of the two kinds.
#[derive(Clone, Copy, Debug, PartialEq, Eq, Structural)]
pub struct LinkInsert {
    pub table: JunctionTable,
    pub parent_kind: Kind,
    pub parent_id: i32,
    pub child_kind: Kind,
    pub child_id: i32,
}

/// A failure that the store reported, in its own words.
#[derive(Clone, Debug, PartialEq, Eq)]
pub struct StoreError {
    pub message: String,
}

impl View for StoreError {
    type V = Seq<char>;

    open spec fn view(&self) -> Seq<char> {
        self.message@
    }
}

/// A statement for the store.
#[derive(Clone, Debug, PartialEq, Eq)]
pub enum Statement {
    /// Selects the identifier of the one entity of `kind` whose natural key
    /// equals `name`.
    SelectId { kind: Kind, name: String },
    /// Selects the identifiers of all entities of `kind` whose natural key is
    /// one of `names`.
    SelectIds { kind: Kind, names: Vec<String> },
    /// Inserts one association row.
    InsertLink(LinkInsert),
}

/// What a statement says, with texts as sequences of characters.
pub enum StatementView {
    SelectId { kind: Kind, name: Seq<char> },
    SelectIds { kind: Kind, names: Seq<Seq<char>> },
    InsertLink(LinkInsert),
}

impl View for Statement {
    type V = StatementView;

    open spec fn view(&self) -> StatementView {
        match *self {
            Statement::SelectId { kind, name } => StatementView::SelectId { kind, name: name@ },
            Statement::SelectIds { kind, names } => StatementView::SelectIds {
                kind,
                names: names.deep_view(),
            },
            Statement::InsertLink(link) => StatementView::InsertLink(link),
        }
    }
}

/// The text that selects identifiers from the table of `kind` by `condition`
/// on the natural key.
pub open spec fn select_text(kind: Kind, condition: Seq<char>) -> Seq<char> {
    "SELECT id FROM platform."@ + kind.label() + "s WHERE "@ + kind.key_column_label() + condition
}

/// The text that inserts a row into `table`, the child's identifier bound
/// first and the parent's second, each into the column named after its kind.
pub open spec fn insert_link_text(table: JunctionTable, parent_kind: Kind, child_kind: Kind) -> Seq<
    char,
> {
    "INSERT INTO platform."@ + table.label() + " ("@ + child_kind.label() + "_id, "@
        + parent_kind.label() + "_id) VALUES ($1, $2)"@
}

impl StatementView {
    /// The text of the statement.
    pub open spec fn text(self) -> Seq<char> {
        match self {
            StatementView::SelectId { kind, .. } => select_text(kind, " = $1"@),
            StatementView::SelectIds { kind, .. } => select_text(kind, " = ANY($1)"@),
            StatementView::InsertLink(link) => insert_link_text(
                link.table,
                link.parent_kind,
                link.child_kind,
            ),
        }
    }
}

fn select_sql(kind: Kind, condition: &str) -> (text: String)
    ensures
        text@ == select_text(kind, condition@),
{
    let mut text = String::from_str("SELECT id FROM platform.");
    text.append(kind.name());
    text.append("s WHERE ");
    text.append(kind.key_column());
    text.append(condition);
    text
}

impl Statement {
    /// The statement's text, with `$1`, `$2` where its values are bound.
    pub fn sql(&self) -> (text: String)
        ensures
            text@ == self@.text(),
    {
        match self {
            Statement::SelectId { kind, .. } => select_sql(*kind, " = $1"),
            Statement::SelectIds { kind, .. } => select_sql(*kind, " = ANY($1)"),
            Statement::InsertLink(link) => {
                let mut text = String::from_str("INSERT INTO platform.");
                text.append(link.table.name());
                text.append(" (");
                text.append(link.child_kind.name());
                text.append("_id, ");
                text.append(link.parent_kind.name());
                text.append("_id) VALUES ($1, $2)");
                text
            },
        }
    }
}

/// The lookup of the entities of one kind that are linked to one entity of
/// another: the table that joins the two, the entity that is given, and the
/// kind that is asked for.
#[derive(Clone, Copy, Debug, PartialEq, Eq, Structural)]
pub struct LinkedSelect {
    pub table: JunctionTable,
    pub kind: Kind,
    pub id: i32,
    pub other: Kind,
}

/// The text that selects the rows of the entities of `other` that `table`
/// links to the entity of `kind` whose identifier is bound.
pub open spec fn select_linked_text(table: JunctionTable, kind: Kind, other: Kind) -> Seq<char> {
    "SELECT linked.* FROM platform."@ + other.label() + "s AS linked INNER JOIN platform."@
        + table.label() + " AS link ON linked.id = link."@ + other.label() + "_id WHERE link."@
        + kind.label() + "_id = $1"@
}

impl LinkedSelect {
    /// The statement's text, with `$1` for the identifier of the entity that
    /// is given.
    pub fn sql(&self) -> (text: String)
        ensures
            text@ == select_linked_text(self.table, self.kind, self.other),
    {
        let mut text = String::from_str("SELECT linked.* FROM platform.");
        text.append(self.other.name());
        text.append("s AS linked INNER JOIN platform.");
        text.append(self.table.name());
        text.append(" AS link ON linked.id = link.");
        text.append(self.other.name());
        text.append("_id WHERE link.");
        text.append(self.kind.name());
        text.append("_id = $1");
        text
    }
}

/// The lookup of the entities of kind `other` that are linked to the entity
/// `id` of `kind`. Two entities of one kind are never linked, so there is no
/// such lookup where the two kinds are the same.
pub fn select_linked(kind: Kind, id: i32, other: Kind) -> (select: Result<LinkedSelect, TopologyGap>)
    ensures
        select is Ok <==> kind != other,
        select matches Ok(found) ==> junction_of(kind, other) == Some(found.table) && found.kind
            == kind && found.id == id && found.other == other,
        select matches Err(gap) ==> gap.kind == kind,
{
    match resolve_junction(kind, other) {
        Ok(table) => Ok(LinkedSelect { table, kind, id, other }),
        Err(gap) => Err(gap),
    }
}

} // verus!
