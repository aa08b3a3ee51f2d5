//! Which junction table holds the associations between two kinds.
//!
//! There is one table for each unordered pair of distinct kinds, and none for
//! a kind paired with itself.

use vstd::prelude::*;
use crate::kind::Kind;

verus! {

/// One of the three tables that store associations.
#[derive(Clone, Copy, Debug, PartialEq, Eq, Structural)]
pub enum JunctionTable {
    TermsToTopics,
    TermsToSources,
    TopicsToSources,
}

/// Why a pair of kinds has no junction table.
#[derive(Clone, Copy, Debug, PartialEq, Eq, Structural)]
pub struct TopologyGap {
    /// The kind that was paired with itself.
    pub kind: Kind,
}

impl JunctionTable {
    /// The kind named first in the table's name.
    pub open spec fn first(self) -> Kind {
        match self {
            JunctionTable::TermsToTopics => Kind::Term,
            JunctionTable::TermsToSources => Kind::Term,
            JunctionTable::TopicsToSources => Kind::Topic,
        }
    }

    /// The kind named second in the table's name.
    pub open spec fn second(self) -> Kind {
        match self {
            JunctionTable::TermsToTopics => Kind::Topic,
            JunctionTable::TermsToSources => Kind::Source,
            JunctionTable::TopicsToSources => Kind::Source,
        }
    }

    /// The table's name in the store.
    pub open spec fn label(self) -> Seq<char> {
        match self {
            JunctionTable::TermsToTopics => "terms_to_topics"@,
            JunctionTable::TermsToSources => "terms_to_sources"@,
            JunctionTable::TopicsToSources => "topics_to_sources"@,
        }
    }

    /// Whether the table stores associations that involve `kind`.
    pub open spec fn joins(self, kind: Kind) -> bool {
        self.first() == kind || self.second() == kind
    }

    pub fn name(self) -> (text: &'static str)
        ensures
            text@ == self.label(),
    {
        match self {
            JunctionTable::TermsToTopics => "terms_to_topics",
            JunctionTable::TermsToSources => "terms_to_sources",
            JunctionTable::TopicsToSources => "topics_to_sources",
        }
    }
}

/// The table for a pair of kinds, in either order; none for a kind with itself.
pub open spec fn junction_of(a: Kind, b: Kind) -> Option<JunctionTable> {
    match (a, b) {
        (Kind::Term, Kind::Topic) | (Kind::Topic, Kind::Term) => Some(
            JunctionTable::TermsToTopics,
        ),
        (Kind::Term, Kind::Source) | (Kind::Source, Kind::Term) => Some(
            JunctionTable::TermsToSources,
        ),
        (Kind::Topic, Kind::Source) | (Kind::Source, Kind::Topic) => Some(
            JunctionTable::TopicsToSources,
        ),
        _ => None,
    }
}

/// Looks up the junction table for two kinds. The order of the two does not
/// matter. A kind paired with itself has no table, and that is the only pair
/// that has none.
pub fn resolve_junction(a: Kind, b: Kind) -> (found: Result<JunctionTable, TopologyGap>)
    ensures
        found is Ok <==> a != b,
        found matches Ok(table) ==> junction_of(a, b) == Some(table),
        found matches Err(gap) ==> gap.kind == a && junction_of(a, b).is_none(),
{
    match (a, b) {
        (Kind::Term, Kind::Topic) | (Kind::Topic, Kind::Term) => Ok(JunctionTable::TermsToTopics),
        (Kind::Term, Kind::Source) | (Kind::Source, Kind::Term) => Ok(
            JunctionTable::TermsToSources,
        ),
        (Kind::Topic, Kind::Source) | (Kind::Source, Kind::Topic) => Ok(
            JunctionTable::TopicsToSources,
        ),
        _ => Err(TopologyGap { kind: a }),
    }
}

/// The lookup is symmetric, a table exists exactly for two distinct kinds,
/// and the table found is the one that joins the two kinds asked for.
pub proof fn lemma_junction_symmetric(a: Kind, b: Kind)
    ensures
        junction_of(a, b) == junction_of(b, a),
        junction_of(a, b).is_some() <==> a != b,
        junction_of(a, b) matches Some(table) ==> table.joins(a) && table.joins(b),
{
}

/// Distinct pairs of kinds have distinct tables: a table determines its pair.
pub proof fn lemma_junction_determines_pair(a: Kind, b: Kind, c: Kind, d: Kind)
    requires
        junction_of(a, b).is_some(),
        junction_of(a, b) == junction_of(c, d),
    ensures
        (a == c && b == d) || (a == d && b == c),
{
}

/// A table's name is made of the names of its two kinds, each in the plural,
/// and no two tables share a name.
pub proof fn lemma_junction_label(table: JunctionTable, other: JunctionTable)
    ensures
        table.label() == table.first().label() + "s_to_"@ + table.second().label() + "s"@,
        table.label() == other.label() ==> table == other,
{
    reveal_strlit("topic");
    reveal_strlit("term");
    reveal_strlit("source");
    reveal_strlit("s_to_");
    reveal_strlit("s");
    reveal_strlit("terms_to_topics");
    reveal_strlit("terms_to_sources");
    reveal_strlit("topics_to_sources");
    assert("terms_to_topics"@ =~= "term"@ + "s_to_"@ + "topic"@ + "s"@);
    assert("terms_to_sources"@ =~= "term"@ + "s_to_"@ + "source"@ + "s"@);
    assert("topics_to_sources"@ =~= "topic"@ + "s_to_"@ + "source"@ + "s"@);
    assert("terms_to_topics"@.len() == 15);
    assert("terms_to_sources"@.len() == 16);
    assert("topics_to_sources"@.len() == 17);
}

} // verus!
