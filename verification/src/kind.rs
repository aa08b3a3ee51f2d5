//! The three kinds of entity and the names under which the store knows them.

use vstd::prelude::*;

verus! {

/// One of the three categories of entity.
#[derive(Clone, Copy, Debug, PartialEq, Eq, Structural)]
pub enum Kind {
    Topic,
    Term,
    Source,
}

impl Kind {
    /// The kind's name as it is written in requests and in column names.
    pub open spec fn label(self) -> Seq<char> {
        match self {
            Kind::Topic => "topic"@,
            Kind::Term => "term"@,
            Kind::Source => "source"@,
        }
    }

    /// The column of the kind's table that holds the natural key.
    pub open spec fn key_column_label(self) -> Seq<char> {
        match self {
            Kind::Source => "name"@,
            _ => self.label(),
        }
    }

    /// The kind that a text names, if it names one.
    pub open spec fn named_by(text: Seq<char>) -> Option<Kind> {
        if text == Kind::Topic.label() {
            Some(Kind::Topic)
        } else if text == Kind::Term.label() {
            Some(Kind::Term)
        } else if text == Kind::Source.label() {
            Some(Kind::Source)
        } else {
            None
        }
    }

    pub fn name(self) -> (text: &'static str)
        ensures
            text@ == self.label(),
    {
        match self {
            Kind::Topic => "topic",
            Kind::Term => "term",
            Kind::Source => "source",
        }
    }

    pub fn key_column(self) -> (text: &'static str)
        ensures
            text@ == self.key_column_label(),
    {
        match self {
            Kind::Source => "name",
            _ => self.name(),
        }
    }

    /// Reads a kind from its name. The match is exact: no trimming, no
    /// folding of case.
    pub fn parse(text: &str) -> (kind: Option<Kind>)
        ensures
            kind == Kind::named_by(text@),
    {
        let owned = text.to_owned();
        if owned == Kind::Topic.name().to_owned() {
            Some(Kind::Topic)
        } else if owned == Kind::Term.name().to_owned() {
            Some(Kind::Term)
        } else if owned == Kind::Source.name().to_owned() {
            Some(Kind::Source)
        } else {
            None
        }
    }
}

/// No two kinds share a name, so a name read back gives the kind it came from.
pub proof fn lemma_label_round_trip(kind: Kind)
    ensures
        Kind::named_by(kind.label()) == Some(kind),
{
    reveal_strlit("topic");
    reveal_strlit("term");
    reveal_strlit("source");
    assert("topic"@.len() == 5);
    assert("term"@.len() == 4);
    assert("source"@.len() == 6);
}

} // verus!
