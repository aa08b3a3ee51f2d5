//! What the linking of one entity reports when it is over.

use vstd::prelude::*;
use crate::kind::Kind;
use crate::statement::StoreError;

verus! {

/// How one category of related names fared.
#[derive(Clone, Debug, PartialEq, Eq)]
pub enum Outcome {
    /// Nothing was attempted: no names were given, or the category is the
    /// entity's own kind.
    Skipped,
    /// The names were looked up and a row was written for each identifier
    /// found: `asked` names, `linked` rows.
    Linked { asked: usize, linked: usize },
    /// The store failed, after `linked` rows had been written.
    Failed { linked: usize, error: StoreError },
}

pub enum OutcomeView {
    Skipped,
    Linked { asked: nat, linked: nat },
    Failed { linked: nat, error: Seq<char> },
}

impl View for Outcome {
    type V = OutcomeView;

    open spec fn view(&self) -> OutcomeView {
        match *self {
            Outcome::Skipped => OutcomeView::Skipped,
            Outcome::Linked { asked, linked } => OutcomeView::Linked {
                asked: asked as nat,
                linked: linked as nat,
            },
            Outcome::Failed { linked, error } => OutcomeView::Failed {
                linked: linked as nat,
                error: error@,
            },
        }
    }
}

impl OutcomeView {
    /// The number of rows written.
    pub open spec fn written(self) -> nat {
        match self {
            OutcomeView::Skipped => 0,
            OutcomeView::Linked { linked, .. } => linked,
            OutcomeView::Failed { linked, .. } => linked,
        }
    }

    /// The number of names that were asked for and gave no row.
    pub open spec fn gap(self) -> nat {
        match self {
            OutcomeView::Linked { asked, linked } => if asked >= linked {
                (asked - linked) as nat
            } else {
                0
            },
            _ => 0,
        }
    }
}

impl Outcome {
    /// The number of rows written for the category.
    pub fn written(&self) -> (count: usize)
        ensures
            count == self@.written(),
    {
        match self {
            Outcome::Skipped => 0,
            Outcome::Linked { linked, .. } => *linked,
            Outcome::Failed { linked, .. } => *linked,
        }
    }

    /// The number of names that matched no entity and were left out. This is
    /// no failure: every name that did match was linked.
    pub fn unresolved(&self) -> (count: usize)
        ensures
            count == self@.gap(),
    {
        match self {
            Outcome::Linked { asked, linked } => if *asked >= *linked {
                *asked - *linked
            } else {
                0
            },
            _ => 0,
        }
    }

    /// Whether the store failed in this category.
    pub fn failed(&self) -> (yes: bool)
        ensures
            yes == (self@ is Failed),
    {
        match self {
            Outcome::Failed { .. } => true,
            _ => false,
        }
    }
}

/// The outcome of each of the three categories.
#[derive(Clone, Debug, PartialEq, Eq)]
pub struct LinkReport {
    pub terms: Outcome,
    pub topics: Outcome,
    pub sources: Outcome,
}

pub struct LinkReportView {
    pub terms: OutcomeView,
    pub topics: OutcomeView,
    pub sources: OutcomeView,
}

impl View for LinkReport {
    type V = LinkReportView;

    open spec fn view(&self) -> LinkReportView {
        LinkReportView { terms: self.terms@, topics: self.topics@, sources: self.sources@ }
    }
}

impl LinkReportView {
    /// The outcome of the category of `kind`.
    pub open spec fn of(self, kind: Kind) -> OutcomeView {
        match kind {
            Kind::Term => self.terms,
            Kind::Topic => self.topics,
            Kind::Source => self.sources,
        }
    }

    /// The report with the outcome of one category replaced.
    pub open spec fn with(self, kind: Kind, outcome: OutcomeView) -> LinkReportView {
        match kind {
            Kind::Term => LinkReportView { terms: outcome, ..self },
            Kind::Topic => LinkReportView { topics: outcome, ..self },
            Kind::Source => LinkReportView { sources: outcome, ..self },
        }
    }

    /// Whether no category failed.
    pub open spec fn clean(self) -> bool {
        !(self.terms is Failed) && !(self.topics is Failed) && !(self.sources is Failed)
    }
}

impl LinkReport {
    /// A report in which nothing has been attempted yet.
    pub fn new() -> (report: LinkReport)
        ensures
            report@ == (LinkReportView {
                terms: OutcomeView::Skipped,
                topics: OutcomeView::Skipped,
                sources: OutcomeView::Skipped,
            }),
    {
        LinkReport { terms: Outcome::Skipped, topics: Outcome::Skipped, sources: Outcome::Skipped }
    }

    /// The outcome of the category of `kind`.
    pub fn outcome(&self, kind: Kind) -> (outcome: &Outcome)
        ensures
            outcome@ == self@.of(kind),
    {
        match kind {
            Kind::Term => &self.terms,
            Kind::Topic => &self.topics,
            Kind::Source => &self.sources,
        }
    }

    /// Replaces the outcome of one category.
    pub fn record(self, kind: Kind, outcome: Outcome) -> (report: LinkReport)
        ensures
            report@ == self@.with(kind, outcome@),
    {
        match kind {
            Kind::Term => LinkReport { terms: outcome, topics: self.topics, sources: self.sources },
            Kind::Topic => LinkReport { terms: self.terms, topics: outcome, sources: self.sources },
            Kind::Source => LinkReport { terms: self.terms, topics: self.topics, sources: outcome },
        }
    }

    /// Whether every category that was attempted went through without a
    /// failure of the store.
    pub fn is_clean(&self) -> (yes: bool)
        ensures
            yes == self@.clean(),
    {
        !self.terms.failed() && !self.topics.failed() && !self.sources.failed()
    }
}

/// Why the linking of an entity could not begin.
#[derive(Clone, Debug, PartialEq, Eq)]
pub enum LinkError {
    /// The entity to link from is not in the store under its name.
    NotFound { kind: Kind, name: String },
    /// The store failed while the entity was looked up.
    Store(StoreError),
}

pub enum LinkErrorView {
    NotFound { kind: Kind, name: Seq<char> },
    Store(Seq<char>),
}

impl View for LinkError {
    type V = LinkErrorView;

    open spec fn view(&self) -> LinkErrorView {
        match *self {
            LinkError::NotFound { kind, name } => LinkErrorView::NotFound { kind, name: name@ },
            LinkError::Store(error) => LinkErrorView::Store(error@),
        }
    }
}

} // verus!
