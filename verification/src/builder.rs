//! The relationship builder: links a new entity to the entities that its
//! request names.
//!
//! The builder never touches the store. It hands out one statement at a time
//! and takes the store's reply to it; from the two it decides what comes
//! next. The caller runs the statements.

use vstd::prelude::*;
use crate::kind::Kind;
use crate::payload::{process_optional_vec, CreateEntity};
use crate::report::{
    LinkError,
    LinkErrorView,
    LinkReport,
    LinkReportView,
    Outcome,
    OutcomeView,
};
use crate::resolver::{
    distinct,
    distinct_names,
    found_id,
    read_id,
    read_ids,
    reply_view,
    resolve_id,
    resolve_ids,
};
use crate::statement::{IdRow, LinkInsert, Statement, StatementView, StoreError};
use crate::topology::junction_of;
use crate::writer::{link_rows, write_associations};

verus! {

/// Where a builder stands, that is, which reply it waits for.
pub enum PhaseView {
    /// For the identifier of the new entity itself.
    Parent,
    /// For the identifiers of the names of one category.
    Children { category: Kind },
    /// For the insert of row `next` of `plan`.
    Writing { category: Kind, plan: Seq<LinkInsert>, next: nat },
}

/// A builder as a mathematical value.
pub struct BuilderView {
    pub kind: Kind,
    pub name: Seq<char>,
    pub terms: Seq<Seq<char>>,
    pub topics: Seq<Seq<char>>,
    pub sources: Seq<Seq<char>>,
    pub parent_id: i32,
    pub phase: PhaseView,
    pub report: LinkReportView,
}

/// What a builder asks for next, or how it ended.
pub enum StepView {
    Run(BuilderView, StatementView),
    Done(Result<LinkReportView, LinkErrorView>),
}

/// The category that is taken up after `category`; none after the last.
pub open spec fn following(category: Kind) -> Option<Kind> {
    match category {
        Kind::Term => Some(Kind::Topic),
        Kind::Topic => Some(Kind::Source),
        Kind::Source => None,
    }
}

/// How many categories are still to be looked at from `from` on.
pub open spec fn remaining(from: Option<Kind>) -> nat {
    match from {
        Some(Kind::Term) => 3,
        Some(Kind::Topic) => 2,
        Some(Kind::Source) => 1,
        None => 0,
    }
}

impl BuilderView {
    /// The builder for a new entity, before anything was asked of the store.
    pub open spec fn initial(
        kind: Kind,
        name: Seq<char>,
        terms: Seq<Seq<char>>,
        topics: Seq<Seq<char>>,
        sources: Seq<Seq<char>>,
    ) -> BuilderView {
        BuilderView {
            kind,
            name,
            terms,
            topics,
            sources,
            parent_id: 0,
            phase: PhaseView::Parent,
            report: LinkReportView {
                terms: OutcomeView::Skipped,
                topics: OutcomeView::Skipped,
                sources: OutcomeView::Skipped,
            },
        }
    }

    /// The names that the request gave for one category.
    pub open spec fn names_of(self, category: Kind) -> Seq<Seq<char>> {
        match category {
            Kind::Term => self.terms,
            Kind::Topic => self.topics,
            Kind::Source => self.sources,
        }
    }

    /// Whether a category is taken up at all: it is not the entity's own
    /// kind, and names were given for it.
    pub open spec fn takes_up(self, category: Kind) -> bool {
        category != self.kind && self.names_of(category).len() > 0
    }

    /// Turns to the first category from `from` on that is taken up, and asks
    /// for the identifiers of its names; with none left, the builder is done.
    pub open spec fn turn_to(self, from: Option<Kind>) -> StepView
        decreases remaining(from),
    {
        match from {
            None => StepView::Done(Ok(self.report)),
            Some(category) => if self.takes_up(category) {
                StepView::Run(
                    BuilderView { phase: PhaseView::Children { category }, ..self },
                    StatementView::SelectIds { kind: category, names: self.names_of(category) },
                )
            } else {
                self.turn_to(following(category))
            },
        }
    }

    /// Records how `category` ended and turns to the categories after it.
    pub open spec fn settle(self, category: Kind, outcome: OutcomeView) -> StepView {
        (BuilderView { report: self.report.with(category, outcome), ..self }).turn_to(
            following(category),
        )
    }

    /// Begins to write the rows for the identifiers found for `category`.
    pub open spec fn write(self, category: Kind, ids: Seq<i32>) -> StepView {
        match junction_of(self.kind, category) {
            None => self.turn_to(following(category)),
            Some(table) => {
                let plan = link_rows(table, self.kind, self.parent_id, category, ids);
                if plan.len() == 0 {
                    self.settle(
                        category,
                        OutcomeView::Linked { asked: self.names_of(category).len(), linked: 0 },
                    )
                } else {
                    StepView::Run(
                        BuilderView {
                            phase: PhaseView::Writing { category, plan, next: 0 },
                            ..self
                        },
                        StatementView::InsertLink(plan[0]),
                    )
                }
            },
        }
    }

    /// What the builder does with the reply to the statement it handed out.
    ///
    /// - Waiting for the entity itself: without a row the entity is missing
    ///   and the builder ends in failure, as it does when the store fails.
    ///   The first row gives the parent's identifier.
    /// - Waiting for the identifiers of a category: every row is written.
    ///   A failure of the store settles this category only.
    /// - Waiting for an insert: the next row follows, and after the last the
    ///   category is settled. A failure settles the category with the rows
    ///   written so far, which stay.
    pub open spec fn step(self, reply: Result<Seq<i32>, Seq<char>>) -> StepView {
        match self.phase {
            PhaseView::Parent => match found_id(self.kind, self.name, reply) {
                Err(error) => StepView::Done(Err(error)),
                Ok(parent_id) => (BuilderView { parent_id, ..self }).turn_to(Some(Kind::Term)),
            },
            PhaseView::Children { category } => match reply {
                Err(error) => self.settle(category, OutcomeView::Failed { linked: 0, error }),
                Ok(ids) => self.write(category, ids),
            },
            PhaseView::Writing { category, plan, next } => match reply {
                Err(error) => self.settle(category, OutcomeView::Failed { linked: next, error }),
                Ok(_) => if next + 1 < plan.len() {
                    StepView::Run(
                        BuilderView {
                            phase: PhaseView::Writing { category, plan, next: next + 1 },
                            ..self
                        },
                        StatementView::InsertLink(plan[next + 1 as int]),
                    )
                } else {
                    self.settle(
                        category,
                        OutcomeView::Linked {
                            asked: self.names_of(category).len(),
                            linked: next + 1,
                        },
                    )
                },
            },
        }
    }
}

/// Where a builder stands.
enum Phase {
    Parent,
    Children { category: Kind },
    Writing { category: Kind, plan: Vec<LinkInsert>, next: usize },
}

impl View for Phase {
    type V = PhaseView;

    closed spec fn view(&self) -> PhaseView {
        match *self {
            Phase::Parent => PhaseView::Parent,
            Phase::Children { category } => PhaseView::Children { category },
            Phase::Writing { category, plan, next } => PhaseView::Writing {
                category,
                plan: plan@,
                next: next as nat,
            },
        }
    }
}

/// The linking of one new entity, between two statements.
pub struct LinkBuilder {
    kind: Kind,
    name: String,
    terms: Vec<String>,
    topics: Vec<String>,
    sources: Vec<String>,
    parent_id: i32,
    phase: Phase,
    report: LinkReport,
}

impl View for LinkBuilder {
    type V = BuilderView;

    closed spec fn view(&self) -> BuilderView {
        BuilderView {
            kind: self.kind,
            name: self.name@,
            terms: self.terms.deep_view(),
            topics: self.topics.deep_view(),
            sources: self.sources.deep_view(),
            parent_id: self.parent_id,
            phase: self.phase@,
            report: self.report@,
        }
    }
}

/// What the caller is to do next.
pub enum Step {
    /// Run the statement and hand its reply to the builder.
    Run(LinkBuilder, Statement),
    /// Nothing more: the report of the three categories, or the reason why
    /// nothing could be linked.
    Done(Result<LinkReport, LinkError>),
}

impl View for Step {
    type V = StepView;

    open spec fn view(&self) -> StepView {
        match *self {
            Step::Run(builder, statement) => StepView::Run(builder@, statement@),
            Step::Done(Ok(report)) => StepView::Done(Ok(report@)),
            Step::Done(Err(error)) => StepView::Done(Err(error@)),
        }
    }
}

/// The category that is taken up after `category`; none after the last.
pub(crate) fn category_after(category: Kind) -> (next: Option<Kind>)
    ensures
        next == following(category),
{
    match category {
        Kind::Term => Some(Kind::Topic),
        Kind::Topic => Some(Kind::Source),
        Kind::Source => None,
    }
}

impl LinkBuilder {
    #[verifier::type_invariant]
    spec fn sound(self) -> bool {
        self.phase matches Phase::Writing { plan, next, .. } ==> next < plan.len()
    }

    fn names(&self, category: Kind) -> (names: &Vec<String>)
        ensures
            names.deep_view() == self@.names_of(category),
    {
        match category {
            Kind::Term => &self.terms,
            Kind::Topic => &self.topics,
            Kind::Source => &self.sources,
        }
    }

    fn turn_to(self, from: Option<Kind>) -> (step: Step)
        requires
            !(self.phase is Writing),
        ensures
            step@ == self@.turn_to(from),
        decreases remaining(from),
    {
        match from {
            None => Step::Done(Ok(self.report)),
            Some(category) => {
                if category != self.kind && self.names(category).len() > 0 {
                    let statement = resolve_ids(category, self.names(category));
                    let builder = LinkBuilder { phase: Phase::Children { category }, ..self };
                    Step::Run(builder, statement)
                } else {
                    self.turn_to(category_after(category))
                }
            },
        }
    }

    fn settle(self, category: Kind, outcome: Outcome) -> (step: Step)
        ensures
            step@ == self@.settle(category, outcome@),
    {
        let ghost before = self@;
        let report = self.report.record(category, outcome);
        let builder = LinkBuilder { phase: Phase::Parent, report, ..self };
        proof {
            lemma_turn_to_ignores_phase(
                builder@,
                BuilderView { report: before.report.with(category, outcome@), ..before },
                following(category),
            );
        }
        builder.turn_to(category_after(category))
    }

    fn write(self, category: Kind, ids: &Vec<i32>) -> (step: Step)
        requires
            !(self.phase is Writing),
        ensures
            step@ == self@.write(category, ids@),
    {
        match write_associations(self.kind, category, self.parent_id, ids) {
            Err(_) => self.turn_to(category_after(category)),
            Ok(plan) => {
                if plan.len() == 0 {
                    let asked = self.names(category).len();
                    self.settle(category, Outcome::Linked { asked, linked: 0 })
                } else {
                    let first = plan[0];
                    let phase = Phase::Writing { category, plan, next: 0 };
                    let builder = LinkBuilder { phase, ..self };
                    Step::Run(builder, Statement::InsertLink(first))
                }
            },
        }
    }

    /// Takes the store's reply to the statement that was handed out last, and
    /// says what is to be done next.
    pub fn advance(self, reply: Result<Vec<IdRow>, StoreError>) -> (step: Step)
        ensures
            step@ == self@.step(reply_view(reply)),
    {
        proof {
            use_type_invariant(&self);
        }
        let ghost before = self@;
        match self.phase {
            Phase::Parent => match read_id(self.kind, self.name.clone(), reply) {
                Err(error) => Step::Done(Err(error)),
                Ok(parent_id) => {
                    let builder = LinkBuilder { parent_id, phase: Phase::Parent, ..self };
                    builder.turn_to(Some(Kind::Term))
                },
            },
            Phase::Children { category } => match read_ids(reply) {
                Err(error) => self.settle(category, Outcome::Failed { linked: 0, error }),
                Ok(ids) => self.write(category, &ids),
            },
            Phase::Writing { category, plan, next } => match reply {
                Err(error) => {
                    let builder = LinkBuilder { phase: Phase::Parent, ..self };
                    let outcome = Outcome::Failed { linked: next, error };
                    proof {
                        lemma_settle_ignores_phase(builder@, before, category, outcome@);
                    }
                    builder.settle(category, outcome)
                },
                Ok(_) => {
                    if next + 1 < plan.len() {
                        let row = plan[next + 1];
                        let phase = Phase::Writing { category, plan, next: next + 1 };
                        let builder = LinkBuilder { phase, ..self };
                        Step::Run(builder, Statement::InsertLink(row))
                    } else {
                        let builder = LinkBuilder { phase: Phase::Parent, ..self };
                        let asked = builder.names(category).len();
                        let outcome = Outcome::Linked { asked, linked: next + 1 };
                        proof {
                            lemma_settle_ignores_phase(builder@, before, category, outcome@);
                        }
                        builder.settle(category, outcome)
                    }
                },
            },
        }
    }
}

/// Which category comes next does not depend on the reply that the builder
/// was waiting for: two builders that differ in nothing else turn to the same
/// category, with the same statement and the same report.
pub proof fn lemma_turn_to_ignores_phase(a: BuilderView, b: BuilderView, from: Option<Kind>)
    requires
        a == (BuilderView { phase: a.phase, ..b }),
    ensures
        a.turn_to(from) == b.turn_to(from),
    decreases remaining(from),
{
    match from {
        None => {},
        Some(category) => {
            if !a.takes_up(category) {
                lemma_turn_to_ignores_phase(a, b, following(category));
            }
        },
    }
}

/// How a category is settled does not depend on the reply that the builder
/// was waiting for either.
pub proof fn lemma_settle_ignores_phase(
    a: BuilderView,
    b: BuilderView,
    category: Kind,
    outcome: OutcomeView,
)
    requires
        a == (BuilderView { phase: a.phase, ..b }),
    ensures
        a.settle(category, outcome) == b.settle(category, outcome),
{
    lemma_turn_to_ignores_phase(
        BuilderView { report: a.report.with(category, outcome), ..a },
        BuilderView { report: b.report.with(category, outcome), ..b },
        following(category),
    );
}

/// Begins the linking of a new entity of the kind that `entity_type` names:
/// the builder, and the first statement, which looks the entity up by its
/// name. Absent lists of related names count as empty ones, and a name that
/// a list gives more than once counts once. Where `entity_type` names no
/// kind there is nothing to begin.
pub fn build_link_tables<T: CreateEntity>(payload: &T, entity_type: &str) -> (begun: Option<
    (LinkBuilder, Statement),
>)
    ensures
        begun is Some <==> Kind::named_by(entity_type@) is Some,
        begun matches Some((builder, statement)) ==> {
            let kind = Kind::named_by(entity_type@).unwrap();
            &&& builder@ == BuilderView::initial(
                kind,
                payload.key(),
                distinct(payload.term_names()),
                distinct(payload.topic_names()),
                distinct(payload.source_names()),
            )
            &&& statement@ == (StatementView::SelectId { kind, name: payload.key() })
        },
{
    let kind = match Kind::parse(entity_type) {
        Some(kind) => kind,
        None => {
            return None;
        },
    };
    let builder = LinkBuilder {
        kind,
        name: payload.name().clone(),
        terms: distinct_names(&process_optional_vec(payload.related_terms())),
        topics: distinct_names(&process_optional_vec(payload.related_topics())),
        sources: distinct_names(&process_optional_vec(payload.related_sources())),
        parent_id: 0,
        phase: Phase::Parent,
        report: LinkReport::new(),
    };
    Some((builder, resolve_id(kind, payload.name())))
}

} // verus!
