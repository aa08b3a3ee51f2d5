//! Linking on request: a caller who holds the identifiers of both sides asks
//! for the rows outright.
//!
//! The request brings up to three lists of children. Each list is written
//! row by row; a failure of the store ends that list and leaves the others
//! to be written.

use vstd::prelude::*;
use crate::builder::{category_after, following, remaining};
use crate::kind::Kind;
use crate::payload::CreateLink;
use crate::report::{LinkReport, LinkReportView, Outcome, OutcomeView};
use crate::resolver::reply_view;
use crate::statement::{IdRow, LinkInsert, Statement, StatementView, StoreError};
use crate::writer::{planned_rows, update_link_table, PlanError};

verus! {

/// A writer as a mathematical value: the rows planned for each list that the
/// request brought, the row whose insert is awaited, and the report so far.
pub struct WriterView {
    pub terms: Option<Seq<LinkInsert>>,
    pub topics: Option<Seq<LinkInsert>>,
    pub sources: Option<Seq<LinkInsert>>,
    pub category: Kind,
    pub next: nat,
    pub report: LinkReportView,
}

/// What a writer asks for next, or its report.
pub enum WriteStepView {
    Run(WriterView, StatementView),
    Done(LinkReportView),
}

impl WriterView {
    /// The rows planned for one list; none where the request left it out.
    pub open spec fn plan_of(self, category: Kind) -> Option<Seq<LinkInsert>> {
        match category {
            Kind::Term => self.terms,
            Kind::Topic => self.topics,
            Kind::Source => self.sources,
        }
    }

    /// Turns to the first list from `from` on that has a row to write. A list
    /// that was brought empty is reported as written, with no rows; one that
    /// was left out is passed over.
    pub open spec fn turn_to(self, from: Option<Kind>) -> WriteStepView
        decreases remaining(from), 0nat,
    {
        match from {
            None => WriteStepView::Done(self.report),
            Some(category) => match self.plan_of(category) {
                None => self.turn_to(following(category)),
                Some(plan) => if plan.len() == 0 {
                    self.settle(category, OutcomeView::Linked { asked: 0, linked: 0 })
                } else {
                    WriteStepView::Run(
                        WriterView { category, next: 0, ..self },
                        StatementView::InsertLink(plan[0]),
                    )
                },
            },
        }
    }

    /// Records how a list ended and turns to the lists after it.
    pub open spec fn settle(self, category: Kind, outcome: OutcomeView) -> WriteStepView
        decreases remaining(following(category)), 1nat,
    {
        (WriterView { report: self.report.with(category, outcome), ..self }).turn_to(
            following(category),
        )
    }

    /// What the writer does with the reply to the insert it handed out: after
    /// a row that went in, the next row of the list, and after the last the
    /// next list; after a failure the next list at once, with the rows
    /// written so far left as they are.
    pub open spec fn step(self, reply: Result<Seq<i32>, Seq<char>>) -> WriteStepView {
        let plan = match self.plan_of(self.category) {
            Some(plan) => plan,
            None => Seq::empty(),
        };
        match reply {
            Err(error) => self.settle(
                self.category,
                OutcomeView::Failed { linked: self.next, error },
            ),
            Ok(_) => if self.next + 1 < plan.len() {
                WriteStepView::Run(
                    WriterView { next: self.next + 1, ..self },
                    StatementView::InsertLink(plan[self.next + 1 as int]),
                )
            } else {
                self.settle(
                    self.category,
                    OutcomeView::Linked { asked: plan.len(), linked: self.next + 1 },
                )
            },
        }
    }
}

/// The rows planned for the three lists of a request.
struct Plans {
    terms: Option<Vec<LinkInsert>>,
    topics: Option<Vec<LinkInsert>>,
    sources: Option<Vec<LinkInsert>>,
}

/// A list of rows that may be absent, as a sequence.
pub open spec fn rows_of(plan: Option<Vec<LinkInsert>>) -> Option<Seq<LinkInsert>> {
    match plan {
        Some(rows) => Some(rows@),
        None => None,
    }
}

impl Plans {
    /// The writer that holds these plans and stands at the given row.
    closed spec fn at(self, category: Kind, next: nat, report: LinkReportView) -> WriterView {
        WriterView {
            terms: rows_of(self.terms),
            topics: rows_of(self.topics),
            sources: rows_of(self.sources),
            category,
            next,
            report,
        }
    }

    fn of(&self, category: Kind) -> (plan: &Option<Vec<LinkInsert>>)
        ensures
            forall|at: Kind, next: nat, report: LinkReportView|
                rows_of(*plan) == (#[trigger] self.at(at, next, report)).plan_of(category),
    {
        match category {
            Kind::Term => &self.terms,
            Kind::Topic => &self.topics,
            Kind::Source => &self.sources,
        }
    }

    fn turn_to(self, report: LinkReport, from: Option<Kind>) -> (step: WriteStep)
        ensures
            step@ == self.at(Kind::Term, 0, report@).turn_to(from),
        decreases remaining(from), 0nat,
    {
        match from {
            None => WriteStep::Done(report),
            Some(category) => {
                let first = match self.of(category) {
                    None => {
                        return self.turn_to(report, category_after(category));
                    },
                    Some(plan) => if plan.len() == 0 {
                        None
                    } else {
                        Some(plan[0])
                    },
                };
                match first {
                    None => self.settle(report, category, Outcome::Linked { asked: 0, linked: 0 }),
                    Some(row) => {
                        proof {
                            lemma_writer_turn_to_ignores_place(
                                self.at(category, 0, report@),
                                self.at(Kind::Term, 0, report@),
                                from,
                            );
                        }
                        WriteStep::Run(
                            LinkWriter { plans: self, category, next: 0, report },
                            Statement::InsertLink(row),
                        )
                    },
                }
            },
        }
    }

    fn settle(self, report: LinkReport, category: Kind, outcome: Outcome) -> (step: WriteStep)
        ensures
            step@ == self.at(Kind::Term, 0, report@).settle(category, outcome@),
        decreases remaining(following(category)), 1nat,
    {
        self.turn_to(report.record(category, outcome), category_after(category))
    }
}

/// The writing of the rows of one request, between two inserts.
pub struct LinkWriter {
    plans: Plans,
    category: Kind,
    next: usize,
    report: LinkReport,
}

impl View for LinkWriter {
    type V = WriterView;

    closed spec fn view(&self) -> WriterView {
        self.plans.at(self.category, self.next as nat, self.report@)
    }
}

/// What the caller is to do next.
pub enum WriteStep {
    /// Run the statement and hand its reply to the writer.
    Run(LinkWriter, Statement),
    /// Nothing more: how each of the three lists fared.
    Done(LinkReport),
}

impl View for WriteStep {
    type V = WriteStepView;

    open spec fn view(&self) -> WriteStepView {
        match *self {
            WriteStep::Run(writer, statement) => WriteStepView::Run(writer@, statement@),
            WriteStep::Done(report) => WriteStepView::Done(report@),
        }
    }
}

impl LinkWriter {
    #[verifier::type_invariant]
    spec fn sound(self) -> bool {
        self.plans.at(self.category, self.next as nat, self.report@).plan_of(self.category) matches Some(
            plan,
        ) && self.next < plan.len()
    }

    /// Takes the store's reply to the insert that was handed out last, and
    /// says what is to be done next.
    pub fn advance(self, reply: Result<Vec<IdRow>, StoreError>) -> (step: WriteStep)
        ensures
            step@ == self@.step(reply_view(reply)),
    {
        proof {
            use_type_invariant(&self);
        }
        let ghost before = self@;
        let next = self.next;
        let category = self.category;
        let plans = self.plans;
        let report = self.report;
        match reply {
            Err(error) => {
                let outcome = Outcome::Failed { linked: next, error };
                proof {
                    lemma_writer_settle_ignores_place(
                        plans.at(Kind::Term, 0, report@),
                        before,
                        category,
                        outcome@,
                    );
                }
                plans.settle(report, category, outcome)
            },
            Ok(_) => {
                let onward = match plans.of(category) {
                    Some(plan) => if next < plan.len() - 1 {
                        Some(plan[next + 1])
                    } else {
                        None
                    },
                    None => None,
                };
                match onward {
                    Some(row) => WriteStep::Run(
                        LinkWriter { plans, category, next: next + 1, report },
                        Statement::InsertLink(row),
                    ),
                    None => {
                        let outcome = Outcome::Linked { asked: next + 1, linked: next + 1 };
                        proof {
                            lemma_writer_settle_ignores_place(
                                plans.at(Kind::Term, 0, report@),
                                before,
                                category,
                                outcome@,
                            );
                        }
                        plans.settle(report, category, outcome)
                    },
                }
            },
        }
    }
}

/// Which list comes next does not depend on the row that the writer was
/// standing at.
pub proof fn lemma_writer_turn_to_ignores_place(a: WriterView, b: WriterView, from: Option<Kind>)
    requires
        a == (WriterView { category: a.category, next: a.next, ..b }),
    ensures
        a.turn_to(from) == b.turn_to(from),
    decreases remaining(from), 0nat,
{
    match from {
        None => {},
        Some(category) => match a.plan_of(category) {
            None => {
                lemma_writer_turn_to_ignores_place(a, b, following(category));
            },
            Some(plan) => {
                if plan.len() == 0 {
                    lemma_writer_settle_ignores_place(
                        a,
                        b,
                        category,
                        OutcomeView::Linked { asked: 0, linked: 0 },
                    );
                }
            },
        },
    }
}

/// How a list is settled does not depend on the row that the writer was
/// standing at either.
pub proof fn lemma_writer_settle_ignores_place(
    a: WriterView,
    b: WriterView,
    category: Kind,
    outcome: OutcomeView,
)
    requires
        a == (WriterView { category: a.category, next: a.next, ..b }),
    ensures
        a.settle(category, outcome) == b.settle(category, outcome),
    decreases remaining(following(category)), 1nat,
{
    lemma_writer_turn_to_ignores_place(
        WriterView { report: a.report.with(category, outcome), ..a },
        WriterView { report: b.report.with(category, outcome), ..b },
        following(category),
    );
}

/// The rows that a request plans for one of its lists; none for a list that
/// it leaves out.
pub open spec fn planned_list(payload: CreateLink, child_ids: Option<Vec<i32>>) -> Option<
    Seq<LinkInsert>,
> {
    match child_ids {
        None => None,
        Some(ids) => match planned_rows(
            payload.parent_entity_type@,
            payload.child_entity_type@,
            payload.parent_id,
            ids@,
        ) {
            Ok(rows) => Some(rows),
            Err(_) => None,
        },
    }
}

/// What is wrong with the two kinds that a request names, if anything is.
pub open spec fn kinds_refused(payload: CreateLink) -> Option<PlanError> {
    match planned_rows(
        payload.parent_entity_type@,
        payload.child_entity_type@,
        payload.parent_id,
        Seq::empty(),
    ) {
        Ok(_) => None,
        Err(error) => Some(error),
    }
}

impl WriterView {
    /// The writer for a request, before anything was written.
    pub open spec fn begun(payload: CreateLink) -> WriterView {
        WriterView {
            terms: planned_list(payload, payload.related_term_ids),
            topics: planned_list(payload, payload.related_topic_ids),
            sources: planned_list(payload, payload.related_source_ids),
            category: Kind::Term,
            next: 0,
            report: LinkReportView {
                terms: OutcomeView::Skipped,
                topics: OutcomeView::Skipped,
                sources: OutcomeView::Skipped,
            },
        }
    }
}

fn plan_list(payload: &CreateLink, child_ids: &Option<Vec<i32>>) -> (plan: Result<
    Option<Vec<LinkInsert>>,
    PlanError,
>)
    ensures
        plan is Ok <==> kinds_refused(*payload).is_none() || child_ids.is_none(),
        plan matches Ok(rows) ==> rows_of(rows) == planned_list(*payload, *child_ids),
        plan matches Err(error) ==> kinds_refused(*payload) == Some(error),
{
    match child_ids {
        None => Ok(None),
        Some(ids) => {
            match update_link_table(
                payload.parent_entity_type.as_str(),
                payload.child_entity_type.as_str(),
                payload.parent_id,
                ids,
            ) {
                Ok(rows) => Ok(Some(rows)),
                Err(error) => Err(error),
            }
        },
    }
}

/// Begins the writing of the rows that a request asks for. All three lists
/// are written for the one pair of kinds that the request names, the list of
/// terms first, then that of topics, then that of sources.
///
/// Where a text names no kind, or both name the same, nothing is begun and
/// nothing is to be written, whatever the lists hold.
pub fn link_entities(payload: &CreateLink) -> (begun: Result<WriteStep, PlanError>)
    ensures
        begun is Ok <==> kinds_refused(*payload).is_none(),
        begun matches Ok(step) ==> step@ == WriterView::begun(*payload).turn_to(Some(Kind::Term)),
        begun matches Err(error) ==> kinds_refused(*payload) == Some(error),
{
    let no_ids: Vec<i32> = Vec::new();
    match update_link_table(
        payload.parent_entity_type.as_str(),
        payload.child_entity_type.as_str(),
        payload.parent_id,
        &no_ids,
    ) {
        Ok(_) => {},
        Err(error) => {
            return Err(error);
        },
    }
    let terms = match plan_list(payload, &payload.related_term_ids) {
        Ok(plan) => plan,
        Err(error) => {
            return Err(error);
        },
    };
    let topics = match plan_list(payload, &payload.related_topic_ids) {
        Ok(plan) => plan,
        Err(error) => {
            return Err(error);
        },
    };
    let sources = match plan_list(payload, &payload.related_source_ids) {
        Ok(plan) => plan,
        Err(error) => {
            return Err(error);
        },
    };
    let plans = Plans { terms, topics, sources };
    Ok(plans.turn_to(LinkReport::new(), Some(Kind::Term)))
}

} // verus!
