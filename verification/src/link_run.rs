//! What a writer brings about when its inserts are run against a store,
//! whether the store goes through with each of them or refuses some.
//!
//! Nothing here runs: these are statements about every run, and their proofs.

use vstd::prelude::*;
use crate::builder::{following, remaining};
use crate::kind::Kind;
use crate::link::{lemma_writer_settle_ignores_place, WriteStepView, WriterView};
use crate::report::{LinkReportView, OutcomeView};
use crate::statement::{LinkInsert, StatementView};
use crate::store::{lemma_insert_all_from, Store};

verus! {

/// The inserts that the store refuses: for each list at most one, counted
/// from the first row of the list, with the store's complaint.
pub struct Refusals {
    pub terms: Option<(nat, Seq<char>)>,
    pub topics: Option<(nat, Seq<char>)>,
    pub sources: Option<(nat, Seq<char>)>,
}

impl Refusals {
    /// The insert refused in one list.
    pub open spec fn of(self, category: Kind) -> Option<(nat, Seq<char>)> {
        match category {
            Kind::Term => self.terms,
            Kind::Topic => self.topics,
            Kind::Source => self.sources,
        }
    }

    /// Whether the store refuses nothing.
    pub open spec fn none(self) -> bool {
        self.terms is None && self.topics is None && self.sources is None
    }

    /// The number of rows, out of the `planned` rows of a list, that go in
    /// before the store refuses one.
    pub open spec fn written(self, category: Kind, planned: nat) -> nat {
        match self.of(category) {
            Some((at, _)) => if at < planned {
                at
            } else {
                planned
            },
            None => planned,
        }
    }
}

/// The store's reply to the insert that a writer hands out.
pub open spec fn reply_to(writer: WriterView, refusals: Refusals) -> Result<Seq<i32>, Seq<char>> {
    match refusals.of(writer.category) {
        Some((at, error)) => if at == writer.next {
            Err(error)
        } else {
            Ok(Seq::empty())
        },
        None => Ok(Seq::empty()),
    }
}

/// Runs up to `limit` inserts, each against the store that the one before
/// left behind. Gives the step reached and the store as it then is.
pub open spec fn run_writes(step: WriteStepView, store: Store, refusals: Refusals, limit: nat) -> (
    WriteStepView,
    Store,
)
    decreases limit,
{
    match step {
        WriteStepView::Done(_) => (step, store),
        WriteStepView::Run(writer, statement) => if limit == 0 {
            (step, store)
        } else {
            let reply = reply_to(writer, refusals);
            run_writes(
                writer.step(reply),
                if reply is Ok {
                    store.after(statement)
                } else {
                    store
                },
                refusals,
                (limit - 1) as nat,
            )
        },
    }
}

/// The rows of one list that a run inserts: the rows that the request asks
/// for, up to the one that the store refuses. None for a list that the
/// request leaves out.
pub open spec fn rows_written(writer: WriterView, refusals: Refusals, category: Kind) -> Seq<
    LinkInsert,
> {
    match writer.plan_of(category) {
        Some(plan) => plan.take(refusals.written(category, plan.len()) as int),
        None => Seq::empty(),
    }
}

/// What a run reports for one list: that it was skipped where the request
/// leaves it out, the store's complaint and the number of rows before it
/// where the store refused one, and else that it was written in full.
pub open spec fn outcome_written(writer: WriterView, refusals: Refusals, category: Kind) -> OutcomeView {
    match writer.plan_of(category) {
        None => OutcomeView::Skipped,
        Some(plan) => if refusals.written(category, plan.len()) < plan.len() {
            OutcomeView::Failed {
                linked: refusals.written(category, plan.len()),
                error: refusals.of(category).unwrap().1,
            }
        } else {
            OutcomeView::Linked { asked: plan.len(), linked: plan.len() }
        },
    }
}

/// The report and the store at the end of a run that stands before the lists
/// from `from` on.
spec fn ending(
    writer: WriterView,
    refusals: Refusals,
    report: LinkReportView,
    store: Store,
    from: Option<Kind>,
) -> (LinkReportView, Store)
    decreases remaining(from),
{
    match from {
        None => (report, store),
        Some(category) => ending(
            writer,
            refusals,
            match writer.plan_of(category) {
                Some(_) => report.with(category, outcome_written(writer, refusals, category)),
                None => report,
            },
            store.insert_all(rows_written(writer, refusals, category)),
            following(category),
        ),
    }
}

/// The rows that the request asks for in one list; none where it leaves the
/// list out.
pub open spec fn rows_planned(writer: WriterView, category: Kind) -> Seq<LinkInsert> {
    match writer.plan_of(category) {
        Some(plan) => plan,
        None => Seq::empty(),
    }
}

/// The number of rows that the request asks for in one list.
pub open spec fn rows_asked(writer: WriterView, category: Kind) -> nat {
    rows_planned(writer, category).len()
}

/// The number of inserts that a run makes at most for the lists from `from`
/// on.
spec fn cost(writer: WriterView, from: Option<Kind>) -> nat
    decreases remaining(from),
{
    match from {
        None => 0,
        Some(category) => cost(writer, following(category)) + rows_asked(writer, category),
    }
}

/// The row of a plan at which the writing stops when it stands at `next`.
spec fn stop_of(refused: Option<(nat, Seq<char>)>, planned: nat, next: nat) -> nat {
    match refused {
        Some((at, _)) => if next <= at < planned {
            at
        } else {
            planned
        },
        None => planned,
    }
}

/// How a list is settled whose writing stops at row `stop`.
spec fn settled_at(refused: Option<(nat, Seq<char>)>, planned: nat, stop: nat) -> OutcomeView {
    if stop < planned {
        OutcomeView::Failed { linked: stop, error: refused.unwrap().1 }
    } else {
        OutcomeView::Linked { asked: planned, linked: planned }
    }
}

/// From the insert of one row of a list on, a run inserts the rows up to the
/// one that the store refuses, or up to the end, and settles the list.
proof fn lemma_run_list(
    writer: WriterView,
    plan: Seq<LinkInsert>,
    store: Store,
    refusals: Refusals,
    limit: nat,
)
    requires
        writer.plan_of(writer.category) == Some(plan),
        writer.next < plan.len(),
        limit >= plan.len() - writer.next,
    ensures
        ({
            let refused = refusals.of(writer.category);
            let stop = stop_of(refused, plan.len(), writer.next);
            let used = if stop < plan.len() {
                stop - writer.next + 1
            } else {
                stop - writer.next
            };
            &&& writer.next <= stop <= plan.len()
            &&& used <= limit
            &&& run_writes(
                WriteStepView::Run(writer, StatementView::InsertLink(plan[writer.next as int])),
                store,
                refusals,
                limit,
            ) == run_writes(
                writer.settle(writer.category, settled_at(refused, plan.len(), stop)),
                store.insert_all(plan.subrange(writer.next as int, stop as int)),
                refusals,
                (limit - used) as nat,
            )
        }),
    decreases plan.len() - writer.next,
{
    let next = writer.next;
    let refused = refusals.of(writer.category);
    let stop = stop_of(refused, plan.len(), next);
    let outcome = settled_at(refused, plan.len(), stop);
    let reply = reply_to(writer, refusals);
    if reply is Err {
        assert(stop == next);
        assert(plan.subrange(next as int, next as int) =~= Seq::<LinkInsert>::empty());
        assert(store.insert_all(Seq::<LinkInsert>::empty()) == store);
        assert(writer.step(reply) == writer.settle(writer.category, outcome));
    } else {
        assert(reply == Ok::<Seq<i32>, Seq<char>>(Seq::empty()));
        assert(store.after(StatementView::InsertLink(plan[next as int])) == store.insert(
            plan[next as int],
        ));
        assert(stop > next);
        lemma_insert_all_from(store, plan, next as int, stop as int);
        if next + 1 < plan.len() {
            let onward = WriterView { next: next + 1, ..writer };
            assert(writer.step(reply) == WriteStepView::Run(
                onward,
                StatementView::InsertLink(plan[next + 1 as int]),
            ));
            assert(stop_of(refused, plan.len(), next + 1) == stop);
            lemma_run_list(
                onward,
                plan,
                store.insert(plan[next as int]),
                refusals,
                (limit - 1) as nat,
            );
            lemma_writer_settle_ignores_place(onward, writer, writer.category, outcome);
        } else {
            assert(stop == plan.len());
            assert(plan.subrange(next + 1 as int, stop as int) =~= Seq::<LinkInsert>::empty());
            assert(store.insert(plan[next as int]).insert_all(Seq::<LinkInsert>::empty())
                == store.insert(plan[next as int]));
            assert(writer.step(reply) == writer.settle(writer.category, outcome));
        }
    }
}

/// A run that turns to the lists from `from` on ends with the report and the
/// store that `ending` gives. `at` is the writer as it stands; `writer` is
/// the same but for the row awaited and the report.
proof fn lemma_run_from(
    at: WriterView,
    writer: WriterView,
    store: Store,
    refusals: Refusals,
    from: Option<Kind>,
    limit: nat,
)
    requires
        at == (WriterView { category: at.category, next: at.next, report: at.report, ..writer }),
        limit >= cost(writer, from),
    ensures
        run_writes(at.turn_to(from), store, refusals, limit) == (
            WriteStepView::Done(ending(writer, refusals, at.report, store, from).0),
            ending(writer, refusals, at.report, store, from).1,
        ),
    decreases remaining(from),
{
    match from {
        None => {},
        Some(category) => {
            let outcome = outcome_written(writer, refusals, category);
            let due = rows_written(writer, refusals, category);
            assert(store.insert_all(Seq::<LinkInsert>::empty()) == store);
            match at.plan_of(category) {
                None => {
                    lemma_run_from(at, writer, store, refusals, following(category), limit);
                },
                Some(plan) => {
                    if plan.len() == 0 {
                        assert(due =~= Seq::<LinkInsert>::empty());
                        let settled = WriterView {
                            report: at.report.with(category, outcome),
                            ..at
                        };
                        lemma_run_from(
                            settled,
                            writer,
                            store,
                            refusals,
                            following(category),
                            limit,
                        );
                        assert(at.settle(category, outcome) == settled.turn_to(
                            following(category),
                        ));
                    } else {
                        let writing = WriterView { category, next: 0, ..at };
                        lemma_run_list(writing, plan, store, refusals, limit);
                        let stop = stop_of(refusals.of(category), plan.len(), 0);
                        let used = if stop < plan.len() {
                            stop + 1
                        } else {
                            stop
                        };
                        assert(stop == refusals.written(category, plan.len()));
                        assert(plan.subrange(0, stop as int) =~= due);
                        assert(settled_at(refusals.of(category), plan.len(), stop) == outcome);
                        let settled = WriterView {
                            report: writing.report.with(category, outcome),
                            ..writing
                        };
                        lemma_run_from(
                            settled,
                            writer,
                            store.insert_all(due),
                            refusals,
                            following(category),
                            (limit - used) as nat,
                        );
                        assert(writing.settle(category, outcome) == settled.turn_to(
                            following(category),
                        ));
                    }
                },
            }
        },
    }
}

/// Inserting one sequence of rows and then another is inserting the two in
/// a row.
pub proof fn lemma_insert_all_add(store: Store, first: Seq<LinkInsert>, second: Seq<LinkInsert>)
    ensures
        store.insert_all(first + second) == store.insert_all(first).insert_all(second),
    decreases first.len(),
{
    if first.len() == 0 {
        assert(first + second =~= second);
    } else {
        assert((first + second).skip(1) =~= first.skip(1) + second);
        lemma_insert_all_add(store.insert(first[0]), first.skip(1), second);
    }
}

/// What the writing of a request brings about, whatever the store does.
///
/// The lists are written one after the other and each in its order. Of each
/// list the rows go in up to the one that the store refuses, and a refusal
/// in one list takes nothing from the lists after it. The report says of
/// each list that the request left out that it was skipped, of each in which
/// the store refused a row how many went in before, and of every other that
/// it was written in full. Nothing else is inserted.
pub proof fn lemma_run_writes_what_is_let(
    writer: WriterView,
    store: Store,
    refusals: Refusals,
    limit: nat,
)
    requires
        writer.report == (LinkReportView {
            terms: OutcomeView::Skipped,
            topics: OutcomeView::Skipped,
            sources: OutcomeView::Skipped,
        }),
        limit >= rows_asked(writer, Kind::Term) + rows_asked(writer, Kind::Topic) + rows_asked(
            writer,
            Kind::Source,
        ),
    ensures
        ({
            let (step, end) = run_writes(writer.turn_to(Some(Kind::Term)), store, refusals, limit);
            &&& step matches WriteStepView::Done(report)
            &&& forall|category: Kind| #[trigger]
                report.of(category) == outcome_written(writer, refusals, category)
            &&& end == store.insert_all(
                rows_written(writer, refusals, Kind::Term) + rows_written(
                    writer,
                    refusals,
                    Kind::Topic,
                ) + rows_written(writer, refusals, Kind::Source),
            )
        }),
{
    let terms = rows_written(writer, refusals, Kind::Term);
    let topics = rows_written(writer, refusals, Kind::Topic);
    let sources = rows_written(writer, refusals, Kind::Source);
    assert(cost(writer, None) == 0);
    assert(cost(writer, Some(Kind::Source)) == rows_asked(writer, Kind::Source));
    assert(cost(writer, Some(Kind::Topic)) == rows_asked(writer, Kind::Source) + rows_asked(
        writer,
        Kind::Topic,
    ));
    assert(cost(writer, Some(Kind::Term)) == rows_asked(writer, Kind::Source) + rows_asked(
        writer,
        Kind::Topic,
    ) + rows_asked(writer, Kind::Term));
    lemma_run_from(writer, writer, store, refusals, Some(Kind::Term), limit);
    let after_terms = store.insert_all(terms);
    let after_topics = after_terms.insert_all(topics);
    let after_sources = after_topics.insert_all(sources);
    let mid_terms = match writer.plan_of(Kind::Term) {
        Some(_) => writer.report.with(Kind::Term, outcome_written(writer, refusals, Kind::Term)),
        None => writer.report,
    };
    let mid_topics = match writer.plan_of(Kind::Topic) {
        Some(_) => mid_terms.with(Kind::Topic, outcome_written(writer, refusals, Kind::Topic)),
        None => mid_terms,
    };
    let mid_sources = match writer.plan_of(Kind::Source) {
        Some(_) => mid_topics.with(Kind::Source, outcome_written(writer, refusals, Kind::Source)),
        None => mid_topics,
    };
    assert(ending(writer, refusals, mid_sources, after_sources, None) == (
        mid_sources,
        after_sources,
    ));
    assert(ending(writer, refusals, mid_topics, after_topics, Some(Kind::Source)) == (
        mid_sources,
        after_sources,
    ));
    assert(ending(writer, refusals, mid_terms, after_terms, Some(Kind::Topic)) == (
        mid_sources,
        after_sources,
    ));
    assert(ending(writer, refusals, writer.report, store, Some(Kind::Term)) == (
        mid_sources,
        after_sources,
    ));
    lemma_insert_all_add(store, terms, topics);
    lemma_insert_all_add(store, terms + topics, sources);
}

/// Where the store refuses nothing, every row that the request asks for is
/// inserted, once.
pub proof fn lemma_run_writes_every_row(
    writer: WriterView,
    store: Store,
    refusals: Refusals,
    limit: nat,
)
    requires
        refusals.none(),
        writer.report == (LinkReportView {
            terms: OutcomeView::Skipped,
            topics: OutcomeView::Skipped,
            sources: OutcomeView::Skipped,
        }),
        limit >= rows_asked(writer, Kind::Term) + rows_asked(writer, Kind::Topic) + rows_asked(
            writer,
            Kind::Source,
        ),
    ensures
        ({
            let (step, end) = run_writes(writer.turn_to(Some(Kind::Term)), store, refusals, limit);
            &&& step matches WriteStepView::Done(report)
            &&& report.clean()
            &&& end == store.insert_all(
                rows_planned(writer, Kind::Term) + rows_planned(writer, Kind::Topic)
                    + rows_planned(writer, Kind::Source),
            )
        }),
{
    lemma_run_writes_what_is_let(writer, store, refusals, limit);
    let step = run_writes(writer.turn_to(Some(Kind::Term)), store, refusals, limit).0;
    let report = step->Done_0;
    assert(report.of(Kind::Term) == outcome_written(writer, refusals, Kind::Term));
    assert(report.of(Kind::Topic) == outcome_written(writer, refusals, Kind::Topic));
    assert(report.of(Kind::Source) == outcome_written(writer, refusals, Kind::Source));
    assert forall|category: Kind|
        rows_written(writer, refusals, category) == rows_planned(writer, category) by {
        match writer.plan_of(category) {
            Some(plan) => {
                assert(plan.take(plan.len() as int) =~= plan);
            },
            None => {},
        }
    }
}

} // verus!
