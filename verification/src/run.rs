//! What the builder brings about when its statements are run against a
//! store, whether the store goes through with each of them or fails at some.
//!
//! Nothing here runs: these are statements about every run, and their proofs.

use vstd::prelude::*;
use vstd::relations::injective_on;
use vstd::set_lib::lemma_map_size;
use crate::builder::{following, remaining, BuilderView, PhaseView, StepView};
use crate::builder::lemma_settle_ignores_phase;
use crate::kind::Kind;
use crate::report::{LinkErrorView, LinkReportView, OutcomeView};
use crate::statement::{LinkInsert, StatementView};
use crate::store::{across, holds, lemma_insert_all_from, lemma_insert_all_rows, Store};
use crate::topology::{junction_of, JunctionTable};
use crate::writer::link_rows;

verus! {

/// What the store does with the statements of one category.
pub struct Answer {
    /// Its reply to the lookup of the names: the identifiers in the order in
    /// which it gives them, or its complaint.
    pub found: Result<Seq<i32>, Seq<char>>,
    /// The insert that it refuses, counted from the first row of the
    /// category, with its complaint; none where it refuses none.
    pub refused: Option<(nat, Seq<char>)>,
}

impl Answer {
    /// The identifiers found; none where the lookup failed.
    pub open spec fn ids(self) -> Seq<i32> {
        match self.found {
            Ok(ids) => ids,
            Err(_) => Seq::empty(),
        }
    }

    /// The number of rows, out of `planned`, that go in before the store
    /// refuses one: all of them where it refuses none of them.
    pub open spec fn written(self, planned: nat) -> nat {
        match self.refused {
            Some((at, _)) => if at < planned {
                at
            } else {
                planned
            },
            None => planned,
        }
    }

    /// Whether the store goes through with every statement of the category.
    pub open spec fn smooth(self) -> bool {
        self.found is Ok && self.refused is None
    }
}

/// What the store does with the statements of a run.
pub struct Replies {
    /// Its complaint at the lookup of the new entity; none where it goes
    /// through with it.
    pub entity: Option<Seq<char>>,
    pub terms: Answer,
    pub topics: Answer,
    pub sources: Answer,
}

impl Replies {
    /// What the store does with the statements of one category.
    pub open spec fn of(self, category: Kind) -> Answer {
        match category {
            Kind::Term => self.terms,
            Kind::Topic => self.topics,
            Kind::Source => self.sources,
        }
    }

    /// The number of statements that surely suffices for a run.
    pub open spec fn bound(self) -> nat {
        4 + self.terms.ids().len() + self.topics.ids().len() + self.sources.ids().len()
    }

    /// Whether the store goes through with every statement of the run.
    pub open spec fn smooth(self) -> bool {
        self.entity is None && self.terms.smooth() && self.topics.smooth() && self.sources.smooth()
    }
}

/// The store's reply to the statement that a builder hands out.
pub open spec fn reply_to(
    builder: BuilderView,
    store: Store,
    replies: Replies,
    statement: StatementView,
) -> Result<Seq<i32>, Seq<char>> {
    match statement {
        StatementView::SelectId { kind, name } => match replies.entity {
            Some(error) => Err(error),
            None => match store.lookup(kind, name) {
                Some(id) => Ok(seq![id]),
                None => Ok(Seq::empty()),
            },
        },
        StatementView::SelectIds { kind, .. } => replies.of(kind).found,
        StatementView::InsertLink(_) => match builder.phase {
            PhaseView::Writing { category, next, .. } => match replies.of(category).refused {
                Some((at, error)) => if at == next {
                    Err(error)
                } else {
                    Ok(Seq::empty())
                },
                None => Ok(Seq::empty()),
            },
            _ => Ok(Seq::empty()),
        },
    }
}

/// The store after a statement: changed by it only where it went through.
pub open spec fn store_after(
    store: Store,
    statement: StatementView,
    reply: Result<Seq<i32>, Seq<char>>,
) -> Store {
    if reply is Ok {
        store.after(statement)
    } else {
        store
    }
}

/// Runs up to `limit` statements, each against the store that the one before
/// left behind, and hands each reply to the builder. Gives the step reached
/// and the store as it then is.
pub open spec fn run(step: StepView, store: Store, replies: Replies, limit: nat) -> (StepView, Store)
    decreases limit,
{
    match step {
        StepView::Done(_) => (step, store),
        StepView::Run(builder, statement) => if limit == 0 {
            (step, store)
        } else {
            let reply = reply_to(builder, store, replies, statement);
            run(
                builder.step(reply),
                store_after(store, statement, reply),
                replies,
                (limit - 1) as nat,
            )
        },
    }
}

/// A run that is over stays as it is, whatever the limit.
pub proof fn lemma_run_done(
    outcome: Result<LinkReportView, LinkErrorView>,
    store: Store,
    replies: Replies,
    limit: nat,
)
    ensures
        run(StepView::Done(outcome), store, replies, limit) == (StepView::Done(outcome), store),
{
}

/// The row of a plan at which the writing stops when it stands at `next`:
/// the row that the store refuses, or the plan's end.
spec fn stop_of(answer: Answer, planned: nat, next: nat) -> nat {
    match answer.refused {
        Some((at, _)) => if next <= at < planned {
            at
        } else {
            planned
        },
        None => planned,
    }
}

/// How a category is settled whose writing stops at row `stop`.
spec fn settled_at(answer: Answer, asked: nat, planned: nat, stop: nat) -> OutcomeView {
    if stop < planned {
        OutcomeView::Failed { linked: stop, error: answer.refused.unwrap().1 }
    } else {
        OutcomeView::Linked { asked, linked: planned }
    }
}

/// From the insert of one row of a plan on, a run inserts the rows up to the
/// one that the store refuses, or up to the end, and settles the category.
proof fn lemma_run_writes(
    builder: BuilderView,
    category: Kind,
    plan: Seq<LinkInsert>,
    next: nat,
    store: Store,
    replies: Replies,
    limit: nat,
)
    requires
        builder.phase == (PhaseView::Writing { category, plan, next }),
        next < plan.len(),
        limit >= plan.len() - next,
    ensures
        ({
            let answer = replies.of(category);
            let stop = stop_of(answer, plan.len(), next);
            let used = if stop < plan.len() {
                stop - next + 1
            } else {
                stop - next
            };
            &&& next <= stop <= plan.len()
            &&& used <= limit
            &&& run(
                StepView::Run(builder, StatementView::InsertLink(plan[next as int])),
                store,
                replies,
                limit,
            ) == run(
                builder.settle(
                    category,
                    settled_at(answer, builder.names_of(category).len(), plan.len(), stop),
                ),
                store.insert_all(plan.subrange(next as int, stop as int)),
                replies,
                (limit - used) as nat,
            )
        }),
    decreases plan.len() - next,
{
    let statement = StatementView::InsertLink(plan[next as int]);
    let answer = replies.of(category);
    let stop = stop_of(answer, plan.len(), next);
    let outcome = settled_at(answer, builder.names_of(category).len(), plan.len(), stop);
    let reply = reply_to(builder, store, replies, statement);
    if reply is Err {
        assert(stop == next);
        assert(plan.subrange(next as int, next as int) =~= Seq::<LinkInsert>::empty());
        assert(store.insert_all(Seq::<LinkInsert>::empty()) == store);
        assert(builder.step(reply) == builder.settle(category, outcome));
    } else {
        assert(reply == Ok::<Seq<i32>, Seq<char>>(Seq::empty()));
        assert(store_after(store, statement, reply) == store.insert(plan[next as int]));
        assert(stop > next);
        lemma_insert_all_from(store, plan, next as int, stop as int);
        if next + 1 < plan.len() {
            let onward = BuilderView {
                phase: PhaseView::Writing { category, plan, next: next + 1 },
                ..builder
            };
            assert(builder.step(reply) == StepView::Run(
                onward,
                StatementView::InsertLink(plan[next + 1 as int]),
            ));
            assert(stop_of(answer, plan.len(), next + 1) == stop);
            lemma_run_writes(
                onward,
                category,
                plan,
                next + 1,
                store.insert(plan[next as int]),
                replies,
                (limit - 1) as nat,
            );
            lemma_settle_ignores_phase(onward, builder, category, outcome);
        } else {
            assert(stop == plan.len());
            assert(plan.subrange(next + 1 as int, stop as int) =~= Seq::<LinkInsert>::empty());
            assert(store.insert(plan[next as int]).insert_all(Seq::<LinkInsert>::empty())
                == store.insert(plan[next as int]));
            assert(builder.step(reply) == builder.settle(category, outcome));
        }
    }
}

/// The rows that a run inserts for one category. Where the category is taken
/// up and its lookup goes through, a row is planned for each identifier that
/// the store gave, in the order given, and the planned rows go in up to the
/// one that the store refuses. Nothing else is inserted for the category.
pub open spec fn rows_due(builder: BuilderView, replies: Replies, category: Kind) -> Seq<
    LinkInsert,
> {
    match junction_of(builder.kind, category) {
        Some(table) => if builder.takes_up(category) {
            let ids = replies.of(category).ids();
            link_rows(table, builder.kind, builder.parent_id, category, ids).take(
                replies.of(category).written(ids.len()) as int,
            )
        } else {
            Seq::empty()
        },
        None => Seq::empty(),
    }
}

/// What a run reports for one category: that it was skipped where it is not
/// taken up; the store's complaint, with the number of rows that went in
/// before it, where its lookup or one of its inserts failed; and else the
/// number of names and of rows.
pub open spec fn outcome_due(builder: BuilderView, replies: Replies, category: Kind) -> OutcomeView {
    let answer = replies.of(category);
    if !builder.takes_up(category) {
        OutcomeView::Skipped
    } else {
        match answer.found {
            Err(error) => OutcomeView::Failed { linked: 0, error },
            Ok(ids) => if answer.written(ids.len()) < ids.len() {
                OutcomeView::Failed {
                    linked: answer.written(ids.len()),
                    error: answer.refused.unwrap().1,
                }
            } else {
                OutcomeView::Linked {
                    asked: builder.names_of(category).len(),
                    linked: ids.len(),
                }
            },
        }
    }
}

/// The report and the store at the end of a run that stands before the
/// categories from `from` on with `report` and `store`.
spec fn ending(
    builder: BuilderView,
    report: LinkReportView,
    store: Store,
    replies: Replies,
    from: Option<Kind>,
) -> (LinkReportView, Store)
    decreases remaining(from),
{
    match from {
        None => (report, store),
        Some(category) => if builder.takes_up(category) {
            ending(
                builder,
                report.with(category, outcome_due(builder, replies, category)),
                store.insert_all(rows_due(builder, replies, category)),
                replies,
                following(category),
            )
        } else {
            ending(builder, report, store, replies, following(category))
        },
    }
}

/// The number of statements that a run makes for the categories from `from`
/// on.
spec fn cost(builder: BuilderView, replies: Replies, from: Option<Kind>) -> nat
    decreases remaining(from),
{
    match from {
        None => 0,
        Some(category) => cost(builder, replies, following(category)) + if builder.takes_up(
            category,
        ) {
            1 + replies.of(category).ids().len()
        } else {
            0
        },
    }
}

/// A run that turns to the categories from `from` on ends with the report
/// and the store that `ending` gives. `at` is the builder as it stands;
/// `builder` is the same but for the reply waited for and the report.
proof fn lemma_run_from(
    at: BuilderView,
    builder: BuilderView,
    store: Store,
    replies: Replies,
    from: Option<Kind>,
    limit: nat,
)
    requires
        at == (BuilderView { phase: at.phase, report: at.report, ..builder }),
        limit >= cost(builder, replies, from),
    ensures
        run(at.turn_to(from), store, replies, limit) == (
            StepView::Done(Ok(ending(builder, at.report, store, replies, from).0)),
            ending(builder, at.report, store, replies, from).1,
        ),
    decreases remaining(from),
{
    match from {
        None => {},
        Some(category) => {
            if at.takes_up(category) {
                let table = junction_of(at.kind, category).unwrap();
                let answer = replies.of(category);
                let outcome = outcome_due(builder, replies, category);
                let due = rows_due(builder, replies, category);
                let asking = BuilderView { phase: PhaseView::Children { category }, ..at };
                let statement = StatementView::SelectIds {
                    kind: category,
                    names: at.names_of(category),
                };
                assert(at.turn_to(from) == StepView::Run(asking, statement));
                assert(reply_to(asking, store, replies, statement) == answer.found);
                assert(store_after(store, statement, answer.found) == store);
                assert(store.insert_all(Seq::<LinkInsert>::empty()) == store);
                match answer.found {
                    Err(error) => {
                        assert(due =~= Seq::<LinkInsert>::empty());
                        assert(asking.step(answer.found) == asking.settle(category, outcome));
                        let settled = BuilderView {
                            report: asking.report.with(category, outcome),
                            ..asking
                        };
                        lemma_run_from(
                            settled,
                            builder,
                            store,
                            replies,
                            following(category),
                            (limit - 1) as nat,
                        );
                    },
                    Ok(ids) => {
                        let plan = link_rows(table, at.kind, at.parent_id, category, ids);
                        assert(asking.step(answer.found) == asking.write(category, ids));
                        if plan.len() == 0 {
                            assert(due =~= Seq::<LinkInsert>::empty());
                            let settled = BuilderView {
                                report: asking.report.with(category, outcome),
                                ..asking
                            };
                            lemma_run_from(
                                settled,
                                builder,
                                store,
                                replies,
                                following(category),
                                (limit - 1) as nat,
                            );
                        } else {
                            let writing = BuilderView {
                                phase: PhaseView::Writing { category, plan, next: 0 },
                                ..asking
                            };
                            assert(asking.write(category, ids) == StepView::Run(
                                writing,
                                StatementView::InsertLink(plan[0]),
                            ));
                            lemma_run_writes(
                                writing,
                                category,
                                plan,
                                0,
                                store,
                                replies,
                                (limit - 1) as nat,
                            );
                            let stop = stop_of(answer, plan.len(), 0);
                            let used = if stop < plan.len() {
                                stop + 1
                            } else {
                                stop
                            };
                            assert(stop == answer.written(ids.len()));
                            assert(plan.subrange(0, stop as int) =~= due);
                            assert(settled_at(
                                answer,
                                writing.names_of(category).len(),
                                plan.len(),
                                stop,
                            ) == outcome);
                            let settled = BuilderView {
                                report: writing.report.with(category, outcome),
                                ..writing
                            };
                            lemma_run_from(
                                settled,
                                builder,
                                store.insert_all(due),
                                replies,
                                following(category),
                                (limit - 1 - used) as nat,
                            );
                        }
                    },
                }
            } else {
                lemma_run_from(at, builder, store, replies, following(category), limit);
            }
        },
    }
}

/// The rows of a table after one category was dealt with.
proof fn lemma_category_rows(
    builder: BuilderView,
    replies: Replies,
    store: Store,
    category: Kind,
    table: JunctionTable,
)
    ensures
        store.insert_all(rows_due(builder, replies, category)).ids == store.ids,
        store.insert_all(rows_due(builder, replies, category)).rows(table) == if junction_of(
            builder.kind,
            category,
        ) == Some(table) {
            store.rows(table) + rows_due(builder, replies, category).map_values(
                |link: LinkInsert| link.stored(),
            )
        } else {
            store.rows(table)
        },
{
    let plan = rows_due(builder, replies, category);
    match junction_of(builder.kind, category) {
        Some(own) => {
            lemma_insert_all_rows(store, plan, own);
        },
        None => {
            assert(plan.len() == 0);
        },
    }
}

/// What a whole run brings about, from the lookup of the new entity to the
/// report, whatever the store does.
///
/// Where the lookup of the entity fails, or the store does not hold the
/// entity under its name, the run ends with that finding and the store is as
/// before.
///
/// Otherwise the run ends with a report, and each category fares as its own
/// replies have it, whatever became of the others. A category that is taken
/// up and whose lookup went through has gained, in the junction table of the
/// entity's kind and the category, one row for each identifier that the
/// store gave for its names, in that order, behind the rows that were there
/// and up to the row that the store refused. A category that is not taken
/// up is reported as skipped and its table is as before. So is the table
/// that does not join the entity's kind, and so are the entities themselves.
pub proof fn lemma_run_links_what_is_found(
    kind: Kind,
    name: Seq<char>,
    terms: Seq<Seq<char>>,
    topics: Seq<Seq<char>>,
    sources: Seq<Seq<char>>,
    store: Store,
    replies: Replies,
    limit: nat,
)
    requires
        limit >= replies.bound(),
    ensures
        ({
            let begun = BuilderView::initial(kind, name, terms, topics, sources);
            let (step, end) = run(
                StepView::Run(begun, StatementView::SelectId { kind, name }),
                store,
                replies,
                limit,
            );
            match (replies.entity, store.lookup(kind, name)) {
                (Some(error), _) => {
                    &&& step == StepView::Done(Err(LinkErrorView::Store(error)))
                    &&& end == store
                },
                (None, None) => {
                    &&& step == StepView::Done(Err(LinkErrorView::NotFound { kind, name }))
                    &&& end == store
                },
                (None, Some(parent_id)) => {
                    let linking = BuilderView { parent_id, ..begun };
                    &&& step matches StepView::Done(Ok(report))
                    &&& forall|category: Kind| #[trigger]
                        report.of(category) == outcome_due(linking, replies, category)
                    &&& end.ids == store.ids
                    &&& forall|category: Kind|
                        category != kind ==> end.rows(junction_of(kind, category).unwrap())
                            == store.rows(junction_of(kind, category).unwrap()) + (
                        #[trigger] rows_due(linking, replies, category)).map_values(
                            |link: LinkInsert| link.stored(),
                        )
                    &&& forall|table: JunctionTable|
                        !table.joins(kind) ==> #[trigger] end.rows(table) == store.rows(table)
                },
            }
        }),
{
    let begun = BuilderView::initial(kind, name, terms, topics, sources);
    let statement = StatementView::SelectId { kind, name };
    let reply = reply_to(begun, store, replies, statement);
    assert(store.after(statement) == store);
    assert(store_after(store, statement, reply) == store);
    match (replies.entity, store.lookup(kind, name)) {
        (Some(error), _) => {
            assert(begun.step(reply) == StepView::Done(Err(LinkErrorView::Store(error))));
            lemma_run_done(Err(LinkErrorView::Store(error)), store, replies, (limit - 1) as nat);
        },
        (None, None) => {
            assert(reply->Ok_0.len() == 0);
            assert(begun.step(reply) == StepView::Done(
                Err(LinkErrorView::NotFound { kind, name }),
            ));
            lemma_run_done(
                Err(LinkErrorView::NotFound { kind, name }),
                store,
                replies,
                (limit - 1) as nat,
            );
        },
        (None, Some(parent_id)) => {
            let linking = BuilderView { parent_id, ..begun };
            assert(reply->Ok_0[0] == parent_id);
            assert(begun.step(reply) == linking.turn_to(Some(Kind::Term)));
            assert(cost(linking, replies, None) == 0);
            assert(cost(linking, replies, Some(Kind::Source)) <= 1 + replies.sources.ids().len());
            assert(cost(linking, replies, Some(Kind::Topic)) <= 2 + replies.sources.ids().len()
                + replies.topics.ids().len());
            assert(cost(linking, replies, Some(Kind::Term)) <= 3 + replies.sources.ids().len()
                + replies.topics.ids().len() + replies.terms.ids().len());
            lemma_run_from(
                linking,
                linking,
                store,
                replies,
                Some(Kind::Term),
                (limit - 1) as nat,
            );
            let after_terms = store.insert_all(rows_due(linking, replies, Kind::Term));
            let after_topics = after_terms.insert_all(rows_due(linking, replies, Kind::Topic));
            let after_sources = after_topics.insert_all(rows_due(linking, replies, Kind::Source));
            let report = ending(linking, linking.report, store, replies, Some(Kind::Term)).0;
            let end = ending(linking, linking.report, store, replies, Some(Kind::Term)).1;
            let mid_terms = if linking.takes_up(Kind::Term) {
                linking.report.with(Kind::Term, outcome_due(linking, replies, Kind::Term))
            } else {
                linking.report
            };
            let mid_topics = if linking.takes_up(Kind::Topic) {
                mid_terms.with(Kind::Topic, outcome_due(linking, replies, Kind::Topic))
            } else {
                mid_terms
            };
            let mid_sources = if linking.takes_up(Kind::Source) {
                mid_topics.with(Kind::Source, outcome_due(linking, replies, Kind::Source))
            } else {
                mid_topics
            };
            assert(ending(linking, mid_sources, after_sources, replies, None) == (
                mid_sources,
                after_sources,
            ));
            assert(ending(linking, mid_topics, after_topics, replies, Some(Kind::Source)) == (
                mid_sources,
                after_sources,
            ));
            assert(ending(linking, mid_terms, after_terms, replies, Some(Kind::Topic)) == (
                mid_sources,
                after_sources,
            ));
            assert(report == mid_sources && end == after_sources);
            assert forall|category: Kind| #[trigger]
                report.of(category) == outcome_due(linking, replies, category) by {}
            assert forall|table: JunctionTable|
                true implies #[trigger] end.rows(table) == store.rows(table) + (if junction_of(
                kind,
                Kind::Term,
            ) == Some(table) {
                rows_due(linking, replies, Kind::Term)
            } else if junction_of(kind, Kind::Topic) == Some(table) {
                rows_due(linking, replies, Kind::Topic)
            } else if junction_of(kind, Kind::Source) == Some(table) {
                rows_due(linking, replies, Kind::Source)
            } else {
                Seq::empty()
            }).map_values(|link: LinkInsert| link.stored()) by {
                lemma_category_rows(linking, replies, store, Kind::Term, table);
                lemma_category_rows(linking, replies, after_terms, Kind::Topic, table);
                lemma_category_rows(linking, replies, after_topics, Kind::Source, table);
                assert(store.rows(table) + Seq::<LinkInsert>::empty().map_values(
                    |link: LinkInsert| link.stored(),
                ) =~= store.rows(table));
            }
            assert(end.ids == store.ids) by {
                let any = JunctionTable::TermsToTopics;
                lemma_category_rows(linking, replies, store, Kind::Term, any);
                lemma_category_rows(linking, replies, after_terms, Kind::Topic, any);
                lemma_category_rows(linking, replies, after_topics, Kind::Source, any);
            }
            assert forall|category: Kind| category != kind implies end.rows(
                junction_of(kind, category).unwrap(),
            ) == store.rows(junction_of(kind, category).unwrap()) + (#[trigger] rows_due(
                linking,
                replies,
                category,
            )).map_values(|link: LinkInsert| link.stored()) by {
                let table = junction_of(kind, category).unwrap();
                assert(end.rows(table) == after_sources.rows(table));
            }
            assert forall|table: JunctionTable| !table.joins(kind) implies #[trigger] end.rows(
                table,
            ) == store.rows(table) by {
                assert(end.rows(table) == after_sources.rows(table));
                assert(store.rows(table) + Seq::<LinkInsert>::empty().map_values(
                    |link: LinkInsert| link.stored(),
                ) =~= store.rows(table));
            }
        },
    }
}

/// With an honest store, a category links exactly the names that exist.
///
/// Every row that is due links the new entity, as parent, to a child of the
/// category, in the junction table of the two kinds. Each name that the
/// store holds has exactly one row; each row is for a name that was given
/// and that the store holds. Names that the store does not hold have no row
/// and stand in the way of nothing.
pub proof fn lemma_honest_rows(
    builder: BuilderView,
    store: Store,
    replies: Replies,
    category: Kind,
)
    requires
        builder.takes_up(category),
        replies.of(category).smooth(),
        store.answers_many(category, builder.names_of(category), replies.of(category).ids()),
    ensures
        ({
            let rows = rows_due(builder, replies, category);
            let names = builder.names_of(category);
            &&& rows.len() == replies.of(category).ids().len()
            &&& forall|i: int|
                0 <= i < rows.len() ==> {
                    &&& (#[trigger] rows[i]).fits()
                    &&& rows[i].parent_kind == builder.kind
                    &&& rows[i].parent_id == builder.parent_id
                    &&& rows[i].child_kind == category
                    &&& exists|name: Seq<char>|
                        names.contains(name) && #[trigger] store.lookup(category, name) == Some(
                            rows[i].child_id,
                        )
                }
            &&& forall|name: Seq<char>|
                names.contains(name) && (#[trigger] store.lookup(category, name)) is Some
                    ==> exists|i: int|
                    0 <= i < rows.len() && Some((#[trigger] rows[i]).child_id) == store.lookup(
                        category,
                        name,
                    )
            &&& forall|i: int, j: int|
                0 <= i < j < rows.len() ==> (#[trigger] rows[i]).child_id != (
                #[trigger] rows[j]).child_id
        }),
{
    let rows = rows_due(builder, replies, category);
    let names = builder.names_of(category);
    let ids = replies.of(category).ids();
    assert(rows.len() == ids.len());
    assert forall|i: int| 0 <= i < rows.len() implies exists|name: Seq<char>|
        names.contains(name) && #[trigger] store.lookup(category, name) == Some(
            (#[trigger] rows[i]).child_id,
        ) by {
        assert(ids.contains(ids[i]));
    }
    assert forall|name: Seq<char>|
        names.contains(name) && (#[trigger] store.lookup(category, name)) is Some implies exists|
        i: int,
    |
        0 <= i < rows.len() && Some((#[trigger] rows[i]).child_id) == store.lookup(
            category,
            name,
        ) by {
        let id = store.lookup(category, name).unwrap();
        assert(ids.contains(id));
        let i = choose|i: int| 0 <= i < ids.len() && ids[i] == id;
        assert(rows[i].child_id == id);
    }
}

/// The names of a category that the store does not hold.
pub open spec fn missing(store: Store, category: Kind, names: Seq<Seq<char>>) -> Set<Seq<char>> {
    Set::new(|name: Seq<char>| names.contains(name) && store.lookup(category, name) is None)
}

/// With an honest store, and no name of a category held twice by the builder
/// (as it is where the builder was begun from a request), the names asked
/// for that got no row are exactly the names that the store does not hold:
/// as many rows as names held, and a gap of as many as are missing.
pub proof fn lemma_gap_counts_missing(
    builder: BuilderView,
    store: Store,
    replies: Replies,
    category: Kind,
)
    requires
        store.wf(),
        builder.takes_up(category),
        builder.names_of(category).no_duplicates(),
        replies.of(category).smooth(),
        store.answers_many(category, builder.names_of(category), replies.of(category).ids()),
    ensures
        missing(store, category, builder.names_of(category)).finite(),
        outcome_due(builder, replies, category).written() + missing(
            store,
            category,
            builder.names_of(category),
        ).len() == builder.names_of(category).len(),
        outcome_due(builder, replies, category).gap() == missing(
            store,
            category,
            builder.names_of(category),
        ).len(),
{
    let names = builder.names_of(category);
    let ids = replies.of(category).ids();
    let absent = missing(store, category, names);
    let held = Set::new(|name: Seq<char>| names.contains(name) && store.lookup(category, name) is Some);
    let id_of = |name: Seq<char>| store.ids[(category, name)];
    names.unique_seq_to_set();
    ids.unique_seq_to_set();
    assert(names.to_set().finite());
    assert(held.subset_of(names.to_set()) && absent.subset_of(names.to_set()));
    vstd::set_lib::lemma_len_subset(held, names.to_set());
    vstd::set_lib::lemma_len_subset(absent, names.to_set());
    assert(held + absent =~= names.to_set());
    assert(held.disjoint(absent));
    vstd::set_lib::lemma_set_disjoint_lens(held, absent);
    assert(injective_on(id_of, held)) by {
        assert forall|a: Seq<char>, b: Seq<char>|
            held.contains(a) && held.contains(b) && #[trigger] id_of(a) == #[trigger] id_of(
                b,
            ) implies a == b by {
            assert(store.ids[(category, a)] == store.ids[(category, b)]);
        }
    }
    assert(held.map(id_of) =~= ids.to_set()) by {
        assert forall|id: i32| held.map(id_of).contains(id) <==> ids.to_set().contains(id) by {
            if held.map(id_of).contains(id) {
                let name = choose|name: Seq<char>| held.contains(name) && id_of(name) == id;
                assert(store.lookup(category, name) == Some(id));
                assert(ids.contains(id));
            }
            if ids.contains(id) {
                let name = choose|name: Seq<char>|
                    names.contains(name) && #[trigger] store.lookup(category, name) == Some(id);
                assert(held.contains(name) && id_of(name) == id);
            }
        }
    }
    lemma_map_size(held, ids.to_set(), id_of);
}

/// Linking is no idempotent act. A second run with the same request, against
/// the store that the first left behind and with the same replies, ends with
/// the same report and inserts every row once more: each table holds what it
/// held before, and then the rows that are due, twice.
pub proof fn lemma_second_run_duplicates(
    kind: Kind,
    name: Seq<char>,
    terms: Seq<Seq<char>>,
    topics: Seq<Seq<char>>,
    sources: Seq<Seq<char>>,
    store: Store,
    replies: Replies,
    limit: nat,
)
    requires
        limit >= replies.bound(),
        replies.entity is None,
        store.lookup(kind, name) is Some,
    ensures
        ({
            let begun = BuilderView::initial(kind, name, terms, topics, sources);
            let start = StepView::Run(begun, StatementView::SelectId { kind, name });
            let linking = BuilderView { parent_id: store.lookup(kind, name).unwrap(), ..begun };
            let (first, once) = run(start, store, replies, limit);
            let (second, twice) = run(start, once, replies, limit);
            &&& first matches StepView::Done(Ok(_))
            &&& second == first
            &&& forall|category: Kind|
                category != kind ==> twice.rows(junction_of(kind, category).unwrap())
                    == store.rows(junction_of(kind, category).unwrap()) + (#[trigger] rows_due(
                    linking,
                    replies,
                    category,
                )).map_values(|link: LinkInsert| link.stored()) + rows_due(
                    linking,
                    replies,
                    category,
                ).map_values(|link: LinkInsert| link.stored())
        }),
{
    let begun = BuilderView::initial(kind, name, terms, topics, sources);
    let start = StepView::Run(begun, StatementView::SelectId { kind, name });
    let linking = BuilderView { parent_id: store.lookup(kind, name).unwrap(), ..begun };
    lemma_run_links_what_is_found(kind, name, terms, topics, sources, store, replies, limit);
    let (first, once) = run(start, store, replies, limit);
    assert(once.lookup(kind, name) == store.lookup(kind, name));
    lemma_run_links_what_is_found(kind, name, terms, topics, sources, once, replies, limit);
    let (second, twice) = run(start, once, replies, limit);
    let report_one = first->Done_0->Ok_0;
    let report_two = second->Done_0->Ok_0;
    assert(report_one == report_two) by {
        assert(report_one.of(Kind::Term) == report_two.of(Kind::Term));
        assert(report_one.of(Kind::Topic) == report_two.of(Kind::Topic));
        assert(report_one.of(Kind::Source) == report_two.of(Kind::Source));
    }
    assert forall|category: Kind| category != kind implies twice.rows(
        junction_of(kind, category).unwrap(),
    ) == store.rows(junction_of(kind, category).unwrap()) + (#[trigger] rows_due(
        linking,
        replies,
        category,
    )).map_values(|link: LinkInsert| link.stored()) + rows_due(
        linking,
        replies,
        category,
    ).map_values(|link: LinkInsert| link.stored()) by {
        let table = junction_of(kind, category).unwrap();
        let due = rows_due(linking, replies, category).map_values(
            |link: LinkInsert| link.stored(),
        );
        assert(once.rows(table) == store.rows(table) + due);
        assert(twice.rows(table) == once.rows(table) + due);
    }
}

/// A filter that every element passes leaves a sequence as it is.
proof fn lemma_filter_keeps_all<A>(items: Seq<A>, keep: spec_fn(A) -> bool)
    requires
        forall|i: int| 0 <= i < items.len() ==> keep(#[trigger] items[i]),
    ensures
        items.filter(keep) == items,
    decreases items.len(),
{
    reveal(Seq::filter);
    if items.len() > 0 {
        lemma_filter_keeps_all(items.drop_last(), keep);
        assert(items.drop_last().push(items.last()) =~= items);
    }
}

/// What was linked is found again. After a run, the children of a category
/// that the store links to the new entity are those that it linked to it
/// before, and then the child of each row that the run inserted for the
/// category, in that order.
pub proof fn lemma_run_links_are_found_again(
    kind: Kind,
    name: Seq<char>,
    terms: Seq<Seq<char>>,
    topics: Seq<Seq<char>>,
    sources: Seq<Seq<char>>,
    store: Store,
    replies: Replies,
    limit: nat,
    category: Kind,
)
    requires
        limit >= replies.bound(),
        replies.entity is None,
        store.lookup(kind, name) is Some,
        category != kind,
    ensures
        ({
            let begun = BuilderView::initial(kind, name, terms, topics, sources);
            let start = StepView::Run(begun, StatementView::SelectId { kind, name });
            let parent_id = store.lookup(kind, name).unwrap();
            let linking = BuilderView { parent_id, ..begun };
            let end = run(start, store, replies, limit).1;
            end.linked(kind, parent_id, category) == store.linked(kind, parent_id, category)
                + rows_due(linking, replies, category).map_values(
                |link: LinkInsert| link.child_id,
            )
        }),
{
    let begun = BuilderView::initial(kind, name, terms, topics, sources);
    let start = StepView::Run(begun, StatementView::SelectId { kind, name });
    let parent_id = store.lookup(kind, name).unwrap();
    let linking = BuilderView { parent_id, ..begun };
    let end = run(start, store, replies, limit).1;
    let table = junction_of(kind, category).unwrap();
    let due = rows_due(linking, replies, category);
    let stored = due.map_values(|link: LinkInsert| link.stored());
    let gained = due.map_values(|link: LinkInsert| link.child_id);
    lemma_run_links_what_is_found(kind, name, terms, topics, sources, store, replies, limit);
    assert(end.rows(table) == store.rows(table) + stored);
    let mine = holds(table.first() == kind, parent_id);
    let other = across(table.first() == kind);
    Seq::filter_distributes_over_add(store.rows(table), stored, mine);
    lemma_filter_keeps_all(stored, mine);
    assert(stored.map_values(other) =~= gained);
    assert((store.rows(table).filter(mine) + stored).map_values(other) =~= store.rows(
        table,
    ).filter(mine).map_values(other) + stored.map_values(other));
}

/// The categories do not stand in each other's way. Take two runs for the
/// same request against the same store, and let the store treat one
/// category alike in both, whatever it does with the others. Then the two
/// runs report the same of that category, and leave the same rows in its
/// table.
pub proof fn lemma_categories_are_independent(
    kind: Kind,
    name: Seq<char>,
    terms: Seq<Seq<char>>,
    topics: Seq<Seq<char>>,
    sources: Seq<Seq<char>>,
    store: Store,
    one: Replies,
    other: Replies,
    limit: nat,
    category: Kind,
)
    requires
        limit >= one.bound(),
        limit >= other.bound(),
        one.entity is None,
        other.entity is None,
        store.lookup(kind, name) is Some,
        category != kind,
        one.of(category) == other.of(category),
    ensures
        ({
            let begun = BuilderView::initial(kind, name, terms, topics, sources);
            let start = StepView::Run(begun, StatementView::SelectId { kind, name });
            let table = junction_of(kind, category).unwrap();
            let (first, left) = run(start, store, one, limit);
            let (second, right) = run(start, store, other, limit);
            &&& first matches StepView::Done(Ok(report))
            &&& second matches StepView::Done(Ok(again))
            &&& report.of(category) == again.of(category)
            &&& left.rows(table) == right.rows(table)
        }),
{
    let begun = BuilderView::initial(kind, name, terms, topics, sources);
    let linking = BuilderView { parent_id: store.lookup(kind, name).unwrap(), ..begun };
    lemma_run_links_what_is_found(kind, name, terms, topics, sources, store, one, limit);
    lemma_run_links_what_is_found(kind, name, terms, topics, sources, store, other, limit);
    assert(rows_due(linking, one, category) == rows_due(linking, other, category));
    assert(outcome_due(linking, one, category) == outcome_due(linking, other, category));
}

} // verus!
