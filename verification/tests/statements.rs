use jd_crm_api::kind::Kind;
use jd_crm_api::report::LinkError;
use jd_crm_api::resolver::{distinct_names, read_id, read_ids, resolve_id, resolve_ids};
use jd_crm_api::statement::{select_linked, IdRow, LinkInsert, Statement, StoreError};
use jd_crm_api::topology::{JunctionTable, TopologyGap};
use jd_crm_api::writer::{update_link_table, write_associations, PlanError};

fn failure(message: &str) -> StoreError {
    StoreError { message: message.to_string() }
}

#[test]
fn the_lookup_of_one_entity_matches_by_equality() {
    let statement = resolve_id(Kind::Topic, &"economics".to_string());
    assert_eq!(statement, Statement::SelectId { kind: Kind::Topic, name: "economics".to_string() });
    assert_eq!(statement.sql(), "SELECT id FROM platform.topics WHERE topic = $1");
    assert_eq!(
        resolve_id(Kind::Term, &"inflation".to_string()).sql(),
        "SELECT id FROM platform.terms WHERE term = $1"
    );
    assert_eq!(
        resolve_id(Kind::Source, &"paper".to_string()).sql(),
        "SELECT id FROM platform.sources WHERE name = $1"
    );
}

#[test]
fn the_lookup_of_many_names_matches_by_membership() {
    let names = vec!["t1".to_string(), "t2".to_string(), "t3".to_string()];
    let statement = resolve_ids(Kind::Term, &names);
    assert_eq!(statement, Statement::SelectIds { kind: Kind::Term, names: names.clone() });
    assert_eq!(statement.sql(), "SELECT id FROM platform.terms WHERE term = ANY($1)");
    assert_eq!(
        resolve_ids(Kind::Source, &names).sql(),
        "SELECT id FROM platform.sources WHERE name = ANY($1)"
    );
    assert_eq!(
        resolve_ids(Kind::Topic, &Vec::new()).sql(),
        "SELECT id FROM platform.topics WHERE topic = ANY($1)"
    );
}

#[test]
fn a_reply_with_a_row_gives_its_identifier() {
    let found = read_id(Kind::Term, "inflation".to_string(), Ok(vec![IdRow { id: 7 }]));
    assert_eq!(found, Ok(7));
    let first = read_id(
        Kind::Term,
        "inflation".to_string(),
        Ok(vec![IdRow { id: -3 }, IdRow { id: 9 }]),
    );
    assert_eq!(first, Ok(-3));
}

#[test]
fn a_reply_without_a_row_is_not_found() {
    let found = read_id(Kind::Term, "inflation".to_string(), Ok(Vec::new()));
    assert_eq!(
        found,
        Err(LinkError::NotFound { kind: Kind::Term, name: "inflation".to_string() })
    );
}

#[test]
fn a_failed_lookup_hands_the_failure_on() {
    let found = read_id(Kind::Term, "inflation".to_string(), Err(failure("timeout")));
    assert_eq!(found, Err(LinkError::Store(failure("timeout"))));
    assert_eq!(read_ids(Err(failure("timeout"))), Err(failure("timeout")));
}

#[test]
fn the_identifiers_of_many_rows_keep_their_order() {
    let rows = vec![IdRow { id: 5 }, IdRow { id: 2 }, IdRow { id: 9 }];
    assert_eq!(read_ids(Ok(rows)), Ok(vec![5, 2, 9]));
    assert_eq!(read_ids(Ok(Vec::new())), Ok(Vec::new()));
}

#[test]
fn no_children_no_rows() {
    assert_eq!(write_associations(Kind::Topic, Kind::Term, 5, &Vec::new()), Ok(Vec::new()));
    assert_eq!(write_associations(Kind::Source, Kind::Topic, 5, &Vec::new()), Ok(Vec::new()));
    assert_eq!(update_link_table("topic", "term", 5, &Vec::new()), Ok(Vec::new()));
}

#[test]
fn one_row_for_each_child_in_order() {
    let rows = write_associations(Kind::Topic, Kind::Term, 5, &vec![3, 1, 3]).unwrap();
    let row = |child_id: i32| LinkInsert {
        table: JunctionTable::TermsToTopics,
        parent_kind: Kind::Topic,
        parent_id: 5,
        child_kind: Kind::Term,
        child_id,
    };
    assert_eq!(rows, vec![row(3), row(1), row(3)]);
}

#[test]
fn a_kind_cannot_be_written_against_itself() {
    assert_eq!(
        write_associations(Kind::Term, Kind::Term, 5, &vec![1, 2]),
        Err(TopologyGap { kind: Kind::Term })
    );
    assert_eq!(
        write_associations(Kind::Topic, Kind::Topic, 5, &Vec::new()),
        Err(TopologyGap { kind: Kind::Topic })
    );
    assert_eq!(
        update_link_table("source", "source", 5, &vec![1]),
        Err(PlanError::TopologyGap(TopologyGap { kind: Kind::Source }))
    );
}

#[test]
fn kinds_given_in_text_must_name_a_kind() {
    assert_eq!(update_link_table("topics", "term", 5, &vec![1]), Err(PlanError::UnknownParentKind));
    assert_eq!(update_link_table("topic", "Term", 5, &vec![1]), Err(PlanError::UnknownChildKind));
    assert_eq!(update_link_table("", "", 5, &vec![1]), Err(PlanError::UnknownParentKind));
}

#[test]
fn rows_planned_from_text_are_those_planned_from_kinds() {
    assert_eq!(
        update_link_table("source", "term", -4, &vec![8, 9]).unwrap(),
        write_associations(Kind::Source, Kind::Term, -4, &vec![8, 9]).unwrap()
    );
}

#[test]
fn an_insert_names_each_column_after_its_kind() {
    let rows = write_associations(Kind::Topic, Kind::Term, 5, &vec![3]).unwrap();
    assert_eq!(
        Statement::InsertLink(rows[0]).sql(),
        "INSERT INTO platform.terms_to_topics (term_id, topic_id) VALUES ($1, $2)"
    );
    let rows = write_associations(Kind::Term, Kind::Topic, 3, &vec![5]).unwrap();
    assert_eq!(
        Statement::InsertLink(rows[0]).sql(),
        "INSERT INTO platform.terms_to_topics (topic_id, term_id) VALUES ($1, $2)"
    );
    let rows = write_associations(Kind::Source, Kind::Topic, 3, &vec![5]).unwrap();
    assert_eq!(
        Statement::InsertLink(rows[0]).sql(),
        "INSERT INTO platform.topics_to_sources (topic_id, source_id) VALUES ($1, $2)"
    );
    let rows = write_associations(Kind::Term, Kind::Source, 3, &vec![5]).unwrap();
    assert_eq!(
        Statement::InsertLink(rows[0]).sql(),
        "INSERT INTO platform.terms_to_sources (source_id, term_id) VALUES ($1, $2)"
    );
}

#[test]
fn the_lookup_of_linked_entities_joins_through_the_table() {
    let select = select_linked(Kind::Topic, 4, Kind::Term).unwrap();
    assert_eq!(select.table, JunctionTable::TermsToTopics);
    assert_eq!(select.kind, Kind::Topic);
    assert_eq!(select.id, 4);
    assert_eq!(select.other, Kind::Term);
    assert_eq!(
        select.sql(),
        "SELECT linked.* FROM platform.terms AS linked INNER JOIN platform.terms_to_topics AS link ON linked.id = link.term_id WHERE link.topic_id = $1"
    );
    assert_eq!(
        select_linked(Kind::Source, 4, Kind::Topic).unwrap().sql(),
        "SELECT linked.* FROM platform.topics AS linked INNER JOIN platform.topics_to_sources AS link ON linked.id = link.topic_id WHERE link.source_id = $1"
    );
}

#[test]
fn entities_of_one_kind_are_not_linked() {
    assert_eq!(select_linked(Kind::Term, 4, Kind::Term), Err(TopologyGap { kind: Kind::Term }));
}

#[test]
fn distinct_names_keep_the_first_of_each() {
    let names: Vec<String> =
        ["b", "a", "b", "c", "a", "b"].iter().map(|name| name.to_string()).collect();
    assert_eq!(distinct_names(&names), vec!["b".to_string(), "a".to_string(), "c".to_string()]);
    assert_eq!(distinct_names(&Vec::new()), Vec::<String>::new());
    let once = vec!["x".to_string(), "X".to_string(), " x".to_string()];
    assert_eq!(distinct_names(&once), once);
}
