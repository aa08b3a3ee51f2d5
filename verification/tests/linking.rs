use jd_crm_api::builder::{build_link_tables, LinkBuilder, Step};
use jd_crm_api::kind::Kind;
use jd_crm_api::payload::{CreateSource, CreateTopicOrTerm};
use jd_crm_api::report::{LinkError, LinkReport, Outcome};
use jd_crm_api::statement::{select_linked, IdRow, LinkInsert, Statement, StoreError};
use jd_crm_api::topology::JunctionTable;

/// A store in memory that runs the library's statements as a real one would.
struct MemoryStore {
    entities: Vec<(Kind, String, i32)>,
    links: Vec<LinkInsert>,
    statements: Vec<String>,
    failing: Option<Statement>,
    inserts_before_failure: Option<usize>,
}

impl MemoryStore {
    fn new() -> MemoryStore {
        MemoryStore {
            entities: Vec::new(),
            links: Vec::new(),
            statements: Vec::new(),
            failing: None,
            inserts_before_failure: None,
        }
    }

    fn create(&mut self, kind: Kind, name: &str) -> i32 {
        let id = self.entities.len() as i32 + 1;
        self.entities.push((kind, name.to_string(), id));
        id
    }

    fn run(&mut self, statement: &Statement) -> Result<Vec<IdRow>, StoreError> {
        self.statements.push(statement.sql());
        if self.failing.as_ref() == Some(statement) {
            return Err(StoreError { message: "connection lost".to_string() });
        }
        match statement {
            Statement::SelectId { kind, name } => Ok(self
                .entities
                .iter()
                .filter(|(k, n, _)| k == kind && n == name)
                .map(|(_, _, id)| IdRow { id: *id })
                .collect()),
            Statement::SelectIds { kind, names } => Ok(self
                .entities
                .iter()
                .filter(|(k, n, _)| k == kind && names.contains(n))
                .map(|(_, _, id)| IdRow { id: *id })
                .collect()),
            Statement::InsertLink(link) => {
                if let Some(left) = self.inserts_before_failure {
                    if left == 0 {
                        return Err(StoreError { message: "disk full".to_string() });
                    }
                    self.inserts_before_failure = Some(left - 1);
                }
                self.links.push(*link);
                Ok(Vec::new())
            }
        }
    }

    fn rows(&self, table: JunctionTable) -> Vec<LinkInsert> {
        self.links.iter().filter(|link| link.table == table).copied().collect()
    }

    fn linked(&self, kind: Kind, id: i32, other: Kind) -> Vec<i32> {
        let select = select_linked(kind, id, other).unwrap();
        self.links
            .iter()
            .filter(|link| link.table == select.table)
            .filter_map(|link| {
                if link.parent_kind == kind && link.parent_id == id {
                    Some(link.child_id)
                } else if link.child_kind == kind && link.child_id == id {
                    Some(link.parent_id)
                } else {
                    None
                }
            })
            .collect()
    }
}

fn names(list: &[&str]) -> Option<Vec<String>> {
    Some(list.iter().map(|name| name.to_string()).collect())
}

fn topic_or_term(name: &str) -> CreateTopicOrTerm {
    CreateTopicOrTerm {
        name: name.to_string(),
        is_verified: true,
        brief_description: None,
        full_description: None,
        bullet_points: None,
        examples: None,
        parallels: None,
        ai_brief_description: None,
        ai_full_description: None,
        ai_bullet_points: None,
        ai_parallels: None,
        ai_examples: None,
        related_terms: None,
        related_topics: None,
        related_sources: None,
    }
}

fn source(name: &str) -> CreateSource {
    CreateSource {
        name: name.to_string(),
        url: None,
        author: None,
        author_url: None,
        media_type: None,
        image_url: None,
        image_type: None,
        ai_generated: None,
        related_terms: None,
        related_topics: None,
        related_sources: None,
    }
}

fn drive(
    store: &mut MemoryStore,
    begun: Option<(LinkBuilder, Statement)>,
) -> Result<LinkReport, LinkError> {
    let (mut builder, mut statement) = begun.expect("the entity type names a kind");
    loop {
        let reply = store.run(&statement);
        match builder.advance(reply) {
            Step::Run(next, following) => {
                builder = next;
                statement = following;
            }
            Step::Done(result) => return result,
        }
    }
}

fn link(
    table: JunctionTable,
    parent_kind: Kind,
    parent_id: i32,
    child_kind: Kind,
    child_id: i32,
) -> LinkInsert {
    LinkInsert { table, parent_kind, parent_id, child_kind, child_id }
}

#[test]
fn partial_resolution_links_what_exists_and_goes_on() {
    let mut store = MemoryStore::new();
    let t1 = store.create(Kind::Term, "t1");
    let s1 = store.create(Kind::Source, "s1");
    let topic = store.create(Kind::Topic, "economics");
    let mut payload = topic_or_term("economics");
    payload.related_terms = names(&["t1", "t2"]);
    payload.related_sources = names(&["s1"]);

    let report = drive(&mut store, build_link_tables(&payload, "topic")).unwrap();

    assert_eq!(report.terms, Outcome::Linked { asked: 2, linked: 1 });
    assert_eq!(report.terms.unresolved(), 1);
    assert_eq!(report.terms.written(), 1);
    assert!(!report.terms.failed());
    assert_eq!(report.topics, Outcome::Skipped);
    assert_eq!(report.sources, Outcome::Linked { asked: 1, linked: 1 });
    assert_eq!(report.sources.unresolved(), 0);
    assert!(report.is_clean());
    assert_eq!(
        store.rows(JunctionTable::TermsToTopics),
        vec![link(JunctionTable::TermsToTopics, Kind::Topic, topic, Kind::Term, t1)]
    );
    assert_eq!(
        store.rows(JunctionTable::TopicsToSources),
        vec![link(JunctionTable::TopicsToSources, Kind::Topic, topic, Kind::Source, s1)]
    );
    assert_eq!(store.links.len(), 2);
}

#[test]
fn every_name_that_exists_is_resolved_not_only_the_first() {
    let mut store = MemoryStore::new();
    let a = store.create(Kind::Term, "alpha");
    let b = store.create(Kind::Term, "beta");
    let c = store.create(Kind::Term, "gamma");
    let topic = store.create(Kind::Topic, "letters");
    let mut payload = topic_or_term("letters");
    payload.related_terms = names(&["gamma", "alpha", "beta"]);

    let report = drive(&mut store, build_link_tables(&payload, "topic")).unwrap();

    assert_eq!(report.terms, Outcome::Linked { asked: 3, linked: 3 });
    assert_eq!(store.linked(Kind::Topic, topic, Kind::Term), vec![a, b, c]);
    assert_eq!(
        store.statements[1],
        "SELECT id FROM platform.terms WHERE term = ANY($1)"
    );
}

#[test]
fn linking_twice_writes_the_rows_twice() {
    let mut store = MemoryStore::new();
    let t1 = store.create(Kind::Term, "t1");
    let topic = store.create(Kind::Topic, "economics");
    let mut payload = topic_or_term("economics");
    payload.related_terms = names(&["t1"]);

    let first = drive(&mut store, build_link_tables(&payload, "topic")).unwrap();
    let second = drive(&mut store, build_link_tables(&payload, "topic")).unwrap();

    assert_eq!(first, second);
    let row = link(JunctionTable::TermsToTopics, Kind::Topic, topic, Kind::Term, t1);
    assert_eq!(store.rows(JunctionTable::TermsToTopics), vec![row, row]);
    assert_eq!(store.linked(Kind::Topic, topic, Kind::Term), vec![t1, t1]);
}

#[test]
fn end_to_end_term_then_topic() {
    let mut store = MemoryStore::new();

    let inflation = store.create(Kind::Term, "inflation");
    let term_payload = topic_or_term("inflation");
    let term_report = drive(&mut store, build_link_tables(&term_payload, "term")).unwrap();
    assert_eq!(
        term_report,
        LinkReport { terms: Outcome::Skipped, topics: Outcome::Skipped, sources: Outcome::Skipped }
    );
    assert!(store.links.is_empty());

    let economics = store.create(Kind::Topic, "economics");
    let mut topic_payload = topic_or_term("economics");
    topic_payload.related_terms = names(&["inflation"]);
    let topic_report = drive(&mut store, build_link_tables(&topic_payload, "topic")).unwrap();

    assert_eq!(topic_report.terms, Outcome::Linked { asked: 1, linked: 1 });
    assert_eq!(
        store.links,
        vec![link(JunctionTable::TermsToTopics, Kind::Topic, economics, Kind::Term, inflation)]
    );
    assert_eq!(store.linked(Kind::Topic, economics, Kind::Term), vec![inflation]);
    assert_eq!(store.linked(Kind::Term, inflation, Kind::Topic), vec![economics]);
}

#[test]
fn a_missing_parent_is_reported_and_nothing_is_written() {
    let mut store = MemoryStore::new();
    store.create(Kind::Term, "t1");
    let mut payload = topic_or_term("economics");
    payload.related_terms = names(&["t1"]);

    let result = drive(&mut store, build_link_tables(&payload, "topic"));

    assert_eq!(
        result,
        Err(LinkError::NotFound { kind: Kind::Topic, name: "economics".to_string() })
    );
    assert!(store.links.is_empty());
    assert_eq!(
        store.statements,
        vec!["SELECT id FROM platform.topics WHERE topic = $1".to_string()]
    );
}

#[test]
fn a_failed_parent_lookup_ends_the_linking() {
    let mut store = MemoryStore::new();
    store.create(Kind::Topic, "economics");
    store.failing =
        Some(Statement::SelectId { kind: Kind::Topic, name: "economics".to_string() });
    let payload = topic_or_term("economics");

    let result = drive(&mut store, build_link_tables(&payload, "topic"));

    assert_eq!(
        result,
        Err(LinkError::Store(StoreError { message: "connection lost".to_string() }))
    );
}

#[test]
fn a_failed_lookup_in_one_category_leaves_the_others_to_go_on() {
    let mut store = MemoryStore::new();
    store.create(Kind::Term, "t1");
    let topic = store.create(Kind::Topic, "economics");
    let s1 = store.create(Kind::Source, "s1");
    store.failing = Some(Statement::SelectIds { kind: Kind::Term, names: vec!["t1".to_string()] });
    let source_payload = {
        let mut payload = source("paper");
        payload.related_terms = names(&["t1"]);
        payload.related_topics = names(&["economics"]);
        payload.related_sources = names(&["s1"]);
        payload
    };
    let paper = store.create(Kind::Source, "paper");

    let report = drive(&mut store, build_link_tables(&source_payload, "source")).unwrap();

    assert_eq!(
        report.terms,
        Outcome::Failed { linked: 0, error: StoreError { message: "connection lost".to_string() } }
    );
    assert!(report.terms.failed());
    assert_eq!(report.topics, Outcome::Linked { asked: 1, linked: 1 });
    assert_eq!(report.sources, Outcome::Skipped);
    assert!(!report.is_clean());
    assert_eq!(
        store.links,
        vec![link(JunctionTable::TopicsToSources, Kind::Source, paper, Kind::Topic, topic)]
    );
    assert_ne!(s1, paper);
}

#[test]
fn a_failed_insert_keeps_the_rows_before_it_and_leaves_the_rest() {
    let mut store = MemoryStore::new();
    let a = store.create(Kind::Term, "a");
    store.create(Kind::Term, "b");
    store.create(Kind::Term, "c");
    let s1 = store.create(Kind::Source, "s1");
    let topic = store.create(Kind::Topic, "economics");
    store.inserts_before_failure = Some(1);
    let mut payload = topic_or_term("economics");
    payload.related_terms = names(&["a", "b", "c"]);
    payload.related_sources = names(&["s1"]);

    let report = drive(&mut store, build_link_tables(&payload, "topic")).unwrap();

    assert_eq!(
        report.terms,
        Outcome::Failed { linked: 1, error: StoreError { message: "disk full".to_string() } }
    );
    assert_eq!(report.terms.written(), 1);
    assert_eq!(report.terms.unresolved(), 0);
    assert_eq!(
        report.sources,
        Outcome::Failed { linked: 0, error: StoreError { message: "disk full".to_string() } }
    );
    assert_eq!(
        store.links,
        vec![link(JunctionTable::TermsToTopics, Kind::Topic, topic, Kind::Term, a)]
    );
    assert_ne!(s1, topic);
}

#[test]
fn names_of_the_entitys_own_kind_are_skipped() {
    let mut store = MemoryStore::new();
    store.create(Kind::Term, "other");
    store.create(Kind::Term, "inflation");
    let mut payload = topic_or_term("inflation");
    payload.related_terms = names(&["other"]);

    let report = drive(&mut store, build_link_tables(&payload, "term")).unwrap();

    assert_eq!(report.terms, Outcome::Skipped);
    assert!(store.links.is_empty());
    assert_eq!(store.statements.len(), 1);
}

#[test]
fn empty_lists_are_skipped_like_absent_ones() {
    let mut store = MemoryStore::new();
    store.create(Kind::Topic, "economics");
    let mut payload = topic_or_term("economics");
    payload.related_terms = names(&[]);
    payload.related_sources = None;

    let report = drive(&mut store, build_link_tables(&payload, "topic")).unwrap();

    assert_eq!(
        report,
        LinkReport { terms: Outcome::Skipped, topics: Outcome::Skipped, sources: Outcome::Skipped }
    );
    assert_eq!(store.statements.len(), 1);
}

#[test]
fn names_that_match_nothing_give_no_rows_and_no_failure() {
    let mut store = MemoryStore::new();
    store.create(Kind::Topic, "economics");
    let mut payload = topic_or_term("economics");
    payload.related_terms = names(&["nowhere", "nothing"]);

    let report = drive(&mut store, build_link_tables(&payload, "topic")).unwrap();

    assert_eq!(report.terms, Outcome::Linked { asked: 2, linked: 0 });
    assert_eq!(report.terms.unresolved(), 2);
    assert!(report.is_clean());
    assert!(store.links.is_empty());
}

#[test]
fn a_source_is_looked_up_by_its_name_column() {
    let mut store = MemoryStore::new();
    let term = store.create(Kind::Term, "inflation");
    let paper = store.create(Kind::Source, "paper");
    let mut payload = source("paper");
    payload.related_terms = names(&["inflation"]);

    let report = drive(&mut store, build_link_tables(&payload, "source")).unwrap();

    assert_eq!(report.terms, Outcome::Linked { asked: 1, linked: 1 });
    assert_eq!(
        store.statements,
        vec![
            "SELECT id FROM platform.sources WHERE name = $1".to_string(),
            "SELECT id FROM platform.terms WHERE term = ANY($1)".to_string(),
            "INSERT INTO platform.terms_to_sources (term_id, source_id) VALUES ($1, $2)"
                .to_string(),
        ]
    );
    assert_eq!(store.linked(Kind::Source, paper, Kind::Term), vec![term]);
}

#[test]
fn an_entity_type_that_names_no_kind_begins_nothing() {
    let payload = topic_or_term("economics");
    assert!(build_link_tables(&payload, "topics").is_none());
    assert!(build_link_tables(&payload, "Topic").is_none());
    assert!(build_link_tables(&payload, "").is_none());
}

#[test]
fn the_first_statement_looks_the_entity_up() {
    let payload = topic_or_term("economics");
    let (_, statement) = build_link_tables(&payload, "topic").unwrap();
    assert_eq!(
        statement,
        Statement::SelectId { kind: Kind::Topic, name: "economics".to_string() }
    );
}

#[test]
fn a_name_given_twice_is_asked_for_and_linked_once() {
    let mut store = MemoryStore::new();
    let t1 = store.create(Kind::Term, "t1");
    let topic = store.create(Kind::Topic, "economics");
    let mut payload = topic_or_term("economics");
    payload.related_terms = names(&["t1", "t2", "t1", "t2", "t1"]);

    let (_, first) = build_link_tables(&payload, "topic").unwrap();
    assert_eq!(first, Statement::SelectId { kind: Kind::Topic, name: "economics".to_string() });
    let report = drive(&mut store, build_link_tables(&payload, "topic")).unwrap();

    assert_eq!(report.terms, Outcome::Linked { asked: 2, linked: 1 });
    assert_eq!(report.terms.unresolved(), 1);
    assert_eq!(
        store.rows(JunctionTable::TermsToTopics),
        vec![link(JunctionTable::TermsToTopics, Kind::Topic, topic, Kind::Term, t1)]
    );
}
