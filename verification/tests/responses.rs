use jd_crm_api::entity::{insert_source, insert_topic_or_term};
use jd_crm_api::kind::Kind;
use jd_crm_api::payload::{
    process_optional_vec, CreateEntity, CreateSource, CreateTopicOrTerm, ImageType, MediaType,
};
use jd_crm_api::report::{LinkError, LinkReport, Outcome};
use jd_crm_api::response::{
    creation_response, Response, STATUS_BAD_REQUEST, STATUS_FAILED, STATUS_OK,
};
use jd_crm_api::statement::StoreError;

fn complaint(message: &str) -> StoreError {
    StoreError { message: message.to_string() }
}

fn texts(list: &[&str]) -> Vec<String> {
    list.iter().map(|text| text.to_string()).collect()
}

fn full_topic() -> CreateTopicOrTerm {
    CreateTopicOrTerm {
        name: "economics".to_string(),
        is_verified: true,
        brief_description: Some("brief".to_string()),
        full_description: None,
        bullet_points: Some(texts(&["one", "two"])),
        examples: None,
        parallels: Some(Vec::new()),
        ai_brief_description: None,
        ai_full_description: Some("generated".to_string()),
        ai_bullet_points: None,
        ai_parallels: Some(texts(&["like"])),
        ai_examples: None,
        related_terms: Some(texts(&["inflation"])),
        related_topics: None,
        related_sources: Some(Vec::new()),
    }
}

fn full_source() -> CreateSource {
    CreateSource {
        name: "paper".to_string(),
        url: Some("https://example.org".to_string()),
        author: None,
        author_url: None,
        media_type: Some(MediaType::ScientificArticle),
        image_url: None,
        image_type: Some(ImageType::PNG),
        ai_generated: Some(false),
        related_terms: None,
        related_topics: Some(texts(&["economics"])),
        related_sources: None,
    }
}

fn clean_report() -> LinkReport {
    LinkReport {
        terms: Outcome::Linked { asked: 2, linked: 1 },
        topics: Outcome::Skipped,
        sources: Outcome::Linked { asked: 1, linked: 1 },
    }
}

#[test]
fn statuses() {
    assert_eq!(STATUS_OK, 200);
    assert_eq!(STATUS_BAD_REQUEST, 400);
    assert_eq!(STATUS_FAILED, 500);
}

#[test]
fn an_absent_list_is_an_empty_list() {
    assert_eq!(process_optional_vec(&None), Vec::<String>::new());
    assert_eq!(process_optional_vec(&Some(Vec::new())), Vec::<String>::new());
    assert_eq!(process_optional_vec(&Some(texts(&["a", "b", "a"]))), texts(&["a", "b", "a"]));
}

#[test]
fn requests_hand_out_their_name_and_lists() {
    let topic = full_topic();
    assert_eq!(topic.name(), "economics");
    assert_eq!(topic.related_terms(), &Some(texts(&["inflation"])));
    assert_eq!(topic.related_topics(), &None);
    assert_eq!(topic.related_sources(), &Some(Vec::new()));
    let source = full_source();
    assert_eq!(source.name(), "paper");
    assert_eq!(source.related_terms(), &None);
    assert_eq!(source.related_topics(), &Some(texts(&["economics"])));
    assert_eq!(source.related_sources(), &None);
}

#[test]
fn a_created_entity_is_announced_by_its_kind() {
    assert_eq!(
        creation_response(Kind::Topic, &Ok(()), &Ok(clean_report())),
        Response { status: 200, body: "new topic created".to_string() }
    );
    assert_eq!(
        creation_response(Kind::Term, &Ok(()), &Ok(clean_report())),
        Response { status: 200, body: "new term created".to_string() }
    );
    assert_eq!(
        creation_response(Kind::Source, &Ok(()), &Ok(clean_report())),
        Response { status: 200, body: "new source created".to_string() }
    );
}

#[test]
fn a_failed_insert_comes_before_anything_else() {
    let linked = Err(LinkError::NotFound { kind: Kind::Topic, name: "economics".to_string() });
    assert_eq!(
        creation_response(Kind::Topic, &Err(complaint("duplicate key")), &linked),
        Response { status: 500, body: "duplicate key".to_string() }
    );
    assert_eq!(
        creation_response(Kind::Topic, &Err(complaint("duplicate key")), &Ok(clean_report())),
        Response { status: 500, body: "duplicate key".to_string() }
    );
}

#[test]
fn a_linking_that_could_not_begin_is_reported() {
    let missing = Err(LinkError::NotFound { kind: Kind::Topic, name: "economics".to_string() });
    assert_eq!(
        creation_response(Kind::Topic, &Ok(()), &missing),
        Response { status: 500, body: "no topic named economics".to_string() }
    );
    let failed = Err(LinkError::Store(complaint("timeout")));
    assert_eq!(
        creation_response(Kind::Source, &Ok(()), &failed),
        Response { status: 500, body: "timeout".to_string() }
    );
}

#[test]
fn a_category_that_failed_is_reported_though_the_others_went_through() {
    let report = LinkReport {
        terms: Outcome::Linked { asked: 1, linked: 1 },
        topics: Outcome::Skipped,
        sources: Outcome::Failed { linked: 2, error: complaint("disk full") },
    };
    assert_eq!(
        creation_response(Kind::Topic, &Ok(()), &Ok(report)),
        Response { status: 500, body: "disk full".to_string() }
    );
}

#[test]
fn names_that_matched_nothing_do_not_fail_the_creation() {
    let report = LinkReport {
        terms: Outcome::Linked { asked: 5, linked: 0 },
        topics: Outcome::Skipped,
        sources: Outcome::Skipped,
    };
    assert_eq!(report.terms.unresolved(), 5);
    assert_eq!(
        creation_response(Kind::Topic, &Ok(()), &Ok(report)),
        Response { status: 200, body: "new topic created".to_string() }
    );
}

#[test]
fn outcomes_count_rows_and_gaps() {
    assert_eq!(Outcome::Skipped.written(), 0);
    assert_eq!(Outcome::Skipped.unresolved(), 0);
    assert!(!Outcome::Skipped.failed());
    let linked = Outcome::Linked { asked: 7, linked: 4 };
    assert_eq!(linked.written(), 4);
    assert_eq!(linked.unresolved(), 3);
    let more = Outcome::Linked { asked: 1, linked: 4 };
    assert_eq!(more.unresolved(), 0);
    let failed = Outcome::Failed { linked: 2, error: complaint("x") };
    assert_eq!(failed.written(), 2);
    assert_eq!(failed.unresolved(), 0);
    assert!(failed.failed());
}

#[test]
fn a_report_hands_out_and_takes_outcomes_by_kind() {
    let report = LinkReport::new();
    assert_eq!(report.outcome(Kind::Term), &Outcome::Skipped);
    let report = report.record(Kind::Topic, Outcome::Linked { asked: 1, linked: 1 });
    let report = report.record(Kind::Source, Outcome::Failed { linked: 0, error: complaint("x") });
    assert_eq!(report.outcome(Kind::Term), &Outcome::Skipped);
    assert_eq!(report.outcome(Kind::Topic), &Outcome::Linked { asked: 1, linked: 1 });
    assert_eq!(
        report.outcome(Kind::Source),
        &Outcome::Failed { linked: 0, error: complaint("x") }
    );
    assert!(!report.is_clean());
    assert_eq!(report.first_failure(), Some(&complaint("x")));
    assert_eq!(LinkReport::new().first_failure(), None);
}

#[test]
fn the_insert_of_a_topic_carries_the_request() {
    let insert = insert_topic_or_term(&full_topic(), "topic").unwrap();
    assert_eq!(insert.kind, Kind::Topic);
    assert_eq!(insert.name, "economics");
    assert!(insert.is_verified);
    assert_eq!(insert.brief_description, Some("brief".to_string()));
    assert_eq!(insert.full_description, None);
    assert_eq!(insert.bullet_points, texts(&["one", "two"]));
    assert_eq!(insert.examples, Vec::<String>::new());
    assert_eq!(insert.parallels, Vec::<String>::new());
    assert_eq!(insert.ai_brief_description, None);
    assert_eq!(insert.ai_full_description, Some("generated".to_string()));
    assert_eq!(insert.ai_bullet_points, Vec::<String>::new());
    assert_eq!(insert.ai_parallels, texts(&["like"]));
    assert_eq!(insert.ai_examples, Vec::<String>::new());
    assert_eq!(
        insert.sql(),
        "INSERT INTO platform.topics (topic, is_verified, brief_description, full_description, bullet_points, examples, parallels, ai_brief_description, ai_full_description, ai_bullet_points, ai_parallels, ai_examples) VALUES ($1, $2, $3, $4, $5, $6, $7, $8, $9, $10, $11, $12)"
    );
}

#[test]
fn the_insert_of_a_term_goes_to_the_terms() {
    let insert = insert_topic_or_term(&full_topic(), "term").unwrap();
    assert_eq!(insert.kind, Kind::Term);
    assert_eq!(
        insert.sql(),
        "INSERT INTO platform.terms (term, is_verified, brief_description, full_description, bullet_points, examples, parallels, ai_brief_description, ai_full_description, ai_bullet_points, ai_parallels, ai_examples) VALUES ($1, $2, $3, $4, $5, $6, $7, $8, $9, $10, $11, $12)"
    );
}

#[test]
fn only_topics_and_terms_are_inserted_as_such() {
    assert_eq!(insert_topic_or_term(&full_topic(), "source"), None);
    assert_eq!(insert_topic_or_term(&full_topic(), "topics"), None);
    assert_eq!(insert_topic_or_term(&full_topic(), ""), None);
}

#[test]
fn the_insert_of_a_source_carries_the_request() {
    let insert = insert_source(&full_source());
    assert_eq!(insert.name, "paper");
    assert_eq!(insert.url, Some("https://example.org".to_string()));
    assert_eq!(insert.author, None);
    assert_eq!(insert.author_url, None);
    assert_eq!(insert.media_type, Some(MediaType::ScientificArticle));
    assert_eq!(insert.image_url, None);
    assert_eq!(insert.image_type, Some(ImageType::PNG));
    assert_eq!(insert.ai_generated, Some(false));
    assert_eq!(
        insert.sql(),
        "INSERT INTO platform.sources (name, url, author, author_url, media_type, image_url, image_type, ai_generated) VALUES ($1, $2, $3, $4, $5, $6, $7, $8)"
    );
}

#[test]
fn findings_in_words() {
    assert_eq!(
        LinkError::NotFound { kind: Kind::Source, name: "paper".to_string() }.message(),
        "no source named paper"
    );
    assert_eq!(LinkError::Store(complaint("timeout")).message(), "timeout");
}
