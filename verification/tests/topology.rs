use jd_crm_api::kind::Kind;
use jd_crm_api::topology::{resolve_junction, JunctionTable, TopologyGap};

#[test]
fn kinds_have_their_names() {
    assert_eq!(Kind::Topic.name(), "topic");
    assert_eq!(Kind::Term.name(), "term");
    assert_eq!(Kind::Source.name(), "source");
}

#[test]
fn kinds_are_read_back_from_their_names() {
    for kind in [Kind::Topic, Kind::Term, Kind::Source] {
        assert_eq!(Kind::parse(kind.name()), Some(kind));
    }
}

#[test]
fn reading_a_kind_is_exact() {
    assert_eq!(Kind::parse("Topic"), None);
    assert_eq!(Kind::parse(" topic"), None);
    assert_eq!(Kind::parse("topics"), None);
    assert_eq!(Kind::parse("ter"), None);
    assert_eq!(Kind::parse(""), None);
    assert_eq!(Kind::parse("name"), None);
}

#[test]
fn natural_key_columns() {
    assert_eq!(Kind::Topic.key_column(), "topic");
    assert_eq!(Kind::Term.key_column(), "term");
    assert_eq!(Kind::Source.key_column(), "name");
}

#[test]
fn every_pair_of_distinct_kinds_has_its_table() {
    assert_eq!(resolve_junction(Kind::Term, Kind::Topic), Ok(JunctionTable::TermsToTopics));
    assert_eq!(resolve_junction(Kind::Term, Kind::Source), Ok(JunctionTable::TermsToSources));
    assert_eq!(resolve_junction(Kind::Topic, Kind::Source), Ok(JunctionTable::TopicsToSources));
}

#[test]
fn the_lookup_is_symmetric() {
    let kinds = [Kind::Topic, Kind::Term, Kind::Source];
    for a in kinds {
        for b in kinds {
            if a != b {
                assert_eq!(resolve_junction(a, b), resolve_junction(b, a));
                assert!(resolve_junction(a, b).is_ok());
            }
        }
    }
}

#[test]
fn the_lookup_gives_the_same_table_every_time() {
    assert_eq!(
        resolve_junction(Kind::Source, Kind::Topic),
        resolve_junction(Kind::Source, Kind::Topic)
    );
    assert_eq!(resolve_junction(Kind::Source, Kind::Topic), Ok(JunctionTable::TopicsToSources));
    assert_eq!(resolve_junction(Kind::Source, Kind::Term), Ok(JunctionTable::TermsToSources));
    assert_eq!(resolve_junction(Kind::Topic, Kind::Term), Ok(JunctionTable::TermsToTopics));
}

#[test]
fn a_kind_has_no_table_with_itself() {
    assert_eq!(resolve_junction(Kind::Topic, Kind::Topic), Err(TopologyGap { kind: Kind::Topic }));
    assert_eq!(resolve_junction(Kind::Term, Kind::Term), Err(TopologyGap { kind: Kind::Term }));
    assert_eq!(
        resolve_junction(Kind::Source, Kind::Source),
        Err(TopologyGap { kind: Kind::Source })
    );
}

#[test]
fn distinct_pairs_have_distinct_tables() {
    let a = resolve_junction(Kind::Term, Kind::Topic).unwrap();
    let b = resolve_junction(Kind::Term, Kind::Source).unwrap();
    let c = resolve_junction(Kind::Topic, Kind::Source).unwrap();
    assert_ne!(a, b);
    assert_ne!(a, c);
    assert_ne!(b, c);
}

#[test]
fn tables_have_their_names() {
    assert_eq!(JunctionTable::TermsToTopics.name(), "terms_to_topics");
    assert_eq!(JunctionTable::TermsToSources.name(), "terms_to_sources");
    assert_eq!(JunctionTable::TopicsToSources.name(), "topics_to_sources");
}
