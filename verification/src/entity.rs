//! The statements that store a new entity itself, before it is linked.

use vstd::prelude::*;
use crate::kind::Kind;
use crate::payload::{
    process_optional_vec,
    texts_of,
    CreateSource,
    CreateTopicOrTerm,
    ImageType,
    MediaType,
};

verus! {

/// A text that may be absent, as a sequence of characters.
pub open spec fn text_of(text: Option<String>) -> Option<Seq<char>> {
    match text {
        Some(text) => Some(text@),
        None => None,
    }
}

fn copy_text(text: &Option<String>) -> (copy: Option<String>)
    ensures
        text_of(copy) == text_of(*text),
{
    match text {
        Some(text) => Some(text.clone()),
        None => None,
    }
}

/// The insert of a topic or a term: the values to bind, in the order of the
/// placeholders.
#[derive(Clone, Debug, PartialEq, Eq)]
pub struct TopicOrTermInsert {
    pub kind: Kind,
    pub name: String,
    pub is_verified: bool,
    pub brief_description: Option<String>,
    pub full_description: Option<String>,
    pub bullet_points: Vec<String>,
    pub examples: Vec<String>,
    pub parallels: Vec<String>,
    pub ai_brief_description: Option<String>,
    pub ai_full_description: Option<String>,
    pub ai_bullet_points: Vec<String>,
    pub ai_parallels: Vec<String>,
    pub ai_examples: Vec<String>,
}

/// The text that inserts a topic or a term with its twelve values.
pub open spec fn topic_or_term_text(kind: Kind) -> Seq<char> {
    "INSERT INTO platform."@ + kind.label() + "s ("@ + kind.key_column_label()
        + ", is_verified, brief_description, full_description, bullet_points, examples, parallels, ai_brief_description, ai_full_description, ai_bullet_points, ai_parallels, ai_examples) VALUES ($1, $2, $3, $4, $5, $6, $7, $8, $9, $10, $11, $12)"@
}

impl TopicOrTermInsert {
    /// Whether the insert carries what the request holds: every value as it
    /// was given, and each list that was left out as an empty list.
    pub open spec fn carries(self, payload: CreateTopicOrTerm) -> bool {
        &&& self.name@ == payload.name@
        &&& self.is_verified == payload.is_verified
        &&& text_of(self.brief_description) == text_of(payload.brief_description)
        &&& text_of(self.full_description) == text_of(payload.full_description)
        &&& self.bullet_points.deep_view() == texts_of(payload.bullet_points)
        &&& self.examples.deep_view() == texts_of(payload.examples)
        &&& self.parallels.deep_view() == texts_of(payload.parallels)
        &&& text_of(self.ai_brief_description) == text_of(payload.ai_brief_description)
        &&& text_of(self.ai_full_description) == text_of(payload.ai_full_description)
        &&& self.ai_bullet_points.deep_view() == texts_of(payload.ai_bullet_points)
        &&& self.ai_parallels.deep_view() == texts_of(payload.ai_parallels)
        &&& self.ai_examples.deep_view() == texts_of(payload.ai_examples)
    }

    /// The statement's text, with `$1` to `$12` for the values in the order
    /// of the fields after `kind`.
    pub fn sql(&self) -> (text: String)
        ensures
            text@ == topic_or_term_text(self.kind),
    {
        let mut text = String::from_str("INSERT INTO platform.");
        text.append(self.kind.name());
        text.append("s (");
        text.append(self.kind.key_column());
        text.append(
            ", is_verified, brief_description, full_description, bullet_points, examples, parallels, ai_brief_description, ai_full_description, ai_bullet_points, ai_parallels, ai_examples) VALUES ($1, $2, $3, $4, $5, $6, $7, $8, $9, $10, $11, $12)",
        );
        text
    }
}

/// The insert of a new topic or term, as `topic_or_term` says. There is none
/// where that text names neither of the two.
pub fn insert_topic_or_term(payload: &CreateTopicOrTerm, topic_or_term: &str) -> (insert: Option<
    TopicOrTermInsert,
>)
    ensures
        insert is Some <==> Kind::named_by(topic_or_term@) == Some(Kind::Topic) || Kind::named_by(
            topic_or_term@,
        ) == Some(Kind::Term),
        insert matches Some(insert) ==> Some(insert.kind) == Kind::named_by(topic_or_term@)
            && insert.carries(*payload),
{
    let kind = match Kind::parse(topic_or_term) {
        Some(Kind::Topic) => Kind::Topic,
        Some(Kind::Term) => Kind::Term,
        _ => {
            return None;
        },
    };
    Some(
        TopicOrTermInsert {
            kind,
            name: payload.name.clone(),
            is_verified: payload.is_verified,
            brief_description: copy_text(&payload.brief_description),
            full_description: copy_text(&payload.full_description),
            bullet_points: process_optional_vec(&payload.bullet_points),
            examples: process_optional_vec(&payload.examples),
            parallels: process_optional_vec(&payload.parallels),
            ai_brief_description: copy_text(&payload.ai_brief_description),
            ai_full_description: copy_text(&payload.ai_full_description),
            ai_bullet_points: process_optional_vec(&payload.ai_bullet_points),
            ai_parallels: process_optional_vec(&payload.ai_parallels),
            ai_examples: process_optional_vec(&payload.ai_examples),
        },
    )
}

/// The insert of a source: the values to bind, in the order of the
/// placeholders.
#[derive(Clone, Debug, PartialEq, Eq)]
pub struct SourceInsert {
    pub name: String,
    pub url: Option<String>,
    pub author: Option<String>,
    pub author_url: Option<String>,
    pub media_type: Option<MediaType>,
    pub image_url: Option<String>,
    pub image_type: Option<ImageType>,
    pub ai_generated: Option<bool>,
}

/// The text that inserts a source with its eight values.
pub open spec fn source_text() -> Seq<char> {
    "INSERT INTO platform."@ + Kind::Source.label() + "s ("@ + Kind::Source.key_column_label()
        + ", url, author, author_url, media_type, image_url, image_type, ai_generated) VALUES ($1, $2, $3, $4, $5, $6, $7, $8)"@
}

impl SourceInsert {
    /// Whether the insert carries what the request holds, value for value.
    pub open spec fn carries(self, payload: CreateSource) -> bool {
        &&& self.name@ == payload.name@
        &&& text_of(self.url) == text_of(payload.url)
        &&& text_of(self.author) == text_of(payload.author)
        &&& text_of(self.author_url) == text_of(payload.author_url)
        &&& self.media_type == payload.media_type
        &&& text_of(self.image_url) == text_of(payload.image_url)
        &&& self.image_type == payload.image_type
        &&& self.ai_generated == payload.ai_generated
    }

    /// The statement's text, with `$1` to `$8` for the values in the order
    /// of the fields.
    pub fn sql(&self) -> (text: String)
        ensures
            text@ == source_text(),
    {
        let mut text = String::from_str("INSERT INTO platform.");
        text.append(Kind::Source.name());
        text.append("s (");
        text.append(Kind::Source.key_column());
        text.append(
            ", url, author, author_url, media_type, image_url, image_type, ai_generated) VALUES ($1, $2, $3, $4, $5, $6, $7, $8)",
        );
        text
    }
}

/// The insert of a new source.
pub fn insert_source(payload: &CreateSource) -> (insert: SourceInsert)
    ensures
        insert.carries(*payload),
{
    SourceInsert {
        name: payload.name.clone(),
        url: copy_text(&payload.url),
        author: copy_text(&payload.author),
        author_url: copy_text(&payload.author_url),
        media_type: payload.media_type,
        image_url: copy_text(&payload.image_url),
        image_type: payload.image_type,
        ai_generated: payload.ai_generated,
    }
}

} // verus!
