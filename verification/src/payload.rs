//! What a client sends to create an entity or to link entities.

use vstd::prelude::*;

verus! {

/// The medium of a source.
#[derive(Clone, Copy, Debug, PartialEq, Eq, Structural)]
pub enum MediaType {
    Audio,
    Video,
    Web,
    Book,
    ScientificArticle,
}

/// The format of a source's image.
#[derive(Clone, Copy, Debug, PartialEq, Eq, Structural)]
pub enum ImageType {
    PDF,
    PNG,
    TIFF,
    JPEG,
    GIF,
}

/// The request to create a topic or a term.
#[derive(Clone, Debug, PartialEq, Eq)]
pub struct CreateTopicOrTerm {
    pub name: String,
    pub is_verified: bool,
    pub brief_description: Option<String>,
    pub full_description: Option<String>,
    pub bullet_points: Option<Vec<String>>,
    pub examples: Option<Vec<String>>,
    pub parallels: Option<Vec<String>>,
    pub ai_brief_description: Option<String>,
    pub ai_full_description: Option<String>,
    pub ai_bullet_points: Option<Vec<String>>,
    pub ai_parallels: Option<Vec<String>>,
    pub ai_examples: Option<Vec<String>>,
    pub related_terms: Option<Vec<String>>,
    pub related_topics: Option<Vec<String>>,
    pub related_sources: Option<Vec<String>>,
}

/// The request to create a source.
#[derive(Clone, Debug, PartialEq, Eq)]
pub struct CreateSource {
    pub name: String,
    pub url: Option<String>,
    pub author: Option<String>,
    pub author_url: Option<String>,
    pub media_type: Option<MediaType>,
    pub image_url: Option<String>,
    pub image_type: Option<ImageType>,
    pub ai_generated: Option<bool>,
    pub related_terms: Option<Vec<String>>,
    pub related_topics: Option<Vec<String>>,
    pub related_sources: Option<Vec<String>>,
}

/// The request to link a parent to children whose identifiers are known.
#[derive(Clone, Debug, PartialEq, Eq)]
pub struct CreateLink {
    pub parent_entity_type: String,
    pub child_entity_type: String,
    pub parent_id: i32,
    pub related_term_ids: Option<Vec<i32>>,
    pub related_topic_ids: Option<Vec<i32>>,
    pub related_source_ids: Option<Vec<i32>>,
}

/// The texts of a list that may be absent: none where it is absent.
pub open spec fn texts_of(list: Option<Vec<String>>) -> Seq<Seq<char>> {
    match list {
        Some(texts) => texts.deep_view(),
        None => Seq::empty(),
    }
}

/// A copy of the list, or an empty list where there is none.
pub fn process_optional_vec(param: &Option<Vec<String>>) -> (processed: Vec<String>)
    ensures
        processed.deep_view() == texts_of(*param),
{
    let mut processed: Vec<String> = Vec::new();
    if let Some(populated) = param {
        let mut i: usize = 0;
        while i < populated.len()
            invariant
                i <= populated.len(),
                processed.len() == i,
                forall|j: int| 0 <= j < i ==> processed[j]@ == populated[j]@,
            decreases populated.len() - i,
        {
            processed.push(populated[i].clone());
            i += 1;
        }
        assert(processed.deep_view() =~= populated.deep_view());
    } else {
        assert(processed.deep_view() =~= Seq::<Seq<char>>::empty());
    }
    processed
}

/// What the linking of a new entity reads from the request that created it:
/// its natural key, and the names of the entities it asks to be related to.
pub trait CreateEntity {
    /// The natural key of the new entity.
    spec fn key(&self) -> Seq<char>;

    /// The names of the terms asked for, in the order given.
    spec fn term_names(&self) -> Seq<Seq<char>>;

    /// The names of the topics asked for, in the order given.
    spec fn topic_names(&self) -> Seq<Seq<char>>;

    /// The names of the sources asked for, in the order given.
    spec fn source_names(&self) -> Seq<Seq<char>>;

    fn name(&self) -> (text: &String)
        ensures
            text@ == self.key(),
    ;

    fn related_terms(&self) -> (list: &Option<Vec<String>>)
        ensures
            texts_of(*list) == self.term_names(),
    ;

    fn related_topics(&self) -> (list: &Option<Vec<String>>)
        ensures
            texts_of(*list) == self.topic_names(),
    ;

    fn related_sources(&self) -> (list: &Option<Vec<String>>)
        ensures
            texts_of(*list) == self.source_names(),
    ;
}

impl CreateEntity for CreateTopicOrTerm {
    open spec fn key(&self) -> Seq<char> {
        self.name@
    }

    open spec fn term_names(&self) -> Seq<Seq<char>> {
        texts_of(self.related_terms)
    }

    open spec fn topic_names(&self) -> Seq<Seq<char>> {
        texts_of(self.related_topics)
    }

    open spec fn source_names(&self) -> Seq<Seq<char>> {
        texts_of(self.related_sources)
    }

    fn name(&self) -> (text: &String) {
        &self.name
    }

    fn related_terms(&self) -> (list: &Option<Vec<String>>) {
        &self.related_terms
    }

    fn related_topics(&self) -> (list: &Option<Vec<String>>) {
        &self.related_topics
    }

    fn related_sources(&self) -> (list: &Option<Vec<String>>) {
        &self.related_sources
    }
}

impl CreateEntity for CreateSource {
    open spec fn key(&self) -> Seq<char> {
        self.name@
    }

    open spec fn term_names(&self) -> Seq<Seq<char>> {
        texts_of(self.related_terms)
    }

    open spec fn topic_names(&self) -> Seq<Seq<char>> {
        texts_of(self.related_topics)
    }

    open spec fn source_names(&self) -> Seq<Seq<char>> {
        texts_of(self.related_sources)
    }

    fn name(&self) -> (text: &String) {
        &self.name
    }

    fn related_terms(&self) -> (list: &Option<Vec<String>>) {
        &self.related_terms
    }

    fn related_topics(&self) -> (list: &Option<Vec<String>>) {
        &self.related_topics
    }

    fn related_sources(&self) -> (list: &Option<Vec<String>>) {
        &self.related_sources
    }
}

} // verus!
