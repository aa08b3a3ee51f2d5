//! What a caller is told once a request was dealt with.

use vstd::prelude::*;
use crate::kind::Kind;
use crate::report::{LinkError, LinkErrorView, LinkReport, LinkReportView, Outcome, OutcomeView};
use crate::statement::StoreError;
use crate::writer::PlanError;

verus! {

/// The request was carried out.
pub const STATUS_OK: u16 = 200;

/// The request itself cannot be carried out as it stands.
pub const STATUS_BAD_REQUEST: u16 = 400;

/// The request was not carried out, or not in full.
pub const STATUS_FAILED: u16 = 500;

/// A status and a line of text.
#[derive(Clone, Debug, PartialEq, Eq)]
pub struct Response {
    pub status: u16,
    pub body: String,
}

pub struct ResponseView {
    pub status: u16,
    pub body: Seq<char>,
}

impl View for Response {
    type V = ResponseView;

    open spec fn view(&self) -> ResponseView {
        ResponseView { status: self.status, body: self.body@ }
    }
}

impl LinkErrorView {
    /// The finding in words.
    pub open spec fn message(self) -> Seq<char> {
        match self {
            LinkErrorView::NotFound { kind, name } => "no "@ + kind.label() + " named "@ + name,
            LinkErrorView::Store(error) => error,
        }
    }
}

impl LinkError {
    /// The finding in words.
    pub fn message(&self) -> (text: String)
        ensures
            text@ == self@.message(),
    {
        match self {
            LinkError::NotFound { kind, name } => {
                let mut text = String::from_str("no ");
                text.append(kind.name());
                text.append(" named ");
                text.append(name.as_str());
                text
            },
            LinkError::Store(error) => error.message.clone(),
        }
    }
}

/// What is wrong with the kinds of a request, in words.
pub open spec fn plan_error_text(error: PlanError) -> Seq<char> {
    match error {
        PlanError::UnknownParentKind => "unknown parent entity type"@,
        PlanError::UnknownChildKind => "unknown child entity type"@,
        PlanError::TopologyGap(gap) => "no link table joins "@ + gap.kind.label() + " to "@
            + gap.kind.label(),
    }
}

impl PlanError {
    /// What is wrong, in words.
    pub fn message(&self) -> (text: String)
        ensures
            text@ == plan_error_text(*self),
    {
        match self {
            PlanError::UnknownParentKind => String::from_str("unknown parent entity type"),
            PlanError::UnknownChildKind => String::from_str("unknown child entity type"),
            PlanError::TopologyGap(gap) => {
                let mut text = String::from_str("no link table joins ");
                text.append(gap.kind.name());
                text.append(" to ");
                text.append(gap.kind.name());
                text
            },
        }
    }
}

impl LinkReportView {
    /// The complaint of the store in the first category that failed, terms
    /// before topics before sources; none where none failed.
    pub open spec fn first_failure(self) -> Option<Seq<char>> {
        if let OutcomeView::Failed { error, .. } = self.terms {
            Some(error)
        } else if let OutcomeView::Failed { error, .. } = self.topics {
            Some(error)
        } else if let OutcomeView::Failed { error, .. } = self.sources {
            Some(error)
        } else {
            None
        }
    }
}

impl LinkReport {
    /// The complaint of the store in the first category that failed; none
    /// where none failed.
    pub fn first_failure(&self) -> (found: Option<&StoreError>)
        ensures
            found is Some <==> !self@.clean(),
            match found {
                Some(error) => self@.first_failure() == Some(error@),
                None => self@.first_failure().is_none(),
            },
    {
        if let Outcome::Failed { error, .. } = &self.terms {
            Some(error)
        } else if let Outcome::Failed { error, .. } = &self.topics {
            Some(error)
        } else if let Outcome::Failed { error, .. } = &self.sources {
            Some(error)
        } else {
            None
        }
    }
}

/// What the caller is told after an entity of `kind` was to be created: how
/// the insert of the entity itself went, and how its linking went.
///
/// The word of success is given only where the insert went through, the
/// linking came to its end and no category failed. Otherwise the caller is
/// told of the first thing that went wrong: the insert before the linking,
/// and within the linking the failure that ended it before the first
/// category that failed. Names that matched nothing are no failure.
pub open spec fn creation_outcome(
    kind: Kind,
    inserted: Result<(), Seq<char>>,
    linked: Result<LinkReportView, LinkErrorView>,
) -> ResponseView {
    match inserted {
        Err(error) => ResponseView { status: STATUS_FAILED, body: error },
        Ok(_) => match linked {
            Err(error) => ResponseView { status: STATUS_FAILED, body: error.message() },
            Ok(report) => match report.first_failure() {
                Some(error) => ResponseView { status: STATUS_FAILED, body: error },
                None => ResponseView {
                    status: STATUS_OK,
                    body: "new "@ + kind.label() + " created"@,
                },
            },
        },
    }
}

/// The insert's result as a mathematical value.
pub open spec fn inserted_view(inserted: Result<(), StoreError>) -> Result<(), Seq<char>> {
    match inserted {
        Ok(_) => Ok(()),
        Err(error) => Err(error@),
    }
}

/// The linking's result as a mathematical value.
pub open spec fn linked_view(linked: Result<LinkReport, LinkError>) -> Result<
    LinkReportView,
    LinkErrorView,
> {
    match linked {
        Ok(report) => Ok(report@),
        Err(error) => Err(error@),
    }
}

/// Says what the caller is told after an entity of `kind` was to be created.
pub fn creation_response(
    kind: Kind,
    inserted: &Result<(), StoreError>,
    linked: &Result<LinkReport, LinkError>,
) -> (response: Response)
    ensures
        response@ == creation_outcome(kind, inserted_view(*inserted), linked_view(*linked)),
{
    match inserted {
        Err(error) => Response { status: STATUS_FAILED, body: error.message.clone() },
        Ok(_) => match linked {
            Err(error) => Response { status: STATUS_FAILED, body: error.message() },
            Ok(report) => match report.first_failure() {
                Some(error) => Response { status: STATUS_FAILED, body: error.message.clone() },
                None => {
                    let mut body = String::from_str("new ");
                    body.append(kind.name());
                    body.append(" created");
                    Response { status: STATUS_OK, body }
                },
            },
        },
    }
}

/// What the caller is told after a request to link by identifiers: of the
/// kinds that cannot be linked, of the first list on which the store failed,
/// or that the links were made.
pub open spec fn link_outcome(written: Result<LinkReportView, PlanError>) -> ResponseView {
    match written {
        Err(error) => ResponseView { status: STATUS_BAD_REQUEST, body: plan_error_text(error) },
        Ok(report) => match report.first_failure() {
            Some(error) => ResponseView { status: STATUS_FAILED, body: error },
            None => ResponseView { status: STATUS_OK, body: "new link created"@ },
        },
    }
}

/// The writing's result as a mathematical value.
pub open spec fn written_view(written: Result<LinkReport, PlanError>) -> Result<
    LinkReportView,
    PlanError,
> {
    match written {
        Ok(report) => Ok(report@),
        Err(error) => Err(error),
    }
}

/// Says what the caller is told after a request to link by identifiers.
pub fn link_response(written: &Result<LinkReport, PlanError>) -> (response: Response)
    ensures
        response@ == link_outcome(written_view(*written)),
{
    match written {
        Err(error) => Response { status: STATUS_BAD_REQUEST, body: error.message() },
        Ok(report) => match report.first_failure() {
            Some(error) => Response { status: STATUS_FAILED, body: error.message.clone() },
            None => Response { status: STATUS_OK, body: String::from_str("new link created") },
        },
    }
}

} // verus!
