//! The issue record model: the subset of an issue-tracker record that the
//! renderer reads, the role an issue plays in a run, and the run's error
//! taxonomy.
use vstd::prelude::*;

verus! {

/// How an issue entered the run: requested directly (an epic), or reached
/// through an epic's outward link (a story).
#[derive(Clone, Copy, Debug, PartialEq, Eq, Structural)]
pub enum IssueRole {
    Epic,
    Story,
}

/// The failures that can end a run; any one of them aborts the whole run.
#[derive(Clone, Copy, Debug, PartialEq, Eq, Structural)]
pub enum RunError {
    /// The credentials source was missing or unreadable.
    CredentialRead,
    /// The network fetch of an issue failed.
    Transport,
    /// A response body did not match the expected record shape.
    Decode,
    /// An epic's link entry lacks an outward-issue target.
    MalformedLink,
    /// The report file could not be created, truncated or appended to.
    FileIo,
}

/// One comment on an issue: who wrote it, when, and its text.
pub struct CommentRecord {
    pub author: String,
    pub created: String,
    pub body: String,
}

/// The mathematical shape of a comment.
pub struct CommentView {
    pub author: Seq<char>,
    pub created: Seq<char>,
    pub body: Seq<char>,
}

impl View for CommentRecord {
    type V = CommentView;

    open spec fn view(&self) -> CommentView {
        CommentView { author: self.author@, created: self.created@, body: self.body@ }
    }
}

impl DeepView for CommentRecord {
    type V = CommentView;

    open spec fn deep_view(&self) -> CommentView {
        self.view()
    }
}

/// One outward link entry of an issue. A missing target is the malformed
/// case that aborts a run.
pub struct LinkRecord {
    pub outward_key: Option<String>,
}

impl View for LinkRecord {
    type V = Option<Seq<char>>;

    open spec fn view(&self) -> Option<Seq<char>> {
        self.outward_key.deep_view()
    }
}

impl DeepView for LinkRecord {
    type V = Option<Seq<char>>;

    open spec fn deep_view(&self) -> Option<Seq<char>> {
        self.view()
    }
}

/// The fields of a fetched issue that the report needs. Identifier and
/// summary are always present; description and comments may be absent or
/// empty. A record is immutable once built from a response.
pub struct IssueRecord {
    /// The issue identifier, e.g. `PROJ-123`.
    pub key: String,
    /// The one-line summary.
    pub summary: String,
    /// The fine-grained workflow status name.
    pub status_name: String,
    /// The coarse status-category name, e.g. `To Do`, `In Progress`, `Done`.
    pub status_category: String,
    /// The long description, absent on some records.
    pub description: Option<String>,
    /// The comments, in the order the tracker returned them.
    pub comments: Vec<CommentRecord>,
    /// The outward link targets, in the order the tracker returned them.
    pub links: Vec<LinkRecord>,
}

/// The mathematical shape of an issue record.
pub struct IssueView {
    pub key: Seq<char>,
    pub summary: Seq<char>,
    pub status_name: Seq<char>,
    pub status_category: Seq<char>,
    pub description: Option<Seq<char>>,
    pub comments: Seq<CommentView>,
    pub links: Seq<Option<Seq<char>>>,
}

impl View for IssueRecord {
    type V = IssueView;

    open spec fn view(&self) -> IssueView {
        IssueView {
            key: self.key@,
            summary: self.summary@,
            status_name: self.status_name@,
            status_category: self.status_category@,
            description: self.description.deep_view(),
            comments: self.comments.deep_view(),
            links: self.links.deep_view(),
        }
    }
}

impl DeepView for IssueRecord {
    type V = IssueView;

    open spec fn deep_view(&self) -> IssueView {
        self.view()
    }
}

} // verus!
