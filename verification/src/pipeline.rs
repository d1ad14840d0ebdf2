//! The run: a strictly sequential pipeline over the requested epics. The
//! driver performs one outstanding fetch at a time and hands the outcome
//! back; the run renders, accumulates the report, and decides the next
//! action. Any failure aborts the whole run — there is no per-issue
//! isolation and no retry.
use crate::links::has_malformed_link;
use crate::links::link_keys;
use crate::links::linked_story_ids;
use crate::model::IssueRecord;
use crate::model::IssueRole;
use crate::model::RunError;
use crate::render::epic_lines;
use crate::render::fragment_text;
use crate::render::render_epic;
use crate::render::render_story;
use crate::render::story_lines;
use crate::report::header_text;
use crate::report::valid_date;
use crate::report::Report;
use vstd::prelude::*;
use vstd::string::*;

verus! {

/// What one fetch attempt produced: a decoded record, or the stage at which
/// it failed. The run does not distinguish degrees of failure — both kinds
/// abort it.
pub enum FetchOutcome {
    /// The response decoded into a record.
    Success(IssueRecord),
    /// The network call itself failed.
    TransportFailure,
    /// The response body did not match the record shape.
    DecodeFailure,
}

/// What the run asks its driver to do next.
pub enum RunAction {
    /// Fetch this issue under this role and hand back the outcome.
    FetchIssue(String, IssueRole),
    /// The run is complete; every requested fragment is in the report.
    Finish,
    /// The run is aborted; nothing further will be appended.
    Abort(RunError),
}

/// Where the run stands.
#[derive(Clone, Copy, Debug, PartialEq, Eq, Structural)]
pub enum RunPhase {
    /// A fetch of an epic is outstanding.
    AwaitingEpic,
    /// A fetch of a linked story is outstanding.
    AwaitingStory,
    /// The run finished.
    Complete,
    /// The run aborted on an error.
    Aborted,
}

/// The state of one report run.
pub struct RunState {
    /// The report accumulated so far; the driver's file holds exactly this
    /// text once every appended piece is flushed.
    pub report: Report,
    /// Epic identifiers not yet fetched, in request order.
    pub epics: Vec<String>,
    /// Linked story identifiers of the current epic not yet fetched, in
    /// link order.
    pub stories: Vec<String>,
    /// Where the run stands.
    pub phase: RunPhase,
}

/// How the run advances once a fragment is in the report: the next pending
/// story is fetched first; with none left, the next epic; with nothing
/// left at all, the run completes.
pub open spec fn advance_post(
    pre_epics: Seq<Seq<char>>,
    pre_stories: Seq<Seq<char>>,
    post: RunState,
    action: RunAction,
) -> bool {
    if pre_stories.len() > 0 {
        &&& action matches RunAction::FetchIssue(id, role) && id@ == pre_stories[0] && role
            == IssueRole::Story
        &&& post.phase == RunPhase::AwaitingStory
        &&& post.stories.deep_view() == pre_stories.drop_first()
        &&& post.epics.deep_view() == pre_epics
    } else if pre_epics.len() > 0 {
        &&& action matches RunAction::FetchIssue(id, role) && id@ == pre_epics[0] && role
            == IssueRole::Epic
        &&& post.phase == RunPhase::AwaitingEpic
        &&& post.stories.deep_view().len() == 0
        &&& post.epics.deep_view() == pre_epics.drop_first()
    } else {
        &&& action is Finish
        &&& post.phase == RunPhase::Complete
        &&& post.stories.deep_view().len() == 0
        &&& post.epics.deep_view().len() == 0
    }
}

impl RunState {
    fn advance(&mut self, appended: String) -> (r: (String, RunAction))
        ensures
            r.0 == appended,
            final(self).report == old(self).report,
            advance_post(
                old(self).epics.deep_view(),
                old(self).stories.deep_view(),
                *final(self),
                r.1,
            ),
    {
        if self.stories.len() > 0 {
            let ghost pre = self.stories.deep_view();
            let id = self.stories.remove(0);
            proof {
                assert(self.stories.deep_view() =~~= pre.drop_first());
            }
            self.phase = RunPhase::AwaitingStory;
            (appended, RunAction::FetchIssue(id, IssueRole::Story))
        } else if self.epics.len() > 0 {
            let ghost pre = self.epics.deep_view();
            let id = self.epics.remove(0);
            proof {
                assert(self.epics.deep_view() =~~= pre.drop_first());
            }
            self.phase = RunPhase::AwaitingEpic;
            (appended, RunAction::FetchIssue(id, IssueRole::Epic))
        } else {
            self.phase = RunPhase::Complete;
            (appended, RunAction::Finish)
        }
    }

    /// Starts a run for the given epic identifiers, in request order. The
    /// report is initialized to exactly the dated header — destructively,
    /// whatever a file at the destination held before — and the first epic
    /// fetch is issued; an empty request list completes at once.
    pub fn start(epic_ids: Vec<String>, year: u16, month: u8, day: u8) -> (r: (RunState, RunAction))
        requires
            valid_date(year as int, month as int, day as int),
        ensures
            r.0.report@ == header_text(year as int, month as int, day as int),
            epic_ids.deep_view().len() == 0 ==> r.1 is Finish && r.0.phase == RunPhase::Complete,
            epic_ids.deep_view().len() > 0 ==> {
                &&& r.1 matches RunAction::FetchIssue(id, role) && id@ == epic_ids.deep_view()[0]
                    && role == IssueRole::Epic
                &&& r.0.phase == RunPhase::AwaitingEpic
                &&& r.0.epics.deep_view() == epic_ids.deep_view().drop_first()
                &&& r.0.stories.deep_view().len() == 0
            },
    {
        let mut report = Report::new();
        report.initialize(year, month, day);
        let mut epics = epic_ids;
        if epics.len() == 0 {
            let state = RunState { report, epics, stories: Vec::new(), phase: RunPhase::Complete };
            (state, RunAction::Finish)
        } else {
            let ghost pre = epics.deep_view();
            let first = epics.remove(0);
            proof {
                assert(epics.deep_view() =~~= pre.drop_first());
                assert(first@ == pre[0]);
            }
            let state = RunState {
                report,
                epics,
                stories: Vec::new(),
                phase: RunPhase::AwaitingEpic,
            };
            (state, RunAction::FetchIssue(first, IssueRole::Epic))
        }
    }

    /// Advances the run on the outcome of the outstanding fetch.
    ///
    /// On success, the issue's fragment — epic or story, by the phase — is
    /// appended to the report, and the returned text is exactly the piece
    /// the driver must append to its file before acting further. After an
    /// epic, the epic's linked stories are queued; a link entry without an
    /// outward target instead aborts the run with the malformed-link error,
    /// right after the epic's own fragment and before any story fetch, so a
    /// report that held only the header then holds exactly the header and
    /// that epic fragment. A transport or decode failure aborts the run
    /// with nothing appended.
    pub fn on_fetch(&mut self, outcome: FetchOutcome) -> (r: (String, RunAction))
        requires
            old(self).phase == RunPhase::AwaitingEpic || old(self).phase
                == RunPhase::AwaitingStory,
        ensures
            final(self).report@ == old(self).report@ + r.0@,
            outcome is TransportFailure ==> r.0@ == Seq::<char>::empty() && final(self).phase
                == RunPhase::Aborted && (r.1 matches RunAction::Abort(e) && e
                == RunError::Transport),
            outcome is DecodeFailure ==> r.0@ == Seq::<char>::empty() && final(self).phase
                == RunPhase::Aborted && (r.1 matches RunAction::Abort(e) && e == RunError::Decode),
            outcome matches FetchOutcome::Success(rec) ==> {
                &&& old(self).phase == RunPhase::AwaitingEpic ==> {
                    &&& r.0@ == fragment_text(epic_lines(rec@))
                    &&& has_malformed_link(rec@) ==> final(self).phase == RunPhase::Aborted && (
                    r.1 matches RunAction::Abort(e) && e == RunError::MalformedLink)
                    &&& !has_malformed_link(rec@) ==> advance_post(
                        old(self).epics.deep_view(),
                        link_keys(rec@),
                        *final(self),
                        r.1,
                    )
                }
                &&& old(self).phase == RunPhase::AwaitingStory ==> {
                    &&& r.0@ == fragment_text(story_lines(rec@))
                    &&& advance_post(
                        old(self).epics.deep_view(),
                        old(self).stories.deep_view(),
                        *final(self),
                        r.1,
                    )
                }
            },
    {
        match outcome {
            FetchOutcome::TransportFailure => {
                self.phase = RunPhase::Aborted;
                proof {
                    assert(old(self).report@ + Seq::<char>::empty() =~= old(self).report@);
                }
                (String::new(), RunAction::Abort(RunError::Transport))
            },
            FetchOutcome::DecodeFailure => {
                self.phase = RunPhase::Aborted;
                proof {
                    assert(old(self).report@ + Seq::<char>::empty() =~= old(self).report@);
                }
                (String::new(), RunAction::Abort(RunError::Decode))
            },
            FetchOutcome::Success(rec) => {
                if self.phase == RunPhase::AwaitingEpic {
                    let frag = render_epic(&rec);
                    let text = frag.text();
                    self.report.append_text(text.as_str());
                    match linked_story_ids(&rec) {
                        Result::Err(e) => {
                            self.phase = RunPhase::Aborted;
                            (text, RunAction::Abort(e))
                        },
                        Result::Ok(ids) => {
                            self.stories = ids;
                            self.advance(text)
                        },
                    }
                } else {
                    let frag = render_story(&rec);
                    let text = frag.text();
                    self.report.append_text(text.as_str());
                    self.advance(text)
                }
            },
        }
    }
}

/// Law: an epic without linked stories leads to no story fetch. Advancing
/// with an empty story queue never asks for a story, and the story queue
/// stays empty; with `link_keys` empty — as it is for an epic with no links
/// — the epic's fetch contributes exactly one epic fragment and no story
/// fragment follows from it.
pub proof fn lemma_no_pending_stories_no_story_fetch(
    pre_epics: Seq<Seq<char>>,
    post: RunState,
    action: RunAction,
)
    requires
        advance_post(pre_epics, Seq::<Seq<char>>::empty(), post, action),
    ensures
        !(action matches RunAction::FetchIssue(id, role) && role == IssueRole::Story),
        post.stories.deep_view().len() == 0,
{
}

} // verus!
