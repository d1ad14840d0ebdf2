//! The report renderer: turns one issue record, tagged with its role, into a
//! markdown fragment — an ordered sequence of lines. Epics always render in
//! full; stories render their description and comments only while their
//! status category is in progress.
use crate::model::CommentRecord;
use crate::model::CommentView;
use crate::model::IssueRecord;
use crate::model::IssueRole;
use crate::model::IssueView;
use crate::text::body_line;
use crate::text::body_line_subst;
use crate::text::contains_marker;
use crate::text::contains_substr;
use crate::text::norm_line;
use crate::text::normalize_line;
use crate::text::split_into_lines;
use crate::text::split_lines;
use crate::text::trim;
use crate::text::trimmed;
use vstd::prelude::*;
use vstd::string::*;

verus! {

/// The status-category marker that selects the full story rendering.
pub open spec fn in_progress_marker() -> Seq<char> {
    seq!['I', 'n', ' ', 'P', 'r', 'o', 'g', 'r', 'e', 's', 's']
}

/// Whether a status-category name contains the in-progress marker; the test
/// is a plain case-sensitive substring test.
pub open spec fn in_progress(cat: Seq<char>) -> bool {
    contains_marker(cat, in_progress_marker())
}

/// Decides whether a status-category name selects the full story rendering.
pub fn status_in_progress(cat: &str) -> (r: bool)
    ensures
        r == in_progress(cat@),
{
    let r = contains_substr(cat, "In Progress");
    proof {
        reveal_strlit("In Progress");
        assert("In Progress"@ =~= in_progress_marker());
    }
    r
}

/// The epic heading line: role tag, key, trimmed summary.
pub open spec fn epic_heading(rec: IssueView) -> Seq<char> {
    "## [EPIC] ["@ + rec.key + "] "@ + trim(rec.summary)
}

/// The epic status line, over the trimmed status-category name.
pub open spec fn epic_status_line(rec: IssueView) -> Seq<char> {
    "### Status : "@ + trim(rec.status_category)
}

/// The lines of a description section: each line of the description text,
/// normalized; an absent description yields no lines.
pub open spec fn description_lines(d: Option<Seq<char>>) -> Seq<Seq<char>> {
    match d {
        Option::None => Seq::empty(),
        Option::Some(t) => split_lines(t).map_values(|l: Seq<char>| norm_line(l)),
    }
}

/// The full epic fragment: heading, status, description section, and the
/// trailing stories heading after which story fragments accumulate.
pub open spec fn epic_lines(rec: IssueView) -> Seq<Seq<char>> {
    seq![
        epic_heading(rec),
        Seq::<char>::empty(),
        epic_status_line(rec),
        Seq::<char>::empty(),
        "### Description"@,
        Seq::<char>::empty(),
    ] + description_lines(rec.description) + seq![
        Seq::<char>::empty(),
        "### Stories"@,
        Seq::<char>::empty(),
    ]
}

/// The story heading line: bold key and trimmed summary.
pub open spec fn story_heading(rec: IssueView) -> Seq<char> {
    "**["@ + rec.key + "] "@ + trim(rec.summary) + "**"@
}

/// The story status line, bold, over the trimmed status-category name.
pub open spec fn story_status_line(rec: IssueView) -> Seq<char> {
    "**Status : "@ + trim(rec.status_category) + "**"@
}

/// One comment's entry: a separating blank, the author and timestamp (the
/// timestamp verbatim, as received), then the body lines under the comment
/// body rule.
pub open spec fn comment_entry_lines(c: CommentView) -> Seq<Seq<char>> {
    seq![Seq::<char>::empty(), "- "@ + c.author + " "@ + c.created] + split_lines(
        c.body,
    ).map_values(|l: Seq<char>| body_line_subst(l))
}

/// The comments section: the entries of all comments, in input order.
pub open spec fn comments_lines(cs: Seq<CommentView>) -> Seq<Seq<char>>
    decreases cs.len(),
{
    if cs.len() == 0 {
        Seq::empty()
    } else {
        comment_entry_lines(cs[0]) + comments_lines(cs.drop_first())
    }
}

/// The sections a story renders only while in progress.
pub open spec fn story_detail_lines(rec: IssueView) -> Seq<Seq<char>> {
    seq![Seq::<char>::empty(), "**Description**"@, Seq::<char>::empty()] + description_lines(
        rec.description,
    ) + seq![Seq::<char>::empty(), "**Comments**"@] + comments_lines(rec.comments)
}

/// The full story fragment: always the heading and status lines; the
/// description and comments sections only while the status category is in
/// progress — a deliberate content-reduction policy for settled stories.
pub open spec fn story_lines(rec: IssueView) -> Seq<Seq<char>> {
    seq![story_heading(rec), Seq::<char>::empty(), story_status_line(rec)] + if in_progress(
        rec.status_category,
    ) {
        story_detail_lines(rec)
    } else {
        Seq::<Seq<char>>::empty()
    }
}

/// What rendering one record under one role yields.
pub open spec fn fragment_lines(rec: IssueView, role: IssueRole) -> Seq<Seq<char>> {
    match role {
        IssueRole::Epic => epic_lines(rec),
        IssueRole::Story => story_lines(rec),
    }
}

/// The text of a fragment: each line followed by a newline.
pub open spec fn fragment_text(lines: Seq<Seq<char>>) -> Seq<char>
    decreases lines.len(),
{
    if lines.len() == 0 {
        Seq::empty()
    } else {
        lines[0] + seq!['\n'] + fragment_text(lines.drop_first())
    }
}

/// A self-contained block of rendered markdown lines for one issue.
pub struct ReportFragment {
    pub lines: Vec<String>,
}

impl View for ReportFragment {
    type V = Seq<Seq<char>>;

    open spec fn view(&self) -> Seq<Seq<char>> {
        self.lines.deep_view()
    }
}

impl ReportFragment {
    /// The fragment's text, each line closed with a newline.
    pub fn text(&self) -> (r: String)
        ensures
            r@ == fragment_text(self@),
    {
        let mut r = String::new();
        let mut i: usize = 0;
        proof {
            assert(self@.skip(0) =~~= self@);
            assert(Seq::<char>::empty() + fragment_text(self@) =~= fragment_text(self@));
        }
        while i < self.lines.len()
            invariant
                i <= self@.len(),
                self@.len() == self.lines@.len(),
                fragment_text(self@) == r@ + fragment_text(self@.skip(i as int)),
            decreases self@.len() - i,
        {
            proof {
                assert(self@.skip(i as int)[0] == self@[i as int]);
                assert(self@.skip(i as int).drop_first() =~~= self@.skip(i as int + 1));
                assert(self@[i as int] == self.lines@[i as int]@);
            }
            let ghost r0 = r@;
            r.append(self.lines[i].as_str());
            r.append("\n");
            proof {
                reveal_strlit("\n");
                assert("\n"@ =~= seq!['\n']);
                assert(r@ + fragment_text(self@.skip(i as int + 1)) =~= r0 + (self@[i as int]
                    + seq!['\n'] + fragment_text(self@.skip(i as int + 1))));
            }
            i = i + 1;
        }
        proof {
            assert(self@.skip(self@.len() as int) =~~= Seq::<Seq<char>>::empty());
            assert(r@ + Seq::<char>::empty() =~= r@);
        }
        r
    }
}

fn normalized_lines_of(text: &str) -> (r: Vec<String>)
    ensures
        r.deep_view() == split_lines(text@).map_values(|l: Seq<char>| norm_line(l)),
{
    let parts = split_into_lines(text);
    let ghost target = split_lines(text@).map_values(|l: Seq<char>| norm_line(l));
    let mut r: Vec<String> = Vec::new();
    let mut i: usize = 0;
    while i < parts.len()
        invariant
            i <= parts@.len(),
            parts.deep_view() == split_lines(text@),
            target == split_lines(text@).map_values(|l: Seq<char>| norm_line(l)),
            target.len() == parts@.len(),
            r@.len() == i,
            forall|k: int| 0 <= k < i ==> #[trigger] r@[k]@ == target[k],
        decreases parts@.len() - i,
    {
        proof {
            assert(parts.deep_view()[i as int] == parts@[i as int]@);
            assert(target[i as int] == norm_line(split_lines(text@)[i as int]));
        }
        let line = normalize_line(parts[i].as_str());
        r.push(line);
        i = i + 1;
    }
    proof {
        assert(r.deep_view() =~~= target);
    }
    r
}

fn body_lines_of(text: &str) -> (r: Vec<String>)
    ensures
        r.deep_view() == split_lines(text@).map_values(|l: Seq<char>| body_line_subst(l)),
{
    let parts = split_into_lines(text);
    let ghost target = split_lines(text@).map_values(|l: Seq<char>| body_line_subst(l));
    let mut r: Vec<String> = Vec::new();
    let mut i: usize = 0;
    while i < parts.len()
        invariant
            i <= parts@.len(),
            parts.deep_view() == split_lines(text@),
            target == split_lines(text@).map_values(|l: Seq<char>| body_line_subst(l)),
            target.len() == parts@.len(),
            r@.len() == i,
            forall|k: int| 0 <= k < i ==> #[trigger] r@[k]@ == target[k],
        decreases parts@.len() - i,
    {
        proof {
            assert(parts.deep_view()[i as int] == parts@[i as int]@);
            assert(target[i as int] == body_line_subst(split_lines(text@)[i as int]));
        }
        let line = body_line(parts[i].as_str());
        r.push(line);
        i = i + 1;
    }
    proof {
        assert(r.deep_view() =~~= target);
    }
    r
}

fn append_lines(out: &mut Vec<String>, xs: Vec<String>)
    ensures
        final(out).deep_view() == old(out).deep_view() + xs.deep_view(),
{
    let mut rest = xs;
    proof {
        assert(out.deep_view() + rest.deep_view() =~~= old(out).deep_view() + xs.deep_view());
    }
    while rest.len() > 0
        invariant
            out.deep_view() + rest.deep_view() == old(out).deep_view() + xs.deep_view(),
        decreases rest.len(),
    {
        let ghost out0 = out.deep_view();
        let ghost rest0 = rest.deep_view();
        let s = rest.remove(0);
        out.push(s);
        proof {
            assert(out.deep_view() =~~= out0.push(rest0[0]));
            assert(rest.deep_view() =~~= rest0.drop_first());
            assert(out0.push(rest0[0]) + rest0.drop_first() =~~= out0 + rest0);
        }
    }
    proof {
        assert(out.deep_view() + rest.deep_view() =~~= out.deep_view());
    }
}

fn description_section(description: &Option<String>) -> (r: Vec<String>)
    ensures
        r.deep_view() == description_lines(description.deep_view()),
{
    match description {
        Option::Some(d) => normalized_lines_of(d.as_str()),
        Option::None => Vec::new(),
    }
}

/// Renders the epic fragment.
pub fn render_epic(issue: &IssueRecord) -> (r: ReportFragment)
    ensures
        r@ == epic_lines(issue@),
{
    let mut lines: Vec<String> = Vec::new();
    let heading = String::from_str("## [EPIC] [").concat(issue.key.as_str()).concat("] ").concat(
        trimmed(issue.summary.as_str()).as_str(),
    );
    proof {
        assert(heading@ =~= epic_heading(issue@));
    }
    lines.push(heading);
    lines.push(String::new());
    let status = String::from_str("### Status : ").concat(
        trimmed(issue.status_category.as_str()).as_str(),
    );
    proof {
        assert(status@ =~= epic_status_line(issue@));
    }
    lines.push(status);
    lines.push(String::new());
    lines.push(String::from_str("### Description"));
    lines.push(String::new());
    proof {
        assert(lines.deep_view() =~~= seq![
            epic_heading(issue@),
            Seq::<char>::empty(),
            epic_status_line(issue@),
            Seq::<char>::empty(),
            "### Description"@,
            Seq::<char>::empty(),
        ]);
    }
    let ghost head = lines.deep_view();
    let desc = description_section(&issue.description);
    let ghost dl = desc.deep_view();
    append_lines(&mut lines, desc);
    lines.push(String::new());
    lines.push(String::from_str("### Stories"));
    lines.push(String::new());
    proof {
        assert(lines.deep_view() =~~= (head + dl) + seq![
            Seq::<char>::empty(),
            "### Stories"@,
            Seq::<char>::empty(),
        ]);
        assert(dl == description_lines(issue@.description));
        assert((head + dl) + seq![Seq::<char>::empty(), "### Stories"@, Seq::<char>::empty()]
            =~~= epic_lines(issue@));
    }
    ReportFragment { lines }
}

/// Renders the story fragment; content beyond the heading and status lines
/// appears only for an in-progress status category.
pub fn render_story(issue: &IssueRecord) -> (r: ReportFragment)
    ensures
        r@ == story_lines(issue@),
{
    let mut lines: Vec<String> = Vec::new();
    let heading = String::from_str("**[").concat(issue.key.as_str()).concat("] ").concat(
        trimmed(issue.summary.as_str()).as_str(),
    ).concat("**");
    proof {
        assert(heading@ =~= story_heading(issue@));
    }
    lines.push(heading);
    lines.push(String::new());
    let status = String::from_str("**Status : ").concat(
        trimmed(issue.status_category.as_str()).as_str(),
    ).concat("**");
    proof {
        assert(status@ =~= story_status_line(issue@));
    }
    lines.push(status);
    let ghost top = lines.deep_view();
    proof {
        assert(top =~~= seq![
            story_heading(issue@),
            Seq::<char>::empty(),
            story_status_line(issue@),
        ]);
    }
    if status_in_progress(issue.status_category.as_str()) {
        lines.push(String::new());
        lines.push(String::from_str("**Description**"));
        lines.push(String::new());
        proof {
            assert(lines.deep_view() =~~= top + seq![
                Seq::<char>::empty(),
                "**Description**"@,
                Seq::<char>::empty(),
            ]);
        }
        let ghost mid0 = lines.deep_view();
        let desc = description_section(&issue.description);
        let ghost dl = desc.deep_view();
        append_lines(&mut lines, desc);
        lines.push(String::new());
        lines.push(String::from_str("**Comments**"));
        proof {
            assert(lines.deep_view() =~~= (mid0 + dl) + seq![
                Seq::<char>::empty(),
                "**Comments**"@,
            ]);
        }
        let ghost base = lines.deep_view();
        let ghost cs = issue@.comments;
        let mut ci: usize = 0;
        proof {
            assert(cs.skip(0) =~= cs);
            assert(cs.len() == issue.comments@.len());
        }
        while ci < issue.comments.len()
            invariant
                ci <= cs.len(),
                cs == issue@.comments,
                cs.len() == issue.comments@.len(),
                base + comments_lines(cs) == lines.deep_view() + comments_lines(
                    cs.skip(ci as int),
                ),
            decreases cs.len() - ci,
        {
            proof {
                assert(cs.skip(ci as int)[0] == cs[ci as int]);
                assert(cs.skip(ci as int).drop_first() =~= cs.skip(ci as int + 1));
                assert(comments_lines(cs.skip(ci as int)) == comment_entry_lines(cs[ci as int])
                    + comments_lines(cs.skip(ci as int + 1)));
                assert(issue.comments.deep_view()[ci as int] == issue.comments@[ci as int]@);
                assert(cs[ci as int] == issue.comments@[ci as int]@);
            }
            let ghost lines0 = lines.deep_view();
            let c: &CommentRecord = &issue.comments[ci];
            lines.push(String::new());
            let entry = String::from_str("- ").concat(c.author.as_str()).concat(" ").concat(
                c.created.as_str(),
            );
            lines.push(entry);
            proof {
                assert(lines.deep_view() =~~= lines0 + seq![
                    Seq::<char>::empty(),
                    "- "@ + cs[ci as int].author + " "@ + cs[ci as int].created,
                ]);
            }
            let ghost mid = lines.deep_view();
            let body = body_lines_of(c.body.as_str());
            let ghost bl = body.deep_view();
            append_lines(&mut lines, body);
            proof {
                assert(bl == split_lines(cs[ci as int].body).map_values(
                    |l: Seq<char>| body_line_subst(l),
                ));
                assert(lines.deep_view() =~~= lines0 + comment_entry_lines(cs[ci as int]));
                assert((lines0 + comment_entry_lines(cs[ci as int])) + comments_lines(
                    cs.skip(ci as int + 1),
                ) =~~= lines0 + comments_lines(cs.skip(ci as int)));
            }
            ci = ci + 1;
        }
        proof {
            assert(cs.skip(cs.len() as int) =~= Seq::<CommentView>::empty());
            assert(lines.deep_view() + Seq::<Seq<char>>::empty() =~~= lines.deep_view());
            assert(lines.deep_view() =~~= base + comments_lines(cs));
            assert(base + comments_lines(cs) =~~= top + story_detail_lines(issue@));
            assert(lines.deep_view() =~~= story_lines(issue@));
        }
    } else {
        proof {
            assert(lines.deep_view() =~~= story_lines(issue@));
        }
    }
    ReportFragment { lines }
}

/// Renders one issue record under its role.
pub fn render(issue: &IssueRecord, role: IssueRole) -> (r: ReportFragment)
    ensures
        r@ == fragment_lines(issue@, role),
{
    match role {
        IssueRole::Epic => render_epic(issue),
        IssueRole::Story => render_story(issue),
    }
}

/// Law: a story whose status category is not in progress renders as its
/// heading and status lines only — no description and no comments section,
/// whatever the record's description and comments hold.
pub proof fn lemma_story_without_progress_is_minimal(rec: IssueView)
    requires
        !in_progress(rec.status_category),
    ensures
        story_lines(rec) == seq![
            story_heading(rec),
            Seq::<char>::empty(),
            story_status_line(rec),
        ],
{
    assert(story_lines(rec) =~~= seq![
        story_heading(rec),
        Seq::<char>::empty(),
        story_status_line(rec),
    ]);
}

/// Law: the comments section lists exactly one entry per input comment, in
/// input order — it is the flattening of the per-comment entries.
pub proof fn lemma_comments_in_input_order(cs: Seq<CommentView>)
    ensures
        comments_lines(cs) == cs.map_values(|c: CommentView| comment_entry_lines(c)).flatten(),
    decreases cs.len(),
{
    let mapped = cs.map_values(|c: CommentView| comment_entry_lines(c));
    if cs.len() == 0 {
        assert(mapped.len() == 0);
        assert(comments_lines(cs) =~~= mapped.flatten());
    } else {
        lemma_comments_in_input_order(cs.drop_first());
        assert(mapped.drop_first() =~~= cs.drop_first().map_values(
            |c: CommentView| comment_entry_lines(c),
        ));
        assert(mapped.flatten() == mapped.first() + mapped.drop_first().flatten());
        assert(mapped.first() == comment_entry_lines(cs[0]));
    }
}

} // verus!
