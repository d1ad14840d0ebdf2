use status_report::model::CommentRecord;
use status_report::model::IssueRecord;
use status_report::model::IssueRole;
use status_report::model::LinkRecord;
use status_report::render::render;
use status_report::render::render_epic;
use status_report::render::render_story;
use status_report::render::status_in_progress;

fn story(key: &str, summary: &str, category: &str) -> IssueRecord {
    IssueRecord {
        key: key.to_string(),
        summary: summary.to_string(),
        status_name: "whatever".to_string(),
        status_category: category.to_string(),
        description: None,
        comments: Vec::new(),
        links: Vec::new(),
    }
}

fn comment(author: &str, created: &str, body: &str) -> CommentRecord {
    CommentRecord {
        author: author.to_string(),
        created: created.to_string(),
        body: body.to_string(),
    }
}

#[test]
fn epic_renders_all_sections_whatever_the_status() {
    let mut epic = story("EPIC-1", "  Migrate auth  ", "To Do");
    epic.description = Some("* step one\n* step two".to_string());
    let frag = render_epic(&epic);
    assert_eq!(
        frag.lines,
        vec![
            "## [EPIC] [EPIC-1] Migrate auth".to_string(),
            "".to_string(),
            "### Status : To Do".to_string(),
            "".to_string(),
            "### Description".to_string(),
            "".to_string(),
            "- step one".to_string(),
            "- step two".to_string(),
            "".to_string(),
            "### Stories".to_string(),
            "".to_string(),
        ]
    );
}

#[test]
fn epic_without_description_renders_empty_section() {
    let epic = story("EPIC-2", "Bare", "Done");
    let frag = render_epic(&epic);
    assert_eq!(
        frag.lines,
        vec![
            "## [EPIC] [EPIC-2] Bare".to_string(),
            "".to_string(),
            "### Status : Done".to_string(),
            "".to_string(),
            "### Description".to_string(),
            "".to_string(),
            "".to_string(),
            "### Stories".to_string(),
            "".to_string(),
        ]
    );
}

#[test]
fn epic_with_empty_description_renders_one_blank_line() {
    let mut epic = story("EPIC-3", "Empty", "Done");
    epic.description = Some("".to_string());
    let frag = render_epic(&epic);
    // one segment, normalized to an empty line, between the headings
    assert_eq!(frag.lines[6], "".to_string());
    assert_eq!(frag.lines.len(), 10);
}

#[test]
fn settled_story_renders_heading_and_status_only() {
    let mut s = story("STORY-9", "  Ship it ", " Done ");
    s.description = Some("hidden\ndetails".to_string());
    s.comments.push(comment("bob", "2024-02-02T00:00:00Z", "invisible"));
    let frag = render_story(&s);
    assert_eq!(
        frag.lines,
        vec![
            "**[STORY-9] Ship it**".to_string(),
            "".to_string(),
            "**Status : Done**".to_string(),
        ]
    );
}

#[test]
fn story_done_with_comments_renders_zero_comment_lines() {
    let mut s = story("STORY-8", "Quiet", "Done");
    s.comments.push(comment("ann", "2024-01-01T00:00:00Z", "one"));
    s.comments.push(comment("bob", "2024-01-02T00:00:00Z", "two"));
    let frag = render_story(&s);
    assert_eq!(frag.lines.len(), 3);
    assert!(!frag.lines.iter().any(|l| l.contains("Comments")));
    assert!(!frag.lines.iter().any(|l| l.contains("ann")));
}

#[test]
fn in_progress_story_lists_one_entry_per_comment_in_order() {
    let mut s = story("STORY-1", "Add OAuth", "In Progress");
    s.description = Some("details".to_string());
    s.comments.push(comment("ann", "2024-01-01T00:00:00Z", "{code:java}\nfoo();\n{code}"));
    s.comments.push(comment("bob", "2024-01-03T00:00:00Z", "* reviewed"));
    let frag = render_story(&s);
    assert_eq!(
        frag.lines,
        vec![
            "**[STORY-1] Add OAuth**".to_string(),
            "".to_string(),
            "**Status : In Progress**".to_string(),
            "".to_string(),
            "**Description**".to_string(),
            "".to_string(),
            "details".to_string(),
            "".to_string(),
            "**Comments**".to_string(),
            "".to_string(),
            "- ann 2024-01-01T00:00:00Z".to_string(),
            "```bash".to_string(),
            "foo();".to_string(),
            "```".to_string(),
            "".to_string(),
            "- bob 2024-01-03T00:00:00Z".to_string(),
            "- reviewed".to_string(),
        ]
    );
}

#[test]
fn crlf_description_lines_lose_their_carriage_returns() {
    let mut epic = story("EPIC-4", "Windows", "Done");
    epic.description = Some("one\r\ntwo\r".to_string());
    let frag = render_epic(&epic);
    assert_eq!(frag.lines[6], "one".to_string());
    assert_eq!(frag.lines[7], "two".to_string());
}

#[test]
fn in_progress_story_without_description_keeps_the_headings() {
    let s = story("STORY-7", "Sparse", "In Progress");
    let frag = render_story(&s);
    assert_eq!(
        frag.lines,
        vec![
            "**[STORY-7] Sparse**".to_string(),
            "".to_string(),
            "**Status : In Progress**".to_string(),
            "".to_string(),
            "**Description**".to_string(),
            "".to_string(),
            "".to_string(),
            "**Comments**".to_string(),
        ]
    );
}

#[test]
fn multi_line_comment_bodies_keep_every_line() {
    let mut s = story("STORY-6", "Talky", "In Progress");
    s.comments.push(comment("cara", "2024-03-03T00:00:00Z", "first\rline\nsecond * mid"));
    let frag = render_story(&s);
    let tail = &frag.lines[frag.lines.len() - 3..];
    assert_eq!(tail[0], "- cara 2024-03-03T00:00:00Z".to_string());
    assert_eq!(tail[1], "firstline".to_string());
    // the marker rewrite applies at every position, as a plain replacement
    assert_eq!(tail[2], "second - mid".to_string());
}

#[test]
fn substring_status_test_also_matches_longer_names() {
    assert!(status_in_progress("Still In Progress today"));
    assert!(!status_in_progress("IN PROGRESS"));
    let s = story("STORY-2", "Edge", "Not In Progress yet");
    let frag = render_story(&s);
    // the category contains the marker, so the sections render
    assert!(frag.lines.iter().any(|l| l == "**Comments**"));
}

#[test]
fn render_dispatches_on_role() {
    let mut rec = story("KEY-1", "Sum", "Done");
    rec.links.push(LinkRecord { outward_key: Some("CHILD-1".to_string()) });
    let epic_frag = render(&rec, IssueRole::Epic);
    let story_frag = render(&rec, IssueRole::Story);
    assert!(epic_frag.lines[0].starts_with("## [EPIC] [KEY-1]"));
    assert!(story_frag.lines[0].starts_with("**[KEY-1]"));
}

#[test]
fn fragment_text_closes_each_line_with_newline() {
    let s = story("STORY-3", "T", "Done");
    let frag = render_story(&s);
    assert_eq!(frag.text(), "**[STORY-3] T**\n\n**Status : Done**\n");
}
