use status_report::client::bearer_token;
use status_report::client::request_url;
use status_report::model::CommentRecord;
use status_report::model::IssueRecord;
use status_report::model::IssueRole;
use status_report::model::LinkRecord;
use status_report::model::RunError;
use status_report::pipeline::FetchOutcome;
use status_report::pipeline::RunAction;
use status_report::pipeline::RunPhase;
use status_report::pipeline::RunState;
use status_report::render::render_epic;
use status_report::report::header_line;
use status_report::report::is_valid_date;
use status_report::report::Report;

const HEADER: &str = "# [2024-01-05] WRIG ET Bi-Weekly Status Report\n\n\n";

fn record(key: &str, summary: &str, category: &str) -> IssueRecord {
    IssueRecord {
        key: key.to_string(),
        summary: summary.to_string(),
        status_name: "name".to_string(),
        status_category: category.to_string(),
        description: None,
        comments: Vec::new(),
        links: Vec::new(),
    }
}

fn link(target: &str) -> LinkRecord {
    LinkRecord { outward_key: Some(target.to_string()) }
}

#[test]
fn header_carries_the_zero_padded_date() {
    assert_eq!(header_line(2024, 1, 5), HEADER);
    assert_eq!(
        header_line(999, 12, 31),
        "# [0999-12-31] WRIG ET Bi-Weekly Status Report\n\n\n"
    );
}

#[test]
fn calendar_validity_follows_the_gregorian_rules() {
    assert!(is_valid_date(2024, 2, 29));
    assert!(!is_valid_date(2023, 2, 29));
    assert!(!is_valid_date(1900, 2, 29));
    assert!(is_valid_date(2000, 2, 29));
    assert!(!is_valid_date(2024, 0, 1));
    assert!(!is_valid_date(2024, 13, 1));
    assert!(!is_valid_date(2024, 4, 31));
    assert!(!is_valid_date(0, 1, 1));
    assert!(!is_valid_date(10000, 1, 1));
}

#[test]
fn initialization_is_destructive() {
    let mut report = Report::new();
    report.append_text("stale content from an earlier run\nmore\n");
    report.initialize(2024, 1, 5);
    assert_eq!(report.as_text(), HEADER);
    // a second initialization still leaves only the header
    report.append_text("fragment");
    report.initialize(2024, 1, 5);
    assert_eq!(report.as_text(), HEADER);
}

#[test]
fn append_keeps_fetch_order() {
    let mut report = Report::new();
    report.initialize(2024, 1, 5);
    let first = render_epic(&record("A-1", "first", "Done"));
    let second = render_epic(&record("B-2", "second", "Done"));
    report.append_fragment(&first);
    report.append_fragment(&second);
    let expected = format!("{}{}{}", HEADER, first.text(), second.text());
    assert_eq!(report.as_text(), expected);
}

#[test]
fn epic_with_zero_links_yields_one_epic_fragment_and_no_story() {
    let (mut run, action) = RunState::start(vec!["EPIC-1".to_string()], 2024, 1, 5);
    match action {
        RunAction::FetchIssue(id, role) => {
            assert_eq!(id, "EPIC-1");
            assert_eq!(role, IssueRole::Epic);
        }
        _ => panic!("expected a fetch of the epic"),
    }
    let epic = record("EPIC-1", "Lonely", "Done");
    let expected_fragment = render_epic(&epic).text();
    let (appended, action) = run.on_fetch(FetchOutcome::Success(epic));
    assert!(matches!(action, RunAction::Finish));
    assert_eq!(run.phase, RunPhase::Complete);
    assert_eq!(appended, expected_fragment);
    assert_eq!(run.report.as_text(), format!("{}{}", HEADER, expected_fragment));
    assert!(!run.report.as_text().contains("**["));
}

#[test]
fn empty_request_list_finishes_at_once() {
    let (run, action) = RunState::start(Vec::new(), 2024, 1, 5);
    assert!(matches!(action, RunAction::Finish));
    assert_eq!(run.phase, RunPhase::Complete);
    assert_eq!(run.report.as_text(), HEADER);
}

#[test]
fn full_run_renders_epic_then_story_in_order() {
    let (mut run, action) = RunState::start(vec!["EPIC-1".to_string()], 2024, 1, 5);
    assert!(matches!(action, RunAction::FetchIssue(_, IssueRole::Epic)));

    let mut epic = record("EPIC-1", "Migrate auth", "In Progress");
    epic.description = Some("* step one\n* step two".to_string());
    epic.links.push(link("STORY-1"));
    let (epic_text, action) = run.on_fetch(FetchOutcome::Success(epic));
    match action {
        RunAction::FetchIssue(id, role) => {
            assert_eq!(id, "STORY-1");
            assert_eq!(role, IssueRole::Story);
        }
        _ => panic!("expected the linked story fetch"),
    }
    assert_eq!(
        epic_text,
        "## [EPIC] [EPIC-1] Migrate auth\n\n### Status : In Progress\n\n### Description\n\n\
         - step one\n- step two\n\n### Stories\n\n"
    );

    let mut story = record("STORY-1", "Add OAuth", "In Progress");
    story.description = Some("details".to_string());
    story.comments.push(CommentRecord {
        author: "ann".to_string(),
        created: "2024-01-01T00:00:00Z".to_string(),
        body: "{code:java}\nfoo();\n{code}".to_string(),
    });
    let (story_text, action) = run.on_fetch(FetchOutcome::Success(story));
    assert!(matches!(action, RunAction::Finish));
    assert_eq!(run.phase, RunPhase::Complete);
    assert_eq!(
        story_text,
        "**[STORY-1] Add OAuth**\n\n**Status : In Progress**\n\n**Description**\n\ndetails\n\n\
         **Comments**\n\n- ann 2024-01-01T00:00:00Z\n```bash\nfoo();\n```\n"
    );
    let expected = format!("{}{}{}", HEADER, epic_text, story_text);
    assert_eq!(run.report.as_text(), expected);
}

#[test]
fn stories_of_one_epic_come_before_the_next_epic() {
    let (mut run, _) = RunState::start(
        vec!["EPIC-1".to_string(), "EPIC-2".to_string()],
        2024,
        1,
        5,
    );
    let mut epic = record("EPIC-1", "First", "Done");
    epic.links.push(link("S-1"));
    epic.links.push(link("S-2"));
    let (_, action) = run.on_fetch(FetchOutcome::Success(epic));
    match action {
        RunAction::FetchIssue(id, IssueRole::Story) => assert_eq!(id, "S-1"),
        _ => panic!("expected the first story"),
    }
    let (_, action) = run.on_fetch(FetchOutcome::Success(record("S-1", "a", "Done")));
    match action {
        RunAction::FetchIssue(id, IssueRole::Story) => assert_eq!(id, "S-2"),
        _ => panic!("expected the second story"),
    }
    let (_, action) = run.on_fetch(FetchOutcome::Success(record("S-2", "b", "Done")));
    match action {
        RunAction::FetchIssue(id, IssueRole::Epic) => assert_eq!(id, "EPIC-2"),
        _ => panic!("expected the second epic"),
    }
    let (_, action) = run.on_fetch(FetchOutcome::Success(record("EPIC-2", "c", "Done")));
    assert!(matches!(action, RunAction::Finish));
}

#[test]
fn malformed_link_aborts_after_the_epic_fragment_and_before_any_story() {
    let (mut run, _) = RunState::start(vec!["EPIC-1".to_string()], 2024, 1, 5);
    let mut epic = record("EPIC-1", "Broken", "Done");
    epic.links.push(link("S-1"));
    epic.links.push(LinkRecord { outward_key: None });
    let expected_fragment = render_epic(&record("EPIC-1", "Broken", "Done")).text();
    let (appended, action) = run.on_fetch(FetchOutcome::Success(epic));
    match action {
        RunAction::Abort(e) => assert_eq!(e, RunError::MalformedLink),
        _ => panic!("expected the malformed-link abort"),
    }
    assert_eq!(run.phase, RunPhase::Aborted);
    assert_eq!(appended, expected_fragment);
    // the report holds the header and the epic fragment, and nothing of any story
    assert_eq!(run.report.as_text(), format!("{}{}", HEADER, expected_fragment));
    assert!(!run.report.as_text().contains("**["));
}

#[test]
fn transport_failure_aborts_with_nothing_appended() {
    let (mut run, _) = RunState::start(vec!["EPIC-1".to_string()], 2024, 1, 5);
    let (appended, action) = run.on_fetch(FetchOutcome::TransportFailure);
    assert_eq!(appended, "");
    match action {
        RunAction::Abort(e) => assert_eq!(e, RunError::Transport),
        _ => panic!("expected the transport abort"),
    }
    assert_eq!(run.phase, RunPhase::Aborted);
    assert_eq!(run.report.as_text(), HEADER);
}

#[test]
fn decode_failure_aborts_with_nothing_appended() {
    let (mut run, _) = RunState::start(vec!["EPIC-1".to_string()], 2024, 1, 5);
    let (appended, action) = run.on_fetch(FetchOutcome::DecodeFailure);
    assert_eq!(appended, "");
    match action {
        RunAction::Abort(e) => assert_eq!(e, RunError::Decode),
        _ => panic!("expected the decode abort"),
    }
    assert_eq!(run.phase, RunPhase::Aborted);
}

#[test]
fn story_failure_discards_the_rest_of_the_run() {
    let (mut run, _) = RunState::start(vec!["EPIC-1".to_string()], 2024, 1, 5);
    let mut epic = record("EPIC-1", "E", "Done");
    epic.links.push(link("S-1"));
    let (epic_text, _) = run.on_fetch(FetchOutcome::Success(epic));
    let (appended, action) = run.on_fetch(FetchOutcome::TransportFailure);
    assert_eq!(appended, "");
    assert!(matches!(action, RunAction::Abort(RunError::Transport)));
    assert_eq!(run.report.as_text(), format!("{}{}", HEADER, epic_text));
}

#[test]
fn request_url_concatenates_base_and_identifier() {
    assert_eq!(
        request_url("https://tracker.example/rest/api/2/issue/", "PROJ-123"),
        "https://tracker.example/rest/api/2/issue/PROJ-123"
    );
    assert_eq!(request_url("", "K-1"), "K-1");
}

#[test]
fn bearer_token_is_trimmed_before_use() {
    assert_eq!(bearer_token("  abc123\n"), "abc123");
    assert_eq!(bearer_token("token"), "token");
}
