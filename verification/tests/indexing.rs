use plugin_index::index::{merge_references, IndexRun, Report};
use plugin_index::plugin::{
    contains_plugin, EnrichError, EnrichFailure, Plugin, RepositoryMetadata,
};
use plugin_index::reference_set::ReferenceSet;
use plugin_index::repository::Repository;

fn reference(user: &str, name: &str) -> Repository {
    Repository { name: name.to_string(), user: user.to_string() }
}

fn plugin(user: &str, name: &str, stars: u32) -> Plugin {
    Plugin {
        name: name.to_string(),
        created_at: None,
        description: None,
        stars,
        topics: None,
        updated_at: None,
        user: user.to_string(),
        watchers: 0,
    }
}

fn metadata(name: &str) -> RepositoryMetadata {
    RepositoryMetadata {
        name: name.to_string(),
        description: None,
        topics: None,
        created_at: None,
        updated_at: None,
        stargazers_count: None,
        subscribers_count: None,
    }
}

fn pairs(references: &[Repository]) -> Vec<(String, String)> {
    references.iter().map(|r| (r.user.clone(), r.name.clone())).collect()
}

fn pair(user: &str, name: &str) -> (String, String) {
    (user.to_string(), name.to_string())
}

fn failure(reference: &Repository, message: &str) -> EnrichError {
    EnrichError::fetch(reference, message.to_string())
}

#[test]
fn merge_keeps_entries_that_the_scrape_lacks() {
    let scraped = ReferenceSet::from_sequence(vec![reference("foo", "bar"), reference("a", "b")]);
    let existing = vec![plugin("ownerX", "nameX", 3), plugin("foo", "bar", 9)];
    let all = merge_references(scraped, &existing);
    assert!(all.contains(&reference("ownerX", "nameX")));
    assert_eq!(
        pairs(&all.into_vec()),
        vec![pair("foo", "bar"), pair("a", "b"), pair("ownerX", "nameX")]
    );
}

#[test]
fn merge_with_an_empty_index_is_the_scrape() {
    let scraped = ReferenceSet::from_sequence(vec![reference("foo", "bar")]);
    let all = merge_references(scraped, &Vec::new());
    assert_eq!(pairs(&all.into_vec()), vec![pair("foo", "bar")]);
}

#[test]
fn merge_adds_a_repeated_existing_entry_once() {
    let existing = vec![plugin("x", "y", 1), plugin("x", "y", 2)];
    let all = merge_references(ReferenceSet::new(), &existing);
    assert_eq!(pairs(&all.into_vec()), vec![pair("x", "y")]);
}

#[test]
fn plugin_turns_into_its_reference() {
    let made: Repository = plugin("foo", "bar", 1).into();
    assert_eq!(made, reference("foo", "bar"));
}

#[test]
fn plugins_are_equal_by_owner_and_name() {
    assert_eq!(plugin("foo", "bar", 1), plugin("foo", "bar", 200));
    assert_ne!(plugin("foo", "bar", 1), plugin("foo", "baz", 1));
    assert_ne!(plugin("foo", "bar", 1), plugin("Foo", "bar", 1));
    let plugins = vec![plugin("a", "b", 0), plugin("foo", "bar", 1)];
    assert!(contains_plugin(&plugins, &plugin("foo", "bar", 7)));
    assert!(!contains_plugin(&plugins, &plugin("bar", "foo", 1)));
}

#[test]
fn two_answers_with_one_identity_leave_one_record() {
    let references =
        ReferenceSet::from_sequence(vec![reference("foo", "Bar"), reference("foo", "bar")]);
    let mut run = IndexRun::new(references);
    let first = run.next_reference().unwrap();
    assert_eq!(first, reference("foo", "Bar"));
    let made = Plugin::from_metadata(first, metadata("bar")).unwrap();
    assert!(matches!(
        run.record(Ok(made)),
        Report::Indexed { user, name } if user == "foo" && name == "bar"
    ));
    let second = run.next_reference().unwrap();
    let made = Plugin::from_metadata(second, metadata("bar")).unwrap();
    assert!(matches!(run.record(Ok(made)), Report::Duplicate));
    assert_eq!(run.next_reference(), None);
    let plugins = run.into_plugins();
    assert_eq!(plugins.len(), 1);
    assert_eq!(plugins[0].user, "foo");
    assert_eq!(plugins[0].name, "bar");
}

#[test]
fn one_failed_lookup_does_not_end_the_run() {
    let references = ReferenceSet::from_sequence(vec![
        reference("a", "one"),
        reference("b", "two"),
        reference("c", "three"),
    ]);
    let mut run = IndexRun::new(references);
    let mut lines = Vec::new();
    while let Some(next) = run.next_reference() {
        let outcome = if next.user == "b" {
            Err(failure(&next, "Not Found"))
        } else {
            Plugin::from_metadata(next.clone(), metadata(&next.name))
        };
        lines.push(run.record(outcome).line());
    }
    assert_eq!(
        lines,
        vec![
            Some("✓ a/one".to_string()),
            Some("𐄂 b/two: Not Found".to_string()),
            Some("✓ c/three".to_string()),
        ]
    );
    let plugins = run.into_plugins();
    assert_eq!(plugins.len(), 2);
    assert_eq!((plugins[0].user.as_str(), plugins[0].name.as_str()), ("a", "one"));
    assert_eq!((plugins[1].user.as_str(), plugins[1].name.as_str()), ("c", "three"));
}

#[test]
fn outcome_without_a_pending_reference_is_ignored() {
    let mut run = IndexRun::new(ReferenceSet::new());
    assert_eq!(run.next_reference(), None);
    let report = run.record(Ok(plugin("foo", "bar", 1)));
    assert!(matches!(report, Report::Idle));
    assert_eq!(report.line(), None);
    assert_eq!(run.into_plugins().len(), 0);
}

#[test]
fn duplicate_is_reported_in_silence() {
    assert_eq!(Report::Duplicate.line(), None);
}

#[test]
fn failure_is_reported_with_the_reference() {
    let references = ReferenceSet::from_sequence(vec![reference("foo", "bar")]);
    let mut run = IndexRun::new(references);
    let error = EnrichError {
        user: "other".to_string(),
        name: "tag".to_string(),
        failure: EnrichFailure::WatchersOutOfRange,
    };
    let report = run.record(Err(error));
    assert_eq!(
        report.line(),
        Some("𐄂 foo/bar: out of range integral type conversion attempted".to_string())
    );
}

#[test]
fn missing_counts_become_zero() {
    let made = Plugin::from_metadata(reference("foo", "bar"), metadata("bar")).unwrap();
    assert_eq!(made.stars, 0);
    assert_eq!(made.watchers, 0);
    assert_eq!(made.description, None);
    assert_eq!(made.topics, None);
    assert_eq!(made.created_at, None);
    assert_eq!(made.updated_at, None);
}

#[test]
fn record_takes_the_name_of_the_answer_and_the_owner_of_the_reference() {
    let answer = RepositoryMetadata {
        name: "Bar.nvim".to_string(),
        description: Some("a plugin".to_string()),
        topics: Some(vec!["neovim".to_string(), "lua".to_string()]),
        created_at: Some("2020-01-02T03:04:05Z".to_string()),
        updated_at: Some("2024-05-06T07:08:09Z".to_string()),
        stargazers_count: Some(42),
        subscribers_count: Some(7),
    };
    let made = Plugin::from_metadata(reference("foo", "bar.nvim"), answer).unwrap();
    assert_eq!(made.name, "Bar.nvim");
    assert_eq!(made.user, "foo");
    assert_eq!(made.description, Some("a plugin".to_string()));
    assert_eq!(made.topics, Some(vec!["neovim".to_string(), "lua".to_string()]));
    assert_eq!(made.created_at, Some("2020-01-02T03:04:05Z".to_string()));
    assert_eq!(made.updated_at, Some("2024-05-06T07:08:09Z".to_string()));
    assert_eq!(made.stars, 42);
    assert_eq!(made.watchers, 7);
}

#[test]
fn subscriber_count_outside_the_record_is_an_error() {
    for count in [-1i64, i64::MIN, 4_294_967_296, i64::MAX] {
        let mut answer = metadata("bar");
        answer.subscribers_count = Some(count);
        let error = Plugin::from_metadata(reference("foo", "bar"), answer).unwrap_err();
        assert_eq!(error.user, "foo");
        assert_eq!(error.name, "bar");
        assert!(matches!(error.failure, EnrichFailure::WatchersOutOfRange));
        assert_eq!(error.message(), "out of range integral type conversion attempted");
        assert_eq!(error.message(), u32::try_from(count).unwrap_err().to_string());
    }
}

#[test]
fn subscriber_count_at_the_bounds_fits() {
    for (count, watchers) in [(0i64, 0u32), (4_294_967_295, u32::MAX)] {
        let mut answer = metadata("bar");
        answer.subscribers_count = Some(count);
        let made = Plugin::from_metadata(reference("foo", "bar"), answer).unwrap();
        assert_eq!(made.watchers, watchers);
    }
}

#[test]
fn fetch_error_carries_the_reference_and_the_message() {
    let error = failure(&reference("foo", "bar"), "GitHub: Not Found");
    assert_eq!(error.user, "foo");
    assert_eq!(error.name, "bar");
    assert_eq!(error.message(), "GitHub: Not Found");
}
