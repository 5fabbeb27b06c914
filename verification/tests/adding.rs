use plugin_index::add::{add_plugin, added_line, parse_reference, AddError, AddOutcome};
use plugin_index::plugin::Plugin;
use plugin_index::repository::Repository;

fn plugin(user: &str, name: &str, stars: u32) -> Plugin {
    Plugin {
        name: name.to_string(),
        created_at: None,
        description: None,
        stars,
        topics: None,
        updated_at: None,
        user: user.to_string(),
        watchers: 0,
    }
}

fn parts(input: &str) -> Option<(String, String)> {
    match parse_reference(input) {
        Ok(Repository { name, user }) => Some((user, name)),
        Err(AddError::Format) => None,
    }
}

#[test]
fn owner_and_name_are_accepted() {
    assert_eq!(parts("foo/bar"), Some(("foo".to_string(), "bar".to_string())));
}

#[test]
fn input_without_a_slash_is_rejected() {
    assert_eq!(parts("foo"), None);
}

#[test]
fn empty_owner_is_rejected() {
    assert_eq!(parts("/bar"), None);
}

#[test]
fn empty_name_is_rejected() {
    assert_eq!(parts("foo/"), None);
}

#[test]
fn three_parts_are_rejected() {
    assert_eq!(parts("foo/bar/baz"), None);
}

#[test]
fn other_malformed_inputs_are_rejected() {
    for input in ["", "/", "//", "foo//bar", "/foo/bar", "foo/bar/"] {
        assert_eq!(parts(input), None, "{:?}", input);
    }
}

#[test]
fn validation_agrees_with_splitting_at_slashes() {
    for input in ["a/b", "a b/c d", " / ", "é/ü", "名前/リポ", "a/b/c", "ab", "a/", "/b", "🎉/x"] {
        let split: Vec<&str> = input.split('/').collect();
        let expected = if split.len() == 2 && !split[0].is_empty() && !split[1].is_empty() {
            Some((split[0].to_string(), split[1].to_string()))
        } else {
            None
        };
        assert_eq!(parts(input), expected, "{:?}", input);
    }
}

#[test]
fn format_error_tells_the_expected_form() {
    assert_eq!(
        AddError::Format.message(),
        "Repository must be in user/repo format (e.g., foo/bar)"
    );
}

#[test]
fn adding_twice_leaves_one_record() {
    let first = match add_plugin(vec![plugin("a", "b", 1)], plugin("foo", "bar", 5)) {
        AddOutcome::Added(plugins) => plugins,
        AddOutcome::AlreadyIndexed => panic!("the first addition must add"),
    };
    assert_eq!(first.len(), 2);
    assert_eq!((first[1].user.as_str(), first[1].name.as_str()), ("foo", "bar"));
    assert_eq!(first[1].stars, 5);
    let kept = first.clone();
    assert!(matches!(add_plugin(first, plugin("foo", "bar", 6)), AddOutcome::AlreadyIndexed));
    let count = kept.iter().filter(|p| p.user == "foo" && p.name == "bar").count();
    assert_eq!(count, 1);
}

#[test]
fn adding_to_an_empty_index_gives_one_record() {
    match add_plugin(Vec::new(), plugin("foo", "bar", 5)) {
        AddOutcome::Added(plugins) => assert_eq!(plugins.len(), 1),
        AddOutcome::AlreadyIndexed => panic!("nothing was indexed"),
    }
}

#[test]
fn added_plugin_is_announced() {
    assert_eq!(added_line(&plugin("foo", "bar", 1)), "🎉 Added plugin `foo/bar`");
}
