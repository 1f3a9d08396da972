use otpc::candidates::{path_completion_candidates, CompletionCandidate, DirectoryEntry};
use otpc::completion::{
    completion_query, cycle_path_completion, listing_needed, offer_candidates, uncuttable,
    CompletionQuery, CompletionStep, PathCompletion,
};
use std::path::Path;
use tui_input::Input;

fn entries(names: &[&str]) -> Vec<DirectoryEntry> {
    names
        .iter()
        .map(|name| DirectoryEntry {
            name: name.trim_end_matches('/').to_owned(),
            is_directory: name.ends_with('/'),
        })
        .collect()
}

fn project() -> Vec<DirectoryEntry> {
    entries(&["src/", "Cargo.toml", ".git/", "Cargo.lock", "README.md", ".gitignore"])
}

/// Takes a step, listing `listing` where a listing is asked for.
fn step(
    input: &mut Input,
    completion: &mut Option<PathCompletion>,
    backwards: bool,
    listing: &Vec<DirectoryEntry>,
) -> Option<String> {
    match cycle_path_completion(input, completion, backwards) {
        CompletionStep::Done(message) => message,
        CompletionStep::List(query) => {
            let candidates = path_completion_candidates(&query, listing);
            offer_candidates(input, completion, backwards, candidates)
        }
    }
}

fn query(text: &str, cursor: usize) -> Option<CompletionQuery> {
    completion_query(&Input::new(text.to_owned()).with_cursor(cursor))
}

fn values(candidates: &[CompletionCandidate]) -> Vec<&str> {
    candidates.iter().map(|candidate| candidate.value.as_str()).collect()
}

#[test]
fn completes_and_cycles_path_matches() {
    let manifest_dir = "/work/otpc";
    let mut input = Input::new(format!("{manifest_dir}/Cargo."));
    let mut completion = None;

    let message = step(&mut input, &mut completion, false, &project());

    assert!(message.is_some());
    assert_eq!(input.value(), format!("{manifest_dir}/Cargo.lock"));

    step(&mut input, &mut completion, false, &project());
    assert_eq!(input.value(), format!("{manifest_dir}/Cargo.toml"));

    step(&mut input, &mut completion, false, &project());
    assert_eq!(input.value(), format!("{manifest_dir}/Cargo.lock"));
}

#[test]
fn completes_at_the_cursor_without_discarding_the_suffix() {
    let manifest_dir = "/work/otpc";
    let prefix = format!("{manifest_dir}/Cargo.");
    let mut input = Input::new(format!("{prefix}suffix")).with_cursor(prefix.chars().count());
    let mut completion = None;

    step(&mut input, &mut completion, false, &project());

    assert_eq!(input.value(), format!("{manifest_dir}/Cargo.locksuffix"));
    assert_eq!(input.cursor(), format!("{manifest_dir}/Cargo.lock").chars().count());
}

#[test]
fn matches_are_counted_and_gone_through_in_both_directions() {
    let mut input = Input::new("Cargo".to_owned());
    let mut completion = None;
    assert_eq!(
        step(&mut input, &mut completion, true, &project()),
        Some("Path match 2/2".to_owned())
    );
    assert_eq!(input.value(), "Cargo.toml");
    assert_eq!(
        step(&mut input, &mut completion, true, &project()),
        Some("Path match 1/2".to_owned())
    );
    assert_eq!(input.value(), "Cargo.lock");
    step(&mut input, &mut completion, true, &project());
    assert_eq!(input.value(), "Cargo.toml");
    step(&mut input, &mut completion, false, &project());
    assert_eq!(input.value(), "Cargo.lock");
    step(&mut input, &mut completion, false, &project());
    assert_eq!(input.value(), "Cargo.toml");
}

#[test]
fn a_whole_round_leads_back_in_both_directions() {
    let listing = entries(&["a1", "a2", "a3"]);
    for (backwards, shown) in [
        (false, ["a2", "a3", "a1"]),
        (true, ["a3", "a2", "a1"]),
    ] {
        let mut input = Input::new("a".to_owned());
        let mut completion = None;
        step(&mut input, &mut completion, false, &listing);
        assert_eq!(input.value(), "a1");
        for value in shown {
            step(&mut input, &mut completion, backwards, &listing);
            assert_eq!(input.value(), value);
        }
    }
}

#[test]
fn nothing_matches() {
    let mut input = Input::new("/work/x".to_owned());
    let mut completion = None;
    assert_eq!(step(&mut input, &mut completion, false, &project()), None);
    assert!(completion.is_none());
    assert_eq!(input.value(), "/work/x");
}

#[test]
fn a_url_is_no_path() {
    let mut input = Input::new("otpauth://totp/".to_owned());
    let mut completion = None;
    assert!(matches!(
        cycle_path_completion(&mut input, &mut completion, false),
        CompletionStep::Done(None)
    ));
    assert!(query("otpauth-migration://offline", 27).is_none());
    assert!(query("otpauth-migration://offline", 5).is_some());
}

#[test]
fn the_only_match_is_entered() {
    let mut input = Input::new("s".to_owned());
    let mut completion = None;
    step(&mut input, &mut completion, false, &project());
    assert_eq!(input.value(), "src/");
    assert!(listing_needed(&input, &completion));
    match cycle_path_completion(&mut input, &mut completion, false) {
        CompletionStep::List(query) => assert_eq!(query.directory, "src/"),
        CompletionStep::Done(_) => panic!("the directory was not entered"),
    }
    assert_eq!(
        step(&mut input, &mut completion, false, &entries(&["main.rs", "app/"])),
        Some("Path match 1/2".to_owned())
    );
    assert_eq!(input.value(), "src/app/");
    assert!(!listing_needed(&input, &completion));
}

#[test]
fn the_only_match_is_not_entered_before_a_suffix() {
    let mut input = Input::new("sx".to_owned()).with_cursor(1);
    let mut completion = None;
    step(&mut input, &mut completion, false, &project());
    assert_eq!(input.value(), "src/x");
    assert_eq!(input.cursor(), 4);
    assert!(!listing_needed(&input, &completion));
    assert_eq!(
        step(&mut input, &mut completion, false, &project()),
        Some("Path match 1/1".to_owned())
    );
}

#[test]
fn hidden_names_are_offered_only_when_asked_for() {
    let all = query("", 0).unwrap();
    assert_eq!(
        values(&path_completion_candidates(&all, &project())),
        vec!["Cargo.lock", "Cargo.toml", "README.md", "src/"]
    );
    let hidden = query("x/.g", 4).unwrap();
    assert_eq!(
        values(&path_completion_candidates(&hidden, &project())),
        vec!["x/.git/", "x/.gitignore"]
    );
    assert!(hidden.accepts(".gitignore"));
    assert!(!hidden.accepts("git"));
    assert!(!all.accepts(".gitignore"));
}

#[test]
fn candidates_come_in_alphabetical_order() {
    let all = query("", 0).unwrap();
    let listing = entries(&["b", "a/", "ab", "B", "a", "ä", "z", ""]);
    assert_eq!(
        values(&path_completion_candidates(&all, &listing)),
        vec!["", "B", "a", "a/", "ab", "b", "z", "ä"]
    );
    let candidate = all.candidate(&listing[1]);
    assert_eq!((candidate.value.as_str(), candidate.cursor), ("a/", 2));
}

#[test]
fn queries_follow_the_rules_of_paths() {
    let texts = [
        "a", "/a", "//a", "a/b", "a//b", "a/./b", "./a", "././a", ".", "./.", "..", "a/..", "/..",
        "~", "~/a", "~/a/b", "/", "a/", "/a/b/", "ab/.", "a/b/.", "a/bc/./.", "ä/ö", "x/é",
        "...", "a/...", "/.", "a b/c d", ".hidden", "a/.h",
    ];
    for text in texts {
        let found = query(text, text.chars().count()).unwrap();
        let path = Path::new(text);
        let (directory, prefix, base) = if text.ends_with('/') {
            (path, "", text)
        } else {
            let prefix = path.file_name().and_then(|name| name.to_str()).unwrap_or("");
            let directory = path
                .parent()
                .filter(|parent| !parent.as_os_str().is_empty())
                .unwrap_or_else(|| Path::new("."));
            (directory, prefix, &text[..text.len().saturating_sub(prefix.len())])
        };
        assert_eq!(found.directory, directory.to_str().unwrap(), "directory of {text:?}");
        assert_eq!(found.prefix, prefix, "prefix of {text:?}");
        assert_eq!(found.base, base, "base of {text:?}");
        assert_eq!(found.after, "", "after {text:?}");
    }
    let found = query("", 0).unwrap();
    assert_eq!(
        (found.directory.as_str(), found.prefix.as_str(), found.base.as_str()),
        (".", "", "")
    );
    let found = query("äö/xyz", 4).unwrap();
    assert_eq!(
        (found.directory.as_str(), found.prefix.as_str(), found.base.as_str(), found.after.as_str()),
        ("äö", "x", "äö/", "yz")
    );
}

#[test]
fn a_cut_inside_a_character_is_found_out() {
    let inside = Input::new("aéb/.".to_owned());
    assert!(uncuttable(&inside));
    assert!(!uncuttable(&inside.clone().with_cursor(4)));
    assert!(!uncuttable(&Input::new("aéb".to_owned())));
    assert!(!uncuttable(&Input::new("ab/.".to_owned())));
    assert!(!uncuttable(&Input::new(String::new())));
    assert!(!uncuttable(&Input::new("otpauth://é/.".to_owned())));
}
