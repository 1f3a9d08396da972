use otpc::paths::{expand_home_from, find_home_suffix, find_last_component};
use std::path::Path;

#[test]
fn expands_a_leading_tilde_path_component() {
    let home = "/Users/test";

    assert_eq!(
        expand_home_from("~/Downloads/authenticator.png", home),
        "/Users/test/Downloads/authenticator.png"
    );
    assert_eq!(expand_home_from("~other/authenticator.png", home), "~other/authenticator.png");
}

#[test]
fn expansion_follows_the_rules_of_paths() {
    let paths = [
        "", "~", "~/", "~//", "~/.", "~/./", "~/./a", "~//a//b/", "~/a/./b", "~/a/..", "~/..",
        "~/a/.", "~a", "/~", "./~", "a/~", "/", "x", "~/ä/ö", "~/~", "~/ ",
    ];
    for home in ["/Users/test", "/Users/test/", "/", "relative", ""] {
        for path in paths {
            let expected = match Path::new(path).strip_prefix("~") {
                Ok(suffix) => Path::new(home).join(suffix),
                Err(_) => Path::new(path).to_owned(),
            };
            assert_eq!(
                expand_home_from(path, home),
                expected.to_str().unwrap(),
                "{path:?} in {home:?}"
            );
            assert_eq!(
                find_home_suffix(path),
                Path::new(path)
                    .strip_prefix("~")
                    .ok()
                    .map(|suffix| suffix.to_str().unwrap().to_owned()),
                "{path:?}"
            );
        }
    }
}

#[test]
fn expanding_twice_is_expanding_once() {
    for path in ["~", "~/a", "b", "/c/~"] {
        let once = expand_home_from(path, "/home/me");
        assert_eq!(expand_home_from(&once, "/home/me"), once);
    }
}

#[test]
fn last_components_are_found() {
    for (path, expected) in [
        ("", None),
        ("/", None),
        (".", None),
        ("a", Some((0, 1))),
        ("a/", Some((0, 1))),
        ("/ab//cd/./", Some((5, 7))),
        ("a/..", Some((2, 4))),
    ] {
        let chars: Vec<char> = path.chars().collect();
        assert_eq!(find_last_component(&chars, chars.len()), expected, "{path:?}");
    }
}
