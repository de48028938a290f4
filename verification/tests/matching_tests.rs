use ganzu::config::Config;
use ganzu::error::Error;
use ganzu::file::FileSnapshot;
use ganzu::filter::{ApplyOp, Filter, FilterAction};
use ganzu::rule::Rule;

fn snap(path: &str, mime: &str) -> FileSnapshot {
    FileSnapshot::new(path.to_string(), path.to_string(), 1000, mime.to_string())
}

fn move_rule(mime: &str, dest: &str) -> Rule {
    Rule {
        filters: vec![Filter::Mimetype(mime.to_string())],
        action: FilterAction::Move {
            dest: dest.to_string(),
        },
    }
}

#[test]
fn mimetype_filter_is_exact_equality() {
    let f = Filter::Mimetype("image/png".to_string());
    assert!(f.check(&snap("/a/photo", "image/png")));
    assert!(!f.check(&snap("/a/photo", "image/jpeg")));
    assert!(!f.check(&snap("/a/photo", "image/pngx")));
}

#[test]
fn regex_filter_matches_substring_of_path() {
    let f = Filter::Regex("query".to_string());
    assert!(f.check(&snap("/home/djanatyn/query.graphql", "text/plain")));
    assert!(!f.check(&snap("/home/djanatyn/other.txt", "text/plain")));
    // The empty pattern matches every path.
    let empty = Filter::Regex(String::new());
    assert!(empty.check(&snap("/anything", "text/plain")));
}

#[test]
fn rule_check_returns_first_matching_filter() {
    let rule = Rule {
        filters: vec![
            Filter::Mimetype("image/png".to_string()),
            Filter::Regex("doc".to_string()),
            Filter::Regex("".to_string()),
        ],
        action: FilterAction::Move {
            dest: "/dest".to_string(),
        },
    };
    // The second filter is the first that matches this snapshot.
    let got = rule.check(&snap("/docs/a.txt", "text/plain")).unwrap();
    assert_eq!(got, Filter::Regex("doc".to_string()));
    // No filter matches a snapshot that dodges all three? The empty regex
    // always matches, so every snapshot matches this rule.
    assert!(rule.check(&snap("/x", "text/plain")).is_some());
}

#[test]
fn rule_check_returns_none_when_nothing_matches() {
    let rule = move_rule("image/png", "/images");
    assert!(rule.check(&snap("/a.txt", "text/plain")).is_none());
}

#[test]
fn first_match_wins_across_rules() {
    // Rule A and rule B both match image/png; rule A comes first.
    let config = Config {
        rules: vec![move_rule("image/png", "/a-dest"), move_rule("image/png", "/b-dest")],
    };
    let (idx, filter) = config.check(&snap("/p.png", "image/png")).unwrap();
    assert_eq!(idx, 0);
    assert_eq!(filter, Filter::Mimetype("image/png".to_string()));
    assert_eq!(
        config.rules[idx].action,
        FilterAction::Move {
            dest: "/a-dest".to_string()
        }
    );
}

#[test]
fn at_most_one_match_per_snapshot() {
    let config = Config {
        rules: vec![
            move_rule("text/plain", "/t"),
            move_rule("image/png", "/i"),
            move_rule("text/plain", "/t2"),
        ],
    };
    // Exactly one (rule, filter) pair comes back, from the earliest rule.
    let (idx, _) = config.check(&snap("/n", "text/plain")).unwrap();
    assert_eq!(idx, 0);
    let (idx2, _) = config.check(&snap("/n", "image/png")).unwrap();
    assert_eq!(idx2, 1);
    assert!(config.check(&snap("/n", "application/zip")).is_none());
}

#[test]
fn example_config_contents() {
    let c = ganzu::example::config();
    assert_eq!(c.rules.len(), 3);
    assert_eq!(c.rules[0].filters.len(), 5);
    assert_eq!(c.rules[0].filters[0], Filter::Mimetype("image/png".to_string()));
    assert_eq!(
        c.rules[0].action,
        FilterAction::Move {
            dest: "/home/djanatyn/images".to_string()
        }
    );
    assert_eq!(c.rules[1].filters.len(), 2);
    assert_eq!(c.rules[2].filters.len(), 1);
    assert_eq!(c.rules[2].filters[0], Filter::Mimetype("application/zip".to_string()));
    // The example destinations are valid, so the set validates.
    assert!(c.validate().is_ok());
}

#[test]
fn example_config_routes_a_png() {
    let c = ganzu::example::config();
    let (idx, filter) = c.check(&snap("/pic.png", "image/png")).unwrap();
    assert_eq!(idx, 0);
    assert_eq!(filter, Filter::Mimetype("image/png".to_string()));
}

#[test]
fn validate_rejects_empty_destination() {
    let config = Config {
        rules: vec![move_rule("a/b", "/ok"), move_rule("c/d", "")],
    };
    let err = config.validate().unwrap_err();
    match err {
        Error::InvalidDestination { dest } => assert_eq!(dest, ""),
        other => panic!("unexpected error: {other:?}"),
    }
}

#[test]
fn validate_rejects_nul_in_destination() {
    let config = Config {
        rules: vec![move_rule("a/b", "/bad\0path")],
    };
    assert!(matches!(config.validate(), Err(Error::InvalidDestination { .. })));
}

#[test]
fn apply_names_source_and_destination() {
    let action = FilterAction::Move {
        dest: "/images".to_string(),
    };
    let op = action.apply(snap("/home/me/p.png", "image/png"));
    assert_eq!(
        op,
        ApplyOp::MoveFile {
            source: "/home/me/p.png".to_string(),
            dest_dir: "/images".to_string(),
        }
    );
    let copy = FilterAction::Copy {
        dest: "/backup".to_string(),
    };
    let op2 = copy.apply(snap("/home/me/p.png", "image/png"));
    assert_eq!(
        op2,
        ApplyOp::CopyFile {
            source: "/home/me/p.png".to_string(),
            dest_dir: "/backup".to_string(),
        }
    );
}

#[test]
fn substring_search_edges() {
    assert!(ganzu::text::str_contains("abc", ""));
    assert!(ganzu::text::str_contains("abc", "bc"));
    assert!(ganzu::text::str_contains("abc", "abc"));
    assert!(!ganzu::text::str_contains("abc", "ac"));
    assert!(!ganzu::text::str_contains("ab", "abc"));
}
