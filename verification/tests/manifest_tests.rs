use ganzu::codec::{deserialize, serialize};
use ganzu::file::FileSnapshot;
use ganzu::filter::FilterAction;
use ganzu::manifest::{Doc, FileMatch, Matches, Meta};

const EXAMPLE_META: &str = r#"
meta version="1.0" created="1669472812"
"#;

const EXAMPLE_MANIFEST: &str = r#"
meta version="1.0" created="1669472812"

matches {
  files {
    snapshot \
        input_name="query.graphql" \
        absolute_path="/home/djanatyn/query.graphql" \
        last_mtime="1643587565"
    action {
        move dest="/home/djanatyn/documents"
    }
  }
}
"#;

fn example_doc() -> Doc {
    Doc {
        meta: Meta {
            version: "1.0".to_string(),
            created: 1669472812,
        },
        matches: Matches {
            files: vec![FileMatch {
                snapshot: FileSnapshot::new(
                    "query.graphql".to_string(),
                    "/home/djanatyn/query.graphql".to_string(),
                    1643587565,
                    "text/plain".to_string(),
                ),
                action: FilterAction::Move {
                    dest: "/home/djanatyn/documents".to_string(),
                },
            }],
        },
    }
}

#[test]
fn parse_example_manifest_kdl() {
    deserialize(EXAMPLE_MANIFEST).unwrap();
}

#[test]
fn parse_example_meta() {
    deserialize(EXAMPLE_META).unwrap();
}

#[test]
fn example_manifest_fields_survive_parsing() {
    let doc = deserialize(EXAMPLE_MANIFEST).unwrap();
    assert_eq!(doc.meta.version, "1.0");
    assert_eq!(doc.meta.created, 1669472812);
    assert_eq!(doc.matches.files.len(), 1);
    let entry = &doc.matches.files[0];
    assert_eq!(entry.snapshot.input_name, "query.graphql");
    assert_eq!(entry.snapshot.absolute_path, "/home/djanatyn/query.graphql");
    assert_eq!(entry.snapshot.last_mtime, 1643587565);
    // The example manifest carries no mimetype property.
    assert_eq!(entry.snapshot.mimetype, "");
    assert_eq!(
        entry.action,
        FilterAction::Move {
            dest: "/home/djanatyn/documents".to_string()
        }
    );
}

#[test]
fn meta_only_document_has_no_matches() {
    let doc = deserialize(EXAMPLE_META).unwrap();
    assert_eq!(doc.meta.version, "1.0");
    assert_eq!(doc.meta.created, 1669472812);
    assert_eq!(doc.matches.files.len(), 0);
}

#[test]
fn serialize_empty_manifest_exact_text() {
    let doc = Doc {
        meta: Meta {
            version: "1.0".to_string(),
            created: 5,
        },
        matches: Matches { files: vec![] },
    };
    assert_eq!(serialize(&doc), "meta version=\"1.0\" created=\"5\"\nmatches {\n}\n");
}

#[test]
fn serialize_one_entry_exact_text() {
    let text = serialize(&example_doc());
    let expected = "meta version=\"1.0\" created=\"1669472812\"\nmatches {\nfiles {\nsnapshot input_name=\"query.graphql\" absolute_path=\"/home/djanatyn/query.graphql\" last_mtime=\"1643587565\" mimetype=\"text/plain\"\naction {\nmove dest=\"/home/djanatyn/documents\"\n}\n}\n}\n";
    assert_eq!(text, expected);
}

#[test]
fn round_trip_one_entry() {
    let doc = example_doc();
    let parsed = deserialize(&serialize(&doc)).unwrap();
    assert_eq!(parsed, doc);
}

#[test]
fn round_trip_copy_action_and_negative_mtime() {
    let doc = Doc {
        meta: Meta {
            version: "2.7".to_string(),
            created: u64::MAX,
        },
        matches: Matches {
            files: vec![FileMatch {
                snapshot: FileSnapshot::new(
                    "old file".to_string(),
                    "/data/old file".to_string(),
                    -12345,
                    "application/octet-stream".to_string(),
                ),
                action: FilterAction::Copy {
                    dest: "/backup".to_string(),
                },
            }],
        },
    };
    let parsed = deserialize(&serialize(&doc)).unwrap();
    assert_eq!(parsed, doc);
}

#[test]
fn round_trip_many_entries_keeps_order() {
    let mut files = Vec::new();
    for k in 0..7 {
        files.push(FileMatch {
            snapshot: FileSnapshot::new(
                format!("f{k}"),
                format!("/abs/f{k}"),
                1000 + k as i64,
                "text/plain".to_string(),
            ),
            action: if k % 2 == 0 {
                FilterAction::Move {
                    dest: format!("/dest{k}"),
                }
            } else {
                FilterAction::Copy {
                    dest: format!("/dest{k}"),
                }
            },
        });
    }
    let doc = Doc {
        meta: Meta {
            version: "1.0".to_string(),
            created: 42,
        },
        matches: Matches { files },
    };
    let parsed = deserialize(&serialize(&doc)).unwrap();
    assert_eq!(parsed, doc);
}

#[test]
fn garbage_fails_to_parse() {
    let err = deserialize("no manifest here").unwrap_err();
    assert!(matches!(err, ganzu::error::Error::ManifestParseFailed { .. }));
}

#[test]
fn unterminated_quote_fails_to_parse() {
    let err = deserialize("meta version=\"1.0").unwrap_err();
    assert!(matches!(err, ganzu::error::Error::ManifestParseFailed { .. }));
}

#[test]
fn non_numeric_created_fails_to_parse() {
    let err = deserialize("meta version=\"1.0\" created=\"soon\"\n").unwrap_err();
    assert!(matches!(err, ganzu::error::Error::ManifestParseFailed { .. }));
}

#[test]
fn trailing_tokens_fail_to_parse() {
    let err =
        deserialize("meta version=\"1.0\" created=\"7\"\nmatches {\n}\nextra\n").unwrap_err();
    assert!(matches!(err, ganzu::error::Error::ManifestParseFailed { .. }));
}

#[test]
fn decimal_parsing_exact_values() {
    assert_eq!(ganzu::text::parse_u64("18446744073709551615"), Some(u64::MAX));
    assert_eq!(ganzu::text::parse_u64("18446744073709551616"), None);
    assert_eq!(ganzu::text::parse_u64("0012"), Some(12));
    assert_eq!(ganzu::text::parse_u64(""), None);
    assert_eq!(ganzu::text::parse_u64("1a"), None);
    assert_eq!(ganzu::text::parse_i64("-9223372036854775808"), Some(i64::MIN));
    assert_eq!(ganzu::text::parse_i64("9223372036854775808"), None);
    assert_eq!(ganzu::text::parse_i64("-0"), Some(0));
    assert_eq!(ganzu::text::u64_to_string(0), "0");
    assert_eq!(ganzu::text::u64_to_string(1669472812), "1669472812");
    assert_eq!(ganzu::text::i64_to_string(-42), "-42");
}

#[test]
fn serializability_check_flags_quotes() {
    let good = example_doc();
    assert!(good.check_serializable());
    let mut bad = example_doc();
    bad.matches.files[0].snapshot.input_name = "a\"b".to_string();
    assert!(!bad.check_serializable());
    let mut bad_meta = example_doc();
    bad_meta.meta.version = "1\"0".to_string();
    assert!(!bad_meta.check_serializable());
}

#[test]
fn format_version_is_stable() {
    assert_eq!(ganzu::format_version(), "1.0");
}
