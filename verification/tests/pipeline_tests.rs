use ganzu::config::Config;
use ganzu::error::{Error, OsError};
use ganzu::execute::{
    cross_device_conclude, entry_status, reverify, CopyPhase, Decision, DoReport, EntryStatus,
    MoveConclusion,
};
use ganzu::file::FileSnapshot;
use ganzu::filter::{Filter, FilterAction};
use ganzu::plan::{plan, Probe};
use ganzu::rule::Rule;

fn snap(name: &str, path: &str, mtime: i64, mime: &str) -> FileSnapshot {
    FileSnapshot::new(name.to_string(), path.to_string(), mtime, mime.to_string())
}

fn os_err(code: i32) -> OsError {
    OsError {
        code,
        message: "simulated".to_string(),
    }
}

fn png_config(dest: &str) -> Config {
    Config {
        rules: vec![Rule {
            filters: vec![Filter::Mimetype("image/png".to_string())],
            action: FilterAction::Move {
                dest: dest.to_string(),
            },
        }],
    }
}

#[test]
fn plan_concrete_scenario_one_png() {
    // One rule moving PNG files, one path resolving to a PNG file.
    let config = png_config("/archive/images");
    let s = snap("photo.png", "/home/me/photo.png", 777, "image/png");
    let probes = vec![Probe::Probed(s.clone())];
    let (doc, report) = plan(&probes, &config, "1.0".to_string(), 1700000000).unwrap();
    assert_eq!(doc.matches.files.len(), 1);
    assert_eq!(doc.matches.files[0].snapshot, s);
    assert_eq!(
        doc.matches.files[0].action,
        FilterAction::Move {
            dest: "/archive/images".to_string()
        }
    );
    assert_eq!(report.probed_ok, 1);
    assert_eq!(report.probe_failed, 0);
    assert_eq!(report.matched, 1);
    assert_eq!(report.unmatched, 0);

    // The Do run with the file unchanged: the entry is applied.
    let entry = &doc.matches.files[0];
    let fresh = snap("photo.png", "/home/me/photo.png", 777, "image/png");
    let d = reverify(&entry.snapshot, Ok(fresh));
    assert_eq!(d, Decision::Proceed);
    let status = entry_status(d, Some(Ok(())));
    assert_eq!(status, EntryStatus::Applied);
    let mut report = DoReport::new();
    report.record(status);
    assert_eq!(report.applied, 1);
    assert_eq!(report.skipped_stale, 0);
    assert_eq!(report.failed, 0);
}

#[test]
fn plan_is_idempotent_up_to_created() {
    let config = png_config("/img");
    let probes = vec![
        Probe::Probed(snap("a.png", "/a.png", 1, "image/png")),
        Probe::Probed(snap("b.txt", "/b.txt", 2, "text/plain")),
    ];
    let (d1, r1) = plan(&probes, &config, "1.0".to_string(), 100).unwrap();
    let (d2, r2) = plan(&probes, &config, "1.0".to_string(), 999).unwrap();
    assert_eq!(d1.matches, d2.matches);
    assert_eq!(d1.meta.version, d2.meta.version);
    assert_ne!(d1.meta.created, d2.meta.created);
    assert_eq!(r1, r2);
}

#[test]
fn plan_survives_partial_probe_failure() {
    // Ten candidate paths, two of which do not exist.
    let config = Config {
        rules: vec![Rule {
            filters: vec![Filter::Mimetype("text/plain".to_string())],
            action: FilterAction::Copy {
                dest: "/texts".to_string(),
            },
        }],
    };
    let mut probes = Vec::new();
    for k in 0..10 {
        if k == 3 || k == 7 {
            probes.push(Probe::ProbeFailed {
                input_name: format!("missing{k}"),
                error: Error::CanonicalizeFailed(os_err(2)),
            });
        } else {
            probes.push(Probe::Probed(snap(
                &format!("f{k}"),
                &format!("/abs/f{k}"),
                k as i64,
                "text/plain",
            )));
        }
    }
    let (doc, report) = plan(&probes, &config, "1.0".to_string(), 1).unwrap();
    assert_eq!(report.probed_ok, 8);
    assert_eq!(report.probe_failed, 2);
    assert_eq!(report.matched, 8);
    assert_eq!(doc.matches.files.len(), 8);
    // Every manifest entry derives from a successfully probed snapshot.
    for entry in &doc.matches.files {
        assert!(!entry.snapshot.input_name.starts_with("missing"));
    }
}

#[test]
fn plan_fails_fast_on_invalid_config() {
    let config = png_config("");
    let probes = vec![Probe::Probed(snap("a.png", "/a.png", 1, "image/png"))];
    let err = plan(&probes, &config, "1.0".to_string(), 1).unwrap_err();
    assert!(matches!(err, Error::InvalidDestination { .. }));
}

#[test]
fn staleness_guard_blocks_changed_file() {
    let recorded = snap("a", "/a", 1000, "text/plain");
    // Modification time changed after planning.
    let fresh = snap("a", "/a", 1001, "text/plain");
    let d = reverify(&recorded, Ok(fresh));
    assert_eq!(d, Decision::Stale);
    assert_eq!(entry_status(d, None), EntryStatus::SkippedStale);
}

#[test]
fn staleness_guard_blocks_changed_mimetype_or_path() {
    let recorded = snap("a", "/a", 1000, "text/plain");
    let changed_mime = snap("a", "/a", 1000, "application/zip");
    assert_eq!(reverify(&recorded, Ok(changed_mime)), Decision::Stale);
    let moved = snap("a", "/elsewhere/a", 1000, "text/plain");
    assert_eq!(reverify(&recorded, Ok(moved)), Decision::Stale);
    // A path that no longer resolves is staleness, not failure.
    let gone = Err(Error::CanonicalizeFailed(os_err(2)));
    assert_eq!(reverify(&recorded, gone), Decision::Stale);
}

#[test]
fn stat_failure_fails_the_entry() {
    let recorded = snap("a", "/a", 1000, "text/plain");
    let broken = Err(Error::StatFailed {
        path: "/a".to_string(),
        error: os_err(5),
    });
    let d = reverify(&recorded, broken);
    assert!(matches!(d, Decision::RecaptureFailed(Error::StatFailed { .. })));
}

#[test]
fn recapture_failure_fails_the_entry() {
    let recorded = snap("a", "/a", 1000, "text/plain");
    let denied = Err(Error::OpenFailed {
        path: "/a".to_string(),
        error: os_err(13),
    });
    let d = reverify(&recorded, denied.clone());
    assert_eq!(d, Decision::RecaptureFailed(denied.unwrap_err()));
    let status = entry_status(d, None);
    match status {
        EntryStatus::Failed(Error::OpenFailed { path, error }) => {
            assert_eq!(path, "/a");
            assert_eq!(error.code, 13);
        }
        other => panic!("unexpected status: {other:?}"),
    }
}

#[test]
fn unchanged_identity_proceeds() {
    let recorded = snap("a", "/a", 1000, "text/plain");
    let fresh = snap("re-read under another name", "/a", 1000, "text/plain");
    // The input name takes no part in identity.
    assert_eq!(reverify(&recorded, Ok(fresh)), Decision::Proceed);
}

#[test]
fn cross_device_move_failure_keeps_source() {
    let source = "/mnt/a/file".to_string();
    // A copy-phase failure never releases the source for deletion.
    let c = cross_device_conclude(&source, CopyPhase::CopyFailed(os_err(5)));
    match c {
        MoveConclusion::KeepSource(Error::ApplyFailed { path, error }) => {
            assert_eq!(path, "/mnt/a/file");
            assert_eq!(error.code, 5);
        }
        other => panic!("unexpected conclusion: {other:?}"),
    }
    let m = cross_device_conclude(&source, CopyPhase::VerifyMismatch);
    assert!(matches!(m, MoveConclusion::KeepSource(_)));
    // Only a verified copy releases the source.
    let ok = cross_device_conclude(&source, CopyPhase::CopiedVerified);
    assert_eq!(ok, MoveConclusion::RemoveSource);
}

#[test]
fn do_report_partitions_entries() {
    let mut report = DoReport::new();
    report.record(EntryStatus::Applied);
    report.record(EntryStatus::SkippedStale);
    report.record(EntryStatus::Failed(Error::ApplyFailed {
        path: "/x".to_string(),
        error: os_err(1),
    }));
    report.record(EntryStatus::Applied);
    assert_eq!(report.applied, 2);
    assert_eq!(report.skipped_stale, 1);
    assert_eq!(report.failed, 1);
    assert_eq!(report.statuses.len(), 4);
}

#[test]
fn apply_error_fails_entry_without_halting_batch() {
    let d = Decision::Proceed;
    let status = entry_status(
        d,
        Some(Err(Error::ApplyFailed {
            path: "/x".to_string(),
            error: os_err(28),
        })),
    );
    assert!(matches!(status, EntryStatus::Failed(_)));
    // The batch simply keeps recording further entries.
    let mut report = DoReport::new();
    report.record(status);
    report.record(EntryStatus::Applied);
    assert_eq!(report.failed, 1);
    assert_eq!(report.applied, 1);
}

#[test]
fn planned_manifest_round_trips_through_text() {
    let config = png_config("/archive/images");
    let probes = vec![
        Probe::Probed(snap("p.png", "/p.png", 10, "image/png")),
        Probe::Probed(snap("q.png", "/q.png", 20, "image/png")),
    ];
    let (doc, _) = plan(&probes, &config, "1.0".to_string(), 123).unwrap();
    let parsed = ganzu::codec::deserialize(&ganzu::codec::serialize(&doc)).unwrap();
    assert_eq!(parsed, doc);
}
