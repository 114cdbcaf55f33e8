use boinc::error::ConversionError;
use boinc::format::Format;
use boinc::history::{append_capped, HistoryEntry, MAX_ENTRIES};
use boinc::registry::ConverterRegistry;
use boinc::settings::Settings;
use boinc::state::{apply, make_pick, next_queued, progress_width, upsert_pick, JobStatus, PendingPick, WorkerCmd};

#[test]
fn enqueue_and_cancel() {
    let mut jobs = Vec::new();
    let mut next_id = 1u64;
    apply(&mut jobs, &mut next_id, WorkerCmd::Enqueue { input: "/a.png".into(), to: Format::Jpg });
    apply(&mut jobs, &mut next_id, WorkerCmd::Enqueue { input: "/b.png".into(), to: Format::Svg });
    assert_eq!(next_id, 3);
    assert_eq!(jobs.len(), 2);
    assert_eq!((jobs[0].id, jobs[1].id), (1, 2));
    assert_eq!(next_queued(&jobs), Some(0));

    jobs[0].status = JobStatus::Running(40);
    // Canceling a running job has no effect.
    apply(&mut jobs, &mut next_id, WorkerCmd::Cancel(1));
    assert_eq!(jobs[0].status, JobStatus::Running(40));
    apply(&mut jobs, &mut next_id, WorkerCmd::Cancel(2));
    assert_eq!(jobs[1].status, JobStatus::Canceled);
    assert_eq!(next_queued(&jobs), None);
    // Unknown ids are ignored.
    apply(&mut jobs, &mut next_id, WorkerCmd::Cancel(99));
    assert_eq!(jobs.len(), 2);
    assert_eq!(next_id, 3);
}

#[test]
fn status_labels() {
    assert_eq!(JobStatus::Queued.label(), "queued");
    assert_eq!(JobStatus::Running(57).label(), "57%");
    assert_eq!(JobStatus::Running(-3).label(), "-3%");
    assert_eq!(JobStatus::Done("/x.jpg".into()).label(), "done: /x.jpg");
    assert_eq!(JobStatus::Failed("boom".into()).label(), "failed: boom");
    assert_eq!(JobStatus::Canceled.label(), "canceled");
    assert_eq!(progress_width(140), 100);
    assert_eq!(progress_width(-1), 0);
    assert_eq!(progress_width(33), 33);
}

#[test]
fn picks_replace_by_input() {
    let registry = ConverterRegistry::with_defaults();
    let mut picks: Vec<PendingPick> = Vec::new();
    let pick = make_pick(&registry, "/a.png".into(), &Ok(Format::Png), false);
    assert_eq!(pick.targets, vec![Format::Jpg, Format::Bmp, Format::Gif, Format::WebP, Format::Svg]);
    assert_eq!(pick.error, None);
    upsert_pick(&mut picks, pick);
    let none = make_pick(&registry, "/b.svg".into(), &Ok(Format::Svg), true);
    assert_eq!(none.error.as_deref(), Some("no conversions available for SVG"));
    upsert_pick(&mut picks, none);
    let bad = make_pick(
        &registry,
        "/a.png".into(),
        &Err(ConversionError::UnknownFormat { path: "/a.png".into() }),
        true,
    );
    assert_eq!(bad.error.as_deref(), Some("could not determine the format of /a.png"));
    upsert_pick(&mut picks, bad);
    assert_eq!(picks.len(), 2);
    assert_eq!(picks[0].input, "/b.svg");
    assert_eq!(picks[1].input, "/a.png");
    assert!(picks[1].targets.is_empty());
}

#[test]
fn history_keeps_newest() {
    let mut entries = Vec::new();
    for i in 0..(MAX_ENTRIES as u64 + 5) {
        append_capped(&mut entries, HistoryEntry::at(format!("/{i}"), None, "jpg".into(), None, i));
    }
    assert_eq!(entries.len(), MAX_ENTRIES);
    assert_eq!(entries[0].timestamp, 5);
    assert_eq!(entries.last().unwrap().timestamp, MAX_ENTRIES as u64 + 4);
    let failed = HistoryEntry::now("/x".into(), None, "png".into(), Some("bad".into()));
    assert!(!failed.success);
    let ok = HistoryEntry::now("/x".into(), Some("/x.png".into()), "png".into(), None);
    assert!(ok.success);
}

#[test]
fn settings_form_validation() {
    let d = Settings::default();
    assert_eq!((d.output_dir.clone(), d.jpeg_quality, d.launch_at_login, d.check_updates), (None, 90, false, true));
    assert_eq!(
        Settings::from_form("", "abc", false, true).unwrap_err(),
        "JPEG quality must be a number 1-100"
    );
    assert_eq!(Settings::from_form("", "0", false, true).unwrap_err(), "JPEG quality must be 1-100");
    assert_eq!(Settings::from_form("", "300", false, true).unwrap_err(), "JPEG quality must be a number 1-100");
    let s = Settings::from_form("  /out  ", " 75 ", true, false).unwrap();
    assert_eq!(s.output_dir.as_deref(), Some("/out"));
    assert_eq!(s.jpeg_quality, 75);
    assert!(s.launch_at_login && !s.check_updates);
    assert_eq!(Settings::from_form("   ", "100", false, false).unwrap().output_dir, None);
    let request = s.request_for("/in.png".into(), Format::Jpg);
    assert_eq!(request.policy.dir.as_deref(), Some("/out"));
    assert_eq!(request.options.jpeg_quality, 75);
    assert_eq!(request.output, None);
}

#[test]
fn running_jobs_and_finished_jobs() {
    let mut jobs = Vec::new();
    let mut next_id = 1u64;
    apply(&mut jobs, &mut next_id, WorkerCmd::Enqueue { input: "/a.png".into(), to: Format::Jpg });
    assert!(!boinc::state::any_running(&jobs));
    jobs[0].status = JobStatus::Running(40);
    assert!(boinc::state::any_running(&jobs));

    let ok: Result<String, ConversionError> = Ok("/a.jpg".into());
    assert_eq!(boinc::state::finished_status(&ok), JobStatus::Done("/a.jpg".into()));
    assert_eq!(
        boinc::state::job_notification("a.png", &ok),
        ("Converted a.png".to_string(), "Saved as /a.jpg".to_string())
    );
    let failed: Result<String, ConversionError> =
        Err(ConversionError::OutputExists { path: "/a.jpg".into() });
    assert_eq!(
        boinc::state::finished_status(&failed),
        JobStatus::Failed("output already exists: /a.jpg".into())
    );
    assert_eq!(
        boinc::state::job_notification("a.png", &failed),
        ("Could not convert a.png".to_string(), "output already exists: /a.jpg".to_string())
    );
    let msg = boinc::state::UiMsg::Jobs(jobs.clone());
    assert_eq!(msg, boinc::state::UiMsg::Jobs(jobs));
}

#[test]
fn settings_form_round_trip() {
    let settings = Settings {
        output_dir: Some("/home/me/converted".to_string()),
        jpeg_quality: 85,
        launch_at_login: true,
        check_updates: false,
    };
    let dir = settings.output_dir.clone().unwrap_or_default();
    let quality = settings.jpeg_quality.to_string();
    assert_eq!(Settings::from_form(&dir, &quality, true, false), Ok(settings));
    let defaults = Settings::default();
    assert_eq!(
        Settings::from_form("", &defaults.jpeg_quality.to_string(), false, true),
        Ok(defaults)
    );
}

#[test]
fn oldest_queued_job_runs_first() {
    let mut jobs = Vec::new();
    let mut next_id = 1u64;
    for input in ["/a.png", "/b.png", "/c.png"] {
        apply(&mut jobs, &mut next_id, WorkerCmd::Enqueue { input: input.into(), to: Format::Jpg });
    }
    apply(&mut jobs, &mut next_id, WorkerCmd::Cancel(1));
    assert_eq!(next_queued(&jobs), Some(1));
    assert_eq!(jobs[1].id, 2);
    jobs[1].status = JobStatus::Done("/b.jpg".into());
    assert_eq!(next_queued(&jobs), Some(2));
    jobs[2].status = JobStatus::Running(10);
    assert_eq!(next_queued(&jobs), None);
}

#[test]
fn paused_queue_starts_nothing() {
    let mut jobs = Vec::new();
    let mut next_id = 1u64;
    apply(&mut jobs, &mut next_id, WorkerCmd::Enqueue { input: "/a.png".into(), to: Format::Jpg });
    assert_eq!(boinc::state::next_to_run(&jobs, true), None);
    assert_eq!(boinc::state::next_to_run(&jobs, false), Some(0));
}
