use ffscreencast::log::{init, panic_line, FileStep};
use ffscreencast::update::{
    check_and_update, check_github, choose_release, current_version, download_file, updater_script,
    Asset, DownloadEvent, DownloadStep, HttpOutcome, Release, ReleaseInfo, UpdateError, UpdateEvent,
    UpdateStep,
};

fn answer(body: &str) -> HttpOutcome {
    HttpOutcome::Answered {
        status: 200,
        reason: "200 OK".to_string(),
        body: Some(body.as_bytes().to_vec()),
    }
}

fn release(tag: &str) -> String {
    format!(
        "{{\"tag_name\":\"{tag}\",\"assets\":[{{\"name\":\"notes.txt\",\"browser_download_url\":\"n\"}},\
         {{\"name\":\"ffscreencast.exe\",\"browser_download_url\":\"https://x/e.exe\"}}]}}"
    )
}

fn offered(tag: &str) -> Option<String> {
    match check_github(answer(&release(tag))) {
        Ok(found) => found.map(|r| r.exe_url),
        Err(e) => panic!("{}", e.message()),
    }
}

fn complaint(outcome: HttpOutcome) -> String {
    match check_github(outcome) {
        Ok(_) => panic!("no complaint"),
        Err(e) => e.message(),
    }
}

#[test]
fn newer_releases_are_offered() {
    assert_eq!(current_version(), "0.1.0");
    assert_eq!(offered("v0.2.0"), Some("https://x/e.exe".to_string()));
    assert_eq!(offered("0.1.1"), Some("https://x/e.exe".to_string()));
    assert_eq!(offered("vv1.0.0-rc.1"), Some("https://x/e.exe".to_string()));
    assert_eq!(offered("v0.1.0+7"), Some("https://x/e.exe".to_string()));
}

#[test]
fn releases_that_are_not_newer_are_not_offered() {
    assert_eq!(offered("v0.1.0"), None);
    assert_eq!(offered("v0.0.99"), None);
    assert_eq!(offered("v0.1.0-alpha"), None);
    assert_eq!(offered("v0.1.0-alpha+7"), None);
}

#[test]
fn versions_with_suffixes_are_ordered() {
    let info = |tag: &str| ReleaseInfo {
        tag: Some(tag.to_string()),
        assets: Some(vec![Asset {
            name: Some("ffscreencast.exe".to_string()),
            url: Some("u".to_string()),
        }]),
    };
    assert!(choose_release(info("1.0.0-rc.2"), "1.0.0-rc.1").unwrap().is_some());
    assert!(choose_release(info("1.0.0-rc.1"), "1.0.0-rc.1").unwrap().is_none());
    assert!(choose_release(info("1.0.0-beta"), "1.0.0-rc.1").unwrap().is_none());
    assert!(matches!(choose_release(info("1.0.0"), "one"), Err(UpdateError::BadCurrent)));
}

#[test]
fn failed_questions_are_told() {
    assert_eq!(complaint(HttpOutcome::NoClient), "failed to build HTTP client");
    assert_eq!(complaint(HttpOutcome::NotSent), "failed to check for updates");
    let refused = HttpOutcome::Answered {
        status: 404,
        reason: "404 Not Found".to_string(),
        body: None,
    };
    assert_eq!(complaint(refused), "GitHub API returned 404 Not Found");
    let empty = HttpOutcome::Answered { status: 204, reason: "204".to_string(), body: None };
    assert_eq!(complaint(empty), "failed to parse release info");
}

#[test]
fn broken_answers_are_told() {
    assert_eq!(complaint(answer("{")), "failed to parse release info");
    assert_eq!(complaint(answer("[1]")), "missing tag_name in release");
    assert_eq!(complaint(answer("{\"tag_name\":7}")), "missing tag_name in release");
    assert_eq!(complaint(answer("{\"tag_name\":\"v1\"}")), "missing assets");
    assert_eq!(
        complaint(answer("{\"tag_name\":\"v1\",\"assets\":[]}")),
        "ffscreencast.exe not found in release assets"
    );
    assert_eq!(
        complaint(answer("{\"tag_name\":\"v1\",\"assets\":[{\"name\":\"ffscreencast.exe\"}]}")),
        "ffscreencast.exe not found in release assets"
    );
    assert_eq!(complaint(answer(&release("v1.0"))), "failed to parse version from tag 'v1.0'");
    assert_eq!(
        complaint(answer(&release("v01.0.0"))),
        "failed to parse version from tag 'v01.0.0'"
    );
    assert_eq!(
        complaint(answer(&release("v1.0.0-01"))),
        "failed to parse version from tag 'v1.0.0-01'"
    );
}

#[test]
fn downloads_go_step_by_step() {
    let started = |status: u16| DownloadEvent::Started { status, reason: "503 x".to_string() };
    assert!(matches!(download_file(started(200)), DownloadStep::CreateFile));
    assert!(matches!(download_file(DownloadEvent::FileCreated(true)), DownloadStep::Copy));
    assert!(matches!(download_file(DownloadEvent::Copied(true)), DownloadStep::Done));
    let text = |step: DownloadStep| match step {
        DownloadStep::Fail(e) => e.message(),
        _ => String::new(),
    };
    assert_eq!(text(download_file(DownloadEvent::NoClient)), "failed to build HTTP client");
    assert_eq!(text(download_file(DownloadEvent::NotStarted)), "failed to start download");
    assert_eq!(text(download_file(started(503))), "download failed: HTTP 503 x");
    assert_eq!(
        text(download_file(DownloadEvent::FileCreated(false))),
        "failed to create temp file"
    );
    assert_eq!(text(download_file(DownloadEvent::Copied(false))), "failed to write download");
}

#[test]
fn updates_go_step_by_step() {
    let found = Release { exe_url: "u".to_string() };
    match check_and_update(UpdateEvent::Checked(Ok(Some(found)))) {
        UpdateStep::Download { url } => assert_eq!(url, "u"),
        _ => panic!(),
    }
    assert!(matches!(check_and_update(UpdateEvent::Checked(Ok(None))), UpdateStep::UpToDate));
    assert!(matches!(
        check_and_update(UpdateEvent::Checked(Err(UpdateError::NotSent))),
        UpdateStep::CheckFailed(UpdateError::NotSent)
    ));
    assert!(matches!(check_and_update(UpdateEvent::Downloaded(Ok(()))), UpdateStep::Restart));
    assert!(matches!(
        check_and_update(UpdateEvent::Downloaded(Err(UpdateError::NotWritten))),
        UpdateStep::DownloadFailed(UpdateError::NotWritten)
    ));
}

#[test]
fn the_new_program_takes_the_place_of_the_old() {
    assert_eq!(
        updater_script(42, "C:\\a.exe", "C:\\t\\b.exe"),
        "while (Get-Process -Id 42 -ErrorAction SilentlyContinue) { Start-Sleep -Milliseconds 500 }; \
         Remove-Item 'C:\\a.exe.old' -Force -ErrorAction SilentlyContinue; \
         Move-Item 'C:\\t\\b.exe' 'C:\\a.exe' -Force; \
         Remove-Item 'C:\\a.exe.old' -Force -ErrorAction SilentlyContinue; \
         Start-Process 'C:\\a.exe';"
    );
}

#[test]
fn log_files_make_room() {
    let mut names = Vec::new();
    for step in init() {
        match step {
            FileStep::Remove { name } => names.push(format!("-{name}")),
            FileStep::Rename { from, to } => names.push(format!("{from}>{to}")),
        }
    }
    assert_eq!(
        names,
        vec![
            "-ffscreencast.log5",
            "ffscreencast.log4>ffscreencast.log5",
            "ffscreencast.log3>ffscreencast.log4",
            "ffscreencast.log2>ffscreencast.log3",
            "ffscreencast.log1>ffscreencast.log2",
            "ffscreencast.log>ffscreencast.log1",
        ]
    );
}

#[test]
fn panics_are_written_down() {
    assert_eq!(
        panic_line(Some("main"), Some("a.rs:1:2"), Some("oops")),
        "[PANIC] thread 'main' panicked at a.rs:1:2: oops"
    );
    assert_eq!(
        panic_line(None, None, None),
        "[PANIC] thread '<unnamed>' panicked at <unknown>: Box<dyn Any>"
    );
}
