use lat::error::LatError;
use lat::install::FetchResult;
use lat::update::{UpdateAction, UpdateEvent, UpdateOutcome, UpdateSession, UpdateStage, LATEST_RELEASE_URL};

const RELEASE: &str = r#"{"tag_name": "v2", "assets": [
    {"name": "lat.exe", "browser_download_url": "https://dl/lat.exe"},
    {"name": "lat", "browser_download_url": "https://dl/lat"}
]}"#;

fn release_session() -> UpdateSession {
    let (session, action) = lat::update::init("/bin", "lat");
    match action {
        UpdateAction::Fetch { url } => assert_eq!(url, LATEST_RELEASE_URL),
        other => panic!("unexpected {:?}", other),
    }
    assert_eq!(session.stage, UpdateStage::FetchingRelease);
    assert_eq!(session.temp_path, "/bin/lat.tmp");
    assert_eq!(session.exe_path, "/bin/lat");
    session
}

fn started() -> UpdateSession {
    let mut session = release_session();
    match session.on_release(FetchResult::Received { status: 200, body: RELEASE.to_string() }) {
        UpdateAction::Fetch { url } => assert_eq!(url, "https://dl/lat"),
        other => panic!("unexpected {:?}", other),
    }
    assert_eq!(session.stage, UpdateStage::Fetching);
    session
}

#[test]
fn release_without_matching_asset_is_not_found() {
    let mut s = release_session();
    let body = r#"{"assets": [{"name": "other", "browser_download_url": "u"}]}"#;
    match s.on_release(FetchResult::Received { status: 200, body: body.to_string() }) {
        UpdateAction::Report { outcome } => assert_eq!(
            outcome,
            UpdateOutcome::Failed { error: LatError::ResolutionNotFound }
        ),
        other => panic!("unexpected {:?}", other),
    }
}

#[test]
fn release_body_without_assets_fails_to_decode() {
    let mut s = release_session();
    match s.on_release(FetchResult::Received { status: 200, body: "{}".to_string() }) {
        UpdateAction::Report { outcome } => assert_eq!(
            outcome,
            UpdateOutcome::Failed { error: LatError::DecodeFailure }
        ),
        other => panic!("unexpected {:?}", other),
    }
}

#[test]
fn failed_release_request_is_a_transport_failure() {
    let mut s = release_session();
    match s.on_release(FetchResult::Received { status: 500, body: RELEASE.to_string() }) {
        UpdateAction::Report { outcome } => assert_eq!(
            outcome,
            UpdateOutcome::Failed { error: LatError::TransportFailure }
        ),
        other => panic!("unexpected {:?}", other),
    }
}

#[test]
fn update_replaces_the_executable() {
    let mut s = started();
    match s.step(UpdateEvent::Fetched { status: 200, len: 10 }) {
        UpdateAction::WriteTemp { path } => assert_eq!(path, "/bin/lat.tmp"),
        other => panic!("unexpected {:?}", other),
    }
    match s.step(UpdateEvent::StepDone) {
        UpdateAction::Remove { path } => assert_eq!(path, "/bin/lat"),
        other => panic!("unexpected {:?}", other),
    }
    match s.step(UpdateEvent::StepDone) {
        UpdateAction::Rename { from, to } => {
            assert_eq!(from, "/bin/lat.tmp");
            assert_eq!(to, "/bin/lat");
        }
        other => panic!("unexpected {:?}", other),
    }
    match s.step(UpdateEvent::StepDone) {
        UpdateAction::Report { outcome } => assert_eq!(outcome, UpdateOutcome::Updated),
        other => panic!("unexpected {:?}", other),
    }
    assert_eq!(s.stage, UpdateStage::Finished);
}

#[test]
fn failed_temp_write_removes_temp_and_keeps_executable() {
    let mut s = started();
    s.step(UpdateEvent::Fetched { status: 200, len: 10 });
    match s.step(UpdateEvent::StepFailed) {
        UpdateAction::Remove { path } => assert_eq!(path, "/bin/lat.tmp"),
        other => panic!("unexpected {:?}", other),
    }
    match s.step(UpdateEvent::StepDone) {
        UpdateAction::Report { outcome } => assert_eq!(
            outcome,
            UpdateOutcome::Failed { error: LatError::FilesystemFailure }
        ),
        other => panic!("unexpected {:?}", other),
    }
}

#[test]
fn failed_removal_of_executable_cleans_up() {
    let mut s = started();
    s.step(UpdateEvent::Fetched { status: 200, len: 10 });
    s.step(UpdateEvent::StepDone);
    match s.step(UpdateEvent::StepFailed) {
        UpdateAction::Remove { path } => assert_eq!(path, "/bin/lat.tmp"),
        other => panic!("unexpected {:?}", other),
    }
    assert_eq!(s.stage, UpdateStage::CleaningUp);
}

#[test]
fn failed_rename_after_removal_is_broken() {
    let mut s = started();
    s.step(UpdateEvent::Fetched { status: 200, len: 10 });
    s.step(UpdateEvent::StepDone);
    s.step(UpdateEvent::StepDone);
    match s.step(UpdateEvent::StepFailed) {
        UpdateAction::Report { outcome } => assert_eq!(outcome, UpdateOutcome::Broken),
        other => panic!("unexpected {:?}", other),
    }
}

#[test]
fn failed_or_empty_download_changes_nothing() {
    for event in [
        UpdateEvent::Fetched { status: 404, len: 10 },
        UpdateEvent::Fetched { status: 200, len: 0 },
        UpdateEvent::FetchFailed,
    ] {
        let mut s = started();
        match s.step(event) {
            UpdateAction::Report { outcome } => assert_eq!(
                outcome,
                UpdateOutcome::Failed { error: LatError::TransportFailure }
            ),
            other => panic!("unexpected {:?}", other),
        }
    }
}
