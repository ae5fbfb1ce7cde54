use lat::error::LatError;
use lat::help_command;
use lat::install;
use lat::install::{
    is_affirmative, is_success, needs_confirmation, next_install_step, plan_writes,
    resolve_reference, snippets_file_name, ConflictPolicy, FetchResult,
    InstallAction, InstallStage, ResolvedImport,
};
use lat::reference::Reference;
use lat::short::AliasStore;

const LISTING: &str = r#"[
    {"name": "a.sty", "download_url": "https://raw/a.sty"},
    {"name": "b.txt", "download_url": "https://raw/b.txt"},
    {"name": "snippets-x.json", "download_url": "https://raw/snippets-x.json"}
]"#;

fn ok(body: &str) -> FetchResult {
    FetchResult::Received { status: 200, body: body.to_string() }
}

fn fetch_url(action: &InstallAction) -> String {
    match action {
        InstallAction::Fetch { url } => url.clone(),
        other => panic!("unexpected {:?}", other),
    }
}

fn resolved(snippets: bool) -> ResolvedImport {
    ResolvedImport {
        import_name: "a.sty".to_string(),
        import_content: "new".to_string(),
        snippets_name: if snippets { Some("a.code-snippets".to_string()) } else { None },
        snippets_content: if snippets { Some("{}".to_string()) } else { None },
    }
}

#[test]
fn alias_resolves_to_its_reference() {
    let mut store = AliasStore::new();
    store.put("rt", "owner/repo.sty");
    match resolve_reference("rt", &store).unwrap() {
        Reference::Shorthand { owner, repo_or_file } => {
            assert_eq!(owner, "owner");
            assert_eq!(repo_or_file, "repo.sty");
        }
        other => panic!("unexpected {:?}", other),
    }
}

#[test]
fn missing_alias_is_not_found() {
    let store = AliasStore::new();
    assert_eq!(resolve_reference("rt", &store).err(), Some(LatError::ResolutionNotFound));
}

#[test]
fn alias_of_an_alias_is_not_found() {
    let mut store = AliasStore::new();
    store.put("a", "b");
    store.put("b", "x/y");
    assert_eq!(resolve_reference("a", &store).err(), Some(LatError::ResolutionNotFound));
}

#[test]
fn install_from_repository_with_snippets() {
    let store = AliasStore::new();
    let (stage, action) = install::init("owner/repo.git", &store);
    assert_eq!(fetch_url(&action), "https://api.github.com/repos/owner/repo/contents/");
    let (stage, action) = next_install_step(stage, ok(LISTING));
    assert_eq!(fetch_url(&action), "https://raw/a.sty");
    let (stage, action) = next_install_step(stage, ok("\\usepackage{x}"));
    assert_eq!(fetch_url(&action), "https://raw/snippets-x.json");
    let (stage, action) = next_install_step(stage, ok(r#"{"s": 1}"#));
    assert!(matches!(stage, InstallStage::Finished));
    match action {
        InstallAction::Materialize { resolved, snippets_error } => {
            assert_eq!(resolved.import_name, "a.sty");
            assert_eq!(resolved.import_content, "\\usepackage{x}");
            assert_eq!(resolved.snippets_name, Some("a.code-snippets".to_string()));
            assert_eq!(resolved.snippets_content, Some(r#"{"s": 1}"#.to_string()));
            assert_eq!(snippets_error, None);
        }
        other => panic!("unexpected {:?}", other),
    }
}

#[test]
fn install_without_snippets_materializes_after_import() {
    let store = AliasStore::new();
    let (stage, action) = install::init("https://github.com/o/r", &store);
    assert_eq!(fetch_url(&action), "https://api.github.com/repos/o/r/contents/");
    let (stage, _) = next_install_step(stage, ok(r#"[{"name": "s.sty", "download_url": "u"}]"#));
    let (stage, action) = next_install_step(stage, ok("body"));
    assert!(matches!(stage, InstallStage::Finished));
    match action {
        InstallAction::Materialize { resolved, snippets_error } => {
            assert_eq!(resolved.import_name, "s.sty");
            assert_eq!(resolved.import_content, "body");
            assert_eq!(resolved.snippets_name, None);
            assert_eq!(snippets_error, None);
        }
        other => panic!("unexpected {:?}", other),
    }
}

#[test]
fn install_from_blob_link_fetches_directly() {
    let store = AliasStore::new();
    let (stage, action) = install::init("github.com/o/r/blob/main/x.sty", &store);
    assert_eq!(fetch_url(&action), "https://github.com/o/r/raw/main/x.sty");
    let (_, action) = next_install_step(stage, ok("content"));
    match action {
        InstallAction::Materialize { resolved, .. } => {
            assert_eq!(resolved.import_name, "x.sty");
            assert_eq!(resolved.import_content, "content");
        }
        other => panic!("unexpected {:?}", other),
    }
}

#[test]
fn install_of_unknown_alias_fails() {
    let store = AliasStore::new();
    let (stage, action) = install::init("nothing", &store);
    assert!(matches!(stage, InstallStage::Finished));
    assert!(matches!(action, InstallAction::Fail { error: LatError::ResolutionNotFound }));
}

#[test]
fn listing_without_import_fails() {
    let store = AliasStore::new();
    let (stage, _) = install::init("o/r", &store);
    let (_, action) = next_install_step(stage, ok(r#"[{"name": "b.txt", "download_url": "u"}]"#));
    assert!(matches!(action, InstallAction::Fail { error: LatError::ResolutionNotFound }));
}

#[test]
fn listing_that_is_not_json_fails_to_decode() {
    let store = AliasStore::new();
    let (stage, _) = install::init("o/r", &store);
    let (_, action) = next_install_step(stage, ok("<html>"));
    assert!(matches!(action, InstallAction::Fail { error: LatError::DecodeFailure }));
}

#[test]
fn failed_listing_request_is_a_transport_failure() {
    let store = AliasStore::new();
    let (stage, _) = install::init("o/r", &store);
    let (_, action) = next_install_step(stage, FetchResult::Received { status: 404, body: "{}".to_string() });
    assert!(matches!(action, InstallAction::Fail { error: LatError::TransportFailure }));
    let (stage, _) = install::init("o/r", &store);
    let (_, action) = next_install_step(stage, FetchResult::Failed);
    assert!(matches!(action, InstallAction::Fail { error: LatError::TransportFailure }));
}

#[test]
fn failed_snippets_fetch_still_materializes_import() {
    let store = AliasStore::new();
    let (stage, _) = install::init("o/r", &store);
    let (stage, _) = next_install_step(stage, ok(LISTING));
    let (stage, _) = next_install_step(stage, ok("import"));
    let (_, action) = next_install_step(stage, ok("not json"));
    match action {
        InstallAction::Materialize { resolved, snippets_error } => {
            assert_eq!(resolved.import_content, "import");
            assert_eq!(resolved.snippets_content, None);
            assert_eq!(snippets_error, Some(LatError::DecodeFailure));
        }
        other => panic!("unexpected {:?}", other),
    }
}

#[test]
fn success_statuses() {
    assert!(is_success(200));
    assert!(is_success(299));
    assert!(!is_success(199));
    assert!(!is_success(404));
}

#[test]
fn snippets_name_follows_import_base() {
    assert_eq!(snippets_file_name("a"), "a.code-snippets");
}

#[test]
fn answers_that_confirm() {
    assert!(is_affirmative("y\n"));
    assert!(is_affirmative("Yes"));
    assert!(!is_affirmative("n\n"));
    assert!(!is_affirmative(""));
}

#[test]
fn confirmation_only_for_prompt_on_conflict() {
    assert!(needs_confirmation(true, ConflictPolicy::Prompt));
    assert!(!needs_confirmation(false, ConflictPolicy::Prompt));
    assert!(!needs_confirmation(true, ConflictPolicy::Skip));
}

#[test]
fn skip_on_existing_file_writes_nothing_and_succeeds() {
    let plan = plan_writes("/w", "/w", &resolved(true), true, ConflictPolicy::Skip, false).unwrap();
    assert!(plan.import_file.is_none());
    assert!(plan.snippets_dir.is_none());
    assert!(plan.snippets_file.is_none());
}

#[test]
fn abort_on_existing_file_is_conflict_aborted() {
    let r = plan_writes("/w", "/w", &resolved(true), true, ConflictPolicy::Abort, true);
    assert_eq!(r.err(), Some(LatError::ConflictAborted));
}

#[test]
fn declined_prompt_is_conflict_aborted() {
    let r = plan_writes("/w", "/w", &resolved(false), true, ConflictPolicy::Prompt, false);
    assert_eq!(r.err(), Some(LatError::ConflictAborted));
}

#[test]
fn confirmed_prompt_overwrites() {
    let plan = plan_writes("/w", "/w", &resolved(false), true, ConflictPolicy::Prompt, true).unwrap();
    let f = plan.import_file.unwrap();
    assert_eq!(f.path, "/w/a.sty");
    assert_eq!(f.contents, "new");
    assert!(plan.snippets_file.is_none());
}

#[test]
fn new_import_writes_import_and_snippets() {
    let plan = plan_writes("/d", "/w", &resolved(true), false, ConflictPolicy::Abort, false).unwrap();
    assert_eq!(plan.import_file.unwrap().path, "/d/a.sty");
    assert_eq!(plan.snippets_dir, Some("/w/.vscode".to_string()));
    let s = plan.snippets_file.unwrap();
    assert_eq!(s.path, "/w/.vscode/a.code-snippets");
    assert_eq!(s.contents, "{}");
}

#[test]
fn help_lists_the_commands() {
    let help = help_command();
    assert!(help.contains("lat -install"));
    assert!(help.contains("lat -short -new"));
    assert!(help.contains("lat -update"));
}

#[test]
fn short_blob_link_is_fetched_directly() {
    let store = AliasStore::new();
    let (_, action) = install::init("https://github.com/o/r/blob/main", &store);
    assert_eq!(fetch_url(&action), "https://github.com/o/r/raw/main");
}

#[test]
fn listing_that_is_json_but_not_an_array_fails_to_decode() {
    let store = AliasStore::new();
    let (stage, _) = install::init("o/r", &store);
    let (_, action) = next_install_step(stage, ok(r#"{"message": "Not Found"}"#));
    assert!(matches!(action, InstallAction::Fail { error: LatError::DecodeFailure }));
}
