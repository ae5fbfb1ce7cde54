//! Installing an import: resolving the reference, the fetches it takes, and what gets written.
use vstd::prelude::*;

use crate::error::LatError;
use crate::json::{parse_json, parses_as_json};
use crate::reference::{
    classify, classify_spec, extract_import_name, git_suffix, last_segment, listing_endpoint,
    listing_url, Reference, ReferenceView,
};
use crate::scanner::{
    decode_listing, import_suffix, last_import_at, last_snippets_at, lemma_last_in_range, listing_of,
    listing_views, scan_listing,
    ListingEntry,
};
use crate::short::{lookup, AliasStore};
use crate::text::{
    concat_str, contains_str, contains_text, occurs_at, opt_view, strip_suffix, strip_suffix_str,
};

verus! {

/// The reference that an input stands for: the input itself, or the reference stored under the
/// alias it names. An alias that is missing, or that names another alias, is not found.
pub open spec fn resolve_spec(
    input: Seq<char>,
    aliases: Seq<(Seq<char>, Seq<char>)>,
) -> Result<ReferenceView, LatError> {
    match classify_spec(input) {
        ReferenceView::AliasName { name } => match lookup(aliases, name) {
            Some(long) => match classify_spec(long) {
                ReferenceView::AliasName { .. } => Err(LatError::ResolutionNotFound),
                r => Ok(r),
            },
            None => Err(LatError::ResolutionNotFound),
        },
        r => Ok(r),
    }
}

/// Classifies `input`, looking an alias name up in `store`.
pub fn resolve_reference(input: &str, store: &AliasStore) -> (r: Result<Reference, LatError>)
    ensures
        match r {
            Ok(reference) => resolve_spec(input@, store@) == Ok::<ReferenceView, LatError>(
                reference@,
            ),
            Err(e) => resolve_spec(input@, store@) == Err::<ReferenceView, LatError>(e),
        },
{
    let reference = classify(input);
    match reference {
        Reference::AliasName { name } => match store.get(name.as_str()) {
            Some(long) => {
                let target = classify(long.as_str());
                match target {
                    Reference::AliasName { .. } => Err(LatError::ResolutionNotFound),
                    _ => Ok(target),
                }
            },
            None => Err(LatError::ResolutionNotFound),
        },
        _ => Ok(reference),
    }
}

/// A response status that counts as success.
pub open spec fn is_success_spec(status: u16) -> bool {
    200 <= status <= 299
}

/// Whether a response status counts as success.
pub fn is_success(status: u16) -> (r: bool)
    ensures
        r == is_success_spec(status),
{
    200 <= status && status <= 299
}

/// The suffix of a snippets file's name.
pub open spec fn snippets_file_suffix() -> Seq<char> {
    ".code-snippets"@
}

/// The name of the snippets file that goes with the import `base`.
pub fn snippets_file_name(base: &str) -> (r: String)
    ensures
        r@ == base@ + snippets_file_suffix(),
{
    concat_str(base, ".code-snippets")
}

/// Everything that an install fetched, ready to be written.
#[derive(Debug)]
pub struct ResolvedImport {
    pub import_name: String,
    pub import_content: String,
    pub snippets_name: Option<String>,
    pub snippets_content: Option<String>,
}

/// What came back from one request.
#[derive(Debug)]
pub enum FetchResult {
    /// A response, with its status and its body as text.
    Received { status: u16, body: String },
    /// No response, or a body that could not be read.
    Failed,
}

/// Where an install stands, between two fetches.
#[derive(Debug)]
pub enum InstallStage {
    /// The repository listing was asked for.
    AwaitListing,
    /// The import file was asked for; the snippets file comes next when there is one.
    AwaitImport { import_name: String, snippets_url: Option<String>, snippets_name: Option<String> },
    /// The snippets file was asked for; the import file is in hand.
    AwaitSnippets { import_name: String, import_content: String, snippets_name: String },
    /// Nothing more to do.
    Finished,
}

/// What the caller does next.
#[derive(Debug)]
pub enum InstallAction {
    /// Request `url` and hand back what came.
    Fetch { url: String },
    /// Write the import; `snippets_error` says why a snippets file was dropped, if one was.
    Materialize { resolved: ResolvedImport, snippets_error: Option<LatError> },
    /// Stop: the install failed.
    Fail { error: LatError },
}

/// The first stage and action for a resolved reference.
pub open spec fn start_spec(target: ReferenceView, stage: InstallStage, action: InstallAction) -> bool {
    match target {
        ReferenceView::Shorthand { owner, repo_or_file } => {
            &&& stage is AwaitListing
            &&& action matches InstallAction::Fetch { url }
            &&& url@ == listing_endpoint(owner, strip_suffix(repo_or_file, git_suffix()))
        },
        ReferenceView::RepoUrl { owner, repo } => {
            &&& stage is AwaitListing
            &&& action matches InstallAction::Fetch { url }
            &&& url@ == listing_endpoint(owner, repo)
        },
        ReferenceView::BlobUrl { raw_url, .. } => {
            &&& stage matches InstallStage::AwaitImport { import_name, snippets_url, snippets_name }
            &&& import_name@ == last_segment(raw_url)
            &&& snippets_url is None
            &&& snippets_name is None
            &&& action matches InstallAction::Fetch { url }
            &&& url@ == raw_url
        },
        ReferenceView::AliasName { .. } => false,
    }
}

/// Starts an install of `input`: the first stage, and the first request to make.
pub fn init(input: &str, store: &AliasStore) -> (r: (InstallStage, InstallAction))
    ensures
        match resolve_spec(input@, store@) {
            Ok(target) => start_spec(target, r.0, r.1),
            Err(e) => r.0 is Finished && r.1 == (InstallAction::Fail { error: e }),
        },
{
    match resolve_reference(input, store) {
        Err(e) => (InstallStage::Finished, InstallAction::Fail { error: e }),
        Ok(Reference::Shorthand { owner, repo_or_file }) => {
            let repo = strip_suffix_str(repo_or_file.as_str(), ".git");
            let url = listing_url(owner.as_str(), repo.as_str());
            (InstallStage::AwaitListing, InstallAction::Fetch { url })
        },
        Ok(Reference::RepoUrl { owner, repo }) => {
            let url = listing_url(owner.as_str(), repo.as_str());
            (InstallStage::AwaitListing, InstallAction::Fetch { url })
        },
        Ok(Reference::BlobUrl { raw_url, .. }) => {
            let import_name = extract_import_name(raw_url.as_str());
            (
                InstallStage::AwaitImport { import_name, snippets_url: None, snippets_name: None },
                InstallAction::Fetch { url: raw_url },
            )
        },
        Ok(Reference::AliasName { .. }) => {
            (InstallStage::Finished, InstallAction::Fail { error: LatError::ResolutionNotFound })
        },
    }
}

/// The stage and action after a listing that reads as `es`.
pub open spec fn after_listing_spec(
    es: Seq<ListingEntry>,
    stage: InstallStage,
    action: InstallAction,
) -> bool {
    match last_import_at(es) {
        None => stage is Finished && action == (InstallAction::Fail {
            error: LatError::ResolutionNotFound,
        }),
        Some(i) => {
            &&& action matches InstallAction::Fetch { url }
            &&& opt_view(es[i].download_url) == Some(url@)
            &&& stage matches InstallStage::AwaitImport { import_name, snippets_url, snippets_name }
            &&& import_name@ == es[i].name@
            &&& match last_snippets_at(es) {
                Some(j) => {
                    &&& opt_view(snippets_url) == opt_view(es[j].download_url)
                    &&& opt_view(snippets_name) == Some(
                        strip_suffix(es[i].name@, import_suffix()) + snippets_file_suffix(),
                    )
                },
                None => snippets_url is None && snippets_name is None,
            }
        },
    }
}

/// The stage and action once the listing reads as `entries`.
pub fn after_listing(entries: &Vec<ListingEntry>) -> (r: (InstallStage, InstallAction))
    ensures
        after_listing_spec(entries@, r.0, r.1),
{
    proof {
        lemma_last_in_range(entries@);
    }
    match scan_listing(entries) {
        Err(e) => (InstallStage::Finished, InstallAction::Fail { error: e }),
        Ok(found) => {
            let (snippets_url, snippets_name) = match found.snippets_url {
                Some(u) => (Some(u), Some(snippets_file_name(found.import_base_name.as_str()))),
                None => (None, None),
            };
            (
                InstallStage::AwaitImport {
                    import_name: found.import_file_name,
                    snippets_url,
                    snippets_name,
                },
                InstallAction::Fetch { url: found.import_url },
            )
        },
    }
}

/// A response that failed at the transport: no response, or a status that is no success.
pub open spec fn transport_failed(event: FetchResult) -> bool {
    match event {
        FetchResult::Received { status, .. } => !is_success_spec(status),
        FetchResult::Failed => true,
    }
}

/// The import is materialized with these contents and no snippets file.
pub open spec fn materialize_without_snippets(
    action: InstallAction,
    name: Seq<char>,
    content: Seq<char>,
    error: Option<LatError>,
) -> bool {
    &&& action matches InstallAction::Materialize { resolved, snippets_error }
    &&& resolved.import_name@ == name
    &&& resolved.import_content@ == content
    &&& resolved.snippets_name is None
    &&& resolved.snippets_content is None
    &&& snippets_error == error
}

/// Moves an install on by what came back from the last request.
pub fn next_install_step(stage: InstallStage, event: FetchResult) -> (r: (InstallStage, InstallAction))
    requires
        !(stage is Finished),
    ensures
        transport_failed(event) && !(stage is AwaitSnippets) ==> r.0 is Finished && r.1 == (
        InstallAction::Fail { error: LatError::TransportFailure }),
        match (stage, event) {
            (InstallStage::AwaitListing, FetchResult::Received { status, body }) => is_success_spec(
                status,
            ) ==> match listing_of(body@) {
                Some(l) => exists|es: Seq<ListingEntry>|
                    listing_views(es) == l && after_listing_spec(es, r.0, r.1),
                None => r.0 is Finished && r.1 == (InstallAction::Fail {
                    error: LatError::DecodeFailure,
                }),
            },
            (
                InstallStage::AwaitImport { import_name, snippets_url, snippets_name },
                FetchResult::Received { status, body },
            ) => is_success_spec(status) ==> match (snippets_url, snippets_name) {
                (Some(u), Some(n)) => {
                    &&& r.0 matches InstallStage::AwaitSnippets {
                        import_name: i2,
                        import_content,
                        snippets_name: n2,
                    }
                    &&& i2@ == import_name@
                    &&& import_content@ == body@
                    &&& n2@ == n@
                    &&& r.1 matches InstallAction::Fetch { url }
                    &&& url@ == u@
                },
                _ => r.0 is Finished && materialize_without_snippets(
                    r.1,
                    import_name@,
                    body@,
                    None,
                ),
            },
            (InstallStage::AwaitSnippets { import_name, import_content, snippets_name }, _) => {
                &&& r.0 is Finished
                &&& transport_failed(event) ==> materialize_without_snippets(
                    r.1,
                    import_name@,
                    import_content@,
                    Some(LatError::TransportFailure),
                )
                &&& match event {
                    FetchResult::Received { status, body } => is_success_spec(status) ==> if parses_as_json(
                        body@,
                    ) {
                        &&& r.1 matches InstallAction::Materialize { resolved, snippets_error }
                        &&& resolved.import_name@ == import_name@
                        &&& resolved.import_content@ == import_content@
                        &&& opt_view(resolved.snippets_name) == Some(snippets_name@)
                        &&& opt_view(resolved.snippets_content) == Some(body@)
                        &&& snippets_error is None
                    } else {
                        materialize_without_snippets(
                            r.1,
                            import_name@,
                            import_content@,
                            Some(LatError::DecodeFailure),
                        )
                    },
                    FetchResult::Failed => true,
                }
            },
            _ => true,
        },
{
    match stage {
        InstallStage::AwaitListing => {
            let body = match event {
                FetchResult::Received { status, body } => {
                    if !is_success(status) {
                        return (
                            InstallStage::Finished,
                            InstallAction::Fail { error: LatError::TransportFailure },
                        );
                    }
                    body
                },
                FetchResult::Failed => {
                    return (
                        InstallStage::Finished,
                        InstallAction::Fail { error: LatError::TransportFailure },
                    );
                },
            };
            match decode_listing(body.as_str()) {
                Err(e) => (InstallStage::Finished, InstallAction::Fail { error: e }),
                Ok(entries) => after_listing(&entries),
            }
        },
        InstallStage::AwaitImport { import_name, snippets_url, snippets_name } => {
            let body = match event {
                FetchResult::Received { status, body } => {
                    if !is_success(status) {
                        return (
                            InstallStage::Finished,
                            InstallAction::Fail { error: LatError::TransportFailure },
                        );
                    }
                    body
                },
                FetchResult::Failed => {
                    return (
                        InstallStage::Finished,
                        InstallAction::Fail { error: LatError::TransportFailure },
                    );
                },
            };
            match (snippets_url, snippets_name) {
                (Some(url), Some(name)) => (
                    InstallStage::AwaitSnippets {
                        import_name,
                        import_content: body,
                        snippets_name: name,
                    },
                    InstallAction::Fetch { url },
                ),
                _ => (
                    InstallStage::Finished,
                    InstallAction::Materialize {
                        resolved: ResolvedImport {
                            import_name,
                            import_content: body,
                            snippets_name: None,
                            snippets_content: None,
                        },
                        snippets_error: None,
                    },
                ),
            }
        },
        InstallStage::AwaitSnippets { import_name, import_content, snippets_name } => {
            let outcome: Result<String, LatError> = match event {
                FetchResult::Received { status, body } => {
                    if !is_success(status) {
                        Err(LatError::TransportFailure)
                    } else {
                        match parse_json(body.as_str()) {
                            Ok(_) => Ok(body),
                            Err(_) => Err(LatError::DecodeFailure),
                        }
                    }
                },
                FetchResult::Failed => Err(LatError::TransportFailure),
            };
            let action = match outcome {
                Ok(body) => InstallAction::Materialize {
                    resolved: ResolvedImport {
                        import_name,
                        import_content,
                        snippets_name: Some(snippets_name),
                        snippets_content: Some(body),
                    },
                    snippets_error: None,
                },
                Err(e) => InstallAction::Materialize {
                    resolved: ResolvedImport {
                        import_name,
                        import_content,
                        snippets_name: None,
                        snippets_content: None,
                    },
                    snippets_error: Some(e),
                },
            };
            (InstallStage::Finished, action)
        },
        // Excluded by the precondition: a finished install takes no further step.
        InstallStage::Finished => {
            (InstallStage::Finished, InstallAction::Fail { error: LatError::ResolutionNotFound })
        },
    }
}

/// How an existing import file is treated.
#[derive(Clone, Copy, Debug, PartialEq, Eq, Structural)]
pub enum ConflictPolicy {
    /// Write nothing and report the conflict.
    Abort,
    /// Overwrite only when the user confirms.
    Prompt,
    /// Write nothing and report success.
    Skip,
}

/// Whether the user must be asked before the import is written.
pub fn needs_confirmation(import_exists: bool, policy: ConflictPolicy) -> (r: bool)
    ensures
        r == (import_exists && policy == ConflictPolicy::Prompt),
{
    import_exists && policy == ConflictPolicy::Prompt
}

/// An answer that confirms: it holds a `y`, in either case.
pub open spec fn is_affirmative_spec(answer: Seq<char>) -> bool {
    answer.contains('y') || answer.contains('Y')
}

proof fn lemma_contains_char(s: Seq<char>, c: char)
    ensures
        s.contains(c) <==> contains_text(s, seq![c]),
{
    if s.contains(c) {
        let k = choose|k: int| 0 <= k < s.len() && s[k] == c;
        assert(s.subrange(k, k + 1) =~= seq![c]);
        assert(occurs_at(s, seq![c], k));
    }
    if contains_text(s, seq![c]) {
        let k = choose|k: int| occurs_at(s, seq![c], k);
        assert(s.subrange(k, k + 1)[0] == s[k]);
    }
}

/// Whether the user's answer confirms.
pub fn is_affirmative(answer: &str) -> (r: bool)
    ensures
        r == is_affirmative_spec(answer@),
{
    proof {
        reveal_strlit("y");
        reveal_strlit("Y");
        assert("y"@ =~= seq!['y']);
        assert("Y"@ =~= seq!['Y']);
        lemma_contains_char(answer@, 'y');
        lemma_contains_char(answer@, 'Y');
    }
    contains_str(answer, "y") || contains_str(answer, "Y")
}

/// One file to write.
#[derive(Debug)]
pub struct FileWrite {
    pub path: String,
    pub contents: String,
}

/// What an install writes. Each file is attempted on its own.
#[derive(Debug)]
pub struct WritePlan {
    pub import_file: Option<FileWrite>,
    /// Created first when absent; the snippets file goes into it.
    pub snippets_dir: Option<String>,
    pub snippets_file: Option<FileWrite>,
}

/// The directory under the working directory that holds snippets files.
pub open spec fn snippets_dir_spec(work_dir: Seq<char>) -> Seq<char> {
    work_dir + "/.vscode"@
}

/// Decides what to write for `resolved`: the import file under `dir` and any snippets file in
/// the snippets directory under `work_dir`. An existing import file is kept under `Abort` (which
/// fails), under `Skip` (which succeeds with nothing to write) and under `Prompt` without
/// confirmation (which fails).
pub fn plan_writes(
    dir: &str,
    work_dir: &str,
    resolved: &ResolvedImport,
    import_exists: bool,
    policy: ConflictPolicy,
    confirmed: bool,
) -> (r: Result<WritePlan, LatError>)
    ensures
        import_exists && policy == ConflictPolicy::Abort ==> r == Err::<WritePlan, LatError>(
            LatError::ConflictAborted,
        ),
        import_exists && policy == ConflictPolicy::Prompt && !confirmed ==> r == Err::<
            WritePlan,
            LatError,
        >(LatError::ConflictAborted),
        import_exists && policy == ConflictPolicy::Skip ==> (r matches Ok(plan) && plan.import_file
            is None && plan.snippets_dir is None && plan.snippets_file is None),
        !import_exists || (policy == ConflictPolicy::Prompt && confirmed) ==> (r matches Ok(plan)
            && {
            &&& plan.import_file matches Some(f)
            &&& f.path@ == dir@ + "/"@ + resolved.import_name@
            &&& f.contents@ == resolved.import_content@
            &&& match (resolved.snippets_name, resolved.snippets_content) {
                (Some(n), Some(c)) => {
                    &&& opt_view(plan.snippets_dir) == Some(snippets_dir_spec(work_dir@))
                    &&& plan.snippets_file matches Some(s)
                    &&& s.path@ == snippets_dir_spec(work_dir@) + "/"@ + n@
                    &&& s.contents@ == c@
                },
                _ => plan.snippets_dir is None && plan.snippets_file is None,
            }
        }),
{
    if import_exists {
        match policy {
            ConflictPolicy::Abort => return Err(LatError::ConflictAborted),
            ConflictPolicy::Skip => {
                return Ok(WritePlan { import_file: None, snippets_dir: None, snippets_file: None });
            },
            ConflictPolicy::Prompt => {
                if !confirmed {
                    return Err(LatError::ConflictAborted);
                }
            },
        }
    }
    let import_path = concat_str(concat_str(dir, "/").as_str(), resolved.import_name.as_str());
    let import_file = FileWrite {
        path: import_path,
        contents: resolved.import_content.clone(),
    };
    let (snippets_dir, snippets_file) = match (&resolved.snippets_name, &resolved.snippets_content) {
        (Some(n), Some(c)) => {
            let sdir = concat_str(work_dir, "/.vscode");
            let spath = concat_str(concat_str(sdir.as_str(), "/").as_str(), n.as_str());
            (Some(sdir), Some(FileWrite { path: spath, contents: c.clone() }))
        },
        _ => (None, None),
    };
    Ok(WritePlan { import_file: Some(import_file), snippets_dir, snippets_file })
}

} // verus!
