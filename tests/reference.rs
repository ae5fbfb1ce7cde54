use lat::reference::{classify, extract_import_name, listing_url, normalize_reference, Reference};

fn shorthand(owner: &str, repo: &str) -> (String, String) {
    (owner.to_string(), repo.to_string())
}

#[test]
fn shorthand_pair_gives_both_segments() {
    match classify("realTristan/realtristan.sty") {
        Reference::Shorthand { owner, repo_or_file } => {
            assert_eq!((owner, repo_or_file), shorthand("realTristan", "realtristan.sty"));
        }
        other => panic!("unexpected {:?}", other),
    }
}

#[test]
fn shorthand_with_trailing_separators_is_normalized() {
    match classify("owner/repo///") {
        Reference::Shorthand { owner, repo_or_file } => {
            assert_eq!(owner, "owner");
            assert_eq!(repo_or_file, "repo");
        }
        other => panic!("unexpected {:?}", other),
    }
}

#[test]
fn repo_link_with_and_without_git_suffix_agree() {
    for input in [
        "https://github.com/owner/repo",
        "https://github.com/owner/repo.git",
        "http://github.com/owner/repo",
        "github.com/owner/repo.git",
        "https://github.com/owner/repo/",
    ] {
        match classify(input) {
            Reference::RepoUrl { owner, repo } => {
                assert_eq!(owner, "owner", "{}", input);
                assert_eq!(repo, "repo", "{}", input);
            }
            other => panic!("unexpected {:?} for {}", other, input),
        }
    }
}

#[test]
fn blob_link_is_rewritten_to_raw() {
    match classify("https://github.com/o/r/blob/main/dir/file.sty") {
        Reference::BlobUrl { owner, repo, branch, file_path, raw_url } => {
            assert_eq!(owner, "o");
            assert_eq!(repo, "r");
            assert_eq!(branch, "main");
            assert_eq!(file_path, "dir/file.sty");
            assert_eq!(raw_url, "https://github.com/o/r/raw/main/dir/file.sty");
        }
        other => panic!("unexpected {:?}", other),
    }
}

#[test]
fn short_blob_link_is_a_file_link() {
    match classify("https://github.com/o/r/blob/main") {
        Reference::BlobUrl { branch, file_path, raw_url, .. } => {
            assert_eq!(branch, "main");
            assert_eq!(file_path, "");
            assert_eq!(raw_url, "https://github.com/o/r/raw/main");
        }
        other => panic!("unexpected {:?}", other),
    }
}

#[test]
fn link_without_scheme_names_the_normalized_alias() {
    match classify("github.com/owner") {
        Reference::AliasName { name } => assert_eq!(name, "https://github.com/owner"),
        other => panic!("unexpected {:?}", other),
    }
    match classify("https://github.com/o/r/tree/main") {
        Reference::AliasName { name } => assert_eq!(name, "https://github.com/o/r/tree/main"),
        other => panic!("unexpected {:?}", other),
    }
}

#[test]
fn raw_link_without_scheme_is_fetched_as_is() {
    match classify("github.com/o/r/raw/main/file.sty") {
        Reference::BlobUrl { raw_url, file_path, .. } => {
            assert_eq!(raw_url, "https://github.com/o/r/raw/main/file.sty");
            assert_eq!(file_path, "file.sty");
        }
        other => panic!("unexpected {:?}", other),
    }
}

#[test]
fn word_without_separator_is_an_alias_name() {
    match classify("rt") {
        Reference::AliasName { name } => assert_eq!(name, "rt"),
        other => panic!("unexpected {:?}", other),
    }
}

#[test]
fn three_segments_without_host_is_an_alias_name() {
    match classify("a/b/c") {
        Reference::AliasName { name } => assert_eq!(name, "a/b/c"),
        other => panic!("unexpected {:?}", other),
    }
}

#[test]
fn empty_input_is_an_alias_name() {
    match classify("") {
        Reference::AliasName { name } => assert_eq!(name, ""),
        other => panic!("unexpected {:?}", other),
    }
}

#[test]
fn link_to_owner_only_is_an_alias_name() {
    match classify("https://github.com/owner") {
        Reference::AliasName { name } => assert_eq!(name, "https://github.com/owner"),
        other => panic!("unexpected {:?}", other),
    }
}

#[test]
fn normalization_adds_scheme_and_strips_separators() {
    assert_eq!(normalize_reference("github.com/o/r//"), "https://github.com/o/r");
    assert_eq!(normalize_reference("https://github.com/o/r"), "https://github.com/o/r");
    assert_eq!(normalize_reference("owner/repo/"), "owner/repo");
}

#[test]
fn import_name_is_the_last_segment() {
    assert_eq!(extract_import_name("https://github.com/o/r/raw/main/x.sty"), "x.sty");
    assert_eq!(extract_import_name("plain"), "plain");
    assert_eq!(extract_import_name("ends/with/"), "");
}

#[test]
fn listing_link_names_owner_and_repo() {
    assert_eq!(
        listing_url("realTristan", "realtristan.sty"),
        "https://api.github.com/repos/realTristan/realtristan.sty/contents/"
    );
}
