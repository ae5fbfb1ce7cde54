//! Classification of the references a user hands to `install`.
use vstd::prelude::*;

use crate::text::{
    concat_str, contains_str, contains_text, ends_with, ends_with_str, join_on, join_path,
    lemma_split_concat, lemma_split_without_sep, occurs_at, same_text, split_on, split_str,
    strip_suffix, strip_suffix_str, strip_trailing, strip_trailing_str, views,
};

verus! {

/// What a reference names.
#[derive(Debug)]
pub enum Reference {
    /// `owner/repo`, without any host.
    Shorthand { owner: String, repo_or_file: String },
    /// `scheme://host/owner/repo`, with any `.git` suffix taken off `repo`.
    RepoUrl { owner: String, repo: String },
    /// A link to one file of a repository; `raw_url` fetches its raw content.
    BlobUrl { owner: String, repo: String, branch: String, file_path: String, raw_url: String },
    /// Anything else: the name of a stored alias.
    AliasName { name: String },
}

/// The mathematical content of a [`Reference`].
pub ghost enum ReferenceView {
    Shorthand { owner: Seq<char>, repo_or_file: Seq<char> },
    RepoUrl { owner: Seq<char>, repo: Seq<char> },
    BlobUrl {
        owner: Seq<char>,
        repo: Seq<char>,
        branch: Seq<char>,
        file_path: Seq<char>,
        raw_url: Seq<char>,
    },
    AliasName { name: Seq<char> },
}

impl View for Reference {
    type V = ReferenceView;

    open spec fn view(&self) -> ReferenceView {
        match self {
            Reference::Shorthand { owner, repo_or_file } => ReferenceView::Shorthand {
                owner: owner@,
                repo_or_file: repo_or_file@,
            },
            Reference::RepoUrl { owner, repo } => ReferenceView::RepoUrl {
                owner: owner@,
                repo: repo@,
            },
            Reference::BlobUrl { owner, repo, branch, file_path, raw_url } => ReferenceView::BlobUrl {
                owner: owner@,
                repo: repo@,
                branch: branch@,
                file_path: file_path@,
                raw_url: raw_url@,
            },
            Reference::AliasName { name } => ReferenceView::AliasName { name: name@ },
        }
    }
}

/// The text that marks a reference as a link to the hosting platform.
pub open spec fn host_marker() -> Seq<char> {
    "github.com/"@
}

/// The scheme put in front of a link that has none.
pub open spec fn default_scheme() -> Seq<char> {
    "https://"@
}

/// The suffix that a clone link may carry after the repository name.
pub open spec fn git_suffix() -> Seq<char> {
    ".git"@
}

/// `t` contains the host marker.
pub open spec fn is_link(t: Seq<char>) -> bool {
    contains_text(t, host_marker())
}

/// `t` starts with `scheme://`.
pub open spec fn has_scheme(t: Seq<char>) -> bool {
    let p = split_on(t, '/');
    &&& p.len() >= 3
    &&& ends_with(p[0], ":"@)
    &&& p[1].len() == 0
}

/// The input without trailing separators, and with the default scheme in front of a link that
/// has no scheme.
pub open spec fn normalize(s: Seq<char>) -> Seq<char> {
    let t = strip_trailing(s, '/');
    if is_link(t) && !has_scheme(t) {
        default_scheme() + t
    } else {
        t
    }
}

/// The path segment that marks a link to one file.
pub open spec fn is_file_marker(seg: Seq<char>) -> bool {
    seg == "blob"@ || seg == "raw"@
}

/// The index of the first file marker at `i` or after it.
pub open spec fn first_marker_from(p: Seq<Seq<char>>, i: int) -> Option<int>
    decreases p.len() - i,
{
    if i < 0 || i >= p.len() {
        None
    } else if is_file_marker(p[i]) {
        Some(i)
    } else {
        first_marker_from(p, i + 1)
    }
}

/// The segments of a file link with every `blob` after the repository turned into `raw`.
pub open spec fn raw_segments(p: Seq<Seq<char>>) -> Seq<Seq<char>> {
    Seq::new(p.len(), |i: int| if i >= 5 && p[i] == "blob"@ { "raw"@ } else { p[i] })
}

/// How a reference is classified: a link with exactly owner and repository is a repository; a
/// longer link with a `blob` (or `raw`) segment after the repository is a file link, fetched
/// raw; any other text with exactly one separator is a shorthand; the rest, normalized, names an
/// alias.
pub open spec fn classify_spec(s: Seq<char>) -> ReferenceView {
    let t = strip_trailing(s, '/');
    if is_link(t) {
        let p = split_on(normalize(s), '/');
        if p.len() == 5 {
            ReferenceView::RepoUrl { owner: p[3], repo: strip_suffix(p[4], git_suffix()) }
        } else if p.len() > 5 && first_marker_from(p, 5) is Some {
            let m = first_marker_from(p, 5)->0;
            ReferenceView::BlobUrl {
                owner: p[3],
                repo: p[4],
                branch: if m + 1 < p.len() {
                    p[m + 1]
                } else {
                    Seq::empty()
                },
                file_path: if m + 2 < p.len() {
                    join_on(p.skip(m + 2), '/')
                } else {
                    Seq::empty()
                },
                raw_url: join_on(raw_segments(p), '/'),
            }
        } else {
            ReferenceView::AliasName { name: normalize(s) }
        }
    } else {
        let p = split_on(t, '/');
        if p.len() == 2 {
            ReferenceView::Shorthand { owner: p[0], repo_or_file: p[1] }
        } else {
            ReferenceView::AliasName { name: t }
        }
    }
}

/// Strips trailing separators and puts the default scheme in front of a link without one.
pub fn normalize_reference(input: &str) -> (r: String)
    ensures
        r@ == normalize(input@),
{
    let t = strip_trailing_str(input, '/');
    if contains_str(t.as_str(), "github.com/") && !starts_with_scheme(t.as_str()) {
        concat_str("https://", t.as_str())
    } else {
        t
    }
}

fn starts_with_scheme(t: &str) -> (r: bool)
    ensures
        r == has_scheme(t@),
{
    let p = split_str(t, '/');
    proof {
        assert(views(p@).len() == p@.len());
    }
    if p.len() < 3 {
        return false;
    }
    proof {
        assert(views(p@)[0] == p@[0]@);
        assert(views(p@)[1] == p@[1]@);
    }
    ends_with_str(p[0].as_str(), ":") && p[1].as_str().is_empty()
}

/// The strings `segs[from..]`.
fn segments_from(segs: &Vec<String>, from: usize) -> (r: Vec<String>)
    requires
        from <= segs@.len(),
    ensures
        views(r@) == views(segs@).skip(from as int),
{
    let mut r: Vec<String> = Vec::new();
    let mut k: usize = from;
    while k < segs.len()
        invariant
            from <= k <= segs@.len(),
            views(r@) == views(segs@).subrange(from as int, k as int),
        decreases segs@.len() - k,
    {
        let ghost before = views(r@);
        r.push(segs[k].clone());
        assert(views(r@) =~= views(segs@).subrange(from as int, k + 1)) by {
            assert(views(r@) =~= before.push(segs@[k as int]@));
        }
        k = k + 1;
    }
    assert(views(segs@).subrange(from as int, segs@.len() as int) =~= views(segs@).skip(
        from as int,
    ));
    r
}

fn is_marker(seg: &str) -> (r: bool)
    ensures
        r == is_file_marker(seg@),
{
    same_text(seg, "blob") || same_text(seg, "raw")
}

/// The index of the first file marker after the repository segments.
fn find_marker(segs: &Vec<String>) -> (r: Option<usize>)
    ensures
        match r {
            Some(m) => first_marker_from(views(segs@), 5) == Some(m as int) && 5 <= m < segs@.len(),
            None => first_marker_from(views(segs@), 5) is None,
        },
{
    let ghost pv = views(segs@);
    let mut i: usize = 5;
    while i < segs.len()
        invariant
            5 <= i,
            pv == views(segs@),
            first_marker_from(pv, 5) == first_marker_from(pv, i as int),
            forall|k: int| 5 <= k < i ==> !is_file_marker(#[trigger] pv[k]),
        decreases segs@.len() - i,
    {
        assert(pv[i as int] == segs@[i as int]@);
        if is_marker(segs[i].as_str()) {
            return Some(i);
        }
        i = i + 1;
    }
    None
}

/// The segments with every `blob` after the repository turned into `raw`.
fn raw_link_segments(segs: &Vec<String>) -> (r: Vec<String>)
    ensures
        views(r@) == raw_segments(views(segs@)),
{
    let ghost pv = views(segs@);
    let mut r: Vec<String> = Vec::new();
    let mut k: usize = 0;
    while k < segs.len()
        invariant
            k <= segs@.len(),
            pv == views(segs@),
            views(r@) == raw_segments(pv).subrange(0, k as int),
        decreases segs@.len() - k,
    {
        let ghost before = views(r@);
        assert(pv[k as int] == segs@[k as int]@);
        let s = if k >= 5 && same_text(segs[k].as_str(), "blob") {
            "raw".to_owned()
        } else {
            segs[k].clone()
        };
        r.push(s);
        assert(views(r@) =~= raw_segments(pv).subrange(0, k + 1)) by {
            assert(views(r@) =~= before.push(s@));
        }
        k = k + 1;
    }
    assert(raw_segments(pv).subrange(0, segs@.len() as int) =~= raw_segments(pv));
    r
}

/// Classifies a reference. Never fails: what is neither a link nor an `owner/repo` pair is an
/// alias name.
pub fn classify(input: &str) -> (r: Reference)
    ensures
        r@ == classify_spec(input@),
{
    let t = strip_trailing_str(input, '/');
    if contains_str(t.as_str(), "github.com/") {
        let n = normalize_reference(input);
        let p = split_str(n.as_str(), '/');
        let ghost pv = views(p@);
        assert(pv.len() == p@.len());
        if p.len() == 5 {
            assert(pv[3] == p@[3]@ && pv[4] == p@[4]@);
            let repo = strip_suffix_str(p[4].as_str(), ".git");
            Reference::RepoUrl { owner: p[3].clone(), repo }
        } else if p.len() > 5 {
            assert(pv[3] == p@[3]@ && pv[4] == p@[4]@);
            match find_marker(&p) {
                Some(m) => {
                    let branch = if m + 1 < p.len() {
                        assert(pv[m + 1] == p@[m + 1]@);
                        p[m + 1].clone()
                    } else {
                        String::new()
                    };
                    let file_path = if p.len() - m > 2 {
                        join_path(&segments_from(&p, m + 2))
                    } else {
                        String::new()
                    };
                    Reference::BlobUrl {
                        owner: p[3].clone(),
                        repo: p[4].clone(),
                        branch,
                        file_path,
                        raw_url: join_path(&raw_link_segments(&p)),
                    }
                },
                None => Reference::AliasName { name: n },
            }
        } else {
            Reference::AliasName { name: n }
        }
    } else {
        let p = split_str(t.as_str(), '/');
        let ghost pv = views(p@);
        assert(pv.len() == p@.len());
        if p.len() == 2 {
            assert(pv[0] == p@[0]@ && pv[1] == p@[1]@);
            Reference::Shorthand { owner: p[0].clone(), repo_or_file: p[1].clone() }
        } else {
            Reference::AliasName { name: t }
        }
    }
}

/// A pair `owner/repo` that holds exactly one separator, does not end with one and carries no
/// link marker is a shorthand whose two fields are the two segments, in order.
pub proof fn shorthand_pair_law(owner: Seq<char>, repo: Seq<char>)
    requires
        !owner.contains('/'),
        !repo.contains('/'),
        repo.len() > 0,
        !is_link(owner + seq!['/'] + repo),
    ensures
        classify_spec(owner + seq!['/'] + repo) == (ReferenceView::Shorthand {
            owner,
            repo_or_file: repo,
        }),
{
    let s = owner + seq!['/'] + repo;
    assert(s.last() == repo[repo.len() - 1]);
    assert(strip_trailing(s, '/') == s);
    lemma_split_concat(owner, repo, '/');
    lemma_split_without_sep(owner, '/');
    lemma_split_without_sep(repo, '/');
    assert(split_on(s, '/') =~= seq![owner, repo]);
}

/// `scheme://host/owner/last`.
pub open spec fn repo_link(
    scheme: Seq<char>,
    host: Seq<char>,
    owner: Seq<char>,
    last: Seq<char>,
) -> Seq<char> {
    scheme + seq![':', '/', '/'] + host + seq!['/'] + owner + seq!['/'] + last
}

proof fn lemma_repo_link(scheme: Seq<char>, host: Seq<char>, owner: Seq<char>, last: Seq<char>)
    requires
        !scheme.contains('/'),
        !host.contains('/'),
        !owner.contains('/'),
        !last.contains('/'),
        last.len() > 0,
        is_link(host + seq!['/']),
    ensures
        classify_spec(repo_link(scheme, host, owner, last)) == (ReferenceView::RepoUrl {
            owner,
            repo: strip_suffix(last, git_suffix()),
        }),
{
    let u = repo_link(scheme, host, owner, last);
    let a = scheme + seq![':'];
    let e = Seq::<char>::empty();
    let d = owner + seq!['/'] + last;
    let c = host + seq!['/'] + d;
    let b = e + seq!['/'] + c;
    assert(u =~= a + seq!['/'] + b);
    assert(!a.contains('/')) by {
        if a.contains('/') {
            let k = choose|k: int| 0 <= k < a.len() && a[k] == '/';
            if k < scheme.len() {
                assert(scheme[k] == '/');
            }
        }
    }
    lemma_split_concat(owner, last, '/');
    lemma_split_concat(host, d, '/');
    lemma_split_concat(e, c, '/');
    lemma_split_concat(a, b, '/');
    lemma_split_without_sep(a, '/');
    lemma_split_without_sep(e, '/');
    lemma_split_without_sep(host, '/');
    lemma_split_without_sep(owner, '/');
    lemma_split_without_sep(last, '/');
    let p = split_on(u, '/');
    assert(p =~= seq![a, e, host, owner, last]);
    assert(u.last() == last[last.len() - 1]);
    assert(strip_trailing(u, '/') == u);
    let h = host + seq!['/'];
    let i = choose|i: int| occurs_at(h, host_marker(), i);
    let off = a.len() + 2;
    assert(u =~= (a + seq!['/', '/']) + h + (owner + seq!['/'] + last));
    assert(u.subrange(off + i, off + i + host_marker().len()) =~= h.subrange(
        i,
        i + host_marker().len(),
    ));
    assert(occurs_at(u, host_marker(), off + i));
    reveal_strlit(":");
    assert(a.subrange(a.len() - 1, a.len() as int) =~= ":"@);
    assert(has_scheme(u));
    assert(normalize(u) == u);
}

/// A repository link `scheme://host/owner/repo` and the same link with `.git` after the
/// repository name both classify as the repository `owner/repo`.
pub proof fn repo_link_git_suffix_law(
    scheme: Seq<char>,
    host: Seq<char>,
    owner: Seq<char>,
    repo: Seq<char>,
)
    requires
        !scheme.contains('/'),
        !host.contains('/'),
        !owner.contains('/'),
        !repo.contains('/'),
        repo.len() > 0,
        !ends_with(repo, git_suffix()),
        is_link(host + seq!['/']),
    ensures
        classify_spec(repo_link(scheme, host, owner, repo)) == (ReferenceView::RepoUrl {
            owner,
            repo,
        }),
        classify_spec(repo_link(scheme, host, owner, repo + git_suffix())) == (
        ReferenceView::RepoUrl { owner, repo }),
{
    lemma_repo_link(scheme, host, owner, repo);
    let g = git_suffix();
    let r = repo + g;
    reveal_strlit(".git");
    assert(!r.contains('/')) by {
        if r.contains('/') {
            let k = choose|k: int| 0 <= k < r.len() && r[k] == '/';
            if k < repo.len() {
                assert(repo[k] == '/');
            }
        }
    }
    lemma_repo_link(scheme, host, owner, r);
    assert(r.subrange(r.len() - g.len(), r.len() as int) =~= g);
    assert(r.subrange(0, r.len() - g.len()) =~= repo);
}

proof fn lemma_strip_trailing_prefix(a: Seq<char>, s: Seq<char>, c: char)
    requires
        strip_trailing(s, c).len() > 0,
    ensures
        strip_trailing(a + s, c) == a + strip_trailing(s, c),
    decreases s.len(),
{
    if s.len() > 0 && s.last() == c {
        assert((a + s).drop_last() =~= a + s.drop_last());
        lemma_strip_trailing_prefix(a, s.drop_last(), c);
    } else {
        assert(s.len() > 0);
        assert((a + s).last() == s.last());
    }
}

/// A link written without a scheme is classified exactly as the same link with the default
/// scheme in front.
pub proof fn default_scheme_law(s: Seq<char>)
    requires
        is_link(strip_trailing(s, '/')),
        !has_scheme(strip_trailing(s, '/')),
    ensures
        classify_spec(default_scheme() + s) == classify_spec(s),
{
    let t = strip_trailing(s, '/');
    let d = default_scheme();
    let i = choose|i: int| occurs_at(t, host_marker(), i);
    reveal_strlit("github.com/");
    assert(t.len() > 0);
    lemma_strip_trailing_prefix(d, s, '/');
    let u = d + t;
    assert(u.subrange(d.len() + i, d.len() + i + host_marker().len()) =~= t.subrange(
        i,
        i + host_marker().len(),
    ));
    assert(occurs_at(u, host_marker(), d.len() + i));
    reveal_strlit("https://");
    reveal_strlit(":");
    let h = seq!['h', 't', 't', 'p', 's', ':'];
    let e = Seq::<char>::empty();
    assert(d =~= seq!['h', 't', 't', 'p', 's', ':', '/', '/']);
    assert(u =~= h + seq!['/'] + (e + seq!['/'] + t));
    lemma_split_concat(h, e + seq!['/'] + t, '/');
    lemma_split_concat(e, t, '/');
    lemma_split_without_sep(e, '/');
    assert(!h.contains('/')) by {
        if h.contains('/') {
            let k = choose|k: int| 0 <= k < h.len() && h[k] == '/';
            assert(h[k] != '/');
        }
    }
    lemma_split_without_sep(h, '/');
    crate::text::lemma_split_nonempty(t, '/');
    let p = split_on(u, '/');
    assert(p[0] == h);
    assert(p[1] == e);
    assert(h.subrange(h.len() - 1, h.len() as int) =~= ":"@);
    assert(has_scheme(u));
    assert(normalize(d + s) == u);
}

/// The last segment of a path or link.
pub open spec fn last_segment(path: Seq<char>) -> Seq<char> {
    split_on(path, '/').last()
}

/// The name of the file that a path or link points at: its last segment.
pub fn extract_import_name(path: &str) -> (r: String)
    ensures
        r@ == last_segment(path@),
{
    let p = split_str(path, '/');
    proof {
        crate::text::lemma_split_nonempty(path@, '/');
        assert(views(p@).len() == p@.len());
        assert(views(p@)[p@.len() - 1] == p@[p@.len() - 1]@);
    }
    p[p.len() - 1].clone()
}

/// The repository-contents endpoint of `owner/repo`.
pub open spec fn listing_endpoint(owner: Seq<char>, repo: Seq<char>) -> Seq<char> {
    "https://api.github.com/repos/"@ + owner + "/"@ + repo + "/contents/"@
}

/// The link that lists the root of the repository `owner/repo`.
pub fn listing_url(owner: &str, repo: &str) -> (r: String)
    ensures
        r@ == listing_endpoint(owner@, repo@),
{
    let a = concat_str("https://api.github.com/repos/", owner);
    let b = concat_str(a.as_str(), "/");
    let c = concat_str(b.as_str(), repo);
    concat_str(c.as_str(), "/contents/")
}

} // verus!
