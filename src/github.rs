//! Repository references: parsing, install names, and the archive that holds a folder.

use vstd::prelude::*;
use crate::models::{GitHubRepo, InstallError, ParseError, RepoRefView, SkillsError};
use crate::segments::{
    find_from, join_slash_seq, lemma_join_append, lemma_join_split, lemma_split_last_nonempty,
    lemma_segment_contained, lemma_split_concat, lemma_split_no_slash, lemma_split_nonempty,
    lemma_trim_no_trailing, split_on_slash, split_slash, trim_end_slashes,
    trim_end_slashes_str, views,
};
use crate::text::{concat, join_slash, seq_contains, str_contains, str_equal};

verus! {

/// The segment that marks the host in a reference.
pub open spec fn host_marker() -> Seq<char> {
    "github.com"@
}

/// The segment that introduces a branch and a path.
pub open spec fn tree_word() -> Seq<char> {
    "tree"@
}

/// The branch taken when a reference names none.
pub open spec fn default_branch() -> Seq<char> {
    "main"@
}

/// What parsing `url` yields.
pub open spec fn parse_spec(url: Seq<char>) -> Result<RepoRefView, ParseError> {
    let t = trim_end_slashes(url);
    let parts = split_slash(t);
    let h = find_from(parts, host_marker(), 0);
    if parts.len() < 5 || !seq_contains(t, host_marker()) {
        Err(ParseError::InvalidFormat)
    } else if h < 0 {
        Err(ParseError::HostNotFound)
    } else if h + 1 >= parts.len() {
        Err(ParseError::OwnerNotFound)
    } else if h + 2 >= parts.len() {
        Err(ParseError::RepoNotFound)
    } else {
        let tr = find_from(parts, tree_word(), h + 1);
        if tr < 0 {
            Ok(RepoRefView {
                owner: parts[h + 1],
                repo: parts[h + 2],
                branch: default_branch(),
                path: Seq::empty(),
            })
        } else if tr + 1 >= parts.len() {
            Err(ParseError::BranchNotFound)
        } else {
            Ok(RepoRefView {
                owner: parts[h + 1],
                repo: parts[h + 2],
                branch: parts[tr + 1],
                path: join_slash_seq(parts.subrange(tr + 2, parts.len() as int)),
            })
        }
    }
}

/// `r` is what parsing `url` yields.
pub open spec fn parse_agrees(url: Seq<char>, r: Result<GitHubRepo, ParseError>) -> bool {
    match parse_spec(url) {
        Ok(v) => r is Ok && r->Ok_0@ == v,
        Err(e) => r is Err && r->Err_0 == e,
    }
}

/// Parses repository references of the form `https://<host>/<owner>/<repo>[/tree/<branch>/<path>]`.
pub trait GitHubUrlParser {
    fn parse(&self, url: &str) -> (r: Result<GitHubRepo, ParseError>)
        ensures
            parse_agrees(url@, r),
    ;
}

/// The parser of this library.
#[derive(Clone, Copy)]
pub struct DefaultGitHubUrlParser;

impl GitHubUrlParser for DefaultGitHubUrlParser {
    fn parse(&self, url: &str) -> (r: Result<GitHubRepo, ParseError>) {
        parse_github_url(url)
    }
}

/// Index of the first of `parts` at or after `from` that equals `target`.
fn position_from(parts: &Vec<String>, target: &str, from: usize) -> (r: Option<usize>)
    ensures
        match r {
            Some(j) => from <= j < parts.len() && j == find_from(views(parts@), target@, from as int),
            None => find_from(views(parts@), target@, from as int) == -1,
        },
{
    let ghost ps = views(parts@);
    let mut i: usize = from;
    if i >= parts.len() {
        return None;
    }
    while i < parts.len()
        invariant
            from <= i <= parts.len(),
            ps == views(parts@),
            find_from(ps, target@, from as int) == find_from(ps, target@, i as int),
        decreases parts.len() - i,
    {
        if str_equal(parts[i].as_str(), target) {
            return Some(i);
        }
        i = i + 1;
    }
    None
}

/// The segments `parts[from..]` joined with slashes.
fn join_from(parts: &Vec<String>, from: usize) -> (r: String)
    requires
        from <= parts.len(),
    ensures
        r@ == join_slash_seq(views(parts@).subrange(from as int, parts.len() as int)),
{
    let ghost ps = views(parts@);
    let mut acc = String::new();
    let mut i: usize = from;
    assert(ps.subrange(from as int, from as int) =~= Seq::<Seq<char>>::empty());
    while i < parts.len()
        invariant
            from <= i <= parts.len(),
            ps == views(parts@),
            acc@ == join_slash_seq(ps.subrange(from as int, i as int)),
        decreases parts.len() - i,
    {
        let ghost sub = ps.subrange(from as int, i + 1);
        assert(sub.drop_last() =~= ps.subrange(from as int, i as int));
        if i == from {
            acc = parts[i].clone();
        } else {
            acc = join_slash(acc.as_str(), parts[i].as_str());
        }
        i = i + 1;
    }
    acc
}

/// Parse a repository reference into owner, repository, branch and path.
pub fn parse_github_url(url: &str) -> (r: Result<GitHubRepo, ParseError>)
    ensures
        parse_agrees(url@, r),
{
    let t = trim_end_slashes_str(url);
    let parts = split_on_slash(t);
    let ghost ps = views(parts@);
    if parts.len() < 5 || !str_contains(t, "github.com") {
        return Err(ParseError::InvalidFormat);
    }
    let h = match position_from(&parts, "github.com", 0) {
        Some(h) => h,
        None => {
            return Err(ParseError::HostNotFound);
        },
    };
    if h + 1 >= parts.len() {
        return Err(ParseError::OwnerNotFound);
    }
    if h + 2 >= parts.len() {
        return Err(ParseError::RepoNotFound);
    }
    let owner = parts[h + 1].clone();
    let repo = parts[h + 2].clone();
    match position_from(&parts, "tree", h + 1) {
        None => Ok(GitHubRepo { owner, repo, branch: String::from_str("main"), path: String::new() }),
        Some(tr) => {
            if tr + 1 >= parts.len() {
                return Err(ParseError::BranchNotFound);
            }
            let branch = parts[tr + 1].clone();
            let path = join_from(&parts, tr + 2);
            Ok(GitHubRepo { owner, repo, branch, path })
        },
    }
}

/// Where a branch archive comes from and where its folder goes.
#[derive(Debug)]
pub struct ArchivePlan {
    /// The branch archive to download.
    pub zip_url: String,
    /// The folder to copy, relative to the directory the archive is extracted into.
    pub source_dir: String,
    /// The path inside the repository that was asked for; empty for the whole repository.
    pub subpath: String,
    /// The folder that receives the copy.
    pub dest_dir: String,
}

/// The branch archive of a repository reference.
pub open spec fn archive_url_spec(r: RepoRefView) -> Seq<char> {
    "https://github.com/"@ + r.owner + seq!['/'] + r.repo + "/archive/refs/heads/"@ + r.branch
        + ".zip"@
}

/// The top directory of the extracted archive: `{repo}-{branch}`.
pub open spec fn archive_root_spec(r: RepoRefView) -> Seq<char> {
    r.repo + seq!['-'] + r.branch
}

/// The folder of the extracted archive that holds the requested path.
pub open spec fn source_dir_spec(r: RepoRefView) -> Seq<char> {
    if r.path.len() == 0 {
        archive_root_spec(r)
    } else {
        archive_root_spec(r) + seq!['/'] + r.path
    }
}

/// Work out which archive to fetch, which folder of it to copy, and where to put it.
pub fn archive_plan(repo: &GitHubRepo, target_dir: &str, skill_name: &str) -> (p: ArchivePlan)
    ensures
        p.zip_url@ == archive_url_spec(repo@),
        p.source_dir@ == source_dir_spec(repo@),
        p.subpath@ == repo.path@,
        p.dest_dir@ == target_dir@ + seq!['/'] + skill_name@,
{
    proof {
        reveal_strlit("-");
    }
    let owner_repo = join_slash(repo.owner.as_str(), repo.repo.as_str());
    let a = concat("https://github.com/", owner_repo.as_str());
    let b = concat(a.as_str(), "/archive/refs/heads/");
    let c = concat(b.as_str(), repo.branch.as_str());
    let zip_url = concat(c.as_str(), ".zip");
    let root_head = concat(repo.repo.as_str(), "-");
    let root = concat(root_head.as_str(), repo.branch.as_str());
    let source_dir = if repo.path.unicode_len() == 0 {
        root
    } else {
        join_slash(root.as_str(), repo.path.as_str())
    };
    assert(zip_url@ =~= archive_url_spec(repo@));
    ArchivePlan {
        zip_url,
        source_dir,
        subpath: repo.path.clone(),
        dest_dir: join_slash(target_dir, skill_name),
    }
}

/// File-system and network work of an install, done by the embedding program.
pub trait FileSystem {
    /// Copy every file and directory under `src` into `dst`, keeping relative paths.
    fn copy_dir_all(&self, src: &str, dst: &str) -> Result<(), InstallError>;

    /// Create `path` and any missing parents.
    fn create_dir_all(&self, path: &str) -> Result<(), InstallError>;

    /// Write `content` to the file at `path`.
    fn write_file(&self, path: &str, content: &[u8]) -> Result<(), InstallError>;

    /// Download the archive of `plan`, extract it into a scoped temporary directory, check
    /// that its source folder exists and copy that folder to the destination.
    fn install_archive(&self, plan: &ArchivePlan) -> Result<(), InstallError>;
}

/// Fetches a folder of a repository into a target directory under an install name.
pub trait GitHubDownloader {
    fn download_folder(&self, repo: &GitHubRepo, target_dir: &str, skill_name: &str) -> Result<(), InstallError>;
}

/// Downloads through a [`FileSystem`].
pub struct DefaultGitHubDownloader<F: FileSystem> {
    file_system: F,
}

impl<F: FileSystem> DefaultGitHubDownloader<F> {
    pub fn new(file_system: F) -> (r: Self) {
        DefaultGitHubDownloader { file_system }
    }
}

impl<F: FileSystem> GitHubDownloader for DefaultGitHubDownloader<F> {
    fn download_folder(&self, repo: &GitHubRepo, target_dir: &str, skill_name: &str) -> Result<(), InstallError> {
        let plan = archive_plan(repo, target_dir, skill_name);
        self.file_system.install_archive(&plan)
    }
}

/// The install name of a path: its last component once trailing slashes are gone.
pub open spec fn skill_name_spec(path: Seq<char>) -> Seq<char> {
    split_slash(trim_end_slashes(path)).last()
}

/// Take the last component of `path` as an install name; a path with no component is refused.
pub fn extract_skill_name(path: &str) -> (r: Result<String, SkillsError>)
    ensures
        trim_end_slashes(path@).len() == 0 <==> r is Err,
        r is Err ==> r->Err_0 is EmptySkillName,
        r is Ok ==> r->Ok_0@ == skill_name_spec(path@) && r->Ok_0@.len() > 0,
{
    let t = trim_end_slashes_str(path);
    if t.unicode_len() == 0 {
        return Err(SkillsError::EmptySkillName);
    }
    proof {
        lemma_trim_no_trailing(path@);
        lemma_split_last_nonempty(t@);
    }
    let parts = split_on_slash(t);
    proof {
        lemma_split_nonempty(t@);
    }
    let last = parts.len() - 1;
    assert(views(parts@)[last as int] == parts@[last as int]@);
    Ok(parts[last].clone())
}

/// `owner/repo/tree/branch`, then `/path` when the path is not empty.
pub open spec fn reference_tail(r: RepoRefView) -> Seq<char> {
    let head = r.owner + seq!['/'] + r.repo + seq!['/'] + tree_word() + seq!['/'] + r.branch;
    if r.path.len() > 0 {
        head + seq!['/'] + r.path
    } else {
        head
    }
}

/// The reference names its branch with a `tree` segment right after owner and repository.
pub open spec fn tree_follows_repo(url: Seq<char>) -> bool {
    let parts = split_slash(trim_end_slashes(url));
    let h = find_from(parts, host_marker(), 0);
    h >= 0 && find_from(parts, tree_word(), h + 1) == h + 3
}

/// A found index lies in range and holds the segment sought.
proof fn lemma_find_from_found(parts: Seq<Seq<char>>, t: Seq<char>, from: int)
    ensures
        find_from(parts, t, from) == -1 || (from <= find_from(parts, t, from) < parts.len()
            && parts[find_from(parts, t, from)] == t),
    decreases parts.len() - from,
{
    if 0 <= from < parts.len() && parts[from] != t {
        lemma_find_from_found(parts, t, from + 1);
    }
}

/// With no segment equal to `t`, nothing is found.
proof fn lemma_find_from_absent(parts: Seq<Seq<char>>, t: Seq<char>, from: int)
    requires
        from >= 0,
        forall|k: int| 0 <= k < parts.len() ==> parts[k] != t,
    ensures
        find_from(parts, t, from) == -1,
    decreases parts.len() - from,
{
    if from < parts.len() {
        lemma_find_from_absent(parts, t, from + 1);
    }
}

/// A reference that parses and names its branch as `owner/repo/tree/branch[/path]` is
/// rebuilt exactly from the parsed parts: the trimmed reference is its text up to the host
/// marker, a slash, and `owner/repo/tree/branch` followed by `/path` when the path is not
/// empty. Only trailing slashes are lost.
pub proof fn lemma_parse_reconstructs(url: Seq<char>)
    requires
        parse_spec(url) is Ok,
        tree_follows_repo(url),
    ensures
        trim_end_slashes(url) == join_slash_seq(
            split_slash(trim_end_slashes(url)).take(
                find_from(split_slash(trim_end_slashes(url)), host_marker(), 0) + 1,
            ),
        ) + seq!['/'] + reference_tail(parse_spec(url)->Ok_0),
{
    let t = trim_end_slashes(url);
    let parts = split_slash(t);
    let h = find_from(parts, host_marker(), 0);
    let r = parse_spec(url)->Ok_0;
    lemma_find_from_found(parts, tree_word(), h + 1);
    lemma_join_split(t);
    let n = parts.len() as int;
    assert(parts =~= parts.take(h + 1) + parts.subrange(h + 1, n));
    lemma_join_append(parts.take(h + 1), parts.subrange(h + 1, n));
    let four = parts.subrange(h + 1, h + 5);
    let f1 = four.drop_last().drop_last().drop_last();
    let f2 = four.drop_last().drop_last();
    let f3 = four.drop_last();
    assert(f1 =~= seq![r.owner]);
    assert(f2 =~= seq![r.owner, r.repo]);
    assert(f3 =~= seq![r.owner, r.repo, tree_word()]);
    assert(join_slash_seq(f1) == r.owner);
    assert(join_slash_seq(f2) == join_slash_seq(f1) + seq!['/'] + r.repo);
    assert(join_slash_seq(f3) == join_slash_seq(f2) + seq!['/'] + tree_word());
    assert(join_slash_seq(four) == join_slash_seq(f3) + seq!['/'] + r.branch);
    assert(join_slash_seq(four) =~= r.owner + seq!['/'] + r.repo + seq!['/'] + tree_word() + seq!['/'] + r.branch);
    if n == h + 5 {
        assert(parts.subrange(h + 1, n) =~= four);
        assert(parts.subrange(h + 5, n) =~= Seq::<Seq<char>>::empty());
    } else {
        let rest = parts.subrange(h + 5, n);
        assert(parts.subrange(h + 1, n) =~= four + rest);
        lemma_join_append(four, rest);
        lemma_trim_no_trailing(url);
        lemma_split_last_nonempty(t);
        assert(rest.last() == parts.last());
        assert(join_slash_seq(rest).len() > 0) by {
            if rest.len() > 1 {
                assert(join_slash_seq(rest) == join_slash_seq(rest.drop_last()) + seq!['/'] + rest.last());
            }
        }
    }
}

/// The reference `https://github.com/{owner}/{repo}/tree/{branch}/{path}`.
pub open spec fn tree_reference(
    owner: Seq<char>,
    repo: Seq<char>,
    branch: Seq<char>,
    path: Seq<char>,
) -> Seq<char> {
    "https://github.com/"@ + owner + seq!['/'] + repo + "/tree/"@ + branch + seq!['/'] + path
}

/// `s` holds no slash.
pub open spec fn no_slash(s: Seq<char>) -> bool {
    forall|i: int| 0 <= i < s.len() ==> s[i] != '/'
}

/// Parsing `https://github.com/{owner}/{repo}/tree/{branch}/{path}`, with or without one
/// trailing slash, gives back exactly owner, repository, branch and path.
pub proof fn lemma_parse_round_trip(
    owner: Seq<char>,
    repo: Seq<char>,
    branch: Seq<char>,
    path: Seq<char>,
    trailing_slash: bool,
)
    requires
        no_slash(owner),
        no_slash(repo),
        no_slash(branch),
        owner != tree_word(),
        repo != tree_word(),
        path.len() > 0,
        path.last() != '/',
    ensures
        parse_spec(
            if trailing_slash {
                tree_reference(owner, repo, branch, path).push('/')
            } else {
                tree_reference(owner, repo, branch, path)
            },
        ) == Ok::<RepoRefView, ParseError>(
            RepoRefView { owner, repo, branch, path },
        ),
{
    reveal_strlit("https://github.com/");
    reveal_strlit("/tree/");
    reveal_strlit("github.com");
    reveal_strlit("tree");
    let url = tree_reference(owner, repo, branch, path);
    let u = if trailing_slash {
        url.push('/')
    } else {
        url
    };
    assert(url.last() == path.last());
    if trailing_slash {
        assert(u.drop_last() =~= url);
    }
    assert(trim_end_slashes(u) == url);
    let https = seq!['h', 't', 't', 'p', 's', ':'];
    let e = Seq::<char>::empty();
    let host = host_marker();
    let tw = tree_word();
    assert(host =~= seq!['g', 'i', 't', 'h', 'u', 'b', '.', 'c', 'o', 'm']);
    assert(tw =~= seq!['t', 'r', 'e', 'e']);
    let rest6 = branch + seq!['/'] + path;
    let rest5 = tw + seq!['/'] + rest6;
    let rest4 = repo + seq!['/'] + rest5;
    let rest3 = owner + seq!['/'] + rest4;
    let rest2 = host + seq!['/'] + rest3;
    let rest1 = e + seq!['/'] + rest2;
    let u0 = https + seq!['/'] + rest1;
    assert(u0 =~= url);
    lemma_split_no_slash(https);
    lemma_split_no_slash(e);
    lemma_split_no_slash(host);
    lemma_split_no_slash(tw);
    lemma_split_no_slash(owner);
    lemma_split_no_slash(repo);
    lemma_split_no_slash(branch);
    lemma_split_concat(branch, path);
    lemma_split_concat(tw, rest6);
    lemma_split_concat(repo, rest5);
    lemma_split_concat(owner, rest4);
    lemma_split_concat(host, rest3);
    lemma_split_concat(e, rest2);
    lemma_split_concat(https, rest1);
    let sp = split_slash(path);
    let parts = split_slash(url);
    assert(parts =~= seq![https, e, host, owner, repo, tw, branch] + sp);
    lemma_split_nonempty(path);
    let n = parts.len() as int;
    assert(parts[0] != host);
    assert(parts[1] != host);
    assert(parts[2] == host);
    assert(find_from(parts, host, 2) == 2);
    assert(find_from(parts, host, 1) == 2);
    assert(find_from(parts, host, 0) == 2);
    assert(parts[5] == tw && parts[4] == repo && parts[3] == owner);
    assert(find_from(parts, tw, 5) == 5);
    assert(find_from(parts, tw, 4) == 5);
    assert(find_from(parts, tw, 3) == 5);
    lemma_segment_contained(url, 2);
    assert(parts.subrange(7, n) =~= sp);
    lemma_join_split(path);
}

/// A reference with at least five segments, a host-marker segment followed by owner and
/// repository, and no `tree` segment anywhere parses to those owner and repository, the
/// default branch and an empty path.
pub proof fn lemma_no_tree_default_branch(url: Seq<char>)
    requires
        split_slash(trim_end_slashes(url)).len() >= 5,
        find_from(split_slash(trim_end_slashes(url)), host_marker(), 0) >= 0,
        find_from(split_slash(trim_end_slashes(url)), host_marker(), 0) + 2 < split_slash(
            trim_end_slashes(url),
        ).len(),
        forall|k: int|
            0 <= k < split_slash(trim_end_slashes(url)).len() ==> #[trigger] split_slash(
                trim_end_slashes(url),
            )[k] != tree_word(),
    ensures
        parse_spec(url) is Ok,
        parse_spec(url)->Ok_0.owner == split_slash(trim_end_slashes(url))[find_from(
            split_slash(trim_end_slashes(url)),
            host_marker(),
            0,
        ) + 1],
        parse_spec(url)->Ok_0.repo == split_slash(trim_end_slashes(url))[find_from(
            split_slash(trim_end_slashes(url)),
            host_marker(),
            0,
        ) + 2],
        parse_spec(url)->Ok_0.branch == default_branch(),
        parse_spec(url)->Ok_0.path.len() == 0,
{
    let t = trim_end_slashes(url);
    let parts = split_slash(t);
    let h = find_from(parts, host_marker(), 0);
    lemma_find_from_found(parts, host_marker(), 0);
    lemma_segment_contained(t, h);
    lemma_find_from_absent(parts, tree_word(), h + 1);
}

} // verus!
