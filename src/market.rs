//! Market registry: the registered sources and the de-duplicated list of places to look.

use vstd::prelude::*;
use crate::github::{parse_spec, GitHubUrlParser};
use crate::models::{
    ConfigError, GitHubContent, MarketEntry, ParseError, RepoRefView, RemoteError, SkillsError,
};
use crate::text::{concat, join_slash, str_equal};

verus! {

/// A place to look for skills: repository id `owner/repo`, path inside it, browse base URL,
/// and the name of the market it came from.
pub type RepoSource = (String, String, String, String);

/// Mathematical view of a [`RepoSource`].
pub type RepoSourceView = (Seq<char>, Seq<char>, Seq<char>, Seq<char>);

pub open spec fn source_view(s: RepoSource) -> RepoSourceView {
    (s.0@, s.1@, s.2@, s.3@)
}

pub open spec fn source_views(v: Seq<RepoSource>) -> Seq<RepoSourceView> {
    v.map_values(|s: RepoSource| source_view(s))
}

/// The built-in source, always first.
pub open spec fn default_source() -> RepoSourceView {
    (
        "anthropics/skills"@,
        "skills"@,
        "https://github.com/anthropics/skills/tree/main"@,
        "anthropics/skills"@,
    )
}

/// The de-duplication key of a source: `repo/path`.
pub open spec fn source_key(v: RepoSourceView) -> Seq<char> {
    v.0 + seq!['/'] + v.1
}

pub open spec fn has_key(list: Seq<RepoSourceView>, k: Seq<char>) -> bool {
    exists|i: int| 0 <= i < list.len() && source_key(#[trigger] list[i]) == k
}

/// `owner/repo` of a reference.
pub open spec fn repo_id(r: RepoRefView) -> Seq<char> {
    r.owner + seq!['/'] + r.repo
}

/// The source a market with display name `name` and parsed reference `r` stands for.
pub open spec fn source_of(r: RepoRefView, name: Seq<char>) -> RepoSourceView {
    (repo_id(r), r.path, "https://github.com/"@ + repo_id(r) + "/tree/"@ + r.branch, name)
}

/// Every market URL parses.
pub open spec fn all_parse(ms: Seq<MarketEntry>) -> bool {
    forall|i: int| 0 <= i < ms.len() ==> (#[trigger] parse_spec(ms[i].url@)) is Ok
}

/// The sources of a list of markets: the built-in one, then each market in order unless a
/// source with its key is already there.
pub open spec fn repositories_spec(ms: Seq<MarketEntry>) -> Seq<RepoSourceView>
    decreases ms.len(),
{
    if ms.len() == 0 {
        seq![default_source()]
    } else {
        let prev = repositories_spec(ms.drop_last());
        let v = source_of(parse_spec(ms.last().url@)->Ok_0, ms.last().name@);
        if has_key(prev, source_key(v)) {
            prev
        } else {
            prev.push(v)
        }
    }
}

/// `e` is the parse error of the first market whose URL does not parse.
pub open spec fn first_parse_error(ms: Seq<MarketEntry>, e: ParseError) -> bool {
    exists|i: int|
        0 <= i < ms.len() && all_parse(ms.take(i)) && #[trigger] parse_spec(ms[i].url@) == Err::<
            RepoRefView,
            ParseError,
        >(e)
}

/// Mathematical view of a market entry: `(name, url)`.
pub open spec fn entry_views(ms: Seq<MarketEntry>) -> Seq<(Seq<char>, Seq<char>)> {
    ms.map_values(|m: MarketEntry| (m.name@, m.url@))
}

pub open spec fn has_url(ms: Seq<(Seq<char>, Seq<char>)>, url: Seq<char>) -> bool {
    exists|i: int| 0 <= i < ms.len() && (#[trigger] ms[i]).1 == url
}

/// The market list after adding `(name, url)`: unchanged when the URL is already there.
pub open spec fn add_spec(ms: Seq<(Seq<char>, Seq<char>)>, name: Seq<char>, url: Seq<char>) -> Seq<
    (Seq<char>, Seq<char>),
> {
    if has_url(ms, url) {
        ms
    } else {
        ms.push((name, url))
    }
}

/// How many entries of `ms` have the URL `url`.
pub open spec fn url_count(ms: Seq<(Seq<char>, Seq<char>)>, url: Seq<char>) -> nat
    decreases ms.len(),
{
    if ms.len() == 0 {
        0
    } else {
        url_count(ms.drop_last(), url) + if ms.last().1 == url {
            1nat
        } else {
            0nat
        }
    }
}

/// The sources of any list of markets start with the built-in one, and no two of them share
/// a `repo/path` key.
pub proof fn lemma_repositories_unique(ms: Seq<MarketEntry>)
    ensures
        repositories_spec(ms).len() >= 1,
        repositories_spec(ms)[0] == default_source(),
        forall|i: int, j: int|
            0 <= i < j < repositories_spec(ms).len() ==> source_key(
                #[trigger] repositories_spec(ms)[i],
            ) != source_key(#[trigger] repositories_spec(ms)[j]),
    decreases ms.len(),
{
    if ms.len() > 0 {
        lemma_repositories_unique(ms.drop_last());
        let prev = repositories_spec(ms.drop_last());
        let v = source_of(parse_spec(ms.last().url@)->Ok_0, ms.last().name@);
        if !has_key(prev, source_key(v)) {
            let cur = prev.push(v);
            assert forall|i: int, j: int| 0 <= i < j < cur.len() implies source_key(
                #[trigger] cur[i],
            ) != source_key(#[trigger] cur[j]) by {
                if j == prev.len() {
                    assert(source_key(prev[i]) != source_key(v));
                } else {
                    assert(cur[i] == prev[i] && cur[j] == prev[j]);
                }
            }
        }
    }
}

/// Some entry has the URL exactly when the count is positive.
proof fn lemma_url_count_has(ms: Seq<(Seq<char>, Seq<char>)>, url: Seq<char>)
    ensures
        url_count(ms, url) > 0 <==> has_url(ms, url),
    decreases ms.len(),
{
    if ms.len() > 0 {
        let d = ms.drop_last();
        lemma_url_count_has(d, url);
        if has_url(d, url) {
            let i = choose|i: int| 0 <= i < d.len() && (#[trigger] d[i]).1 == url;
            assert(ms[i] == d[i]);
        }
        if has_url(ms, url) && ms.last().1 != url {
            let i = choose|i: int| 0 <= i < ms.len() && (#[trigger] ms[i]).1 == url;
            assert(d[i] == ms[i]);
        }
    }
}

/// Adding a market URL twice, to a list holding it at most once, leaves exactly one entry
/// with that URL.
pub proof fn lemma_add_twice_single(
    ms: Seq<(Seq<char>, Seq<char>)>,
    first_name: Seq<char>,
    second_name: Seq<char>,
    url: Seq<char>,
)
    requires
        url_count(ms, url) <= 1,
    ensures
        url_count(add_spec(add_spec(ms, first_name, url), second_name, url), url) == 1,
{
    lemma_url_count_has(ms, url);
    let once = add_spec(ms, first_name, url);
    if !has_url(ms, url) {
        assert(once.drop_last() =~= ms);
        assert(once[once.len() - 1].1 == url);
    }
    lemma_url_count_has(once, url);
}

/// Persisted list of registered markets.
pub trait MarketStorage {
    fn load(&self) -> Result<Vec<MarketEntry>, ConfigError>;

    fn save(&self, markets: &[MarketEntry]) -> Result<(), ConfigError>;
}

/// Lists a directory of a remote repository.
pub trait GitHubApiClient {
    fn get_directory_contents(&self, repo: &str, path: &str) -> Result<Vec<GitHubContent>, RemoteError>;
}

/// What adding a market did.
#[derive(Debug, Clone, Copy, PartialEq, Eq, Structural)]
pub enum AddOutcome {
    Added,
    AlreadyPresent,
}

/// Append `(name, url)` to `markets` unless an entry with that URL is already there.
pub fn add_entry(markets: &mut Vec<MarketEntry>, name: String, url: &str) -> (added: bool)
    ensures
        added == !has_url(entry_views(old(markets)@), url@),
        entry_views(final(markets)@) == add_spec(entry_views(old(markets)@), name@, url@),
{
    let ghost mv = entry_views(markets@);
    let mut i: usize = 0;
    while i < markets.len()
        invariant
            i <= markets.len(),
            mv == entry_views(markets@),
            forall|j: int| 0 <= j < i ==> (#[trigger] mv[j]).1 != url@,
        decreases markets.len() - i,
    {
        if str_equal(markets[i].url.as_str(), url) {
            assert(mv[i as int].1 == url@);
            return false;
        }
        i = i + 1;
    }
    let entry = MarketEntry { name, url: String::from_str(url) };
    let ghost ev = (entry.name@, entry.url@);
    markets.push(entry);
    assert(entry_views(markets@) =~= mv.push(ev));
    true
}

/// Whether a source with key `key` is in `list`.
fn contains_key(list: &Vec<RepoSource>, key: &str) -> (r: bool)
    ensures
        r == has_key(source_views(list@), key@),
{
    let ghost lv = source_views(list@);
    let mut i: usize = 0;
    while i < list.len()
        invariant
            i <= list.len(),
            lv == source_views(list@),
            forall|j: int| 0 <= j < i ==> source_key(#[trigger] lv[j]) != key@,
        decreases list.len() - i,
    {
        let k = join_slash(list[i].0.as_str(), list[i].1.as_str());
        if str_equal(k.as_str(), key) {
            assert(source_key(lv[i as int]) == key@);
            return true;
        }
        i = i + 1;
    }
    false
}

/// The built-in source.
fn default_repository() -> (r: RepoSource)
    ensures
        source_view(r) == default_source(),
{
    (
        String::from_str("anthropics/skills"),
        String::from_str("skills"),
        String::from_str("https://github.com/anthropics/skills/tree/main"),
        String::from_str("anthropics/skills"),
    )
}

/// Keeps the registered markets and turns them into sources to search.
pub struct MarketService<S: MarketStorage, U: GitHubUrlParser> {
    storage: S,
    url_parser: U,
}

impl<S: MarketStorage, U: GitHubUrlParser> MarketService<S, U> {
    pub fn new(storage: S, url_parser: U) -> (r: Self) {
        MarketService { storage, url_parser }
    }

    /// Register the market at `url`, unless one with the identical URL is already registered.
    /// A URL that does not parse is refused with its parse error; storage failures are
    /// passed on as configuration errors.
    pub fn add_market(&self, url: &str) -> (r: Result<AddOutcome, SkillsError>)
        ensures
            parse_spec(url@) is Err ==> r is Err && (r->Err_0 is Config || r->Err_0
                == SkillsError::Parse(parse_spec(url@)->Err_0)),
            r is Ok ==> parse_spec(url@) is Ok,
            r is Err ==> r->Err_0 is Config || r->Err_0 is Parse,
            r is Err && r->Err_0 is Parse ==> r->Err_0 == SkillsError::Parse(
                parse_spec(url@)->Err_0,
            ) && parse_spec(url@) is Err,
    {
        let mut markets = match self.storage.load() {
            Ok(m) => m,
            Err(e) => {
                return Err(SkillsError::Config(e));
            },
        };
        let name = match self.extract_repo_name(url) {
            Ok(n) => n,
            Err(e) => {
                return Err(e);
            },
        };
        if !add_entry(&mut markets, name, url) {
            return Ok(AddOutcome::AlreadyPresent);
        }
        match self.storage.save(markets.as_slice()) {
            Ok(()) => Ok(AddOutcome::Added),
            Err(e) => Err(SkillsError::Config(e)),
        }
    }

    /// The sources to search, for the markets that the storage holds.
    pub fn get_repositories(&self) -> (r: Result<Vec<RepoSource>, SkillsError>)
        ensures
            r is Ok ==> exists|ms: Seq<MarketEntry>|
                all_parse(ms) && source_views(r->Ok_0@) == #[trigger] repositories_spec(ms),
            r is Err ==> r->Err_0 is Config || r->Err_0 is Parse,
    {
        let markets = match self.storage.load() {
            Ok(m) => m,
            Err(e) => {
                return Err(SkillsError::Config(e));
            },
        };
        let r = self.repositories_from(&markets);
        if let Ok(v) = &r {
            assert(all_parse(markets@) && source_views(v@) == repositories_spec(markets@));
        }
        r
    }

    /// The sources for `markets`: the built-in one first, then each market's unless its
    /// `repo/path` key is already present. A market URL that does not parse is an error.
    pub fn repositories_from(&self, markets: &Vec<MarketEntry>) -> (r: Result<Vec<RepoSource>, SkillsError>)
        ensures
            all_parse(markets@) <==> r is Ok,
            r is Ok ==> source_views(r->Ok_0@) == repositories_spec(markets@),
            r is Err ==> exists|e: ParseError|
                #[trigger] first_parse_error(markets@, e) && r->Err_0 == SkillsError::Parse(e),
    {
        let mut repositories: Vec<RepoSource> = Vec::new();
        repositories.push(default_repository());
        let ghost ms = markets@;
        assert(source_views(repositories@) =~= repositories_spec(ms.take(0)));
        let mut i: usize = 0;
        while i < markets.len()
            invariant
                i <= markets.len(),
                ms == markets@,
                all_parse(ms.take(i as int)),
                source_views(repositories@) == repositories_spec(ms.take(i as int)),
            decreases markets.len() - i,
        {
            let ghost pre = ms.take(i + 1);
            assert(pre.drop_last() =~= ms.take(i as int));
            let parsed = match self.url_parser.parse(markets[i].url.as_str()) {
                Ok(p) => p,
                Err(e) => {
                    assert(first_parse_error(ms, e)) by {
                        assert(parse_spec(ms[i as int].url@) == Err::<RepoRefView, ParseError>(e));
                    }
                    assert(!all_parse(ms)) by {
                        assert(parse_spec(ms[i as int].url@) is Err);
                    }
                    return Err(SkillsError::Parse(e));
                },
            };
            let repo_path = join_slash(parsed.owner.as_str(), parsed.repo.as_str());
            let a = concat("https://github.com/", repo_path.as_str());
            let b = concat(a.as_str(), "/tree/");
            let base_url = concat(b.as_str(), parsed.branch.as_str());
            let key = join_slash(repo_path.as_str(), parsed.path.as_str());
            let ghost v = source_of(parsed@, markets[i as int].name@);
            assert(v.0 == repo_path@ && v.1 == parsed.path@);
            assert(v.2 =~= base_url@);
            assert(source_key(v) == key@);
            let dup = contains_key(&repositories, key.as_str());
            if !dup {
                let ghost before = repositories@;
                let entry = (repo_path, parsed.path, base_url, markets[i].name.clone());
                assert(source_view(entry) == v);
                repositories.push(entry);
                assert(source_views(repositories@) =~= source_views(before).push(v));
            }
            assert(all_parse(pre)) by {
                assert forall|j: int| 0 <= j < pre.len() implies (#[trigger] parse_spec(pre[j].url@)) is Ok by {
                    if j < i {
                        assert(pre[j] == ms.take(i as int)[j]);
                    }
                }
            }
            i = i + 1;
        }
        assert(ms.take(markets.len() as int) =~= ms);
        Ok(repositories)
    }

    fn extract_repo_name(&self, url: &str) -> (r: Result<String, SkillsError>)
        ensures
            match parse_spec(url@) {
                Ok(v) => r is Ok && r->Ok_0@ == repo_id(v),
                Err(e) => r is Err && r->Err_0 == SkillsError::Parse(e),
            },
    {
        match self.url_parser.parse(url) {
            Ok(p) => Ok(join_slash(p.owner.as_str(), p.repo.as_str())),
            Err(e) => Err(SkillsError::Parse(e)),
        }
    }
}

} // verus!
