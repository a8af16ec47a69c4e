//! Looking up skills by name, and searching for them, across every market source.

use vstd::prelude::*;
use crate::github::GitHubUrlParser;
use crate::market::{
    all_parse, repositories_spec, source_views, GitHubApiClient, MarketService, MarketStorage,
    RepoSource, RepoSourceView,
};
use crate::models::{
    GitHubContent, MarketEntry, RemoteError, SelectionError, SkillMatch, SkillMatchView, SkillsError,
};
use crate::text::{join_slash, seq_contains, str_contains, str_equal};

verus! {

/// What `str::to_lowercase` makes of a character sequence.
pub uninterp spec fn lower_of(s: Seq<char>) -> Seq<char>;

/// Relies on `str::to_lowercase`: the lowercase form, a function of the characters alone.
#[verifier::external_body]
fn lowercase(s: &str) -> (r: String)
    ensures
        r@ == lower_of(s@),
{
    s.to_lowercase()
}

/// The listing entry is a directory.
pub open spec fn is_dir(c: GitHubContent) -> bool {
    c.item_type@ == "dir"@
}

/// The match that a directory entry of a source becomes.
pub open spec fn match_of(c: GitHubContent, base_url: Seq<char>, market_name: Seq<char>) -> SkillMatchView {
    SkillMatchView { name: c.name@, url: base_url + seq!['/'] + c.path@, market_name }
}

/// The matches in one listing: directories whose lowercase name equals `name_lower`, in
/// listing order.
pub open spec fn listing_matches(
    contents: Seq<GitHubContent>,
    name_lower: Seq<char>,
    base_url: Seq<char>,
    market_name: Seq<char>,
) -> Seq<SkillMatchView>
    decreases contents.len(),
{
    if contents.len() == 0 {
        Seq::empty()
    } else {
        let prev = listing_matches(contents.drop_last(), name_lower, base_url, market_name);
        let c = contents.last();
        if is_dir(c) && lower_of(c.name@) == name_lower {
            prev.push(match_of(c, base_url, market_name))
        } else {
            prev
        }
    }
}

/// Mathematical view of a search hit: `(name, type, path)`, base URL, market name.
pub type HitView = ((Seq<char>, Seq<char>, Seq<char>), Seq<char>, Seq<char>);

pub open spec fn hit_view(h: (GitHubContent, String, String)) -> HitView {
    ((h.0.name@, h.0.item_type@, h.0.path@), h.1@, h.2@)
}

pub open spec fn hit_views(v: Seq<(GitHubContent, String, String)>) -> Seq<HitView> {
    v.map_values(|h: (GitHubContent, String, String)| hit_view(h))
}

pub open spec fn match_views(v: Seq<SkillMatch>) -> Seq<SkillMatchView> {
    v.map_values(|m: SkillMatch| m@)
}

/// The search hits in one listing: directories whose lowercase name contains
/// `query_lower`, in listing order.
pub open spec fn listing_hits(
    contents: Seq<GitHubContent>,
    query_lower: Seq<char>,
    base_url: Seq<char>,
    market_name: Seq<char>,
) -> Seq<HitView>
    decreases contents.len(),
{
    if contents.len() == 0 {
        Seq::empty()
    } else {
        let prev = listing_hits(contents.drop_last(), query_lower, base_url, market_name);
        let c = contents.last();
        if is_dir(c) && seq_contains(lower_of(c.name@), query_lower) {
            prev.push(((c.name@, c.item_type@, c.path@), base_url, market_name))
        } else {
            prev
        }
    }
}

/// The views of per-source listings; `None` marks a source whose listing failed.
pub open spec fn listing_views(ls: Seq<Option<Vec<GitHubContent>>>) -> Seq<Option<Seq<GitHubContent>>> {
    ls.map_values(
        |o: Option<Vec<GitHubContent>>|
            match o {
                Some(v) => Some(v@),
                None => None,
            },
    )
}

/// The matches of every source in order, from the listing of each (none where it failed).
pub open spec fn all_matches(
    sources: Seq<RepoSourceView>,
    listings: Seq<Option<Seq<GitHubContent>>>,
    name_lower: Seq<char>,
) -> Seq<SkillMatchView>
    decreases sources.len(),
{
    if sources.len() == 0 || listings.len() == 0 {
        Seq::empty()
    } else {
        let prev = all_matches(sources.drop_last(), listings.drop_last(), name_lower);
        let src = sources.last();
        match listings.last() {
            Some(c) => prev + listing_matches(c, name_lower, src.2, src.3),
            None => prev,
        }
    }
}

/// The search hits of every source in order, from the listing of each (none where it failed).
pub open spec fn all_hits(
    sources: Seq<RepoSourceView>,
    listings: Seq<Option<Seq<GitHubContent>>>,
    query_lower: Seq<char>,
) -> Seq<HitView>
    decreases sources.len(),
{
    if sources.len() == 0 || listings.len() == 0 {
        Seq::empty()
    } else {
        let prev = all_hits(sources.drop_last(), listings.drop_last(), query_lower);
        let src = sources.last();
        match listings.last() {
            Some(c) => prev + listing_hits(c, query_lower, src.2, src.3),
            None => prev,
        }
    }
}

/// The matches named `name_lower` (in lowercase) across `sources`, given the listing of each
/// source or `None` where it could not be fetched.
pub fn collect_matches(
    sources: &Vec<RepoSource>,
    listings: &Vec<Option<Vec<GitHubContent>>>,
    name_lower: &str,
) -> (r: Vec<SkillMatch>)
    requires
        sources.len() == listings.len(),
    ensures
        match_views(r@) == all_matches(source_views(sources@), listing_views(listings@), name_lower@),
{
    let ghost sv = source_views(sources@);
    let ghost lv = listing_views(listings@);
    let mut out: Vec<SkillMatch> = Vec::new();
    let mut i: usize = 0;
    while i < sources.len()
        invariant
            i <= sources.len() == listings.len(),
            sv == source_views(sources@),
            lv == listing_views(listings@),
            match_views(out@) == all_matches(sv.take(i as int), lv.take(i as int), name_lower@),
        decreases sources.len() - i,
    {
        assert(sv.take(i + 1).drop_last() =~= sv.take(i as int));
        assert(lv.take(i + 1).drop_last() =~= lv.take(i as int));
        let src = &sources[i];
        match &listings[i] {
            Some(contents) => {
                let mut found = matches_in_listing(contents, name_lower, src.2.as_str(), src.3.as_str());
                let ghost before = out@;
                let ghost added = found@;
                out.append(&mut found);
                assert(match_views(out@) =~= match_views(before) + match_views(added));
            },
            None => {},
        }
        i = i + 1;
    }
    assert(sv.take(sources.len() as int) =~= sv);
    assert(lv.take(sources.len() as int) =~= lv);
    out
}

/// The search hits for `query_lower` across `sources`, given the listing of each source or
/// `None` where it could not be fetched.
pub fn collect_hits(
    sources: &Vec<RepoSource>,
    listings: &Vec<Option<Vec<GitHubContent>>>,
    query_lower: &str,
) -> (r: Vec<(GitHubContent, String, String)>)
    requires
        sources.len() == listings.len(),
    ensures
        hit_views(r@) == all_hits(source_views(sources@), listing_views(listings@), query_lower@),
{
    let ghost sv = source_views(sources@);
    let ghost lv = listing_views(listings@);
    let mut out: Vec<(GitHubContent, String, String)> = Vec::new();
    let mut i: usize = 0;
    while i < sources.len()
        invariant
            i <= sources.len() == listings.len(),
            sv == source_views(sources@),
            lv == listing_views(listings@),
            hit_views(out@) == all_hits(sv.take(i as int), lv.take(i as int), query_lower@),
        decreases sources.len() - i,
    {
        assert(sv.take(i + 1).drop_last() =~= sv.take(i as int));
        assert(lv.take(i + 1).drop_last() =~= lv.take(i as int));
        let src = &sources[i];
        match &listings[i] {
            Some(contents) => {
                let mut found = hits_in_listing(contents, query_lower, src.2.as_str(), src.3.as_str());
                let ghost before = out@;
                let ghost added = found@;
                out.append(&mut found);
                assert(hit_views(out@) =~= hit_views(before) + hit_views(added));
            },
            None => {},
        }
        i = i + 1;
    }
    assert(sv.take(sources.len() as int) =~= sv);
    assert(lv.take(sources.len() as int) =~= lv);
    out
}

/// The directories of `contents` whose lowercase name is `name_lower`, as matches of the
/// source with browse base `base_url` and market `market_name`.
pub fn matches_in_listing(
    contents: &Vec<GitHubContent>,
    name_lower: &str,
    base_url: &str,
    market_name: &str,
) -> (r: Vec<SkillMatch>)
    ensures
        match_views(r@) == listing_matches(contents@, name_lower@, base_url@, market_name@),
{
    let mut out: Vec<SkillMatch> = Vec::new();
    let mut i: usize = 0;
    while i < contents.len()
        invariant
            i <= contents.len(),
            match_views(out@) == listing_matches(contents@.take(i as int), name_lower@, base_url@, market_name@),
        decreases contents.len() - i,
    {
        assert(contents@.take(i + 1).drop_last() =~= contents@.take(i as int));
        let c = &contents[i];
        let ghost before = out@;
        if str_equal(c.item_type.as_str(), "dir") {
            let lowered = lowercase(c.name.as_str());
            if str_equal(lowered.as_str(), name_lower) {
                let m = SkillMatch {
                    name: c.name.clone(),
                    url: join_slash(base_url, c.path.as_str()),
                    market_name: String::from_str(market_name),
                };
                out.push(m);
                assert(match_views(out@) =~= match_views(before).push(match_of(*c, base_url@, market_name@)));
            }
        }
        i = i + 1;
    }
    assert(contents@.take(contents.len() as int) =~= contents@);
    out
}

/// The directories of `contents` whose lowercase name contains `query_lower`, each with the
/// browse base `base_url` and market `market_name`.
pub fn hits_in_listing(
    contents: &Vec<GitHubContent>,
    query_lower: &str,
    base_url: &str,
    market_name: &str,
) -> (r: Vec<(GitHubContent, String, String)>)
    ensures
        hit_views(r@) == listing_hits(contents@, query_lower@, base_url@, market_name@),
{
    let mut out: Vec<(GitHubContent, String, String)> = Vec::new();
    let mut i: usize = 0;
    while i < contents.len()
        invariant
            i <= contents.len(),
            hit_views(out@) == listing_hits(contents@.take(i as int), query_lower@, base_url@, market_name@),
        decreases contents.len() - i,
    {
        assert(contents@.take(i + 1).drop_last() =~= contents@.take(i as int));
        let c = &contents[i];
        let ghost before = out@;
        if str_equal(c.item_type.as_str(), "dir") {
            let lowered = lowercase(c.name.as_str());
            if str_contains(lowered.as_str(), query_lower) {
                let item = GitHubContent {
                    name: c.name.clone(),
                    item_type: c.item_type.clone(),
                    path: c.path.clone(),
                };
                let h = (item, String::from_str(base_url), String::from_str(market_name));
                out.push(h);
                assert(hit_views(out@) =~= hit_views(before).push(
                    ((c.name@, c.item_type@, c.path@), base_url@, market_name@),
                ));
            }
        }
        i = i + 1;
    }
    assert(contents@.take(contents.len() as int) =~= contents@);
    out
}

/// Every match in a listing has the requested lowercase name.
proof fn lemma_listing_matches_named(
    contents: Seq<GitHubContent>,
    name_lower: Seq<char>,
    base_url: Seq<char>,
    market_name: Seq<char>,
)
    ensures
        forall|k: int|
            0 <= k < listing_matches(contents, name_lower, base_url, market_name).len()
                ==> lower_of(
                (#[trigger] listing_matches(contents, name_lower, base_url, market_name)[k]).name,
            ) == name_lower,
    decreases contents.len(),
{
    if contents.len() > 0 {
        lemma_listing_matches_named(contents.drop_last(), name_lower, base_url, market_name);
        let prev = listing_matches(contents.drop_last(), name_lower, base_url, market_name);
        let cur = listing_matches(contents, name_lower, base_url, market_name);
        assert forall|k: int| 0 <= k < cur.len() implies lower_of((#[trigger] cur[k]).name)
            == name_lower by {
            if k < prev.len() {
                assert(cur[k] == prev[k]);
            }
        }
    }
}

/// Every match found across the sources has the requested lowercase name.
pub proof fn lemma_all_matches_named(
    sources: Seq<RepoSourceView>,
    listings: Seq<Option<Seq<GitHubContent>>>,
    name_lower: Seq<char>,
)
    ensures
        forall|k: int|
            0 <= k < all_matches(sources, listings, name_lower).len() ==> lower_of(
                (#[trigger] all_matches(sources, listings, name_lower)[k]).name,
            ) == name_lower,
    decreases sources.len(),
{
    if sources.len() > 0 && listings.len() > 0 {
        lemma_all_matches_named(sources.drop_last(), listings.drop_last(), name_lower);
        let prev = all_matches(sources.drop_last(), listings.drop_last(), name_lower);
        let cur = all_matches(sources, listings, name_lower);
        let src = sources.last();
        match listings.last() {
            Some(c) => {
                let here = listing_matches(c, name_lower, src.2, src.3);
                lemma_listing_matches_named(c, name_lower, src.2, src.3);
                assert forall|k: int| 0 <= k < cur.len() implies lower_of((#[trigger] cur[k]).name)
                    == name_lower by {
                    if k < prev.len() {
                        assert(cur[k] == prev[k]);
                    } else {
                        assert(cur[k] == here[k - prev.len()]);
                    }
                }
            },
            None => {},
        }
    }
}

/// The matches that source `k` contributes: those of its listing, none where it failed.
pub open spec fn source_matches(
    sources: Seq<RepoSourceView>,
    listings: Seq<Option<Seq<GitHubContent>>>,
    k: int,
    name_lower: Seq<char>,
) -> Seq<SkillMatchView> {
    match listings[k] {
        Some(c) => listing_matches(c, name_lower, sources[k].2, sources[k].3),
        None => Seq::empty(),
    }
}

/// The matches of the first `n + 1` sources are those of the first `n`, then those of source `n`.
proof fn lemma_all_matches_step(
    sources: Seq<RepoSourceView>,
    listings: Seq<Option<Seq<GitHubContent>>>,
    name_lower: Seq<char>,
    n: int,
)
    requires
        sources.len() == listings.len(),
        0 <= n < sources.len(),
    ensures
        all_matches(sources.take(n + 1), listings.take(n + 1), name_lower) == all_matches(
            sources.take(n),
            listings.take(n),
            name_lower,
        ) + source_matches(sources, listings, n, name_lower),
{
    assert(sources.take(n + 1).drop_last() =~= sources.take(n));
    assert(listings.take(n + 1).drop_last() =~= listings.take(n));
    assert(sources.take(n + 1).last() == sources[n]);
    assert(listings.take(n + 1).last() == listings[n]);
    if listings[n] is None {
        assert(all_matches(sources.take(n), listings.take(n), name_lower) + Seq::<SkillMatchView>::empty()
            =~= all_matches(sources.take(n), listings.take(n), name_lower));
    }
}

proof fn lemma_two_sources_prefix(
    sources: Seq<RepoSourceView>,
    listings: Seq<Option<Seq<GitHubContent>>>,
    name_lower: Seq<char>,
    i: int,
    j: int,
    a: SkillMatchView,
    b: SkillMatchView,
    n: int,
)
    requires
        sources.len() == listings.len(),
        0 <= i < j < sources.len(),
        source_matches(sources, listings, i, name_lower) == seq![a],
        source_matches(sources, listings, j, name_lower) == seq![b],
        forall|k: int|
            0 <= k < sources.len() && k != i && k != j ==> #[trigger] source_matches(
                sources,
                listings,
                k,
                name_lower,
            ).len() == 0,
        0 <= n <= sources.len(),
    ensures
        all_matches(sources.take(n), listings.take(n), name_lower) == (if i < n {
            seq![a]
        } else {
            Seq::<SkillMatchView>::empty()
        }) + (if j < n {
            seq![b]
        } else {
            Seq::<SkillMatchView>::empty()
        }),
    decreases n,
{
    if n == 0 {
        assert(all_matches(sources.take(0), listings.take(0), name_lower) =~= Seq::<SkillMatchView>::empty());
        assert(Seq::<SkillMatchView>::empty() + Seq::<SkillMatchView>::empty() =~= Seq::<SkillMatchView>::empty());
    } else {
        lemma_two_sources_prefix(sources, listings, name_lower, i, j, a, b, n - 1);
        lemma_all_matches_step(sources, listings, name_lower, n - 1);
        let prev = all_matches(sources.take(n - 1), listings.take(n - 1), name_lower);
        let here = source_matches(sources, listings, n - 1, name_lower);
        if n - 1 != i && n - 1 != j {
            assert(here.len() == 0);
            assert(prev + here =~= prev);
        }
        assert(all_matches(sources.take(n), listings.take(n), name_lower) =~= (if i < n {
            seq![a]
        } else {
            Seq::<SkillMatchView>::empty()
        }) + (if j < n {
            seq![b]
        } else {
            Seq::<SkillMatchView>::empty()
        }));
    }
}

/// When exactly two sources, `i` before `j`, each list one matching directory and no other
/// source lists any, the lookup returns those two matches, one per source, in registry order.
pub proof fn lemma_two_sources_in_order(
    sources: Seq<RepoSourceView>,
    listings: Seq<Option<Seq<GitHubContent>>>,
    name_lower: Seq<char>,
    i: int,
    j: int,
    a: SkillMatchView,
    b: SkillMatchView,
)
    requires
        sources.len() == listings.len(),
        0 <= i < j < sources.len(),
        source_matches(sources, listings, i, name_lower) == seq![a],
        source_matches(sources, listings, j, name_lower) == seq![b],
        forall|k: int|
            0 <= k < sources.len() && k != i && k != j ==> #[trigger] source_matches(
                sources,
                listings,
                k,
                name_lower,
            ).len() == 0,
    ensures
        all_matches(sources, listings, name_lower) == seq![a, b],
{
    lemma_two_sources_prefix(sources, listings, name_lower, i, j, a, b, sources.len() as int);
    assert(sources.take(sources.len() as int) =~= sources);
    assert(listings.take(listings.len() as int) =~= listings);
    assert(seq![a] + seq![b] =~= seq![a, b]);
}

/// The repository ids of the sources whose listing failed, in order.
pub open spec fn failed_ids(
    sources: Seq<RepoSourceView>,
    listings: Seq<Option<Seq<GitHubContent>>>,
) -> Seq<Seq<char>>
    decreases sources.len(),
{
    if sources.len() == 0 || listings.len() == 0 {
        Seq::empty()
    } else {
        let prev = failed_ids(sources.drop_last(), listings.drop_last());
        match listings.last() {
            Some(_) => prev,
            None => prev.push(sources.last().0),
        }
    }
}

/// The repository ids of skipped sources.
pub open spec fn skipped_ids(v: Seq<(String, RemoteError)>) -> Seq<Seq<char>> {
    v.map_values(|p: (String, RemoteError)| p.0@)
}

/// What a search found, and the sources whose listing failed.
#[derive(Debug)]
pub struct SearchResults {
    /// Matching directories with the browse base URL and market name of their source.
    pub found: Vec<(GitHubContent, String, String)>,
    /// Repository id of each skipped source, with the reason, in registry order.
    pub skipped: Vec<(String, RemoteError)>,
}

/// What a lookup by name found, and the sources whose listing failed.
#[derive(Debug)]
pub struct FindResults {
    /// The matches, sources in registry order, entries in listing order.
    pub matches: Vec<SkillMatch>,
    /// Repository id of each skipped source, with the reason, in registry order.
    pub skipped: Vec<(String, RemoteError)>,
}

/// Finds skills in the sources of a market service through an API client.
pub struct SkillFinder<S: MarketStorage, U: GitHubUrlParser, A: GitHubApiClient> {
    market_service: MarketService<S, U>,
    api_client: A,
}

impl<S: MarketStorage, U: GitHubUrlParser, A: GitHubApiClient> SkillFinder<S, U, A> {
    pub fn new(market_service: MarketService<S, U>, api_client: A) -> (r: Self) {
        SkillFinder { market_service, api_client }
    }

    /// The listing of each source, in order, with `None` where the client failed; and the
    /// failed sources' ids with the reasons, in order.
    fn fetch_listings(&self, sources: &Vec<RepoSource>) -> (r: (
        Vec<Option<Vec<GitHubContent>>>,
        Vec<(String, RemoteError)>,
    ))
        ensures
            r.0@.len() == sources@.len(),
            skipped_ids(r.1@) == failed_ids(source_views(sources@), listing_views(r.0@)),
    {
        let ghost sv = source_views(sources@);
        let mut listings: Vec<Option<Vec<GitHubContent>>> = Vec::new();
        let mut skipped: Vec<(String, RemoteError)> = Vec::new();
        let mut i: usize = 0;
        while i < sources.len()
            invariant
                i <= sources.len(),
                sv == source_views(sources@),
                listings@.len() == i,
                skipped_ids(skipped@) == failed_ids(sv.take(i as int), listing_views(listings@)),
            decreases sources.len() - i,
        {
            let ghost lv0 = listing_views(listings@);
            let ghost sk0 = skipped@;
            let src = &sources[i];
            match self.api_client.get_directory_contents(src.0.as_str(), src.1.as_str()) {
                Ok(contents) => {
                    listings.push(Some(contents));
                },
                Err(e) => {
                    let id = src.0.clone();
                    skipped.push((id, e));
                    assert(skipped_ids(skipped@) =~= skipped_ids(sk0).push(sv[i as int].0));
                    listings.push(None);
                },
            }
            proof {
                let lv = listing_views(listings@);
                assert(lv.drop_last() =~= lv0);
                assert(sv.take(i + 1).drop_last() =~= sv.take(i as int));
                assert(sv.take(i + 1).last() == sv[i as int]);
            }
            i = i + 1;
        }
        assert(sv.take(sources.len() as int) =~= sv);
        (listings, skipped)
    }

    /// Directories named `skill_name`, ignoring case, in every source whose listing can be
    /// fetched, and the sources that could not be listed; sources come in registry order,
    /// entries in listing order.
    pub fn find_by_name_reporting(&self, skill_name: &str) -> (r: Result<FindResults, SkillsError>)
        ensures
            r is Ok ==> exists|ms: Seq<MarketEntry>, ls: Seq<Option<Seq<GitHubContent>>>|
                all_parse(ms) && ls.len() == repositories_spec(ms).len() && match_views(
                    r->Ok_0.matches@,
                ) == #[trigger] all_matches(repositories_spec(ms), ls, lower_of(skill_name@))
                    && skipped_ids(r->Ok_0.skipped@) == failed_ids(repositories_spec(ms), ls),
            r is Err ==> r->Err_0 is Config || r->Err_0 is Parse,
    {
        let repositories = match self.market_service.get_repositories() {
            Ok(r) => r,
            Err(e) => {
                return Err(e);
            },
        };
        let ghost ms = choose|ms: Seq<MarketEntry>|
            all_parse(ms) && source_views(repositories@) == #[trigger] repositories_spec(ms);
        let name_lower = lowercase(skill_name);
        let (listings, skipped) = self.fetch_listings(&repositories);
        let matches = collect_matches(&repositories, &listings, name_lower.as_str());
        assert(all_parse(ms) && listing_views(listings@).len() == repositories_spec(ms).len()
            && match_views(matches@) == all_matches(
            repositories_spec(ms),
            listing_views(listings@),
            lower_of(skill_name@),
        ) && skipped_ids(skipped@) == failed_ids(repositories_spec(ms), listing_views(listings@)));
        Ok(FindResults { matches, skipped })
    }

    /// Directories named `skill_name`, ignoring case, in every source whose listing can be
    /// fetched; sources come in registry order, entries in listing order. The sources that
    /// could not be listed are reported by [`Self::find_by_name_reporting`].
    pub fn find_by_name(&self, skill_name: &str) -> (r: Result<Vec<SkillMatch>, SkillsError>)
        ensures
            r is Ok ==> exists|ms: Seq<MarketEntry>, ls: Seq<Option<Seq<GitHubContent>>>|
                all_parse(ms) && ls.len() == repositories_spec(ms).len() && match_views(r->Ok_0@)
                    == #[trigger] all_matches(repositories_spec(ms), ls, lower_of(skill_name@)),
            r is Ok ==> forall|k: int|
                0 <= k < r->Ok_0@.len() ==> lower_of((#[trigger] r->Ok_0@[k]).name@) == lower_of(
                    skill_name@,
                ),
            r is Err ==> r->Err_0 is Config || r->Err_0 is Parse,
    {
        match self.find_by_name_reporting(skill_name) {
            Ok(found) => {
                let ghost w = choose|ms: Seq<MarketEntry>, ls: Seq<Option<Seq<GitHubContent>>>|
                    all_parse(ms) && ls.len() == repositories_spec(ms).len() && match_views(
                        found.matches@,
                    ) == #[trigger] all_matches(repositories_spec(ms), ls, lower_of(skill_name@))
                        && skipped_ids(found.skipped@) == failed_ids(repositories_spec(ms), ls);
                assert(all_parse(w.0) && w.1.len() == repositories_spec(w.0).len() && match_views(
                    found.matches@,
                ) == all_matches(repositories_spec(w.0), w.1, lower_of(skill_name@)));
                proof {
                    lemma_all_matches_named(repositories_spec(w.0), w.1, lower_of(skill_name@));
                    assert forall|k: int| 0 <= k < found.matches@.len() implies lower_of(
                        (#[trigger] found.matches@[k]).name@,
                    ) == lower_of(skill_name@) by {
                        assert(match_views(found.matches@)[k] == found.matches@[k]@);
                    }
                }
                Ok(found.matches)
            },
            Err(e) => Err(e),
        }
    }

    /// Directories whose lowercase name contains the lowercase `query`, in every source
    /// whose listing can be fetched; each source that fails is reported in `skipped`.
    pub fn search(&self, query: &str) -> (r: Result<SearchResults, SkillsError>)
        ensures
            r is Ok ==> exists|ms: Seq<MarketEntry>, ls: Seq<Option<Seq<GitHubContent>>>|
                all_parse(ms) && ls.len() == repositories_spec(ms).len() && hit_views(
                    r->Ok_0.found@,
                ) == #[trigger] all_hits(repositories_spec(ms), ls, lower_of(query@))
                    && skipped_ids(r->Ok_0.skipped@) == failed_ids(repositories_spec(ms), ls),
            r is Err ==> r->Err_0 is Config || r->Err_0 is Parse,
    {
        let repositories = match self.market_service.get_repositories() {
            Ok(r) => r,
            Err(e) => {
                return Err(e);
            },
        };
        let ghost ms = choose|ms: Seq<MarketEntry>|
            all_parse(ms) && source_views(repositories@) == #[trigger] repositories_spec(ms);
        let query_lower = lowercase(query);
        let (listings, skipped) = self.fetch_listings(&repositories);
        let found = collect_hits(&repositories, &listings, query_lower.as_str());
        assert(all_parse(ms) && listing_views(listings@).len() == repositories_spec(ms).len()
            && hit_views(found@) == all_hits(
            repositories_spec(ms),
            listing_views(listings@),
            lower_of(query@),
        ) && skipped_ids(skipped@) == failed_ids(repositories_spec(ms), listing_views(listings@)));
        Ok(SearchResults { found, skipped })
    }
}

/// Picks one of several matches; returns its index.
pub trait UserInteraction {
    fn select_skill(&self, matches: &[SkillMatch]) -> Result<usize, SelectionError>;
}

} // verus!
