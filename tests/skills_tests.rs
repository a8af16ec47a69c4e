use std::cell::RefCell;
use std::rc::Rc;

use skills::github::{
    archive_plan, extract_skill_name, parse_github_url, DefaultGitHubUrlParser, GitHubUrlParser,
};
use skills::installer::{
    get_target_directory, is_url_reference, pick_match, SkillInstaller, TargetType, Target,
};
use skills::market::{add_entry, AddOutcome, GitHubApiClient, MarketService, MarketStorage};
use skills::github::{DefaultGitHubDownloader, FileSystem, ArchivePlan, GitHubDownloader};
use skills::models::{
    ConfigError, GitHubContent, GitHubRepo, InstallError, MarketEntry, ParseError, RemoteError, SelectionError,
    SkillMatch, SkillsError,
};
use skills::skill_finder::{
    collect_hits, collect_matches, hits_in_listing, matches_in_listing, SkillFinder, UserInteraction,
};
use skills::text::{str_contains, str_equal};

struct MemoryStorage {
    markets: Rc<RefCell<Vec<(String, String)>>>,
    saves: RefCell<usize>,
}

impl MemoryStorage {
    fn with(entries: &[(&str, &str)]) -> Self {
        MemoryStorage {
            markets: Rc::new(RefCell::new(entries.iter().map(|(n, u)| (n.to_string(), u.to_string())).collect())),
            saves: RefCell::new(0),
        }
    }
}

impl MarketStorage for MemoryStorage {
    fn load(&self) -> Result<Vec<MarketEntry>, ConfigError> {
        Ok(self
            .markets
            .borrow()
            .iter()
            .map(|(n, u)| MarketEntry { name: n.clone(), url: u.clone() })
            .collect())
    }

    fn save(&self, markets: &[MarketEntry]) -> Result<(), ConfigError> {
        *self.markets.borrow_mut() = markets.iter().map(|m| (m.name.clone(), m.url.clone())).collect();
        *self.saves.borrow_mut() += 1;
        Ok(())
    }
}

struct FailingStorage;

impl MarketStorage for FailingStorage {
    fn load(&self) -> Result<Vec<MarketEntry>, ConfigError> {
        Err(ConfigError::Read("corrupt".to_string()))
    }

    fn save(&self, _markets: &[MarketEntry]) -> Result<(), ConfigError> {
        Err(ConfigError::Write("read-only".to_string()))
    }
}

/// Listings by repository id: `(name, type, path)` triples; a missing id fails.
struct FakeApi {
    listings: Vec<(String, Vec<(String, String, String)>)>,
    calls: RefCell<Vec<(String, String)>>,
}

impl FakeApi {
    fn new(listings: &[(&str, &[(&str, &str, &str)])]) -> Self {
        FakeApi {
            listings: listings
                .iter()
                .map(|(repo, items)| {
                    (
                        repo.to_string(),
                        items.iter().map(|(a, b, c)| (a.to_string(), b.to_string(), c.to_string())).collect(),
                    )
                })
                .collect(),
            calls: RefCell::new(Vec::new()),
        }
    }
}

impl GitHubApiClient for FakeApi {
    fn get_directory_contents(&self, repo: &str, path: &str) -> Result<Vec<GitHubContent>, RemoteError> {
        self.calls.borrow_mut().push((repo.to_string(), path.to_string()));
        for (r, items) in &self.listings {
            if r == repo {
                return Ok(items
                    .iter()
                    .map(|(n, t, p)| GitHubContent { name: n.clone(), item_type: t.clone(), path: p.clone() })
                    .collect());
            }
        }
        Err(RemoteError::HttpStatus(404))
    }
}

fn content(name: &str, kind: &str, path: &str) -> GitHubContent {
    GitHubContent { name: name.to_string(), item_type: kind.to_string(), path: path.to_string() }
}

fn finder(
    markets: &[(&str, &str)],
    listings: &[(&str, &[(&str, &str, &str)])],
) -> SkillFinder<MemoryStorage, DefaultGitHubUrlParser, FakeApi> {
    let service = MarketService::new(MemoryStorage::with(markets), DefaultGitHubUrlParser);
    SkillFinder::new(service, FakeApi::new(listings))
}

#[test]
fn parse_full_reference() {
    let r = parse_github_url("https://host.example/acme/widgets/tree/main/tools/hammer");
    assert!(matches!(r, Err(ParseError::InvalidFormat)));
    let r = parse_github_url("https://github.com/acme/widgets/tree/main/tools/hammer").unwrap();
    assert_eq!(r.owner, "acme");
    assert_eq!(r.repo, "widgets");
    assert_eq!(r.branch, "main");
    assert_eq!(r.path, "tools/hammer");
}

#[test]
fn parse_end_to_end_scenario() {
    let url = "https://github.com/acme/widgets/tree/main/tools/hammer";
    let repo = parse_github_url(url).unwrap();
    assert_eq!((repo.owner.as_str(), repo.repo.as_str()), ("acme", "widgets"));
    assert_eq!((repo.branch.as_str(), repo.path.as_str()), ("main", "tools/hammer"));
    let name = extract_skill_name(&repo.path).unwrap();
    assert_eq!(name, "hammer");
    let plan = archive_plan(&repo, "/home/u/.codex/skills", &name);
    assert_eq!(plan.zip_url, "https://github.com/acme/widgets/archive/refs/heads/main.zip");
    assert_eq!(plan.source_dir, "widgets-main/tools/hammer");
    assert_eq!(plan.subpath, "tools/hammer");
    assert_eq!(plan.dest_dir, "/home/u/.codex/skills/hammer");
}

#[test]
fn archive_plan_whole_repository() {
    let repo = parse_github_url("https://github.com/acme/widgets").unwrap();
    let plan = archive_plan(&repo, "t", "widgets");
    assert_eq!(plan.source_dir, "widgets-main");
    assert_eq!(plan.subpath, "");
}

#[test]
fn parse_trailing_slashes_are_dropped() {
    let r = parse_github_url("https://github.com/acme/widgets/tree/dev/a/b///").unwrap();
    assert_eq!(r.branch, "dev");
    assert_eq!(r.path, "a/b");
    let rebuilt = format!("https://github.com/{}/{}/tree/{}/{}", r.owner, r.repo, r.branch, r.path);
    assert_eq!(rebuilt, "https://github.com/acme/widgets/tree/dev/a/b");
}

#[test]
fn parse_without_tree_uses_main() {
    let r = parse_github_url("https://github.com/acme/widgets/").unwrap();
    assert_eq!(r.owner, "acme");
    assert_eq!(r.repo, "widgets");
    assert_eq!(r.branch, "main");
    assert_eq!(r.path, "");
    let r = parse_github_url("https://github.com/acme/widgets/blob/x").unwrap();
    assert_eq!(r.branch, "main");
    assert_eq!(r.path, "");
}

#[test]
fn parse_branch_without_path() {
    let r = parse_github_url("https://github.com/acme/widgets/tree/release").unwrap();
    assert_eq!(r.branch, "release");
    assert_eq!(r.path, "");
}

#[test]
fn parse_errors() {
    assert!(matches!(parse_github_url("https://github.com/acme"), Err(ParseError::InvalidFormat)));
    assert!(matches!(parse_github_url(""), Err(ParseError::InvalidFormat)));
    assert!(matches!(parse_github_url("https://gitlab.com/a/b/c"), Err(ParseError::InvalidFormat)));
    assert!(matches!(parse_github_url("https://www.github.com/a/b"), Err(ParseError::HostNotFound)));
    assert!(matches!(parse_github_url("a/b/c/d/github.com"), Err(ParseError::OwnerNotFound)));
    assert!(matches!(parse_github_url("a/b/c/github.com/owner"), Err(ParseError::RepoNotFound)));
    assert!(matches!(parse_github_url("https://github.com/a/b/tree"), Err(ParseError::BranchNotFound)));
}

#[test]
fn parser_trait_agrees_with_function() {
    let p = DefaultGitHubUrlParser;
    let r = p.parse("https://github.com/o/r/tree/b/x/y").unwrap();
    assert_eq!(r.path, "x/y");
    assert!(matches!(p.parse("nope"), Err(ParseError::InvalidFormat)));
}

#[test]
fn skill_name_extraction() {
    assert_eq!(extract_skill_name("tools/hammer").unwrap(), "hammer");
    assert_eq!(extract_skill_name("tools/hammer//").unwrap(), "hammer");
    assert_eq!(extract_skill_name("single").unwrap(), "single");
    assert!(matches!(extract_skill_name(""), Err(SkillsError::EmptySkillName)));
    assert!(matches!(extract_skill_name("///"), Err(SkillsError::EmptySkillName)));
}

#[test]
fn text_helpers() {
    assert!(str_equal("abc", "abc"));
    assert!(!str_equal("abc", "abd"));
    assert!(str_contains("foobar", "oba"));
    assert!(str_contains("foo", ""));
    assert!(!str_contains("fo", "foo"));
}

#[test]
fn target_directories() {
    assert_eq!(TargetType::Codex.as_str(), "codex");
    assert_eq!(TargetType::Copilot.as_str(), "copilot");
    assert_eq!(get_target_directory(&TargetType::Codex, "/home/u"), "/home/u/.codex/skills");
    assert_eq!(get_target_directory(&TargetType::Copilot, "/w"), "/w/.github/skills");
}

#[test]
fn url_references() {
    assert!(is_url_reference("https://github.com/a/b"));
    assert!(is_url_reference("http"));
    assert!(!is_url_reference("pdf-tools"));
    assert!(!is_url_reference("htt"));
}

#[test]
fn repositories_start_with_default() {
    let service = MarketService::new(MemoryStorage::with(&[]), DefaultGitHubUrlParser);
    let repos = service.get_repositories().unwrap();
    assert_eq!(repos.len(), 1);
    assert_eq!(repos[0].0, "anthropics/skills");
    assert_eq!(repos[0].1, "skills");
    assert_eq!(repos[0].2, "https://github.com/anthropics/skills/tree/main");
    assert_eq!(repos[0].3, "anthropics/skills");
}

#[test]
fn repositories_are_deduplicated() {
    let service = MarketService::new(
        MemoryStorage::with(&[
            ("anthropics/skills", "https://github.com/anthropics/skills/tree/main/skills"),
            ("acme/widgets", "https://github.com/acme/widgets/tree/dev/tools"),
            ("again", "https://github.com/acme/widgets/tree/other/tools/"),
            ("acme/root", "https://github.com/acme/widgets"),
        ]),
        DefaultGitHubUrlParser,
    );
    let repos = service.get_repositories().unwrap();
    assert_eq!(repos.len(), 3);
    assert_eq!(repos[0].0, "anthropics/skills");
    assert_eq!(repos[1], (
        "acme/widgets".to_string(),
        "tools".to_string(),
        "https://github.com/acme/widgets/tree/dev".to_string(),
        "acme/widgets".to_string(),
    ));
    assert_eq!(repos[2].1, "");
    assert_eq!(repos[2].2, "https://github.com/acme/widgets/tree/main");
    for i in 0..repos.len() {
        for j in i + 1..repos.len() {
            assert_ne!(format!("{}/{}", repos[i].0, repos[i].1), format!("{}/{}", repos[j].0, repos[j].1));
        }
    }
}

#[test]
fn repositories_fail_on_bad_market_url() {
    let service = MarketService::new(
        MemoryStorage::with(&[("ok", "https://github.com/a/b"), ("bad", "not a url")]),
        DefaultGitHubUrlParser,
    );
    assert!(matches!(service.get_repositories(), Err(SkillsError::Parse(ParseError::InvalidFormat))));
    let broken = MarketService::new(FailingStorage, DefaultGitHubUrlParser);
    assert!(matches!(broken.get_repositories(), Err(SkillsError::Config(_))));
}

#[test]
fn add_market_twice_keeps_one_entry() {
    let service = MarketService::new(MemoryStorage::with(&[]), DefaultGitHubUrlParser);
    let url = "https://github.com/acme/widgets/tree/main/tools";
    assert_eq!(service.add_market(url).unwrap(), AddOutcome::Added);
    assert_eq!(service.add_market(url).unwrap(), AddOutcome::AlreadyPresent);
    let repos = service.get_repositories().unwrap();
    assert_eq!(repos.len(), 2);
    let storage = MemoryStorage::with(&[]);
    let persisted = Rc::clone(&storage.markets);
    let service3 = MarketService::new(storage, DefaultGitHubUrlParser);
    service3.add_market(url).unwrap();
    service3.add_market(url).unwrap();
    assert_eq!(persisted.borrow().len(), 1);
    assert_eq!(persisted.borrow()[0], ("acme/widgets".to_string(), url.to_string()));
    let storage = MemoryStorage::with(&[]);
    let service2 = MarketService::new(storage, DefaultGitHubUrlParser);
    service2.add_market(url).unwrap();
    service2.add_market(url).unwrap();
    let repos = service2.get_repositories().unwrap();
    assert_eq!(repos.len(), 2);
    assert_eq!(repos[1].3, "acme/widgets");
}

#[test]
fn add_market_errors() {
    let service = MarketService::new(MemoryStorage::with(&[]), DefaultGitHubUrlParser);
    assert!(matches!(service.add_market("bogus"), Err(SkillsError::Parse(ParseError::InvalidFormat))));
    let broken = MarketService::new(FailingStorage, DefaultGitHubUrlParser);
    assert!(matches!(broken.add_market("https://github.com/a/b"), Err(SkillsError::Config(_))));
}

#[test]
fn add_entry_appends_only_new_urls() {
    let mut markets = vec![MarketEntry { name: "a/b".to_string(), url: "u1".to_string() }];
    assert!(!add_entry(&mut markets, "x".to_string(), "u1"));
    assert_eq!(markets.len(), 1);
    assert!(add_entry(&mut markets, "c/d".to_string(), "u2"));
    assert!(!add_entry(&mut markets, "c/d".to_string(), "u2"));
    assert_eq!(markets.len(), 2);
    assert_eq!(markets[1].name, "c/d");
    assert_eq!(markets[1].url, "u2");
    assert_eq!(markets.iter().filter(|m| m.url == "u2").count(), 1);
}

#[test]
fn find_by_name_is_case_insensitive_exact() {
    let f = finder(
        &[],
        &[("anthropics/skills", &[("foo", "dir", "skills/foo"), ("foobar", "dir", "skills/foobar"), ("FOO", "file", "skills/FOO")])],
    );
    let found = f.find_by_name("Foo").unwrap();
    assert_eq!(found.len(), 1);
    assert_eq!(found[0].name, "foo");
    assert_eq!(found[0].url, "https://github.com/anthropics/skills/tree/main/skills/foo");
    assert_eq!(found[0].market_name, "anthropics/skills");
}

#[test]
fn search_matches_substrings() {
    let f = finder(
        &[],
        &[("anthropics/skills", &[("foo", "dir", "skills/foo"), ("FooBar", "dir", "skills/FooBar"), ("bar", "dir", "skills/bar"), ("food.md", "file", "skills/food.md")])],
    );
    let results = f.search("foo").unwrap();
    let names: Vec<&str> = results.found.iter().map(|h| h.0.name.as_str()).collect();
    assert_eq!(names, vec!["foo", "FooBar"]);
    assert_eq!(results.found[0].1, "https://github.com/anthropics/skills/tree/main");
    assert_eq!(results.found[0].2, "anthropics/skills");
    assert!(results.skipped.is_empty());
}

#[test]
fn search_reports_skipped_sources() {
    let f = finder(
        &[("acme/widgets", "https://github.com/acme/widgets/tree/main/tools")],
        &[("acme/widgets", &[("foo", "dir", "tools/foo")])],
    );
    let results = f.search("FO").unwrap();
    assert_eq!(results.found.len(), 1);
    assert_eq!(results.skipped.len(), 1);
    assert_eq!(results.skipped[0].0, "anthropics/skills");
}

#[test]
fn find_by_name_two_markets_in_registry_order() {
    let f = finder(
        &[
            ("acme/one", "https://github.com/acme/one/tree/main/skills"),
            ("acme/two", "https://github.com/acme/two/tree/dev/pkgs"),
        ],
        &[
            ("acme/two", &[("pdf-tools", "dir", "pkgs/pdf-tools")]),
            ("acme/one", &[("other", "dir", "skills/other"), ("pdf-tools", "dir", "skills/pdf-tools")]),
        ],
    );
    let found = f.find_by_name("pdf-tools").unwrap();
    assert_eq!(found.len(), 2);
    assert_eq!(found[0].market_name, "acme/one");
    assert_eq!(found[0].url, "https://github.com/acme/one/tree/main/skills/pdf-tools");
    assert_eq!(found[1].market_name, "acme/two");
    assert_eq!(found[1].url, "https://github.com/acme/two/tree/dev/pkgs/pdf-tools");
}

#[test]
fn find_by_name_skips_failing_sources() {
    let f = finder(&[("acme/one", "https://github.com/acme/one")], &[]);
    assert!(f.find_by_name("x").unwrap().is_empty());
}

#[test]
fn listing_helpers() {
    let contents = vec![content("Alpha", "dir", "s/Alpha"), content("alpha", "file", "s/alpha"), content("alphabet", "dir", "s/alphabet")];
    let m = matches_in_listing(&contents, "alpha", "B", "M");
    assert_eq!(m.len(), 1);
    assert_eq!(m[0].name, "Alpha");
    assert_eq!(m[0].url, "B/s/Alpha");
    let h = hits_in_listing(&contents, "alpha", "B", "M");
    assert_eq!(h.len(), 2);
    assert_eq!(h[1].0.path, "s/alphabet");
}

struct RecordingDownloader {
    calls: RefCell<Vec<(String, String, String)>>,
}

impl GitHubDownloader for RecordingDownloader {
    fn download_folder(&self, repo: &GitHubRepo, target_dir: &str, skill_name: &str) -> Result<(), InstallError> {
        self.calls.borrow_mut().push((format!("{}/{}@{}:{}", repo.owner, repo.repo, repo.branch, repo.path), target_dir.to_string(), skill_name.to_string()));
        Ok(())
    }
}

struct Pick(Result<usize, ()>);

impl UserInteraction for Pick {
    fn select_skill(&self, _matches: &[SkillMatch]) -> Result<usize, SelectionError> {
        self.0.map_err(|_| SelectionError::Cancelled)
    }
}

#[test]
fn install_from_url_hands_plan_to_downloader() {
    let installer = SkillInstaller::new(RecordingDownloader { calls: RefCell::new(Vec::new()) }, DefaultGitHubUrlParser);
    installer.install_from_url("https://github.com/acme/widgets/tree/main/tools/hammer", &TargetType::Codex, "/h").unwrap();
    assert!(matches!(
        installer.install_from_url("https://github.com/acme/widgets", &TargetType::Codex, "/h"),
        Err(SkillsError::EmptySkillName)
    ));
    assert!(matches!(
        installer.install_from_url("bad", &TargetType::Codex, "/h"),
        Err(SkillsError::Parse(ParseError::InvalidFormat))
    ));
    let (repo, name) = installer.resolve_url("https://github.com/acme/widgets/tree/main/tools/hammer/").unwrap();
    assert_eq!(repo.path, "tools/hammer");
    assert_eq!(name, "hammer");
}

#[test]
fn install_from_market_cases() {
    let downloader = RecordingDownloader { calls: RefCell::new(Vec::new()) };
    let installer = SkillInstaller::new(downloader, DefaultGitHubUrlParser);
    let f = finder(
        &[("acme/one", "https://github.com/acme/one/tree/main/skills")],
        &[
            ("anthropics/skills", &[("pdf-tools", "dir", "skills/pdf-tools")]),
            ("acme/one", &[("pdf-tools", "dir", "skills/pdf-tools"), ("solo", "dir", "skills/solo")]),
        ],
    );
    assert!(matches!(
        installer.install_from_market("missing", &TargetType::Codex, "/h", &f, &Pick(Ok(0))),
        Err(SkillsError::NotFoundInAnyMarket(n)) if n == "missing"
    ));
    let solo = installer.install_from_market("SOLO", &TargetType::Copilot, "/w", &f, &Pick(Err(()))).unwrap();
    assert_eq!(solo.name, "solo");
    assert_eq!(solo.market_name, "acme/one");
    assert!(matches!(
        installer.install_from_market("pdf-tools", &TargetType::Codex, "/h", &f, &Pick(Ok(2))),
        Err(SkillsError::InvalidSelection)
    ));
    let picked = installer.install_from_market("pdf-tools", &TargetType::Codex, "/h", &f, &Pick(Ok(1))).unwrap();
    assert_eq!(picked.market_name, "acme/one");
    assert_eq!(picked.url, "https://github.com/acme/one/tree/main/skills/pdf-tools");
}

#[test]
fn select_skill_single_and_invalid() {
    let installer = SkillInstaller::new(RecordingDownloader { calls: RefCell::new(Vec::new()) }, DefaultGitHubUrlParser);
    let one = vec![SkillMatch { name: "a".to_string(), url: "u".to_string(), market_name: "m".to_string() }];
    assert_eq!(installer.select_skill(&one, "a", &Pick(Err(()))).unwrap(), 0);
    assert!(matches!(installer.select_skill(&vec![], "a", &Pick(Ok(0))), Err(SkillsError::NotFoundInAnyMarket(n)) if n == "a"));
    let two = vec![
        SkillMatch { name: "a".to_string(), url: "u".to_string(), market_name: "m".to_string() },
        SkillMatch { name: "a".to_string(), url: "v".to_string(), market_name: "n".to_string() },
    ];
    assert_eq!(installer.select_skill(&two, "a", &Pick(Ok(1))).unwrap(), 1);
    assert!(matches!(installer.select_skill(&two, "a", &Pick(Ok(5))), Err(SkillsError::InvalidSelection)));
    assert!(matches!(installer.select_skill(&two, "a", &Pick(Err(()))), Err(SkillsError::Selection(SelectionError::Cancelled))));
}

struct PlanRecorder {
    plans: RefCell<Vec<String>>,
}

impl FileSystem for PlanRecorder {
    fn copy_dir_all(&self, _src: &str, _dst: &str) -> Result<(), InstallError> {
        Ok(())
    }

    fn create_dir_all(&self, _path: &str) -> Result<(), InstallError> {
        Ok(())
    }

    fn write_file(&self, _path: &str, _content: &[u8]) -> Result<(), InstallError> {
        Ok(())
    }

    fn install_archive(&self, plan: &ArchivePlan) -> Result<(), InstallError> {
        self.plans.borrow_mut().push(format!("{} {} {}", plan.zip_url, plan.source_dir, plan.dest_dir));
        Err(InstallError::PathNotFound(plan.subpath.clone()))
    }
}

#[test]
fn default_downloader_uses_plan() {
    let d = DefaultGitHubDownloader::new(PlanRecorder { plans: RefCell::new(Vec::new()) });
    let repo = parse_github_url("https://github.com/acme/widgets/tree/main/tools/hammer").unwrap();
    let r = d.download_folder(&repo, "/h/.codex/skills", "hammer");
    assert!(matches!(r, Err(InstallError::PathNotFound(p)) if p == "tools/hammer"));
}

fn source(repo: &str, path: &str, base: &str, market: &str) -> (String, String, String, String) {
    (repo.to_string(), path.to_string(), base.to_string(), market.to_string())
}

#[test]
fn collect_across_sources_in_order() {
    let sources = vec![
        source("a/one", "s", "https://github.com/a/one/tree/main", "first"),
        source("a/two", "", "https://github.com/a/two/tree/dev", "second"),
        source("a/three", "x", "https://github.com/a/three/tree/main", "third"),
    ];
    let listings = vec![
        Some(vec![content("pdf-tools", "dir", "s/pdf-tools")]),
        None,
        Some(vec![content("PDF-Tools", "dir", "x/PDF-Tools"), content("pdf-tools-extra", "dir", "x/pdf-tools-extra")]),
    ];
    let m = collect_matches(&sources, &listings, "pdf-tools");
    assert_eq!(m.len(), 2);
    assert_eq!(m[0].market_name, "first");
    assert_eq!(m[0].url, "https://github.com/a/one/tree/main/s/pdf-tools");
    assert_eq!(m[1].name, "PDF-Tools");
    assert_eq!(m[1].market_name, "third");
    let h = collect_hits(&sources, &listings, "tools");
    assert_eq!(h.len(), 3);
    assert_eq!(h[2].0.name, "pdf-tools-extra");
    assert_eq!(h[2].1, "https://github.com/a/three/tree/main");
    assert!(collect_matches(&sources, &vec![None, None, None], "pdf-tools").is_empty());
}

#[test]
fn pick_match_cases() {
    let m = |n: &str| SkillMatch { name: n.to_string(), url: "u".to_string(), market_name: "m".to_string() };
    assert!(matches!(pick_match(&vec![], "pdf", Some(Ok(0))), Err(SkillsError::NotFoundInAnyMarket(n)) if n == "pdf"));
    assert_eq!(pick_match(&vec![m("a")], "a", None).unwrap(), 0);
    assert_eq!(pick_match(&vec![m("a")], "a", Some(Ok(7))).unwrap(), 0);
    let two = vec![m("a"), m("b")];
    assert_eq!(pick_match(&two, "a", Some(Ok(1))).unwrap(), 1);
    assert!(matches!(pick_match(&two, "a", Some(Ok(2))), Err(SkillsError::InvalidSelection)));
    assert!(matches!(
        pick_match(&two, "a", Some(Err(SelectionError::InvalidInput("x".to_string())))),
        Err(SkillsError::Selection(SelectionError::InvalidInput(s))) if s == "x"
    ));
    assert!(matches!(pick_match(&two, "a", None), Err(SkillsError::Selection(SelectionError::Cancelled))));
}

#[test]
fn find_by_name_reports_skipped_sources() {
    let f = finder(
        &[("acme/one", "https://github.com/acme/one/tree/main/skills"), ("acme/two", "https://github.com/acme/two")],
        &[("acme/one", &[("pdf-tools", "dir", "skills/pdf-tools")])],
    );
    let r = f.find_by_name_reporting("PDF-tools").unwrap();
    assert_eq!(r.matches.len(), 1);
    assert_eq!(r.matches[0].market_name, "acme/one");
    let ids: Vec<&str> = r.skipped.iter().map(|s| s.0.as_str()).collect();
    assert_eq!(ids, vec!["anthropics/skills", "acme/two"]);
    assert!(matches!(r.skipped[0].1, RemoteError::HttpStatus(404)));
}

struct FailingDownloader;

impl GitHubDownloader for FailingDownloader {
    fn download_folder(&self, _repo: &GitHubRepo, _target_dir: &str, _skill_name: &str) -> Result<(), InstallError> {
        Err(InstallError::DownloadFailed("HTTP 404".to_string()))
    }
}

#[test]
fn install_errors_are_wrapped() {
    let installer = SkillInstaller::new(FailingDownloader, DefaultGitHubUrlParser);
    assert!(matches!(
        installer.install_from_url("https://github.com/a/b/tree/main/x", &TargetType::Codex, "/h"),
        Err(SkillsError::Install(InstallError::DownloadFailed(_)))
    ));
    let f = finder(&[], &[("anthropics/skills", &[("x", "dir", "skills/x")])]);
    assert!(matches!(
        installer.install_from_market("X", &TargetType::Codex, "/h", &f, &Pick(Ok(0))),
        Err(SkillsError::Install(_))
    ));
    let broken = SkillFinder::new(MarketService::new(FailingStorage, DefaultGitHubUrlParser), FakeApi::new(&[]));
    assert!(matches!(
        installer.install_from_market("X", &TargetType::Codex, "/h", &broken, &Pick(Ok(0))),
        Err(SkillsError::Config(ConfigError::Read(_)))
    ));
}
