//! Installing a skill: from a repository URL, or by name through the markets.

use vstd::prelude::*;
use crate::github::{
    extract_skill_name, parse_spec, skill_name_spec, GitHubDownloader,
    GitHubUrlParser,
};
use crate::market::{GitHubApiClient, MarketStorage};
use crate::models::{GitHubRepo, SelectionError, SkillMatch, SkillsError};
use crate::segments::trim_end_slashes;
use crate::skill_finder::{lower_of, SkillFinder, UserInteraction};
use crate::text::{concat, join_slash, str_equal, str_starts_with};

verus! {

/// A kind of install target, named by a short lowercase word.
pub trait Target {
    spec fn kind_spec(&self) -> Seq<char>;

    fn as_str(&self) -> (r: &'static str)
        ensures
            r@ == self.kind_spec(),
    ;
}

/// The install targets this library knows.
#[derive(Debug, Clone, Copy, PartialEq, Eq, Structural)]
pub enum TargetType {
    Codex,
    Copilot,
}

impl Target for TargetType {
    open spec fn kind_spec(&self) -> Seq<char> {
        match self {
            TargetType::Codex => "codex"@,
            TargetType::Copilot => "copilot"@,
        }
    }

    fn as_str(&self) -> (r: &'static str) {
        match self {
            TargetType::Codex => "codex",
            TargetType::Copilot => "copilot",
        }
    }
}

/// The dot-folder of a target kind: `.github` for `copilot`, else `.` and the kind.
pub open spec fn folder_name_spec(kind: Seq<char>) -> Seq<char> {
    if kind == "copilot"@ {
        ".github"@
    } else {
        seq!['.'] + kind
    }
}

/// Where skills of a target kind go under a base directory.
pub open spec fn target_directory_spec(base_dir: Seq<char>, kind: Seq<char>) -> Seq<char> {
    base_dir + seq!['/'] + folder_name_spec(kind) + seq!['/'] + "skills"@
}

/// The skills folder for `target` under `base_dir` (the home directory for a global install,
/// else the working directory).
pub fn get_target_directory<T: Target>(target: &T, base_dir: &str) -> (r: String)
    ensures
        r@ == target_directory_spec(base_dir@, target.kind_spec()),
{
    proof {
        reveal_strlit(".");
    }
    let kind = target.as_str();
    let folder = if str_equal(kind, "copilot") {
        String::from_str(".github")
    } else {
        concat(".", kind)
    };
    let with_folder = join_slash(base_dir, folder.as_str());
    join_slash(with_folder.as_str(), "skills")
}

/// A reference is taken as a repository URL when it starts with `http`.
pub fn is_url_reference(reference: &str) -> (r: bool)
    ensures
        r == (4 <= reference@.len() && reference@.subrange(0, 4) == "http"@),
{
    proof {
        reveal_strlit("http");
    }
    str_starts_with(reference, "http")
}

/// Installs skills through a downloader, resolving references with a parser.
pub struct SkillInstaller<D: GitHubDownloader, P: GitHubUrlParser> {
    downloader: D,
    url_parser: P,
}

impl<D: GitHubDownloader, P: GitHubUrlParser> SkillInstaller<D, P> {
    pub fn new(downloader: D, url_parser: P) -> (r: Self) {
        SkillInstaller { downloader, url_parser }
    }

    /// The repository reference of `url` and the install name taken from its path.
    pub fn resolve_url(&self, url: &str) -> (r: Result<(GitHubRepo, String), SkillsError>)
        ensures
            match parse_spec(url@) {
                Err(e) => r is Err && r->Err_0 == SkillsError::Parse(e),
                Ok(v) => if trim_end_slashes(v.path).len() == 0 {
                    r is Err && r->Err_0 is EmptySkillName
                } else {
                    r is Ok && r->Ok_0.0@ == v && r->Ok_0.1@ == skill_name_spec(v.path)
                },
            },
    {
        let repo = match self.url_parser.parse(url) {
            Ok(r) => r,
            Err(e) => {
                return Err(SkillsError::Parse(e));
            },
        };
        match extract_skill_name(repo.path.as_str()) {
            Ok(name) => Ok((repo, name)),
            Err(e) => Err(e),
        }
    }

    /// Install the folder that `url` names into the skills folder of `target` under
    /// `base_dir`, under the folder's own name.
    pub fn install_from_url<T: Target>(&self, url: &str, target: &T, base_dir: &str) -> (r: Result<
        (),
        SkillsError,
    >)
        ensures
            parse_spec(url@) is Err ==> r is Err && r->Err_0 == SkillsError::Parse(
                parse_spec(url@)->Err_0,
            ),
            parse_spec(url@) is Ok && trim_end_slashes(parse_spec(url@)->Ok_0.path).len() == 0
                ==> r is Err && r->Err_0 is EmptySkillName,
            r is Err && !(r->Err_0 is Install) ==> parse_spec(url@) is Err || trim_end_slashes(
                parse_spec(url@)->Ok_0.path,
            ).len() == 0,
    {
        let (repo, skill_name) = match self.resolve_url(url) {
            Ok(p) => p,
            Err(e) => {
                return Err(e);
            },
        };
        let target_dir = get_target_directory(target, base_dir);
        match self.downloader.download_folder(&repo, target_dir.as_str(), skill_name.as_str()) {
            Ok(()) => Ok(()),
            Err(e) => Err(SkillsError::Install(e)),
        }
    }

    /// Install the skill named `skill_name` from the markets: the single match, or the one
    /// that the user picks among several; returns the match installed. No match is
    /// `NotFoundInAnyMarket(skill_name)`.
    pub fn install_from_market<S, U, A, I, T>(
        &self,
        skill_name: &str,
        target: &T,
        base_dir: &str,
        skill_finder: &SkillFinder<S, U, A>,
        user_interaction: &I,
    ) -> (r: Result<SkillMatch, SkillsError>) where
        S: MarketStorage,
        U: GitHubUrlParser,
        A: GitHubApiClient,
        I: UserInteraction,
        T: Target,
        ensures
            r is Ok ==> lower_of(r->Ok_0.name@) == lower_of(skill_name@),
            r is Err && r->Err_0 is NotFoundInAnyMarket ==> r->Err_0->NotFoundInAnyMarket_0@
                == skill_name@,
            r is Err ==> r->Err_0 is Config || r->Err_0 is Parse || r->Err_0 is NotFoundInAnyMarket
                || r->Err_0 is InvalidSelection || r->Err_0 is Selection || r->Err_0 is Install,
    {
        let mut matches = match skill_finder.find_by_name(skill_name) {
            Ok(m) => m,
            Err(e) => {
                return Err(e);
            },
        };
        let index = match self.select_skill(&matches, skill_name, user_interaction) {
            Ok(i) => i,
            Err(e) => {
                return Err(e);
            },
        };
        let ghost all = matches@;
        let selected = matches.remove(index);
        assert(selected == all[index as int]);
        let repo = match self.url_parser.parse(selected.url.as_str()) {
            Ok(r) => r,
            Err(e) => {
                return Err(SkillsError::Parse(e));
            },
        };
        let target_dir = get_target_directory(target, base_dir);
        match self.downloader.download_folder(&repo, target_dir.as_str(), selected.name.as_str()) {
            Ok(()) => Ok(selected),
            Err(e) => Err(SkillsError::Install(e)),
        }
    }

    /// The index of the match to install. The user is asked only when there are several.
    pub fn select_skill<I: UserInteraction>(
        &self,
        matches: &Vec<SkillMatch>,
        skill_name: &str,
        user_interaction: &I,
    ) -> (r: Result<usize, SkillsError>)
        ensures
            matches@.len() == 0 <==> (r is Err && r->Err_0 is NotFoundInAnyMarket),
            matches@.len() == 0 ==> r->Err_0->NotFoundInAnyMarket_0@ == skill_name@,
            matches@.len() == 1 ==> r == Ok::<usize, SkillsError>(0),
            r is Ok ==> r->Ok_0 < matches@.len(),
            matches@.len() >= 2 && r is Err ==> r->Err_0 is InvalidSelection || r->Err_0 is Selection,
    {
        let pick = if matches.len() >= 2 {
            Some(user_interaction.select_skill(matches.as_slice()))
        } else {
            None
        };
        pick_match(matches, skill_name, pick)
    }
}

/// The index of the match to install, given the user's answer `pick` (asked only when there
/// are several matches; `None` when no answer was given).
pub fn pick_match(
    matches: &Vec<SkillMatch>,
    skill_name: &str,
    pick: Option<Result<usize, SelectionError>>,
) -> (r: Result<usize, SkillsError>)
    ensures
        matches@.len() == 0 <==> (r is Err && r->Err_0 is NotFoundInAnyMarket),
        matches@.len() == 0 ==> r->Err_0->NotFoundInAnyMarket_0@ == skill_name@,
        matches@.len() == 1 ==> r == Ok::<usize, SkillsError>(0),
        matches@.len() >= 2 ==> match pick {
            Some(Ok(i)) => if i < matches@.len() {
                r == Ok::<usize, SkillsError>(i)
            } else {
                r is Err && r->Err_0 is InvalidSelection
            },
            Some(Err(e)) => r == Err::<usize, SkillsError>(SkillsError::Selection(e)),
            None => r == Err::<usize, SkillsError>(SkillsError::Selection(SelectionError::Cancelled)),
        },
{
    if matches.len() == 0 {
        return Err(SkillsError::NotFoundInAnyMarket(String::from_str(skill_name)));
    }
    if matches.len() == 1 {
        return Ok(0);
    }
    match pick {
        Some(Ok(i)) => {
            if i < matches.len() {
                Ok(i)
            } else {
                Err(SkillsError::InvalidSelection)
            }
        },
        Some(Err(e)) => Err(SkillsError::Selection(e)),
        None => Err(SkillsError::Selection(SelectionError::Cancelled)),
    }
}

} // verus!
