//! The records passed between the parser, the markets, the finder and the installer.

use vstd::prelude::*;

verus! {

/// A repository reference: owner, repository, branch and a path inside it.
#[derive(Debug)]
pub struct GitHubRepo {
    pub owner: String,
    pub repo: String,
    pub branch: String,
    pub path: String,
}

/// Mathematical view of a [`GitHubRepo`].
pub struct RepoRefView {
    pub owner: Seq<char>,
    pub repo: Seq<char>,
    pub branch: Seq<char>,
    pub path: Seq<char>,
}

impl View for GitHubRepo {
    type V = RepoRefView;

    open spec fn view(&self) -> RepoRefView {
        RepoRefView { owner: self.owner@, repo: self.repo@, branch: self.branch@, path: self.path@ }
    }
}

/// One entry of a remote directory listing; `item_type` is `"dir"` for a directory.
#[derive(Debug)]
pub struct GitHubContent {
    pub name: String,
    pub item_type: String,
    pub path: String,
}

/// A registered market: display name and repository URL.
#[derive(Debug)]
pub struct MarketEntry {
    pub name: String,
    pub url: String,
}

/// A candidate install target found in one market.
#[derive(Debug)]
pub struct SkillMatch {
    pub name: String,
    pub url: String,
    pub market_name: String,
}

/// Mathematical view of a [`SkillMatch`].
pub struct SkillMatchView {
    pub name: Seq<char>,
    pub url: Seq<char>,
    pub market_name: Seq<char>,
}

impl View for SkillMatch {
    type V = SkillMatchView;

    open spec fn view(&self) -> SkillMatchView {
        SkillMatchView { name: self.name@, url: self.url@, market_name: self.market_name@ }
    }
}

/// Why a repository reference could not be parsed.
#[derive(Debug, Clone, Copy, PartialEq, Eq, Structural)]
pub enum ParseError {
    /// Fewer than five segments, or no host marker in the text.
    InvalidFormat,
    /// The host marker occurs in the text but not as a whole segment.
    HostNotFound,
    /// No segment after the host marker.
    OwnerNotFound,
    /// No second segment after the host marker.
    RepoNotFound,
    /// A `tree` segment with nothing after it.
    BranchNotFound,
}

/// Failures of the persisted market list.
#[derive(Debug)]
pub enum ConfigError {
    /// The stored list could not be read or decoded.
    Read(String),
    /// The list could not be written.
    Write(String),
}

/// Failures of a remote listing.
#[derive(Debug)]
pub enum RemoteError {
    /// The request could not be made or completed.
    Transport(String),
    /// The server answered with a non-success status.
    HttpStatus(u16),
    /// The body did not decode into a listing.
    DecodeFailure(String),
}

/// Failures while downloading, extracting or copying an archive.
#[derive(Debug)]
pub enum InstallError {
    /// The archive could not be fetched; the status when the server answered.
    DownloadFailed(String),
    /// The archive could not be opened or extracted.
    ExtractFailed(String),
    /// The requested path does not exist inside the extracted archive.
    PathNotFound(String),
    /// A file-system operation failed.
    Io(String),
}

/// Failures of the interactive choice among several matches.
#[derive(Debug)]
pub enum SelectionError {
    /// The user gave no choice.
    Cancelled,
    /// The answer was not a number in range.
    InvalidInput(String),
}

/// Errors of the library's operations.
#[derive(Debug)]
pub enum SkillsError {
    /// A repository reference was malformed.
    Parse(ParseError),
    /// The reference names no folder whose last component could serve as an install name.
    EmptySkillName,
    /// No market lists a directory of this name.
    NotFoundInAnyMarket(String),
    /// The chosen index is not one of the matches.
    InvalidSelection,
    /// The interactive choice failed.
    Selection(SelectionError),
    /// The persisted market list could not be read or written.
    Config(ConfigError),
    /// Downloading, extracting or copying the archive failed.
    Install(InstallError),
}

} // verus!
