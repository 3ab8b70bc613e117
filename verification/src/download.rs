//! Installing patterns from a repository.
//!
//! A reference becomes a URL, the URL is cloned into a workspace, one
//! directory of the clone is picked, and its files are merged into the
//! destination. The workspace is released whatever happens. Cloning, listing
//! and copying are the caller's part: an installation names the next step
//! and is told how it went.
use vstd::prelude::*;
use vstd::string::StringExecFns;
use crate::merge::{lemma_seek_never_clobbers, names_of, MergeView, Merger};
use crate::text::{chars_of, decimal, decimal_of, find_first, matches_at, string_of};

verus! {

/// What went wrong while installing patterns from a repository.
#[derive(Debug, Clone, Copy, PartialEq, Eq, Structural)]
pub enum DownloadErrorType {
    CloneFailed,
    InvalidURL,
    InvalidSubdir,
    TempDirFailure,
    IOError,
}

/// An installation failure: its kind and a message for the user.
#[derive(Debug)]
pub struct DownloadError {
    pub e_type: DownloadErrorType,
    pub message: String,
}

impl DownloadError {
    /// An error of kind `e_type` that carries `message`.
    pub fn new(e_type: DownloadErrorType, message: &str) -> (e: Self)
        ensures
            e.e_type == e_type,
            e.message@ == message@,
    {
        DownloadError { e_type, message: String::from_str(message) }
    }
}

/// Whether `url` already names a web address.
pub open spec fn has_scheme(url: Seq<char>) -> bool {
    "http://"@.is_prefix_of(url) || "https://"@.is_prefix_of(url)
}

/// Whether `url` is `<owner>/<name>`: it holds a slash, and neither the part
/// before the first slash nor the part after it is empty.
pub open spec fn is_shorthand(url: Seq<char>) -> bool {
    match url.index_of_first('/') {
        Some(slash) => 0 < slash && slash + 1 < url.len(),
        None => false,
    }
}

/// The address of the repository `<owner>/<name>` on GitHub.
pub open spec fn github_url(owner: Seq<char>, name: Seq<char>) -> Seq<char> {
    "https://www.github.com/"@ + owner + "/"@ + name
}

/// The URL that a reference stands for, or `None` where it stands for none.
///
/// A web address stands for itself. Any other reference is split at its
/// first slash into owner and name, so the name may hold further slashes.
pub open spec fn normalized(url: Seq<char>) -> Option<Seq<char>> {
    if has_scheme(url) {
        Some(url)
    } else if is_shorthand(url) {
        let slash = url.index_of_first('/')->0;
        Some(github_url(url.subrange(0, slash), url.subrange(slash + 1, url.len() as int)))
    } else {
        None
    }
}

/// The message that explains why `url` stands for no URL.
pub open spec fn rejection(url: Seq<char>) -> Seq<char> {
    if url.contains('/') {
        "Detected Github type url, but no author or repository name found"@
    } else {
        "URL is not HTTPS address and does not contain delimiting slash"@
    }
}

/// Turns a repository reference into a URL.
pub fn normalize_url(url: &str) -> (r: Result<String, DownloadError>)
    ensures
        match r {
            Ok(u) => normalized(url@) == Some(u@),
            Err(e) => {
                &&& normalized(url@) is None
                &&& e.e_type == DownloadErrorType::InvalidURL
                &&& e.message@ == rejection(url@)
            },
        },
{
    let chars = chars_of(url);
    let http = chars_of("http://");
    let https = chars_of("https://");
    if matches_at(&chars, 0, &http) || matches_at(&chars, 0, &https) {
        return Ok(String::from_str(url));
    }
    match find_first(&chars, '/') {
        Some(slash) => {
            if slash > 0 && slash + 1 < chars.len() {
                let owner = string_of(&chars, 0, slash);
                let name = string_of(&chars, slash + 1, chars.len());
                let mut out = String::from_str("https://www.github.com/");
                out.append(owner.as_str());
                out.append("/");
                out.append(name.as_str());
                Ok(out)
            } else {
                Err(
                    DownloadError::new(
                        DownloadErrorType::InvalidURL,
                        "Detected Github type url, but no author or repository name found",
                    ),
                )
            }
        },
        None => Err(
            DownloadError::new(
                DownloadErrorType::InvalidURL,
                "URL is not HTTPS address and does not contain delimiting slash",
            ),
        ),
    }
}

/// Normalizing is idempotent: a URL that normalizing gives is a web address,
/// and so stands for itself.
pub proof fn lemma_normalize_idempotent(url: Seq<char>)
    ensures
        normalized(url) matches Some(u) ==> normalized(u) == Some(u),
{
    if !has_scheme(url) && is_shorthand(url) {
        reveal_strlit("https://");
        reveal_strlit("https://www.github.com/");
        let u = normalized(url)->0;
    }
}

/// The view of an error: its kind and the characters of its message.
pub struct ErrorView {
    pub e_type: DownloadErrorType,
    pub message: Seq<char>,
}

impl View for DownloadError {
    type V = ErrorView;

    open spec fn view(&self) -> ErrorView {
        ErrorView { e_type: self.e_type, message: self.message@ }
    }
}

/// A directory of a repository whose files are installed.
#[derive(Debug, Clone, Copy, PartialEq, Eq, Structural)]
pub enum AssetDirectory {
    Patterns,
    Colorscripts,
}

impl AssetDirectory {
    /// The name of the directory inside the repository.
    pub open spec fn name(self) -> Seq<char> {
        match self {
            AssetDirectory::Patterns => "patterns"@,
            AssetDirectory::Colorscripts => "colorscripts"@,
        }
    }

    /// The name of the directory inside the repository.
    pub fn dir_name(&self) -> (s: &'static str)
        ensures
            s@ == self.name(),
    {
        match self {
            AssetDirectory::Patterns => "patterns",
            AssetDirectory::Colorscripts => "colorscripts",
        }
    }
}

/// The directory that is installed from a repository: `patterns` where it
/// exists, else `colorscripts` where that exists, else none. Never both.
pub open spec fn located(has_patterns: bool, has_colorscripts: bool) -> Option<AssetDirectory> {
    if has_patterns {
        Some(AssetDirectory::Patterns)
    } else if has_colorscripts {
        Some(AssetDirectory::Colorscripts)
    } else {
        None
    }
}

/// The error for a repository that holds neither directory.
pub open spec fn no_asset_directory() -> ErrorView {
    ErrorView {
        e_type: DownloadErrorType::InvalidSubdir,
        message: "No pattern or colorscripts directory found in repository"@,
    }
}

/// Picks the directory to install from, given which of the two a
/// repository holds.
pub fn locate(has_patterns: bool, has_colorscripts: bool) -> (r: Result<
    AssetDirectory,
    DownloadError,
>)
    ensures
        match r {
            Ok(dir) => located(has_patterns, has_colorscripts) == Some(dir),
            Err(e) => located(has_patterns, has_colorscripts) is None && e@
                == no_asset_directory(),
        },
{
    if has_patterns {
        Ok(AssetDirectory::Patterns)
    } else if has_colorscripts {
        Ok(AssetDirectory::Colorscripts)
    } else {
        Err(
            DownloadError::new(
                DownloadErrorType::InvalidSubdir,
                "No pattern or colorscripts directory found in repository",
            ),
        )
    }
}

/// What an installation waits for.
#[derive(Debug, Clone, Copy, PartialEq, Eq, Structural)]
pub enum Stage {
    /// A workspace to clone into.
    Workspace,
    /// The clone of the repository.
    Clone,
    /// Word on which asset directories the clone holds.
    Probe,
    /// The file names of the asset directory and of the destination.
    Listing,
    /// The copies of the merge, then the release of the workspace.
    Merging,
    /// The release of the workspace after a failure.
    Failing,
    /// Nothing: the installation has ended.
    Done,
}

/// What an installation achieved.
#[derive(Debug, Clone, Copy, PartialEq, Eq, Structural)]
pub struct Installed {
    /// The directory that was installed from.
    pub kind: AssetDirectory,
    /// The number of files that were copied.
    pub count: usize,
}

impl Installed {
    /// The line that reports the installation into `destination`.
    pub open spec fn summary_of(self, destination: Seq<char>) -> Seq<char> {
        "Copied "@ + decimal_of(self.count as nat) + " "@ + self.kind.name() + " to "@
            + destination
    }

    /// The line that reports the installation into `destination`.
    pub fn summary(&self, destination: &str) -> (line: String)
        ensures
            line@ == self.summary_of(destination@),
    {
        let mut line = String::from_str("Copied ");
        line.append(decimal(self.count).as_str());
        line.append(" ");
        line.append(self.kind.dir_name());
        line.append(" to ");
        line.append(destination);
        line
    }
}

/// What the caller of an installation has to do next.
#[derive(Debug)]
pub enum Request {
    /// Create a workspace: a directory of its own that is removed on
    /// release.
    AcquireWorkspace,
    /// Clone the repository at this URL into the workspace.
    Clone(String),
    /// Report which of the two asset directories the clone holds.
    Probe,
    /// List the files of this directory of the clone, and the names that
    /// the destination holds.
    List(AssetDirectory),
    /// Copy the file of this name from this directory of the clone into the
    /// destination.
    Copy(AssetDirectory, String),
    /// Remove the workspace.
    Release,
    /// Nothing more: the installation has ended with this result.
    Finish(Result<Installed, DownloadError>),
}

/// What the caller reports back.
#[derive(Debug)]
pub enum Reply {
    /// Whether a workspace could be created.
    Workspace(bool),
    /// The clone succeeded, or failed with this text.
    Cloned(Result<(), String>),
    /// Which asset directories the clone holds.
    Probed { patterns: bool, colorscripts: bool },
    /// The files of the asset directory, or the text of the failure to list
    /// them, and the names that the destination holds.
    Listed { source: Result<Vec<String>, String>, present: Vec<String> },
    /// Whether the copy succeeded.
    Copied(bool),
    /// The workspace is removed.
    Released,
}

/// A request, as the contracts see it.
pub enum RequestView {
    AcquireWorkspace,
    Clone(Seq<char>),
    Probe,
    List(AssetDirectory),
    Copy(AssetDirectory, Seq<char>),
    Release,
    Finish(Result<Installed, ErrorView>),
}

/// A reply, as the contracts see it.
pub enum ReplyView {
    Workspace(bool),
    Cloned(Result<(), Seq<char>>),
    Probed { patterns: bool, colorscripts: bool },
    Listed { source: Result<Seq<Seq<char>>, Seq<char>>, present: Seq<Seq<char>> },
    Copied(bool),
    Released,
}

impl View for Request {
    type V = RequestView;

    open spec fn view(&self) -> RequestView {
        match self {
            Request::AcquireWorkspace => RequestView::AcquireWorkspace,
            Request::Clone(url) => RequestView::Clone(url@),
            Request::Probe => RequestView::Probe,
            Request::List(kind) => RequestView::List(*kind),
            Request::Copy(kind, name) => RequestView::Copy(*kind, name@),
            Request::Release => RequestView::Release,
            Request::Finish(Ok(done)) => RequestView::Finish(Ok(*done)),
            Request::Finish(Err(e)) => RequestView::Finish(Err(e@)),
        }
    }
}

impl View for Reply {
    type V = ReplyView;

    open spec fn view(&self) -> ReplyView {
        match self {
            Reply::Workspace(ready) => ReplyView::Workspace(*ready),
            Reply::Cloned(Ok(())) => ReplyView::Cloned(Ok(())),
            Reply::Cloned(Err(text)) => ReplyView::Cloned(Err(text@)),
            Reply::Probed { patterns, colorscripts } => ReplyView::Probed {
                patterns: *patterns,
                colorscripts: *colorscripts,
            },
            Reply::Listed { source: Ok(files), present } => ReplyView::Listed {
                source: Ok(names_of(files@)),
                present: names_of(present@),
            },
            Reply::Listed { source: Err(text), present } => ReplyView::Listed {
                source: Err(text@),
                present: names_of(present@),
            },
            Reply::Copied(copied) => ReplyView::Copied(*copied),
            Reply::Released => ReplyView::Released,
        }
    }
}

/// The error for a workspace that could not be created.
pub open spec fn no_workspace() -> ErrorView {
    ErrorView {
        e_type: DownloadErrorType::TempDirFailure,
        message: "Failed to create temporary directory"@,
    }
}

/// The error for a clone that failed with `text`.
pub open spec fn clone_failed(text: Seq<char>) -> ErrorView {
    ErrorView {
        e_type: DownloadErrorType::CloneFailed,
        message: "Failed to clone git repository with error "@ + text,
    }
}

/// The error for an asset directory that could not be listed, with `text`.
pub open spec fn listing_failed(text: Seq<char>) -> ErrorView {
    ErrorView {
        e_type: DownloadErrorType::IOError,
        message: "Failed to read temp directory with error "@ + text,
    }
}

/// The state of an installation, as the contracts see it.
pub struct DownloadView {
    /// What the installation waits for.
    pub stage: Stage,
    /// The URL that is cloned.
    pub url: Seq<char>,
    /// Whether a workspace was acquired and is not yet released.
    pub holding: bool,
    /// The directory that is installed from, once it is picked.
    pub kind: AssetDirectory,
    /// The merge of that directory into the destination.
    pub merge: MergeView,
    /// The failure that ends the installation, if there is one.
    pub failure: Option<ErrorView>,
}

impl DownloadView {
    /// The installation from the repository `reference`, before anything is
    /// done. A reference that stands for no URL ends it at once.
    pub open spec fn begin(reference: Seq<char>) -> DownloadView {
        let idle = DownloadView {
            stage: Stage::Done,
            url: Seq::empty(),
            holding: false,
            kind: AssetDirectory::Patterns,
            merge: MergeView::start(Seq::empty(), Seq::empty()),
            failure: None,
        };
        match normalized(reference) {
            Some(url) => DownloadView { stage: Stage::Workspace, url, ..idle },
            None => DownloadView {
                failure: Some(
                    ErrorView {
                        e_type: DownloadErrorType::InvalidURL,
                        message: rejection(reference),
                    },
                ),
                ..idle
            },
        }
    }

    /// The state after a failure: where a workspace is held, its release
    /// comes before the end.
    pub open spec fn fail(self, error: ErrorView) -> DownloadView {
        DownloadView {
            stage: if self.holding {
                Stage::Failing
            } else {
                Stage::Done
            },
            failure: Some(error),
            ..self
        }
    }

    /// What the caller has to do in this state.
    pub open spec fn request(self) -> RequestView {
        match self.stage {
            Stage::Workspace => RequestView::AcquireWorkspace,
            Stage::Clone => RequestView::Clone(self.url),
            Stage::Probe => RequestView::Probe,
            Stage::Listing => RequestView::List(self.kind),
            Stage::Merging => if self.merge.pending() {
                RequestView::Copy(self.kind, self.merge.current())
            } else {
                RequestView::Release
            },
            Stage::Failing => RequestView::Release,
            Stage::Done => RequestView::Finish(
                match self.failure {
                    Some(error) => Err(error),
                    None => Ok(
                        Installed { kind: self.kind, count: self.merge.installed.len() as usize },
                    ),
                },
            ),
        }
    }

    /// Whether `reply` answers the request of this state.
    pub open spec fn expects(self, reply: ReplyView) -> bool {
        match (self.request(), reply) {
            (RequestView::AcquireWorkspace, ReplyView::Workspace(_)) => true,
            (RequestView::Clone(_), ReplyView::Cloned(_)) => true,
            (RequestView::Probe, ReplyView::Probed { .. }) => true,
            (RequestView::List(_), ReplyView::Listed { .. }) => true,
            (RequestView::Copy(_, _), ReplyView::Copied(_)) => true,
            (RequestView::Release, ReplyView::Released) => true,
            _ => false,
        }
    }

    /// The state after `reply`. A reply that does not answer the request of
    /// this state changes nothing.
    pub open spec fn advance(self, reply: ReplyView) -> DownloadView {
        if !self.expects(reply) {
            self
        } else {
            match reply {
                ReplyView::Workspace(true) => DownloadView {
                    stage: Stage::Clone,
                    holding: true,
                    ..self
                },
                ReplyView::Workspace(false) => self.fail(no_workspace()),
                ReplyView::Cloned(Ok(())) => DownloadView { stage: Stage::Probe, ..self },
                ReplyView::Cloned(Err(text)) => self.fail(clone_failed(text)),
                ReplyView::Probed { patterns, colorscripts } => match located(
                    patterns,
                    colorscripts,
                ) {
                    Some(kind) => DownloadView { stage: Stage::Listing, kind, ..self },
                    None => self.fail(no_asset_directory()),
                },
                ReplyView::Listed { source: Ok(files), present } => DownloadView {
                    stage: Stage::Merging,
                    merge: MergeView::start(files, present).seek(),
                    ..self
                },
                ReplyView::Listed { source: Err(text), present } => self.fail(
                    listing_failed(text),
                ),
                ReplyView::Copied(copied) => DownloadView {
                    merge: self.merge.settle(copied).seek(),
                    ..self
                },
                ReplyView::Released => DownloadView {
                    stage: Stage::Done,
                    holding: false,
                    ..self
                },
            }
        }
    }
}

/// An installation in progress.
///
/// It touches neither the network nor the file system. It says what has to
/// be done next, and is told how that went.
pub struct Download {
    stage: Stage,
    url: String,
    holding: bool,
    kind: AssetDirectory,
    merger: Merger,
    failure: Option<DownloadError>,
}

impl View for Download {
    type V = DownloadView;

    closed spec fn view(&self) -> DownloadView {
        DownloadView {
            stage: self.stage,
            url: self.url@,
            holding: self.holding,
            kind: self.kind,
            merge: self.merger@,
            failure: match self.failure {
                Some(error) => Some(error@),
                None => None,
            },
        }
    }
}

/// Begins the installation of the patterns of the repository `url`, which
/// is a web address or `<owner>/<name>`.
pub fn download_patterns(url: &str) -> (download: Download)
    ensures
        download@ == DownloadView::begin(url@),
{
    let merger = Merger::new(Vec::new(), Vec::new());
    assert(names_of(Seq::<String>::empty()) =~= Seq::<Seq<char>>::empty());
    match normalize_url(url) {
        Ok(normal) => Download {
            stage: Stage::Workspace,
            url: normal,
            holding: false,
            kind: AssetDirectory::Patterns,
            merger,
            failure: None,
        },
        Err(error) => Download {
            stage: Stage::Done,
            url: String::new(),
            holding: false,
            kind: AssetDirectory::Patterns,
            merger,
            failure: Some(error),
        },
    }
}

impl Download {
    /// What has to be done next.
    pub fn request(&self) -> (request: Request)
        ensures
            request@ == self@.request(),
    {
        match self.stage {
            Stage::Workspace => Request::AcquireWorkspace,
            Stage::Clone => Request::Clone(self.url.clone()),
            Stage::Probe => Request::Probe,
            Stage::Listing => Request::List(self.kind),
            Stage::Merging => match self.merger.awaited() {
                Some(name) => Request::Copy(self.kind, name),
                None => Request::Release,
            },
            Stage::Failing => Request::Release,
            Stage::Done => match &self.failure {
                Some(error) => Request::Finish(
                    Err(DownloadError::new(error.e_type, error.message.as_str())),
                ),
                None => Request::Finish(
                    Ok(Installed { kind: self.kind, count: self.merger.outcome() }),
                ),
            },
        }
    }

    /// The merge of the picked directory into the destination, as far as it
    /// has come.
    pub fn merge(&self) -> (merger: &Merger)
        ensures
            merger@ == self@.merge,
    {
        &self.merger
    }

    /// Whether a workspace was acquired and is not yet released.
    pub fn holds_workspace(&self) -> (holding: bool)
        ensures
            holding == self@.holding,
    {
        self.holding
    }

    fn fail(&mut self, error: DownloadError)
        ensures
            final(self)@ == old(self)@.fail(error@),
    {
        self.stage = if self.holding {
            Stage::Failing
        } else {
            Stage::Done
        };
        self.failure = Some(error);
    }

    /// Takes in how the last request went. A reply that does not answer
    /// that request is ignored.
    pub fn advance(&mut self, reply: Reply)
        ensures
            final(self)@ == old(self)@.advance(reply@),
    {
        let awaiting_copy = self.merger.awaited().is_some();
        match (self.stage, reply) {
            (Stage::Workspace, Reply::Workspace(ready)) => {
                if ready {
                    self.stage = Stage::Clone;
                    self.holding = true;
                } else {
                    self.fail(
                        DownloadError::new(
                            DownloadErrorType::TempDirFailure,
                            "Failed to create temporary directory",
                        ),
                    );
                }
            },
            (Stage::Clone, Reply::Cloned(Ok(()))) => {
                self.stage = Stage::Probe;
            },
            (Stage::Clone, Reply::Cloned(Err(text))) => {
                let mut message = String::from_str("Failed to clone git repository with error ");
                message.append(text.as_str());
                self.fail(DownloadError { e_type: DownloadErrorType::CloneFailed, message });
            },
            (Stage::Probe, Reply::Probed { patterns, colorscripts }) => {
                match locate(patterns, colorscripts) {
                    Ok(kind) => {
                        self.stage = Stage::Listing;
                        self.kind = kind;
                    },
                    Err(error) => {
                        self.fail(error);
                    },
                }
            },
            (Stage::Listing, Reply::Listed { source: Ok(files), present }) => {
                let mut merger = Merger::new(files, present);
                merger.next_copy();
                self.stage = Stage::Merging;
                self.merger = merger;
            },
            (Stage::Listing, Reply::Listed { source: Err(text), present }) => {
                let mut message = String::from_str("Failed to read temp directory with error ");
                message.append(text.as_str());
                self.fail(DownloadError { e_type: DownloadErrorType::IOError, message });
            },
            (Stage::Merging, Reply::Copied(copied)) => {
                if awaiting_copy {
                    self.merger.record(copied);
                    self.merger.next_copy();
                }
            },
            (Stage::Merging, Reply::Released) => {
                if !awaiting_copy {
                    self.stage = Stage::Done;
                    self.holding = false;
                }
            },
            (Stage::Failing, Reply::Released) => {
                self.stage = Stage::Done;
                self.holding = false;
            },
            _ => {},
        }
    }
}

impl DownloadView {
    /// The state after each of `replies` is taken in, in order.
    pub open spec fn run(self, replies: Seq<ReplyView>) -> DownloadView
        decreases replies.len(),
    {
        if replies.len() == 0 {
            self
        } else {
            self.run(replies.drop_last()).advance(replies.last())
        }
    }

    /// Whether a workspace is held in exactly the stages that work in it,
    /// and a copy is asked for only where it overwrites nothing.
    pub open spec fn orderly(self) -> bool {
        &&& self.holding <==> (self.stage == Stage::Clone || self.stage == Stage::Probe
            || self.stage == Stage::Listing || self.stage == Stage::Merging || self.stage
            == Stage::Failing)
        &&& self.merge.pending() ==> !self.merge.collides()
    }
}

/// Every state that an installation reaches is orderly, whatever the
/// replies are.
pub proof fn lemma_run_is_orderly(reference: Seq<char>, replies: Seq<ReplyView>)
    ensures
        DownloadView::begin(reference).run(replies).orderly(),
    decreases replies.len(),
{
    if replies.len() > 0 {
        lemma_run_is_orderly(reference, replies.drop_last());
        let before = DownloadView::begin(reference).run(replies.drop_last());
        let reply = replies.last();
        if before.expects(reply) {
            match reply {
                ReplyView::Listed { source: Ok(files), present } => {
                    lemma_seek_never_clobbers(MergeView::start(files, present));
                },
                ReplyView::Copied(copied) => {
                    lemma_seek_never_clobbers(before.merge.settle(copied));
                },
                _ => {},
            }
        }
    }
}

/// The workspace is released on every path: when an installation has
/// ended, in success or in failure, it holds no workspace.
pub proof fn lemma_ends_released(reference: Seq<char>, replies: Seq<ReplyView>)
    ensures
        DownloadView::begin(reference).run(replies).request() is Finish
            ==> !DownloadView::begin(reference).run(replies).holding,
{
    lemma_run_is_orderly(reference, replies);
}

/// No copy overwrites an installed pattern: the file that an installation
/// asks to copy has a stem that the destination does not hold.
pub proof fn lemma_copies_never_clobber(reference: Seq<char>, replies: Seq<ReplyView>)
    ensures
        DownloadView::begin(reference).run(replies).request() is Copy
            ==> !DownloadView::begin(reference).run(replies).merge.collides(),
{
    lemma_run_is_orderly(reference, replies);
}

/// Once a directory is picked, it stays picked.
pub proof fn lemma_pick_is_kept(v: DownloadView, replies: Seq<ReplyView>)
    requires
        v.stage != Stage::Workspace,
        v.stage != Stage::Clone,
        v.stage != Stage::Probe,
    ensures
        v.run(replies).kind == v.kind,
        v.run(replies).stage != Stage::Workspace,
        v.run(replies).stage != Stage::Clone,
        v.run(replies).stage != Stage::Probe,
    decreases replies.len(),
{
    if replies.len() > 0 {
        lemma_pick_is_kept(v, replies.drop_last());
    }
}

/// `patterns` comes first: where the clone holds it, it is the directory
/// that is listed, and whatever follows, nothing is ever listed in or copied
/// from `colorscripts`, whether the clone holds that too or not.
pub proof fn lemma_patterns_come_first(
    v: DownloadView,
    colorscripts: bool,
    replies: Seq<ReplyView>,
)
    requires
        v.stage == Stage::Probe,
    ensures
        ({
            let picked = v.advance(ReplyView::Probed { patterns: true, colorscripts });
            &&& picked.request() == RequestView::List(AssetDirectory::Patterns)
            &&& picked.run(replies).request() != RequestView::List(AssetDirectory::Colorscripts)
            &&& forall|name: Seq<char>|
                picked.run(replies).request() != RequestView::Copy(
                    AssetDirectory::Colorscripts,
                    name,
                )
        }),
{
    let picked = v.advance(ReplyView::Probed { patterns: true, colorscripts });
    lemma_pick_is_kept(picked, replies);
}

} // verus!
