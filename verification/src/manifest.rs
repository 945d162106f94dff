//! Listing the firmware file tree of the remote repository.
//!
//! The walk is depth-first in the order of the listings. It asks for one
//! directory listing at a time and is handed the entries; the first listing
//! that cannot be had ends it, and no partial manifest is given out.

use vstd::prelude::*;
use vstd::string::StringExecFns;
use crate::bytes::{occurs, occurs_at};
use crate::event::{ErrorKind, JobError};
use crate::text::{chars_match_at, contains, same_text, to_chars};

verus! {

/// The directory of the repository that holds the firmware tree.
pub open spec fn subtree() -> Seq<char> {
    "code/embedded"@
}

/// The name of the hidden file that desktop systems leave in directories.
pub open spec fn hidden_name() -> Seq<char> {
    ".DS_Store"@
}

/// The marker of archive metadata in a path.
pub open spec fn archive_marker() -> Seq<char> {
    "__MACOSX"@
}

/// What an entry of a listing is.
#[derive(Debug, Clone, Copy, PartialEq, Eq, Structural)]
pub enum EntryKind {
    File,
    Dir,
    /// Anything else, such as a link.
    Other,
}

/// One entry of a directory listing.
#[derive(Debug, Clone, PartialEq, Eq)]
pub struct TreeEntry {
    pub name: String,
    /// The path from the root of the repository.
    pub path: String,
    pub kind: EntryKind,
    /// Where the content of a file can be had.
    pub download_url: Option<String>,
}

/// The mathematical value of a [`TreeEntry`].
pub struct EntryView {
    pub name: Seq<char>,
    pub path: Seq<char>,
    pub kind: EntryKind,
    pub download_url: Option<Seq<char>>,
}

impl View for TreeEntry {
    type V = EntryView;

    open spec fn view(&self) -> EntryView {
        EntryView {
            name: self.name@,
            path: self.path@,
            kind: self.kind,
            download_url: match self.download_url {
                Some(url) => Some(url@),
                None => None,
            },
        }
    }
}

/// A file to put on the device: its path there, with a single leading
/// separator, and where its content can be had.
#[derive(Debug, Clone, PartialEq, Eq)]
pub struct DeviceFile {
    pub path: String,
    pub download_url: String,
}

/// The mathematical value of a [`DeviceFile`].
pub struct FileView {
    pub path: Seq<char>,
    pub download_url: Seq<char>,
}

impl View for DeviceFile {
    type V = FileView;

    open spec fn view(&self) -> FileView {
        FileView { path: self.path@, download_url: self.download_url@ }
    }
}

/// The kind that the listing's type tag stands for: `file`, `dir`, or
/// anything else.
pub fn entry_kind(tag: &str) -> (r: EntryKind)
    ensures
        r == if tag@ == "file"@ {
            EntryKind::File
        } else if tag@ == "dir"@ {
            EntryKind::Dir
        } else {
            EntryKind::Other
        },
{
    if same_text(tag, "file") {
        EntryKind::File
    } else if same_text(tag, "dir") {
        EntryKind::Dir
    } else {
        EntryKind::Other
    }
}

/// Whether an entry is a hidden or system artifact: it is named exactly as
/// the hidden file, or its path holds the archive marker.
pub open spec fn hidden(entry: EntryView) -> bool {
    entry.name == hidden_name() || occurs(entry.path, archive_marker())
}

/// Whether an entry is a hidden or system artifact.
pub fn is_hidden(entry: &TreeEntry) -> (r: bool)
    ensures
        r == hidden(entry@),
{
    same_text(entry.name.as_str(), ".DS_Store") || contains(entry.path.as_str(), "__MACOSX")
}

/// `text` without `prefix` at its start, as often as it stands there.
pub open spec fn strip_prefix(text: Seq<char>, prefix: Seq<char>) -> Seq<char>
    decreases text.len(),
{
    if prefix.len() > 0 && occurs_at(text, prefix, 0) {
        strip_prefix(text.skip(prefix.len() as int), prefix)
    } else {
        text
    }
}

/// `text` without the separators at its start.
pub open spec fn strip_separators(text: Seq<char>) -> Seq<char>
    decreases text.len(),
{
    if text.len() > 0 && text[0] == '/' {
        strip_separators(text.drop_first())
    } else {
        text
    }
}

/// The path on the device of the file at `path` in the repository: the path
/// below the firmware tree, with exactly one leading separator.
pub open spec fn device_path_of(path: Seq<char>) -> Seq<char> {
    seq!['/'] + strip_separators(strip_prefix(path, subtree()))
}

/// The path on the device of the file at `path` in the repository.
pub fn device_path(path: &str) -> (r: String)
    ensures
        r@ == device_path_of(path@),
{
    proof {
        reveal_strlit("code/embedded");
        reveal_strlit("/");
    }
    let chars = to_chars(path);
    let prefix = to_chars("code/embedded");
    let mut at: usize = 0;
    let mut more = chars_match_at(chars.as_slice(), prefix.as_slice(), at);
    proof {
        assert(path@.skip(0) =~= path@);
    }
    while more
        invariant
            chars@ == path@,
            prefix@ == subtree(),
            prefix@.len() == 13,
            at <= chars@.len(),
            more == occurs_at(path@, subtree(), at as int),
            strip_prefix(path@, subtree()) == strip_prefix(path@.skip(at as int), subtree()),
        decreases chars@.len() - at,
    {
        proof {
            let here = path@.skip(at as int);
            assert(here.subrange(0, 13) =~= path@.subrange(at as int, at + 13));
            assert(here.skip(13) =~= path@.skip(at + 13));
        }
        assert(at + prefix.len() <= chars.len());
        at += prefix.len();
        more = chars_match_at(chars.as_slice(), prefix.as_slice(), at);
    }
    proof {
        let here = path@.skip(at as int);
        if 13 <= here.len() {
            assert(here.subrange(0, 13) =~= path@.subrange(at as int, at + 13));
        }
    }
    let ghost below = path@.skip(at as int);
    let ghost start = at;
    while at < chars.len() && chars[at] == '/'
        invariant
            chars@ == path@,
            start <= at <= chars@.len(),
            below == path@.skip(start as int),
            strip_separators(below) == strip_separators(path@.skip(at as int)),
        decreases chars@.len() - at,
    {
        proof {
            assert(path@.skip(at as int).drop_first() =~= path@.skip(at + 1));
        }
        at += 1;
    }
    let rest = path.substring_char(at, chars.len());
    let mut out = String::from_str("/");
    out.append(rest);
    out
}

proof fn lemma_no_separator_left(text: Seq<char>)
    ensures
        strip_separators(text).len() == 0 || strip_separators(text)[0] != '/',
    decreases text.len(),
{
    if text.len() > 0 && text[0] == '/' {
        lemma_no_separator_left(text.drop_first());
    }
}

/// A device path begins with exactly one separator.
pub proof fn lemma_device_path_has_one_separator(path: Seq<char>)
    ensures
        device_path_of(path).len() >= 1,
        device_path_of(path)[0] == '/',
        device_path_of(path).len() == 1 || device_path_of(path)[1] != '/',
{
    lemma_no_separator_left(strip_prefix(path, subtree()));
}

/// The address of the listing of the directory at `path` in the repository.
pub open spec fn listing_url_of(path: Seq<char>) -> Seq<char> {
    "https://api.github.com/repos/mpkendall/prototype-badge/contents/"@ + path + "?ref=main"@
}

/// The address of the listing of the directory at `path` in the repository.
pub fn listing_url(path: &str) -> (r: String)
    ensures
        r@ == listing_url_of(path@),
{
    let mut url = String::from_str(
        "https://api.github.com/repos/mpkendall/prototype-badge/contents/",
    );
    url.append(path);
    url.append("?ref=main");
    url
}

/// What the walk does with an entry.
#[derive(Debug, Clone, PartialEq, Eq)]
pub enum Finding {
    /// Nothing.
    Skip,
    /// Put this file into the manifest.
    Record(DeviceFile),
    /// List the directory at this path next.
    Descend(String),
}

/// The mathematical value of a [`Finding`].
pub enum FindingView {
    Skip,
    Record(FileView),
    Descend(Seq<char>),
}

impl View for Finding {
    type V = FindingView;

    open spec fn view(&self) -> FindingView {
        match self {
            Finding::Skip => FindingView::Skip,
            Finding::Record(file) => FindingView::Record(file@),
            Finding::Descend(path) => FindingView::Descend(path@),
        }
    }
}

/// What the walk does with `entry`: a hidden or system artifact is skipped,
/// whatever it is; a file with a place to download it from is recorded under
/// its device path; a directory is descended into; all else is skipped.
pub open spec fn finding_of(entry: EntryView) -> FindingView {
    if hidden(entry) {
        FindingView::Skip
    } else {
        match entry.kind {
            EntryKind::File => match entry.download_url {
                Some(url) => FindingView::Record(
                    FileView { path: device_path_of(entry.path), download_url: url },
                ),
                None => FindingView::Skip,
            },
            EntryKind::Dir => FindingView::Descend(entry.path),
            EntryKind::Other => FindingView::Skip,
        }
    }
}

/// What the walk does with `entry`.
pub fn classify(entry: TreeEntry) -> (r: Finding)
    ensures
        r@ == finding_of(entry@),
{
    if is_hidden(&entry) {
        return Finding::Skip;
    }
    match entry.kind {
        EntryKind::File => match entry.download_url {
            Some(url) => {
                let path = device_path(entry.path.as_str());
                Finding::Record(DeviceFile { path, download_url: url })
            },
            None => Finding::Skip,
        },
        EntryKind::Dir => Finding::Descend(entry.path),
        EntryKind::Other => Finding::Skip,
    }
}

/// What is left after the entries `pending` were worked through in order up
/// to the first directory to descend into: the entries after it, the files
/// recorded, and the directory's path. Without such a directory nothing is
/// left and all files are recorded.
pub open spec fn drain(pending: Seq<EntryView>, files: Seq<FileView>) -> (
    Seq<EntryView>,
    Seq<FileView>,
    Option<Seq<char>>,
)
    decreases pending.len(),
{
    if pending.len() == 0 {
        (pending, files, None)
    } else {
        match finding_of(pending[0]) {
            FindingView::Skip => drain(pending.drop_first(), files),
            FindingView::Record(file) => drain(pending.drop_first(), files.push(file)),
            FindingView::Descend(path) => (pending.drop_first(), files, Some(path)),
        }
    }
}

/// The entries that are no hidden or system artifacts, in order.
pub open spec fn visible(entries: Seq<EntryView>) -> Seq<EntryView>
    decreases entries.len(),
{
    if entries.len() == 0 {
        entries
    } else if hidden(entries[0]) {
        visible(entries.drop_first())
    } else {
        seq![entries[0]] + visible(entries.drop_first())
    }
}

/// Hidden and system artifacts leave no trace in a walk: with them taken out
/// beforehand, working through the entries records the same files and asks
/// for the same directory next, and what is left differs by such artifacts
/// only.
pub proof fn lemma_hidden_entries_leave_no_trace(pending: Seq<EntryView>, files: Seq<FileView>)
    ensures
        drain(visible(pending), files) == (
            visible(drain(pending, files).0),
            drain(pending, files).1,
            drain(pending, files).2,
        ),
    decreases pending.len(),
{
    if pending.len() > 0 {
        let first = pending[0];
        let rest = pending.drop_first();
        if hidden(first) {
            lemma_hidden_entries_leave_no_trace(rest, files);
        } else {
            let shown = visible(pending);
            assert(shown.drop_first() =~= visible(rest));
            match finding_of(first) {
                FindingView::Skip => {
                    lemma_hidden_entries_leave_no_trace(rest, files);
                },
                FindingView::Record(file) => {
                    lemma_hidden_entries_leave_no_trace(rest, files.push(file));
                },
                FindingView::Descend(_) => {},
            }
        }
    }
}

/// What the driver of a walk is to do next.
#[derive(Debug, Clone, PartialEq, Eq)]
pub enum WalkAction {
    /// Fetch the listing of the directory at this path.
    List(String),
    /// The walk is complete: this is the manifest.
    Finished(Vec<DeviceFile>),
    /// The walk failed; there is no manifest.
    Failed(JobError),
    /// The walk was over before.
    Stop,
}

/// The mathematical value of a [`WalkAction`].
pub enum WalkActionView {
    List(Seq<char>),
    Finished(Seq<FileView>),
    Failed(ErrorKind, Seq<char>),
    Stop,
}

/// The mathematical value of a manifest.
pub open spec fn files_view(files: Seq<DeviceFile>) -> Seq<FileView> {
    files.map_values(|f: DeviceFile| f@)
}

/// The mathematical value of a listing.
pub open spec fn entries_view(entries: Seq<TreeEntry>) -> Seq<EntryView> {
    entries.map_values(|e: TreeEntry| e@)
}

impl View for WalkAction {
    type V = WalkActionView;

    open spec fn view(&self) -> WalkActionView {
        match self {
            WalkAction::List(path) => WalkActionView::List(path@),
            WalkAction::Finished(files) => WalkActionView::Finished(files_view(files@)),
            WalkAction::Failed(error) => WalkActionView::Failed(error.kind, error.message@),
            WalkAction::Stop => WalkActionView::Stop,
        }
    }
}

/// The mathematical value of a [`ManifestWalk`]: the entries still to work
/// through, in order; the files recorded so far; and whether the walk is
/// still under way.
pub struct WalkModel {
    pub pending: Seq<EntryView>,
    pub files: Seq<FileView>,
    pub open: bool,
}

/// A walk that is over: it holds nothing.
pub open spec fn walk_over() -> WalkModel {
    WalkModel { pending: Seq::empty(), files: Seq::empty(), open: false }
}

/// The mathematical value of what the driver reports: a listing, or the
/// message of the failure to get one.
pub open spec fn listing_view(listing: Result<Vec<TreeEntry>, String>) -> Result<
    Seq<EntryView>,
    Seq<char>,
> {
    match listing {
        Ok(entries) => Ok(entries_view(entries@)),
        Err(message) => Err(message@),
    }
}

/// One turn of the walk. The entries of a listing are worked through before
/// the entries that were waiting, which makes the walk depth-first. A failure
/// ends the walk with a network error and drops what was recorded.
pub open spec fn walk_step(m: WalkModel, listing: Result<Seq<EntryView>, Seq<char>>) -> (
    WalkModel,
    WalkActionView,
) {
    if !m.open {
        (m, WalkActionView::Stop)
    } else {
        match listing {
            Err(message) => (walk_over(), WalkActionView::Failed(ErrorKind::Network, message)),
            Ok(entries) => {
                let left = drain(entries + m.pending, m.files);
                match left.2 {
                    Some(path) => (
                        WalkModel { pending: left.0, files: left.1, open: true },
                        WalkActionView::List(path),
                    ),
                    None => (walk_over(), WalkActionView::Finished(left.1)),
                }
            },
        }
    }
}

/// The state of one walk of the remote tree.
pub struct ManifestWalk {
    // the entries still to work through, the next one last
    pending: Vec<TreeEntry>,
    files: Vec<DeviceFile>,
    open: bool,
}

impl View for ManifestWalk {
    type V = WalkModel;

    closed spec fn view(&self) -> WalkModel {
        WalkModel {
            pending: entries_view(self.pending@).reverse(),
            files: files_view(self.files@),
            open: self.open,
        }
    }
}

impl ManifestWalk {
    /// A walk with nothing listed yet, and the path of the directory to list
    /// first: the root of the firmware tree.
    pub fn begin() -> (r: (ManifestWalk, String))
        ensures
            r.0@ == (WalkModel { pending: Seq::empty(), files: Seq::empty(), open: true }),
            r.1@ == subtree(),
    {
        let walk = ManifestWalk { pending: Vec::new(), files: Vec::new(), open: true };
        assert(walk@.files =~= Seq::<FileView>::empty());
        (walk, String::from_str("code/embedded"))
    }

    /// Takes the listing that was asked for, or the message of the failure to
    /// get it, and says what to do next.
    pub fn supply(&mut self, listing: Result<Vec<TreeEntry>, String>) -> (r: WalkAction)
        ensures
            (final(self)@, r@) == walk_step(old(self)@, listing_view(listing)),
    {
        if !self.open {
            return WalkAction::Stop;
        }
        let ghost shown = listing_view(listing);
        match listing {
            Err(message) => {
                self.close();
                WalkAction::Failed(JobError { kind: ErrorKind::Network, message })
            },
            Ok(entries) => {
                let ghost waiting = self@.pending;
                let ghost listed = entries_view(entries@);
                let mut entries = entries;
                while entries.len() > 0
                    invariant
                        self.open,
                        self@.files == old(self)@.files,
                        entries_view(entries@) + self@.pending == listed + waiting,
                    decreases entries@.len(),
                {
                    let entry = entries.pop().unwrap();
                    self.pending.push(entry);
                }
                while self.pending.len() > 0
                    invariant
                        self.open,
                        old(self)@.open,
                        waiting == old(self)@.pending,
                        shown == listing_view(listing),
                        shown == Ok::<Seq<EntryView>, Seq<char>>(listed),
                        drain(self@.pending, self@.files) == drain(
                            listed + waiting,
                            old(self)@.files,
                        ),
                    decreases self.pending@.len(),
                {
                    let ghost ahead = self@.pending;
                    let ghost recorded = self@.files;
                    let entry = self.pending.pop().unwrap();
                    proof {
                        assert(self@.pending =~= ahead.drop_first());
                    }
                    match classify(entry) {
                        Finding::Skip => {},
                        Finding::Record(file) => {
                            self.files.push(file);
                            proof {
                                assert(self@.files =~= recorded.push(file@));
                            }
                        },
                        Finding::Descend(path) => {
                            proof {
                                assert(drain(ahead, recorded) == (
                                    ahead.drop_first(),
                                    recorded,
                                    Some(path@),
                                ));
                            }
                            return WalkAction::List(path);
                        },
                    }
                }
                let mut files: Vec<DeviceFile> = Vec::new();
                core::mem::swap(&mut self.files, &mut files);
                self.close();
                WalkAction::Finished(files)
            },
        }
    }

    fn close(&mut self)
        ensures
            final(self)@ == walk_over(),
    {
        self.pending = Vec::new();
        self.files = Vec::new();
        self.open = false;
        proof {
            assert(self@.files =~= Seq::<FileView>::empty());
        }
    }
}

} // verus!
