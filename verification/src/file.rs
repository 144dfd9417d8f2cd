//! Directory-watching collaborator: notification types and the
//! decision logic of the watcher loops.
//!
//! The session manager tells the watcher which child process to follow
//! through a one-way channel of [`DirectoryWatcherEvent`]s.  The
//! watcher itself polls that child's working directory at a fixed
//! interval and re-targets a filesystem watch whenever the directory
//! changes; every decision of that loop is verified here, while the
//! polling, the filesystem watch and the directory reads are performed
//! by the unverified driver.

use vstd::prelude::*;

verus! {

use crate::sort::{
    insert_by,
    lemma_insert_by_position,
    lemma_sort_by_insertion_ensures,
    sort_by_insertion,
    sorted_adjacent,
};
use crate::text::{lemma_lex_lt_trichotomy, lex_lt, str_lt};

/// What kind of entry a directory holds.
#[derive(Debug, Clone, Copy, PartialEq, Eq, Structural)]
pub enum FileType {
    Directory,
    File,
    SystemLink,
}

/// One entry of a directory listing, as shown to the presentation
/// boundary: its name, its kind, its full path (directories with a
/// trailing slash), and whether it is a hidden entry.
pub struct FileInfo {
    pub name: String,
    pub t: FileType,
    pub path: String,
    pub hidden: bool,
}

/// The mathematical value of a [`FileInfo`].
#[verifier::ext_equal]
pub struct FileModel {
    pub name: Seq<char>,
    pub t: FileType,
    pub path: Seq<char>,
    pub hidden: bool,
}

impl View for FileInfo {
    type V = FileModel;

    open spec fn view(&self) -> FileModel {
        FileModel { name: self.name@, t: self.t, path: self.path@, hidden: self.hidden }
    }
}

/// The rank a kind takes in the listing: links first, then
/// directories, then plain files.
pub open spec fn type_rank(t: FileType) -> int {
    match t {
        FileType::SystemLink => 0,
        FileType::Directory => 1,
        FileType::File => 2,
    }
}

/// The listing order: by kind rank, then hidden entries before
/// visible ones, then names in lexicographic order.
pub open spec fn file_lt(a: FileModel, b: FileModel) -> bool {
    type_rank(a.t) < type_rank(b.t) || (type_rank(a.t) == type_rank(b.t) && ((a.hidden
        && !b.hidden) || (a.hidden == b.hidden && lex_lt(a.name, b.name))))
}

/// The listing order as a function value, for the sorting theory.
pub open spec fn file_order() -> spec_fn(FileModel, FileModel) -> bool {
    |a: FileModel, b: FileModel| file_lt(a, b)
}

/// The listing order is asymmetric, as the sorting lemmas require.
pub proof fn lemma_file_lt_asymmetric()
    ensures
        forall|a: FileModel, b: FileModel| #[trigger] file_lt(a, b) ==> !file_lt(b, a),
{
    assert forall|a: FileModel, b: FileModel| #[trigger] file_lt(a, b) implies !file_lt(b, a) by {
        lemma_lex_lt_trichotomy(a.name, b.name);
    }
}

fn type_rank_of(t: FileType) -> (r: u8)
    ensures
        r as int == type_rank(t),
{
    match t {
        FileType::SystemLink => 0,
        FileType::Directory => 1,
        FileType::File => 2,
    }
}

/// Whether entry `a` comes strictly before entry `b` in the listing.
fn file_row_lt(a: &FileInfo, b: &FileInfo) -> (r: bool)
    ensures
        r == file_lt(a@, b@),
{
    let ra = type_rank_of(a.t);
    let rb = type_rank_of(b.t);
    if ra != rb {
        ra < rb
    } else if a.hidden != b.hidden {
        a.hidden
    } else {
        str_lt(a.name.as_str(), b.name.as_str())
    }
}

/// A path with a trailing slash added when it names a directory and
/// does not end with one yet.
pub open spec fn dir_path_chars(p: Seq<char>, is_directory: bool) -> Seq<char> {
    if is_directory && !(p.len() > 0 && p.last() == '/') {
        p + seq!['/']
    } else {
        p
    }
}

/// Append a trailing slash to a directory's path when it lacks one.
pub fn convert_path_to_string(path_str: &str, is_directory: bool) -> (converted: String)
    ensures
        converted@ == dir_path_chars(path_str@, is_directory),
{
    let n = path_str.unicode_len();
    if is_directory && (n == 0 || path_str.get_char(n - 1) != '/') {
        let mut converted = path_str.to_owned();
        converted.append("/");
        proof {
            reveal_strlit("/");
            assert(path_str@ + "/"@ =~= path_str@ + seq!['/']);
        }
        converted
    } else {
        path_str.to_owned()
    }
}

/// One directory entry as the driver read it: the bare name, the
/// kind its metadata showed, and its raw path.
pub struct FileEntry {
    pub name: String,
    pub kind: FileType,
    pub path: String,
}

/// The mathematical value of a [`FileEntry`].
pub struct FileEntryModel {
    pub name: Seq<char>,
    pub kind: FileType,
    pub path: Seq<char>,
}

impl View for FileEntry {
    type V = FileEntryModel;

    open spec fn view(&self) -> FileEntryModel {
        FileEntryModel { name: self.name@, kind: self.kind, path: self.path@ }
    }
}

/// The listing entry a raw directory entry becomes: its path gets the
/// trailing slash when it is a directory, and a leading dot in its
/// name marks it hidden.
pub open spec fn file_of_entry(e: FileEntryModel) -> FileModel {
    FileModel {
        name: e.name,
        t: e.kind,
        path: dir_path_chars(e.path, e.kind is Directory),
        hidden: e.name.len() > 0 && e.name[0] == '.',
    }
}

/// The sequence of listing values a vector of entries holds.
pub open spec fn entries_view(s: Seq<FileEntry>) -> Seq<FileModel> {
    Seq::new(s.len(), |i: int| file_of_entry(s[i]@))
}

/// The sequence of listing values a vector of listing entries holds.
pub open spec fn files_view(s: Seq<FileInfo>) -> Seq<FileModel> {
    Seq::new(s.len(), |i: int| s[i]@)
}

/// A directory listing: the directory's path and its entries in
/// listing order.
pub struct DirectoryInfo {
    path: String,
    files: Vec<FileInfo>,
}

/// The mathematical value of a [`DirectoryInfo`].
pub struct DirectoryModel {
    pub path: Seq<char>,
    pub files: Seq<FileModel>,
}

impl View for DirectoryInfo {
    type V = DirectoryModel;

    closed spec fn view(&self) -> DirectoryModel {
        DirectoryModel { path: self.path@, files: files_view(self.files@) }
    }
}

impl Default for DirectoryInfo {
    /// The empty listing.
    fn default() -> (info: DirectoryInfo)
        ensures
            info@.path == Seq::<char>::empty(),
            info@.files == Seq::<FileModel>::empty(),
    {
        let info = DirectoryInfo { path: String::new(), files: Vec::new() };
        proof {
            assert(info@.files =~= Seq::<FileModel>::empty());
        }
        info
    }
}

impl DirectoryInfo {
    pub fn new(path: String, files: Vec<FileInfo>) -> (info: DirectoryInfo)
        ensures
            info@.path == path@,
            info@.files == files_view(files@),
    {
        DirectoryInfo { path, files }
    }

    /// The directory's path.
    pub fn path(&self) -> (p: &String)
        ensures
            p@ == self@.path,
    {
        &self.path
    }

    /// The entries, in listing order.
    pub fn files(&self) -> (f: &Vec<FileInfo>)
        ensures
            files_view(f@) == self@.files,
    {
        &self.files
    }
}

fn insert_file_row(rows: &mut Vec<FileInfo>, x: FileInfo)
    ensures
        files_view(final(rows)@) == insert_by(files_view(old(rows)@), x@, file_order()),
{
    let mut j: usize = rows.len();
    while j > 0 && file_row_lt(&x, &rows[j - 1])
        invariant
            j <= rows.len(),
            rows@ == old(rows)@,
            forall|i: int| j <= i < rows@.len() ==> file_lt(x@, #[trigger] rows@[i]@),
        decreases j,
    {
        j = j - 1;
    }
    rows.insert(j, x);
    proof {
        lemma_insert_by_position(files_view(old(rows)@), x@, file_order(), j as int);
        assert(files_view(rows@) =~= files_view(old(rows)@).subrange(0, j as int) + seq![x@]
            + files_view(old(rows)@).subrange(j as int, old(rows)@.len() as int));
    }
}

/// Assemble the listing of one directory from the raw entries the
/// driver read: each entry shaped by [`file_of_entry`] and the whole
/// sorted stably in listing order.
pub fn scan_directory(path: String, entries: Vec<FileEntry>) -> (info: DirectoryInfo)
    ensures
        info@.path == path@,
        info@.files == sort_by_insertion(entries_view(entries@), file_order()),
        sorted_adjacent(info@.files, file_order()),
{
    proof {
        lemma_file_lt_asymmetric();
        lemma_sort_by_insertion_ensures(entries_view(entries@), file_order());
    }
    let mut rows: Vec<FileInfo> = Vec::new();
    let mut i: usize = 0;
    proof {
        assert(files_view(rows@) =~= sort_by_insertion(
            entries_view(entries@).subrange(0, 0),
            file_order(),
        )) by {
            assert(entries_view(entries@).subrange(0, 0) =~= Seq::<FileModel>::empty());
        }
    }
    while i < entries.len()
        invariant
            i <= entries.len(),
            files_view(rows@) == sort_by_insertion(
                entries_view(entries@).subrange(0, i as int),
                file_order(),
            ),
        decreases entries.len() - i,
    {
        let entry = &entries[i];
        let name_str = entry.name.as_str();
        let hidden = if name_str.unicode_len() > 0 {
            name_str.get_char(0) == '.'
        } else {
            false
        };
        let is_dir = match entry.kind {
            FileType::Directory => true,
            FileType::File => false,
            FileType::SystemLink => false,
        };
        let row = FileInfo {
            name: entry.name.clone(),
            t: entry.kind,
            path: convert_path_to_string(entry.path.as_str(), is_dir),
            hidden,
        };
        proof {
            assert(row@ =~= file_of_entry(entries@[i as int]@));
        }
        insert_file_row(&mut rows, row);
        proof {
            let pre = entries_view(entries@).subrange(0, i as int);
            let cur = entries_view(entries@).subrange(0, i as int + 1);
            assert(cur.drop_last() =~= pre);
            assert(cur.last() == file_of_entry(entries@[i as int]@));
        }
        i = i + 1;
    }
    proof {
        assert(entries_view(entries@).subrange(0, entries@.len() as int) =~= entries_view(
            entries@,
        ));
    }
    DirectoryInfo::new(path, rows)
}

/// The payload of a watch request: the process-group-leader pid of the
/// session whose working directory should be followed.
pub struct WatcherPayload {
    pid: i32,
}

impl View for WatcherPayload {
    type V = i32;

    closed spec fn view(&self) -> i32 {
        self.pid
    }
}

impl WatcherPayload {
    pub fn new(pid: i32) -> (payload: WatcherPayload)
        ensures
            payload@ == pid,
    {
        WatcherPayload { pid }
    }

    /// The pid this request asks the watcher to follow.
    pub fn pid(&self) -> (pid: i32)
        ensures
            pid == self@,
    {
        self.pid
    }
}

/// A request to the directory watcher: follow the given session's
/// working directory, or, when the payload is absent, stop following
/// anything (the focused session is gone).
pub enum DirectoryWatcherEvent {
    Watch { initial: Option<WatcherPayload> },
}

/// The mathematical value of a watch request: the pid to follow, or
/// `None` to stop following.
pub open spec fn watch_target(ev: DirectoryWatcherEvent) -> Option<i32> {
    match ev {
        DirectoryWatcherEvent::Watch { initial } => match initial {
            Some(payload) => Some(payload@),
            None => None,
        },
    }
}

/// What the working-directory poll loop must do after one poll.
pub enum CwdPollAction {
    /// The focused directory changed: stop watching `unwatch` (when
    /// present), then start watching `watch`.
    Rewatch { unwatch: Option<String>, watch: String },
    /// Nothing changed, or there is nothing to follow.
    Idle,
}

/// Holds when `action` correctly re-targets the watch from the
/// previously watched directory `prev` to the newly resolved `cwd`:
/// the new target is `cwd`, and the previous directory is unwatched
/// exactly when one was watched at all.
pub open spec fn retargets_watch(action: CwdPollAction, prev: Seq<char>, cwd: Seq<char>) -> bool {
    match action {
        CwdPollAction::Rewatch { unwatch, watch } => watch@ == cwd && match unwatch {
            Some(p) => p@ == prev && prev.len() > 0,
            None => prev.len() == 0,
        },
        CwdPollAction::Idle => false,
    }
}

/// The state of the working-directory poll loop: which pid is being
/// followed (none while no session is focused) and the last directory
/// that was successfully watched.
pub struct PtyCwdWatcher {
    pid: Option<i32>,
    prev_cwd: Option<String>,
}

impl PtyCwdWatcher {
    /// Which pid the loop is currently following.
    pub closed spec fn followed_pid(&self) -> Option<i32> {
        self.pid
    }

    /// The last directory that was successfully watched, as a sequence
    /// of characters; empty when none was watched yet.
    pub closed spec fn watched_dir(&self) -> Seq<char> {
        match self.prev_cwd {
            Some(d) => d@,
            None => Seq::empty(),
        }
    }

    pub fn new() -> (watcher: PtyCwdWatcher)
        ensures
            watcher.followed_pid() is None,
            watcher.watched_dir() == Seq::<char>::empty(),
    {
        PtyCwdWatcher { pid: None, prev_cwd: None }
    }

    /// Follow the given pid from now on.
    pub fn watch_pid(&mut self, pid: i32)
        ensures
            final(self).followed_pid() == Some(pid),
            final(self).watched_dir() == old(self).watched_dir(),
    {
        self.pid = Some(pid);
    }

    /// Stop following any pid (the focused session is gone).
    pub fn reset_pid(&mut self)
        ensures
            final(self).followed_pid() is None,
            final(self).watched_dir() == old(self).watched_dir(),
    {
        self.pid = None;
    }

    /// The pid whose working directory the driver should resolve next,
    /// if any.  The loop polls only while a pid is followed.
    pub fn poll_target(&self) -> (target: Option<i32>)
        ensures
            target == self.followed_pid(),
    {
        self.pid
    }

    /// Decide what to do with one resolved working directory.  The
    /// directory is compared against the last successfully watched
    /// one: only a change asks the driver to re-target the filesystem
    /// watch (unwatching the previous directory first, when there is
    /// one).  The state itself is only advanced by
    /// [`Self::confirm_watch`], once the driver reports that the new
    /// watch was established, so a failed watch is retried on the next
    /// poll.
    pub fn cwd_resolved(&self, cwd: &String) -> (action: CwdPollAction)
        ensures
            cwd@ == self.watched_dir() ==> action is Idle,
            cwd@ != self.watched_dir() ==> retargets_watch(action, self.watched_dir(), cwd@),
    {
        let prev: String = match &self.prev_cwd {
            Some(d) => d.clone(),
            None => String::new(),
        };
        if prev.eq(cwd) {
            CwdPollAction::Idle
        } else {
            if prev.as_str().is_empty() {
                CwdPollAction::Rewatch { unwatch: None, watch: cwd.clone() }
            } else {
                CwdPollAction::Rewatch { unwatch: Some(prev), watch: cwd.clone() }
            }
        }
    }

    /// Record that the driver established a watch on this directory.
    pub fn confirm_watch(&mut self, cwd: String)
        ensures
            final(self).watched_dir() == cwd@,
            final(self).followed_pid() == old(self).followed_pid(),
    {
        self.prev_cwd = Some(cwd);
    }
}

/// The decision part of the watch-request loop: how one request from
/// the session manager changes the poll state.  An absent payload
/// means the focused session is gone, so the loop stops following any
/// pid and waits for the next request; a present payload re-targets
/// the loop at that pid.
pub fn handle_watch_request(watcher: &mut PtyCwdWatcher, event: DirectoryWatcherEvent)
    ensures
        final(watcher).followed_pid() == watch_target(event),
        final(watcher).watched_dir() == old(watcher).watched_dir(),
{
    match event {
        DirectoryWatcherEvent::Watch { initial } => {
            match initial {
                None => watcher.reset_pid(),
                Some(payload) => {
                    let pid = payload.pid();
                    watcher.watch_pid(pid);
                },
            }
        },
    }
}

} // verus!
