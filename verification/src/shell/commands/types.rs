//! The values that pass between the shell and its caller.

use crate::shell::path::is_normalized;
use crate::text::texts;
use vstd::prelude::*;

verus! {

/// How a command ended.
pub enum CommandResult {
    /// The command ran; the session goes on.
    Continue,
    /// The command asks to end the session.
    Exit,
    /// The command asks to clear the screen.
    Clear,
    /// The command failed with a message.
    Error(String),
}

/// Model of a [`CommandResult`].
pub enum ResultView {
    Continue,
    Exit,
    Clear,
    Error(Seq<char>),
}

impl View for CommandResult {
    type V = ResultView;

    open spec fn view(&self) -> ResultView {
        match self {
            CommandResult::Continue => ResultView::Continue,
            CommandResult::Exit => ResultView::Exit,
            CommandResult::Clear => ResultView::Clear,
            CommandResult::Error(msg) => ResultView::Error(msg@),
        }
    }
}

/// Why the operating system refused a request.
#[derive(Clone, Copy, Debug, PartialEq, Eq, Structural)]
pub enum SysError {
    NotFound,
    PermissionDenied,
    IsDirectory,
    NotDirectory,
    NotImplemented,
    IoError,
    /// Any other failure.
    Other,
}

/// One entry of a directory.
pub struct DirEntry {
    /// File name, without the directory.
    pub name: String,
    /// Whether the entry is itself a directory.
    pub is_dir: bool,
}

/// Model of a [`DirEntry`].
pub struct EntryView {
    pub name: Seq<char>,
    pub is_dir: bool,
}

impl View for DirEntry {
    type V = EntryView;

    open spec fn view(&self) -> EntryView {
        EntryView { name: self.name@, is_dir: self.is_dir }
    }
}

/// The models of a list of directory entries.
pub open spec fn entry_views(entries: Seq<DirEntry>) -> Seq<EntryView> {
    Seq::new(entries.len(), |i: int| entries[i]@)
}

/// What `stat` reports of a file.
#[derive(Clone, Copy, Debug, PartialEq, Eq, Structural)]
pub struct FileStat {
    /// 1 regular file, 2 directory, 3 symbolic link.
    pub file_type: u8,
    /// Size in bytes.
    pub size: u64,
    /// Permission bits.
    pub mode: u16,
}

/// A question to the operating system.
pub enum SysRequest {
    /// Does this path exist?
    Exists(String),
    /// Is this path a directory?
    IsDir(String),
    /// Make this path the working directory of the process.
    ChangeDir(String),
    /// What is the working directory of the process?
    CurrentDir,
    /// The entries of this directory, in the order the system lists them.
    ReadDir(String),
    /// Open this file for reading; it replaces the file opened before.
    OpenFile(String),
    /// The next bytes of the open file, at most [`CHUNK_SIZE`]; none at
    /// its end.
    ReadFile,
    /// Type, size and mode of this path.
    Stat(String),
    /// Milliseconds since boot.
    Clock,
}

/// Most bytes a `ReadFile` reply should carry.
pub const CHUNK_SIZE: usize = 512;

/// Model of a [`SysRequest`].
pub enum RequestView {
    Exists(Seq<char>),
    IsDir(Seq<char>),
    ChangeDir(Seq<char>),
    CurrentDir,
    ReadDir(Seq<char>),
    OpenFile(Seq<char>),
    ReadFile,
    Stat(Seq<char>),
    Clock,
}

impl View for SysRequest {
    type V = RequestView;

    open spec fn view(&self) -> RequestView {
        match self {
            SysRequest::Exists(p) => RequestView::Exists(p@),
            SysRequest::IsDir(p) => RequestView::IsDir(p@),
            SysRequest::ChangeDir(p) => RequestView::ChangeDir(p@),
            SysRequest::CurrentDir => RequestView::CurrentDir,
            SysRequest::ReadDir(p) => RequestView::ReadDir(p@),
            SysRequest::OpenFile(p) => RequestView::OpenFile(p@),
            SysRequest::ReadFile => RequestView::ReadFile,
            SysRequest::Stat(p) => RequestView::Stat(p@),
            SysRequest::Clock => RequestView::Clock,
        }
    }
}

/// The operating system's answer to a [`SysRequest`]; each variant
/// answers the request of the same name.
pub enum SysReply {
    Exists(bool),
    IsDir(bool),
    ChangeDir(Result<(), SysError>),
    CurrentDir(Result<String, SysError>),
    ReadDir(Result<Vec<DirEntry>, SysError>),
    OpenFile(Result<(), SysError>),
    ReadFile(Result<Vec<u8>, SysError>),
    Stat(Result<FileStat, SysError>),
    Clock(Result<u64, SysError>),
}

/// Model of a [`SysReply`].
pub enum ReplyView {
    Exists(bool),
    IsDir(bool),
    ChangeDir(Result<(), SysError>),
    CurrentDir(Result<Seq<char>, SysError>),
    ReadDir(Result<Seq<EntryView>, SysError>),
    OpenFile(Result<(), SysError>),
    ReadFile(Result<Seq<u8>, SysError>),
    Stat(Result<FileStat, SysError>),
    Clock(Result<u64, SysError>),
}

impl View for SysReply {
    type V = ReplyView;

    open spec fn view(&self) -> ReplyView {
        match self {
            SysReply::Exists(b) => ReplyView::Exists(*b),
            SysReply::IsDir(b) => ReplyView::IsDir(*b),
            SysReply::ChangeDir(r) => ReplyView::ChangeDir(*r),
            SysReply::CurrentDir(r) => ReplyView::CurrentDir(
                match r {
                    Ok(p) => Ok(p@),
                    Err(e) => Err(*e),
                },
            ),
            SysReply::ReadDir(r) => ReplyView::ReadDir(
                match r {
                    Ok(entries) => Ok(entry_views(entries@)),
                    Err(e) => Err(*e),
                },
            ),
            SysReply::OpenFile(r) => ReplyView::OpenFile(*r),
            SysReply::ReadFile(r) => ReplyView::ReadFile(
                match r {
                    Ok(bytes) => Ok(bytes@),
                    Err(e) => Err(*e),
                },
            ),
            SysReply::Stat(r) => ReplyView::Stat(*r),
            SysReply::Clock(r) => ReplyView::Clock(*r),
        }
    }
}

/// One directory being listed by `tree`.
pub struct TreeFrame {
    /// The directory.
    pub path: String,
    /// What every line of this directory starts with.
    pub prefix: String,
    /// Its entries, in the order shown.
    pub entries: Vec<DirEntry>,
    /// How many of them are done.
    pub next: usize,
}

/// Model of a [`TreeFrame`].
pub struct FrameView {
    pub path: Seq<char>,
    pub prefix: Seq<char>,
    pub entries: Seq<EntryView>,
    pub next: nat,
}

impl View for TreeFrame {
    type V = FrameView;

    open spec fn view(&self) -> FrameView {
        FrameView {
            path: self.path@,
            prefix: self.prefix@,
            entries: entry_views(self.entries@),
            next: self.next as nat,
        }
    }
}

/// The models of a stack of frames.
pub open spec fn frame_views(frames: Seq<TreeFrame>) -> Seq<FrameView> {
    Seq::new(frames.len(), |i: int| frames[i]@)
}

/// A command that waits for the operating system: what it asked and
/// what it needs to go on.
pub enum Task {
    /// `cd` asked whether the target exists.
    CdExists(String),
    /// `cd` asked whether the target is a directory.
    CdIsDir(String),
    /// `cd` asked to enter the target.
    CdEnter(String),
    /// `pwd` asked for the working directory.
    Pwd,
    /// `ls` asked for the entries of `path`.
    Ls { path: String, details: bool, hidden: bool },
    /// `cat` asked to open `paths[at]`.
    CatOpen { paths: Vec<String>, at: usize },
    /// `cat` asked for the next bytes of `paths[at]`.
    CatRead { paths: Vec<String>, at: usize },
    /// `stat` asked about `paths[at]`.
    Stat { paths: Vec<String>, at: usize },
    /// `tree` asked for the entries of `path`, whose lines start with
    /// `prefix`; `stack` holds the directories above it.
    Tree { stack: Vec<TreeFrame>, path: String, prefix: String, max_depth: usize },
    /// `uptime` asked for the clock.
    Uptime,
    /// `sysinfo` asked for the clock.
    Sysinfo,
}

/// Model of a [`Task`].
pub enum TaskView {
    CdExists(Seq<char>),
    CdIsDir(Seq<char>),
    CdEnter(Seq<char>),
    Pwd,
    Ls { path: Seq<char>, details: bool, hidden: bool },
    CatOpen { paths: Seq<Seq<char>>, at: nat },
    CatRead { paths: Seq<Seq<char>>, at: nat },
    Stat { paths: Seq<Seq<char>>, at: nat },
    Tree { stack: Seq<FrameView>, path: Seq<char>, prefix: Seq<char>, max_depth: nat },
    Uptime,
    Sysinfo,
}

impl View for Task {
    type V = TaskView;

    open spec fn view(&self) -> TaskView {
        match self {
            Task::CdExists(p) => TaskView::CdExists(p@),
            Task::CdIsDir(p) => TaskView::CdIsDir(p@),
            Task::CdEnter(p) => TaskView::CdEnter(p@),
            Task::Pwd => TaskView::Pwd,
            Task::Ls { path, details, hidden } => TaskView::Ls {
                path: path@,
                details: *details,
                hidden: *hidden,
            },
            Task::CatOpen { paths, at } => TaskView::CatOpen { paths: texts(paths@), at: *at as nat },
            Task::CatRead { paths, at } => TaskView::CatRead { paths: texts(paths@), at: *at as nat },
            Task::Stat { paths, at } => TaskView::Stat { paths: texts(paths@), at: *at as nat },
            Task::Tree { stack, path, prefix, max_depth } => TaskView::Tree {
                stack: frame_views(stack@),
                path: path@,
                prefix: prefix@,
                max_depth: *max_depth as nat,
            },
            Task::Uptime => TaskView::Uptime,
            Task::Sysinfo => TaskView::Sysinfo,
        }
    }
}

impl TaskView {
    /// What the task asks of the operating system.
    pub open spec fn request(self) -> RequestView {
        match self {
            TaskView::CdExists(p) => RequestView::Exists(p),
            TaskView::CdIsDir(p) => RequestView::IsDir(p),
            TaskView::CdEnter(p) => RequestView::ChangeDir(p),
            TaskView::Pwd => RequestView::CurrentDir,
            TaskView::Ls { path, .. } => RequestView::ReadDir(path),
            TaskView::CatOpen { paths, at } => RequestView::OpenFile(paths[at as int]),
            TaskView::CatRead { .. } => RequestView::ReadFile,
            TaskView::Stat { paths, at } => RequestView::Stat(paths[at as int]),
            TaskView::Tree { path, .. } => RequestView::ReadDir(path),
            TaskView::Uptime => RequestView::Clock,
            TaskView::Sysinfo => RequestView::Clock,
        }
    }

    /// The invariant of a task: `at` points at one of `paths`, and the
    /// target of `cd` is normalized.
    pub open spec fn wf(self) -> bool {
        match self {
            TaskView::CdExists(p) => is_normalized(p),
            TaskView::CdIsDir(p) => is_normalized(p),
            TaskView::CdEnter(p) => is_normalized(p),
            TaskView::CatOpen { paths, at } => at < paths.len(),
            TaskView::CatRead { paths, at } => at < paths.len(),
            TaskView::Stat { paths, at } => at < paths.len(),
            _ => true,
        }
    }
}

impl Task {
    /// What the task asks of the operating system.
    pub fn request(&self) -> (request: SysRequest)
        requires
            self@.wf(),
        ensures
            request@ == self@.request(),
    {
        match self {
            Task::CdExists(p) => SysRequest::Exists(p.clone()),
            Task::CdIsDir(p) => SysRequest::IsDir(p.clone()),
            Task::CdEnter(p) => SysRequest::ChangeDir(p.clone()),
            Task::Pwd => SysRequest::CurrentDir,
            Task::Ls { path, .. } => SysRequest::ReadDir(path.clone()),
            Task::CatOpen { paths, at } => SysRequest::OpenFile(paths[*at].clone()),
            Task::CatRead { .. } => SysRequest::ReadFile,
            Task::Stat { paths, at } => SysRequest::Stat(paths[*at].clone()),
            Task::Tree { path, .. } => SysRequest::ReadDir(path.clone()),
            Task::Uptime => SysRequest::Clock,
            Task::Sysinfo => SysRequest::Clock,
        }
    }
}

/// Where a command stands when it returns.
pub enum Step {
    /// It has ended.
    Done(CommandResult),
    /// It waits for the reply to the task's request.
    Wait(Task),
}

/// Model of a [`Step`].
pub enum StepView {
    Done(ResultView),
    Wait(TaskView),
}

impl View for Step {
    type V = StepView;

    open spec fn view(&self) -> StepView {
        match self {
            Step::Done(r) => StepView::Done(r@),
            Step::Wait(t) => StepView::Wait(t@),
        }
    }
}

/// A command that ended normally.
pub open spec fn done() -> StepView {
    StepView::Done(ResultView::Continue)
}

} // verus!
