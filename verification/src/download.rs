//! The plan that mirrors the remote tree under a local directory: one task
//! for each entry of the listing, the write that each read leads to, and
//! what the run as a whole came to.

use crate::encoding::MAX_ENCODABLE_BYTES;
use crate::server::TransportError;
use crate::server::FS;
use crate::wire::Reply;
use crate::wire::Request;
use vstd::prelude::*;
use vstd::string::StrSliceExecFns;
use vstd::string::StringExecFns;
use vstd::utf8::encode_utf8;

verus! {

/// Where the file at `path` of the remote tree goes under the directory
/// `root`: `root`, a `/` unless `root` is empty or ends in one, and `path`.
pub open spec fn mirror_path(root: Seq<char>, path: Seq<char>) -> Seq<char> {
    if root.len() == 0 {
        path
    } else if root.last() == '/' {
        root + path
    } else {
        root + seq!['/'] + path
    }
}

/// The text of `dest` before its last `/`: the directory that must exist
/// before a file can be written at `dest`. `None` where `dest` holds no `/`.
pub open spec fn directory_of(dest: Seq<char>) -> Option<Seq<char>>
    decreases dest.len(),
{
    if dest.len() == 0 {
        None
    } else if dest.last() == '/' {
        Some(dest.drop_last())
    } else {
        directory_of(dest.drop_last())
    }
}

/// Where the file at `path` of the remote tree goes under the directory
/// `out_path`.
pub fn destination(out_path: &str, path: &str) -> (dest: String)
    ensures
        dest@ == mirror_path(out_path@, path@),
{
    let n = out_path.unicode_len();
    if n == 0 {
        return path.to_owned();
    }
    let mut dest = out_path.to_owned();
    if out_path.get_char(n - 1) != '/' {
        proof {
            reveal_strlit("/");
        }
        dest.append("/");
        assert(dest@ =~= out_path@ + seq!['/']);
    }
    dest.append(path);
    dest
}

/// The index of the last `/` of `dest`, counted in characters.
fn last_slash(dest: &str) -> (at: Option<usize>)
    ensures
        at matches Some(k) ==> k < dest@.len() && directory_of(dest@) == Some(dest@.take(k as int)),
        at is None ==> directory_of(dest@) is None,
{
    let n = dest.unicode_len();
    let mut at: Option<usize> = None;
    let mut i: usize = 0;
    for c in it: dest.chars()
        invariant
            i == it.index(),
            it.seq() == dest@,
            n == dest@.len(),
            at matches Some(k) ==> k < i && directory_of(dest@.take(i as int)) == Some(
                dest@.take(k as int),
            ),
            at is None ==> directory_of(dest@.take(i as int)) is None,
    {
        proof {
            let next = dest@.take(i + 1);
            assert(next.drop_last() =~= dest@.take(i as int));
            assert(next.last() == c);
        }
        if c == '/' {
            at = Some(i);
        }
        i = i + 1;
    }
    assert(dest@.take(i as int) =~= dest@);
    at
}

/// A file to write: where, and what. The write replaces whatever is at
/// `destination`, after the directory of `destination` and the directories
/// above it have been made where they are missing.
#[derive(Debug, PartialEq, Eq)]
pub struct FileWrite {
    pub destination: String,
    pub contents: Vec<u8>,
}

/// The model of a [`FileWrite`].
pub struct FileWriteText {
    pub destination: Seq<char>,
    pub contents: Seq<u8>,
}

impl View for FileWrite {
    type V = FileWriteText;

    open spec fn view(&self) -> FileWriteText {
        FileWriteText { destination: self.destination@, contents: self.contents@ }
    }
}

impl FileWrite {
    /// The directory that must exist before the write: the text of the
    /// destination before its last `/`. `None` where the destination holds
    /// no `/`, so that there is nothing to make.
    pub fn directory(&self) -> (directory: Option<String>)
        ensures
            directory.deep_view() == directory_of(self@.destination),
    {
        match last_slash(self.destination.as_str()) {
            Some(k) => Some(self.destination.as_str().substring_char(0, k).to_owned()),
            None => None,
        }
    }
}

/// The write that the reply to the read of `path` leads to: the body of an
/// accepted reply, byte for byte, at the place of `path` under `out_path`.
/// Any other reply is a `TransportError`, and leads to no write.
pub fn download_file(fs: &FS, out_path: &str, path: &str, reply: Reply<Vec<u8>>) -> (write: Result<
    FileWrite,
    TransportError,
>)
    ensures
        reply.is_accepted() ==> write is Ok && write.unwrap()@ == (FileWriteText {
            destination: mirror_path(out_path@, path@),
            contents: reply->body@,
        }),
        !reply.is_accepted() ==> write is Err,
{
    match fs.read(reply) {
        Ok(contents) => Ok(FileWrite { destination: destination(out_path, path), contents }),
        Err(error) => Err(error),
    }
}

/// The step that failed a download.
#[derive(Debug, Clone, Copy, PartialEq, Eq, Structural)]
pub enum DownloadError {
    /// The read of the file: the request could not be made, or its reply
    /// was not accepted.
    Transport,
    /// The write of the file, or the making of its directory.
    LocalIO,
}

/// Where a download stands.
#[derive(Debug, Clone, Copy, PartialEq, Eq, Structural)]
pub enum TaskState {
    /// Not started.
    Pending,
    /// The read is under way.
    Fetching,
    /// The read came back, and the write is under way.
    WritingOut,
    /// The file is written.
    Done,
    /// The download failed at the step given.
    Failed(DownloadError),
}

impl TaskState {
    /// Whether a download in this state will change no more.
    pub open spec fn is_settled(self) -> bool {
        self is Done || self is Failed
    }
}

/// The model of a [`DownloadTask`].
pub struct DownloadTaskText {
    pub id: usize,
    pub path: Seq<char>,
    pub state: TaskState,
}

/// The download of one file of the remote tree.
#[derive(Debug, PartialEq, Eq)]
pub struct DownloadTask {
    id: usize,
    path: String,
    state: TaskState,
}

impl View for DownloadTask {
    type V = DownloadTaskText;

    closed spec fn view(&self) -> DownloadTaskText {
        DownloadTaskText { id: self.id, path: self.path@, state: self.state }
    }
}

impl DownloadTask {
    /// A download of the file at `path`, not started, under the number `id`.
    pub fn new(id: usize, path: String) -> (task: DownloadTask)
        ensures
            task@ == (DownloadTaskText { id, path: path@, state: TaskState::Pending }),
    {
        DownloadTask { id, path, state: TaskState::Pending }
    }

    /// The number of this download: the place of its file in the listing,
    /// counted from 1.
    pub fn id(&self) -> (id: usize)
        ensures
            id == self@.id,
    {
        self.id
    }

    /// The path of the file in the remote tree.
    pub fn path(&self) -> (path: &str)
        ensures
            path@ == self@.path,
    {
        self.path.as_str()
    }

    /// Where this download stands.
    pub fn state(&self) -> (state: TaskState)
        ensures
            state == self@.state,
    {
        self.state
    }

    /// Starts a pending download: it is fetching from now on, and the
    /// request to send is handed out. Where the request cannot be made the
    /// download has failed. A download that is not pending stays as it is,
    /// and nothing is handed out.
    pub fn start(&mut self, fs: &FS) -> (request: Option<Request>)
        ensures
            final(self)@.id == old(self)@.id,
            final(self)@.path == old(self)@.path,
            old(self)@.state is Pending && encode_utf8(old(self)@.path).len() <= MAX_ENCODABLE_BYTES
                ==> final(self)@.state == TaskState::Fetching && request is Some
                && request.unwrap()@ == fs@.endpoint.read_request(fs@.token, old(self)@.path),
            old(self)@.state is Pending && encode_utf8(old(self)@.path).len() > MAX_ENCODABLE_BYTES
                ==> final(self)@.state == TaskState::Failed(DownloadError::Transport)
                && request is None,
            !(old(self)@.state is Pending) ==> final(self)@.state == old(self)@.state
                && request is None,
    {
        match self.state {
            TaskState::Pending => {
                let request = fs.read_request(self.path.as_str());
                self.state = match request {
                    Some(_) => TaskState::Fetching,
                    None => TaskState::Failed(DownloadError::Transport),
                };
                request
            },
            _ => None,
        }
    }

    /// Takes the reply to the read of a fetching download. An accepted reply
    /// moves it on to writing out, and the write to carry out under
    /// `out_path` is handed out; any other reply fails it. A download that
    /// is not fetching stays as it is, and nothing is handed out.
    pub fn fetched(&mut self, fs: &FS, out_path: &str, reply: Reply<Vec<u8>>) -> (write: Option<
        FileWrite,
    >)
        ensures
            final(self)@.id == old(self)@.id,
            final(self)@.path == old(self)@.path,
            old(self)@.state is Fetching && reply.is_accepted() ==> final(self)@.state
                == TaskState::WritingOut && write is Some && write.unwrap()@ == (FileWriteText {
                destination: mirror_path(out_path@, old(self)@.path),
                contents: reply->body@,
            }),
            old(self)@.state is Fetching && !reply.is_accepted() ==> final(self)@.state
                == TaskState::Failed(DownloadError::Transport) && write is None,
            !(old(self)@.state is Fetching) ==> final(self)@.state == old(self)@.state
                && write is None,
    {
        match self.state {
            TaskState::Fetching => match download_file(fs, out_path, self.path.as_str(), reply) {
                Ok(write) => {
                    self.state = TaskState::WritingOut;
                    Some(write)
                },
                Err(_) => {
                    self.state = TaskState::Failed(DownloadError::Transport);
                    None
                },
            },
            _ => None,
        }
    }

    /// Takes the end of the write of a download that is writing out: it is
    /// done where the write went through, `written`, and has failed where it
    /// did not. A download that is not writing out stays as it is.
    pub fn written(&mut self, written: bool)
        ensures
            final(self)@.id == old(self)@.id,
            final(self)@.path == old(self)@.path,
            old(self)@.state is WritingOut && written ==> final(self)@.state == TaskState::Done,
            old(self)@.state is WritingOut && !written ==> final(self)@.state == TaskState::Failed(
                DownloadError::LocalIO,
            ),
            !(old(self)@.state is WritingOut) ==> final(self)@.state == old(self)@.state,
    {
        match self.state {
            TaskState::WritingOut => {
                self.state = if written {
                    TaskState::Done
                } else {
                    TaskState::Failed(DownloadError::LocalIO)
                };
            },
            _ => {},
        }
    }
}

/// The downloads for the listing `files`: one for each entry, pending,
/// numbered from 1 in the order of the listing.
pub fn plan_downloads(files: Vec<String>) -> (tasks: Vec<DownloadTask>)
    ensures
        tasks.len() == files.len(),
        forall|i: int|
            0 <= i < tasks.len() ==> (#[trigger] tasks[i])@ == (DownloadTaskText {
                id: (i + 1) as usize,
                path: files[i]@,
                state: TaskState::Pending,
            }),
        forall|i: int| 0 <= i < tasks.len() ==> (#[trigger] tasks[i])@.id == i + 1,
        forall|i: int, j: int|
            0 <= i < j < tasks.len() ==> (#[trigger] tasks[i])@.id != (#[trigger] tasks[j])@.id,
{
    let count = files.len();
    let mut tasks: Vec<DownloadTask> = Vec::new();
    let mut id: usize = 0;
    for path in it: files
        invariant
            id == it.index(),
            it.seq() == files@,
            count == files.len(),
            tasks.len() == id,
            forall|i: int|
                0 <= i < tasks.len() ==> (#[trigger] tasks[i])@ == (DownloadTaskText {
                    id: (i + 1) as usize,
                    path: files[i]@,
                    state: TaskState::Pending,
                }),
    {
        assert(id < count);
        id = id + 1;
        tasks.push(DownloadTask::new(id, path));
    }
    tasks
}

/// A download that failed: its number, its path, and the step that failed.
#[derive(Debug, PartialEq, Eq)]
pub struct Failure {
    pub id: usize,
    pub path: String,
    pub cause: DownloadError,
}

/// What a run came to.
#[derive(Debug, PartialEq, Eq)]
pub enum RunOutcome {
    /// Some download is neither done nor failed yet.
    Running,
    /// Every download is done.
    Complete,
    /// Every download is done or failed, and this is the first in the
    /// listing that failed.
    Failed(Failure),
}

/// The model of a [`RunOutcome`].
pub enum RunOutcomeText {
    Running,
    Complete,
    Failed { id: usize, path: Seq<char>, cause: DownloadError },
}

impl View for RunOutcome {
    type V = RunOutcomeText;

    open spec fn view(&self) -> RunOutcomeText {
        match self {
            RunOutcome::Running => RunOutcomeText::Running,
            RunOutcome::Complete => RunOutcomeText::Complete,
            RunOutcome::Failed(failure) => RunOutcomeText::Failed {
                id: failure.id,
                path: failure.path@,
                cause: failure.cause,
            },
        }
    }
}

/// Whether every download of `tasks` is done or failed.
pub open spec fn all_settled(tasks: Seq<DownloadTask>) -> bool {
    forall|i: int| 0 <= i < tasks.len() ==> (#[trigger] tasks[i])@.state.is_settled()
}

/// The first download of `tasks` that failed, if any did.
pub open spec fn first_failure(tasks: Seq<DownloadTask>) -> Option<DownloadTaskText>
    decreases tasks.len(),
{
    if tasks.len() == 0 {
        None
    } else if tasks.first()@.state is Failed {
        Some(tasks.first()@)
    } else {
        first_failure(tasks.drop_first())
    }
}

/// What the run of `tasks` came to: nothing yet while a download is still
/// under way or waiting; after that a failure if any download failed, the
/// first in the listing, and completion if none did.
pub open spec fn run_result(tasks: Seq<DownloadTask>) -> RunOutcomeText {
    if !all_settled(tasks) {
        RunOutcomeText::Running
    } else {
        match first_failure(tasks) {
            Some(task) => RunOutcomeText::Failed {
                id: task.id,
                path: task.path,
                cause: task.state->0,
            },
            None => RunOutcomeText::Complete,
        }
    }
}

/// What the run of `tasks` came to. No failure ends the run early: while
/// any download is still pending, fetching or writing out the run is
/// `Running`. Once all are done or failed, one failure is enough to fail
/// the run.
pub fn run_outcome(tasks: &Vec<DownloadTask>) -> (outcome: RunOutcome)
    ensures
        outcome@ == run_result(tasks@),
{
    let mut failed: Option<(usize, DownloadError)> = None;
    let mut i: usize = 0;
    assert(tasks@.skip(0) =~= tasks@);
    while i < tasks.len()
        invariant
            i <= tasks.len(),
            all_settled(tasks@.take(i as int)),
            failed is None ==> first_failure(tasks@) == first_failure(tasks@.skip(i as int)),
            failed matches Some((k, cause)) ==> k < i && tasks[k as int]@.state
                == TaskState::Failed(cause) && first_failure(tasks@) == Some(tasks[k as int]@),
        decreases tasks.len() - i,
    {
        match tasks[i].state {
            TaskState::Done => {
                assert(tasks@.skip(i as int).drop_first() =~= tasks@.skip(i + 1));
            },
            TaskState::Failed(cause) => {
                if failed.is_none() {
                    failed = Some((i, cause));
                }
            },
            _ => {
                assert(!tasks[i as int]@.state.is_settled());
                return RunOutcome::Running;
            },
        }
        i = i + 1;
        assert forall|j: int| 0 <= j < i implies (#[trigger] tasks@.take(
            i as int,
        )[j])@.state.is_settled() by {
            if j < i - 1 {
                assert(tasks@.take(i - 1)[j] == tasks@.take(i as int)[j]);
            }
        }
    }
    assert(tasks@.take(i as int) =~= tasks@);
    match failed {
        Some((k, cause)) => RunOutcome::Failed(
            Failure { id: tasks[k].id, path: tasks[k].path.clone(), cause },
        ),
        None => RunOutcome::Complete,
    }
}

/// One failure is fatal, and nothing else is: a run is complete exactly
/// when every one of its downloads is done.
pub proof fn lemma_complete_iff_all_done(tasks: Seq<DownloadTask>)
    ensures
        run_result(tasks) is Complete <==> forall|i: int|
            0 <= i < tasks.len() ==> (#[trigger] tasks[i])@.state is Done,
    decreases tasks.len(),
{
    if tasks.len() > 0 {
        let rest = tasks.drop_first();
        lemma_complete_iff_all_done(rest);
        if run_result(tasks) is Complete {
            assert(all_settled(rest)) by {
                assert forall|i: int| 0 <= i < rest.len() implies (
                #[trigger] rest[i])@.state.is_settled() by {
                    assert(rest[i] == tasks[i + 1]);
                }
            }
            assert forall|i: int| 0 <= i < tasks.len() implies (
            #[trigger] tasks[i])@.state is Done by {
                assert(tasks[0]@.state.is_settled());
                if i > 0 {
                    assert(tasks[i] == rest[i - 1]);
                }
            }
        }
        if forall|i: int| 0 <= i < tasks.len() ==> (#[trigger] tasks[i])@.state is Done {
            assert(tasks[0]@.state is Done);
            assert forall|i: int| 0 <= i < rest.len() implies (
            #[trigger] rest[i])@.state is Done by {
                assert(rest[i] == tasks[i + 1]);
            }
        }
    }
}

} // verus!
