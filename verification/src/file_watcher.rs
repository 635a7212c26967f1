//! Following a file: which one is followed, what was read of it, and what is
//! passed on.
use vstd::prelude::*;

use crate::path;
use crate::text;

verus! {

/// What a follower is told.
#[derive(Debug)]
pub enum FileWatcherMessage {
    /// The file to follow from now on, or none.
    FilePath(Option<String>),
}

/// What went wrong with a file.
#[derive(Debug)]
pub enum FileWatcherError {
    /// It could not be read, for this reason.
    File(String),
}

/// What a follower reports.
#[derive(Debug)]
pub enum FileWatcherUpdate {
    /// Another file is followed: what was shown is void.
    Reset,
    /// These bytes were added to the file.
    Append(Vec<u8>),
    /// The file could not be read.
    Error(FileWatcherError),
}

/// What is said of an error.
pub open spec fn read_error(reason: Seq<char>) -> Seq<char> {
    "Read error: "@ + reason
}

impl FileWatcherError {
    /// What is said of the error.
    pub fn message(&self) -> (r: String)
        ensures
            r@ == read_error(self->File_0@),
    {
        match self {
            FileWatcherError::File(reason) => {
                let mut out: String = "Read error: ".to_owned();
                out.append(reason.as_str());
                out
            },
        }
    }
}

/// How an attempt to read on ended.
#[derive(Debug)]
pub enum ReadOutcome {
    /// The file could not be opened, or not be positioned.
    NotOpened { reason: String },
    /// The file was positioned, and reading failed.
    NotRead { position: u64, reason: String },
    /// The file was positioned, and these bytes followed up to its end.
    Read { position: u64, bytes: Vec<u8> },
}

impl ReadOutcome {
    /// The position behind the last byte that was read, once an attempt to read
    /// on from `pos` ended this way.
    pub open spec fn moved(self, pos: int) -> int {
        match self {
            ReadOutcome::NotOpened { .. } => pos,
            ReadOutcome::NotRead { position, .. } => position as int,
            ReadOutcome::Read { position, bytes } => position + bytes@.len(),
        }
    }

    /// What is reported of the attempt.
    pub open spec fn report(self) -> FileWatcherUpdate {
        match self {
            ReadOutcome::NotOpened { reason } => FileWatcherUpdate::Error(
                FileWatcherError::File(reason),
            ),
            ReadOutcome::NotRead { reason, .. } => FileWatcherUpdate::Error(
                FileWatcherError::File(reason),
            ),
            ReadOutcome::Read { bytes, .. } => FileWatcherUpdate::Append(bytes),
        }
    }
}

/// How far a file has been read.
#[derive(Debug)]
pub struct FileReader {
    pub file_path: String,
    /// The position behind the last byte that was read.
    pub pos: u64,
}

impl FileReader {
    /// Nothing of the file has been read.
    pub fn new(file_path: String) -> (r: Self)
        ensures
            r == (FileReader { file_path, pos: 0 }),
    {
        FileReader { file_path, pos: 0 }
    }

    /// What is reported of an attempt to read on from `pos`, which moves behind
    /// the bytes that were read.
    pub fn update(&mut self, outcome: ReadOutcome) -> (r: FileWatcherUpdate)
        requires
            outcome matches ReadOutcome::Read { position, bytes } ==> position + bytes@.len()
                <= u64::MAX,
        ensures
            final(self).file_path == old(self).file_path,
            !(r is Reset),
            final(self).pos == outcome.moved(old(self).pos as int),
            r == outcome.report(),
    {
        match outcome {
            ReadOutcome::NotOpened { reason } => FileWatcherUpdate::Error(
                FileWatcherError::File(reason),
            ),
            ReadOutcome::NotRead { position, reason } => {
                self.pos = position;
                FileWatcherUpdate::Error(FileWatcherError::File(reason))
            },
            ReadOutcome::Read { position, bytes } => {
                let count: u64 = bytes.len() as u64;
                self.pos = position + count;
                FileWatcherUpdate::Append(bytes)
            },
        }
    }
}

/// What follows from a new file being chosen.
#[derive(Debug)]
pub struct FileSelection {
    /// The file that notifications are no longer wanted for.
    pub unwatch: Option<String>,
    /// What is reported before anything of the new file.
    pub report: FileWatcherUpdate,
    /// The file to read, and to ask notifications for.
    pub start: Option<String>,
    /// The number that the reader of the new file reports under.
    pub reader: u64,
}

/// The state of a follower.
#[derive(Debug)]
pub struct FileWatcher {
    pub file_path: Option<String>,
    /// Whether notifications for the file are on.
    pub watching: bool,
    /// The number of the reader whose reports count: how many files were
    /// chosen so far.
    pub reader: u64,
    /// Whether the last report of that reader was an error.
    pub reader_had_error: bool,
}

/// What decides which reports are passed on.
pub struct Following {
    /// The number of the reader whose reports count.
    pub reader: int,
    /// Whether its last report was an error.
    pub failing: bool,
}

/// What happens to a follower.
pub enum FollowerEvent {
    /// A file was chosen, or none.
    Chosen,
    /// The reader of that number reported this.
    Reported { reader: u64, update: FileWatcherUpdate },
}

/// Whether a reader failed, once it reported `update`.
pub open spec fn failed(update: FileWatcherUpdate, failing: bool) -> bool {
    match update {
        FileWatcherUpdate::Append(_) => false,
        FileWatcherUpdate::Error(_) => true,
        FileWatcherUpdate::Reset => failing,
    }
}

impl Following {
    /// No file was chosen yet.
    pub open spec fn initial() -> Following {
        Following { reader: 0, failing: false }
    }

    /// What an event makes of the state.
    pub open spec fn after(self, event: FollowerEvent) -> Following {
        match event {
            FollowerEvent::Chosen => Following { reader: self.reader + 1, failing: false },
            FollowerEvent::Reported { reader, update } => if reader == self.reader {
                Following { failing: failed(update, self.failing), ..self }
            } else {
                self
            },
        }
    }

    /// Whether something is passed on at an event: a reset whenever a file is
    /// chosen, and the report of a reader where it counts and is worth it.
    pub open spec fn passes(self, event: FollowerEvent) -> bool {
        match event {
            FollowerEvent::Chosen => true,
            FollowerEvent::Reported { reader, update } => reader == self.reader && forwarded(
                update,
                self.failing,
            ),
        }
    }
}

impl FollowerEvent {
    /// What is passed on at the event, where anything is.
    pub open spec fn update(self) -> FileWatcherUpdate {
        match self {
            FollowerEvent::Chosen => FileWatcherUpdate::Reset,
            FollowerEvent::Reported { update, .. } => update,
        }
    }
}

/// Whether a report is passed on. Nothing new is worth passing on only where
/// it shows that an error is over.
pub open spec fn forwarded(update: FileWatcherUpdate, reader_had_error: bool) -> bool {
    match update {
        FileWatcherUpdate::Append(bytes) => bytes@.len() > 0 || reader_had_error,
        FileWatcherUpdate::Error(_) => true,
        FileWatcherUpdate::Reset => true,
    }
}

/// The file that notifications are no longer wanted for, once another one is
/// followed.
pub open spec fn to_unwatch(watching: bool, file_path: Option<Seq<char>>) -> Option<Seq<char>> {
    if watching {
        file_path
    } else {
        None
    }
}

/// The file that notifications are asked for once more, at a report of the reader
/// of the followed file, where it is `current`, or of another one.
pub open spec fn to_watch_again(
    current: bool,
    watching: bool,
    update: FileWatcherUpdate,
    file_path: Option<Seq<char>>,
) -> Option<Seq<char>> {
    if current && !watching && update is Append {
        file_path
    } else {
        None
    }
}

impl FileWatcher {
    /// No file is followed.
    pub fn new() -> (r: Self)
        ensures
            r == (FileWatcher {
                file_path: None,
                watching: false,
                reader: 0,
                reader_had_error: false,
            }),
            r.following() == Following::initial(),
    {
        FileWatcher { file_path: None, watching: false, reader: 0, reader_had_error: false }
    }

    /// What decides which reports are passed on.
    pub open spec fn following(self) -> Following {
        Following { reader: self.reader as int, failing: self.reader_had_error }
    }

    /// Follows another file, or none. There are numbers for `u64::MAX` readers.
    pub fn select_file(&mut self, message: FileWatcherMessage) -> (r: FileSelection)
        requires
            old(self).reader < u64::MAX,
        ensures
            text::option_view(r.unwatch) == (if old(self).watching {
                text::option_view(old(self).file_path)
            } else {
                None
            }),
            text::option_view(r.unwatch) == to_unwatch(
                old(self).watching,
                text::option_view(old(self).file_path),
            ),
            r.report == FollowerEvent::Chosen.update(),
            r.reader == old(self).reader + 1,
            text::option_view(r.start) == text::option_view(message->FilePath_0),
            *final(self) == (FileWatcher {
                file_path: message->FilePath_0,
                watching: false,
                reader: r.reader,
                reader_had_error: false,
            }),
            final(self).following() == old(self).following().after(FollowerEvent::Chosen),
    {
        let FileWatcherMessage::FilePath(file_path) = message;
        let unwatch: Option<String> = if self.watching {
            text::clone_option(&self.file_path)
        } else {
            None
        };
        let start: Option<String> = text::clone_option(&file_path);
        self.file_path = file_path;
        self.watching = false;
        self.reader = self.reader + 1;
        self.reader_had_error = false;
        FileSelection { unwatch, report: FileWatcherUpdate::Reset, start, reader: self.reader }
    }

    /// The file that notifications are asked for once more: one that was
    /// readable just now, and has none.
    pub fn retry_watch(&self, reader: u64, update: &FileWatcherUpdate) -> (r: Option<String>)
        ensures
            text::option_view(r) == (if reader == self.reader && !self.watching
                && update is Append {
                text::option_view(self.file_path)
            } else {
                None
            }),
            text::option_view(r) == to_watch_again(
                reader == self.reader,
                self.watching,
                *update,
                text::option_view(self.file_path),
            ),
    {
        match update {
            FileWatcherUpdate::Append(_) => {
                if reader != self.reader || self.watching {
                    None
                } else {
                    text::clone_option(&self.file_path)
                }
            },
            _ => None,
        }
    }

    /// Records whether notifications could be turned on.
    pub fn watch_attempted(&mut self, started: bool)
        ensures
            *final(self) == (FileWatcher { watching: started, ..*old(self) }),
    {
        self.watching = started;
    }

    /// Whether a report of a reader is passed on. Those of a reader whose file
    /// is no longer followed are not.
    pub fn should_forward(&mut self, reader: u64, update: &FileWatcherUpdate) -> (r: bool)
        ensures
            ({
                let event = FollowerEvent::Reported { reader, update: *update };
                &&& r == old(self).following().passes(event)
                &&& final(self).following() == old(self).following().after(event)
            }),
            *final(self) == (FileWatcher {
                reader_had_error: final(self).reader_had_error,
                ..*old(self)
            }),
    {
        if reader != self.reader {
            return false;
        }
        match update {
            FileWatcherUpdate::Append(bytes) => {
                let wanted: bool = bytes.len() > 0 || self.reader_had_error;
                self.reader_had_error = false;
                wanted
            },
            FileWatcherUpdate::Error(_) => {
                self.reader_had_error = true;
                true
            },
            FileWatcherUpdate::Reset => true,
        }
    }
}

/// Which file a follower was last told to follow.
#[derive(Debug)]
pub struct FileWatcherHandle {
    pub file_path: Option<String>,
}

/// The file that a follower was last told to follow, once it was to be told of
/// `file_path`, and that message was `delivered` or lost.
pub open spec fn told(
    before: Option<Seq<char>>,
    file_path: Option<Seq<char>>,
    delivered: bool,
) -> Option<Seq<char>> {
    if delivered && !path::same_option(before, file_path) {
        file_path
    } else {
        before
    }
}

/// Whether a follower has to be told of a file.
pub open spec fn needs_telling(before: Option<Seq<char>>, file_path: Option<Seq<char>>) -> bool {
    !path::same_option(before, file_path)
}

impl FileWatcherHandle {
    /// The follower was told nothing yet.
    pub fn new() -> (r: Self)
        ensures
            r == (FileWatcherHandle { file_path: None }),
    {
        FileWatcherHandle { file_path: None }
    }

    /// What the follower has to be told to follow `file_path`: nothing, where
    /// it follows that file already.
    pub fn message_for(&self, file_path: &Option<String>) -> (r: Option<FileWatcherMessage>)
        ensures
            r is Some <==> !path::same_option(
                text::option_view(self.file_path),
                text::option_view(*file_path),
            ),
            r is Some <==> needs_telling(
                text::option_view(self.file_path),
                text::option_view(*file_path),
            ),
            r is Some ==> text::option_view(r->0->FilePath_0) == text::option_view(*file_path),
    {
        if path::same_option_path(&self.file_path, file_path) {
            None
        } else {
            Some(FileWatcherMessage::FilePath(text::clone_option(file_path)))
        }
    }

    /// Records that `file_path` is to be followed. `delivered` says whether the
    /// follower received the message; one that did not stays where it was.
    pub fn set_file_path(&mut self, file_path: Option<String>, delivered: bool)
        ensures
            text::option_view(final(self).file_path) == told(
                text::option_view(old(self).file_path),
                text::option_view(file_path),
                delivered,
            ),
    {
        if delivered && !path::same_option_path(&self.file_path, &file_path) {
            self.file_path = file_path;
        }
    }
}

/// Once a follower has received that it is to follow a file, there is nothing
/// more to tell it of that file; where the message was lost, it is told again.
pub proof fn law_told_once(before: Option<Seq<char>>, file_path: Option<Seq<char>>)
    ensures
        path::same_option(told(before, file_path, true), file_path),
        !path::same_option(before, file_path) ==> !path::same_option(
            told(before, file_path, false),
            file_path,
        ),
{
}

/// The first read after an error is passed on in any case, and any other only
/// where it found something.
pub proof fn law_recovery_is_reported(bytes: Vec<u8>)
    ensures
        forwarded(FileWatcherUpdate::Append(bytes), true),
        forwarded(FileWatcherUpdate::Append(bytes), false) <==> bytes@.len() > 0,
{
}

} // verus!
