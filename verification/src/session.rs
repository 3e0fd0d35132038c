//! The session state machine: which file is active, which input is being
//! collected, how each command changes the session, and what outside work
//! (playback, file removal, finalization) each transition asks the driving
//! loop to perform.

use vstd::prelude::*;
use crate::metadata::{FileMetadata, location_after, tags_after};
use crate::strings::{push_char, pop_char, trim_of};

verus! {

/// Milliseconds a single seek command moves the play head.
pub const SEEK_STEP_MS: u64 = 5000;

/// Which input the session is collecting for the active file.
#[derive(Clone, Copy, Debug, PartialEq, Eq, Structural)]
pub enum AppState {
    AskingForTags,
    AskingForLocation,
    Processing,
}

/// One discrete input event, abstracted from raw key input.
#[derive(Clone, Copy, Debug, PartialEq, Eq, Structural)]
pub enum Command {
    Quit,
    Confirm,
    InsertChar(char),
    Backspace,
    DeleteFile,
    SeekForward,
    SeekBackward,
}

/// The outside work a transition asks the driving loop to perform.
pub enum Action {
    /// Nothing beyond the state change.
    Nothing,
    /// Ask the playback engine to seek to this position, in milliseconds.
    SeekTo(u64),
    /// Stop playback and start the file at this index of the file list;
    /// the loop reports back through `track_loaded`.
    StartTrack(usize),
    /// Playback is stopped and `path` is removed from disk. When `resume`
    /// is true the session goes on with the file now at the current index,
    /// started as with `StartTrack`; otherwise the session is over.
    RemoveFile { path: String, resume: bool },
    /// Stop playback and drive the batch finalizer.
    RunFinalizer,
}

/// The whole session state.
pub struct App {
    pub input: String,
    pub total_duration: u64,
    pub current_duration: u64,
    pub progress: u64,
    pub current_file_index: usize,
    pub should_quit: bool,
    pub available_files: Vec<String>,
    pub metadata: Vec<FileMetadata>,
    pub state: AppState,
    pub waveform_data: Vec<u64>,
}

/// Playback progress in permille of the total duration, clamped to the
/// display range; zero whenever the total duration is zero.
pub open spec fn progress_permille(pos: u64, total: u64) -> u64 {
    if total == 0 {
        0u64
    } else if pos as int * 1000 / total as int > 1000 {
        1000u64
    } else {
        (pos as int * 1000 / total as int) as u64
    }
}

/// Target of a forward seek: one step ahead of the position.
pub open spec fn seek_forward_target(pos: u64) -> u64 {
    if pos + SEEK_STEP_MS <= u64::MAX {
        (pos + SEEK_STEP_MS) as u64
    } else {
        u64::MAX
    }
}

/// Target of a backward seek: one step back, clamped at the start.
pub open spec fn seek_backward_target(pos: u64) -> u64 {
    if pos < SEEK_STEP_MS {
        0u64
    } else {
        (pos - SEEK_STEP_MS) as u64
    }
}

/// The playback display fields, untouched by a transition.
pub open spec fn same_playback(pre: App, post: App) -> bool {
    &&& post.total_duration == pre.total_duration
    &&& post.current_duration == pre.current_duration
    &&& post.progress == pre.progress
    &&& post.waveform_data == pre.waveform_data
}

/// Everything but the input buffer, untouched by a transition.
pub open spec fn same_but_input(pre: App, post: App) -> bool {
    &&& same_playback(pre, post)
    &&& post.current_file_index == pre.current_file_index
    &&& post.should_quit == pre.should_quit
    &&& post.available_files == pre.available_files
    &&& post.metadata == pre.metadata
    &&& post.state == pre.state
}

/// Effect of `Quit`: the session stops; nothing else changes.
pub open spec fn quit_rel(pre: App, post: App) -> bool {
    &&& same_playback(pre, post)
    &&& post.input == pre.input
    &&& post.current_file_index == pre.current_file_index
    &&& post.available_files == pre.available_files
    &&& post.metadata == pre.metadata
    &&& post.state == pre.state
    &&& post.should_quit
}

/// Effect of typing one character: appended to the input buffer while an
/// input is being collected; ignored while finalizing.
pub open spec fn insert_rel(pre: App, post: App, c: char) -> bool {
    if pre.state is Processing {
        post == pre
    } else {
        same_but_input(pre, post) && post.input@ == pre.input@.push(c)
    }
}

/// Effect of deleting one character from the end of the input buffer.
pub open spec fn backspace_rel(pre: App, post: App) -> bool {
    if pre.state is Processing {
        post == pre
    } else {
        same_but_input(pre, post) && post.input@ == if pre.input@.len() == 0 {
            pre.input@
        } else {
            pre.input@.drop_last()
        }
    }
}

/// Effect of `Confirm`. Collecting the location stores the trimmed buffer
/// and moves on to the tags. Collecting the tags appends the parsed tags,
/// then either advances to the next file or, after the last file, enters
/// finalization and terminates. Both consume the input buffer.
pub open spec fn confirm_rel(pre: App, post: App, r: Action) -> bool {
    match pre.state {
        AppState::AskingForLocation => {
            let idx = pre.current_file_index as int;
            &&& post.state == AppState::AskingForTags
            &&& post.input@ == Seq::<char>::empty()
            &&& post.metadata@.len() == pre.metadata@.len()
            &&& post.metadata@[idx].location.deep_view() == location_after(
                pre.metadata@[idx].location.deep_view(),
                pre.input@,
            )
            &&& post.metadata@[idx].tags == pre.metadata@[idx].tags
            &&& forall|j: int|
                0 <= j < pre.metadata@.len() && j != idx ==> post.metadata@[j] == pre.metadata@[j]
            &&& post.available_files == pre.available_files
            &&& post.current_file_index == pre.current_file_index
            &&& post.should_quit == pre.should_quit
            &&& same_playback(pre, post)
            &&& r is Nothing
        },
        AppState::AskingForTags => {
            let idx = pre.current_file_index as int;
            &&& post.metadata@.len() == pre.metadata@.len()
            &&& post.metadata@[idx].tags.deep_view() == tags_after(
                pre.metadata@[idx].tags.deep_view(),
                pre.input@,
            )
            &&& post.metadata@[idx].location == pre.metadata@[idx].location
            &&& forall|j: int|
                0 <= j < pre.metadata@.len() && j != idx ==> post.metadata@[j] == pre.metadata@[j]
            &&& post.available_files == pre.available_files
            &&& post.input@ == Seq::<char>::empty()
            &&& post.current_file_index == pre.current_file_index + 1
            &&& same_playback(pre, post)
            &&& if pre.current_file_index + 1 < pre.available_files@.len() {
                &&& post.state == AppState::AskingForLocation
                &&& post.should_quit == pre.should_quit
                &&& (r matches Action::StartTrack(i) && i == pre.current_file_index + 1)
            } else {
                &&& post.state == AppState::Processing
                &&& post.should_quit
                &&& r is RunFinalizer
            }
        },
        AppState::Processing => {
            &&& post == pre
            &&& r is Nothing
        },
    }
}

/// Effect of `DeleteFile`: the active file and its metadata record leave
/// the two lists together. When a file remains at the vacated index the
/// session resumes with it in the same sub-state; otherwise the session
/// terminates. Ignored while finalizing.
pub open spec fn delete_rel(pre: App, post: App, r: Action) -> bool {
    match pre.state {
        AppState::Processing => {
            &&& post == pre
            &&& r is Nothing
        },
        _ => {
            let idx = pre.current_file_index as int;
            let remaining = pre.available_files@.len() - 1;
            &&& post.available_files@ == pre.available_files@.remove(idx)
            &&& post.metadata@ == pre.metadata@.remove(idx)
            &&& post.current_file_index == pre.current_file_index
            &&& post.state == pre.state
            &&& same_playback(pre, post)
            &&& (r matches Action::RemoveFile { path, resume } && path@ == pre.available_files@[
                idx]@ && resume == (idx < remaining))
            &&& if idx < remaining {
                &&& post.should_quit == pre.should_quit
                &&& post.input@ == Seq::<char>::empty()
            } else {
                &&& post.should_quit
                &&& post.input == pre.input
            }
        },
    }
}

/// Effect of a seek: the session state is unchanged; the loop is asked to
/// move the play head. Ignored while finalizing.
pub open spec fn seek_rel(pre: App, post: App, r: Action, target: u64) -> bool {
    &&& post == pre
    &&& if pre.state is Processing {
        r is Nothing
    } else {
        (r matches Action::SeekTo(t) && t == target)
    }
}

impl App {
    /// The index-alignment invariant: the metadata list runs parallel to
    /// the file list, and the current index stays in range — it may equal
    /// the list length only once the session is terminating.
    pub open spec fn inv(self) -> bool {
        &&& self.metadata@.len() == self.available_files@.len()
        &&& self.current_file_index <= self.available_files@.len()
        &&& (self.current_file_index == self.available_files@.len() ==> self.should_quit)
    }

    /// A fresh session over the discovered files: positioned at the first
    /// file, collecting its location, one empty metadata record per file.
    pub fn new(available_files: Vec<String>) -> (app: App)
        requires
            available_files@.len() > 0,
        ensures
            app.inv(),
            app.available_files == available_files,
            app.metadata@.len() == available_files@.len(),
            forall|j: int|
                0 <= j < available_files@.len() ==> app.metadata@[j].tags@.len() == 0
                    && app.metadata@[j].location is None,
            app.current_file_index == 0,
            app.state == AppState::AskingForLocation,
            app.input@ == Seq::<char>::empty(),
            !app.should_quit,
            app.total_duration == 0,
            app.current_duration == 0,
            app.progress == 0,
            app.waveform_data@ == Seq::<u64>::empty(),
    {
        let n = available_files.len();
        let mut metadata: Vec<FileMetadata> = Vec::new();
        while metadata.len() < n
            invariant
                metadata@.len() <= n,
                forall|j: int|
                    0 <= j < metadata@.len() ==> metadata@[j].tags@.len() == 0 && metadata@[j].location
                        is None,
            decreases n - metadata@.len(),
        {
            metadata.push(FileMetadata::new());
        }
        App {
            input: String::new(),
            total_duration: 0,
            current_duration: 0,
            progress: 0,
            current_file_index: 0,
            should_quit: false,
            available_files,
            metadata,
            state: AppState::AskingForLocation,
            waveform_data: Vec::new(),
        }
    }

    /// Record that the loop loaded the file at the current index: store
    /// its duration and waveform and reset the playback display.
    pub fn track_loaded(&mut self, duration_ms: u64, waveform_data: Vec<u64>)
        requires
            old(self).inv(),
        ensures
            final(self).inv(),
            final(self).total_duration == duration_ms,
            final(self).waveform_data == waveform_data,
            final(self).current_duration == 0,
            final(self).progress == 0,
            final(self).input == old(self).input,
            final(self).current_file_index == old(self).current_file_index,
            final(self).should_quit == old(self).should_quit,
            final(self).available_files == old(self).available_files,
            final(self).metadata == old(self).metadata,
            final(self).state == old(self).state,
    {
        self.total_duration = duration_ms;
        self.waveform_data = waveform_data;
        self.current_duration = 0;
        self.progress = 0;
    }

    /// One display refresh: record the playback position reported by the
    /// engine and recompute the progress ratio. Never changes the
    /// sub-state nor anything else.
    pub fn tick(&mut self, position_ms: u64)
        requires
            old(self).inv(),
        ensures
            final(self).inv(),
            final(self).current_duration == position_ms,
            final(self).progress == progress_permille(position_ms, old(self).total_duration),
            final(self).total_duration == old(self).total_duration,
            final(self).waveform_data == old(self).waveform_data,
            final(self).input == old(self).input,
            final(self).current_file_index == old(self).current_file_index,
            final(self).should_quit == old(self).should_quit,
            final(self).available_files == old(self).available_files,
            final(self).metadata == old(self).metadata,
            final(self).state == old(self).state,
    {
        self.current_duration = position_ms;
        self.progress = compute_progress(position_ms, self.total_duration);
    }

    /// Consume a confirmed input buffer, as `confirm_rel` describes.
    pub fn handle_enter_key(&mut self) -> (r: Action)
        requires
            old(self).inv(),
            !old(self).should_quit,
        ensures
            final(self).inv(),
            confirm_rel(*old(self), *final(self), r),
    {
        match self.state {
            AppState::AskingForLocation => {
                let idx: usize = self.current_file_index;
                self.metadata[idx].set_location(self.input.as_str());
                self.input = String::new();
                self.state = AppState::AskingForTags;
                Action::Nothing
            },
            AppState::AskingForTags => {
                let idx: usize = self.current_file_index;
                let len: usize = self.available_files.len();
                self.metadata[idx].append_tags(self.input.as_str());
                self.input = String::new();
                let next: usize = idx + 1;
                self.current_file_index = next;
                if next < len {
                    self.state = AppState::AskingForLocation;
                    Action::StartTrack(next)
                } else {
                    self.state = AppState::Processing;
                    self.should_quit = true;
                    Action::RunFinalizer
                }
            },
            AppState::Processing => Action::Nothing,
        }
    }

    /// Remove the active file from the batch, as `delete_rel` describes.
    pub fn delete_file(&mut self) -> (r: Action)
        requires
            old(self).inv(),
            !old(self).should_quit,
        ensures
            final(self).inv(),
            delete_rel(*old(self), *final(self), r),
    {
        match self.state {
            AppState::Processing => Action::Nothing,
            _ => {
                let idx: usize = self.current_file_index;
                let path = self.available_files.remove(idx);
                let _removed = self.metadata.remove(idx);
                if idx < self.available_files.len() {
                    self.input = String::new();
                    Action::RemoveFile { path, resume: true }
                } else {
                    self.should_quit = true;
                    Action::RemoveFile { path, resume: false }
                }
            },
        }
    }

    /// Dispatch one input event. The returned action is the outside work
    /// the driving loop must perform before the next event.
    pub fn handle_command(&mut self, cmd: Command) -> (r: Action)
        requires
            old(self).inv(),
            !old(self).should_quit,
        ensures
            final(self).inv(),
            match cmd {
                Command::Quit => quit_rel(*old(self), *final(self)) && r is Nothing,
                Command::Confirm => confirm_rel(*old(self), *final(self), r),
                Command::InsertChar(c) => insert_rel(*old(self), *final(self), c) && r is Nothing,
                Command::Backspace => backspace_rel(*old(self), *final(self)) && r is Nothing,
                Command::DeleteFile => delete_rel(*old(self), *final(self), r),
                Command::SeekForward => seek_rel(
                    *old(self),
                    *final(self),
                    r,
                    seek_forward_target(old(self).current_duration),
                ),
                Command::SeekBackward => seek_rel(
                    *old(self),
                    *final(self),
                    r,
                    seek_backward_target(old(self).current_duration),
                ),
            },
    {
        match cmd {
            Command::Quit => {
                self.should_quit = true;
                Action::Nothing
            },
            Command::Confirm => self.handle_enter_key(),
            Command::InsertChar(c) => {
                match self.state {
                    AppState::Processing => Action::Nothing,
                    _ => {
                        push_char(&mut self.input, c);
                        Action::Nothing
                    },
                }
            },
            Command::Backspace => {
                match self.state {
                    AppState::Processing => Action::Nothing,
                    _ => {
                        let _last = pop_char(&mut self.input);
                        Action::Nothing
                    },
                }
            },
            Command::DeleteFile => self.delete_file(),
            Command::SeekForward => {
                match self.state {
                    AppState::Processing => Action::Nothing,
                    _ => {
                        let pos: u64 = self.current_duration;
                        let target: u64 = if pos <= u64::MAX - SEEK_STEP_MS {
                            pos + SEEK_STEP_MS
                        } else {
                            u64::MAX
                        };
                        Action::SeekTo(target)
                    },
                }
            },
            Command::SeekBackward => {
                match self.state {
                    AppState::Processing => Action::Nothing,
                    _ => {
                        let pos: u64 = self.current_duration;
                        let target: u64 = if pos < SEEK_STEP_MS {
                            0
                        } else {
                            pos - SEEK_STEP_MS
                        };
                        Action::SeekTo(target)
                    },
                }
            },
        }
    }
}

/// Recompute the progress ratio from a position and a total duration.
pub fn compute_progress(pos: u64, total: u64) -> (r: u64)
    ensures
        r == progress_permille(pos, total),
        r <= 1000,
{
    if total == 0 {
        0
    } else {
        let raw = (pos as u128) * 1000 / (total as u128);
        if raw > 1000 {
            1000
        } else {
            raw as u64
        }
    }
}

/// Law: for every reachable session state the metadata list runs parallel
/// to the file list, and the current index is a valid index whenever it
/// is not equal to the list length.
pub proof fn lemma_index_alignment(app: App)
    requires
        app.inv(),
    ensures
        app.metadata@.len() == app.available_files@.len(),
        0 <= app.current_file_index <= app.available_files@.len(),
{
}

/// Law: the progress ratio is zero whenever the total duration is zero,
/// never past the full display range, and the exact position/total ratio
/// whenever the position lies within the track.
pub proof fn lemma_progress(pos: u64, total: u64)
    ensures
        total == 0 ==> progress_permille(pos, total) == 0,
        progress_permille(pos, total) <= 1000,
        total > 0 && pos <= total ==> progress_permille(pos, total) == pos as int * 1000
            / total as int,
{
    if total > 0 && pos <= total {
        assert(pos as int * 1000 / total as int <= 1000) by (nonlinear_arith)
            requires
                total > 0,
                pos <= total,
        ;
    }
}

/// Law: a backward seek from a position within the first step clamps to
/// the start of the track; the target is never past the position.
pub proof fn lemma_seek_backward_clamped(pos: u64)
    ensures
        pos < SEEK_STEP_MS ==> seek_backward_target(pos) == 0,
        seek_backward_target(pos) <= pos,
{
}

} // verus!
