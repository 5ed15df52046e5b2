//! Rendering statistics of the LED strip frame loop, and the decisions of the task that
//! reads image lines for it.

use vstd::prelude::*;

use crate::proto::types::ImageId;

verus! {

/// Frames after which the statistics are reported and restarted.
pub const REPORT_EVERY: u32 = 10_000;

/// Statistics of the rendered frames.
#[derive(Clone, Copy, PartialEq, Eq, Structural, Debug, Default)]
pub struct RenderStats {
    /// Total time spent rendering lines, in microseconds.
    pub total_render_time: u64,
    /// Lines whose rendering took longer than a frame.
    pub dropped_frames: u32,
    /// Rendered lines.
    pub counts: u32,
    /// The longest rendering of a line, in microseconds.
    pub max_render_time: u64,
}

impl RenderStats {
    /// No more frames are dropped than rendered, and no more rendered than a report holds.
    pub open spec fn wf(&self) -> bool {
        self.dropped_frames <= self.counts <= REPORT_EVERY
    }

    /// No frame rendered yet.
    pub fn new() -> (s: Self)
        ensures
            s == (RenderStats {
                total_render_time: 0,
                dropped_frames: 0,
                counts: 0,
                max_render_time: 0,
            }),
    {
        Self { total_render_time: 0, dropped_frames: 0, counts: 0, max_render_time: 0 }
    }

    /// Records a line rendered in `elapsed` microseconds with frames of `frame_duration`
    /// microseconds. Returns true when the line fitted into its frame, so that the loop
    /// waits for the frame end; otherwise the frame counts as dropped.
    pub fn record_line(&mut self, elapsed: u64, frame_duration: u64) -> (wait: bool)
        requires
            old(self).wf(),
            old(self).counts < REPORT_EVERY,
            old(self).total_render_time + elapsed <= u64::MAX,
        ensures
            final(self).wf(),
            wait == (elapsed <= frame_duration),
            final(self).total_render_time == old(self).total_render_time + elapsed,
            final(self).dropped_frames == if wait {
                old(self).dropped_frames as int
            } else {
                old(self).dropped_frames + 1
            },
            final(self).counts == old(self).counts + 1,
            final(self).max_render_time == vstd::math::max(
                old(self).max_render_time as int,
                elapsed as int,
            ),
    {
        self.total_render_time = self.total_render_time + elapsed;
        let wait = elapsed <= frame_duration;
        if !wait {
            self.dropped_frames = self.dropped_frames + 1;
        }
        if elapsed > self.max_render_time {
            self.max_render_time = elapsed;
        }
        self.counts = self.counts + 1;
        wait
    }

    /// Resets every statistic, as clearing the strip does.
    pub fn clear(&mut self)
        ensures
            *final(self) == RenderStats::new_spec(),
    {
        self.dropped_frames = 0;
        self.total_render_time = 0;
        self.max_render_time = 0;
        self.counts = 0;
    }

    /// The statistics with nothing recorded.
    pub open spec fn new_spec() -> RenderStats {
        RenderStats { total_render_time: 0, dropped_frames: 0, counts: 0, max_render_time: 0 }
    }

    /// Whether the statistics are due to be reported.
    pub fn report_due(&self) -> (b: bool)
        ensures
            b == (self.counts == REPORT_EVERY),
    {
        self.counts == REPORT_EVERY
    }

    /// Restarts the statistics after a report; the longest rendering time is kept.
    pub fn restart(&mut self)
        ensures
            *final(self) == (RenderStats {
                total_render_time: 0,
                dropped_frames: 0,
                counts: 0,
                max_render_time: old(self).max_render_time,
            }),
    {
        self.dropped_frames = 0;
        self.total_render_time = 0;
        self.counts = 0;
    }
}

/// A command to the task that reads image lines from the storage.
#[derive(Clone, Copy, PartialEq, Eq, Structural, Debug)]
pub enum ReadingCommand {
    /// Start reading the lines of this image.
    Start(ImageId),
    /// Stop reading and hand the storage back.
    Stop,
}

/// State of the line reading task.
#[derive(Clone, Copy, PartialEq, Eq, Structural, Debug)]
pub enum ReadingState {
    /// Waiting for an image to read.
    Waiting,
    /// Reading the lines of this image.
    Reading(ImageId),
}

/// What the line reading task does next.
#[derive(Clone, Copy, PartialEq, Eq, Structural, Debug)]
pub enum ReadingAction {
    /// Open the image, send the refresh rate of its strip lines, then send its first line.
    Open(ImageId),
    /// Send the next line of the image.
    NextLine,
    /// Clear the strip and hand the storage back.
    Finish,
    /// Wait for the next command.
    Wait,
}

/// The next state and action of the line reading task, given the command received, if
/// any: while waiting only a `Start` begins reading; while reading only a `Stop` ends it,
/// and any other command is dropped.
pub open spec fn spec_reading_step(state: ReadingState, command: Option<ReadingCommand>) -> (
    ReadingState,
    ReadingAction,
) {
    match state {
        ReadingState::Waiting => match command {
            Some(ReadingCommand::Start(id)) => (ReadingState::Reading(id), ReadingAction::Open(id)),
            _ => (ReadingState::Waiting, ReadingAction::Wait),
        },
        ReadingState::Reading(id) => match command {
            Some(ReadingCommand::Stop) => (ReadingState::Waiting, ReadingAction::Finish),
            _ => (ReadingState::Reading(id), ReadingAction::NextLine),
        },
    }
}

/// Decides the next step of the line reading task: `command` is the command received
/// while waiting, or the one found after sending a line while reading.
pub fn reading_step(state: ReadingState, command: Option<ReadingCommand>) -> (r: (
    ReadingState,
    ReadingAction,
))
    ensures
        r == spec_reading_step(state, command),
{
    match state {
        ReadingState::Waiting => match command {
            Some(ReadingCommand::Start(id)) => (ReadingState::Reading(id), ReadingAction::Open(id)),
            _ => (ReadingState::Waiting, ReadingAction::Wait),
        },
        ReadingState::Reading(id) => match command {
            Some(ReadingCommand::Stop) => (ReadingState::Waiting, ReadingAction::Finish),
            _ => (ReadingState::Reading(id), ReadingAction::NextLine),
        },
    }
}

/// The task reads one image at a time: a rendering keeps its image until a `Stop` ends it,
/// which always hands the storage back, and a new image is opened only from waiting.
pub proof fn lemma_reading_one_image_at_a_time(state: ReadingState, command: Option<ReadingCommand>)
    ensures
        state matches ReadingState::Reading(id) ==> (spec_reading_step(state, command).0
            == ReadingState::Reading(id) || command == Some(ReadingCommand::Stop)),
        command == Some(ReadingCommand::Stop) ==> spec_reading_step(state, command).0
            == ReadingState::Waiting,
        spec_reading_step(state, command).1 is Open ==> state == ReadingState::Waiting,
        spec_reading_step(state, command).1 is Finish <==> (state is Reading && command == Some(
            ReadingCommand::Stop,
        )),
{
}

/// Each command does what it says: a `Start` received while waiting opens that image and
/// reads it, anything else leaves the task waiting; while reading, anything but a `Stop`
/// sends the next line of the same image.
pub proof fn lemma_reading_commands(
    state: ReadingState,
    command: Option<ReadingCommand>,
    id: ImageId,
)
    ensures
        state is Waiting && command == Some(ReadingCommand::Start(id)) ==> spec_reading_step(
            state,
            command,
        ) == (ReadingState::Reading(id), ReadingAction::Open(id)),
        state is Waiting && !(command matches Some(ReadingCommand::Start(_))) ==> spec_reading_step(
            state,
            command,
        ) == (ReadingState::Waiting, ReadingAction::Wait),
        state == ReadingState::Reading(id) && command != Some(ReadingCommand::Stop)
            ==> spec_reading_step(state, command) == (
            ReadingState::Reading(id),
            ReadingAction::NextLine,
        ),
{
}

/// Clearing the statistics leaves nothing recorded: no line rendered or dropped and no
/// rendering time.
pub proof fn lemma_cleared_stats_are_empty()
    ensures
        RenderStats::new_spec().counts == 0,
        RenderStats::new_spec().dropped_frames == 0,
        RenderStats::new_spec().total_render_time == 0,
        RenderStats::new_spec().max_render_time == 0,
        RenderStats::new_spec().wf(),
{
}

} // verus!
