//! The streaming loop: what is sent for a frame, and in which order the
//! link, the camera and the display are dealt with.

use crate::command::{upload_image_bytes, CommandError, DeviceCommand, MAX_UPLOAD_LEN};
use crate::espcam::FrameBuffer;
use crate::transcode::{
    encode_png, encoding_of, frame_defect, frame_pixels, framebuffer_to_img, resize,
    resize_defect, RasterImage, RasterView, TranscodeError,
};
use vstd::prelude::*;

verus! {

/// Width of the display in pixels.
pub const DISPLAY_WIDTH: u32 = 32;

/// Height of the display in pixels.
pub const DISPLAY_HEIGHT: u32 = 32;

/// Display mode in which uploaded pictures are shown.
pub const STREAMING_MODE: u8 = 1;

/// Number of frames dropped before the frame that is shown, so that the
/// frame shown was captured after the previous one was sent. It depends on
/// the depth of the driver's buffer pool.
pub const STALE_FRAMES: usize = 1;

/// Why a frame gave nothing to send.
#[derive(Clone, Copy, Debug, PartialEq, Eq, Structural)]
pub enum FrameError {
    /// The frame could not be turned into an encoded picture.
    Transcode(TranscodeError),
    /// The encoded picture could not be framed as a command.
    Command(CommandError),
}

/// The command that puts the display into the mode in which it shows what
/// is uploaded.
pub fn mode_command() -> (command: DeviceCommand)
    ensures
        command == DeviceCommand::ImageMode(STREAMING_MODE),
{
    DeviceCommand::ImageMode(STREAMING_MODE)
}

/// What is sent for an encoded picture: the upload command that carries it,
/// unless it is too long for one.
pub open spec fn upload_for(encoded: Seq<u8>) -> Result<Seq<u8>, FrameError> {
    if encoded.len() <= MAX_UPLOAD_LEN {
        Ok(upload_image_bytes(encoded))
    } else {
        Err(FrameError::Command(CommandError::PayloadTooLarge))
    }
}

/// What is sent for a picture of the size of the display: the upload of its
/// PNG encoding, or the reason why there is none.
pub open spec fn upload_for_picture(picture: RasterView) -> Result<Seq<u8>, FrameError> {
    match encoding_of(picture) {
        Ok(encoded) => upload_for(encoded),
        Err(error) => Err(FrameError::Transcode(error)),
    }
}

/// Wraps an encoded picture into the command that uploads it.
pub fn frame_upload(encoded: Vec<u8>) -> (bytes: Result<Vec<u8>, FrameError>)
    ensures
        match upload_for(encoded@) {
            Ok(wire) => bytes is Ok && bytes->Ok_0@ == wire,
            Err(error) => bytes == Err::<Vec<u8>, FrameError>(error),
        },
{
    let command = DeviceCommand::UploadImage(encoded);
    match command.to_bytes() {
        Ok(bytes) => Ok(bytes),
        Err(error) => Err(FrameError::Command(error)),
    }
}

/// Encodes a picture and wraps it into the command that uploads it.
pub fn picture_upload(picture: &RasterImage) -> (bytes: Result<Vec<u8>, FrameError>)
    requires
        picture.wf(),
    ensures
        match upload_for_picture(picture@) {
            Ok(wire) => bytes is Ok && bytes->Ok_0@ == wire,
            Err(error) => bytes == Err::<Vec<u8>, FrameError>(error),
        },
{
    match encode_png(picture) {
        Ok(encoded) => frame_upload(encoded),
        Err(error) => Err(FrameError::Transcode(error)),
    }
}

/// Turns a frame into the bytes that show it on a display of `width` by
/// `height` pixels: the frame is unpacked, resampled to the size of the
/// display, encoded as PNG and wrapped into an upload command. The first
/// step that fails decides the error. The resampled picture has the size
/// asked for and, where the frame has that size already, the pixels of the
/// frame; what is returned is the upload of that picture.
pub fn build_upload(framebuffer: &FrameBuffer, width: u32, height: u32) -> (bytes: Result<
    Vec<u8>,
    FrameError,
>)
    ensures
        match frame_defect(framebuffer@) {
            Some(defect) => bytes == Err::<Vec<u8>, FrameError>(FrameError::Transcode(defect)),
            None => {
                let unpacked = RasterView {
                    width: framebuffer@.width,
                    height: framebuffer@.height,
                    pixels: frame_pixels(framebuffer@),
                };
                match resize_defect(unpacked, width, height) {
                    Some(defect) => bytes == Err::<Vec<u8>, FrameError>(
                        FrameError::Transcode(defect),
                    ),
                    None => exists|scaled: RasterView|
                        {
                            &&& scaled.width == width
                            &&& scaled.height == height
                            &&& scaled.pixels.len() == width as nat * height as nat * 3
                            &&& width == unpacked.width && height == unpacked.height ==> scaled
                                == unpacked
                            &&& match #[trigger] upload_for_picture(scaled) {
                                Ok(wire) => bytes is Ok && bytes->Ok_0@ == wire,
                                Err(error) => bytes == Err::<Vec<u8>, FrameError>(error),
                            }
                        },
                }
            },
        },
{
    let unpacked = match framebuffer_to_img(framebuffer) {
        Ok(unpacked) => unpacked,
        Err(error) => { return Err(FrameError::Transcode(error)); },
    };
    let scaled = match resize(&unpacked, width, height) {
        Ok(scaled) => scaled,
        Err(error) => { return Err(FrameError::Transcode(error)); },
    };
    let bytes = picture_upload(&scaled);
    proof {
        let witness = scaled@;
        assert(match upload_for_picture(witness) {
            Ok(wire) => bytes is Ok && bytes->Ok_0@ == wire,
            Err(error) => bytes == Err::<Vec<u8>, FrameError>(error),
        });
    }
    bytes
}

/// Why the streaming loop has ended.
#[derive(Clone, Copy, Debug, PartialEq, Eq, Structural)]
pub enum StopReason {
    /// No session with the display could be opened.
    ConnectFailed,
    /// The display did not take the command that selects its mode.
    ModeRejected,
    /// The owner asked for the loop to end.
    Cancelled,
}

/// What the streaming loop is waiting for.
#[derive(Clone, Copy, Debug, PartialEq, Eq, Structural)]
pub enum StreamPhase {
    /// For a session with the display.
    Connecting,
    /// For the display to take the command that selects its mode.
    SelectingMode,
    /// For a frame from the camera, of which `stale_left` are still to be
    /// dropped before one is shown.
    Acquiring { stale_left: usize },
    /// For the frame to be turned into a payload.
    Transcoding,
    /// For the payload to be delivered.
    Sending,
    /// For nothing: the loop has ended.
    Stopped(StopReason),
}

/// What the loop is told.
#[derive(Clone, Copy, Debug, PartialEq, Eq, Structural)]
pub enum StreamEvent {
    /// A session with the display is open.
    SessionOpened,
    /// No session could be opened.
    SessionFailed,
    /// The display took the mode command.
    ModeSelected,
    /// The mode command was not delivered.
    ModeFailed,
    /// The camera delivered a frame.
    FrameAcquired,
    /// The camera had no frame.
    NoFrame,
    /// The frame was turned into a payload.
    PayloadReady,
    /// The frame gave nothing to send.
    FrameRejected,
    /// The payload was delivered.
    PayloadSent,
    /// The payload was given up.
    PayloadFailed,
    /// The owner wants the loop to end.
    CancelRequested,
}

/// What the loop asks its owner to do next.
#[derive(Clone, Copy, Debug, PartialEq, Eq, Structural)]
pub enum StreamAction {
    /// Nothing; go on waiting.
    Wait,
    /// Send the command that selects the display mode.
    SendModeCommand,
    /// Ask the camera for a frame.
    AcquireFrame,
    /// Give the frame back unused, then ask the camera for another.
    DiscardFrame,
    /// Turn the frame into a payload, then give the frame back.
    ProcessFrame,
    /// Send the payload in chunks.
    SendPayload,
    /// Close the session, if there is one, and stop.
    Stop,
}

/// Mathematical content of the streaming loop.
pub struct StreamView {
    pub phase: StreamPhase,
    /// Frames dropped before each frame that is shown.
    pub stale_frames: usize,
    /// Whether the owner has asked for the loop to end.
    pub cancel_requested: bool,
}

impl StreamView {
    /// The loop at the point between two frames: it ends there if the
    /// owner asked for that, and begins the next frame otherwise.
    pub open spec fn next_frame(self) -> (StreamView, StreamAction) {
        if self.cancel_requested {
            (
                StreamView { phase: StreamPhase::Stopped(StopReason::Cancelled), ..self },
                StreamAction::Stop,
            )
        } else {
            (
                StreamView {
                    phase: StreamPhase::Acquiring { stale_left: self.stale_frames },
                    ..self
                },
                StreamAction::AcquireFrame,
            )
        }
    }

    /// The loop after the camera delivered `n` frames in a row.
    pub open spec fn after_frames(self, n: nat) -> StreamView
        decreases n,
    {
        if n == 0 {
            self
        } else {
            self.step(StreamEvent::FrameAcquired).0.after_frames((n - 1) as nat)
        }
    }

    /// The loop after `event`, and what its owner is to do.
    pub open spec fn step(self, event: StreamEvent) -> (StreamView, StreamAction) {
        match (self.phase, event) {
            (StreamPhase::Stopped(_), _) => (self, StreamAction::Wait),
            (_, StreamEvent::CancelRequested) => (
                StreamView { cancel_requested: true, ..self },
                StreamAction::Wait,
            ),
            (StreamPhase::Connecting, StreamEvent::SessionOpened) => (
                StreamView { phase: StreamPhase::SelectingMode, ..self },
                StreamAction::SendModeCommand,
            ),
            (StreamPhase::Connecting, StreamEvent::SessionFailed) => (
                StreamView { phase: StreamPhase::Stopped(StopReason::ConnectFailed), ..self },
                StreamAction::Stop,
            ),
            (StreamPhase::SelectingMode, StreamEvent::ModeSelected) => self.next_frame(),
            (StreamPhase::SelectingMode, StreamEvent::ModeFailed) => (
                StreamView { phase: StreamPhase::Stopped(StopReason::ModeRejected), ..self },
                StreamAction::Stop,
            ),
            (StreamPhase::Acquiring { stale_left }, StreamEvent::FrameAcquired) => if stale_left
                > 0 {
                (
                    StreamView {
                        phase: StreamPhase::Acquiring { stale_left: (stale_left - 1) as usize },
                        ..self
                    },
                    StreamAction::DiscardFrame,
                )
            } else {
                (
                    StreamView { phase: StreamPhase::Transcoding, ..self },
                    StreamAction::ProcessFrame,
                )
            },
            (StreamPhase::Acquiring { stale_left }, StreamEvent::NoFrame) => if stale_left > 0 {
                (
                    StreamView {
                        phase: StreamPhase::Acquiring { stale_left: (stale_left - 1) as usize },
                        ..self
                    },
                    StreamAction::AcquireFrame,
                )
            } else {
                self.next_frame()
            },
            (StreamPhase::Transcoding, StreamEvent::PayloadReady) => (
                StreamView { phase: StreamPhase::Sending, ..self },
                StreamAction::SendPayload,
            ),
            (StreamPhase::Transcoding, StreamEvent::FrameRejected) => self.next_frame(),
            (StreamPhase::Sending, StreamEvent::PayloadSent) => self.next_frame(),
            (StreamPhase::Sending, StreamEvent::PayloadFailed) => self.next_frame(),
            _ => (self, StreamAction::Wait),
        }
    }
}

/// The streaming loop. Its owner opens the session, runs the camera and
/// writes to the display; the loop says what to do next.
pub struct StreamOrchestrator {
    phase: StreamPhase,
    stale_frames: usize,
    cancel_requested: bool,
}

impl View for StreamOrchestrator {
    type V = StreamView;

    closed spec fn view(&self) -> StreamView {
        StreamView {
            phase: self.phase,
            stale_frames: self.stale_frames,
            cancel_requested: self.cancel_requested,
        }
    }
}

impl StreamOrchestrator {
    /// A loop that drops `stale_frames` frames before each frame it shows
    /// and that waits for its session.
    pub fn new(stale_frames: usize) -> (orchestrator: StreamOrchestrator)
        ensures
            orchestrator@ == (StreamView {
                phase: StreamPhase::Connecting,
                stale_frames,
                cancel_requested: false,
            }),
    {
        StreamOrchestrator { phase: StreamPhase::Connecting, stale_frames, cancel_requested: false }
    }

    /// What the loop is waiting for.
    pub fn phase(&self) -> (phase: StreamPhase)
        ensures
            phase == self@.phase,
    {
        self.phase
    }

    /// Whether the owner has asked for the loop to end.
    pub fn cancel_requested(&self) -> (requested: bool)
        ensures
            requested == self@.cancel_requested,
    {
        self.cancel_requested
    }

    /// The point between two frames.
    fn next_frame(&mut self) -> (action: StreamAction)
        ensures
            final(self)@ == old(self)@.next_frame().0,
            action == old(self)@.next_frame().1,
    {
        if self.cancel_requested {
            self.phase = StreamPhase::Stopped(StopReason::Cancelled);
            StreamAction::Stop
        } else {
            self.phase = StreamPhase::Acquiring { stale_left: self.stale_frames };
            StreamAction::AcquireFrame
        }
    }

    /// Takes the loop through one event and says what is to be done next.
    ///
    /// The session is opened once; without it the loop ends. The mode
    /// command is sent once, and the loop ends if it is not delivered.
    /// Then, frame after frame: the stale frames are dropped, the next
    /// frame is turned into a payload and the payload is sent. A frame
    /// that is missing or gives nothing to send, and a payload that is
    /// given up, end the work on that frame only. A request to end the
    /// loop is noted at once and honoured between two frames, never while
    /// a payload is under way. A loop that has ended stays so, and an
    /// event that the current phase does not wait for changes nothing.
    pub fn on_event(&mut self, event: StreamEvent) -> (action: StreamAction)
        ensures
            final(self)@ == old(self)@.step(event).0,
            action == old(self)@.step(event).1,
    {
        match self.phase {
            StreamPhase::Stopped(_) => { return StreamAction::Wait; },
            _ => {},
        }
        match event {
            StreamEvent::CancelRequested => {
                self.cancel_requested = true;
                return StreamAction::Wait;
            },
            _ => {},
        }
        match self.phase {
            StreamPhase::Connecting => match event {
                StreamEvent::SessionOpened => {
                    self.phase = StreamPhase::SelectingMode;
                    StreamAction::SendModeCommand
                },
                StreamEvent::SessionFailed => {
                    self.phase = StreamPhase::Stopped(StopReason::ConnectFailed);
                    StreamAction::Stop
                },
                _ => StreamAction::Wait,
            },
            StreamPhase::SelectingMode => match event {
                StreamEvent::ModeSelected => self.next_frame(),
                StreamEvent::ModeFailed => {
                    self.phase = StreamPhase::Stopped(StopReason::ModeRejected);
                    StreamAction::Stop
                },
                _ => StreamAction::Wait,
            },
            StreamPhase::Acquiring { stale_left } => match event {
                StreamEvent::FrameAcquired => {
                    if stale_left > 0 {
                        self.phase = StreamPhase::Acquiring { stale_left: stale_left - 1 };
                        StreamAction::DiscardFrame
                    } else {
                        self.phase = StreamPhase::Transcoding;
                        StreamAction::ProcessFrame
                    }
                },
                StreamEvent::NoFrame => {
                    if stale_left > 0 {
                        self.phase = StreamPhase::Acquiring { stale_left: stale_left - 1 };
                        StreamAction::AcquireFrame
                    } else {
                        self.next_frame()
                    }
                },
                _ => StreamAction::Wait,
            },
            StreamPhase::Transcoding => match event {
                StreamEvent::PayloadReady => {
                    self.phase = StreamPhase::Sending;
                    StreamAction::SendPayload
                },
                StreamEvent::FrameRejected => self.next_frame(),
                _ => StreamAction::Wait,
            },
            StreamPhase::Sending => match event {
                StreamEvent::PayloadSent => self.next_frame(),
                StreamEvent::PayloadFailed => self.next_frame(),
                _ => StreamAction::Wait,
            },
            StreamPhase::Stopped(_) => StreamAction::Wait,
        }
    }
}

/// Stale frames are dropped: a loop that begins a frame with `stale_left`
/// frames to drop answers each of the next `stale_left` frames by giving it
/// back unused, and only the frame after them by processing it.
pub proof fn law_stale_frames_discarded(view: StreamView, stale_left: usize, i: nat)
    requires
        view.phase == (StreamPhase::Acquiring { stale_left }),
        i <= stale_left,
    ensures
        view.after_frames(i).phase == (StreamPhase::Acquiring {
            stale_left: (stale_left - i) as usize,
        }),
        i < stale_left ==> view.after_frames(i).step(StreamEvent::FrameAcquired).1
            == StreamAction::DiscardFrame,
        i == stale_left ==> view.after_frames(i).step(StreamEvent::FrameAcquired).1
            == StreamAction::ProcessFrame,
        i == stale_left ==> view.after_frames(i).step(StreamEvent::FrameAcquired).0.phase
            == StreamPhase::Transcoding,
    decreases i,
{
    if i > 0 {
        let next = view.step(StreamEvent::FrameAcquired).0;
        law_stale_frames_discarded(next, (stale_left - 1) as usize, (i - 1) as nat);
    }
}

/// A bad frame does not end the loop: while the owner has not asked for the
/// end, a missing frame, a frame that gives nothing to send and a payload
/// that is given up all lead to the next request for a frame.
pub proof fn law_frame_failures_are_skipped(view: StreamView)
    requires
        !view.cancel_requested,
    ensures
        view.phase == (StreamPhase::Acquiring { stale_left: 0 }) ==> view.step(
            StreamEvent::NoFrame,
        ) == (
            StreamView { phase: StreamPhase::Acquiring { stale_left: view.stale_frames }, ..view },
            StreamAction::AcquireFrame,
        ),
        view.phase == StreamPhase::Transcoding ==> view.step(StreamEvent::FrameRejected) == (
            StreamView { phase: StreamPhase::Acquiring { stale_left: view.stale_frames }, ..view },
            StreamAction::AcquireFrame,
        ),
        view.phase == StreamPhase::Sending ==> view.step(StreamEvent::PayloadFailed) == (
            StreamView { phase: StreamPhase::Acquiring { stale_left: view.stale_frames }, ..view },
            StreamAction::AcquireFrame,
        ),
{
}

/// The loop ends between two frames: a request to end it leaves a payload
/// that is under way alone, and takes effect when that payload has been
/// delivered or given up. A loop that has ended stays so.
pub proof fn law_cancel_between_frames(view: StreamView, event: StreamEvent)
    ensures
        view.phase == StreamPhase::Sending ==> view.step(StreamEvent::CancelRequested) == (
            StreamView { cancel_requested: true, ..view },
            StreamAction::Wait,
        ),
        view.phase == StreamPhase::Sending && view.cancel_requested && (event
            == StreamEvent::PayloadSent || event == StreamEvent::PayloadFailed) ==> view.step(
            event,
        ) == (
            StreamView { phase: StreamPhase::Stopped(StopReason::Cancelled), ..view },
            StreamAction::Stop,
        ),
        view.phase is Stopped ==> view.step(event) == (view, StreamAction::Wait),
{
}

} // verus!
