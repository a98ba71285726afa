use vstd::prelude::*;

verus! {

/// The key code that means no key was pressed, besides codes of zero or less.
pub const NO_KEY: i32 = 255;

/// Whether the frame loop goes on.
#[derive(Clone, Copy, Debug, PartialEq, Eq, Structural)]
pub enum LoopState {
    Running,
    Stopped,
}

/// What the outside world reports to the frame loop.
#[derive(Clone, Copy, Debug, PartialEq, Eq, Structural)]
pub enum Event {
    /// A frame was read; its width is 0 when the capture gave nothing.
    FrameRead { width: i32 },
    /// The keyboard was polled.
    KeyPolled { code: i32 },
}

/// What the frame loop is to do next.
#[derive(Clone, Copy, Debug, PartialEq, Eq, Structural)]
pub enum Action {
    /// Mirror, letterbox, infer, decode and draw the frame, then poll the keyboard.
    ProcessFrame,
    /// Skip the empty frame and poll the keyboard.
    PollKey,
    /// Read the next frame.
    ReadFrame,
    /// Leave the loop.
    Exit,
}

/// A key code that ends the loop: a key was pressed and it is not the
/// "no key" code.
pub open spec fn requests_exit(code: i32) -> bool {
    code > 0 && code != 255
}

/// One decision of the frame loop. A non-empty frame is processed and an
/// empty one skipped; after the keyboard poll a pressed key stops the loop and
/// otherwise the next frame is read. A stopped loop only exits.
pub fn step(state: LoopState, event: Event) -> (r: (LoopState, Action))
    ensures
        state == LoopState::Stopped ==> r == (LoopState::Stopped, Action::Exit),
        state == LoopState::Running ==> match event {
            Event::FrameRead { width } => r == if width > 0 {
                (LoopState::Running, Action::ProcessFrame)
            } else {
                (LoopState::Running, Action::PollKey)
            },
            Event::KeyPolled { code } => r == if requests_exit(code) {
                (LoopState::Stopped, Action::Exit)
            } else {
                (LoopState::Running, Action::ReadFrame)
            },
        },
{
    match state {
        LoopState::Stopped => (LoopState::Stopped, Action::Exit),
        LoopState::Running => match event {
            Event::FrameRead { width } => {
                if width > 0 {
                    (LoopState::Running, Action::ProcessFrame)
                } else {
                    (LoopState::Running, Action::PollKey)
                }
            },
            Event::KeyPolled { code } => {
                if code > 0 && code != NO_KEY {
                    (LoopState::Stopped, Action::Exit)
                } else {
                    (LoopState::Running, Action::ReadFrame)
                }
            },
        },
    }
}

} // verus!
