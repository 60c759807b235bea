use vstd::prelude::*;

verus! {

/// Why a session stops: each of these ends it, there is no retry.
#[derive(Clone, Copy, Debug, PartialEq, Eq, Structural)]
pub enum FrameFault {
    /// A render was asked for while the previous frame was still pending.
    RenderWhilePending,
    /// A frame-ready marker came while no frame was pending.
    UnexpectedMarker,
    /// The frame-ready channel was disconnected.
    ChannelClosed,
    /// Every epoch value has been used.
    EpochExhausted,
}

/// Where the frame transaction pipeline stands between two events.
#[derive(Clone, Copy, Debug, PartialEq, Eq, Structural)]
pub enum Phase {
    /// No transaction is in flight.
    Idle,
    /// A transaction was submitted; its frame-ready marker has not come yet.
    AwaitingReady,
    /// The session has stopped for good.
    Halted(FrameFault),
}

/// What the pipeline is told.
#[derive(Clone, Copy, Debug, PartialEq, Eq, Structural)]
pub enum FrameEvent {
    /// The caller asks for a frame of the current scene.
    RenderRequested,
    /// The notifier reported a frame ready for presentation.
    ReadyMarker,
    /// The frame-ready channel reported a disconnection.
    ChannelClosed,
}

/// What the owner of the window must do next.
#[derive(Clone, Copy, Debug, PartialEq, Eq, Structural)]
pub enum FrameAction {
    /// Build the display list, tag it with `epoch`, submit it and wait for its marker.
    Submit { epoch: u32 },
    /// Composite and present the frame that became ready.
    Present,
    /// Terminate the session.
    Halt(FrameFault),
}

/// The next phase, the next epoch and the action, for one event.
pub open spec fn step(phase: Phase, epoch: u32, event: FrameEvent) -> (Phase, u32, FrameAction) {
    match phase {
        Phase::Halted(f) => (phase, epoch, FrameAction::Halt(f)),
        Phase::Idle => match event {
            FrameEvent::RenderRequested => if epoch < u32::MAX {
                (Phase::AwaitingReady, (epoch + 1) as u32, FrameAction::Submit { epoch })
            } else {
                (
                    Phase::Halted(FrameFault::EpochExhausted),
                    epoch,
                    FrameAction::Halt(FrameFault::EpochExhausted),
                )
            },
            FrameEvent::ReadyMarker => (
                Phase::Halted(FrameFault::UnexpectedMarker),
                epoch,
                FrameAction::Halt(FrameFault::UnexpectedMarker),
            ),
            FrameEvent::ChannelClosed => (
                Phase::Halted(FrameFault::ChannelClosed),
                epoch,
                FrameAction::Halt(FrameFault::ChannelClosed),
            ),
        },
        Phase::AwaitingReady => match event {
            FrameEvent::RenderRequested => (
                Phase::Halted(FrameFault::RenderWhilePending),
                epoch,
                FrameAction::Halt(FrameFault::RenderWhilePending),
            ),
            FrameEvent::ReadyMarker => (Phase::Idle, epoch, FrameAction::Present),
            FrameEvent::ChannelClosed => (
                Phase::Halted(FrameFault::ChannelClosed),
                epoch,
                FrameAction::Halt(FrameFault::ChannelClosed),
            ),
        },
    }
}

/// Each submission carries the current epoch and raises it by exactly one;
/// every other action leaves it as it was. A render asked for while idle is
/// submitted unless the epoch has reached its largest value.
pub proof fn lemma_epoch_per_submission(phase: Phase, epoch: u32, event: FrameEvent)
    ensures
        ({
            let (_, next, action) = step(phase, epoch, event);
            &&& action is Submit ==> action == (FrameAction::Submit { epoch }) && next == epoch
                + 1
            &&& !(action is Submit) ==> next == epoch
            &&& (phase == Phase::Idle && event == FrameEvent::RenderRequested && epoch
                < u32::MAX) ==> action is Submit
        }),
{
}

/// From idle, a render followed by one ready marker submits the frame with the
/// current epoch, presents it and comes back to idle with the epoch one higher.
/// A second marker for the same frame halts the session, and so does a new
/// render before the marker: one marker completes one frame, neither none nor two.
pub proof fn lemma_one_marker_per_frame(epoch: u32)
    requires
        epoch < u32::MAX,
    ensures
        ({
            let (p1, e1, a1) = step(Phase::Idle, epoch, FrameEvent::RenderRequested);
            let (p2, e2, a2) = step(p1, e1, FrameEvent::ReadyMarker);
            &&& a1 == (FrameAction::Submit { epoch })
            &&& p1 == Phase::AwaitingReady
            &&& a2 == FrameAction::Present
            &&& p2 == Phase::Idle
            &&& e2 == epoch + 1
            &&& step(p2, e2, FrameEvent::ReadyMarker).2 == FrameAction::Halt(
                FrameFault::UnexpectedMarker,
            )
            &&& step(p1, e1, FrameEvent::RenderRequested).2 == FrameAction::Halt(
                FrameFault::RenderWhilePending,
            )
        }),
{
}

/// The state of the frame transaction pipeline: its phase and the epoch that
/// the next submitted display list will carry.
pub struct FramePipeline {
    phase: Phase,
    epoch: u32,
}

impl View for FramePipeline {
    type V = (Phase, u32);

    closed spec fn view(&self) -> (Phase, u32) {
        (self.phase, self.epoch)
    }
}

impl FramePipeline {
    /// An idle pipeline whose first display list carries epoch 0.
    pub fn new() -> (r: Self)
        ensures
            r@ == (Phase::Idle, 0u32),
    {
        FramePipeline { phase: Phase::Idle, epoch: 0 }
    }

    /// Where the pipeline stands.
    pub fn phase(&self) -> (r: Phase)
        ensures
            r == self@.0,
    {
        self.phase
    }

    /// The epoch that the next submitted display list will carry.
    pub fn epoch(&self) -> (r: u32)
        ensures
            r == self@.1,
    {
        self.epoch
    }

    /// Takes one event, moves to the next phase and says what to do.
    pub fn on_event(&mut self, event: FrameEvent) -> (r: FrameAction)
        ensures
            (final(self)@.0, final(self)@.1, r) == step(old(self)@.0, old(self)@.1, event),
    {
        match self.phase {
            Phase::Halted(f) => FrameAction::Halt(f),
            Phase::Idle => match event {
                FrameEvent::RenderRequested => {
                    if self.epoch < u32::MAX {
                        let current = self.epoch;
                        self.epoch = current + 1;
                        self.phase = Phase::AwaitingReady;
                        FrameAction::Submit { epoch: current }
                    } else {
                        self.halt(FrameFault::EpochExhausted)
                    }
                },
                FrameEvent::ReadyMarker => self.halt(FrameFault::UnexpectedMarker),
                FrameEvent::ChannelClosed => self.halt(FrameFault::ChannelClosed),
            },
            Phase::AwaitingReady => match event {
                FrameEvent::RenderRequested => self.halt(FrameFault::RenderWhilePending),
                FrameEvent::ReadyMarker => {
                    self.phase = Phase::Idle;
                    FrameAction::Present
                },
                FrameEvent::ChannelClosed => self.halt(FrameFault::ChannelClosed),
            },
        }
    }

    fn halt(&mut self, fault: FrameFault) -> (r: FrameAction)
        ensures
            final(self)@ == (Phase::Halted(fault), old(self)@.1),
            r == FrameAction::Halt(fault),
    {
        self.phase = Phase::Halted(fault);
        FrameAction::Halt(fault)
    }
}

} // verus!
