use scene_window::frame::{FrameAction, FrameEvent, FrameFault, FramePipeline, Phase};

#[test]
fn new_pipeline_is_idle_at_epoch_zero() {
    let p = FramePipeline::new();
    assert_eq!(p.phase(), Phase::Idle);
    assert_eq!(p.epoch(), 0);
}

#[test]
fn each_render_raises_epoch_by_one() {
    let mut p = FramePipeline::new();
    for n in 0..4u32 {
        assert_eq!(p.on_event(FrameEvent::RenderRequested), FrameAction::Submit { epoch: n });
        assert_eq!(p.epoch(), n + 1);
        assert_eq!(p.phase(), Phase::AwaitingReady);
        assert_eq!(p.on_event(FrameEvent::ReadyMarker), FrameAction::Present);
        assert_eq!(p.phase(), Phase::Idle);
        assert_eq!(p.epoch(), n + 1);
    }
}

#[test]
fn two_sequential_renders_each_take_one_marker() {
    let mut p = FramePipeline::new();
    assert_eq!(p.on_event(FrameEvent::RenderRequested), FrameAction::Submit { epoch: 0 });
    assert_eq!(p.on_event(FrameEvent::ReadyMarker), FrameAction::Present);
    assert_eq!(p.on_event(FrameEvent::RenderRequested), FrameAction::Submit { epoch: 1 });
    assert_eq!(p.on_event(FrameEvent::ReadyMarker), FrameAction::Present);
    assert_eq!(p.phase(), Phase::Idle);
    assert_eq!(p.epoch(), 2);
}

#[test]
fn second_marker_for_one_frame_halts() {
    let mut p = FramePipeline::new();
    p.on_event(FrameEvent::RenderRequested);
    p.on_event(FrameEvent::ReadyMarker);
    assert_eq!(
        p.on_event(FrameEvent::ReadyMarker),
        FrameAction::Halt(FrameFault::UnexpectedMarker)
    );
    assert_eq!(p.phase(), Phase::Halted(FrameFault::UnexpectedMarker));
    assert_eq!(
        p.on_event(FrameEvent::RenderRequested),
        FrameAction::Halt(FrameFault::UnexpectedMarker)
    );
}

#[test]
fn render_while_pending_halts() {
    let mut p = FramePipeline::new();
    p.on_event(FrameEvent::RenderRequested);
    assert_eq!(
        p.on_event(FrameEvent::RenderRequested),
        FrameAction::Halt(FrameFault::RenderWhilePending)
    );
    assert_eq!(p.epoch(), 1);
}

#[test]
fn closed_channel_halts() {
    let mut p = FramePipeline::new();
    p.on_event(FrameEvent::RenderRequested);
    assert_eq!(
        p.on_event(FrameEvent::ChannelClosed),
        FrameAction::Halt(FrameFault::ChannelClosed)
    );
    assert_eq!(p.phase(), Phase::Halted(FrameFault::ChannelClosed));
}
