use plinth::graphics::RenderError;
use plinth::surface::acquire_step;
use plinth::surface::choose_present_mode;
use plinth::surface::resize_target;
use plinth::surface::AcquireStep;
use plinth::surface::PresentMode;
use plinth::surface::SurfaceStatus;

#[test]
fn present_mode_prefers_mailbox_then_relaxed_then_fifo() {
    assert_eq!(
        choose_present_mode(&vec![PresentMode::Fifo, PresentMode::Mailbox, PresentMode::Immediate]),
        PresentMode::Mailbox
    );
    assert_eq!(
        choose_present_mode(&vec![PresentMode::Fifo, PresentMode::FifoRelaxed]),
        PresentMode::FifoRelaxed
    );
    assert_eq!(
        choose_present_mode(&vec![PresentMode::Immediate, PresentMode::Fifo]),
        PresentMode::Fifo
    );
    assert_eq!(
        choose_present_mode(&vec![PresentMode::Immediate, PresentMode::AutoVsync]),
        PresentMode::Immediate
    );
}

#[test]
fn acquiring_retries_outdated_surfaces_then_times_out() {
    assert_eq!(acquire_step(0, SurfaceStatus::Success), AcquireStep::Present);
    assert_eq!(acquire_step(0, SurfaceStatus::Outdated), AcquireStep::Retry);
    assert_eq!(acquire_step(3, SurfaceStatus::Suboptimal), AcquireStep::Retry);
    assert_eq!(
        acquire_step(4, SurfaceStatus::Success),
        AcquireStep::Fail(RenderError::TimedOut)
    );
    assert_eq!(
        acquire_step(1, SurfaceStatus::Timeout),
        AcquireStep::Fail(RenderError::TimedOut)
    );
    assert_eq!(
        acquire_step(2, SurfaceStatus::Occluded),
        AcquireStep::Fail(RenderError::Occluded)
    );
    assert_eq!(
        acquire_step(0, SurfaceStatus::Validation),
        AcquireStep::Fail(RenderError::Unknown)
    );
}

#[test]
fn surface_is_reconfigured_only_for_a_new_nonempty_size() {
    assert_eq!(resize_target((640, 480), (640, 480)), None);
    assert_eq!(resize_target((640, 480), (800, 600)), Some((800, 600)));
    assert_eq!(resize_target((640, 480), (0, 600)), None);
    assert_eq!(resize_target((640, 480), (800, 0)), None);
}
