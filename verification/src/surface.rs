//! Decisions of a window's render surface: which present mode to use, what
//! to do with each attempt to get the next surface texture, and when the
//! surface must be reconfigured for a new size.

use vstd::prelude::*;
use crate::graphics::RenderError;

verus! {

/// How presented frames are queued.
#[derive(Clone, Copy, Debug, PartialEq, Eq, Structural)]
pub enum PresentMode {
    AutoVsync,
    AutoNoVsync,
    Fifo,
    FifoRelaxed,
    Immediate,
    Mailbox,
}

/// The preferred present mode among those a surface supports: mailbox,
/// else relaxed FIFO, else FIFO, else the first supported one.
pub open spec fn preferred_present_mode(modes: Seq<PresentMode>) -> PresentMode {
    if modes.contains(PresentMode::Mailbox) {
        PresentMode::Mailbox
    } else if modes.contains(PresentMode::FifoRelaxed) {
        PresentMode::FifoRelaxed
    } else if modes.contains(PresentMode::Fifo) {
        PresentMode::Fifo
    } else {
        modes[0]
    }
}

/// Pick the present mode for a surface that supports `modes` (at least
/// one).
pub fn choose_present_mode(modes: &Vec<PresentMode>) -> (r: PresentMode)
    requires
        modes@.len() > 0,
    ensures
        r == preferred_present_mode(modes@),
{
    let mut mailbox = false;
    let mut relaxed = false;
    let mut fifo = false;
    let mut i: usize = 0;
    while i < modes.len()
        invariant
            i <= modes@.len(),
            mailbox == modes@.subrange(0, i as int).contains(PresentMode::Mailbox),
            relaxed == modes@.subrange(0, i as int).contains(PresentMode::FifoRelaxed),
            fifo == modes@.subrange(0, i as int).contains(PresentMode::Fifo),
        decreases modes@.len() - i,
    {
        let mode = modes[i];
        proof {
            let before = modes@.subrange(0, i as int);
            let after = modes@.subrange(0, i + 1);
            assert(after =~= before.push(mode));
            assert forall|m: PresentMode| after.contains(m) <==> (before.contains(m) || m == mode) by {
                if before.contains(m) {
                    let w = choose|w: int| 0 <= w < before.len() && before[w] == m;
                    assert(after[w] == m);
                }
                if m == mode {
                    assert(after[i as int] == m);
                }
                if after.contains(m) && m != mode {
                    let w = choose|w: int| 0 <= w < after.len() && after[w] == m;
                    assert(before[w] == m);
                }
            }
        }
        match mode {
            PresentMode::Mailbox => mailbox = true,
            PresentMode::FifoRelaxed => relaxed = true,
            PresentMode::Fifo => fifo = true,
            _ => {},
        }
        i += 1;
    }
    proof {
        assert(modes@.subrange(0, modes@.len() as int) =~= modes@);
    }
    if mailbox {
        PresentMode::Mailbox
    } else if relaxed {
        PresentMode::FifoRelaxed
    } else if fifo {
        PresentMode::Fifo
    } else {
        modes[0]
    }
}

/// What one attempt to get the next surface texture gave.
#[derive(Clone, Copy, Debug, PartialEq, Eq, Structural)]
pub enum SurfaceStatus {
    Success,
    Suboptimal,
    Outdated,
    Timeout,
    Occluded,
    Lost,
    Validation,
}

/// What to do after an attempt.
#[derive(Clone, Copy, Debug, PartialEq, Eq, Structural)]
pub enum AcquireStep {
    /// Use the texture.
    Present,
    /// Reconfigure the surface for its current size and try again.
    Retry,
    /// Give up with this error.
    Fail(RenderError),
}

/// Attempts beyond this many retries time out.
pub const MAX_ACQUIRE_RETRIES: u32 = 3;

/// Decide what to do with the result of attempt number `attempt`
/// (counting from 0) to get the next surface texture: after more than
/// three retries the attempts time out whatever the result; otherwise a
/// texture is used, an outdated or suboptimal surface is reconfigured and
/// tried again, and a timeout, an occluded window or a validation error end
/// the attempts. A lost surface is not handled.
pub fn acquire_step(attempt: u32, status: SurfaceStatus) -> (r: AcquireStep)
    requires
        attempt <= MAX_ACQUIRE_RETRIES ==> status != SurfaceStatus::Lost,
    ensures
        r == if attempt > MAX_ACQUIRE_RETRIES {
            AcquireStep::Fail(RenderError::TimedOut)
        } else {
            match status {
                SurfaceStatus::Success => AcquireStep::Present,
                SurfaceStatus::Suboptimal | SurfaceStatus::Outdated => AcquireStep::Retry,
                SurfaceStatus::Timeout => AcquireStep::Fail(RenderError::TimedOut),
                SurfaceStatus::Occluded => AcquireStep::Fail(RenderError::Occluded),
                SurfaceStatus::Validation | SurfaceStatus::Lost => AcquireStep::Fail(
                    RenderError::Unknown,
                ),
            }
        },
{
    if attempt > MAX_ACQUIRE_RETRIES {
        return AcquireStep::Fail(RenderError::TimedOut);
    }
    match status {
        SurfaceStatus::Success => AcquireStep::Present,
        SurfaceStatus::Suboptimal | SurfaceStatus::Outdated => AcquireStep::Retry,
        SurfaceStatus::Timeout => AcquireStep::Fail(RenderError::TimedOut),
        SurfaceStatus::Occluded => AcquireStep::Fail(RenderError::Occluded),
        SurfaceStatus::Validation | SurfaceStatus::Lost => AcquireStep::Fail(RenderError::Unknown),
    }
}

/// The size to reconfigure a surface configured for `configured` to, when
/// the window now measures `current`: none when nothing changed or the
/// window has no area.
pub fn resize_target(configured: (u32, u32), current: (u32, u32)) -> (r: Option<(u32, u32)>)
    ensures
        r is Some <==> (configured != current && current.0 > 0 && current.1 > 0),
        r matches Some(size) ==> size == current,
{
    if configured.0 == current.0 && configured.1 == current.1 {
        None
    } else if current.0 > 0 && current.1 > 0 {
        Some(current)
    } else {
        None
    }
}

} // verus!
