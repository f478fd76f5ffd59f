use crate::coordinator::{encode_animation, valid_patches};
use crate::encode::{gif_bytes, Patch};
use crate::types::{frame_wf, pixels_of, Error, Frame, LoopMode};
use vstd::prelude::*;

verus! {

// The caller-facing handle. A session moves from collecting frames, to
// closed (after finalize), to retrieved or failed; encoding runs while
// the first poll after finalize drains the queue, so a poll never blocks
// on anything but its own work.

/// Where a session stands.
#[derive(Clone, Copy, PartialEq, Eq, Structural, Debug)]
pub enum SessionState {
    /// Accepting frames.
    Collecting,
    /// Finalized; the output has not been produced yet.
    Closed,
    /// The output buffer was handed out; it cannot be handed out again.
    Retrieved,
    /// The pipeline failed; no output will come.
    Failed,
}

/// What one poll returns: not ready yet, the finished GIF exactly once,
/// or an error.
pub enum PollOutcome {
    NotReady,
    Ready(Vec<u8>),
    Failed(Error),
}

/// An encoder session with fixed canvas size and settings.
pub struct Session {
    pub width: u16,
    pub height: u16,
    pub quality: u8,
    pub loop_mode: LoopMode,
    pub state: SessionState,
    pub frames: Vec<Frame>,
}

/// The settings `create_session` accepts: a non-empty canvas that fits
/// GIF's 16-bit dimensions, and a quality within 0..=100.
pub open spec fn valid_settings(width: u32, height: u32, quality: u8) -> bool {
    1 <= width <= 65535 && 1 <= height <= 65535 && quality <= 100
}

/// How `finalize` moves a session: collecting becomes closed, every
/// other state and every other field stays.
pub open spec fn finalize_step(s: Session, t: Session) -> bool {
    &&& t.state == if s.state == SessionState::Collecting {
        SessionState::Closed
    } else {
        s.state
    }
    &&& t.width == s.width && t.height == s.height && t.quality == s.quality
    &&& t.loop_mode == s.loop_mode && t.frames@ == s.frames@
}

impl Session {
    /// A session's internal invariant: settings in range, every stored
    /// frame the size of the canvas.
    pub open spec fn wf(&self) -> bool {
        &&& 1 <= self.width && 1 <= self.height
        &&& self.quality <= 100
        &&& forall|i: int|
            0 <= i < self.frames@.len() ==> frame_wf(&self.frames@[i], self.width, self.height)
    }

    /// Open a session. Succeeds exactly on valid settings and starts in
    /// the collecting state with no frames.
    pub fn create_session(width: u32, height: u32, quality: u8, loop_mode: LoopMode) -> (r: Result<
        Session,
        Error,
    >)
        ensures
            r is Ok <==> valid_settings(width, height, quality),
            r matches Ok(s) ==> {
                &&& s.wf()
                &&& s.state == SessionState::Collecting
                &&& s.frames@.len() == 0
                &&& s.width == width && s.height == height
                &&& s.quality == quality && s.loop_mode == loop_mode
            },
            r matches Err(e) ==> e == Error::EncodingError,
    {
        if width == 0 || width > 65535 || height == 0 || height > 65535 || quality > 100 {
            Err(Error::EncodingError)
        } else {
            Ok(
                Session {
                    width: width as u16,
                    height: height as u16,
                    quality,
                    loop_mode,
                    state: SessionState::Collecting,
                    frames: Vec::new(),
                },
            )
        }
    }

    /// Submit one RGBA frame with its display time in centiseconds.
    /// Fails with `SessionClosed` after finalize, and with
    /// `InvalidFrameSize` whenever the buffer is not width * height * 4
    /// bytes, whatever its content.
    pub fn submit_frame(&mut self, data: &[u8], delay_cs: u16) -> (r: Result<(), Error>)
        requires
            old(self).wf(),
        ensures
            final(self).wf(),
            old(self).state != SessionState::Collecting ==> r == Err::<(), Error>(
                Error::SessionClosed,
            ) && *final(self) == *old(self),
            old(self).state == SessionState::Collecting && data@.len() != (old(self).width as int)
                * (old(self).height as int) * 4 ==> r == Err::<(), Error>(Error::InvalidFrameSize)
                && *final(self) == *old(self),
            old(self).state == SessionState::Collecting && data@.len() == (old(self).width as int)
                * (old(self).height as int) * 4 ==> {
                &&& r == Ok::<(), Error>(())
                &&& final(self).state == SessionState::Collecting
                &&& final(self).width == old(self).width && final(self).height == old(
                    self,
                ).height
                &&& final(self).quality == old(self).quality && final(self).loop_mode == old(
                    self,
                ).loop_mode
                &&& final(self).frames@.len() == old(self).frames@.len() + 1
                &&& forall|j: int|
                    0 <= j < old(self).frames@.len() ==> final(self).frames@[j] == old(
                        self,
                    ).frames@[j]
                &&& final(self).frames@.last().pixels@ == pixels_of(data@)
                &&& final(self).frames@.last().delay_cs == delay_cs
            },
    {
        match self.state {
            SessionState::Collecting => {},
            _ => {
                return Err(Error::SessionClosed);
            },
        }
        proof {
            assert((self.width as int) * (self.height as int) * 4 < 0x1_0000_0000_0000)
                by (nonlinear_arith)
                requires
                    self.width <= 0xFFFF && self.height <= 0xFFFF,
            ;
        }
        let expect: u64 = (self.width as u64) * (self.height as u64) * 4;
        if data.len() as u64 != expect {
            return Err(Error::InvalidFrameSize);
        }
        proof {
            vstd::arithmetic::div_mod::lemma_mod_multiples_basic(
                (self.width as int) * (self.height as int),
                4,
            );
            assert(((self.width as int) * (self.height as int) * 4) / 4 == (self.width as int) * (
            self.height as int)) by (nonlinear_arith);
        }
        let pixels = crate::types::ingest_pixels(data);
        let f = Frame { pixels, delay_cs };
        self.frames.push(f);
        Ok(())
    }

    /// Close the session to further frames. Idempotent: finalizing an
    /// already finalized session changes nothing.
    pub fn finalize(&mut self)
        requires
            old(self).wf(),
        ensures
            final(self).wf(),
            finalize_step(*old(self), *final(self)),
    {
        match self.state {
            SessionState::Collecting => {
                self.state = SessionState::Closed;
            },
            _ => {},
        }
    }

    /// Poll for the finished animation. Never blocks: before finalize it
    /// reports not ready; the first poll after finalize drains the queue
    /// and hands the output buffer out exactly once; any later poll
    /// fails with `AlreadyRetrieved`. A session finalized with no frames
    /// fails with `EncodingError`, as do all polls after a failure.
    pub fn poll_result(&mut self) -> (r: PollOutcome)
        requires
            old(self).wf(),
        ensures
            final(self).wf(),
            final(self).width == old(self).width && final(self).height == old(self).height,
            final(self).quality == old(self).quality && final(self).loop_mode == old(
                self,
            ).loop_mode,
            final(self).frames@ == old(self).frames@,
            old(self).state == SessionState::Collecting ==> r is NotReady && *final(self) == *old(
                self,
            ),
            old(self).state == SessionState::Closed && old(self).frames@.len() == 0 ==> (
            r matches PollOutcome::Failed(e) && e == Error::EncodingError) && final(self).state
                == SessionState::Failed,
            old(self).state == SessionState::Closed && old(self).frames@.len() > 0 ==> (
            r matches PollOutcome::Ready(b) && exists|ps: Seq<Patch>|
                valid_patches(ps, old(self).frames@, old(self).width, old(self).height, old(self).quality)
                    && b@ == gif_bytes(old(self).width, old(self).height, old(self).loop_mode, ps))
                && final(self).state == SessionState::Retrieved,
            old(self).state == SessionState::Retrieved ==> (r matches PollOutcome::Failed(e) && e
                == Error::AlreadyRetrieved) && *final(self) == *old(self),
            old(self).state == SessionState::Failed ==> (r matches PollOutcome::Failed(e) && e
                == Error::EncodingError) && *final(self) == *old(self),
    {
        match self.state {
            SessionState::Collecting => PollOutcome::NotReady,
            SessionState::Closed => {
                if self.frames.len() == 0 {
                    self.state = SessionState::Failed;
                    PollOutcome::Failed(Error::EncodingError)
                } else {
                    let out = encode_animation(
                        self.width,
                        self.height,
                        self.quality,
                        self.loop_mode,
                        &self.frames,
                    );
                    self.state = SessionState::Retrieved;
                    PollOutcome::Ready(out)
                }
            },
            SessionState::Retrieved => PollOutcome::Failed(Error::AlreadyRetrieved),
            SessionState::Failed => PollOutcome::Failed(Error::EncodingError),
        }
    }
}

/// Finalize is idempotent: after one finalize, a second changes nothing
/// a caller can observe.
pub proof fn lemma_finalize_idempotent(s1: Session, s2: Session, s3: Session)
    requires
        finalize_step(s1, s2),
        finalize_step(s2, s3),
    ensures
        s3.state == s2.state,
        s3.frames@ == s2.frames@,
        s3.width == s2.width && s3.height == s2.height,
        s3.quality == s2.quality && s3.loop_mode == s2.loop_mode,
{
}

} // verus!
