//! Lifecycle and protocol logic of the resident extraction worker.
//!
//! The worker is an external process speaking a line-delimited protocol:
//! one handshake line on startup, then one reply line per request line.
//! The unverified shell owns the pipes and drives this manager as a state
//! machine: the manager decides, the shell performs the I/O and hands the
//! observed event back. A dead or failed worker leaves the manager down,
//! and the next extraction transparently plans a fresh spawn.
use vstd::prelude::*;
use crate::protocol::{envelope_fields, parse_envelope_fields};
use crate::encode::{extract_request_bytes, encode_extract_request};
use crate::client::slice_owned;

verus! {

/// Whether a worker process handle is currently held.
#[derive(Clone, Copy, PartialEq, Eq, Structural, Debug)]
pub enum WorkerPhase {
    /// No usable process: never started, failed to start, or observed
    /// dead. The next extraction spawns a fresh worker.
    Down,
    /// A process handle is held; its liveness is re-checked before every
    /// use.
    Ready,
}

/// The first step the shell must take for an extraction.
#[derive(Clone, Copy, PartialEq, Eq, Structural, Debug)]
pub enum ExtractAction {
    /// Probe the held process for liveness, then use it or respawn.
    ProbeThenUse,
    /// Spawn a fresh worker and read its handshake line.
    Spawn,
}

/// Failure of one extraction call.
#[derive(Debug)]
pub enum WorkerError {
    /// The image file does not exist; the worker was never involved.
    MissingImage(Vec<u8>),
    /// Spawning the worker failed; retried on the next call.
    SpawnFailed(Vec<u8>),
    /// The handshake line did not decode; retried on the next call.
    HandshakeProtocol,
    /// The worker reported a startup failure; retried on the next call.
    HandshakeReported(Vec<u8>),
    /// A reply line did not decode.
    ReplyProtocol,
    /// The worker reported an extraction failure.
    WorkerReported(Vec<u8>),
    /// The reply carried no text field.
    MissingText,
}

/// Manager of the resident extraction worker.
pub struct WorkerManager {
    pub phase: WorkerPhase,
}

impl WorkerManager {
    pub fn new() -> (r: WorkerManager)
        ensures
            r.phase is Down,
    {
        WorkerManager { phase: WorkerPhase::Down }
    }

    /// Begin an extraction. A missing image fails at once, without
    /// touching the worker. Otherwise the shell is told to probe the held
    /// worker, or to spawn one when none is held — so after a death or a
    /// failed start the next call transparently restarts the worker.
    pub fn begin_extract(&mut self, image_path: &[u8], path_exists: bool) -> (r: Result<
        ExtractAction,
        WorkerError,
    >)
        ensures
            final(self).phase == old(self).phase,
            !path_exists ==> (r matches Err(e) && e matches WorkerError::MissingImage(p)
                && p@ == image_path@),
            path_exists ==> (r matches Ok(a) && extract_plan(*old(self), path_exists) == Some(
                a,
            )),
            path_exists && old(self).phase is Ready ==> (r matches Ok(a)
                && a == ExtractAction::ProbeThenUse),
            path_exists && old(self).phase is Down ==> (r matches Ok(a)
                && a == ExtractAction::Spawn),
    {
        if !path_exists {
            return Err(WorkerError::MissingImage(slice_owned(image_path)));
        }
        match self.phase {
            WorkerPhase::Ready => Ok(ExtractAction::ProbeThenUse),
            WorkerPhase::Down => Ok(ExtractAction::Spawn),
        }
    }

    /// Record the result of a liveness probe. A live worker is used as
    /// is; a dead one is dropped, and the shell must spawn a fresh one.
    pub fn on_probe(&mut self, alive: bool) -> (r: ExtractAction)
        requires
            old(self).phase is Ready,
        ensures
            alive ==> final(self).phase is Ready && r == ExtractAction::ProbeThenUse,
            !alive ==> final(self).phase is Down && r == ExtractAction::Spawn,
    {
        if alive {
            ExtractAction::ProbeThenUse
        } else {
            self.phase = WorkerPhase::Down;
            ExtractAction::Spawn
        }
    }

    /// Record a failed spawn: the manager stays down and the failure is
    /// surfaced to the caller; the next call retries.
    pub fn on_spawn_failed(&mut self, msg: &[u8]) -> (r: WorkerError)
        ensures
            final(self).phase is Down,
            r matches WorkerError::SpawnFailed(m) && m@ == msg@,
    {
        self.phase = WorkerPhase::Down;
        WorkerError::SpawnFailed(slice_owned(msg))
    }

    /// Record the worker's handshake line. A line that does not decode,
    /// or that reports an error, leaves the manager down (retried on the
    /// next call); otherwise the worker is ready.
    pub fn on_handshake_line(&mut self, line: &[u8]) -> (r: Result<(), WorkerError>)
        ensures
            envelope_fields(line@) is None ==> (r matches Err(e)
                && e matches WorkerError::HandshakeProtocol && final(self).phase is Down),
            (envelope_fields(line@) matches Some(fe) ==> {
                match fe.1 {
                    Some(err) => r matches Err(e) && e matches WorkerError::HandshakeReported(m)
                        && m@ == err && final(self).phase is Down,
                    None => r is Ok && final(self).phase is Ready,
                }
            }),
    {
        match parse_envelope_fields(line) {
            None => {
                self.phase = WorkerPhase::Down;
                Err(WorkerError::HandshakeProtocol)
            },
            Some((_, err)) => {
                match err {
                    Some(msg) => {
                        self.phase = WorkerPhase::Down;
                        Err(WorkerError::HandshakeReported(msg))
                    },
                    None => {
                        self.phase = WorkerPhase::Ready;
                        Ok(())
                    },
                }
            },
        }
    }

    /// The request line for an image path, ready to write to the
    /// worker's input pipe.
    pub fn request_line(&self, image_path: &[u8]) -> (r: Vec<u8>)
        ensures
            r@ == extract_request_bytes(image_path@),
    {
        encode_extract_request(image_path)
    }

    /// Interpret the worker's reply line: the extracted text, or the
    /// error the worker reported, or a protocol failure. The held process
    /// is kept; a broken pipe is observed by the next call's probe.
    pub fn on_reply_line(&self, line: &[u8]) -> (r: Result<Vec<u8>, WorkerError>)
        ensures
            envelope_fields(line@) is None ==> (r matches Err(e)
                && e matches WorkerError::ReplyProtocol),
            (envelope_fields(line@) matches Some(fe) ==> {
                match fe.1 {
                    Some(err) => r matches Err(e) && e matches WorkerError::WorkerReported(m)
                        && m@ == err,
                    None => match fe.0 {
                        Some(text) => r matches Ok(t) && t@ == text,
                        None => r matches Err(e) && e matches WorkerError::MissingText,
                    },
                }
            }),
    {
        match parse_envelope_fields(line) {
            None => Err(WorkerError::ReplyProtocol),
            Some((text, err)) => {
                match err {
                    Some(msg) => Err(WorkerError::WorkerReported(msg)),
                    None => {
                        match text {
                            Some(t) => Ok(t),
                            None => Err(WorkerError::MissingText),
                        }
                    },
                }
            },
        }
    }
}

/// After the worker is observed dead, the very next extraction on an
/// existing image plans a fresh spawn: the restart needs no manual
/// intervention.
pub proof fn lemma_restart_after_death(m: WorkerManager)
    requires
        m.phase is Down,
    ensures
        forall|path_exists: bool|
            path_exists ==> #[trigger] extract_plan(m, path_exists) == Some(ExtractAction::Spawn),
{
}

/// The first action `begin_extract` yields, as a function of the state.
pub open spec fn extract_plan(m: WorkerManager, path_exists: bool) -> Option<ExtractAction> {
    if !path_exists {
        None
    } else if m.phase is Ready {
        Some(ExtractAction::ProbeThenUse)
    } else {
        Some(ExtractAction::Spawn)
    }
}

} // verus!
