//! The single-flight generation coordinator and its shared job state.
//!
//! At most one generation job runs at a time: `start` tests and sets the
//! running flag and resets the job record; the background task (driven by
//! the unverified shell) feeds stream chunks through `on_chunk`, and
//! settles the job with `on_stream_complete` or `on_stream_error`. The
//! caller polls `get_diary_state` / `is_diary_generating` for snapshots.
use vstd::prelude::*;
use crate::sse::{StreamDecoder, concat_of};
use crate::encode::{ChatMessage, chat_request_bytes, encode_chat_request, msgs_view};
use crate::protocol::vecs_view;
use crate::client::{user_role, user_role_vec, slice_owned};
use crate::ext::{today_key, utf8_lossy, lossy_of};
use crate::json::LF;

verus! {

/// The lifecycle state of a generation job.
#[derive(Clone, Copy, PartialEq, Eq, Structural, Debug)]
pub enum JobStatus {
    Idle,
    Running,
    Succeeded,
    Failed,
}

/// The mutable record of the current generation job. The content grows
/// monotonically while the job runs; terminal states persist until the
/// next accepted `start`.
pub struct GenerationJob {
    pub status: JobStatus,
    pub content: Vec<u8>,
    pub error: Vec<u8>,
    pub subject_key: Vec<u8>,
}

/// A snapshot of the job state handed to polling callers.
#[derive(Clone, Debug)]
pub struct DiaryState {
    pub is_generating: bool,
    pub content: String,
    pub error: String,
    pub date: String,
}

/// The message reported when credentials are missing.
pub open spec fn config_error_msg() -> Seq<u8> {
    // "API key is not configured"
    seq![
        65u8, 80u8, 73u8, 32u8, 107u8, 101u8, 121u8, 32u8, 105u8, 115u8, 32u8, 110u8, 111u8,
        116u8, 32u8, 99u8, 111u8, 110u8, 102u8, 105u8, 103u8, 117u8, 114u8, 101u8, 100u8,
    ]
}

fn config_error_vec() -> (r: Vec<u8>)
    ensures
        r@ == config_error_msg(),
{
    let mut v: Vec<u8> = Vec::new();
    v.push(65);
    v.push(80);
    v.push(73);
    v.push(32);
    v.push(107);
    v.push(101);
    v.push(121);
    v.push(32);
    v.push(105);
    v.push(115);
    v.push(32);
    v.push(110);
    v.push(111);
    v.push(116);
    v.push(32);
    v.push(99);
    v.push(111);
    v.push(110);
    v.push(102);
    v.push(105);
    v.push(103);
    v.push(117);
    v.push(114);
    v.push(101);
    v.push(100);
    assert(v@ =~= config_error_msg());
    v
}

/// The line introducing the activity data in the prompt.
/// "Activity log for today:"
pub open spec fn prompt_header() -> Seq<u8> {
    seq![
        65u8, 99u8, 116u8, 105u8, 118u8, 105u8, 116u8, 121u8, 32u8, 108u8, 111u8, 103u8, 32u8,
        102u8, 111u8, 114u8, 32u8, 116u8, 111u8, 100u8, 97u8, 121u8, 58u8,
    ]
}

/// The user message sent for a generation job: the caller's prompt, a
/// blank line, the header line, and the activity data.
pub open spec fn full_prompt(prompt: Seq<u8>, activities: Seq<u8>) -> Seq<u8> {
    prompt + seq![LF, LF] + prompt_header() + seq![LF] + activities
}

/// Build the user message for a generation job.
pub fn build_full_prompt(prompt: &[u8], activities: &[u8]) -> (r: Vec<u8>)
    ensures
        r@ == full_prompt(prompt@, activities@),
{
    let mut out: Vec<u8> = Vec::new();
    crate::sse::append_bytes(&mut out, prompt);
    out.push(LF);
    out.push(LF);
    out.push(65);
    out.push(99);
    out.push(116);
    out.push(105);
    out.push(118);
    out.push(105);
    out.push(116);
    out.push(121);
    out.push(32);
    out.push(108);
    out.push(111);
    out.push(103);
    out.push(32);
    out.push(102);
    out.push(111);
    out.push(114);
    out.push(32);
    out.push(116);
    out.push(111);
    out.push(100);
    out.push(97);
    out.push(121);
    out.push(58);
    out.push(LF);
    crate::sse::append_bytes(&mut out, activities);
    proof {
        assert(out@ =~= full_prompt(prompt@, activities@));
    }
    out
}

/// Why a `start` call was rejected.
#[derive(Clone, Copy, PartialEq, Eq, Structural, Debug)]
pub enum StartError {
    /// A job is already running; the existing job is untouched.
    AlreadyRunning,
    /// The credentials are empty; the job record is set to `Failed` with a
    /// configuration message and no request is produced.
    MissingApiKey,
}

/// The single-flight generation coordinator.
pub struct GenerationCoordinator {
    pub running: bool,
    pub job: GenerationJob,
    pub decoder: StreamDecoder,
}

impl GenerationCoordinator {
    /// The running flag tracks the job status, the stream decoder is
    /// well-formed, and while a job runs its content mirrors the decoder's
    /// accumulated content.
    pub open spec fn wf(&self) -> bool {
        &&& self.running == (self.job.status is Running)
        &&& self.decoder.wf()
        &&& (self.job.status is Running ==> self.job.content@ == self.decoder.content_bytes())
    }

    pub fn new() -> (r: GenerationCoordinator)
        ensures
            r.wf(),
            !r.running,
            r.job.status is Idle,
            r.job.content@ == Seq::<u8>::empty(),
            r.job.error@ == Seq::<u8>::empty(),
    {
        GenerationCoordinator {
            running: false,
            job: GenerationJob {
                status: JobStatus::Idle,
                content: Vec::new(),
                error: Vec::new(),
                subject_key: Vec::new(),
            },
            decoder: StreamDecoder::new(),
        }
    }

    /// Whether a job is currently running. Never blocks.
    pub fn is_diary_generating(&self) -> (r: bool)
        ensures
            r == self.running,
    {
        self.running
    }

    /// A full copy of the current job state. Never hands out a live
    /// reference.
    pub fn get_diary_state(&self) -> (r: DiaryState)
        ensures
            r.is_generating == self.running,
            r.content@ == lossy_of(self.job.content@),
            r.error@ == lossy_of(self.job.error@),
            r.date@ == lossy_of(self.job.subject_key@),
    {
        DiaryState {
            is_generating: self.running,
            content: utf8_lossy(self.job.content.as_slice()),
            error: utf8_lossy(self.job.error.as_slice()),
            date: utf8_lossy(self.job.subject_key.as_slice()),
        }
    }

    /// Accept a generation job, single-flight.
    ///
    /// While a job is running every call fails with `AlreadyRunning` and
    /// leaves the state untouched. With empty credentials the job record
    /// is set to `Failed` with a configuration message and no request body
    /// is produced, so no network call can be made. Otherwise the job is
    /// reset to `Running` with the day's subject key and the streaming
    /// request body is returned for the shell to send.
    pub fn start(&mut self, api_key: &[u8], model: &[u8], activities_json: &[u8], prompt: &[u8]) -> (
        r: Result<Vec<u8>, StartError>)
        requires
            old(self).wf(),
        ensures
            final(self).wf(),
            old(self).running ==> (r matches Err(e) && e == StartError::AlreadyRunning
                && *final(self) == *old(self)),
            !old(self).running && api_key@.len() == 0 ==> (r matches Err(e)
                && e == StartError::MissingApiKey && !final(self).running
                && final(self).job.status is Failed
                && final(self).job.error@ == config_error_msg()
                && final(self).job.content@ == Seq::<u8>::empty()),
            !old(self).running && api_key@.len() > 0 ==> (r matches Ok(body)
                && body@ == chat_request_bytes(
                    model@,
                    seq![(user_role(), full_prompt(prompt@, activities_json@))],
                    true,
                )
                && final(self).running && final(self).job.status is Running
                && final(self).job.content@ == Seq::<u8>::empty()
                && final(self).job.error@ == Seq::<u8>::empty()
                && final(self).job.subject_key@.len() >= 10
                && final(self).decoder.fed_bytes() == Seq::<u8>::empty()),
    {
        if self.running {
            return Err(StartError::AlreadyRunning);
        }
        if api_key.len() == 0 {
            self.job = GenerationJob {
                status: JobStatus::Failed,
                content: Vec::new(),
                error: config_error_vec(),
                subject_key: today_key(),
            };
            self.running = false;
            return Err(StartError::MissingApiKey);
        }
        self.job = GenerationJob {
            status: JobStatus::Running,
            content: Vec::new(),
            error: Vec::new(),
            subject_key: today_key(),
        };
        self.decoder = StreamDecoder::new();
        self.running = true;
        let fp = build_full_prompt(prompt, activities_json);
        let mut msgs: Vec<ChatMessage> = Vec::new();
        msgs.push(ChatMessage { role: user_role_vec(), content: fp });
        proof {
            assert(msgs_view(msgs@) =~= seq![
                (user_role(), full_prompt(prompt@, activities_json@)),
            ]);
        }
        let body = encode_chat_request(model, &msgs, true);
        Ok(body)
    }

    /// Feed one chunk of the streamed response to the running job: the
    /// job's content grows by exactly the concatenation of the returned
    /// delta payloads, which the shell pushes as chunk events in order.
    pub fn on_chunk(&mut self, chunk: &[u8]) -> (deltas: Vec<Vec<u8>>)
        requires
            old(self).wf(),
            old(self).running,
        ensures
            final(self).wf(),
            final(self).running,
            final(self).job.status == old(self).job.status,
            final(self).job.error@ == old(self).job.error@,
            final(self).job.subject_key@ == old(self).job.subject_key@,
            final(self).decoder.fed_bytes() == old(self).decoder.fed_bytes() + chunk@,
            final(self).decoder.emitted() == old(self).decoder.emitted() + vecs_view(deltas@),
            final(self).job.content@ == old(self).job.content@ + concat_of(vecs_view(deltas@)),
    {
        let ds = self.decoder.feed(chunk);
        self.job.content = self.decoder.content();
        ds
    }

    /// Settle the running job as succeeded; returns the final content,
    /// which the shell persists and pushes as the completion event. The
    /// final content is exactly the concatenation of every delta payload
    /// emitted during the run.
    pub fn on_stream_complete(&mut self) -> (content: Vec<u8>)
        requires
            old(self).wf(),
            old(self).running,
        ensures
            final(self).wf(),
            !final(self).running,
            final(self).job.status is Succeeded,
            content@ == old(self).job.content@,
            final(self).job.content@ == old(self).job.content@,
            content@ == concat_of(old(self).decoder.emitted()),
    {
        self.running = false;
        self.job.status = JobStatus::Succeeded;
        let content = self.job.content.clone();
        assert(content@ =~= self.job.content@);
        content
    }

    /// Settle the running job as failed with the given message, which the
    /// shell pushes as the error event.
    pub fn on_stream_error(&mut self, msg: &[u8])
        requires
            old(self).wf(),
            old(self).running,
        ensures
            final(self).wf(),
            !final(self).running,
            final(self).job.status is Failed,
            final(self).job.error@ == msg@,
            final(self).job.content@ == old(self).job.content@,
    {
        self.running = false;
        self.job.status = JobStatus::Failed;
        self.job.error = slice_owned(msg);
    }
}

} // verus!
