//! The per-file job and its pipeline state machine. A job moves strictly
//! Pending -> Uploading -> Processing -> Downloading -> Completed, with
//! Failed reachable from every non-terminal state; the coarse progress
//! markers of the phases are 10, 50, 80 and 100 percent. The driver decides
//! each transition from the outcome of the preceding remote call; the calls
//! themselves are performed by the caller between steps.

use crate::api::ApiError;
use crate::api::JobStatusData;
use vstd::prelude::*;
use vstd::string::StrSliceExecFns;
use vstd::string::StringExecFns;

verus! {

/// Lifecycle status of one local job.
#[derive(Debug, Clone, PartialEq, Eq, Structural)]
pub enum JobStatus {
    Pending,
    Uploading,
    Processing,
    Downloading,
    Completed,
    Failed,
}

/// One local processing request: a file being driven through the remote
/// pipeline.
#[derive(Debug, Clone, PartialEq)]
pub struct Job {
    pub id: String,
    pub tool_id: String,
    pub input_file: String,
    pub output_file: Option<String>,
    pub status: JobStatus,
    pub progress: Option<u8>,
    pub error: Option<String>,
    pub created_at: u64,
    pub completed_at: Option<u64>,
}

/// Relies on `uuid::Uuid::new_v4` and its `Display` form: a fresh random
/// identifier, rendered in the hyphenated format of 36 characters.
#[verifier::external_body]
fn new_uuid_string() -> (r: String)
    ensures
        r@.len() == 36,
{
    uuid::Uuid::new_v4().to_string()
}

/// Relies on `std::time::SystemTime::now`: the Unix clock in whole seconds.
/// Nothing is assumed of the value.
#[verifier::external_body]
fn now_unix_secs() -> u64 {
    std::time::SystemTime::now().duration_since(std::time::UNIX_EPOCH).map(
        |d| d.as_secs(),
    ).unwrap_or(0)
}

/// `j1` is `j0` having entered the uploading phase.
pub open spec fn uploading_from(j0: Job, j1: Job) -> bool {
    j1 == (Job { status: JobStatus::Uploading, progress: Some(10u8), ..j0 })
}

/// `j1` is `j0` having entered the remote-processing phase.
pub open spec fn processing_from(j0: Job, j1: Job) -> bool {
    j1 == (Job { status: JobStatus::Processing, progress: Some(50u8), ..j0 })
}

/// `j1` is `j0` having entered the downloading phase.
pub open spec fn downloading_from(j0: Job, j1: Job) -> bool {
    j1 == (Job { status: JobStatus::Downloading, progress: Some(80u8), ..j0 })
}

/// `j1` is `j0` completed with the output file `out`; the completion time is
/// whatever the clock gave.
pub open spec fn completed_from(j0: Job, j1: Job, out: Seq<char>) -> bool {
    &&& j1.status == JobStatus::Completed
    &&& j1.progress == Some(100u8)
    &&& j1.output_file matches Some(o) && o@ == out
    &&& j1.completed_at is Some
    &&& j1.id == j0.id
    &&& j1.tool_id == j0.tool_id
    &&& j1.input_file == j0.input_file
    &&& j1.error == j0.error
    &&& j1.created_at == j0.created_at
}

/// `j1` is `j0` failed with the message `msg`; the completion time is
/// whatever the clock gave.
pub open spec fn failed_from(j0: Job, j1: Job, msg: Seq<char>) -> bool {
    &&& j1.status == JobStatus::Failed
    &&& j1.error matches Some(e) && e@ == msg
    &&& j1.completed_at is Some
    &&& j1.progress == j0.progress
    &&& j1.output_file == j0.output_file
    &&& j1.id == j0.id
    &&& j1.tool_id == j0.tool_id
    &&& j1.input_file == j0.input_file
    &&& j1.created_at == j0.created_at
}

impl Job {
    /// A fresh job for one input file, not yet started.
    pub fn new(tool_id: &str, input_file: &str) -> (r: Job)
        ensures
            r.id@.len() == 36,
            r.tool_id@ == tool_id@,
            r.input_file@ == input_file@,
            r.output_file is None,
            r.status == JobStatus::Pending,
            r.progress is None,
            r.error is None,
            r.completed_at is None,
    {
        Job {
            id: new_uuid_string(),
            tool_id: String::from_str(tool_id),
            input_file: String::from_str(input_file),
            output_file: None,
            status: JobStatus::Pending,
            progress: None,
            error: None,
            created_at: now_unix_secs(),
            completed_at: None,
        }
    }

    /// Enter the uploading phase: 10 percent.
    pub fn set_uploading(&mut self)
        ensures
            uploading_from(*old(self), *final(self)),
    {
        self.status = JobStatus::Uploading;
        self.progress = Some(10);
    }

    /// Enter the remote-processing phase: 50 percent.
    pub fn set_processing(&mut self)
        ensures
            processing_from(*old(self), *final(self)),
    {
        self.status = JobStatus::Processing;
        self.progress = Some(50);
    }

    /// Enter the downloading phase: 80 percent.
    pub fn set_downloading(&mut self)
        ensures
            downloading_from(*old(self), *final(self)),
    {
        self.status = JobStatus::Downloading;
        self.progress = Some(80);
    }

    /// Complete the job with its output file: 100 percent, stamped with the
    /// completion time.
    pub fn set_completed(&mut self, output_file: &str)
        ensures
            completed_from(*old(self), *final(self), output_file@),
    {
        self.status = JobStatus::Completed;
        self.progress = Some(100);
        self.output_file = Some(String::from_str(output_file));
        self.completed_at = Some(now_unix_secs());
    }

    /// Fail the job with an error message, stamped with the completion time.
    pub fn set_failed(&mut self, error: &str)
        ensures
            failed_from(*old(self), *final(self), error@),
    {
        self.status = JobStatus::Failed;
        self.error = Some(String::from_str(error));
        self.completed_at = Some(now_unix_secs());
    }
}

/// The outcome of the remote call the caller last performed for a job.
#[derive(Debug)]
pub enum PipelineEvent {
    /// The job is about to start; no call was made yet.
    Start,
    /// The upload call finished, successfully carrying the job handle.
    UploadFinished(Result<String, ApiError>),
    /// The poll loop finished.
    PollFinished(Result<JobStatusData, ApiError>),
    /// The download call finished.
    DownloadFinished(Result<(), ApiError>),
}

/// What the caller must do next for a job.
#[derive(Debug, PartialEq)]
pub enum PipelineAction {
    /// Upload the input file and report the outcome.
    Upload,
    /// Poll the job handle until it settles and report the outcome.
    Poll(String),
    /// Download the result for the job handle and report the outcome.
    Download(String),
    /// The job completed; archive the original input file.
    Archive,
    /// The job failed; nothing further to do.
    Stop,
}

/// One run of the pipeline for one file: the job record, the server-assigned
/// handle once the upload succeeded, and the computed output path.
#[derive(Debug)]
pub struct PipelineRun {
    pub job: Job,
    pub handle: Option<String>,
    pub output_file: String,
}

impl PipelineRun {
    /// The job is in the phase that awaits this event.
    pub open spec fn accepts_event(&self, event: PipelineEvent) -> bool {
        match event {
            PipelineEvent::Start => self.job.status == JobStatus::Pending,
            PipelineEvent::UploadFinished(_) => self.job.status == JobStatus::Uploading,
            PipelineEvent::PollFinished(_) => self.job.status == JobStatus::Processing
                && self.handle is Some,
            PipelineEvent::DownloadFinished(_) => self.job.status == JobStatus::Downloading
                && self.handle is Some,
        }
    }

    /// A new run for one ready file, with its job in the pending state.
    pub fn new(tool_id: &str, input_file: &str, output_file: &str) -> (r: PipelineRun)
        ensures
            r.job.status == JobStatus::Pending,
            r.job.tool_id@ == tool_id@,
            r.job.input_file@ == input_file@,
            r.handle is None,
            r.output_file@ == output_file@,
    {
        PipelineRun {
            job: Job::new(tool_id, input_file),
            handle: None,
            output_file: String::from_str(output_file),
        }
    }

    /// Advance the state machine by one step: record the outcome of the last
    /// remote call on the job and name the next call to make. A successful
    /// chain of events walks the job through uploading (10), processing
    /// (50), downloading (80) and completion (100); any failed outcome moves
    /// the job to Failed with the error's message.
    pub fn advance(&mut self, event: PipelineEvent) -> (action: PipelineAction)
        requires
            old(self).accepts_event(event),
        ensures
            final(self).output_file == old(self).output_file,
            event matches PipelineEvent::Start ==> {
                &&& uploading_from(old(self).job, final(self).job)
                &&& final(self).handle == old(self).handle
                &&& action == PipelineAction::Upload
            },
            event matches PipelineEvent::UploadFinished(Ok(h)) ==> {
                &&& processing_from(old(self).job, final(self).job)
                &&& final(self).handle matches Some(hh) && hh@ == h@
                &&& action matches PipelineAction::Poll(p) && p@ == h@
            },
            event matches PipelineEvent::UploadFinished(Err(e)) ==> {
                &&& failed_from(old(self).job, final(self).job, crate::api::api_error_message(e))
                &&& action == PipelineAction::Stop
            },
            event matches PipelineEvent::PollFinished(Ok(d)) ==> {
                &&& downloading_from(old(self).job, final(self).job)
                &&& final(self).handle == old(self).handle
                &&& action matches PipelineAction::Download(h) && Some(h)
                    == old(self).handle
            },
            event matches PipelineEvent::PollFinished(Err(e)) ==> {
                &&& failed_from(old(self).job, final(self).job, crate::api::api_error_message(e))
                &&& action == PipelineAction::Stop
            },
            event matches PipelineEvent::DownloadFinished(Ok(u)) ==> {
                &&& completed_from(old(self).job, final(self).job, old(self).output_file@)
                &&& final(self).handle == old(self).handle
                &&& action == PipelineAction::Archive
            },
            event matches PipelineEvent::DownloadFinished(Err(e)) ==> {
                &&& failed_from(old(self).job, final(self).job, crate::api::api_error_message(e))
                &&& action == PipelineAction::Stop
            },
    {
        match event {
            PipelineEvent::Start => {
                self.job.set_uploading();
                PipelineAction::Upload
            },
            PipelineEvent::UploadFinished(outcome) => match outcome {
                Ok(h) => {
                    self.job.set_processing();
                    let h2 = h.clone();
                    self.handle = Some(h);
                    PipelineAction::Poll(h2)
                },
                Err(e) => {
                    let msg = e.message();
                    self.job.set_failed(msg.as_str());
                    PipelineAction::Stop
                },
            },
            PipelineEvent::PollFinished(outcome) => match outcome {
                Ok(_data) => {
                    self.job.set_downloading();
                    let h = match &self.handle {
                        Some(h) => h.clone(),
                        None => String::new(),
                    };
                    PipelineAction::Download(h)
                },
                Err(e) => {
                    let msg = e.message();
                    self.job.set_failed(msg.as_str());
                    PipelineAction::Stop
                },
            },
            PipelineEvent::DownloadFinished(outcome) => match outcome {
                Ok(_) => {
                    let out = self.output_file.clone();
                    self.job.set_completed(out.as_str());
                    PipelineAction::Archive
                },
                Err(e) => {
                    let msg = e.message();
                    self.job.set_failed(msg.as_str());
                    PipelineAction::Stop
                },
            },
        }
    }
}

/// The pipeline visits its phases in a strict order with strictly rising
/// progress: a job walked through the four successful transitions shows
/// Uploading, Processing, Downloading, Completed, and the progress values
/// observed are exactly 10, 50, 80 and 100, in that order.
pub proof fn lemma_pipeline_progression(j0: Job, j1: Job, j2: Job, j3: Job, j4: Job, out: Seq<char>)
    requires
        j0.status == JobStatus::Pending,
        uploading_from(j0, j1),
        processing_from(j1, j2),
        downloading_from(j2, j3),
        completed_from(j3, j4, out),
    ensures
        j1.status == JobStatus::Uploading && j1.progress == Some(10u8),
        j2.status == JobStatus::Processing && j2.progress == Some(50u8),
        j3.status == JobStatus::Downloading && j3.progress == Some(80u8),
        j4.status == JobStatus::Completed && j4.progress == Some(100u8),
        j0.status != j1.status && j1.status != j2.status && j2.status != j3.status && j3.status
            != j4.status,
{
}

} // verus!
