//! Interpretation of the remote processing service's answers: classifying
//! HTTP statuses and response payloads into the pipeline's error taxonomy,
//! normalizing the server's free-text job status, and the bounded poll loop.
//! The HTTP transport itself lives outside this crate; every function here
//! is a total decision on already-received values.

use crate::text;
use vstd::prelude::*;
use vstd::string::StrSliceExecFns;
use vstd::string::StringExecFns;

verus! {

/// Poll cadence of the job-status loop, in milliseconds.
pub const POLL_INTERVAL_MS: u64 = 2000;

/// Upper bound on poll attempts for one job (a ten-minute ceiling).
pub const MAX_POLL_ATTEMPTS: u32 = 300;

/// Everything that can go wrong while driving one file through the remote
/// pipeline.
#[derive(Debug, Clone, PartialEq)]
pub enum ApiError {
    /// Transport-level failure, with the transport's message.
    Network(String),
    /// Local read or write failure, with the OS message.
    Io(String),
    /// The server reported that processing of the job failed.
    JobFailed(String),
    /// The poll loop exceeded its attempt ceiling.
    Timeout,
    /// Malformed or unsuccessful server response.
    ServerError(String),
    /// Missing or expired credentials.
    Unauthorized,
    /// The account's job quota is exhausted.
    JobLimitExceeded,
    /// The file exceeds the plan's size limit, in megabytes.
    FileTooLarge(i32),
}

/// The human-readable message of each pipeline error.
pub open spec fn api_error_message(e: ApiError) -> Seq<char> {
    match e {
        ApiError::Network(m) => "Network error: "@ + m@,
        ApiError::Io(m) => "IO error: "@ + m@,
        ApiError::JobFailed(m) => "Job failed: "@ + m@,
        ApiError::Timeout => "Job timeout"@,
        ApiError::ServerError(m) => "Server error: "@ + m@,
        ApiError::Unauthorized => "Unauthorized - please login again"@,
        ApiError::JobLimitExceeded => "Monthly job limit exceeded"@,
        ApiError::FileTooLarge(mb) => "File too large for your plan (max "@ + text::int_str(
            mb as int,
        ) + " MB)"@,
    }
}

impl ApiError {
    /// Render the error as its message text.
    pub fn message(&self) -> (r: String)
        ensures
            r@ == api_error_message(*self),
    {
        match self {
            ApiError::Network(m) => {
                let mut s = String::from_str("Network error: ");
                s.append(m.as_str());
                s
            },
            ApiError::Io(m) => {
                let mut s = String::from_str("IO error: ");
                s.append(m.as_str());
                s
            },
            ApiError::JobFailed(m) => {
                let mut s = String::from_str("Job failed: ");
                s.append(m.as_str());
                s
            },
            ApiError::Timeout => String::from_str("Job timeout"),
            ApiError::ServerError(m) => {
                let mut s = String::from_str("Server error: ");
                s.append(m.as_str());
                s
            },
            ApiError::Unauthorized => String::from_str("Unauthorized - please login again"),
            ApiError::JobLimitExceeded => String::from_str("Monthly job limit exceeded"),
            ApiError::FileTooLarge(mb) => {
                let mut s = String::from_str("File too large for your plan (max ");
                let digits = text::i32_to_string(*mb);
                s.append(digits.as_str());
                s.append(" MB)");
                s
            },
        }
    }
}

/// Body of a successful upload answer.
#[derive(Debug, Clone, PartialEq)]
pub struct UploadData {
    pub job_uuid: String,
    pub status: String,
}

/// Answer of the upload endpoint.
#[derive(Debug, Clone, PartialEq)]
pub struct UploadResponse {
    pub success: bool,
    pub message: Option<String>,
    pub data: Option<UploadData>,
    pub error: Option<String>,
}

/// Answer of the usage-status endpoint.
#[derive(Debug, Clone, PartialEq)]
pub struct UsageStatusResponse {
    pub success: bool,
    pub data: Option<UsageStatusData>,
    pub message: Option<String>,
}

/// Plan and quota numbers of the current account.
#[derive(Debug, Clone, PartialEq)]
pub struct UsageStatusData {
    pub plan: String,
    pub limit: i32,
    pub used: i32,
    pub is_unlimited: bool,
    pub is_authenticated: bool,
    pub batch_upload: bool,
    pub max_file_size_mb: Option<i32>,
}

/// Answer of the job-status endpoint.
#[derive(Debug, PartialEq)]
pub struct JobStatusResponse {
    pub success: bool,
    pub message: Option<String>,
    pub data: Option<JobStatusData>,
    pub error: Option<String>,
}

/// Body of a job-status answer.
#[derive(Debug, PartialEq)]
pub struct JobStatusData {
    pub uuid: String,
    pub status: String,
    pub progress: Option<u8>,
    pub output_path: Option<String>,
    pub output_filename: Option<String>,
    pub error: Option<String>,
}

/// The server's free-text job status, normalized to a closed set of cases
/// with a catch-all carrying the raw text.
#[derive(Debug, Clone, PartialEq)]
pub enum JobStatus {
    Queued,
    Processing,
    Completed,
    Failed,
    Unknown(String),
}

/// The status text reports a queued job.
pub open spec fn status_is_queued(s: Seq<char>) -> bool {
    text::seq_eq_ignore_case(s, "queued"@)
}

/// The status text reports a job still being processed.
pub open spec fn status_is_processing(s: Seq<char>) -> bool {
    text::seq_eq_ignore_case(s, "processing"@)
}

/// The status text reports a finished job.
pub open spec fn status_is_completed(s: Seq<char>) -> bool {
    text::seq_eq_ignore_case(s, "completed"@) || text::seq_eq_ignore_case(s, "done"@)
}

/// The status text reports a failed job.
pub open spec fn status_is_failed(s: Seq<char>) -> bool {
    text::seq_eq_ignore_case(s, "failed"@) || text::seq_eq_ignore_case(s, "error"@)
}

impl JobStatus {
    /// Normalize the server's textual status, case-insensitively; any
    /// unrecognized text is kept raw in the catch-all case.
    pub fn from_text(s: &str) -> (r: JobStatus)
        ensures
            status_is_queued(s@) ==> r == JobStatus::Queued,
            status_is_processing(s@) ==> r == JobStatus::Processing,
            status_is_completed(s@) ==> r == JobStatus::Completed,
            status_is_failed(s@) ==> r == JobStatus::Failed,
            !(status_is_queued(s@) || status_is_processing(s@) || status_is_completed(s@)
                || status_is_failed(s@)) ==> (r matches JobStatus::Unknown(t) && t@ == s@),
    {
        proof {
            reveal_strlit("queued");
            reveal_strlit("processing");
            reveal_strlit("completed");
            reveal_strlit("done");
            reveal_strlit("failed");
            reveal_strlit("error");
            assert(!(text::seq_eq_ignore_case(s@, "queued"@) && text::seq_eq_ignore_case(
                s@,
                "failed"@,
            ))) by {
                if text::seq_eq_ignore_case(s@, "queued"@) && text::seq_eq_ignore_case(
                    s@,
                    "failed"@,
                ) {
                    assert(text::lower_code(s@[0]) == text::lower_code("queued"@[0]));
                    assert(text::lower_code(s@[0]) == text::lower_code("failed"@[0]));
                }
            }
        }
        if text::str_eq_ignore_case(s, "queued") {
            JobStatus::Queued
        } else if text::str_eq_ignore_case(s, "processing") {
            JobStatus::Processing
        } else if text::str_eq_ignore_case(s, "completed") || text::str_eq_ignore_case(s, "done") {
            JobStatus::Completed
        } else if text::str_eq_ignore_case(s, "failed") || text::str_eq_ignore_case(s, "error") {
            JobStatus::Failed
        } else {
            JobStatus::Unknown(String::from_str(s))
        }
    }
}

/// The HTTP status is in the success range.
pub open spec fn http_success(status: u16) -> bool {
    200 <= status < 300
}

/// The error-or-message text a response falls back through: the `error`
/// field if present, else the `message` field, else the given default.
pub open spec fn fallback_message(
    error: Option<String>,
    message: Option<String>,
    default: Seq<char>,
) -> Seq<char> {
    match error {
        Some(e) => e@,
        None => match message {
            Some(m) => m@,
            None => default,
        },
    }
}

/// Decide the outcome of an upload call from its HTTP status, its parsed
/// body (`None` when the body did not parse), and the raw body text.
///
/// Statuses 401, 429 and 413 map to their dedicated errors; any other
/// non-success status, an unparsable body, a `success:false` payload and a
/// missing job handle are server errors; otherwise the server-assigned job
/// handle is returned.
pub fn upload_outcome(status: u16, parsed: Option<UploadResponse>, body: &str) -> (r: Result<
    String,
    ApiError,
>)
    ensures
        status == 401 ==> r == Err::<String, ApiError>(ApiError::Unauthorized),
        status == 429 ==> r == Err::<String, ApiError>(ApiError::JobLimitExceeded),
        status == 413 ==> r == Err::<String, ApiError>(ApiError::FileTooLarge(100)),
        !http_success(status) && status != 401 && status != 429 && status != 413 ==> (r matches
            Err(e) && e matches ApiError::ServerError(m) && m@ == "Server returned "@ + text::dec_str(
            status as int,
        ) + ": "@ + body@),
        http_success(status) && parsed is None ==> (r matches Err(e) && e matches
            ApiError::ServerError(m) && m@ == "Failed to parse response: "@ + body@),
        http_success(status) && (parsed matches Some(u) && !u.success) ==> (r matches Err(e)
            && e matches ApiError::ServerError(m) && m@ == fallback_message(
            parsed->Some_0.error,
            parsed->Some_0.message,
            "Unknown error"@,
        )),
        http_success(status) && (parsed matches Some(u) && u.success && u.data is None) ==> (
        r matches Err(e) && e matches ApiError::ServerError(m) && m@
            == "No job UUID returned from server"@),
        http_success(status) && (parsed matches Some(u) && u.success && u.data is Some) ==> (
        r matches Ok(handle) && handle@ == parsed->Some_0.data->Some_0.job_uuid@),
{
    if status == 401 {
        return Err(ApiError::Unauthorized);
    }
    if status == 429 {
        return Err(ApiError::JobLimitExceeded);
    }
    if status == 413 {
        return Err(ApiError::FileTooLarge(100));
    }
    if !(200 <= status && status < 300) {
        let mut m = String::from_str("Server returned ");
        let digits = text::u64_to_string(status as u64);
        m.append(digits.as_str());
        m.append(": ");
        m.append(body);
        return Err(ApiError::ServerError(m));
    }
    match parsed {
        None => {
            let mut m = String::from_str("Failed to parse response: ");
            m.append(body);
            Err(ApiError::ServerError(m))
        },
        Some(u) => {
            if !u.success {
                let m = match u.error {
                    Some(e) => e,
                    None => match u.message {
                        Some(msg) => msg,
                        None => String::from_str("Unknown error"),
                    },
                };
                return Err(ApiError::ServerError(m));
            }
            match u.data {
                Some(d) => Ok(d.job_uuid),
                None => Err(ApiError::ServerError(String::from_str(
                    "No job UUID returned from server",
                ))),
            }
        },
    }
}

/// One observed answer of the job-status endpoint: HTTP status, parsed body
/// (`None` when the body did not parse), and the raw body text.
#[derive(Debug, PartialEq)]
pub struct PollResponse {
    pub status: u16,
    pub parsed: Option<JobStatusResponse>,
    pub body: String,
}

/// What one poll answer decides: keep waiting, or settle the job.
#[derive(Debug, PartialEq)]
pub enum PollStep {
    /// Not a decisive answer: sleep the poll interval and ask again.
    Continue,
    /// A decisive answer: the job's final outcome.
    Settled(Result<JobStatusData, ApiError>),
}

/// The poll answer is indecisive: the loop sleeps and retries on it. That is
/// any successfully parsed `success:true` answer whose payload is absent or
/// carries a non-terminal status.
pub open spec fn poll_waits(p: PollResponse) -> bool {
    &&& p.status != 401
    &&& p.parsed matches Some(jr)
    &&& jr.success
    &&& match jr.data {
        Some(d) => !(status_is_completed(d.status@) || status_is_failed(d.status@)),
        None => true,
    }
}

/// The outcome a decisive poll answer settles to: 401 means missing
/// credentials; an unparsable body is a server error; a `success:false`
/// payload is a server error unless its message speaks of an authorization
/// problem; a terminal status ends the job with its data or its failure
/// message.
pub open spec fn poll_settles_to(p: PollResponse, r: Result<JobStatusData, ApiError>) -> bool {
    if p.status == 401 {
        r == Err::<JobStatusData, ApiError>(ApiError::Unauthorized)
    } else {
        match p.parsed {
            None => r matches Err(e) && e matches ApiError::ServerError(m) && m@
                == "Failed to parse poll response: "@ + p.body@,
            Some(jr) => if !jr.success {
                let msg = fallback_message(jr.error, jr.message, Seq::empty());
                if text::seq_contains_ignore_case(msg, "unauthorized"@) {
                    r == Err::<JobStatusData, ApiError>(ApiError::Unauthorized)
                } else {
                    r matches Err(e) && e matches ApiError::ServerError(m) && m@ == msg
                }
            } else {
                match jr.data {
                    None => false,
                    Some(d) => if status_is_completed(d.status@) {
                        r == Ok::<JobStatusData, ApiError>(d)
                    } else if status_is_failed(d.status@) {
                        r matches Err(e) && e matches ApiError::JobFailed(m) && m@ == match d
                            .error {
                            Some(e2) => e2@,
                            None => "Unknown error"@,
                        }
                    } else {
                        false
                    },
                }
            },
        }
    }
}

/// Decide what one poll answer means for the loop.
pub fn poll_step(p: PollResponse) -> (r: PollStep)
    ensures
        poll_waits(p) <==> r == PollStep::Continue,
        !poll_waits(p) ==> (r matches PollStep::Settled(res) && poll_settles_to(p, res)),
{
    if p.status == 401 {
        return PollStep::Settled(Err(ApiError::Unauthorized));
    }
    match p.parsed {
        None => {
            let mut m = String::from_str("Failed to parse poll response: ");
            m.append(p.body.as_str());
            PollStep::Settled(Err(ApiError::ServerError(m)))
        },
        Some(jr) => {
            if !jr.success {
                let msg = match jr.error {
                    Some(e) => e,
                    None => match jr.message {
                        Some(m2) => m2,
                        None => String::new(),
                    },
                };
                if text::str_contains_ignore_case(msg.as_str(), "unauthorized") {
                    return PollStep::Settled(Err(ApiError::Unauthorized));
                }
                return PollStep::Settled(Err(ApiError::ServerError(msg)));
            }
            match jr.data {
                None => PollStep::Continue,
                Some(d) => {
                    match JobStatus::from_text(d.status.as_str()) {
                        JobStatus::Completed => PollStep::Settled(Ok(d)),
                        JobStatus::Failed => {
                            let m = match d.error {
                                Some(e) => e,
                                None => String::from_str("Unknown error"),
                            };
                            PollStep::Settled(Err(ApiError::JobFailed(m)))
                        },
                        _ => PollStep::Continue,
                    }
                },
            }
        },
    }
}

impl Clone for JobStatusData {
    fn clone(&self) -> (r: Self)
        ensures
            r == *self,
    {
        JobStatusData {
            uuid: self.uuid.clone(),
            status: self.status.clone(),
            progress: self.progress,
            output_path: clone_opt_string(&self.output_path),
            output_filename: clone_opt_string(&self.output_filename),
            error: clone_opt_string(&self.error),
        }
    }
}

impl Clone for JobStatusResponse {
    fn clone(&self) -> (r: Self)
        ensures
            r == *self,
    {
        JobStatusResponse {
            success: self.success,
            message: clone_opt_string(&self.message),
            data: match &self.data {
                Some(d) => Some(d.clone()),
                None => None,
            },
            error: clone_opt_string(&self.error),
        }
    }
}

impl Clone for PollResponse {
    fn clone(&self) -> (r: Self)
        ensures
            r == *self,
    {
        PollResponse {
            status: self.status,
            parsed: match &self.parsed {
                Some(jr) => Some(jr.clone()),
                None => None,
            },
            body: self.body.clone(),
        }
    }
}

/// An exact copy of an optional string.
pub fn clone_opt_string(o: &Option<String>) -> (r: Option<String>)
    ensures
        r == *o,
{
    match o {
        Some(s) => Some(s.clone()),
        None => None,
    }
}

/// Run the bounded poll loop over a sequence of observed answers, in order:
/// leading indecisive answers are waited through, the first decisive answer
/// settles the job, and the attempt ceiling — or the sequence ending with no
/// decisive answer — times the job out.
pub fn run_poll(responses: &Vec<PollResponse>) -> (r: Result<JobStatusData, ApiError>)
    ensures
        forall|k: int|
            0 <= k < responses@.len() && k < 300 && !poll_waits(#[trigger] responses@[k]) && (
            forall|j: int| 0 <= j < k ==> poll_waits(#[trigger] responses@[j])) ==> poll_settles_to(
                responses@[k],
                r,
            ),
        (forall|k: int|
            0 <= k < responses@.len() && k < 300 ==> poll_waits(#[trigger] responses@[k])) ==> r
            == Err::<JobStatusData, ApiError>(ApiError::Timeout),
{
    let mut i: usize = 0;
    while i < responses.len() && i < 300
        invariant
            i <= responses@.len(),
            i <= 300,
            forall|j: int| 0 <= j < i ==> poll_waits(#[trigger] responses@[j]),
        decreases responses@.len() - i,
    {
        let p = responses[i].clone();
        match poll_step(p) {
            PollStep::Continue => {
                i = i + 1;
            },
            PollStep::Settled(res) => {
                return res;
            },
        }
    }
    Err(ApiError::Timeout)
}

/// Decide the outcome of a download call from its HTTP status and the raw
/// body text: 401 means missing credentials, any other non-success status is
/// a server error, and a success status hands the payload bytes through
/// (written to disk by the caller).
pub fn download_outcome(status: u16, body: &str) -> (r: Result<(), ApiError>)
    ensures
        status == 401 ==> r == Err::<(), ApiError>(ApiError::Unauthorized),
        status != 401 && !http_success(status) ==> (r matches Err(e) && e matches
            ApiError::ServerError(m) && m@ == "Download failed: "@ + body@),
        status != 401 && http_success(status) ==> r is Ok,
{
    if status == 401 {
        return Err(ApiError::Unauthorized);
    }
    if !(200 <= status && status < 300) {
        let mut m = String::from_str("Download failed: ");
        m.append(body);
        return Err(ApiError::ServerError(m));
    }
    Ok(())
}

/// Decide the outcome of a usage-status call from its HTTP status and parsed
/// body (`None` when the body did not parse).
pub fn usage_outcome(status: u16, parsed: Option<UsageStatusResponse>, body: &str) -> (r: Result<
    UsageStatusData,
    ApiError,
>)
    ensures
        status == 401 ==> r == Err::<UsageStatusData, ApiError>(ApiError::Unauthorized),
        status != 401 && parsed is None ==> (r matches Err(e) && e matches ApiError::ServerError(m)
            && m@ == "Failed to parse usage response: "@ + body@),
        status != 401 && (parsed matches Some(u) && !u.success) ==> (r matches Err(e) && e matches
            ApiError::ServerError(m) && m@ == fallback_message(
            None,
            parsed->Some_0.message,
            "Unknown error"@,
        )),
        status != 401 && (parsed matches Some(u) && u.success && u.data is None) ==> (r matches
            Err(e) && e matches ApiError::ServerError(m) && m@ == "No usage data returned"@),
        status != 401 && (parsed matches Some(u) && u.success && u.data is Some) ==> r == Ok::<
            UsageStatusData,
            ApiError,
        >(parsed->Some_0.data->Some_0),
{
    if status == 401 {
        return Err(ApiError::Unauthorized);
    }
    match parsed {
        None => {
            let mut m = String::from_str("Failed to parse usage response: ");
            m.append(body);
            Err(ApiError::ServerError(m))
        },
        Some(u) => {
            if !u.success {
                let m = match u.message {
                    Some(msg) => msg,
                    None => String::from_str("Unknown error"),
                };
                return Err(ApiError::ServerError(m));
            }
            match u.data {
                Some(d) => Ok(d),
                None => Err(ApiError::ServerError(String::from_str("No usage data returned"))),
            }
        },
    }
}


} // verus!
