//! The job state machine and the poll loop on concrete scenarios.

use pdfdk_core::api::ApiError;
use pdfdk_core::api::JobStatus;
use pdfdk_core::api::JobStatusData;
use pdfdk_core::api::JobStatusResponse;
use pdfdk_core::api::PollResponse;
use pdfdk_core::api::PollStep;
use pdfdk_core::api::poll_step;
use pdfdk_core::api::run_poll;
use pdfdk_core::api::upload_outcome;
use pdfdk_core::api::download_outcome;
use pdfdk_core::api::usage_outcome;
use pdfdk_core::api::UploadData;
use pdfdk_core::api::UploadResponse;
use pdfdk_core::api::UsageStatusResponse;
use pdfdk_core::processor::Job;
use pdfdk_core::processor::JobStatus as LocalStatus;
use pdfdk_core::processor::PipelineAction;
use pdfdk_core::processor::PipelineEvent;
use pdfdk_core::processor::PipelineRun;

fn status_response(status: &str) -> PollResponse {
    PollResponse {
        status: 200,
        parsed: Some(JobStatusResponse {
            success: true,
            message: None,
            data: Some(JobStatusData {
                uuid: "j-1".to_string(),
                status: status.to_string(),
                progress: None,
                output_path: None,
                output_filename: None,
                error: None,
            }),
            error: None,
        }),
        body: String::new(),
    }
}

#[test]
fn pipeline_walks_all_phases_in_order_with_exact_progress() {
    let mut run = PipelineRun::new("compress", "/w/in.pdf", "/w/Processed/in_compress.pdf");
    assert_eq!(run.job.status, LocalStatus::Pending);
    assert_eq!(run.job.progress, None);

    let mut observed: Vec<u8> = Vec::new();

    let a1 = run.advance(PipelineEvent::Start);
    assert_eq!(a1, PipelineAction::Upload);
    assert_eq!(run.job.status, LocalStatus::Uploading);
    observed.push(run.job.progress.unwrap());

    let a2 = run.advance(PipelineEvent::UploadFinished(Ok("handle-9".to_string())));
    assert_eq!(a2, PipelineAction::Poll("handle-9".to_string()));
    assert_eq!(run.job.status, LocalStatus::Processing);
    observed.push(run.job.progress.unwrap());

    let data = match status_response("completed").parsed.unwrap().data {
        Some(d) => d,
        None => unreachable!(),
    };
    let a3 = run.advance(PipelineEvent::PollFinished(Ok(data)));
    assert_eq!(a3, PipelineAction::Download("handle-9".to_string()));
    assert_eq!(run.job.status, LocalStatus::Downloading);
    observed.push(run.job.progress.unwrap());

    let a4 = run.advance(PipelineEvent::DownloadFinished(Ok(())));
    assert_eq!(a4, PipelineAction::Archive);
    assert_eq!(run.job.status, LocalStatus::Completed);
    observed.push(run.job.progress.unwrap());

    assert_eq!(observed, vec![10, 50, 80, 100]);
    assert_eq!(run.job.output_file, Some("/w/Processed/in_compress.pdf".to_string()));
    assert!(run.job.completed_at.is_some());
}

#[test]
fn pipeline_upload_failure_moves_job_to_failed() {
    let mut run = PipelineRun::new("compress", "/w/in.pdf", "/w/out.pdf");
    run.advance(PipelineEvent::Start);
    let a = run.advance(PipelineEvent::UploadFinished(Err(ApiError::JobLimitExceeded)));
    assert_eq!(a, PipelineAction::Stop);
    assert_eq!(run.job.status, LocalStatus::Failed);
    assert_eq!(run.job.error, Some("Monthly job limit exceeded".to_string()));
}

#[test]
fn poll_sequence_resolves_after_four_polls() {
    let responses = vec![
        status_response("queued"),
        status_response("queued"),
        status_response("processing"),
        status_response("completed"),
    ];
    let r = run_poll(&responses);
    let data = r.expect("poll should resolve");
    assert_eq!(data.status, "completed");
}

#[test]
fn poll_stuck_in_processing_for_300_attempts_times_out() {
    let mut responses = Vec::new();
    for _ in 0..300 {
        responses.push(status_response("processing"));
    }
    let r = run_poll(&responses);
    assert_eq!(r, Err(ApiError::Timeout));
}

#[test]
fn poll_failed_status_reports_job_failure() {
    let mut resp = status_response("failed");
    if let Some(jr) = resp.parsed.as_mut() {
        if let Some(d) = jr.data.as_mut() {
            d.error = Some("bad input".to_string());
        }
    }
    match poll_step(resp) {
        PollStep::Settled(Err(ApiError::JobFailed(m))) => assert_eq!(m, "bad input"),
        other => panic!("unexpected step: {:?}", other),
    }
}

#[test]
fn poll_auth_failure_embedded_in_body_maps_to_unauthorized() {
    let resp = PollResponse {
        status: 200,
        parsed: Some(JobStatusResponse {
            success: false,
            message: Some("User UNAUTHORIZED for this job".to_string()),
            data: None,
            error: None,
        }),
        body: String::new(),
    };
    assert_eq!(poll_step(resp), PollStep::Settled(Err(ApiError::Unauthorized)));
}

#[test]
fn poll_unparsable_body_is_a_server_error() {
    let resp = PollResponse { status: 200, parsed: None, body: "<html>".to_string() };
    match poll_step(resp) {
        PollStep::Settled(Err(ApiError::ServerError(m))) => {
            assert_eq!(m, "Failed to parse poll response: <html>")
        },
        other => panic!("unexpected step: {:?}", other),
    }
}

#[test]
fn poll_unknown_status_keeps_waiting() {
    assert_eq!(poll_step(status_response("mystery")), PollStep::Continue);
    assert_eq!(poll_step(status_response("queued")), PollStep::Continue);
}

#[test]
fn upload_status_codes_map_to_their_errors() {
    assert_eq!(upload_outcome(413, None, ""), Err(ApiError::FileTooLarge(100)));
    assert_eq!(upload_outcome(429, None, ""), Err(ApiError::JobLimitExceeded));
    assert_eq!(upload_outcome(401, None, ""), Err(ApiError::Unauthorized));
}

#[test]
fn unauthorized_at_every_stage() {
    assert_eq!(upload_outcome(401, None, ""), Err(ApiError::Unauthorized));
    let resp = PollResponse { status: 401, parsed: None, body: String::new() };
    assert_eq!(poll_step(resp), PollStep::Settled(Err(ApiError::Unauthorized)));
    assert_eq!(download_outcome(401, ""), Err(ApiError::Unauthorized));
    match usage_outcome(401, None, "") {
        Err(ApiError::Unauthorized) => {},
        other => panic!("unexpected: {:?}", other),
    }
}

#[test]
fn upload_success_yields_the_job_handle() {
    let parsed = Some(UploadResponse {
        success: true,
        message: None,
        data: Some(UploadData { job_uuid: "J-42".to_string(), status: "queued".to_string() }),
        error: None,
    });
    assert_eq!(upload_outcome(200, parsed, "{}"), Ok("J-42".to_string()));
}

#[test]
fn upload_rejected_payload_carries_the_server_message() {
    let parsed = Some(UploadResponse {
        success: false,
        message: Some("fallback".to_string()),
        data: None,
        error: Some("quota check failed".to_string()),
    });
    assert_eq!(
        upload_outcome(200, parsed, "{}"),
        Err(ApiError::ServerError("quota check failed".to_string()))
    );
}

#[test]
fn upload_missing_handle_is_a_server_error() {
    let parsed = Some(UploadResponse { success: true, message: None, data: None, error: None });
    assert_eq!(
        upload_outcome(200, parsed, "{}"),
        Err(ApiError::ServerError("No job UUID returned from server".to_string()))
    );
}

#[test]
fn upload_other_failure_status_reports_status_and_body() {
    assert_eq!(
        upload_outcome(500, None, "boom"),
        Err(ApiError::ServerError("Server returned 500: boom".to_string()))
    );
}

#[test]
fn upload_unparsable_body_is_a_server_error() {
    assert_eq!(
        upload_outcome(200, None, "not json"),
        Err(ApiError::ServerError("Failed to parse response: not json".to_string()))
    );
}

#[test]
fn download_failure_and_success() {
    assert_eq!(
        download_outcome(500, "oops"),
        Err(ApiError::ServerError("Download failed: oops".to_string()))
    );
    assert_eq!(download_outcome(200, ""), Ok(()));
}

#[test]
fn usage_outcome_hands_the_data_through() {
    let parsed = Some(UsageStatusResponse {
        success: true,
        data: Some(pdfdk_core::api::UsageStatusData {
            plan: "pro".to_string(),
            limit: 500,
            used: 3,
            is_unlimited: false,
            is_authenticated: true,
            batch_upload: true,
            max_file_size_mb: Some(500),
        }),
        message: None,
    });
    let data = usage_outcome(200, parsed, "{}").expect("usage should parse");
    assert_eq!(data.plan, "pro");
    assert_eq!(data.limit, 500);
    assert_eq!(data.used, 3);
}

#[test]
fn job_status_normalization_is_case_insensitive_with_raw_catch_all() {
    assert_eq!(JobStatus::from_text("Queued"), JobStatus::Queued);
    assert_eq!(JobStatus::from_text("PROCESSING"), JobStatus::Processing);
    assert_eq!(JobStatus::from_text("completed"), JobStatus::Completed);
    assert_eq!(JobStatus::from_text("DONE"), JobStatus::Completed);
    assert_eq!(JobStatus::from_text("failed"), JobStatus::Failed);
    assert_eq!(JobStatus::from_text("Error"), JobStatus::Failed);
    assert_eq!(JobStatus::from_text("Mystery"), JobStatus::Unknown("Mystery".to_string()));
}

#[test]
fn error_messages_render_exactly() {
    assert_eq!(ApiError::Timeout.message(), "Job timeout");
    assert_eq!(ApiError::Unauthorized.message(), "Unauthorized - please login again");
    assert_eq!(ApiError::JobLimitExceeded.message(), "Monthly job limit exceeded");
    assert_eq!(
        ApiError::FileTooLarge(100).message(),
        "File too large for your plan (max 100 MB)"
    );
    assert_eq!(
        ApiError::FileTooLarge(-5).message(),
        "File too large for your plan (max -5 MB)"
    );
    assert_eq!(ApiError::JobFailed("x".to_string()).message(), "Job failed: x");
    assert_eq!(ApiError::ServerError("y".to_string()).message(), "Server error: y");
    assert_eq!(ApiError::Network("n".to_string()).message(), "Network error: n");
    assert_eq!(ApiError::Io("d".to_string()).message(), "IO error: d");
}

#[test]
fn fresh_jobs_start_pending_with_a_full_identifier() {
    let job = Job::new("compress", "/w/in.pdf");
    assert_eq!(job.status, LocalStatus::Pending);
    assert_eq!(job.tool_id, "compress");
    assert_eq!(job.input_file, "/w/in.pdf");
    assert_eq!(job.progress, None);
    assert_eq!(job.output_file, None);
    assert_eq!(job.error, None);
    assert_eq!(job.completed_at, None);
    assert_eq!(job.id.chars().count(), 36);
}

#[test]
fn job_setters_stamp_status_and_progress() {
    let mut job = Job::new("compress", "/w/in.pdf");
    job.set_uploading();
    assert_eq!((job.status.clone(), job.progress), (LocalStatus::Uploading, Some(10)));
    job.set_processing();
    assert_eq!((job.status.clone(), job.progress), (LocalStatus::Processing, Some(50)));
    job.set_downloading();
    assert_eq!((job.status.clone(), job.progress), (LocalStatus::Downloading, Some(80)));
    job.set_completed("/w/out.pdf");
    assert_eq!((job.status.clone(), job.progress), (LocalStatus::Completed, Some(100)));
    assert_eq!(job.output_file, Some("/w/out.pdf".to_string()));
    assert!(job.completed_at.is_some());

    let mut failing = Job::new("compress", "/w/in.pdf");
    failing.set_uploading();
    failing.set_failed("it broke");
    assert_eq!(failing.status, LocalStatus::Failed);
    assert_eq!(failing.error, Some("it broke".to_string()));
    assert!(failing.completed_at.is_some());
}
