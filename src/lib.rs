pub mod capture;
pub mod frame_queue;
pub mod multipart_form;
pub mod upload;

pub use capture::{next_capture_step, store_capture, CaptureReport, CaptureStep};
pub use frame_queue::{EnqueueOutcome, FrameQueue, DEFAULT_CAPACITY};
pub use multipart_form::{MultiPartForm, FORM_BOUNDARY, FORM_CONTENT_TYPE};
pub use upload::{UploadAction, UploadAttempt, UPLOAD_BACKOFF_MS, UPLOAD_FIELD};
