use esp32cam::{MultiPartForm, UploadAction, UploadAttempt, UPLOAD_BACKOFF_MS, UPLOAD_FIELD};

/// Drives one attempt against a transport that fails `failures` times, then succeeds.
fn deliver(attempt: &mut UploadAttempt, failures: u64) -> (Vec<Vec<u8>>, Vec<u32>, usize) {
    let mut submitted = Vec::new();
    let mut sleeps = Vec::new();
    let mut successes = 0;
    while !attempt.is_delivered() {
        submitted.push(attempt.body().clone());
        let ok = submitted.len() as u64 > failures;
        match attempt.record_result(ok) {
            UploadAction::RetryAfter(ms) => sleeps.push(ms),
            UploadAction::Done => successes += 1,
        }
    }
    (submitted, sleeps, successes)
}

#[test]
fn retries_same_body_until_transport_succeeds() {
    let mut form = MultiPartForm::new();
    let mut attempt = UploadAttempt::encode(&mut form, &[1, 2, 3]);
    let body = attempt.body().clone();
    let (submitted, sleeps, successes) = deliver(&mut attempt, 3);
    assert_eq!(submitted.len(), 4);
    assert!(submitted.iter().all(|b| *b == body));
    assert_eq!(sleeps, vec![5000, 5000, 5000]);
    assert!(sleeps.iter().all(|ms| *ms >= UPLOAD_BACKOFF_MS));
    assert_eq!(successes, 1);
    assert_eq!(attempt.attempts(), 4);
}

#[test]
fn first_success_needs_one_submission() {
    let mut form = MultiPartForm::new();
    let mut attempt = UploadAttempt::encode(&mut form, b"jpeg");
    let (submitted, sleeps, successes) = deliver(&mut attempt, 0);
    assert_eq!(submitted.len(), 1);
    assert!(sleeps.is_empty());
    assert_eq!(successes, 1);
}

#[test]
fn encoded_body_is_one_file_part() {
    assert_eq!(UPLOAD_FIELD, "file");
    let mut form = MultiPartForm::new();
    let attempt = UploadAttempt::encode(&mut form, b"JPEG");
    let expected = b"------WebKitFormBoundary7MA4YWxkTrZu0gW\r\n\
Content-Disposition: form-data; name=\"file\"; filename=\"teste.jpg\"\r\n\
Content-Type: image/jpeg\r\n\r\n\
JPEG\r\n------WebKitFormBoundary7MA4YWxkTrZu0gW--\r\n";
    assert_eq!(attempt.body().as_slice(), &expected[..]);
    assert_eq!(attempt.attempts(), 0);
    assert!(!attempt.is_delivered());
    let next = UploadAttempt::encode(&mut form, b"PNG");
    assert!(next.body().windows(3).any(|w| w == b"PNG"));
    assert!(!next.body().windows(4).any(|w| w == b"JPEG"));
}
