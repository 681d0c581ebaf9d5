use esp32cam::{MultiPartForm, FORM_BOUNDARY, FORM_CONTENT_TYPE};

fn find(hay: &[u8], needle: &[u8], from: usize) -> Option<usize> {
    (from..hay.len().saturating_sub(needle.len() - 1)).find(|&i| &hay[i..i + needle.len()] == needle)
}

/// A small multipart/form-data reader: every part with its name and content.
fn parse(body: &[u8], boundary: &str) -> Vec<(String, Vec<u8>)> {
    let open = format!("--{}\r\n", boundary);
    let delim = format!("\r\n--{}", boundary);
    assert!(body.starts_with(open.as_bytes()));
    let mut parts = Vec::new();
    let mut at = open.len();
    loop {
        let headers_end = find(body, b"\r\n\r\n", at).unwrap();
        let headers = String::from_utf8(body[at..headers_end].to_vec()).unwrap();
        let name_start = headers.find("name=\"").unwrap() + 6;
        let name_len = headers[name_start..].find('"').unwrap();
        let name = headers[name_start..name_start + name_len].to_string();
        let content_start = headers_end + 4;
        let end = find(body, delim.as_bytes(), content_start).unwrap();
        parts.push((name, body[content_start..end].to_vec()));
        let after = end + delim.len();
        if &body[after..] == b"--\r\n" {
            return parts;
        }
        assert_eq!(&body[after..after + 2], b"\r\n");
        at = after + 2;
    }
}

#[test]
fn new_form_announces_its_boundary() {
    let form = MultiPartForm::new();
    assert_eq!(form.content_type, FORM_CONTENT_TYPE);
    assert_eq!(
        form.content_type,
        "multipart/form-data; boundary=----WebKitFormBoundary7MA4YWxkTrZu0gW"
    );
    assert!(form.content_type.ends_with(FORM_BOUNDARY));
}

#[test]
fn add_file_then_wrap_up_builds_exact_body() {
    let mut form = MultiPartForm::new();
    form.add_file("photo", &[0xFF, 0xD8]);
    let body = form.wrap_up();
    let mut expected = b"------WebKitFormBoundary7MA4YWxkTrZu0gW\r\n\
Content-Disposition: form-data; name=\"photo\"; filename=\"teste.jpg\"\r\n\
Content-Type: image/jpeg\r\n\r\n"
        .to_vec();
    expected.extend_from_slice(&[0xFF, 0xD8]);
    expected.extend_from_slice(b"\r\n------WebKitFormBoundary7MA4YWxkTrZu0gW--\r\n");
    assert_eq!(body, expected);
}

#[test]
fn wrap_up_empties_the_form() {
    let mut form = MultiPartForm::new();
    form.add_file("file", b"abc");
    let _ = form.wrap_up();
    let empty = form.wrap_up();
    assert_eq!(empty, b"\r\n------WebKitFormBoundary7MA4YWxkTrZu0gW--\r\n".to_vec());
}

#[test]
fn encoded_part_parses_back() {
    let payload: Vec<u8> = (0..=255u8).chain([b'\r', b'\n', b'-', b'-']).collect();
    let mut form = MultiPartForm::new();
    form.add_file("file", &payload);
    let body = form.wrap_up();
    let parts = parse(&body, FORM_BOUNDARY);
    assert_eq!(parts, vec![("file".to_string(), payload)]);
}

#[test]
fn empty_payload_parses_back() {
    let mut form = MultiPartForm::new();
    form.add_file("file", &[]);
    let body = form.wrap_up();
    assert_eq!(parse(&body, FORM_BOUNDARY), vec![("file".to_string(), Vec::new())]);
}

#[test]
fn non_ascii_field_name_is_utf8() {
    let mut form = MultiPartForm::new();
    form.add_file("ação", b"x");
    let body = form.wrap_up();
    assert_eq!(parse(&body, FORM_BOUNDARY), vec![("ação".to_string(), b"x".to_vec())]);
}
