use vstd::prelude::*;
use vstd::slice::slice_to_vec;
use vstd::string::StrSliceExecFns;
use vstd::string::StringSliceAdditionalSpecFns;

verus! {

/// The boundary token that separates the parts of every body this encoder builds.
pub const FORM_BOUNDARY: &'static str = "----WebKitFormBoundary7MA4YWxkTrZu0gW";

/// The request `Content-Type` header value that announces `FORM_BOUNDARY`.
pub const FORM_CONTENT_TYPE: &'static str = "multipart/form-data; boundary=----WebKitFormBoundary7MA4YWxkTrZu0gW";

/// The file name announced for every file part.
pub const FILE_NAME: &'static str = "teste.jpg";

/// The media type announced for every file part.
pub const FILE_MIME: &'static str = "image/jpeg";

/// The UTF-8 bytes of a string.
pub open spec fn utf8(s: &str) -> Seq<u8> {
    s.spec_bytes()
}

/// `--{boundary}\r\n`: the line that opens a part.
pub open spec fn opening_line(boundary: Seq<u8>) -> Seq<u8> {
    utf8("--") + boundary + utf8("\r\n")
}

/// The header lines of a file part named `field`, up to and including the empty line.
pub open spec fn part_headers(field: Seq<u8>) -> Seq<u8> {
    utf8("Content-Disposition: form-data; name=\"") + field + utf8("\"; filename=\"")
        + utf8(FILE_NAME) + utf8("\"\r\nContent-Type: ") + utf8(FILE_MIME) + utf8("\r\n\r\n")
}

/// Everything a file part adds to a body: opening line, headers and content.
pub open spec fn file_part(boundary: Seq<u8>, field: Seq<u8>, content: Seq<u8>) -> Seq<u8> {
    opening_line(boundary) + part_headers(field) + content
}

/// `\r\n--{boundary}--\r\n`: what ends the last part and the body.
pub open spec fn closing(boundary: Seq<u8>) -> Seq<u8> {
    utf8("\r\n--") + boundary + utf8("--\r\n")
}

/// A body that holds a single file part.
pub open spec fn single_file_body(boundary: Seq<u8>, field: Seq<u8>, content: Seq<u8>) -> Seq<u8> {
    file_part(boundary, field, content) + closing(boundary)
}

/// The delimiter that ends a part's content: `\r\n--{boundary}`.
pub open spec fn delimiter(boundary: Seq<u8>) -> Seq<u8> {
    utf8("\r\n--") + boundary
}

/// Whether `needle` stands in `s` at index `i`.
pub open spec fn occurs_at(s: Seq<u8>, needle: Seq<u8>, i: int) -> bool {
    0 <= i && i + needle.len() <= s.len() && s.subrange(i, i + needle.len()) == needle
}

/// The first index at or after `i` where `needle` stands in `s`, or `s.len()` if none.
pub open spec fn find_from(s: Seq<u8>, needle: Seq<u8>, i: int) -> int
    decreases s.len() - i,
{
    if i < 0 || i >= s.len() {
        s.len() as int
    } else if occurs_at(s, needle, i) {
        i
    } else {
        find_from(s, needle, i + 1)
    }
}

/// How a multipart parser reads a body that should hold a single file part named
/// `field`: after the opening line and that part's headers, the content runs up to the
/// first delimiter, and that delimiter must be the closing one that ends the body.
pub open spec fn parse_single_part(body: Seq<u8>, boundary: Seq<u8>, field: Seq<u8>) -> Option<Seq<u8>> {
    let head = opening_line(boundary) + part_headers(field);
    if head.len() <= body.len() && body.subrange(0, head.len() as int) == head {
        let j = find_from(body, delimiter(boundary), head.len() as int);
        if body.subrange(j, body.len() as int) == closing(boundary) {
            Some(body.subrange(head.len() as int, j))
        } else {
            None
        }
    } else {
        None
    }
}

proof fn lemma_delimiter_start_bytes()
    ensures
        utf8("\r\n--") == seq![13u8, 10u8, 45u8, 45u8],
{
    broadcast use vstd::string::is_ascii_spec_bytes;
    reveal_strlit("\r\n--");
    assert("\r\n--"@ =~= seq!['\r', '\n', '-', '-']);
    assert(vstd::string::is_ascii("\r\n--"));
    assert(utf8("\r\n--") =~= seq![13u8, 10u8, 45u8, 45u8]);
}

proof fn lemma_find_from_first(s: Seq<u8>, needle: Seq<u8>, i: int, j: int)
    requires
        0 <= i <= j,
        occurs_at(s, needle, j),
        forall|x: int| i <= x < j ==> !occurs_at(s, needle, x),
    ensures
        find_from(s, needle, i) == j,
    decreases j - i,
{
    if i < j {
        lemma_find_from_first(s, needle, i + 1, j);
    }
}

/// Round trip: a body holding one file part named `field` with content `content` is
/// read back by a multipart parser as exactly that one part with exactly that content,
/// provided the content never holds the delimiter and the boundary holds no carriage
/// return (no boundary that the multipart grammar admits does).
pub proof fn lemma_single_part_round_trip(boundary: Seq<u8>, field: Seq<u8>, content: Seq<u8>)
    requires
        forall|k: int| 0 <= k < boundary.len() ==> boundary[k] != 13u8,
        forall|x: int| 0 <= x < content.len() ==> !occurs_at(content, delimiter(boundary), x),
    ensures
        parse_single_part(single_file_body(boundary, field, content), boundary, field) == Some(content),
{
    lemma_delimiter_start_bytes();
    let body = single_file_body(boundary, field, content);
    let head = opening_line(boundary) + part_headers(field);
    let d = delimiter(boundary);
    let cl = closing(boundary);
    let h = head.len() as int;
    let j = h + content.len();
    assert(body =~= head + content + cl);
    assert(body.subrange(0, h) =~= head);
    assert(body.subrange(h, j) =~= content);
    assert(body.subrange(j, body.len() as int) =~= cl);
    assert(cl.subrange(0, d.len() as int) =~= d);
    assert(body.subrange(j, j + d.len()) =~= d);
    assert forall|x: int| h <= x < j implies !occurs_at(body, d, x) by {
        if x + d.len() <= j {
            assert(body.subrange(x, x + d.len()) =~= content.subrange(x - h, x - h + d.len()));
            assert(!occurs_at(content, d, x - h));
        } else {
            let k = j - x;
            assert(body[x + k] == cl[0]);
            assert(cl[0] == 13u8);
            if occurs_at(body, d, x) {
                assert(body.subrange(x, x + d.len())[k] == d[k]);
                assert(0 < k < d.len());
                if k >= 4 {
                    assert(d[k] == boundary[k - 4]);
                } else {
                    assert(d[k] == seq![13u8, 10u8, 45u8, 45u8][k]);
                }
                assert(false);
            }
        }
    }
    lemma_find_from_first(body, d, h, j);
}

proof fn lemma_form_boundary_has_no_cr()
    ensures
        forall|k: int| 0 <= k < utf8(FORM_BOUNDARY).len() ==> utf8(FORM_BOUNDARY)[k] != 13u8,
{
    broadcast use vstd::string::is_ascii_spec_bytes;
    reveal_strlit("----WebKitFormBoundary7MA4YWxkTrZu0gW");
    assert(vstd::string::is_ascii(FORM_BOUNDARY));
}

/// Round trip for the bodies this form builds: one file part named `field` whose
/// content never holds the form's delimiter reads back as exactly that content.
pub proof fn lemma_form_round_trip(field: Seq<u8>, content: Seq<u8>)
    requires
        forall|x: int| 0 <= x < content.len() ==> !occurs_at(content, delimiter(utf8(FORM_BOUNDARY)), x),
    ensures
        parse_single_part(
            single_file_body(utf8(FORM_BOUNDARY), field, content),
            utf8(FORM_BOUNDARY),
            field,
        ) == Some(content),
{
    lemma_form_boundary_has_no_cr();
    lemma_single_part_round_trip(utf8(FORM_BOUNDARY), field, content);
}

/// Appends the UTF-8 bytes of `text` to `out`.
fn push_text(out: &mut Vec<u8>, text: &str)
    ensures
        final(out)@ == old(out)@ + utf8(text),
{
    let mut bytes = text.as_bytes_vec();
    out.append(&mut bytes);
}

/// A multipart/form-data body under construction.
pub struct MultiPartForm<'a> {
    form: Vec<u8>,
    boundary: &'a str,
    pub content_type: &'a str,
}

impl<'a> MultiPartForm<'a> {
    /// The bytes added so far.
    pub closed spec fn pending(&self) -> Seq<u8> {
        self.form@
    }

    /// The value of the request's `Content-Type` header.
    pub closed spec fn content_type_text(&self) -> Seq<char> {
        self.content_type@
    }

    /// The form separates its parts with `FORM_BOUNDARY` and announces it in `content_type`.
    pub closed spec fn wf(&self) -> bool {
        &&& self.content_type_text() == FORM_CONTENT_TYPE@
        &&& self.boundary@ == FORM_BOUNDARY@
    }

    pub fn new() -> (r: Self)
        ensures
            r.wf(),
            r.pending() == Seq::<u8>::empty(),
            r.content_type_text() == FORM_CONTENT_TYPE@,
    {
        MultiPartForm { form: Vec::new(), boundary: FORM_BOUNDARY, content_type: FORM_CONTENT_TYPE }
    }

    /// Appends one file part named `field` whose content is `buf`.
    pub fn add_file(&mut self, field: &str, buf: &[u8])
        requires
            old(self).wf(),
        ensures
            final(self).wf(),
            final(self).pending() == old(self).pending() + file_part(utf8(FORM_BOUNDARY), utf8(field), buf@),
    {
        let ghost start = self.form@;
        push_text(&mut self.form, "--");
        push_text(&mut self.form, self.boundary);
        push_text(&mut self.form, "\r\n");
        assert(self.form@ =~= start + opening_line(utf8(FORM_BOUNDARY)));
        let ghost opened = self.form@;
        push_text(&mut self.form, "Content-Disposition: form-data; name=\"");
        push_text(&mut self.form, field);
        push_text(&mut self.form, "\"; filename=\"");
        push_text(&mut self.form, FILE_NAME);
        push_text(&mut self.form, "\"\r\nContent-Type: ");
        push_text(&mut self.form, FILE_MIME);
        push_text(&mut self.form, "\r\n\r\n");
        assert(self.form@ =~= opened + part_headers(utf8(field)));
        let mut content = slice_to_vec(buf);
        self.form.append(&mut content);
        assert(self.form@ =~= start + file_part(utf8(FORM_BOUNDARY), utf8(field), buf@));
    }

    /// Closes the body, hands it out and leaves the form empty for the next request.
    pub fn wrap_up(&mut self) -> (body: Vec<u8>)
        requires
            old(self).wf(),
        ensures
            final(self).wf(),
            final(self).pending() == Seq::<u8>::empty(),
            body@ == old(self).pending() + closing(utf8(FORM_BOUNDARY)),
    {
        let ghost start = self.form@;
        push_text(&mut self.form, "\r\n--");
        push_text(&mut self.form, self.boundary);
        push_text(&mut self.form, "--\r\n");
        assert(self.form@ =~= start + closing(utf8(FORM_BOUNDARY)));
        let mut body: Vec<u8> = Vec::new();
        std::mem::swap(&mut body, &mut self.form);
        body
    }
}

} // verus!
