//! Turning a response into bytes on the wire.
use vstd::prelude::*;
use vstd::string::*;
use vstd::utf8::encode_utf8;
use crate::error::ServerError;
use crate::headers::{has_name, headers_text, lemma_remove_entry, lemma_set_entry, remove_entry, set_entry, HeaderEntry};
use crate::response::Response;
use crate::status::{body_allowed, reason_of};
use crate::text::{decimal, decimal_string, eq_nocase, hex, lower, push_decimal, push_hex};
use crate::version::version_text;

verus! {

/// `HTTP/1.1 200 OK` and the line end.
pub open spec fn status_line(r: Response) -> Seq<char> {
    version_text(r.version) + " "@ + decimal(r.status.0 as nat) + " "@ + reason_of(r.status.0) + "\r\n"@
}

/// The headers actually sent: without a body no framing header; chunked
/// framing drops `Content-Length`; sized framing drops `Transfer-Encoding` and
/// states the body length.
pub open spec fn framed_headers(h: Seq<HeaderEntry>, status: u16, chunked: bool, len: nat) -> Seq<
    HeaderEntry,
> {
    if !body_allowed(status) {
        remove_entry(remove_entry(h, "Transfer-Encoding"@), "Content-Length"@)
    } else if chunked {
        set_entry(remove_entry(h, "Content-Length"@), "Transfer-Encoding"@, "chunked"@)
    } else {
        set_entry(remove_entry(h, "Transfer-Encoding"@), "Content-Length"@, decimal(len))
    }
}

/// The body as one chunk (when non-empty) followed by the last, empty chunk.
pub open spec fn chunk_frame(body: Seq<u8>) -> Seq<u8> {
    (if body.len() > 0 {
        encode_utf8(hex(body.len()) + "\r\n"@) + body + encode_utf8("\r\n"@)
    } else {
        Seq::<u8>::empty()
    }) + encode_utf8("0\r\n\r\n"@)
}

/// The bytes after the blank line: nothing for 1xx, 204 and 304.
pub open spec fn body_part(body: Seq<u8>, status: u16, chunked: bool) -> Seq<u8> {
    if !body_allowed(status) {
        Seq::<u8>::empty()
    } else if chunked {
        chunk_frame(body)
    } else {
        body
    }
}

/// The whole message for `r`, framed chunked or sized as `chunked` says.
pub open spec fn wire(r: Response, chunked: bool) -> Seq<u8> {
    encode_utf8(
        status_line(r) + headers_text(framed_headers(r.headers@, r.status.0, chunked, r.body@.len()))
            + "\r\n"@,
    ) + body_part(r.body@, r.status.0, chunked)
}

/// Chunked framing and `Content-Length` never meet in what is sent, chunked
/// framing always announces itself, and statuses 1xx, 204 and 304 send no body.
pub proof fn lemma_framing(h: Seq<HeaderEntry>, status: u16, chunked: bool, body: Seq<u8>)
    ensures
        ({
            let f = framed_headers(h, status, chunked, body.len());
            &&& !(has_name(f, "Content-Length"@) && has_name(f, "Transfer-Encoding"@))
            &&& (body_allowed(status) && chunked) ==> has_name(f, "Transfer-Encoding"@)
            &&& (body_allowed(status) && !chunked) ==> has_name(f, "Content-Length"@)
            &&& !body_allowed(status) ==> body_part(body, status, chunked).len() == 0
        }),
{
    let te = "Transfer-Encoding"@;
    let cl = "Content-Length"@;
    assert(!eq_nocase(te, cl)) by {
        reveal_strlit("Transfer-Encoding");
        reveal_strlit("Content-Length");
        assert(lower(te).len() != lower(cl).len());
    }
    assert(!eq_nocase(cl, te)) by {
        reveal_strlit("Transfer-Encoding");
        reveal_strlit("Content-Length");
        assert(lower(te).len() != lower(cl).len());
    }
    if !body_allowed(status) {
        lemma_remove_entry(h, te, cl);
        lemma_remove_entry(remove_entry(h, te), cl, te);
    } else if chunked {
        lemma_remove_entry(h, cl, cl);
        lemma_set_entry(remove_entry(h, cl), te, "chunked"@, cl);
    } else {
        lemma_remove_entry(h, te, te);
        lemma_set_entry(remove_entry(h, te), cl, decimal(body.len()), te);
    }
}

/// Serializes HTTP responses.
pub struct ResponseSerializer;

impl ResponseSerializer {
    fn write_status_line(buffer: &mut String, response: &Response)
        ensures
            final(buffer)@ == old(buffer)@ + status_line(*response),
    {
        buffer.append(response.version.as_str());
        buffer.append(" ");
        push_decimal(buffer, response.status.0 as u64);
        buffer.append(" ");
        buffer.append(response.status.reason_phrase());
        buffer.append("\r\n");
        assert(buffer@ =~= old(buffer)@ + status_line(*response));
    }

    fn serialize_with(response: &Response, chunked: bool) -> (r: Vec<u8>)
        ensures
            r@ == wire(*response, chunked),
    {
        let mut head = String::new();
        Self::write_status_line(&mut head, response);
        let mut h = response.headers.copy();
        let allowed = response.status.allows_body();
        if !allowed {
            h.remove("Transfer-Encoding");
            h.remove("Content-Length");
        } else if chunked {
            h.remove("Content-Length");
            h.set("Transfer-Encoding".to_owned(), "chunked".to_owned());
        } else {
            h.remove("Transfer-Encoding");
            h.set("Content-Length".to_owned(), decimal_string(response.body.len() as u64));
        }
        let text = h.to_string();
        head.append(text.as_str());
        head.append("\r\n");
        let mut out = head.as_str().as_bytes_vec();
        if allowed {
            if chunked {
                if response.body.len() > 0 {
                    let mut size = String::new();
                    push_hex(&mut size, response.body.len() as u64);
                    size.append("\r\n");
                    let sb = size.as_str().as_bytes_vec();
                    out.extend_from_slice(sb.as_slice());
                    out.extend_from_slice(response.body.as_slice());
                    let crlf = "\r\n".as_bytes_vec();
                    out.extend_from_slice(crlf.as_slice());
                }
                let last = "0\r\n\r\n".as_bytes_vec();
                out.extend_from_slice(last.as_slice());
            } else {
                out.extend_from_slice(response.body.as_slice());
            }
        }
        assert(out@ =~= wire(*response, chunked));
        out
    }

    /// The message with sized framing (`Content-Length`).
    pub fn serialize(response: &Response) -> (r: Result<Vec<u8>, ServerError>)
        ensures
            r matches Ok(b) && b@ == wire(*response, false),
    {
        Ok(Self::serialize_with(response, false))
    }

    /// The message with chunked framing.
    pub fn serialize_chunked(response: &Response) -> (r: Result<Vec<u8>, ServerError>)
        ensures
            r matches Ok(b) && b@ == wire(*response, true),
    {
        Ok(Self::serialize_with(response, true))
    }

    /// The message framed as the response's `chunked` flag says.
    pub fn serialize_auto(response: &Response) -> (r: Result<Vec<u8>, ServerError>)
        ensures
            r matches Ok(b) && b@ == wire(*response, response.chunked),
    {
        Ok(Self::serialize_with(response, response.chunked))
    }
}

} // verus!
