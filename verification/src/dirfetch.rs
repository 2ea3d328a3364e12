//! Decision logic for fetching a directory object over a stream: judging
//! HTTP response headers and guarding the decompression of the body.
//!
//! The stream reads and writes themselves happen outside the library; the
//! rules that drive them — when to grow buffers, when a response is
//! unacceptable, when decompression has gone wrong — are verified here.

use vstd::prelude::*;

use crate::udp::copy_range;
use vstd::string::StringSliceAdditionalSpecFns;

verus! {

/// Errors a directory fetch can end in.
#[derive(Clone, Copy, PartialEq, Eq, Structural, Debug)]
pub enum DirClientError {
    /// The response status was not acceptable.
    HttpStatus(Option<u16>),
    /// The stream ended before the headers were complete.
    TruncatedHeaders,
    /// The headers did not fit any acceptable buffer.
    TooManyHeaders,
    /// The headers could not be parsed.
    BadHeaders,
    /// The body took too long to arrive.
    DirTimeout,
    /// The body expanded suspiciously much under decompression.
    CompressionBomb,
    /// The decompressed body exceeded the caller's limit.
    ResponseTooLong(u64),
}

/// What parsing an HTTP response prefix reported.
pub enum HttpParseOutcome {
    /// More bytes are needed.
    Partial,
    /// The bytes cannot be an HTTP response.
    Malformed,
    /// The header section is complete.
    Complete {
        /// How many bytes of the input the header section occupied.
        n_parsed: usize,
        /// The status code, if one was present.
        code: Option<u16>,
        /// The headers, as (name, value) byte pairs in order.
        headers: Vec<(Vec<u8>, Vec<u8>)>,
    },
}

/// Parse an HTTP response prefix.
///
/// Relies on httparse's `Response::parse`: it reports how many bytes the
/// complete header section occupied, which cannot exceed the input, along
/// with the status code and the headers.
#[verifier::external_body]
fn parse_http_response(buf: &[u8]) -> (r: HttpParseOutcome)
    ensures
        (r matches HttpParseOutcome::Complete { n_parsed, .. } ==> n_parsed <= buf@.len()),
{
    let mut headers = [httparse::EMPTY_HEADER; 32];
    let mut response = httparse::Response::new(&mut headers);
    match response.parse(buf) {
        Ok(httparse::Status::Complete(n)) => HttpParseOutcome::Complete {
            n_parsed: n,
            code: response.code,
            headers: response
                .headers
                .iter()
                .map(|h| (h.name.as_bytes().to_vec(), h.value.to_vec()))
                .collect(),
        },
        Ok(httparse::Status::Partial) => HttpParseOutcome::Partial,
        Err(_) => HttpParseOutcome::Malformed,
    }
}

/// The value of the first Content-Encoding header, if any.
pub open spec fn spec_encoding_of(hs: Seq<(Vec<u8>, Vec<u8>)>) -> Option<Seq<u8>>
    decreases hs.len(),
{
    if hs.len() == 0 {
        None
    } else if hs[0].0@ == "Content-Encoding".spec_bytes() {
        Some(hs[0].1@)
    } else {
        spec_encoding_of(hs.drop_first())
    }
}

/// When no header before `i` names the encoding, the search result over
/// the whole list is the result over the remainder.
proof fn lemma_encoding_skip(hs: Seq<(Vec<u8>, Vec<u8>)>, i: int)
    requires
        0 <= i <= hs.len(),
        forall|j: int| 0 <= j < i ==> (#[trigger] hs[j]).0@ != "Content-Encoding".spec_bytes(),
    ensures
        spec_encoding_of(hs) == spec_encoding_of(hs.skip(i)),
    decreases i,
{
    if i > 0 {
        lemma_encoding_skip(hs, i - 1);
        assert(hs.skip(i - 1).drop_first() =~= hs.skip(i));
        assert(hs.skip(i - 1)[0] == hs[i - 1]);
    } else {
        assert(hs.skip(0) =~= hs);
    }
}

/// Compare a byte vector with a byte slice.
fn vec_eq_slice(a: &Vec<u8>, b: &[u8]) -> (r: bool)
    ensures
        r == (a@ == b@),
{
    if a.len() != b.len() {
        return false;
    }
    let n = a.len();
    let mut i: usize = 0;
    while i < n
        invariant
            i <= n,
            n == a@.len(),
            n == b@.len(),
            forall|j: int| 0 <= j < i ==> a@[j] == b@[j],
        decreases n - i,
    {
        if a[i] != *vstd::slice::slice_index_get(b, i) {
            return false;
        }
        i = i + 1;
    }
    proof {
        assert(a@ =~= b@);
    }
    true
}

/// Find the value of the first Content-Encoding header.
pub fn find_content_encoding(headers: &Vec<(Vec<u8>, Vec<u8>)>) -> (r: Option<Vec<u8>>)
    ensures
        (match r {
            Some(v) => spec_encoding_of(headers@) == Some(v@),
            None => spec_encoding_of(headers@) is None,
        }),
{
    let pattern = "Content-Encoding";
    let pb = pattern.as_bytes();
    let n = headers.len();
    let mut i: usize = 0;
    while i < n
        invariant
            i <= n,
            n == headers@.len(),
            pb@ == "Content-Encoding".spec_bytes(),
            forall|j: int|
                0 <= j < i ==> (#[trigger] headers@[j]).0@ != "Content-Encoding".spec_bytes(),
        decreases n - i,
    {
        if vec_eq_slice(&headers[i].0, pb) {
            proof {
                lemma_encoding_skip(headers@, i as int);
                assert(headers@.skip(i as int)[0] == headers@[i as int]);
            }
            return Some(crate::relay_ids::copy_bytes(&headers[i].1));
        }
        i = i + 1;
    }
    proof {
        lemma_encoding_skip(headers@, n as int);
    }
    None
}

/// The outcome of the header-reading state: what the caller should do
/// next with the stream.
pub enum HeaderStep {
    /// Read more bytes into the buffer.
    Continue,
    /// The headers were complete: here is what they said.
    Done(HeaderStatus),
    /// The stream ended before the headers were complete.
    ErrTruncated,
    /// The headers did not fit any acceptable buffer.
    ErrTooManyHeaders,
    /// The bytes cannot be an HTTP response.
    ErrBadHeaders,
}

/// What complete response headers said.
pub struct HeaderStatus {
    /// The HTTP status code.
    pub status: Option<u16>,
    /// The Content-Encoding header value, if any.
    pub encoding: Option<Vec<u8>>,
    /// Body bytes that arrived together with the headers.
    pub pending: Vec<u8>,
    /// How many bytes of `pending` are usable.
    pub n_pending: usize,
}

/// What a completed header section must have produced: the status is
/// carried over; only an acceptable response carries its encoding and the
/// body bytes that arrived after the headers.
pub open spec fn spec_header_done_post(
    m: Seq<u8>,
    n_in_buf: int,
    n_parsed: int,
    code: Option<u16>,
    headers: Seq<(Vec<u8>, Vec<u8>)>,
    r: HeaderStep,
) -> bool {
    &&& r matches HeaderStep::Done(st)
    &&& st.status == code
    &&& (code != Some(200u16) ==> st.encoding is None && st.pending@ == Seq::<u8>::empty()
        && st.n_pending == 0)
    &&& (code == Some(200u16) ==> {
        &&& st.pending@ == m.subrange(n_parsed, n_in_buf)
        &&& st.n_pending == n_in_buf - n_parsed
        &&& match st.encoding {
            Some(e) => spec_encoding_of(headers) == Some(e@),
            None => spec_encoding_of(headers) is None,
        }
    })
}

/// Judge one round of header reading, after `n_read` fresh bytes brought
/// the buffered prefix to `n_in_buf` bytes and the prefix was parsed with
/// the given outcome.  While the response is incomplete, the buffer is
/// doubled once it runs low, up to a fixed bound; an end of stream is a
/// truncation error.  A complete non-acceptable response carries only its
/// status; an acceptable one carries its encoding and the body bytes that
/// followed the headers.
pub fn header_outcome_step(
    buf: &mut Vec<u8>,
    n_in_buf: usize,
    n_read: usize,
    outcome: HttpParseOutcome,
) -> (r: HeaderStep)
    requires
        n_in_buf <= old(buf)@.len(),
        (outcome matches HttpParseOutcome::Complete { n_parsed, .. } ==> n_parsed <= n_in_buf),
    ensures
        outcome is Malformed ==> (r is ErrBadHeaders && final(buf)@ == old(buf)@),
        outcome is Partial && n_in_buf + 500 >= old(buf)@.len() && old(buf)@.len() >= 16384 ==> (
        r is ErrTooManyHeaders && final(buf)@ == old(buf)@),
        outcome is Partial && n_in_buf + 500 >= old(buf)@.len() && old(buf)@.len() < 16384 ==> (
        final(buf)@.len() == 2 * old(buf)@.len() && final(buf)@.take(old(buf)@.len() as int)
            == old(buf)@ && (if n_read == 0 {
            r is ErrTruncated
        } else {
            r is Continue
        })),
        outcome is Partial && n_in_buf + 500 < old(buf)@.len() ==> (final(buf)@ == old(buf)@ && (
        if n_read == 0 {
            r is ErrTruncated
        } else {
            r is Continue
        })),
        (outcome matches HttpParseOutcome::Complete { n_parsed, code, headers }
            ==> (final(buf)@ == old(buf)@ && spec_header_done_post(
            old(buf)@,
            n_in_buf as int,
            n_parsed as int,
            code,
            headers@,
            r,
        ))),
{
    match outcome {
        HttpParseOutcome::Malformed => HeaderStep::ErrBadHeaders,
        HttpParseOutcome::Partial => {
            if buf.len() - n_in_buf <= 500 {
                if buf.len() >= 16384 {
                    return HeaderStep::ErrTooManyHeaders;
                }
                let ghost before = buf@;
                let target = buf.len() * 2;
                while buf.len() < target
                    invariant
                        before.len() <= buf@.len() <= target,
                        target <= 2 * before.len(),
                        buf@.take(before.len() as int) == before,
                        target < 32768,
                    decreases target - buf@.len(),
                {
                    buf.push(0);
                    proof {
                        assert(buf@.take(before.len() as int) =~= before);
                    }
                }
            }
            if n_read == 0 {
                HeaderStep::ErrTruncated
            } else {
                HeaderStep::Continue
            }
        },
        HttpParseOutcome::Complete { n_parsed, code, headers } => {
            let acceptable = match code {
                Some(c) => c == 200,
                None => false,
            };
            if !acceptable {
                HeaderStep::Done(
                    HeaderStatus {
                        status: code,
                        encoding: None,
                        pending: Vec::new(),
                        n_pending: 0,
                    },
                )
            } else {
                let encoding = find_content_encoding(&headers);
                let pending = copy_range(
                    vstd::slice::slice_subrange(buf.as_slice(), 0, n_in_buf),
                    n_parsed,
                    n_in_buf,
                );
                proof {
                    assert(buf@.subrange(0, n_in_buf as int).subrange(
                        n_parsed as int,
                        n_in_buf as int,
                    ) =~= buf@.subrange(n_parsed as int, n_in_buf as int));
                }
                HeaderStep::Done(
                    HeaderStatus {
                        status: code,
                        encoding,
                        pending,
                        n_pending: n_in_buf - n_parsed,
                    },
                )
            }
        },
    }
}

/// Parse the buffered prefix and judge this round of header reading: the
/// composition of the header parser and the verified step above.
pub fn read_headers_step(buf: &mut Vec<u8>, n_in_buf: usize, n_read: usize) -> (r: HeaderStep)
    requires
        n_in_buf <= old(buf)@.len(),
    ensures
        final(buf)@.len() >= old(buf)@.len(),
        final(buf)@.take(old(buf)@.len() as int) == old(buf)@,
{
    let outcome = parse_http_response(vstd::slice::slice_subrange(buf.as_slice(), 0, n_in_buf));
    let r = header_outcome_step(buf, n_in_buf, n_read, outcome);
    proof {
        assert(buf@.take(old(buf)@.len() as int) =~= old(buf)@);
    }
    r
}

/// What the decompressor reported about its latest step.
#[derive(Clone, Copy, PartialEq, Eq, Structural, Debug)]
pub enum DecompressStatusKind {
    /// The body is complete.
    Done,
    /// Output was written; more input is expected.
    Written,
    /// The output buffer is full.
    OutOfSpace,
}

/// What the body-reading loop should do next.
#[derive(Clone, Copy, PartialEq, Eq, Structural, Debug)]
pub enum DecompressStep {
    /// The body expanded suspiciously much: stop with an error.
    Bomb,
    /// The body exceeded the caller's limit: stop with an error.
    TooLong,
    /// The body is complete.
    Finished,
    /// Keep reading.
    Continue,
    /// Grow the output buffer, then keep reading.
    GrowResult,
}

/// Judge one round of body decompression: a body that has expanded past a
/// floor and beyond twenty times what was read is treated as a
/// decompression bomb; one past the caller's limit is too long; otherwise
/// the decompressor's own status decides.
pub fn decompress_step(
    written_total: u64,
    read_total: u64,
    maxlen: u64,
    status: DecompressStatusKind,
) -> (r: DecompressStep)
    requires
        read_total <= u64::MAX / 20,
    ensures
        written_total > 2048 && written_total > read_total * 20 ==> r == DecompressStep::Bomb,
        !(written_total > 2048 && written_total > read_total * 20) && written_total > maxlen ==> r
            == DecompressStep::TooLong,
        !(written_total > 2048 && written_total > read_total * 20) && written_total <= maxlen
            ==> r == (match status {
            DecompressStatusKind::Done => DecompressStep::Finished,
            DecompressStatusKind::Written => DecompressStep::Continue,
            DecompressStatusKind::OutOfSpace => DecompressStep::GrowResult,
        }),
{
    if written_total > 2048 && written_total > read_total * 20 {
        DecompressStep::Bomb
    } else if written_total > maxlen {
        DecompressStep::TooLong
    } else {
        match status {
            DecompressStatusKind::Done => DecompressStep::Finished,
            DecompressStatusKind::Written => DecompressStep::Continue,
            DecompressStatusKind::OutOfSpace => DecompressStep::GrowResult,
        }
    }
}

/// How to conclude a download whose body reading ended: a failure with a
/// partial body is kept when partial documents are acceptable; any other
/// failure propagates; success stands.
#[derive(Clone, Copy, PartialEq, Eq, Structural, Debug)]
pub enum DownloadVerdict {
    /// The body was read completely.
    Success,
    /// Reading failed, but the partial body is acceptable.
    UsePartial,
    /// Reading failed and the error propagates.
    Propagate,
}

/// Decide how a download concludes from whether body reading failed, how
/// much arrived, and whether partial documents are acceptable.
pub fn download_verdict(partial_ok: bool, failed: bool, result_len: u64) -> (r: DownloadVerdict)
    ensures
        !failed ==> r == DownloadVerdict::Success,
        failed && partial_ok && result_len > 0 ==> r == DownloadVerdict::UsePartial,
        failed && !(partial_ok && result_len > 0) ==> r == DownloadVerdict::Propagate,
{
    if !failed {
        DownloadVerdict::Success
    } else if partial_ok && result_len > 0 {
        DownloadVerdict::UsePartial
    } else {
        DownloadVerdict::Propagate
    }
}

/// True exactly when a response status is acceptable for a directory
/// fetch.
pub fn response_ok(status: Option<u16>) -> (r: bool)
    ensures
        r == (status == Some(200u16)),
{
    match status {
        Some(c) => c == 200,
        None => false,
    }
}

} // verus!
