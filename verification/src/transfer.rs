//! Decision logic of the download and upload paths: the error taxonomy,
//! which response statuses are accepted, which strategy a download takes,
//! and which methods an upload accepts.

use vstd::prelude::*;
use vstd::string::{StringExecFns, StringSliceAdditionalSpecFns};

use crate::partition::{
    make_parts, part_matches, spec_part_count, PartDescriptor, PART_SIZE,
};
use crate::probe::{ascii_lower, spec_strategy, DownloadStrategy, ProbeResult};

verus! {

/// The failures a transfer can surface: a filesystem failure, a transport
/// failure, a precondition failure raised before any request, and a
/// non-success HTTP response carrying its status code and body text.
#[derive(Debug)]
pub enum Error {
    Io(String),
    Request(String),
    ContentLength(String),
    HttpErrorCode(u16, String),
}

/// A success status: the 2xx range.
pub open spec fn spec_is_success(status: u16) -> bool {
    200 <= status < 300
}

/// Whether a response status counts as success on the whole-body and
/// upload paths.
pub fn is_success_status(status: u16) -> (r: bool)
    ensures
        r == spec_is_success(status),
{
    200 <= status && status < 300
}

/// A part's range response may be written when its status is a success or
/// 206 Partial Content.
pub open spec fn spec_part_accepted(status: u16) -> bool {
    spec_is_success(status) || status == 206
}

/// Decides whether a part's range response is written at its offset; any
/// other response drops the part silently and the transfer proceeds.
pub fn part_response_accepted(status: u16) -> (r: bool)
    ensures
        r == spec_part_accepted(status),
{
    is_success_status(status) || status == 206
}

/// Accepts a response on the whole-body paths: success passes, any other
/// status becomes the HTTP status failure carrying the code and the
/// response's body text.
pub fn check_response_status(status: u16, body_text: String) -> (r: Result<(), Error>)
    ensures
        r is Ok <==> spec_is_success(status),
        !spec_is_success(status) ==> (r matches Err(Error::HttpErrorCode(c, t)) && c == status
            && t@ == body_text@),
{
    if is_success_status(status) {
        Ok(())
    } else {
        Err(Error::HttpErrorCode(status, body_text))
    }
}

/// The `total` a single-stream download reports: the response's declared
/// content length, or zero when it declares none.
pub fn single_stream_total(content_length: Option<u64>) -> (t: u64)
    ensures
        t == (match content_length {
            Option::Some(n) => n,
            Option::None => 0u64,
        }),
{
    match content_length {
        Some(n) => n,
        None => 0,
    }
}

/// Greatest number of parts a partitioned download keeps in flight at
/// once; further parts wait until a slot frees.
pub const MAX_IN_FLIGHT_PARTS: usize = 8;

/// Everything the host must do for one download: either stream the whole
/// body in order (as a POST exactly when a request body was supplied), or
/// pre-size the destination to `total_size` bytes and fetch the listed
/// parts by range.
pub enum DownloadPlan {
    SingleStream { use_post: bool },
    Partitioned { total_size: u64, parts: Vec<PartDescriptor> },
}

/// Plans a download from the probe's outcome: the partitioned path with the
/// fixed 1 MiB partitioning exactly when ranges are supported and the total
/// size is known to be positive, the single-stream path otherwise.
pub fn plan_download(probe: &ProbeResult, has_body: bool) -> (plan: DownloadPlan)
    ensures
        spec_strategy(probe.supports_ranges, probe.total_size) == DownloadStrategy::SingleStream
            ==> (plan matches DownloadPlan::SingleStream { use_post } && use_post == has_body),
        spec_strategy(probe.supports_ranges, probe.total_size) == DownloadStrategy::Partitioned
            ==> (plan matches DownloadPlan::Partitioned { total_size, parts } && total_size
                == probe.total_size && parts.len() == spec_part_count(probe.total_size, PART_SIZE)
            && (forall|i: int|
                0 <= i < parts.len() ==> (#[trigger] parts[i]).index == i && part_matches(
                    parts[i],
                    probe.total_size,
                    PART_SIZE,
                ))),
{
    if probe.supports_ranges && probe.total_size > 0 {
        DownloadPlan::Partitioned {
            total_size: probe.total_size,
            parts: make_parts(probe.total_size, PART_SIZE),
        }
    } else {
        DownloadPlan::SingleStream { use_post: has_body }
    }
}

/// The two methods an upload may use.
#[derive(Clone, Copy, PartialEq, Eq, Structural, Debug)]
pub enum UploadMethod {
    Post,
    Put,
}

/// ASCII case-insensitive equality with the token `POST`.
pub open spec fn is_post_token(s: Seq<u8>) -> bool {
    &&& s.len() == 4
    &&& ascii_lower(s[0]) == 112
    &&& ascii_lower(s[1]) == 111
    &&& ascii_lower(s[2]) == 115
    &&& ascii_lower(s[3]) == 116
}

/// ASCII case-insensitive equality with the token `PUT`.
pub open spec fn is_put_token(s: Seq<u8>) -> bool {
    &&& s.len() == 3
    &&& ascii_lower(s[0]) == 112
    &&& ascii_lower(s[1]) == 117
    &&& ascii_lower(s[2]) == 116
}

/// ASCII lowercase of one byte.
fn lower_byte(b: u8) -> (r: u8)
    ensures
        r == ascii_lower(b),
{
    if 65 <= b && b <= 90 {
        b + 32
    } else {
        b
    }
}

/// Validates the HTTP method of an upload before any request is issued:
/// `POST` and `PUT` are accepted in any ASCII case; anything else is the
/// immediate validation failure.
pub fn validate_upload_method(method: &str) -> (r: Result<UploadMethod, Error>)
    ensures
        r == Ok::<UploadMethod, Error>(UploadMethod::Post) <==> is_post_token(
            method.spec_bytes(),
        ),
        r == Ok::<UploadMethod, Error>(UploadMethod::Put) <==> is_put_token(method.spec_bytes()),
        r is Err <==> !is_post_token(method.spec_bytes()) && !is_put_token(method.spec_bytes()),
        r is Err ==> (r matches Err(Error::ContentLength(m)) && m@ == "Invalid HTTP method"@),
{
    let bytes = method.as_bytes();
    if bytes.len() == 4 {
        let b0 = lower_byte(bytes[0]);
        let b1 = lower_byte(bytes[1]);
        let b2 = lower_byte(bytes[2]);
        let b3 = lower_byte(bytes[3]);
        if b0 == 112 && b1 == 111 && b2 == 115 && b3 == 116 {
            return Ok(UploadMethod::Post);
        }
    }
    if bytes.len() == 3 {
        let b0 = lower_byte(bytes[0]);
        let b1 = lower_byte(bytes[1]);
        let b2 = lower_byte(bytes[2]);
        if b0 == 112 && b1 == 117 && b2 == 116 {
            return Ok(UploadMethod::Put);
        }
    }
    Err(Error::ContentLength(String::from_str("Invalid HTTP method")))
}

} // verus!
