use vstd::prelude::*;

verus! {

/// What one build-tool invocation produced: its exit code and its raw
/// and decoded output streams.
#[derive(Clone, PartialEq, Debug)]
pub struct ExecuteResult {
    pub exit_code: i32,
    pub stdout: String,
    pub stdout_raw: Vec<u8>,
    pub stderr: String,
    pub stderr_raw: Vec<u8>,
}

/// What `std::str::from_utf8` decodes a byte sequence to, when the bytes
/// are valid UTF-8.
pub uninterp spec fn utf8_decoded(bytes: Seq<u8>) -> Option<Seq<char>>;

/// Relies on `std::str::from_utf8`: whether bytes are valid UTF-8 and
/// what they decode to depend on the bytes alone.
#[verifier::external_body]
fn bytes_to_utf8<'a>(data: &'a [u8]) -> (r: Option<&'a str>)
    ensures
        r.deep_view() == utf8_decoded(data@),
{
    std::str::from_utf8(data).ok()
}

/// The decoded form of raw output bytes: the UTF-8 decoding when the
/// bytes are valid, a fixed notice when they are not, and the empty
/// string when there are no bytes.
pub open spec fn spec_decode_str(data: Seq<u8>) -> Seq<char> {
    if data.len() == 0 {
        Seq::empty()
    } else {
        match utf8_decoded(data) {
            Some(s) => s,
            None => "Unable to decode content"@,
        }
    }
}

/// A handle on the build-tool binary; the embedding application spawns
/// the process at this path and brings back an `ExecuteResult`.
#[derive(Clone, PartialEq, Debug)]
pub struct BazelQueryBinaryImpl {
    pub bazel_executable_path: String,
}

/// A handle for the build tool found at `pb`.
pub fn from_binary_path(pb: &str) -> (r: BazelQueryBinaryImpl)
    ensures
        r.bazel_executable_path@ == pb@,
{
    BazelQueryBinaryImpl { bazel_executable_path: pb.to_owned() }
}

impl BazelQueryBinaryImpl {
    /// Decodes one raw output stream for display, exactly as
    /// `spec_decode_str` describes.
    pub fn decode_str(data: &Vec<u8>) -> (r: String)
        ensures
            r@ == spec_decode_str(data@),
    {
        if !data.is_empty() {
            match bytes_to_utf8(data.as_slice()) {
                Some(s) => s.to_owned(),
                None => "Unable to decode content".to_owned(),
            }
        } else {
            String::new()
        }
    }
}

} // verus!
