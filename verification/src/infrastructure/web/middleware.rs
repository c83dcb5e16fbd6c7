use vstd::prelude::*;

verus! {

/// The header that carries the request id.
pub const REQUEST_ID_HEADER: &'static str = "x-request-id";

/// The largest request body the standard stack accepts, in bytes (2 MiB).
pub const DEFAULT_BODY_LIMIT_BYTES: usize = 2 * 1024 * 1024;

/// How long a request may take before the standard stack times it out, in
/// seconds.
pub const DEFAULT_TIMEOUT_SECS: u64 = 10;

/// A lowercase hexadecimal digit.
pub open spec fn is_lower_hex(c: char) -> bool {
    ('0' <= c && c <= '9') || ('a' <= c && c <= 'f')
}

/// The hyphenated lowercase text of a random (version 4, RFC 4122 variant)
/// UUID: 36 characters, hyphens at 8, 13, 18 and 23, lowercase hex digits
/// elsewhere, version digit `4`, variant digit one of `8`, `9`, `a`, `b`.
pub open spec fn is_random_uuid_text(text: Seq<char>) -> bool {
    &&& text.len() == 36
    &&& forall|i: int|
        0 <= i < 36 ==> if i == 8 || i == 13 || i == 18 || i == 23 {
            #[trigger] text[i] == '-'
        } else {
            is_lower_hex(text[i])
        }
    &&& text[14] == '4'
    &&& (text[19] == '8' || text[19] == '9' || text[19] == 'a' || text[19] == 'b')
}

/// Calls `uuid::Uuid::new_v4()` and formats it with `to_string` (its
/// `Display`, the hyphenated lowercase form). The value is random; what holds
/// of every outcome is its shape.
#[verifier::external_body]
fn random_uuid_text() -> (text: String)
    ensures
        is_random_uuid_text(text@),
{
    uuid::Uuid::new_v4().to_string()
}

/// `tower_http` ships no request-id generator: this is the one the kernel
/// uses, a random UUID per request.
#[derive(Clone, Copy, Default)]
pub struct MakeRequestUuid;

impl MakeRequestUuid {
    pub fn make_request_id(&mut self) -> (id: String)
        ensures
            is_random_uuid_text(id@),
    {
        random_uuid_text()
    }
}

} // verus!
