//! The header that lets a browser read the server's reply from any origin.
use vstd::prelude::*;
use vstd::string::is_ascii_spec_bytes;
use vstd::string::StringSliceAdditionalSpecFns;

verus! {

/// `tiny_http::Header`, carried through as an opaque value.
#[verifier::external_type_specification]
#[verifier::external_body]
pub struct ExHeader(tiny_http::Header);

/// Whether every byte of `bytes` is ASCII.
pub open spec fn ascii_bytes(bytes: Seq<u8>) -> bool {
    forall|i: int| 0 <= i < bytes.len() ==> bytes[i] < 128
}

/// The header that `tiny_http::Header::from_bytes` builds from a field name
/// and a value, when it builds one.
pub uninterp spec fn built_header(field: Seq<u8>, value: Seq<u8>) -> tiny_http::Header;

/// Builds an HTTP header from its field name and value
/// (`tiny_http::Header::from_bytes`): it succeeds exactly when both are
/// ASCII, and what it builds depends on the field name and the value alone.
#[verifier::external_body]
fn header_from_bytes(field: &[u8], value: &[u8]) -> (r: Result<tiny_http::Header, ()>)
    ensures
        (r is Ok) == (ascii_bytes(field@) && ascii_bytes(value@)),
        r matches Ok(h) ==> h == built_header(field@, value@),
{
    tiny_http::Header::from_bytes(field, value)
}

/// The header that lets a page from any origin read the server's reply:
/// `Access-Control-Allow-Origin: *`. It can always be built.
pub fn cors_header() -> (h: Option<tiny_http::Header>)
    ensures
        h == Some(
            built_header("Access-Control-Allow-Origin".spec_bytes(), "*".spec_bytes()),
        ),
{
    let field = "Access-Control-Allow-Origin";
    let value = "*";
    proof {
        reveal_strlit("Access-Control-Allow-Origin");
        reveal_strlit("*");
        assert(vstd::string::is_ascii(field));
        assert(vstd::string::is_ascii(value));
        is_ascii_spec_bytes(field);
        is_ascii_spec_bytes(value);
    }
    header_from_bytes(field.as_bytes(), value.as_bytes()).ok()
}

} // verus!
