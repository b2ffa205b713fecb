//! The media type of the bodies that the endpoints take and give.

use vstd::prelude::*;

verus! {

/// The media type of JSON.
pub open spec fn json_media_type() -> Seq<char> {
    "application/json"@
}

/// `ContentType::json()` of actix-web is the header `Content-Type:
/// application/json`; written out as text it is the media type alone,
/// `application/json`.
#[verifier::external_body]
pub(crate) fn json_content_type() -> (media: String)
    ensures
        media@ == json_media_type(),
{
    actix_web::http::header::ContentType::json().to_string()
}

} // verus!
