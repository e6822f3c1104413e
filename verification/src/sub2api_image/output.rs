//! Extracting the image from a response: the first entry must carry its
//! data inline as standard base64.
use crate::sub2api_image::api::ApiResponse;
use crate::sub2api_image::errors::{AppError, ErrorKind};
use base64::Engine;
use vstd::prelude::*;

verus! {

broadcast use vstd::string::group_string_axioms;

/// The detail of the error for a response without images.
pub open spec fn no_data_text() -> Seq<char> {
    "data is empty"@
}

/// The detail of the error for an image given by URL only.
pub open spec fn url_mode_text() -> Seq<char> {
    "server returned URL mode, this version does not support downloading URL responses"@
}

/// The detail of the error for an image given neither inline nor by URL.
pub open spec fn no_image_text() -> Seq<char> {
    "data[0] has neither b64_json nor url"@
}

/// The detail of the error for inline data that is not base64.
pub open spec fn bad_base64_text() -> Seq<char> {
    "base64 decode failed"@
}

/// The base64 text of the first image, or why there is none: no data at
/// all, an image given by URL only, or an image given neither way.
pub open spec fn payload_of(resp: ApiResponse) -> Result<Seq<char>, (ErrorKind, Seq<char>)> {
    if resp.data@.len() == 0 {
        Err((ErrorKind::Parse, no_data_text()))
    } else {
        match resp.data@[0].b64_json {
            Some(b) => Ok(b@),
            None => if resp.data@[0].url is Some {
                Err((ErrorKind::Parse, url_mode_text()))
            } else {
                Err((ErrorKind::Parse, no_image_text()))
            },
        }
    }
}

/// The base64 text of the first image of `resp`.
pub fn first_image_payload(resp: &ApiResponse) -> (r: Result<String, AppError>)
    ensures
        match payload_of(*resp) {
            Ok(p) => r matches Ok(s) && s@ == p,
            Err(e) => r matches Err(x) && x@ == e,
        },
{
    proof {
        reveal_strlit("data is empty");
        reveal_strlit(
            "server returned URL mode, this version does not support downloading URL responses",
        );
        reveal_strlit("data[0] has neither b64_json nor url");
    }
    if resp.data.len() == 0 {
        return Err(AppError::Parse("data is empty".to_owned()));
    }
    let first = &resp.data[0];
    match &first.b64_json {
        Some(b) => Ok(b.clone()),
        None => {
            if first.url.is_some() {
                Err(
                    AppError::Parse(
                        "server returned URL mode, this version does not support downloading URL responses".to_owned(),
                    ),
                )
            } else {
                Err(AppError::Parse("data[0] has neither b64_json nor url".to_owned()))
            }
        },
    }
}

/// The bytes that the standard base64 engine (alphabet `A-Z a-z 0-9 + /`,
/// padding required) decodes from `text`, or `None` when it rejects it.
pub uninterp spec fn base64_standard(text: Seq<char>) -> Option<Seq<u8>>;

/// `base64::engine::general_purpose::STANDARD.decode`: claimed to return
/// exactly `base64_standard` of the text, `None` standing for its error.
#[verifier::external_body]
fn decode_standard(text: &str) -> (r: Option<Vec<u8>>)
    ensures
        match r {
            Some(v) => base64_standard(text@) == Some(v@),
            None => base64_standard(text@) is None,
        },
{
    base64::engine::general_purpose::STANDARD.decode(text.as_bytes()).ok()
}

/// The image bytes from the result of decoding, or a parse error when the
/// text was not base64.
pub open spec fn decoded_of(decoded: Option<Seq<u8>>) -> Result<Seq<u8>, (ErrorKind, Seq<char>)> {
    match decoded {
        Some(b) => Ok(b),
        None => Err((ErrorKind::Parse, bad_base64_text())),
    }
}

/// A byte result with its vector and its error read through their views.
pub open spec fn bytes_view(r: Result<Vec<u8>, AppError>) -> Result<Seq<u8>, (ErrorKind, Seq<char>)> {
    match r {
        Ok(v) => Ok(v@),
        Err(e) => Err(e@),
    }
}

/// The image bytes, given what decoding the base64 text gave.
pub fn decoded_image(decoded: Option<Vec<u8>>) -> (r: Result<Vec<u8>, AppError>)
    ensures
        bytes_view(r) == decoded_of(
            match decoded {
                Some(v) => Some(v@),
                None => None,
            },
        ),
{
    proof {
        reveal_strlit("base64 decode failed");
    }
    match decoded {
        Some(v) => Ok(v),
        None => Err(AppError::Parse("base64 decode failed".to_owned())),
    }
}

/// The image of a response: its first entry's inline data, decoded.
pub open spec fn image_of(resp: ApiResponse) -> Result<Seq<u8>, (ErrorKind, Seq<char>)> {
    match payload_of(resp) {
        Ok(p) => decoded_of(base64_standard(p)),
        Err(e) => Err(e),
    }
}

/// The bytes of the first image of `resp`, ready to be written out.
pub fn image_bytes(resp: &ApiResponse) -> (r: Result<Vec<u8>, AppError>)
    ensures
        bytes_view(r) == image_of(*resp),
{
    let payload = match first_image_payload(resp) {
        Ok(p) => p,
        Err(e) => {
            return Err(e);
        },
    };
    decoded_image(decode_standard(payload.as_str()))
}

/// Whatever goes wrong with the image of a response is a parse error
/// (exit 5); a response whose first entry carries valid base64 yields the
/// decoded bytes.
pub proof fn law_image_failures_are_parse_errors(resp: ApiResponse)
    ensures
        image_of(resp) matches Err((k, _)) ==> k == ErrorKind::Parse,
        resp.data@.len() > 0 && resp.data@[0].b64_json is Some && base64_standard(
            resp.data@[0].b64_json->0@,
        ) is Some ==> image_of(resp) == Ok::<Seq<u8>, (ErrorKind, Seq<char>)>(
            base64_standard(resp.data@[0].b64_json->0@)->0,
        ),
{
}

} // verus!
