//! Upload handling: decoding, naming, typing and framing file data.
//!
//! The surrounding program moves bytes; everything that is decided about
//! them — the stored name, the inferred media type, the data URI sent to
//! the vision service, whether the uploaded payload decodes at all —
//! is decided here.

use vstd::prelude::*;
use crate::extract::{find_last, find_last_exec};
use crate::text::{chars_of, eq_chars, lower_of, lower_str, string_from_chars, sub_chars};

verus! {

/// An uploaded image or document, as listed for a record.
pub struct CheckupFile {
    pub id: String,
    pub record_id: String,
    pub project_id: String,
    pub project_name: Option<String>,
    pub original_filename: String,
    pub stored_path: String,
    pub file_size: i64,
    pub mime_type: String,
    pub uploaded_at: String,
}

/// One file of an upload request: the payload arrives in transfer
/// encoding under `file_data`.
pub struct UploadFileInput {
    pub record_id: String,
    pub project_id: String,
    pub checkup_date: String,
    pub file_data: String,
    pub filename: String,
}

/// The filename's extension: what follows the last dot, or the whole
/// name where there is none.
pub open spec fn ext_of(name: Seq<char>) -> Seq<char> {
    match find_last(name, '.', name.len() as int) {
        Option::Some(i) => name.skip(i + 1),
        Option::None => name,
    }
}

/// The media type inferred from a filename, by its lowercased extension.
pub open spec fn mime_of(name: Seq<char>) -> Seq<char> {
    let e = lower_of(ext_of(name));
    if e == "jpg"@ || e == "jpeg"@ {
        "image/jpeg"@
    } else if e == "png"@ {
        "image/png"@
    } else if e == "gif"@ {
        "image/gif"@
    } else if e == "bmp"@ {
        "image/bmp"@
    } else if e == "webp"@ {
        "image/webp"@
    } else if e == "pdf"@ {
        "application/pdf"@
    } else {
        "application/octet-stream"@
    }
}

/// Infer the media type of a file from its name.
pub fn guess_mime_type(filename: &str) -> (r: String)
    ensures
        r@ == mime_of(filename@),
{
    let v = chars_of(filename);
    let ext = match find_last_exec(&v, '.', v.len()) {
        Option::Some(i) => sub_chars(&v, i + 1, v.len()),
        Option::None => sub_chars(&v, 0, v.len()),
    };
    proof {
        assert(ext@ =~= ext_of(filename@));
    }
    let es = string_from_chars(&ext);
    let lo = lower_str(es.as_str());
    let e = chars_of(lo.as_str());
    if eq_chars(&e, &chars_of("jpg")) || eq_chars(&e, &chars_of("jpeg")) {
        String::from_str("image/jpeg")
    } else if eq_chars(&e, &chars_of("png")) {
        String::from_str("image/png")
    } else if eq_chars(&e, &chars_of("gif")) {
        String::from_str("image/gif")
    } else if eq_chars(&e, &chars_of("bmp")) {
        String::from_str("image/bmp")
    } else if eq_chars(&e, &chars_of("webp")) {
        String::from_str("image/webp")
    } else if eq_chars(&e, &chars_of("pdf")) {
        String::from_str("application/pdf")
    } else {
        String::from_str("application/octet-stream")
    }
}

/// What the transfer encoding of a byte sequence reads: standard
/// alphabet, with padding.
pub uninterp spec fn b64_of(b: Seq<u8>) -> Seq<char>;

/// Encode bytes for transfer.
///
/// Relies on the `base64` crate's `Engine::encode` with the standard
/// general-purpose engine: the result is a function of the bytes alone.
#[verifier::external_body]
pub fn b64_encode(b: &Vec<u8>) -> (r: String)
    ensures
        r@ == b64_of(b@),
{
    base64::Engine::encode(&base64::engine::general_purpose::STANDARD, b)
}

/// The bytes a transfer-encoded text decodes to, or nothing where it is
/// not valid for the standard engine.
pub uninterp spec fn b64_decode_of(s: Seq<char>) -> Option<Seq<u8>>;

/// Decode a transfer-encoded text.
///
/// Relies on the `base64` crate's `Engine::decode` with the standard
/// general-purpose engine: success and result are functions of the text
/// alone.
#[verifier::external_body]
pub fn b64_decode(s: &str) -> (r: Option<Vec<u8>>)
    ensures
        (match (r, b64_decode_of(s@)) {
            (Option::Some(v), Option::Some(b)) => v@ == b,
            (Option::None, Option::None) => true,
            _ => false,
        }),
{
    match base64::Engine::decode(&base64::engine::general_purpose::STANDARD, s) {
        Ok(v) => Some(v),
        Err(_) => None,
    }
}

/// The data URI under which a file is sent inline to the vision service.
pub fn data_uri(mime: &str, encoded: &str) -> (r: String)
    ensures
        r@ == "data:"@ + mime@ + ";base64,"@ + encoded@,
{
    let mut s = String::new();
    s.append("data:");
    s.append(mime);
    s.append(";base64,");
    s.append(encoded);
    proof {
        assert(s@ =~= "data:"@ + mime@ + ";base64,"@ + encoded@);
    }
    s
}

/// Frame file bytes as the inline image URL of a vision request.
pub fn file_data_url(mime: &str, bytes: &Vec<u8>) -> (r: String)
    ensures
        r@ == "data:"@ + mime@ + ";base64,"@ + b64_of(bytes@),
{
    let encoded = b64_encode(bytes);
    data_uri(mime, encoded.as_str())
}

/// The name under which an upload is stored: a short prefix of the fresh
/// identifier, an underscore, the original name.
pub fn stored_filename(id: &str, filename: &str) -> (r: String)
    requires
        id@.len() >= 8,
    ensures
        r@ == id@.subrange(0, 8) + "_"@ + filename@,
{
    let v = chars_of(id);
    let prefix = sub_chars(&v, 0, 8);
    let ps = string_from_chars(&prefix);
    let mut s = String::new();
    s.append(ps.as_str());
    s.append("_");
    s.append(filename);
    proof {
        assert(s@ =~= id@.subrange(0, 8) + "_"@ + filename@);
    }
    s
}

/// An upload, decoded and named, ready for the store and the disk.
pub struct PreparedUpload {
    pub bytes: Vec<u8>,
    pub size: usize,
    pub stored_filename: String,
    pub mime_type: String,
}

/// Decode and name one upload.  Rejected exactly when the payload is not
/// valid transfer encoding.
pub fn prepare_upload(input: &UploadFileInput, id: &str) -> (r: Result<PreparedUpload, String>)
    requires
        id@.len() >= 8,
    ensures
        (match r {
            Result::Ok(p) => {
                &&& b64_decode_of(input.file_data@) == Option::Some(p.bytes@)
                &&& p.size == p.bytes@.len()
                &&& p.stored_filename@ == id@.subrange(0, 8) + "_"@ + input.filename@
                &&& p.mime_type@ == mime_of(input.filename@)
            },
            Result::Err(e) => b64_decode_of(input.file_data@) is None && e@ == "文件解码失败"@,
        }),
{
    match b64_decode(input.file_data.as_str()) {
        Option::Some(bytes) => {
            let size = bytes.len();
            let stored = stored_filename(id, input.filename.as_str());
            let mime = guess_mime_type(input.filename.as_str());
            Ok(PreparedUpload { bytes, size, stored_filename: stored, mime_type: mime })
        },
        Option::None => Err(String::from_str("文件解码失败")),
    }
}

} // verus!
