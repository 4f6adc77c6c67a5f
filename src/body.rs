//! Body encoding: which of the body-shaped inputs is sent, how it is
//! serialised and which content type it implies; and the parts of a
//! multipart form.
use vstd::prelude::*;

use serde_json::{Number, Value};

verus! {

#[verifier::external_type_specification]
#[verifier::external_body]
pub struct ExValue(serde_json::Value);

#[verifier::external_type_specification]
#[verifier::external_body]
pub struct ExNumber(serde_json::Number);

#[verifier::external_type_specification]
#[verifier::external_body]
pub struct ExJsonError(serde_json::Error);

#[verifier::external_type_specification]
#[verifier::external_body]
pub struct ExUrlencodedError(serde_urlencoded::ser::Error);

/// Relies on `serde_json::Number`'s `Clone`.
pub assume_specification[ <serde_json::Number as Clone>::clone ](n: &serde_json::Number) -> serde_json::Number;

/// A JSON document, as the encoder reads it.
pub enum JsonValue {
    Null,
    Bool(bool),
    Number(Number),
    Text(String),
    Array(Vec<JsonValue>),
    /// The fields of an object, in the document's order. The keys are those
    /// of a `serde_json` map and so distinct.
    Object(Vec<(String, JsonValue)>),
}

/// A file to upload as one part of a multipart form.
pub enum FileEntry {
    /// A file on disk, streamed when the form is sent.
    ByPath { field: String, path: String },
    /// Bytes sent under a file name.
    ByBytes { field: String, filename: String, bytes: Vec<u8> },
    /// Bytes sent under a file name with a declared MIME type.
    ByBytesWithMime { field: String, filename: String, bytes: Vec<u8>, mime: String },
}

/// How a request body is produced.
#[derive(Clone, Copy, Debug, PartialEq, Eq, Structural)]
pub enum BodyKind {
    /// No body: the method carries none, or no input was given.
    NoBody,
    /// A multipart form of fields and files.
    Multipart,
    /// The raw content bytes, as given.
    Raw,
    /// Form data that is a string holding a JSON document, re-serialised.
    ParsedText,
    /// Form data that is a string but no JSON document, sent as it is.
    PlainText,
    /// Form data with a nested object or array value, sent as JSON.
    NestedJson,
    /// Flat form data, sent URL-encoded.
    UrlEncoded,
    /// The JSON input, serialised.
    Json,
}

/// A failure to encode a body.
#[derive(Debug, PartialEq, Eq, Structural)]
pub enum BodyError {
    /// The value could not be serialised.
    Encoding,
}

/// Whether `serde_json` parses the text as a JSON document.
pub uninterp spec fn is_json_text(s: Seq<char>) -> bool;

/// Whether the `mime` crate parses the text as a media type.
pub uninterp spec fn is_mime_text(s: Seq<char>) -> bool;

/// The text of the media type the `mime` crate parses from a text.
pub uninterp spec fn mime_text_of(s: Seq<char>) -> Seq<char>;

/// The bytes `serde_json` writes for the document it parses from a text.
pub uninterp spec fn json_reencoded(s: Seq<char>) -> Seq<u8>;

/// What `Path::file_name` finds as the last component of a path, as text.
pub uninterp spec fn file_name_of(p: Seq<char>) -> Option<Seq<char>>;

/// Relies on `serde_json::from_str` and `serde_json::to_vec`: the text is
/// parsed as a JSON value or refused, depending on the text alone, and a
/// parsed value is written back as compact JSON (writing a `Value` into a
/// `Vec` cannot fail).
#[verifier::external_body]
fn reencode_json(s: &str) -> (r: Result<Vec<u8>, serde_json::Error>)
    ensures
        r.is_ok() == is_json_text(s@),
        r.is_ok() ==> r->Ok_0@ == json_reencoded(s@),
{
    serde_json::from_str::<Value>(s).and_then(|v| serde_json::to_vec(&v))
}

/// Relies on `serde_json::to_vec`: the JSON text of the value; writing a
/// `Value` into a `Vec` cannot fail.
#[verifier::external_body]
fn json_bytes(v: &Value) -> (r: Result<Vec<u8>, serde_json::Error>)
    ensures
        r.is_ok(),
{
    serde_json::to_vec(v)
}

/// Relies on `Value`'s `Display`: the compact JSON text of the value.
#[verifier::external_body]
fn json_text(v: &Value) -> (r: String) {
    v.to_string()
}

/// Relies on `serde_urlencoded::to_string`: the
/// `application/x-www-form-urlencoded` text of a flat object.
#[verifier::external_body]
fn urlencoded_text(v: &Value) -> (r: Result<String, serde_urlencoded::ser::Error>) {
    serde_urlencoded::to_string(v)
}

/// Relies on `serde_json::Value::Null`.
#[verifier::external_body]
fn value_null() -> (r: Value) {
    Value::Null
}

/// Relies on `serde_json::Value::Bool`.
#[verifier::external_body]
fn value_bool(b: bool) -> (r: Value) {
    Value::Bool(b)
}

/// Relies on `serde_json::Value::Number`.
#[verifier::external_body]
fn value_number(n: Number) -> (r: Value) {
    Value::Number(n)
}

/// Relies on `serde_json::Value::String`.
#[verifier::external_body]
fn value_string(s: String) -> (r: Value) {
    Value::String(s)
}

/// Relies on `serde_json::Value::Array`.
#[verifier::external_body]
fn value_array(items: Vec<Value>) -> (r: Value) {
    Value::Array(items)
}

/// Relies on `serde_json::Value::Object`, with the fields collected into a
/// `serde_json::Map`.
#[verifier::external_body]
fn value_object(fields: Vec<(String, Value)>) -> (r: Value) {
    Value::Object(fields.into_iter().collect())
}

/// Relies on `mime::Mime`'s `FromStr` and its `AsRef<str>`: the text is
/// parsed as a media type or refused, depending on the text alone, and a
/// parsed type is given back as its text.
#[verifier::external_body]
fn parse_mime(s: &str) -> (r: Option<String>)
    ensures
        r.is_some() == is_mime_text(s@),
        r.is_some() ==> r->Some_0@ == mime_text_of(s@),
{
    s.parse::<mime::Mime>().ok().map(|m| m.as_ref().to_string())
}

/// Relies on `std::path::Path::file_name`: the last component of the path,
/// where there is one and it is valid UTF-8.
#[verifier::external_body]
fn base_name(p: &str) -> (r: Option<String>)
    ensures
        match r {
            Some(n) => file_name_of(p@) == Some(n@),
            None => file_name_of(p@).is_none(),
        },
{
    std::path::Path::new(p).file_name().and_then(|n| n.to_str()).map(|n| n.to_string())
}

/// An object with some field whose value is itself an object or an array.
pub open spec fn is_nested(v: &JsonValue) -> bool {
    match v {
        JsonValue::Object(f) => exists|i: int|
            0 <= i < f.len() && (f@[i].1 is Object || f@[i].1 is Array),
        _ => false,
    }
}

/// Which input a request with a body-carrying method sends, and how: files
/// first, then raw content, then form data, then JSON.
pub open spec fn body_kind(
    carries_body: bool,
    has_files: bool,
    has_content: bool,
    data: Option<&JsonValue>,
    has_json: bool,
) -> BodyKind {
    if !carries_body {
        BodyKind::NoBody
    } else if has_files {
        BodyKind::Multipart
    } else if has_content {
        BodyKind::Raw
    } else if data.is_some() {
        match data.unwrap() {
            JsonValue::Text(s) => if is_json_text(s@) {
                BodyKind::ParsedText
            } else {
                BodyKind::PlainText
            },
            _ => if is_nested(data.unwrap()) {
                BodyKind::NestedJson
            } else {
                BodyKind::UrlEncoded
            },
        }
    } else if has_json {
        BodyKind::Json
    } else {
        BodyKind::NoBody
    }
}

/// The content type a body kind implies.
pub open spec fn kind_content_type(k: BodyKind) -> Option<Seq<char>> {
    match k {
        BodyKind::ParsedText | BodyKind::NestedJson | BodyKind::Json => Some(
            "application/json"@,
        ),
        BodyKind::UrlEncoded => Some("application/x-www-form-urlencoded"@),
        _ => None,
    }
}

/// Decides how the body is produced.
pub fn choose_body_kind(
    carries_body: bool,
    has_files: bool,
    has_content: bool,
    data: Option<&JsonValue>,
    has_json: bool,
) -> (r: BodyKind)
    ensures
        r == body_kind(carries_body, has_files, has_content, data, has_json),
{
    if !carries_body {
        BodyKind::NoBody
    } else if has_files {
        BodyKind::Multipart
    } else if has_content {
        BodyKind::Raw
    } else {
        match data {
            Some(d) => match d {
                JsonValue::Text(s) => {
                    let parsed = reencode_json(s.as_str());
                    if parsed.is_ok() {
                        BodyKind::ParsedText
                    } else {
                        BodyKind::PlainText
                    }
                },
                _ => {
                    if has_nested_field(d) {
                        BodyKind::NestedJson
                    } else {
                        BodyKind::UrlEncoded
                    }
                },
            },
            None => {
                if has_json {
                    BodyKind::Json
                } else {
                    BodyKind::NoBody
                }
            },
        }
    }
}

fn any_nested(f: &Vec<(String, JsonValue)>) -> (r: bool)
    ensures
        r == exists|i: int| 0 <= i < f.len() && (f@[i].1 is Object || f@[i].1 is Array),
{
    let mut i: usize = 0;
    while i < f.len()
        invariant
            0 <= i <= f.len(),
            forall|j: int| 0 <= j < i ==> !(f@[j].1 is Object || f@[j].1 is Array),
        decreases f.len() - i,
    {
        let nested = match &f[i].1 {
            JsonValue::Object(_) => true,
            JsonValue::Array(_) => true,
            _ => false,
        };
        if nested {
            assert(0 <= i < f.len() && (f@[i as int].1 is Object || f@[i as int].1 is Array));
            return true;
        }
        i = i + 1;
    }
    false
}

/// Whether the value is an object with a nested object or array value.
pub fn has_nested_field(v: &JsonValue) -> (r: bool)
    ensures
        r == is_nested(v),
{
    match v {
        JsonValue::Object(f) => any_nested(f),
        _ => false,
    }
}

/// The `serde_json` value of a document.
pub fn to_serde(v: &JsonValue) -> (r: Value)
    decreases v,
{
    match v {
        JsonValue::Null => value_null(),
        JsonValue::Bool(b) => value_bool(*b),
        JsonValue::Number(n) => value_number(n.clone()),
        JsonValue::Text(s) => value_string(s.clone()),
        JsonValue::Array(items) => {
            let mut out: Vec<Value> = Vec::new();
            let mut i: usize = 0;
            while i < items.len()
                invariant
                    0 <= i <= items.len(),
                    *v == JsonValue::Array(*items),
                decreases items.len() - i,
            {
                proof {
                    assert(decreases_to!(*v => v->Array_0));
                    assert(decreases_to!(v->Array_0 => v->Array_0[i as int]));
                }
                out.push(to_serde(&items[i]));
                i = i + 1;
            }
            value_array(out)
        },
        JsonValue::Object(fields) => {
            let mut out: Vec<(String, Value)> = Vec::new();
            let mut i: usize = 0;
            while i < fields.len()
                invariant
                    0 <= i <= fields.len(),
                    *v == JsonValue::Object(*fields),
                decreases fields.len() - i,
            {
                proof {
                    assert(decreases_to!(*v => v->Object_0));
                    assert(decreases_to!(v->Object_0 => v->Object_0[i as int]));
                    assert(decreases_to!(v->Object_0[i as int] => v->Object_0[i as int].1));
                }
                out.push((fields[i].0.clone(), to_serde(&fields[i].1)));
                i = i + 1;
            }
            value_object(out)
        },
    }
}

/// The bytes of a body, where the kind fixes them: raw content as given, a
/// non-JSON string as its UTF-8 bytes, a JSON string re-encoded.
pub open spec fn bytes_match(b: EncodedBody, content: Option<Vec<u8>>, data: Option<JsonValue>) -> bool {
    &&& b.kind == BodyKind::Raw ==> b.bytes.unwrap()@ == content.unwrap()@
    &&& b.kind == BodyKind::PlainText ==> data.unwrap() is Text && b.bytes.unwrap()@
        == vstd::utf8::encode_utf8(data.unwrap()->Text_0@)
    &&& b.kind == BodyKind::ParsedText ==> data.unwrap() is Text && b.bytes.unwrap()@
        == json_reencoded(data.unwrap()->Text_0@)
}

/// A body ready to send.
pub struct EncodedBody {
    pub kind: BodyKind,
    /// The bytes to send; none for no body and for a multipart form.
    pub bytes: Option<Vec<u8>>,
    /// The content type the encoding implies.
    pub content_type: Option<String>,
}

pub open spec fn opt_text(s: Option<String>) -> Option<Seq<char>> {
    match s {
        Some(x) => Some(x@),
        None => None,
    }
}

/// Encodes the body of a request: the inputs that win by precedence are
/// serialised as their kind says.
pub fn encode_body(
    carries_body: bool,
    has_files: bool,
    content: &Option<Vec<u8>>,
    data: &Option<JsonValue>,
    json: &Option<JsonValue>,
) -> (r: Result<EncodedBody, BodyError>)
    ensures
        ({
            let k = body_kind(
                carries_body,
                has_files,
                content.is_some(),
                match data {
                    Some(d) => Some(d),
                    None => None,
                },
                json.is_some(),
            );
            &&& r.is_err() ==> k == BodyKind::UrlEncoded
            &&& match r {
                Ok(b) => {
                    &&& b.kind == k
                    &&& opt_text(b.content_type) == kind_content_type(k)
                    &&& (k == BodyKind::NoBody || k == BodyKind::Multipart) <==> b.bytes.is_none()
                    &&& bytes_match(b, *content, *data)
                },
                Err(e) => e == BodyError::Encoding,
            }
        }),
{
    let d: Option<&JsonValue> = match data {
        Some(x) => Some(x),
        None => None,
    };
    let kind = choose_body_kind(carries_body, has_files, content.is_some(), d, json.is_some());
    let bytes: Option<Vec<u8>> = match kind {
        BodyKind::NoBody | BodyKind::Multipart => None,
        BodyKind::Raw => match content {
            Some(c) => Some(c.clone()),
            None => None,
        },
        BodyKind::PlainText | BodyKind::ParsedText => {
            match data {
                Some(JsonValue::Text(s)) => {
                    if kind == BodyKind::PlainText {
                        Some(s.as_str().as_bytes_vec())
                    } else {
                        match reencode_json(s.as_str()) {
                            Ok(b) => Some(b),
                            Err(_) => {
                                return Err(BodyError::Encoding);
                            },
                        }
                    }
                },
                _ => None,
            }
        },
        BodyKind::NestedJson => match data {
            Some(v) => match json_bytes(&to_serde(v)) {
                Ok(b) => Some(b),
                Err(_) => {
                    return Err(BodyError::Encoding);
                },
            },
            None => None,
        },
        BodyKind::UrlEncoded => match data {
            Some(v) => match urlencoded_text(&to_serde(v)) {
                Ok(t) => Some(t.as_str().as_bytes_vec()),
                Err(_) => {
                    return Err(BodyError::Encoding);
                },
            },
            None => None,
        },
        BodyKind::Json => match json {
            Some(v) => match json_bytes(&to_serde(v)) {
                Ok(b) => Some(b),
                Err(_) => {
                    return Err(BodyError::Encoding);
                },
            },
            None => None,
        },
    };
    let content_type: Option<String> = match kind {
        BodyKind::ParsedText | BodyKind::NestedJson | BodyKind::Json => Some(
            String::from_str("application/json"),
        ),
        BodyKind::UrlEncoded => Some(String::from_str("application/x-www-form-urlencoded")),
        _ => None,
    };
    Ok(EncodedBody { kind, bytes, content_type })
}

/// The body metadata that header ordering needs.
pub fn body_shape(b: &EncodedBody) -> (r: crate::headers::BodyShape)
    ensures
        match b.bytes {
            Some(x) => r == crate::headers::BodyShape::Sized(x.len()),
            None => if b.kind == BodyKind::Multipart {
                r == crate::headers::BodyShape::Multipart
            } else {
                r == crate::headers::BodyShape::Absent
            },
        },
{
    match &b.bytes {
        Some(x) => crate::headers::BodyShape::Sized(x.len()),
        None => {
            if b.kind == BodyKind::Multipart {
                crate::headers::BodyShape::Multipart
            } else {
                crate::headers::BodyShape::Absent
            }
        },
    }
}

/// Where the content of a file part comes from.
pub enum PartSource {
    /// A file on disk, streamed.
    Path(String),
    /// Bytes in memory.
    Bytes(Vec<u8>),
}

/// One file part of a multipart form.
pub struct FilePart {
    pub field: String,
    pub filename: String,
    pub source: PartSource,
    /// The declared media type, where it parses as one.
    pub mime: Option<String>,
}

/// A multipart form: text fields, then file parts.
pub struct MultipartPlan {
    pub text_fields: Vec<(String, String)>,
    pub files: Vec<FilePart>,
}

/// The text of a form field: a string as it is, anything else as JSON.
pub fn field_text(v: &JsonValue) -> (r: String)
    ensures
        v is Text ==> r@ == v->Text_0@,
{
    match v {
        JsonValue::Text(s) => s.clone(),
        _ => json_text(&to_serde(v)),
    }
}

/// `r` is the part made for the file entry `f`.
pub open spec fn file_part_of(r: FilePart, f: FileEntry) -> bool {
        match f {
            FileEntry::ByPath { field, path } => {
                &&& r.field@ == field@
                &&& r.source is Path && r.source->Path_0@ == path@
                &&& r.filename@ == match file_name_of(path@) {
                    Some(n) => n,
                    None => field@,
                }
                &&& r.mime.is_none()
            },
            FileEntry::ByBytes { field, filename, bytes } => {
                &&& r.field@ == field@
                &&& r.filename@ == filename@
                &&& r.source is Bytes && r.source->Bytes_0@ == bytes@
                &&& r.mime.is_none()
            },
            FileEntry::ByBytesWithMime { field, filename, bytes, mime } => {
                &&& r.field@ == field@
                &&& r.filename@ == filename@
                &&& r.source is Bytes && r.source->Bytes_0@ == bytes@
                &&& r.mime.is_some() == is_mime_text(mime@)
                &&& r.mime.is_some() ==> r.mime->Some_0@ == mime_text_of(mime@)
            },
        }
}

/// The file part for one entry: a path's part is named after the path's last
/// component (or the field where there is none); a declared MIME type is
/// kept only where it parses.
pub fn file_part(f: &FileEntry) -> (r: FilePart)
    ensures
        file_part_of(r, *f),
{
    match f {
        FileEntry::ByPath { field, path } => {
            let filename = match base_name(path.as_str()) {
                Some(n) => n,
                None => field.clone(),
            };
            FilePart {
                field: field.clone(),
                filename,
                source: PartSource::Path(path.clone()),
                mime: None,
            }
        },
        FileEntry::ByBytes { field, filename, bytes } => {
            FilePart {
                field: field.clone(),
                filename: filename.clone(),
                source: PartSource::Bytes(bytes.clone()),
                mime: None,
            }
        },
        FileEntry::ByBytesWithMime { field, filename, bytes, mime } => {
            let m = parse_mime(mime.as_str());
            FilePart {
                field: field.clone(),
                filename: filename.clone(),
                source: PartSource::Bytes(bytes.clone()),
                mime: m,
            }
        },
    }
}

/// `r` is the multipart form for the form data and files: one text field
/// per field of object form data (a string field keeps its text), then one
/// part per file, in order.
pub open spec fn multipart_matches(r: MultipartPlan, data: Option<JsonValue>, files: Seq<FileEntry>) -> bool {
    &&& r.files.len() == files.len()
    &&& forall|i: int| 0 <= i < files.len() ==> file_part_of(#[trigger] r.files[i], files[i])
    &&& match data {
        Some(JsonValue::Object(f)) => {
            &&& r.text_fields.len() == f.len()
            &&& forall|i: int|
                0 <= i < f.len() ==> (#[trigger] r.text_fields[i]).0@ == f@[i].0@ && (f@[i].1 is Text
                    ==> r.text_fields[i].1@ == f@[i].1->Text_0@)
        },
        _ => r.text_fields.len() == 0,
    }
}

/// The multipart form: each field of object form data as a text field, in
/// order, then one part per file, in order.
pub fn plan_multipart(data: &Option<JsonValue>, files: &Vec<FileEntry>) -> (r: MultipartPlan)
    ensures
        multipart_matches(r, *data, files@),
{
    let mut text_fields: Vec<(String, String)> = Vec::new();
    match data {
        Some(JsonValue::Object(f)) => {
            let mut i: usize = 0;
            while i < f.len()
                invariant
                    0 <= i <= f.len(),
                    text_fields.len() == i,
                    forall|j: int|
                        0 <= j < i ==> (#[trigger] text_fields[j]).0@ == f@[j].0@ && (f@[j].1 is Text
                            ==> text_fields[j].1@ == f@[j].1->Text_0@),
                decreases f.len() - i,
            {
                text_fields.push((f[i].0.clone(), field_text(&f[i].1)));
                i = i + 1;
            }
        },
        _ => {},
    }
    let mut parts: Vec<FilePart> = Vec::new();
    let mut i: usize = 0;
    while i < files.len()
        invariant
            0 <= i <= files.len(),
            parts.len() == i,
            forall|j: int| 0 <= j < i ==> file_part_of(#[trigger] parts[j], files[j]),
        decreases files.len() - i,
    {
        parts.push(file_part(&files[i]));
        i = i + 1;
    }
    MultipartPlan { text_fields, files: parts }
}

/// Form data decides its content type by its shape: a string that parses as
/// JSON is sent as `application/json`, a flat object as
/// `application/x-www-form-urlencoded`, and an object with a nested object
/// or array value as `application/json`.
pub proof fn lemma_form_content_type(data: &JsonValue, has_json: bool)
    ensures
        ({
            let ct = kind_content_type(body_kind(true, false, false, Some(data), has_json));
            &&& (data is Text && is_json_text(data->Text_0@)) ==> ct == Some("application/json"@)
            &&& (data is Object && !is_nested(data)) ==> ct == Some(
                "application/x-www-form-urlencoded"@,
            )
            &&& is_nested(data) ==> ct == Some("application/json"@)
        }),
{
}

} // verus!
