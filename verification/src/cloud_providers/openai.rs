//! OpenAI-compatible (`/audio/transcriptions`) provider: the multipart form
//! that goes out and the reading of the answer.
use vstd::prelude::*;

use super::{
    is_success_status, silent_wav, silent_wav_bytes, CloudProvider, TranscriptionRequest,
    MODEL_ID_CLOUD,
};
use super::gemini::opt_chars;
use crate::settings::AppSettings;
use vstd::utf8::encode_utf8;
use crate::text::{str_eq, to_owned_string, trim, trim_end_char, trim_end_char_str, trim_str};

verus! {

/// Path of the transcription endpoint below the base URL.
pub const TRANSCRIPTIONS_PATH: &'static str = "/audio/transcriptions";

/// Name under which the audio file is uploaded.
pub const AUDIO_FILE_NAME: &'static str = "audio.wav";

/// MIME type of the uploaded audio.
pub const AUDIO_MIME_TYPE: &'static str = "audio/wav";

/// The language setting that leaves the language to the service.
pub const AUTO_LANGUAGE: &'static str = "auto";

/// The key of the transcription in the JSON answer.
pub const TEXT_KEY: &'static str = "text";

/// The value of a member of a JSON object, by kind.
pub enum JsonMember {
    Null,
    Bool(bool),
    /// A number: its JSON text.
    Number(String),
    /// A string: its contents.
    Str(String),
    /// An array: its JSON text.
    Array(String),
    /// An object: its JSON text.
    Object(String),
}

/// The characters of a `JsonMember`.
pub enum JsonMemberView {
    Null,
    Bool(bool),
    Number(Seq<char>),
    Str(Seq<char>),
    Array(Seq<char>),
    Object(Seq<char>),
}

impl View for JsonMember {
    type V = JsonMemberView;

    open spec fn view(&self) -> JsonMemberView {
        match self {
            JsonMember::Null => JsonMemberView::Null,
            JsonMember::Bool(b) => JsonMemberView::Bool(*b),
            JsonMember::Number(t) => JsonMemberView::Number(t@),
            JsonMember::Str(s) => JsonMemberView::Str(s@),
            JsonMember::Array(t) => JsonMemberView::Array(t@),
            JsonMember::Object(t) => JsonMemberView::Object(t@),
        }
    }
}

/// A JSON text, read just far enough to tell an object from the rest.
pub enum ParsedJson {
    /// An object, with its members in the order the parser yields them.
    Object(Vec<(String, JsonMember)>),
    /// A well-formed JSON value that is not an object.
    OtherValue,
    /// Not well-formed JSON.
    Invalid,
}

/// The characters of a `ParsedJson`.
pub enum ParsedJsonView {
    Object(Seq<(Seq<char>, JsonMemberView)>),
    OtherValue,
    Invalid,
}

/// The characters of a list of object members.
pub open spec fn members_view(ms: Seq<(String, JsonMember)>) -> Seq<(Seq<char>, JsonMemberView)> {
    ms.map_values(|m: (String, JsonMember)| (m.0@, m.1@))
}

impl View for ParsedJson {
    type V = ParsedJsonView;

    open spec fn view(&self) -> ParsedJsonView {
        match self {
            ParsedJson::Object(ms) => ParsedJsonView::Object(members_view(ms@)),
            ParsedJson::OtherValue => ParsedJsonView::OtherValue,
            ParsedJson::Invalid => ParsedJsonView::Invalid,
        }
    }
}

/// What `serde_json` reads from `text` as a `serde_json::Value`.
pub uninterp spec fn json_document(text: Seq<char>) -> ParsedJsonView;

/// Parses `text` with `serde_json::from_str::<serde_json::Value>` and hands
/// out an object's members by kind (numbers, arrays and objects by their
/// `to_string`); the contract names the result and says no more of it.
#[verifier::external_body]
fn parse_json(text: &str) -> (r: ParsedJson)
    ensures
        r@ == json_document(text@),
{
    match serde_json::from_str::<serde_json::Value>(text) {
        Ok(serde_json::Value::Object(map)) => ParsedJson::Object(map.into_iter().map(|(k, v)| (k, match v {
            serde_json::Value::Null => JsonMember::Null,
            serde_json::Value::Bool(b) => JsonMember::Bool(b),
            serde_json::Value::Number(n) => JsonMember::Number(n.to_string()),
            serde_json::Value::String(s) => JsonMember::Str(s),
            a @ serde_json::Value::Array(_) => JsonMember::Array(a.to_string()),
            o @ serde_json::Value::Object(_) => JsonMember::Object(o.to_string()),
        })).collect()),
        Ok(_) => ParsedJson::OtherValue,
        Err(_) => ParsedJson::Invalid,
    }
}

/// The hexadecimal digit for `v` (below 16).
pub open spec fn hex_digit(v: int) -> char {
    if v < 10 {
        (48 + v) as char
    } else {
        (87 + v) as char
    }
}

/// How a character stands inside a JSON string literal (RFC 8259, section
/// 7): quotation mark and reverse solidus escaped with a reverse solidus,
/// control characters as `\u00XX`, every other character as itself.
pub open spec fn json_escape_char(c: char) -> Seq<char> {
    if c == '"' {
        seq!['\\', '"']
    } else if c == '\\' {
        seq!['\\', '\\']
    } else if (c as u32) < 0x20 {
        seq!['\\', 'u', '0', '0', hex_digit(((c as u32) / 16) as int), hex_digit(((c as u32) % 16) as int)]
    } else {
        seq![c]
    }
}

/// The characters of `s` as they stand inside a JSON string literal.
pub open spec fn json_escape(s: Seq<char>) -> Seq<char>
    decreases s.len(),
{
    if s.len() == 0 {
        seq![]
    } else {
        json_escape_char(s[0]) + json_escape(s.drop_first())
    }
}

/// The JSON string literal for `s`.
pub open spec fn json_string_text(s: Seq<char>) -> Seq<char> {
    seq!['"'] + json_escape(s) + seq!['"']
}

/// The JSON text of an object with the single member `key`, whose value is
/// the string `value`.
pub open spec fn json_single_string_member(key: Seq<char>, value: Seq<char>) -> Seq<char> {
    seq!['{'] + json_string_text(key) + seq![':'] + json_string_text(value) + seq!['}']
}

/// Whether `w` is JSON white space: spaces, tabs, line feeds and carriage
/// returns only.
pub open spec fn is_json_ws(w: Seq<char>) -> bool {
    forall|i: int| 0 <= i < w.len() ==> w[i] == ' ' || w[i] == '\t' || w[i] == '\n' || w[i] == '\r'
}

/// Whether `ws` is the white space around and between the tokens of an
/// object with one member: before `{`, after it, after the name, after `:`,
/// after the value and after `}`.
pub open spec fn is_json_spacing(ws: Seq<Seq<char>>) -> bool {
    &&& ws.len() == 6
    &&& forall|i: int| 0 <= i < 6 ==> is_json_ws(#[trigger] ws[i])
}

/// The JSON text of an object with the single member `key`, whose value is
/// the string `value`, spaced by `ws`.
pub open spec fn json_spaced_string_member(key: Seq<char>, value: Seq<char>, ws: Seq<Seq<char>>) -> Seq<
    char,
> {
    ws[0] + seq!['{'] + ws[1] + json_string_text(key) + ws[2] + seq![':'] + ws[3] + json_string_text(value)
        + ws[4] + seq!['}'] + ws[5]
}

/// What `serde_json` reads from the bytes `body` as a `serde_json::Value`.
pub uninterp spec fn json_document_bytes(body: Seq<u8>) -> ParsedJsonView;

/// Parses `body` with `serde_json::from_slice::<serde_json::Value>` and hands
/// out an object's members by kind, as `parse_json` does; the contract names
/// the result, and states what JSON says of the UTF-8 text of an object with
/// one string member, written tight or with JSON white space between and
/// around its tokens: the parser reads that member's name and characters.
#[verifier::external_body]
fn parse_json_bytes(body: &[u8]) -> (r: ParsedJson)
    ensures
        r@ == json_document_bytes(body@),
        forall|k: Seq<char>, t: Seq<char>|
            #[trigger] encode_utf8(json_single_string_member(k, t)) == body@ ==> r@
                == ParsedJsonView::Object(seq![(k, JsonMemberView::Str(t))]),
        forall|k: Seq<char>, t: Seq<char>, ws: Seq<Seq<char>>|
            is_json_spacing(ws) && #[trigger] encode_utf8(json_spaced_string_member(k, t, ws))
                == body@ ==> r@ == ParsedJsonView::Object(seq![(k, JsonMemberView::Str(t))]),
{
    match serde_json::from_slice::<serde_json::Value>(body) {
        Ok(serde_json::Value::Object(map)) => ParsedJson::Object(map.into_iter().map(|(k, v)| (k, match v {
            serde_json::Value::Null => JsonMember::Null,
            serde_json::Value::Bool(b) => JsonMember::Bool(b),
            serde_json::Value::Number(n) => JsonMember::Number(n.to_string()),
            serde_json::Value::String(s) => JsonMember::Str(s),
            a @ serde_json::Value::Array(_) => JsonMember::Array(a.to_string()),
            o @ serde_json::Value::Object(_) => JsonMember::Object(o.to_string()),
        })).collect()),
        Ok(_) => ParsedJson::OtherValue,
        Err(_) => ParsedJson::Invalid,
    }
}

/// Whether `i` is the position of the first member named `key`.
pub open spec fn is_first_member(ms: Seq<(Seq<char>, JsonMemberView)>, key: Seq<char>, i: int) -> bool {
    &&& 0 <= i < ms.len()
    &&& ms[i].0 == key
    &&& forall|j: int| 0 <= j < i ==> ms[j].0 != key
}

/// The string member `key` of a parsed JSON text, as `value[key].as_str()`
/// reads it: `None` for text that is not JSON; `Some(None)` when the value is
/// not an object, has no member `key`, or that member is not a string.
pub open spec fn str_member_spec(parsed: ParsedJsonView, key: Seq<char>) -> Option<Option<Seq<char>>> {
    match parsed {
        ParsedJsonView::Invalid => None,
        ParsedJsonView::OtherValue => Some(None),
        ParsedJsonView::Object(ms) => if exists|i: int| is_first_member(ms, key, i) {
            let i = choose|i: int| is_first_member(ms, key, i);
            match ms[i].1 {
                JsonMemberView::Str(s) => Some(Some(s)),
                _ => Some(None),
            }
        } else {
            Some(None)
        },
    }
}

/// The string member `key` of a parsed JSON text.
pub fn str_member(parsed: &ParsedJson, key: &str) -> (r: Option<Option<String>>)
    ensures
        opt_opt_chars(r) == str_member_spec(parsed@, key@),
{
    match parsed {
        ParsedJson::Invalid => None,
        ParsedJson::OtherValue => Some(None),
        ParsedJson::Object(ms) => {
            let ghost mv = members_view(ms@);
            let n = ms.len();
            let mut i: usize = 0;
            while i < n
                invariant
                    n == ms@.len(),
                    mv == members_view(ms@),
                    parsed@ == ParsedJsonView::Object(mv),
                    i <= n,
                    forall|j: int| 0 <= j < i ==> mv[j].0 != key@,
                decreases n - i,
            {
                if str_eq(ms[i].0.as_str(), key) {
                    assert(is_first_member(mv, key@, i as int));
                    proof {
                        let k = choose|k: int| is_first_member(mv, key@, k);
                        if k < i {
                            assert(mv[k].0 != key@);
                        } else if i < k {
                            assert(mv[i as int].0 != key@);
                        }
                    }
                    assert(mv[i as int].1 == ms@[i as int].1@);
                    let r = match &ms[i].1 {
                        JsonMember::Str(s) => Some(Some(s.clone())),
                        _ => Some(None),
                    };
                    return r;
                }
                i = i + 1;
            }
            assert(!exists|k: int| is_first_member(mv, key@, k));
            Some(None)
        },
    }
}

/// The text of `bytes` decoded as UTF-8, each invalid sequence replaced by
/// U+FFFD.
pub uninterp spec fn utf8_lossy(bytes: Seq<u8>) -> Seq<char>;

/// Decodes with `String::from_utf8_lossy`; the contract names the result.
#[verifier::external_body]
fn decode_utf8_lossy(bytes: &[u8]) -> (r: String)
    ensures
        r@ == utf8_lossy(bytes@),
{
    String::from_utf8_lossy(bytes).into_owned()
}

/// The characters of optional object members.
pub open spec fn opt_members_view(o: Option<Vec<(String, JsonMember)>>) -> Option<
    Seq<(Seq<char>, JsonMemberView)>,
> {
    match o {
        Some(ms) => Some(members_view(ms@)),
        None => None,
    }
}

/// The extra form fields configured in `raw`: the members of the JSON object
/// that `raw` holds once trimmed; none when `raw` is blank or holds anything
/// but a JSON object.
pub open spec fn extra_params(raw: Seq<char>) -> Option<Seq<(Seq<char>, JsonMemberView)>> {
    let t = trim(raw);
    if t.len() == 0 {
        None
    } else {
        match json_document(t) {
            ParsedJsonView::Object(ms) => Some(ms),
            _ => None,
        }
    }
}

/// The extra parameters in a parsed JSON text: an object's members; none
/// for any other value or for text that is not JSON.
pub open spec fn object_members(parsed: ParsedJsonView) -> Option<Seq<(Seq<char>, JsonMemberView)>> {
    match parsed {
        ParsedJsonView::Object(ms) => Some(ms),
        _ => None,
    }
}

/// The extra parameters in a parsed JSON text.
pub fn extra_params_from(parsed: ParsedJson) -> (r: Option<Vec<(String, JsonMember)>>)
    ensures
        opt_members_view(r) == object_members(parsed@),
{
    match parsed {
        ParsedJson::Object(ms) => Some(ms),
        _ => None,
    }
}

/// Parse a JSON string into its object members, ignoring invalid input.
pub fn parse_extra_params(raw: &str) -> (r: Option<Vec<(String, JsonMember)>>)
    ensures
        opt_members_view(r) == extra_params(raw@),
{
    let trimmed = trim_str(raw);
    if trimmed.as_str().unicode_len() == 0 {
        return None;
    }
    extra_params_from(parse_json(trimmed.as_str()))
}

/// The language to send: none for the automatic setting, else the setting.
pub open spec fn language_param_spec(selected: Seq<char>) -> Option<Seq<char>> {
    if selected == AUTO_LANGUAGE@ {
        None
    } else {
        Some(selected)
    }
}

/// The language to send for the selected language setting.
pub fn language_param(selected_language: &str) -> (r: Option<String>)
    ensures
        opt_chars(r) == language_param_spec(selected_language@),
{
    if str_eq(selected_language, AUTO_LANGUAGE) {
        None
    } else {
        Some(to_owned_string(selected_language))
    }
}

/// The transcription endpoint below `base_url`, whose trailing slashes are
/// dropped first.
pub open spec fn transcriptions_url_spec(base_url: Seq<char>) -> Seq<char> {
    trim_end_char(base_url, '/') + TRANSCRIPTIONS_PATH@
}

/// The transcription endpoint below `base_url`.
pub fn transcriptions_url(base_url: &str) -> (r: String)
    ensures
        r@ == transcriptions_url_spec(base_url@),
{
    let mut url = trim_end_char_str(base_url, '/');
    url.append(TRANSCRIPTIONS_PATH);
    url
}

/// A text field of the multipart form.
pub struct FormField {
    pub name: String,
    pub value: String,
}

/// The characters of a form field's name and value.
pub open spec fn field_view(f: FormField) -> (Seq<char>, Seq<char>) {
    (f.name@, f.value@)
}

/// The text a form field carries for an object member's value: a string's
/// contents, any other value as JSON text.
pub open spec fn member_text(v: JsonMemberView) -> Seq<char> {
    match v {
        JsonMemberView::Null => "null"@,
        JsonMemberView::Bool(b) => if b {
            "true"@
        } else {
            "false"@
        },
        JsonMemberView::Number(t) => t,
        JsonMemberView::Str(s) => s,
        JsonMemberView::Array(t) => t,
        JsonMemberView::Object(t) => t,
    }
}

/// The text a form field carries for an object member's value.
pub fn member_form_text(v: &JsonMember) -> (r: String)
    ensures
        r@ == member_text(v@),
{
    match v {
        JsonMember::Null => to_owned_string("null"),
        JsonMember::Bool(b) => if *b {
            to_owned_string("true")
        } else {
            to_owned_string("false")
        },
        JsonMember::Number(t) => t.clone(),
        JsonMember::Str(s) => s.clone(),
        JsonMember::Array(t) => t.clone(),
        JsonMember::Object(t) => t.clone(),
    }
}

/// The text fields of the form, in order: the model, the response format,
/// the language if there is one, then each extra member; an extra member may
/// repeat the name of an earlier field.
pub open spec fn form_fields_spec(
    model: Seq<char>,
    language: Option<Seq<char>>,
    extra: Option<Seq<(Seq<char>, JsonMemberView)>>,
) -> Seq<(Seq<char>, Seq<char>)> {
    seq![("model"@, model), ("response_format"@, "json"@)] + match language {
        Some(l) => seq![("language"@, l)],
        None => Seq::empty(),
    } + match extra {
        Some(ms) => ms.map_values(|m: (Seq<char>, JsonMemberView)| (m.0, member_text(m.1))),
        None => Seq::empty(),
    }
}

fn field(name: &str, value: String) -> (f: FormField)
    ensures
        f.name@ == name@,
        f.value@ == value@,
{
    FormField { name: to_owned_string(name), value }
}

/// The text fields of the multipart form.
pub fn form_fields(model: &str, language: Option<String>, extra: Option<Vec<(String, JsonMember)>>) -> (r:
    Vec<FormField>)
    ensures
        r@.map_values(|f: FormField| field_view(f)) == form_fields_spec(
            model@,
            opt_chars(language),
            opt_members_view(extra),
        ),
{
    let mut fields: Vec<FormField> = Vec::new();
    fields.push(field("model", to_owned_string(model)));
    fields.push(field("response_format", to_owned_string("json")));
    let ghost lang_part: Seq<(Seq<char>, Seq<char>)> = match opt_chars(language) {
        Some(l) => seq![("language"@, l)],
        None => Seq::empty(),
    };
    match language {
        Some(l) => {
            fields.push(field("language", l));
        },
        None => {},
    }
    let ghost head = seq![("model"@, model@), ("response_format"@, "json"@)] + lang_part;
    assert(fields@.map_values(|f: FormField| field_view(f)) =~= head);
    match extra {
        Some(ms) => {
            let n = ms.len();
            let ghost want = members_view(ms@).map_values(
                |m: (Seq<char>, JsonMemberView)| (m.0, member_text(m.1)),
            );
            for i in 0..n
                invariant
                    n == ms@.len(),
                    want == members_view(ms@).map_values(
                        |m: (Seq<char>, JsonMemberView)| (m.0, member_text(m.1)),
                    ),
                    fields@.map_values(|f: FormField| field_view(f)) =~= head + want.take(
                        i as int,
                    ),
            {
                let (k, v) = &ms[i];
                let value = member_form_text(v);
                let ghost before = fields@;
                fields.push(FormField { name: k.clone(), value });
                assert(want[i as int] == (k@, member_text(v@)));
                assert(want.take(i + 1) =~= want.take(i as int).push(want[i as int]));
                assert(fields@.map_values(|f: FormField| field_view(f)) =~= before.map_values(
                    |f: FormField| field_view(f),
                ).push(field_view(fields@[i + head.len()])));
            }
            assert(want.take(n as int) =~= want);
        },
        None => {
            assert(head + Seq::<(Seq<char>, Seq<char>)>::empty() =~= head);
        },
    }
    fields
}

/// Everything that a call to an OpenAI-compatible endpoint sends.
pub struct CloudCall {
    pub url: String,
    /// Sent as the bearer token.
    pub api_key: String,
    /// The WAV file, sent as the form's `file` part.
    pub audio: Vec<u8>,
    pub file_name: String,
    pub mime_type: String,
    /// The form's text fields, in order.
    pub fields: Vec<FormField>,
}

/// Whether `c` is the call that sends `audio` to the endpoint below
/// `base_url` with the given key, model, language and extra fields.
pub open spec fn is_cloud_call(
    c: CloudCall,
    base_url: Seq<char>,
    api_key: Seq<char>,
    model: Seq<char>,
    audio: Seq<u8>,
    language: Option<Seq<char>>,
    extra: Option<Seq<(Seq<char>, JsonMemberView)>>,
) -> bool {
    &&& c.url@ == transcriptions_url_spec(base_url)
    &&& c.api_key@ == api_key
    &&& c.audio@ == audio
    &&& c.file_name@ == AUDIO_FILE_NAME@
    &&& c.mime_type@ == AUDIO_MIME_TYPE@
    &&& c.fields@.map_values(|f: FormField| field_view(f)) == form_fields_spec(model, language, extra)
}

/// The call that sends `wav_bytes` to the endpoint below `base_url`.
pub fn cloud_call(
    base_url: &str,
    api_key: &str,
    model_name: &str,
    wav_bytes: Vec<u8>,
    language: Option<String>,
    extra_params: Option<Vec<(String, JsonMember)>>,
) -> (c: CloudCall)
    ensures
        is_cloud_call(
            c,
            base_url@,
            api_key@,
            model_name@,
            wav_bytes@,
            opt_chars(language),
            opt_members_view(extra_params),
        ),
{
    CloudCall {
        url: transcriptions_url(base_url),
        api_key: to_owned_string(api_key),
        audio: wav_bytes,
        file_name: to_owned_string(AUDIO_FILE_NAME),
        mime_type: to_owned_string(AUDIO_MIME_TYPE),
        fields: form_fields(model_name, language, extra_params),
    }
}

/// Why an OpenAI-compatible endpoint gave no transcription.
pub enum CloudApiError {
    /// The status was not a success; the body as text.
    Status { status: u16, body: String },
    /// The body was not well-formed JSON.
    BadResponse,
    /// The JSON answer has no string member `text`.
    MissingText,
}

/// Whether `r` is what an answer with `status` and `body` yields.
pub open spec fn is_cloud_outcome(status: u16, body: Seq<u8>, r: Result<String, CloudApiError>) -> bool {
    if !(200 <= status <= 299) {
        r matches Err(CloudApiError::Status { status: s, body: b }) && s == status && b@
            == utf8_lossy(body)
    } else {
        is_text_outcome(str_member_spec(json_document_bytes(body), TEXT_KEY@), r)
    }
}

/// Whether `r` is what the `text` member read from a successful answer
/// yields: the text, `MissingText` when there is no string member, and
/// `BadResponse` when the answer was not JSON.
pub open spec fn is_text_outcome(member: Option<Option<Seq<char>>>, r: Result<String, CloudApiError>) -> bool {
    match member {
        None => r matches Err(CloudApiError::BadResponse),
        Some(None) => r matches Err(CloudApiError::MissingText),
        Some(Some(t)) => r matches Ok(x) && x@ == t,
    }
}

/// The characters of an optional, optional string.
pub open spec fn opt_opt_chars(o: Option<Option<String>>) -> Option<Option<Seq<char>>> {
    match o {
        None => None,
        Some(None) => Some(None),
        Some(Some(s)) => Some(Some(s@)),
    }
}

/// The outcome of a successful answer whose `text` member was read as
/// `member`.
pub fn text_outcome(member: Option<Option<String>>) -> (r: Result<String, CloudApiError>)
    ensures
        is_text_outcome(opt_opt_chars(member), r),
{
    match member {
        None => Err(CloudApiError::BadResponse),
        Some(None) => Err(CloudApiError::MissingText),
        Some(Some(t)) => Ok(t),
    }
}

/// The transcription in an answer with `status` and `body`.
pub fn interpret_cloud_response(status: u16, body: &[u8]) -> (r: Result<String, CloudApiError>)
    ensures
        is_cloud_outcome(status, body@, r),
        200 <= status <= 299 ==> forall|t: Seq<char>|
            #[trigger] encode_utf8(json_single_string_member(TEXT_KEY@, t)) == body@ ==> (r matches Ok(
                x,
            ) && x@ == t),
        200 <= status <= 299 ==> forall|t: Seq<char>, ws: Seq<Seq<char>>|
            is_json_spacing(ws) && #[trigger] encode_utf8(json_spaced_string_member(TEXT_KEY@, t, ws))
                == body@ ==> (r matches Ok(x) && x@ == t),
{
    if !is_success_status(status) {
        return Err(CloudApiError::Status { status, body: decode_utf8_lossy(body) });
    }
    let parsed = parse_json_bytes(body);
    let r = text_outcome(str_member(&parsed, TEXT_KEY));
    assert forall|t: Seq<char>|
        #[trigger] encode_utf8(json_single_string_member(TEXT_KEY@, t)) == body@ implies (r matches Ok(
            x,
        ) && x@ == t) by {
        let ms = seq![(TEXT_KEY@, JsonMemberView::Str(t))];
        assert(parsed@ == ParsedJsonView::Object(ms));
        assert(is_first_member(ms, TEXT_KEY@, 0));
        let k = choose|k: int| is_first_member(ms, TEXT_KEY@, k);
        assert(k == 0);
    }
    assert forall|t: Seq<char>, ws: Seq<Seq<char>>|
        is_json_spacing(ws) && #[trigger] encode_utf8(json_spaced_string_member(TEXT_KEY@, t, ws))
            == body@ implies (r matches Ok(x) && x@ == t) by {
        let ms = seq![(TEXT_KEY@, JsonMemberView::Str(t))];
        assert(parsed@ == ParsedJsonView::Object(ms));
        assert(is_first_member(ms, TEXT_KEY@, 0));
        let k = choose|k: int| is_first_member(ms, TEXT_KEY@, k);
        assert(k == 0);
    }
    r
}

pub struct OpenAiProvider;

/// Whether `c` is the call that transcribes `wav` for `settings`; the
/// post-processing flag plays no part.
pub open spec fn is_openai_transcription_call(wav: Seq<u8>, settings: AppSettings, c: CloudCall) -> bool {
    is_cloud_call(
        c,
        settings.cloud_transcription_base_url@,
        settings.cloud_transcription_api_key@,
        settings.cloud_transcription_model@,
        wav,
        language_param_spec(settings.selected_language@),
        extra_params(settings.cloud_transcription_extra_params@),
    )
}

impl CloudProvider for OpenAiProvider {
    open spec fn model_id(&self) -> Seq<char> {
        MODEL_ID_CLOUD@
    }

    open spec fn is_transcription_request(
        &self,
        wav: Seq<u8>,
        post_process: bool,
        settings: AppSettings,
        r: TranscriptionRequest,
    ) -> bool {
        r matches TranscriptionRequest::OpenAi(c) && is_openai_transcription_call(wav, settings, c)
    }

    open spec fn is_connection_test_request(&self, settings: AppSettings, r: TranscriptionRequest) -> bool {
        r matches TranscriptionRequest::OpenAi(c) && is_cloud_call(
            c,
            settings.cloud_transcription_base_url@,
            settings.cloud_transcription_api_key@,
            settings.cloud_transcription_model@,
            silent_wav_bytes(),
            None,
            None,
        )
    }

    fn id(&self) -> (r: &'static str) {
        MODEL_ID_CLOUD
    }

    fn transcription_request(
        &self,
        wav_bytes: Vec<u8>,
        post_process: bool,
        settings: &AppSettings,
    ) -> (r: TranscriptionRequest) {
        let language = language_param(settings.selected_language.as_str());
        let extra = parse_extra_params(settings.cloud_transcription_extra_params.as_str());
        TranscriptionRequest::OpenAi(
            cloud_call(
                settings.cloud_transcription_base_url.as_str(),
                settings.cloud_transcription_api_key.as_str(),
                settings.cloud_transcription_model.as_str(),
                wav_bytes,
                language,
                extra,
            ),
        )
    }

    fn connection_test_request(&self, settings: &AppSettings) -> (r: TranscriptionRequest) {
        TranscriptionRequest::OpenAi(
            cloud_call(
                settings.cloud_transcription_base_url.as_str(),
                settings.cloud_transcription_api_key.as_str(),
                settings.cloud_transcription_model.as_str(),
                silent_wav(),
                None,
                None,
            ),
        )
    }
}

/// The OpenAI-compatible provider sends the same request whether or not
/// post-processing was asked for.
pub proof fn openai_request_ignores_post_process(wav: Seq<u8>, settings: AppSettings, r: TranscriptionRequest)
    ensures
        OpenAiProvider.is_transcription_request(wav, true, settings, r)
            == OpenAiProvider.is_transcription_request(wav, false, settings, r),
{
}

/// Trailing slashes on the base URL make no difference to the endpoint.
pub proof fn transcriptions_url_ignores_trailing_slash(base_url: Seq<char>)
    ensures
        transcriptions_url_spec(base_url.push('/')) == transcriptions_url_spec(base_url),
{
    assert(base_url.push('/').drop_last() =~= base_url);
}

/// The form always starts with the model and `response_format=json`; when a
/// language is sent, the third field carries it; every extra member adds one
/// field after those (and may itself be named `language`).
pub proof fn form_layout(
    model: Seq<char>,
    language: Option<Seq<char>>,
    extra: Option<Seq<(Seq<char>, JsonMemberView)>>,
)
    ensures
        ({
            let f = form_fields_spec(model, language, extra);
            let lang_fields: int = if language is Some { 1 } else { 0 };
            let extra_fields: int = match extra {
                Some(ms) => ms.len() as int,
                None => 0,
            };
            &&& f.len() == 2 + lang_fields + extra_fields
            &&& f[0] == ("model"@, model)
            &&& f[1] == ("response_format"@, "json"@)
            &&& language matches Some(l) ==> f[2] == ("language"@, l)
        }),
        language is None ==> form_fields_spec(model, language, None).len() == 2,
{
}

/// A successful answer whose JSON object has a string member `text` yields
/// exactly that string, whole, whatever its length; the first member of that
/// name counts.
pub proof fn answer_text_is_the_text_member(
    status: u16,
    body: Seq<u8>,
    r: Result<String, CloudApiError>,
    ms: Seq<(Seq<char>, JsonMemberView)>,
    i: int,
    t: Seq<char>,
)
    requires
        200 <= status <= 299,
        is_cloud_outcome(status, body, r),
        json_document_bytes(body) == ParsedJsonView::Object(ms),
        0 <= i < ms.len(),
        ms[i] == (TEXT_KEY@, JsonMemberView::Str(t)),
        forall|j: int| 0 <= j < i ==> ms[j].0 != TEXT_KEY@,
    ensures
        r matches Ok(x) && x@ == t && x@.len() == t.len(),
{
    assert(is_first_member(ms, TEXT_KEY@, i));
    let k = choose|k: int| is_first_member(ms, TEXT_KEY@, k);
    if k < i {
        assert(ms[k].0 != TEXT_KEY@);
    } else if i < k {
        assert(ms[i].0 != TEXT_KEY@);
    }
}

/// The text read from the `text` member is handed back whole.
pub proof fn text_outcome_keeps_the_text(t: Seq<char>, r: Result<String, CloudApiError>)
    requires
        is_text_outcome(Some(Some(t)), r),
    ensures
        r matches Ok(x) && x@ == t,
{
}

/// Every member of the configured JSON object is an extra parameter, in
/// order, none left out: also those named like the fixed fields.
pub proof fn extra_params_keep_every_member(raw: Seq<char>, ms: Seq<(Seq<char>, JsonMemberView)>)
    requires
        trim(raw).len() > 0,
        json_document(trim(raw)) == ParsedJsonView::Object(ms),
    ensures
        extra_params(raw) == Some(ms),
        object_members(ParsedJsonView::Object(ms)) == Some(ms),
{
}

/// A string member goes as its characters; `null`, `true` and `false` as
/// those words; a number, array or object as its JSON text.
pub proof fn member_texts(s: Seq<char>)
    ensures
        member_text(JsonMemberView::Str(s)) == s,
        member_text(JsonMemberView::Number(s)) == s,
        member_text(JsonMemberView::Array(s)) == s,
        member_text(JsonMemberView::Object(s)) == s,
        member_text(JsonMemberView::Null) == "null"@,
        member_text(JsonMemberView::Bool(true)) == "true"@,
        member_text(JsonMemberView::Bool(false)) == "false"@,
{
}

/// The transcription request carries, after the model, the response format
/// and the language (if any), one field for each member of the configured
/// JSON object, in order, with the member's name and text.
pub proof fn request_sends_every_extra_member(
    wav: Seq<u8>,
    post_process: bool,
    settings: AppSettings,
    r: TranscriptionRequest,
    ms: Seq<(Seq<char>, JsonMemberView)>,
)
    requires
        OpenAiProvider.is_transcription_request(wav, post_process, settings, r),
        trim(settings.cloud_transcription_extra_params@).len() > 0,
        json_document(trim(settings.cloud_transcription_extra_params@)) == ParsedJsonView::Object(
            ms,
        ),
    ensures
        r matches TranscriptionRequest::OpenAi(c) && ({
            let lang: int = if settings.selected_language@ == AUTO_LANGUAGE@ {
                0
            } else {
                1
            };
            let fs = c.fields@.map_values(|f: FormField| field_view(f));
            &&& fs.len() == 2 + lang + ms.len()
            &&& forall|j: int|
                0 <= j < ms.len() ==> #[trigger] fs[2 + lang + j] == (ms[j].0, member_text(ms[j].1))
        }),
{
}

/// Blank settings, text that is not JSON and JSON that is not an object
/// give no extra parameters.
pub proof fn extra_params_need_an_object(raw: Seq<char>)
    ensures
        trim(raw).len() == 0 ==> extra_params(raw) is None,
        !(json_document(trim(raw)) is Object) ==> extra_params(raw) is None,
{
}

/// An unsuccessful answer is refused with its status and its body read as
/// text; a successful one that is not JSON as unreadable; one that is JSON
/// but has no string member `text` (not an object, no member of that name,
/// or one of another kind) as missing its text.
pub proof fn refused_answers(status: u16, body: Seq<u8>, r: Result<String, CloudApiError>)
    requires
        is_cloud_outcome(status, body, r),
    ensures
        !(200 <= status <= 299) ==> (r matches Err(CloudApiError::Status { status: s, body: b })
            && s == status && b@ == utf8_lossy(body)),
        200 <= status <= 299 && json_document_bytes(body) is Invalid ==> r matches Err(
            CloudApiError::BadResponse,
        ),
        200 <= status <= 299 && json_document_bytes(body) is OtherValue ==> r matches Err(
            CloudApiError::MissingText,
        ),
        200 <= status <= 299 && (json_document_bytes(body) matches ParsedJsonView::Object(ms) && (
        forall|j: int| 0 <= j < ms.len() && ms[j].0 == TEXT_KEY@ ==> !(ms[j].1 is Str)))
            ==> r matches Err(CloudApiError::MissingText),
{
    if 200 <= status <= 299 {
        if let ParsedJsonView::Object(ms) = json_document_bytes(body) {
            if exists|i: int| is_first_member(ms, TEXT_KEY@, i) {
                let i = choose|i: int| is_first_member(ms, TEXT_KEY@, i);
                assert(ms[i].0 == TEXT_KEY@);
            }
        }
    }
}

} // verus!
