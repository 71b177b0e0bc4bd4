//! What is shown of an official credential, and which credentials are acceptable.
use crate::base64url::{decode_base64, decoded_base64};
use crate::error::{config, config2, CodexxError, ErrorView};
use crate::json::{
    field, get_field, is_empty_object, json_value, no_fields, parse_json, parsed_json, text_of,
    JsonView,
};
use crate::providers::official_auth::has_token;
use crate::text::{
    blank, char_is_control, char_is_space, chars_of, has_char, is_alphanumeric, is_blank,
    is_control, is_space, keep, kept, lowered, opt_view, pieces, same_text, split, text_views,
    to_lower, trim, trimmed, utf8,
};
use serde_json::Value;
use vstd::prelude::*;

verus! {

/// What remains of a text value once it is trimmed, if anything.
pub open spec fn kept_value(value: Option<JsonView>) -> Option<Seq<char>> {
    match text_of(value) {
        Some(text) => kept(text),
        None => None,
    }
}

/// The view of an optional value.
pub open spec fn opt_value(value: Option<&Value>) -> Option<JsonView> {
    match value {
        Some(value) => Some(json_value(*value)),
        None => None,
    }
}

/// What remains of a text value once it is trimmed, if anything.
pub fn nonempty_auth_string(value: Option<&Value>) -> (r: Option<String>)
    ensures
        opt_view(r) == kept_value(opt_value(value)),
{
    match value {
        Some(value) => match value.as_str() {
            Some(text) => keep(text),
            None => None,
        },
        None => None,
    }
}

/// The field of a field.
pub open spec fn nested(value: JsonView, outer: Seq<char>, inner: Seq<char>) -> Option<JsonView> {
    match field(value, outer) {
        Some(found) => field(found, inner),
        None => None,
    }
}

fn get_nested<'a>(value: &'a Value, outer: &str, inner: &str) -> (r: Option<&'a Value>)
    ensures
        opt_value(r) == nested(json_value(*value), outer@, inner@),
{
    match get_field(value, outer) {
        Some(found) => get_field(found, inner),
        None => None,
    }
}

/// Whether a text may be shown as an address.
pub open spec fn showable_email(text: Seq<char>) -> bool {
    utf8(text).len() <= 320 && text.contains('@') && forall|i: int|
        0 <= i < text.len() ==> !is_control(#[trigger] text[i]) && !is_space(text[i])
}

/// The address to show, if a value holds one.
pub open spec fn shown_email(value: Option<JsonView>) -> Option<Seq<char>> {
    match kept_value(value) {
        Some(text) => if showable_email(text) {
            Some(text)
        } else {
            None
        },
        None => None,
    }
}

/// Whether a text may be shown as an address.
pub fn is_showable_email(text: &str) -> (r: bool)
    ensures
        r == showable_email(text@),
{
    if text.as_bytes().len() > 320 || !has_char(text, '@') {
        return false;
    }
    let chars = chars_of(text);
    let mut i: usize = 0;
    while i < chars.len()
        invariant
            i <= chars@.len(),
            chars@ == text@,
            forall|j: int|
                0 <= j < i ==> !is_control(#[trigger] text@[j]) && !is_space(text@[j]),
        decreases chars@.len() - i,
    {
        if char_is_control(chars[i]) || char_is_space(chars[i]) {
            assert(is_control(text@[i as int]) || is_space(text@[i as int]));
            return false;
        }
        i = i + 1;
    }
    true
}

/// The address to show, if a value holds one.
pub fn display_email(value: Option<&Value>) -> (r: Option<String>)
    ensures
        opt_view(r) == shown_email(opt_value(value)),
{
    match nonempty_auth_string(value) {
        Some(text) => if is_showable_email(&text) {
            Some(text)
        } else {
            None
        },
        None => None,
    }
}

/// The payload of a token with three parts, none of them empty and the payload not too long.
pub open spec fn token_payload(token: Seq<char>) -> Option<Seq<char>> {
    let parts = pieces(token, '.');
    if parts.len() == 3 && parts[0].len() > 0 && parts[1].len() > 0 && parts[2].len() > 0 && utf8(
        parts[1],
    ).len() <= 32768 {
        Some(parts[1])
    } else {
        None
    }
}

/// The claims of a token. They are shown only: no account, credential or permission comes from
/// them.
pub open spec fn token_claims(token: Option<JsonView>) -> Option<JsonView> {
    match text_of(token) {
        None => None,
        Some(text) => match token_payload(text) {
            None => None,
            Some(payload) => match decoded_base64(payload) {
                None => None,
                Some(bytes) => match parsed_json(bytes) {
                    Ok(claims) => Some(claims),
                    Err(_) => None,
                },
            },
        },
    }
}

/// The claims of a token.
pub fn jwt_display_claims(token: Option<&Value>) -> (r: Option<Value>)
    ensures
        match token_claims(opt_value(token)) {
            Some(claims) => r matches Some(found) && json_value(found) == claims,
            None => r is None,
        },
{
    let text = match token {
        Some(token) => match token.as_str() {
            Some(text) => text,
            None => return None,
        },
        None => return None,
    };
    let parts = split(text, '.');
    assert(text_views(parts@) == pieces(text@, '.'));
    if parts.len() != 3 {
        return None;
    }
    assert(text_views(parts@)[0] == parts@[0]@);
    assert(text_views(parts@)[1] == parts@[1]@);
    assert(text_views(parts@)[2] == parts@[2]@);
    if parts[0].as_str().is_empty() || parts[1].as_str().is_empty() || parts[2].as_str().is_empty()
        || parts[1].as_str().as_bytes().len() > 32768 {
        return None;
    }
    match decode_base64(&parts[1]) {
        Some(bytes) => match parse_json(&bytes) {
            Ok(claims) => Some(claims),
            Err(_) => None,
        },
        None => None,
    }
}

/// A character of a plan's identifier.
pub open spec fn is_plan_char(c: char) -> bool {
    is_alphanumeric(c) || c == '_' || c == '-'
}

/// The plan to show, if a value holds one.
pub open spec fn shown_plan(value: Option<JsonView>) -> Option<Seq<char>> {
    match text_of(value) {
        None => None,
        Some(raw) => if utf8(raw).len() > 64 || (exists|i: int|
            0 <= i < raw.len() && is_control(#[trigger] raw[i])) {
            None
        } else if blank(raw) || (exists|i: int|
            0 <= i < trimmed(raw).len() && !is_plan_char(#[trigger] trimmed(raw)[i])) {
            None
        } else {
            Some(trimmed(raw))
        },
    }
}

/// The plan to show, if a value holds one.
pub fn display_plan_type(value: Option<&Value>) -> (r: Option<String>)
    ensures
        opt_view(r) == shown_plan(opt_value(value)),
{
    let raw = match value {
        Some(value) => match value.as_str() {
            Some(raw) => raw,
            None => return None,
        },
        None => return None,
    };
    if raw.as_bytes().len() > 64 || has_control(raw) {
        return None;
    }
    let plan = trim(raw);
    if plan.as_str().is_empty() || !is_plan(&plan) {
        None
    } else {
        Some(plan)
    }
}

fn has_control(text: &str) -> (r: bool)
    ensures
        r == exists|i: int| 0 <= i < text@.len() && is_control(#[trigger] text@[i]),
{
    let chars = chars_of(text);
    let mut i: usize = 0;
    while i < chars.len()
        invariant
            i <= chars@.len(),
            chars@ == text@,
            forall|j: int| 0 <= j < i ==> !is_control(#[trigger] text@[j]),
        decreases chars@.len() - i,
    {
        if char_is_control(chars[i]) {
            assert(is_control(text@[i as int]));
            return true;
        }
        i = i + 1;
    }
    false
}

fn is_plan(text: &str) -> (r: bool)
    ensures
        r == !(exists|i: int| 0 <= i < text@.len() && !is_plan_char(#[trigger] text@[i])),
{
    let chars = chars_of(text);
    let mut i: usize = 0;
    while i < chars.len()
        invariant
            i <= chars@.len(),
            chars@ == text@,
            forall|j: int| 0 <= j < i ==> is_plan_char(#[trigger] text@[j]),
        decreases chars@.len() - i,
    {
        let c = chars[i];
        let n: u32 = c as u32;
        let fits: bool = (48 <= n && n <= 57) || (65 <= n && n <= 90) || (97 <= n && n <= 122) || c
            == '_' || c == '-';
        if !fits {
            assert(!is_plan_char(text@[i as int]));
            return false;
        }
        i = i + 1;
    }
    true
}

/// Whether a mode of authentication is not named or is this one.
pub open spec fn mode_allows(auth: JsonView, mode: Seq<char>) -> bool {
    match text_of(field(auth, "auth_mode"@)) {
        Some(found) => lowered(found) == mode,
        None => true,
    }
}

fn allows_mode(auth: &Value, mode: &str) -> (r: bool)
    ensures
        r == mode_allows(json_value(*auth), mode@),
{
    match get_field(auth, "auth_mode") {
        Some(found) => match found.as_str() {
            Some(text) => same_text(&to_lower(text), mode),
            None => true,
        },
        None => true,
    }
}

/// Whether a credential is a ChatGPT login: its mode does not say otherwise and it has a token.
pub open spec fn chatgpt_auth(auth: JsonView) -> bool {
    mode_allows(auth, "chatgpt"@) && (has_token(auth, "access_token"@) || has_token(
        auth,
        "refresh_token"@,
    ) || has_token(auth, "id_token"@))
}

fn token_present(auth: &Value, name: &str) -> (r: bool)
    ensures
        r == has_token(json_value(*auth), name@),
{
    match get_nested(auth, "tokens", name) {
        Some(found) => match found.as_str() {
            Some(text) => !is_blank(text),
            None => false,
        },
        None => false,
    }
}

/// Whether a credential is a ChatGPT login.
pub fn is_chatgpt_auth(auth: &Value) -> (r: bool)
    ensures
        r == chatgpt_auth(json_value(*auth)),
{
    allows_mode(auth, "chatgpt") && (token_present(auth, "access_token") || token_present(
        auth,
        "refresh_token",
    ) || token_present(auth, "id_token"))
}

/// What is shown of a credential.
#[derive(Debug, PartialEq, Eq)]
pub struct OfficialAuthDisplayMetadata {
    pub email: Option<String>,
    pub plan_type: Option<String>,
}

/// What is shown of a credential, as contracts speak of it.
pub ghost struct DisplayView {
    pub email: Option<Seq<char>>,
    pub plan_type: Option<Seq<char>>,
}

impl View for OfficialAuthDisplayMetadata {
    type V = DisplayView;

    open spec fn view(&self) -> DisplayView {
        DisplayView { email: opt_view(self.email), plan_type: opt_view(self.plan_type) }
    }
}

/// The first of two that is there.
pub open spec fn first_of(first: Option<Seq<char>>, second: Option<Seq<char>>) -> Option<Seq<char>> {
    match first {
        Some(text) => Some(text),
        None => second,
    }
}

/// What a credential states of itself.
pub open spec fn stated_display(auth: JsonView) -> DisplayView {
    DisplayView {
        email: shown_email(field(auth, "email"@)),
        plan_type: if chatgpt_auth(auth) {
            first_of(
                shown_plan(field(auth, "plan_type"@)),
                shown_plan(field(auth, "chatgpt_plan_type"@)),
            )
        } else {
            None
        },
    }
}

/// What the claims of a token add to what is missing.
pub open spec fn with_claims(
    display: DisplayView,
    token: Option<JsonView>,
    is_chatgpt: bool,
) -> DisplayView {
    if display.email is Some && (display.plan_type is Some || !is_chatgpt) {
        display
    } else {
        match token_claims(token) {
            None => display,
            Some(claims) => DisplayView {
                email: first_of(
                    display.email,
                    first_of(
                        shown_email(field(claims, "email"@)),
                        shown_email(nested(claims, "https://api.openai.com/profile"@, "email"@)),
                    ),
                ),
                plan_type: if is_chatgpt {
                    first_of(
                        display.plan_type,
                        shown_plan(
                            nested(
                                claims,
                                "https://api.openai.com/auth"@,
                                "chatgpt_plan_type"@,
                            ),
                        ),
                    )
                } else {
                    display.plan_type
                },
            },
        }
    }
}

/// What is shown of a credential: what it states, completed by the claims of its identity token
/// and then of its access token.
pub open spec fn auth_display(auth: JsonView) -> DisplayView {
    with_claims(
        with_claims(
            stated_display(auth),
            nested(auth, "tokens"@, "id_token"@),
            chatgpt_auth(auth),
        ),
        nested(auth, "tokens"@, "access_token"@),
        chatgpt_auth(auth),
    )
}

fn add_claims(
    display: OfficialAuthDisplayMetadata,
    token: Option<&Value>,
    is_chatgpt: bool,
) -> (r: OfficialAuthDisplayMetadata)
    ensures
        r@ == with_claims(display@, opt_value(token), is_chatgpt),
{
    let mut display = display;
    if display.email.is_some() && (display.plan_type.is_some() || !is_chatgpt) {
        return display;
    }
    let claims = match jwt_display_claims(token) {
        Some(claims) => claims,
        None => return display,
    };
    if display.email.is_none() {
        display.email = display_email(get_field(&claims, "email"));
        if display.email.is_none() {
            display.email = display_email(
                get_nested(&claims, "https://api.openai.com/profile", "email"),
            );
        }
    }
    if is_chatgpt && display.plan_type.is_none() {
        display.plan_type = display_plan_type(
            get_nested(&claims, "https://api.openai.com/auth", "chatgpt_plan_type"),
        );
    }
    display
}

/// What is shown of a credential.
pub fn auth_display_metadata(auth: &Value) -> (r: OfficialAuthDisplayMetadata)
    ensures
        r@ == auth_display(json_value(*auth)),
{
    let is_chatgpt = is_chatgpt_auth(auth);
    let mut plan_type: Option<String> = None;
    if is_chatgpt {
        plan_type = display_plan_type(get_field(auth, "plan_type"));
        if plan_type.is_none() {
            plan_type = display_plan_type(get_field(auth, "chatgpt_plan_type"));
        }
    }
    let stated = OfficialAuthDisplayMetadata {
        email: display_email(get_field(auth, "email")),
        plan_type,
    };
    let with_identity = add_claims(stated, get_nested(auth, "tokens", "id_token"), is_chatgpt);
    add_claims(with_identity, get_nested(auth, "tokens", "access_token"), is_chatgpt)
}

/// The token that a quota is asked for with, if the credential is a ChatGPT login.
pub open spec fn quota_token(auth: JsonView) -> Option<Seq<char>> {
    if chatgpt_auth(auth) {
        kept_value(nested(auth, "tokens"@, "access_token"@))
    } else {
        None
    }
}

/// The token that a quota is asked for with.
pub fn quota_access_token(auth: &Value) -> (r: Option<String>)
    ensures
        opt_view(r) == quota_token(json_value(*auth)),
{
    if is_chatgpt_auth(auth) {
        nonempty_auth_string(get_nested(auth, "tokens", "access_token"))
    } else {
        None
    }
}

/// The credentials that a quota is asked for with.
pub struct OfficialProfileQuotaCredentials {
    pub access_token: String,
    pub account_id: Option<String>,
    pub email: Option<String>,
}

/// Whether a result is what reading credentials from a stored credential gives.
pub open spec fn reads_credentials(
    auth: Option<Value>,
    result: Result<OfficialProfileQuotaCredentials, CodexxError>,
) -> bool {
    match auth {
        None => result matches Err(error) && error@ == ErrorView::Config(
            "此官方配置尚未登录，请先在 Codex 中登录"@,
        ),
        Some(auth) => match quota_token(json_value(auth)) {
            None => result matches Err(error) && error@ == ErrorView::Config(
                "此配置没有可用的 ChatGPT 登录凭据，无法查询订阅额度"@,
            ),
            Some(token) => result matches Ok(found) && found.access_token@ == token && opt_view(
                found.account_id,
            ) == kept_value(nested(json_value(auth), "tokens"@, "account_id"@)) && opt_view(
                found.email,
            ) == auth_display(json_value(auth)).email,
        },
    }
}

/// The credentials that a quota is asked for with.
pub fn official_profile_quota_credentials(auth: &Option<Value>) -> (r: Result<
    OfficialProfileQuotaCredentials,
    CodexxError,
>)
    ensures
        reads_credentials(*auth, r),
{
    let auth = match auth {
        Some(auth) => auth,
        None => return Err(config("此官方配置尚未登录，请先在 Codex 中登录")),
    };
    match quota_access_token(auth) {
        Some(access_token) => Ok(
            OfficialProfileQuotaCredentials {
                access_token,
                account_id: nonempty_auth_string(get_nested(auth, "tokens", "account_id")),
                email: auth_display_metadata(auth).email,
            },
        ),
        None => Err(
            config("此配置没有可用的 ChatGPT 登录凭据，无法查询订阅额度"),
        ),
    }
}

/// Whether a credential names an endpoint of its own.
pub open spec fn names_endpoint(auth: JsonView) -> bool {
    field(auth, "base_url"@) is Some || field(auth, "baseUrl"@) is Some || field(auth, "api_base"@)
        is Some || field(auth, "endpoint"@) is Some
}

/// Whether a credential is an official key and nothing else.
pub open spec fn official_key(auth: JsonView) -> bool {
    &&& text_of(field(auth, "OPENAI_API_KEY"@)) matches Some(key) && !blank(key)
    &&& mode_allows(auth, "apikey"@)
    &&& match field(auth, "tokens"@) {
        Some(tokens) => tokens is Null || tokens == JsonView::Object(no_fields()),
        None => true,
    }
}

/// The credential that a text holds: none where it is blank, otherwise an official login or key.
pub open spec fn parsed_auth(text: Seq<char>) -> Result<Option<JsonView>, ErrorView> {
    if blank(text) {
        Ok(None)
    } else {
        match parsed_json(utf8(text)) {
            Err(message) => Err(ErrorView::Config("官方 auth.json 不是有效 JSON: "@ + message)),
            Ok(auth) => if auth is Object && !names_endpoint(auth) && (chatgpt_auth(auth)
                || official_key(auth)) {
                Ok(Some(auth))
            } else {
                Err(
                    ErrorView::Config(
                        "官方认证必须是有效的 Codex 官方登录认证或 OpenAI API Key；留空可保存待登录配置"@,
                    ),
                )
            },
        }
    }
}

/// The credential that a text holds.
pub fn parse_auth(text: &str) -> (r: Result<Option<Value>, CodexxError>)
    ensures
        match parsed_auth(text@) {
            Ok(Some(auth)) => r matches Ok(Some(found)) && json_value(found) == auth,
            Ok(None) => r matches Ok(None),
            Err(error) => r matches Err(found) && found@ == error,
        },
{
    if is_blank(text) {
        return Ok(None);
    }
    let auth = match parse_json(text.as_bytes()) {
        Ok(auth) => auth,
        Err(message) => return Err(config2("官方 auth.json 不是有效 JSON: ", &message)),
    };
    let has_endpoint: bool = get_field(&auth, "base_url").is_some() || get_field(
        &auth,
        "baseUrl",
    ).is_some() || get_field(&auth, "api_base").is_some() || get_field(&auth, "endpoint").is_some();
    let has_key: bool = match get_field(&auth, "OPENAI_API_KEY") {
        Some(key) => match key.as_str() {
            Some(key) => !is_blank(key),
            None => false,
        },
        None => false,
    };
    let no_tokens: bool = match get_field(&auth, "tokens") {
        Some(tokens) => tokens.is_null() || is_empty_object(tokens),
        None => true,
    };
    let is_key: bool = has_key && allows_mode(&auth, "apikey") && no_tokens;
    if !auth.is_object() || has_endpoint || (!is_chatgpt_auth(&auth) && !is_key) {
        return Err(
            config(
                "官方认证必须是有效的 Codex 官方登录认证或 OpenAI API Key；留空可保存待登录配置",
            ),
        );
    }
    Ok(Some(auth))
}

} // verus!
