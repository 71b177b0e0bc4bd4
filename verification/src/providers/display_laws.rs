//! What holds of what is shown of an official credential, and of which credentials are official.
use crate::base64url::decoded_base64;
use crate::error::CodexxError;
use crate::json::{field, json_value, no_fields, parsed_json, JsonView};
use crate::providers::official_display::{
    auth_display_metadata, display_email, display_plan_type, is_chatgpt_auth, jwt_display_claims,
    nested, nonempty_auth_string, official_profile_quota_credentials, parse_auth,
    quota_access_token, shown_email, shown_plan, token_claims, OfficialAuthDisplayMetadata,
    OfficialProfileQuotaCredentials,
};
use crate::text::{blank, is_control, is_space, kept, lowered, opt_view, pieces, trimmed, utf8};
use serde_json::Value;
use vstd::prelude::*;

verus! {

/// Whether a field of a value holds a text that is not blank.
pub open spec fn says(value: JsonView, name: Seq<char>) -> bool {
    field(value, name) matches Some(JsonView::Text(text)) && !blank(text)
}

/// The tokens of a credential.
pub open spec fn tokens_of(auth: JsonView) -> JsonView {
    match field(auth, "tokens"@) {
        Some(tokens) => tokens,
        None => JsonView::Null,
    }
}

/// A ChatGPT login has an access token, a refresh token or an identity token that is not blank, and no
/// mode that says otherwise; the case of the mode makes no difference.
pub proof fn law_logins_have_a_token(auth: &Value, r: bool)
    requires
        call_ensures(is_chatgpt_auth, (auth,), r),
    ensures
        ({
            let value = json_value(*auth);
            let tokens = tokens_of(value);
            r <==> (says(tokens, "access_token"@) || says(tokens, "refresh_token"@) || says(
                tokens,
                "id_token"@,
            )) && (field(value, "auth_mode"@) matches Some(JsonView::Text(mode)) ==> lowered(mode)
                == "chatgpt"@)
        }),
{
}

/// The token that a quota is asked for with is the trimmed access token of a ChatGPT login, and there
/// is none without one.
pub proof fn law_quotas_are_asked_for_with_the_access_token(auth: &Value, login: bool, r: Option<String>)
    requires
        call_ensures(is_chatgpt_auth, (auth,), login),
        call_ensures(quota_access_token, (auth,), r),
    ensures
        r is Some <==> login && says(tokens_of(json_value(*auth)), "access_token"@),
        r matches Some(token) ==> token@ == trimmed(
            field(tokens_of(json_value(*auth)), "access_token"@)->0->Text_0,
        ),
{
}

/// The credentials of a query are the token and the account of the login, and the address that is shown
/// for it.
pub proof fn law_queries_use_one_login(
    auth: &Value,
    token: Option<String>,
    shown: OfficialAuthDisplayMetadata,
    stored: &Option<Value>,
    r: Result<OfficialProfileQuotaCredentials, CodexxError>,
)
    requires
        *stored == Some(*auth),
        call_ensures(quota_access_token, (auth,), token),
        call_ensures(auth_display_metadata, (auth,), shown),
        call_ensures(official_profile_quota_credentials, (stored,), r),
    ensures
        r is Ok <==> token is Some,
        r matches Ok(found) ==> found.access_token@ == token->0@ && opt_view(found.email) == opt_view(
            shown.email,
        ) && opt_view(found.account_id) == (match field(
            tokens_of(json_value(*auth)),
            "account_id"@,
        ) {
            Some(JsonView::Text(id)) => kept(id),
            _ => None,
        }),
{
}

/// Without a stored credential there is nothing to ask with.
pub proof fn law_no_login_no_query(
    stored: &Option<Value>,
    r: Result<OfficialProfileQuotaCredentials, CodexxError>,
)
    requires
        *stored is None,
        call_ensures(official_profile_quota_credentials, (stored,), r),
    ensures
        r is Err,
{
}

/// An address is shown as it stands, trimmed: at most 320 bytes with an `@` in them, and without white
/// space or control characters. Any other text is not shown.
pub proof fn law_addresses_are_shown_as_they_are(value: &Value, r: Option<String>)
    requires
        call_ensures(display_email, (Some(value),), r),
    ensures
        r matches Some(email) ==> (json_value(*value) matches JsonView::Text(text) && email@
            == trimmed(text)) && email@.contains('@') && utf8(email@).len() <= 320 && forall|i: int|
            0 <= i < email@.len() ==> !is_space(#[trigger] email@[i]) && !is_control(email@[i]),
        json_value(*value) matches JsonView::Text(text) && !blank(text) && trimmed(text).contains('@')
            && utf8(trimmed(text)).len() <= 320 && (forall|i: int|
            0 <= i < trimmed(text).len() ==> !is_space(#[trigger] trimmed(text)[i]) && !is_control(
                trimmed(text)[i],
            )) ==> r is Some,
{
}

/// A plan is shown as it stands, trimmed: letters, digits, `_` and `-`, in at most 64 bytes.
pub proof fn law_plans_are_shown_as_they_are(value: &Value, r: Option<String>)
    requires
        call_ensures(display_plan_type, (Some(value),), r),
    ensures
        r matches Some(plan) ==> (json_value(*value) matches JsonView::Text(text) && plan@ == trimmed(
            text,
        ) && utf8(text).len() <= 64) && plan@.len() > 0 && forall|i: int|
            0 <= i < plan@.len() ==> {
                let c = #[trigger] plan@[i] as u32;
                48 <= c <= 57 || 65 <= c <= 90 || 97 <= c <= 122 || c == 95 || c == 45
            },
        json_value(*value) matches JsonView::Text(text) && !blank(text) && utf8(text).len() <= 64 && (
        forall|i: int|
            0 <= i < text.len() ==> {
                let c = #[trigger] text[i] as u32;
                48 <= c <= 57 || 97 <= c <= 122
            }) ==> r is Some,
{
    if let Some(plan) = r {
        assert forall|i: int| 0 <= i < plan@.len() implies ({
            let c = #[trigger] plan@[i] as u32;
            48 <= c <= 57 || 65 <= c <= 90 || 97 <= c <= 122 || c == 95 || c == 45
        }) by {
            assert(crate::providers::official_display::is_plan_char(plan@[i]));
        }
    }
    if let JsonView::Text(text) = json_value(*value) {
        if !blank(text) && utf8(text).len() <= 64 && (forall|i: int|
            0 <= i < text.len() ==> {
                let c = #[trigger] text[i] as u32;
                48 <= c <= 57 || 97 <= c <= 122
            }) {
            let (from, to) = crate::text::lemma_trimmed_part(text);
            assert forall|i: int| 0 <= i < trimmed(text).len() implies crate::providers::official_display::is_plan_char(
                #[trigger] trimmed(text)[i],
            ) by {
                assert(trimmed(text)[i] == text[from + i]);
            }
        }
    }
}

/// The claims of a token are those of its middle part, once that is decoded; a text that is no token of
/// three parts has none.
pub proof fn law_claims_are_those_of_the_token(token: &Value, r: Option<Value>)
    requires
        call_ensures(jwt_display_claims, (Some(token),), r),
    ensures
        r matches Some(claims) ==> (json_value(*token) matches JsonView::Text(text) && pieces(
            text,
            '.',
        ).len() == 3 && (decoded_base64(pieces(text, '.')[1]) matches Some(bytes) && parsed_json(bytes)
            == Ok::<JsonView, Seq<char>>(json_value(claims)))),
        json_value(*token) matches JsonView::Text(text) && pieces(text, '.').len() == 3 && pieces(
            text,
            '.',
        )[0].len() > 0 && pieces(text, '.')[1].len() > 0 && pieces(text, '.')[2].len() > 0 && utf8(
            pieces(text, '.')[1],
        ).len() <= 32768 && (decoded_base64(pieces(text, '.')[1]) matches Some(bytes) && parsed_json(
            bytes,
        ) is Ok) ==> r is Some,
{
}

/// What a credential states of itself is shown before what its tokens claim; without an address of its
/// own that of the identity token is shown before that of the access token. No plan is shown but for a
/// ChatGPT login.
pub proof fn law_stated_facts_are_shown_first(
    auth: &Value,
    login: bool,
    r: OfficialAuthDisplayMetadata,
)
    requires
        call_ensures(is_chatgpt_auth, (auth,), login),
        call_ensures(auth_display_metadata, (auth,), r),
    ensures
        ({
            let value = json_value(*auth);
            let own = shown_email(field(value, "email"@));
            let claims = |name: Seq<char>| token_claims(field(tokens_of(value), name));
            let claimed = |name: Seq<char>|
                if claims(name) is Some {
                    shown_email(field(claims(name)->0, "email"@))
                } else {
                    None
                };
            &&& own is Some ==> opt_view(r.email) == own
            &&& own is None && claimed("id_token"@) is Some ==> opt_view(r.email) == claimed(
                "id_token"@,
            )
            &&& own is None && claims("id_token"@) is None && claimed("access_token"@) is Some
                ==> opt_view(r.email) == claimed("access_token"@)
            &&& own is None && claims("id_token"@) is None && claims("access_token"@) is None
                ==> r.email is None
            &&& !login ==> r.plan_type is None
            &&& login && shown_plan(field(value, "plan_type"@)) is Some ==> opt_view(r.plan_type)
                == shown_plan(field(value, "plan_type"@))
            &&& login && shown_plan(field(value, "plan_type"@)) is None && shown_plan(
                field(value, "chatgpt_plan_type"@),
            ) is Some ==> opt_view(r.plan_type) == shown_plan(field(value, "chatgpt_plan_type"@))
        }),
{
    let value = json_value(*auth);
    assert(nested(value, "tokens"@, "id_token"@) == field(tokens_of(value), "id_token"@));
    assert(nested(value, "tokens"@, "access_token"@) == field(tokens_of(value), "access_token"@));
}

/// A text is accepted as an official credential where it is a ChatGPT login or an official key alone,
/// and names no endpoint; what is accepted is what it reads as. A blank text is no credential, and no
/// error.
pub proof fn law_official_credentials_name_no_endpoint(
    text: &str,
    r: Result<Option<Value>, CodexxError>,
    login: bool,
)
    requires
        call_ensures(parse_auth, (text,), r),
    ensures
        blank(text@) ==> r matches Ok(None),
        !blank(text@) && r is Ok ==> r->Ok_0 is Some && parsed_json(utf8(text@)) == Ok::<
            JsonView,
            Seq<char>,
        >(json_value(r->Ok_0->0)),
        r matches Ok(Some(auth)) ==> {
            let value = json_value(auth);
            &&& value is Object
            &&& field(value, "base_url"@) is None
            &&& field(value, "baseUrl"@) is None
            &&& field(value, "api_base"@) is None
            &&& field(value, "endpoint"@) is None
            &&& call_ensures(is_chatgpt_auth, (&auth,), login) ==> login || (says(
                value,
                "OPENAI_API_KEY"@,
            ) && (field(value, "auth_mode"@) matches Some(JsonView::Text(mode)) ==> lowered(mode)
                == "apikey"@) && (field(value, "tokens"@) is None || tokens_of(value) is Null
                || tokens_of(value) == JsonView::Object(no_fields())))
        },
        !blank(text@) && (parsed_json(utf8(text@)) matches Ok(value) && value is Object && field(
            value,
            "base_url"@,
        ) is None && field(value, "baseUrl"@) is None && field(value, "api_base"@) is None && field(
            value,
            "endpoint"@,
        ) is None && field(value, "auth_mode"@) is None && (says(tokens_of(value), "access_token"@)
            || (says(value, "OPENAI_API_KEY"@) && field(value, "tokens"@) is None))) ==> r is Ok,
{
}

/// A text value is kept without the white space around it, unless nothing remains; any other value is
/// not kept.
pub proof fn law_text_values_are_kept(value: &Value, r: Option<String>, shown: bool)
    requires
        call_ensures(nonempty_auth_string, (Some(value),), r),
    ensures
        r matches Some(text) ==> (json_value(*value) matches JsonView::Text(given) && text@ == trimmed(
            given,
        )),
        json_value(*value) matches JsonView::Text(given) && !blank(given) ==> r is Some,
{
}

/// Where a credential states no plan, the plan that its identity token claims is shown; where
/// neither states an address, the one of the claimed profile is.
pub proof fn law_claims_fill_what_is_missing(
    auth: &Value,
    login: bool,
    r: OfficialAuthDisplayMetadata,
)
    requires
        call_ensures(is_chatgpt_auth, (auth,), login),
        call_ensures(auth_display_metadata, (auth,), r),
        token_claims(field(tokens_of(json_value(*auth)), "id_token"@)) is Some,
    ensures
        ({
            let value = json_value(*auth);
            let claims = token_claims(field(tokens_of(value), "id_token"@))->0;
            let account = field(claims, "https://api.openai.com/auth"@);
            let profile = field(claims, "https://api.openai.com/profile"@);
            let plan = if account is Some {
                shown_plan(field(account->0, "chatgpt_plan_type"@))
            } else {
                None
            };
            let address = if profile is Some {
                shown_email(field(profile->0, "email"@))
            } else {
                None
            };
            &&& login && shown_plan(field(value, "plan_type"@)) is None && shown_plan(
                field(value, "chatgpt_plan_type"@),
            ) is None && plan is Some ==> opt_view(r.plan_type) == plan
            &&& shown_email(field(value, "email"@)) is None && shown_email(
                field(claims, "email"@),
            ) is None && address is Some ==> opt_view(r.email) == address
        }),
{
    let value = json_value(*auth);
    assert(nested(value, "tokens"@, "id_token"@) == field(tokens_of(value), "id_token"@));
}

} // verus!
