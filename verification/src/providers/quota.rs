//! Read-only lookups of the subscription quota of an official login.
//!
//! No error carries a credential or anything of a response.
use crate::clock::{rfc3339, rfc3339_after, rfc3339_text, Timestamp};
use crate::digest::{add_sized, lemma_sized_injective, sha256, sha256_of, sized};
use crate::error::{config, config3, CodexxError, ErrorView};
use crate::providers::official_display::{
    is_showable_email, official_profile_quota_credentials, reads_credentials, showable_email,
    OfficialProfileQuotaCredentials,
};
use crate::text::{
    add_bytes, decimal, decimal_of, joined, joined3, keep, kept, opt_view, same_bytes, same_text,
    trim, trimmed, utf8,
};
use crate::web::{header_text, is_header_text};
use serde_json::Value;
use vstd::prelude::*;
use vstd::utf8::encode_utf8_decode_utf8;

verus! {

/// The largest response that is read.
pub const MAX_RESPONSE_BYTES: usize = 1_048_576;

/// What is asked of the official account.
#[derive(Clone, Copy, Debug, PartialEq, Eq, Structural)]
pub enum OfficialQuery {
    Quota,
    ResetCredits,
}

/// The name of what is asked.
pub open spec fn query_label(query: OfficialQuery) -> Seq<char> {
    match query {
        OfficialQuery::Quota => "额度"@,
        OfficialQuery::ResetCredits => "重置次数"@,
    }
}

impl OfficialQuery {
    /// Where it is asked.
    pub fn url(self) -> (r: &'static str)
        ensures
            r@ == match self {
                OfficialQuery::Quota => "https://chatgpt.com/backend-api/wham/usage"@,
                OfficialQuery::ResetCredits =>
                    "https://chatgpt.com/backend-api/wham/rate-limit-reset-credits"@,
            },
    {
        match self {
            OfficialQuery::Quota => "https://chatgpt.com/backend-api/wham/usage",
            OfficialQuery::ResetCredits =>
                "https://chatgpt.com/backend-api/wham/rate-limit-reset-credits",
        }
    }

    /// The name of what is asked.
    pub fn label(self) -> (r: &'static str)
        ensures
            r@ == query_label(self),
    {
        match self {
            OfficialQuery::Quota => "额度",
            OfficialQuery::ResetCredits => "重置次数",
        }
    }
}

/// An error with this message.
pub fn config_error(message: &str) -> (r: CodexxError)
    ensures
        r@ == ErrorView::Config(message@),
{
    config(message)
}

/// What remains of an optional text once it is trimmed, if anything.
pub open spec fn kept_text(text: Option<Seq<char>>) -> Option<Seq<char>> {
    match text {
        Some(text) => kept(text),
        None => None,
    }
}

/// What remains of an optional text once it is trimmed, if anything.
pub fn nonempty(value: &Option<String>) -> (r: Option<String>)
    ensures
        opt_view(r) == kept_text(opt_view(*value)),
{
    match value {
        Some(text) => keep(text),
        None => None,
    }
}

/// The address to show, if a text is one.
pub open spec fn email_of(text: Option<Seq<char>>) -> Option<Seq<char>> {
    match kept_text(text) {
        Some(email) => if showable_email(email) {
            Some(email)
        } else {
            None
        },
        None => None,
    }
}

/// The address to show, if a text is one.
pub fn display_email(value: &Option<String>) -> (r: Option<String>)
    ensures
        opt_view(r) == email_of(opt_view(*value)),
{
    match nonempty(value) {
        Some(email) => if is_showable_email(&email) {
            Some(email)
        } else {
            None
        },
        None => None,
    }
}

/// The headers of a request that carry credentials.
pub struct QuotaHeaders {
    pub authorization: String,
    pub account_id: Option<String>,
}

/// The headers of a request that carry credentials. A credential that no header can hold is
/// refused without being repeated.
pub fn quota_headers(credentials: &OfficialProfileQuotaCredentials) -> (r: Result<
    QuotaHeaders,
    CodexxError,
>)
    ensures
        match kept(credentials.access_token@) {
            None => r matches Err(error) && error@ == ErrorView::Config(
                "此官方配置尚未登录，请先在 Codex 中登录"@,
            ),
            Some(token) => if !header_text("Bearer "@ + token) {
                r matches Err(error) && error@ == ErrorView::Config(
                    "此官方配置的登录凭据无效，请重新登录"@,
                )
            } else {
                match kept_text(opt_view(credentials.account_id)) {
                    Some(account) => if !header_text(account) {
                        r matches Err(error) && error@ == ErrorView::Config(
                            "此官方配置的账号标识无效，请重新登录"@,
                        )
                    } else {
                        r matches Ok(headers) && headers.authorization@ == "Bearer "@ + token
                            && opt_view(headers.account_id) == Some(account)
                    },
                    None => r matches Ok(headers) && headers.authorization@ == "Bearer "@ + token
                        && headers.account_id is None,
                }
            },
        },
{
    let token = match keep(&credentials.access_token) {
        Some(token) => token,
        None => return Err(config_error("此官方配置尚未登录，请先在 Codex 中登录")),
    };
    let authorization = joined("Bearer ", &token);
    if !is_header_text(&authorization) {
        return Err(config_error("此官方配置的登录凭据无效，请重新登录"));
    }
    let account_id = nonempty(&credentials.account_id);
    if let Some(account) = &account_id {
        if !is_header_text(account) {
            return Err(config_error("此官方配置的账号标识无效，请重新登录"));
        }
    }
    Ok(QuotaHeaders { authorization, account_id })
}

/// What a status that is no success is reported as.
pub open spec fn status_message(status: u16, label: Seq<char>) -> Seq<char> {
    if status == 401 {
        "官方登录已失效，请重新登录此账号后查询"@ + label + "（HTTP 401）"@
    } else if status == 403 {
        "无法访问官方"@ + label + "服务（HTTP 403），请稍后重试或检查网络"@
    } else if status == 429 {
        "官方"@ + label + "查询过于频繁，请稍后重试（HTTP 429）"@
    } else if 300 <= status <= 399 {
        "官方"@ + label + "接口发生重定向，已停止请求，请稍后重试"@
    } else if 500 <= status <= 599 {
        "官方"@ + label + "服务暂不可用（HTTP "@ + decimal(status as nat) + "），请稍后重试"@
    } else {
        "官方"@ + label + "查询失败（HTTP "@ + decimal(status as nat) + "），请稍后重试"@
    }
}

/// Whether a response is a success; otherwise what is reported of it.
pub fn check_status(status: u16, query: OfficialQuery) -> (r: Result<(), CodexxError>)
    ensures
        if 200 <= status <= 299 {
            r is Ok
        } else {
            r matches Err(error) && error@ == ErrorView::Config(
                status_message(status, query_label(query)),
            )
        },
{
    if 200 <= status && status <= 299 {
        return Ok(());
    }
    let label = query.label();
    let message = if status == 401 {
        joined3("官方登录已失效，请重新登录此账号后查询", label, "（HTTP 401）")
    } else if status == 403 {
        joined3("无法访问官方", label, "服务（HTTP 403），请稍后重试或检查网络")
    } else if status == 429 {
        joined3("官方", label, "查询过于频繁，请稍后重试（HTTP 429）")
    } else if 300 <= status && status <= 399 {
        joined3("官方", label, "接口发生重定向，已停止请求，请稍后重试")
    } else {
        let mut message = if 500 <= status && status <= 599 {
            joined3("官方", label, "服务暂不可用（HTTP ")
        } else {
            joined3("官方", label, "查询失败（HTTP ")
        };
        message.append(&decimal_of(status as u128));
        message.append("），请稍后重试");
        message
    };
    Err(CodexxError::Config(message))
}

/// Whether a response declares itself too large to be read.
pub fn declares_too_much(content_length: Option<u64>) -> (r: bool)
    ensures
        r == (content_length matches Some(length) && length > MAX_RESPONSE_BYTES),
{
    match content_length {
        Some(length) => length > MAX_RESPONSE_BYTES as u64,
        None => false,
    }
}

/// The body of a response, given what was read of it, which is at most one byte more than is
/// allowed. What the response declares does not make a longer body acceptable.
pub fn read_bounded_body(body: &[u8], content_length: Option<u64>) -> (r: Result<Vec<u8>, CodexxError>)
    ensures
        if body_too_large(content_length, body@.len()) {
            r matches Err(error) && error@ == ErrorView::Config(
                "官方查询响应过大，已停止读取"@,
            )
        } else {
            r matches Ok(bytes) && bytes@ == body@
        },
{
    if declares_too_much(content_length) || body.len() > MAX_RESPONSE_BYTES {
        return Err(config_error("官方查询响应过大，已停止读取"));
    }
    let mut bytes: Vec<u8> = Vec::new();
    add_bytes(&mut bytes, body);
    assert(bytes@ =~= body@);
    Ok(bytes)
}

/// Why a request got no response.
#[derive(Clone, Copy, Debug, PartialEq, Eq, Structural)]
pub enum FetchFailure {
    Timeout,
    Connect,
    Other,
}

/// What became of a request.
pub enum OfficialReply {
    Failed(FetchFailure),
    /// A response, with what was read of its body; nothing where reading failed.
    Answered { status: u16, content_length: Option<u64>, body: Option<Vec<u8>> },
}

/// What a request without a response is reported as.
pub open spec fn failure_message(query: OfficialQuery, failure: FetchFailure) -> Seq<char> {
    match failure {
        FetchFailure::Timeout => "官方"@ + query_label(query)
            + "查询超时，请检查网络后重试"@,
        FetchFailure::Connect => "无法连接官方"@ + query_label(query)
            + "接口，请检查网络或代理设置"@,
        FetchFailure::Other => "官方"@ + query_label(query)
            + "网络请求失败，请稍后重试"@,
    }
}

/// Whether a body is refused for its length, declared or read.
pub open spec fn body_too_large(content_length: Option<u64>, length: nat) -> bool {
    (content_length matches Some(declared) && declared > MAX_RESPONSE_BYTES) || length
        > MAX_RESPONSE_BYTES
}

/// The body of a response that is a success, or what is reported of the request.
pub fn fetch_official_response(query: OfficialQuery, reply: &OfficialReply) -> (r: Result<
    Vec<u8>,
    CodexxError,
>)
    ensures
        match *reply {
            OfficialReply::Failed(failure) => r matches Err(error) && error@ == ErrorView::Config(
                failure_message(query, failure),
            ),
            OfficialReply::Answered { status, content_length, body } => if !(200 <= status
                <= 299) {
                r matches Err(error) && error@ == ErrorView::Config(
                    status_message(status, query_label(query)),
                )
            } else if body_too_large(content_length, 0) {
                r matches Err(error) && error@ == ErrorView::Config(
                    "官方查询响应过大，已停止读取"@,
                )
            } else {
                match body {
                    None => r matches Err(error) && error@ == ErrorView::Config(
                        "读取官方查询响应失败，请稍后重试"@,
                    ),
                    Some(body) => if body_too_large(content_length, body@.len()) {
                        r matches Err(error) && error@ == ErrorView::Config(
                            "官方查询响应过大，已停止读取"@,
                        )
                    } else {
                        r matches Ok(bytes) && bytes@ == body@
                    },
                }
            },
        },
{
    match reply {
        OfficialReply::Failed(failure) => {
            let label = query.label();
            Err(
                match failure {
                    FetchFailure::Timeout => config3(
                        "官方",
                        label,
                        "查询超时，请检查网络后重试",
                    ),
                    FetchFailure::Connect => config3(
                        "无法连接官方",
                        label,
                        "接口，请检查网络或代理设置",
                    ),
                    FetchFailure::Other => config3(
                        "官方",
                        label,
                        "网络请求失败，请稍后重试",
                    ),
                },
            )
        },
        OfficialReply::Answered { status, content_length, body } => {
            match check_status(*status, query) {
                Ok(_) => {},
                Err(error) => return Err(error),
            }
            if declares_too_much(*content_length) {
                return Err(config_error("官方查询响应过大，已停止读取"));
            }
            match body {
                Some(body) => read_bounded_body(body.as_slice(), *content_length),
                None => Err(config_error("读取官方查询响应失败，请稍后重试")),
            }
        },
    }
}

/// A window of a limit as the response states it. `P` is a percentage that was already brought
/// into its range.
#[derive(Debug)]
pub struct RawWindow<P> {
    pub limit_window_seconds: Option<i64>,
    pub used_percent: Option<P>,
    pub remaining_percent: Option<P>,
    pub reset_at: Option<i64>,
    pub reset_after_seconds: Option<i64>,
}

/// A limit as the response states it.
#[derive(Debug)]
pub struct RawLimit<P> {
    pub allowed: Option<bool>,
    pub limit_reached: Option<bool>,
    pub primary_window: Option<RawWindow<P>>,
    pub secondary_window: Option<RawWindow<P>>,
}

/// A further limit as the response states it: under `rate_limit`, or directly.
#[derive(Debug)]
pub struct RawAdditionalLimit<P> {
    pub limit_name: Option<String>,
    pub name: Option<String>,
    pub metered_feature: Option<String>,
    pub rate_limit: Option<RawLimit<P>>,
    pub direct_limit: RawLimit<P>,
}

/// A response about the quota.
#[derive(Debug)]
pub struct RawQuotaResponse<P> {
    pub account_id: Option<String>,
    pub email: Option<String>,
    pub plan_type: Option<String>,
    pub rate_limit: Option<RawLimit<P>>,
    pub code_review_rate_limit: Option<RawLimit<P>>,
    pub additional_rate_limits: Vec<Option<RawAdditionalLimit<P>>>,
}

/// A window of a limit as it is shown.
#[derive(Debug)]
pub struct OfficialQuotaWindow<P> {
    pub id: String,
    pub window_seconds: Option<i64>,
    pub used_percent: Option<P>,
    pub remaining_percent: Option<P>,
    pub resets_at: Option<String>,
}

/// A limit as it is shown.
#[derive(Debug)]
pub struct OfficialQuotaLimit<P> {
    pub id: String,
    pub name: Option<String>,
    pub allowed: Option<bool>,
    pub limit_reached: Option<bool>,
    pub windows: Vec<OfficialQuotaWindow<P>>,
}

/// The quota of an account as it is shown.
#[derive(Debug)]
pub struct OfficialQuotaSnapshot<P> {
    pub profile_id: String,
    pub email: Option<String>,
    pub plan_type: Option<String>,
    pub limits: Vec<OfficialQuotaLimit<P>>,
    pub checked_at: String,
}

/// When a window resets: at the time that is stated, otherwise after the delay that is stated;
/// nothing where neither makes a time.
pub open spec fn reset_text(
    reset_at: Option<i64>,
    reset_after: Option<i64>,
    checked_at: Timestamp,
) -> Option<Seq<char>> {
    let stated = match reset_at {
        Some(seconds) => rfc3339(seconds, 0),
        None => None,
    };
    match stated {
        Some(text) => Some(text),
        None => match reset_after {
            Some(delay) if delay >= 0 => rfc3339_after(
                checked_at.spec_seconds(),
                checked_at.spec_nanoseconds(),
                delay,
            ),
            _ => None,
        },
    }
}

/// Whether a shown window is what a stated one becomes.
pub open spec fn shows_window<P>(
    id: Seq<char>,
    raw: RawWindow<P>,
    checked_at: Timestamp,
    shown: OfficialQuotaWindow<P>,
) -> bool {
    &&& shown.id@ == id
    &&& shown.window_seconds == (match raw.limit_window_seconds {
        Some(seconds) if seconds > 0 => Some(seconds),
        _ => None,
    })
    &&& shown.used_percent == raw.used_percent
    &&& shown.remaining_percent == raw.remaining_percent
    &&& opt_view(shown.resets_at) == reset_text(
        raw.reset_at,
        raw.reset_after_seconds,
        checked_at,
    )
}

/// A window of a limit as it is shown. A number that makes no sense is left out, never replaced.
pub fn window<P>(id: &str, raw: RawWindow<P>, checked_at: &Timestamp) -> (r: OfficialQuotaWindow<P>)
    ensures
        shows_window(id@, raw, *checked_at, r),
{
    let mut resets_at: Option<String> = None;
    if let Some(seconds) = raw.reset_at {
        resets_at = rfc3339_text(seconds, 0);
    }
    if resets_at.is_none() {
        if let Some(delay) = raw.reset_after_seconds {
            if delay >= 0 {
                resets_at = checked_at.text_after(delay);
            }
        }
    }
    let window_seconds: Option<i64> = match raw.limit_window_seconds {
        Some(seconds) => if seconds > 0 {
            Some(seconds)
        } else {
            None
        },
        None => None,
    };
    OfficialQuotaWindow {
        id: id.to_owned(),
        window_seconds,
        used_percent: raw.used_percent,
        remaining_percent: raw.remaining_percent,
        resets_at,
    }
}

/// Whether a shown limit is what a stated one becomes: the same answers, and each window that is
/// stated, the primary one first.
pub open spec fn shows_limit<P>(
    id: Seq<char>,
    name: Option<Seq<char>>,
    raw: RawLimit<P>,
    checked_at: Timestamp,
    shown: OfficialQuotaLimit<P>,
) -> bool {
    &&& shown.id@ == id
    &&& opt_view(shown.name) == name
    &&& shown.allowed == raw.allowed
    &&& shown.limit_reached == raw.limit_reached
    &&& match (raw.primary_window, raw.secondary_window) {
        (Some(primary), Some(secondary)) => shown.windows@.len() == 2 && shows_window(
            "primary"@,
            primary,
            checked_at,
            shown.windows@[0],
        ) && shows_window("secondary"@, secondary, checked_at, shown.windows@[1]),
        (Some(primary), None) => shown.windows@.len() == 1 && shows_window(
            "primary"@,
            primary,
            checked_at,
            shown.windows@[0],
        ),
        (None, Some(secondary)) => shown.windows@.len() == 1 && shows_window(
            "secondary"@,
            secondary,
            checked_at,
            shown.windows@[0],
        ),
        (None, None) => shown.windows@.len() == 0,
    }
}

/// A limit as it is shown.
pub fn limit<P>(id: String, name: Option<String>, raw: RawLimit<P>, checked_at: &Timestamp) -> (r:
    OfficialQuotaLimit<P>)
    ensures
        shows_limit(id@, opt_view(name), raw, *checked_at, r),
{
    let mut windows: Vec<OfficialQuotaWindow<P>> = Vec::new();
    if let Some(primary) = raw.primary_window {
        windows.push(window("primary", primary, checked_at));
    }
    if let Some(secondary) = raw.secondary_window {
        windows.push(window("secondary", secondary, checked_at));
    }
    OfficialQuotaLimit {
        id,
        name,
        allowed: raw.allowed,
        limit_reached: raw.limit_reached,
        windows,
    }
}

/// A limit that is to be shown: its identifier, its name and what the response states.
pub ghost struct LimitSource<P> {
    pub id: Seq<char>,
    pub name: Option<Seq<char>>,
    pub raw: RawLimit<P>,
}

/// The first of the names of a further limit.
pub open spec fn additional_name<P>(additional: RawAdditionalLimit<P>) -> Option<Seq<char>> {
    match kept_text(opt_view(additional.limit_name)) {
        Some(name) => Some(name),
        None => match kept_text(opt_view(additional.name)) {
            Some(name) => Some(name),
            None => kept_text(opt_view(additional.metered_feature)),
        },
    }
}

/// The further limits of a response, each under its place in the response.
pub open spec fn additional_sources<P>(limits: Seq<Option<RawAdditionalLimit<P>>>) -> Seq<
    LimitSource<P>,
>
    decreases limits.len(),
{
    if limits.len() == 0 {
        seq![]
    } else {
        let head = additional_sources(limits.drop_last());
        match limits.last() {
            None => head,
            Some(additional) => head.push(
                LimitSource {
                    id: "additional-"@ + decimal((limits.len() - 1) as nat),
                    name: additional_name(additional),
                    raw: match additional.rate_limit {
                        Some(raw) => raw,
                        None => additional.direct_limit,
                    },
                },
            ),
        }
    }
}

/// The limits of a response: the main one, that of code reviews, the further ones.
pub open spec fn limit_sources<P>(raw: RawQuotaResponse<P>) -> Seq<LimitSource<P>> {
    (match raw.rate_limit {
        Some(raw) => seq![LimitSource { id: "main"@, name: None, raw }],
        None => seq![],
    }) + (match raw.code_review_rate_limit {
        Some(raw) => seq![LimitSource { id: "code_review"@, name: None, raw }],
        None => seq![],
    }) + additional_sources(raw.additional_rate_limits@)
}

/// Whether shown limits are what these become.
pub open spec fn shows_limits<P>(
    sources: Seq<LimitSource<P>>,
    checked_at: Timestamp,
    shown: Seq<OfficialQuotaLimit<P>>,
) -> bool {
    shown.len() == sources.len() && forall|i: int|
        0 <= i < sources.len() ==> shows_limit(
            (#[trigger] sources[i]).id,
            sources[i].name,
            sources[i].raw,
            checked_at,
            shown[i],
        )
}

/// Whether a response is about another account than the one that was asked for.
pub open spec fn other_account(actual: Option<Seq<char>>, expected: Option<Seq<char>>) -> bool {
    match (kept_text(actual), kept_text(expected)) {
        (Some(actual), Some(expected)) => actual != expected,
        _ => false,
    }
}

/// Whether an answer is what a response about the quota becomes.
pub open spec fn shows_quota<P>(
    raw: RawQuotaResponse<P>,
    profile_id: Seq<char>,
    credentials: OfficialProfileQuotaCredentials,
    checked_at: Timestamp,
    shown: OfficialQuotaSnapshot<P>,
) -> bool {
    &&& shown.profile_id@ == profile_id
    &&& opt_view(shown.email) == (match email_of(opt_view(raw.email)) {
        Some(email) => Some(email),
        None => email_of(opt_view(credentials.email)),
    })
    &&& opt_view(shown.plan_type) == kept_text(opt_view(raw.plan_type))
    &&& shows_limits(limit_sources(raw), checked_at, shown.limits@)
    &&& rfc3339(checked_at.spec_seconds(), checked_at.spec_nanoseconds()) == Some(
        shown.checked_at@,
    )
}

/// The quota of an account, from a response; `None` is a response that could not be understood.
pub fn parse_quota_response<P>(
    raw: Option<RawQuotaResponse<P>>,
    profile_id: &str,
    credentials: &OfficialProfileQuotaCredentials,
    checked_at: &Timestamp,
) -> (r: Result<OfficialQuotaSnapshot<P>, CodexxError>)
    ensures
        match raw {
            None => r matches Err(error) && error@ == ErrorView::Config(
                "官方额度响应格式无法识别，请稍后重试"@,
            ),
            Some(raw) => if other_account(
                opt_view(raw.account_id),
                opt_view(credentials.account_id),
            ) {
                r matches Err(error) && error@ == ErrorView::Config(
                    "额度响应与所选官方账号不一致，请重新登录此配置后重试"@,
                )
            } else {
                r matches Ok(snapshot) && shows_quota(
                    raw,
                    profile_id@,
                    *credentials,
                    *checked_at,
                    snapshot,
                )
            },
        },
{
    let raw = match raw {
        Some(raw) => raw,
        None => return Err(
            config_error("官方额度响应格式无法识别，请稍后重试"),
        ),
    };
    let differs: bool = match (nonempty(&raw.account_id), nonempty(&credentials.account_id)) {
        (Some(actual), Some(expected)) => !same_text(&actual, &expected),
        _ => false,
    };
    if differs {
        return Err(
            config_error("额度响应与所选官方账号不一致，请重新登录此配置后重试"),
        );
    }
    let ghost response = raw;
    let email = match display_email(&raw.email) {
        Some(email) => Some(email),
        None => display_email(&credentials.email),
    };
    let plan_type = nonempty(&raw.plan_type);
    let mut limits: Vec<OfficialQuotaLimit<P>> = Vec::new();
    let ghost mut sources: Seq<LimitSource<P>> = seq![];
    if let Some(found) = raw.rate_limit {
        limits.push(limit("main".to_owned(), None, found, checked_at));
        proof {
            sources = sources.push(LimitSource { id: "main"@, name: None, raw: found });
        }
    }
    if let Some(found) = raw.code_review_rate_limit {
        limits.push(limit("code_review".to_owned(), None, found, checked_at));
        proof {
            sources = sources.push(LimitSource { id: "code_review"@, name: None, raw: found });
        }
    }
    let ghost head = sources;
    let ghost all = raw.additional_rate_limits@;
    let mut rest = raw.additional_rate_limits;
    let mut index: usize = 0;
    let count: usize = rest.len();
    assert(head + additional_sources(all.take(0)) =~= head);
    while rest.len() > 0
        invariant
            index + rest@.len() == all.len(),
            count == all.len(),
            rest@ == all.subrange(index as int, all.len() as int),
            sources == head + additional_sources(all.take(index as int)),
            shows_limits(sources, *checked_at, limits@),
        decreases rest@.len(),
    {
        let ghost prefix = all.take(index + 1);
        assert(prefix.drop_last() =~= all.take(index as int));
        let first = rest.remove(0);
        assert(first == prefix.last());
        assert(rest@ =~= all.subrange(index + 1, all.len() as int));
        if let Some(additional) = first {
            let mut name = nonempty(&additional.limit_name);
            if name.is_none() {
                name = nonempty(&additional.name);
            }
            if name.is_none() {
                name = nonempty(&additional.metered_feature);
            }
            let stated = match additional.rate_limit {
                Some(stated) => stated,
                None => additional.direct_limit,
            };
            let id = joined("additional-", &decimal_of(index as u128));
            limits.push(limit(id, name, stated, checked_at));
            proof {
                sources =
                sources.push(
                    LimitSource {
                        id: "additional-"@ + decimal(index as nat),
                        name: additional_name(additional),
                        raw: stated,
                    },
                );
            }
        }
        assert(sources =~= head + additional_sources(prefix));
        index = index + 1;
    }
    assert(all.take(all.len() as int) =~= all);
    assert(sources =~= limit_sources(response));
    Ok(
        OfficialQuotaSnapshot {
            profile_id: profile_id.to_owned(),
            email,
            plan_type,
            limits,
            checked_at: checked_at.text(),
        },
    )
}

/// The answer to how often a limit can still be reset.
#[derive(Debug)]
pub struct OfficialResetCreditsSnapshot {
    pub profile_id: String,
    pub available_count: u32,
    pub checked_at: String,
}

/// How often a limit can still be reset, from a response. A response that states no count is an
/// error, never a count of zero.
pub fn parse_reset_credits_response(
    available_count: Option<u32>,
    profile_id: &str,
    checked_at: &Timestamp,
) -> (r: Result<OfficialResetCreditsSnapshot, CodexxError>)
    ensures
        match available_count {
            None => r matches Err(error) && error@ == ErrorView::Config(
                "官方重置次数响应格式无法识别，请稍后重试"@,
            ),
            Some(count) => r matches Ok(snapshot) && snapshot.profile_id@ == profile_id@
                && snapshot.available_count == count && rfc3339(
                checked_at.spec_seconds(),
                checked_at.spec_nanoseconds(),
            ) == Some(snapshot.checked_at@),
        },
{
    match available_count {
        Some(available_count) => Ok(
            OfficialResetCreditsSnapshot {
                profile_id: profile_id.to_owned(),
                available_count,
                checked_at: checked_at.text(),
            },
        ),
        None => Err(
            config_error("官方重置次数响应格式无法识别，请稍后重试"),
        ),
    }
}

/// A text with its length in bytes ahead of it.
pub open spec fn delimited(text: Seq<char>) -> Seq<u8> {
    sized(utf8(text))
}

/// An optional text, an absent one being empty.
pub open spec fn or_empty(text: Option<Seq<char>>) -> Seq<char> {
    match text {
        Some(text) => text,
        None => seq![],
    }
}

/// What a fingerprint is taken of.
pub open spec fn fingerprint_input(credentials: OfficialProfileQuotaCredentials) -> Seq<u8> {
    delimited(credentials.access_token@) + delimited(or_empty(opt_view(credentials.account_id)))
        + delimited(or_empty(opt_view(credentials.email)))
}

/// Appends a text with its length in bytes ahead of it.
fn add_delimited(out: &mut Vec<u8>, text: &str)
    ensures
        final(out)@ == old(out)@ + delimited(text@),
{
    add_sized(out, text.as_bytes());
}

/// Appends an optional text with its length in bytes ahead of it.
fn add_delimited_opt(out: &mut Vec<u8>, text: &Option<String>)
    ensures
        final(out)@ == old(out)@ + delimited(or_empty(opt_view(*text))),
{
    match text {
        Some(text) => add_delimited(out, text),
        None => {
            add_delimited(out, "");
            proof {
                reveal_strlit("");
                assert(""@ =~= Seq::<char>::empty());
            }
        },
    }
}

/// A digest by which credentials are recognised again. Only it is kept while a request is made.
pub fn credential_fingerprint(credentials: &OfficialProfileQuotaCredentials) -> (r: Vec<u8>)
    ensures
        r@ == sha256(fingerprint_input(*credentials)),
        r@.len() == 32,
{
    let mut bytes: Vec<u8> = Vec::new();
    add_delimited(&mut bytes, &credentials.access_token);
    add_delimited_opt(&mut bytes, &credentials.account_id);
    add_delimited_opt(&mut bytes, &credentials.email);
    assert(bytes@ =~= fingerprint_input(*credentials));
    sha256_of(bytes.as_slice())
}

/// Whether credentials are still those that a fingerprint was taken of.
pub fn ensure_same_credentials(expected: &Vec<u8>, current: &OfficialProfileQuotaCredentials) -> (r:
    Result<(), CodexxError>)
    ensures
        if expected@ == sha256(fingerprint_input(*current)) {
            r is Ok
        } else {
            r matches Err(error) && error@ == ErrorView::Config(
                "此官方账号的登录信息已变化，请重新刷新"@,
            )
        },
{
    let found = credential_fingerprint(current);
    if same_bytes(expected.as_slice(), found.as_slice()) {
        Ok(())
    } else {
        Err(config_error("此官方账号的登录信息已变化，请重新刷新"))
    }
}

/// The credentials that a query is made with, given which locks could be taken and the stored
/// credential.
pub fn read_query_credentials(query_locked: bool, file_locked: bool, auth: &Option<Value>) -> (r:
    Result<OfficialProfileQuotaCredentials, CodexxError>)
    ensures
        if !query_locked {
            r matches Err(error) && error@ == ErrorView::Config(
                "官方账号查询暂不可用，请重试"@,
            )
        } else if !file_locked {
            r matches Err(error) && error@ == ErrorView::Config(
                "官方配置正在修改，请稍后刷新"@,
            )
        } else {
            reads_credentials(*auth, r)
        },
{
    if !query_locked {
        return Err(config_error("官方账号查询暂不可用，请重试"));
    }
    if !file_locked {
        return Err(config_error("官方配置正在修改，请稍后刷新"));
    }
    official_profile_quota_credentials(auth)
}

/// What a query hands back once its response was understood: the answer, provided that the
/// credentials it was made with are still there.
pub fn read_official_snapshot<T>(
    fingerprint: &Vec<u8>,
    snapshot: T,
    current: &Result<OfficialProfileQuotaCredentials, CodexxError>,
) -> (r: Result<T, CodexxError>)
    ensures
        match *current {
            Err(_) => r matches Err(error) && error@ == ErrorView::Config(
                "此官方配置已变化或被删除，请重新选择账号后查询"@,
            ),
            Ok(current) => if fingerprint@ == sha256(fingerprint_input(current)) {
                r == Ok::<T, CodexxError>(snapshot)
            } else {
                r matches Err(error) && error@ == ErrorView::Config(
                    "此官方账号的登录信息已变化，请重新刷新"@,
                )
            },
        },
{
    let current = match current {
        Ok(current) => current,
        Err(_) => return Err(
            config_error("此官方配置已变化或被删除，请重新选择账号后查询"),
        ),
    };
    match ensure_same_credentials(fingerprint, current) {
        Ok(_) => Ok(snapshot),
        Err(error) => Err(error),
    }
}

/// The quota of a profile, once its response was read and its credentials were read again.
pub fn get_official_profile_quota_inner<P>(
    profile_id: &str,
    credentials: &OfficialProfileQuotaCredentials,
    raw: Option<RawQuotaResponse<P>>,
    checked_at: &Timestamp,
    current: &Result<OfficialProfileQuotaCredentials, CodexxError>,
) -> (r: Result<OfficialQuotaSnapshot<P>, CodexxError>)
    ensures
        match raw {
            None => r matches Err(error) && error@ == ErrorView::Config(
                "官方额度响应格式无法识别，请稍后重试"@,
            ),
            Some(raw) => if other_account(
                opt_view(raw.account_id),
                opt_view(credentials.account_id),
            ) {
                r matches Err(error) && error@ == ErrorView::Config(
                    "额度响应与所选官方账号不一致，请重新登录此配置后重试"@,
                )
            } else if *current is Err {
                r matches Err(error) && error@ == ErrorView::Config(
                    "此官方配置已变化或被删除，请重新选择账号后查询"@,
                )
            } else if !same_identity(*credentials, (*current)->Ok_0) {
                r matches Err(error) && error@ == ErrorView::Config(
                    "此官方账号的登录信息已变化，请重新刷新"@,
                )
            } else {
                r matches Ok(snapshot) && shows_quota(
                    raw,
                    trimmed(profile_id@),
                    *credentials,
                    *checked_at,
                    snapshot,
                )
            },
        },
{
    let fingerprint = credential_fingerprint(credentials);
    let profile_id = trim(profile_id);
    match parse_quota_response(raw, &profile_id, credentials, checked_at) {
        Ok(snapshot) => read_official_snapshot(&fingerprint, snapshot, current),
        Err(error) => Err(error),
    }
}

/// How often a limit of a profile can still be reset, once its response was read and its
/// credentials were read again.
pub fn get_official_profile_reset_credits_inner(
    profile_id: &str,
    credentials: &OfficialProfileQuotaCredentials,
    available_count: Option<u32>,
    checked_at: &Timestamp,
    current: &Result<OfficialProfileQuotaCredentials, CodexxError>,
) -> (r: Result<OfficialResetCreditsSnapshot, CodexxError>)
    ensures
        match available_count {
            None => r matches Err(error) && error@ == ErrorView::Config(
                "官方重置次数响应格式无法识别，请稍后重试"@,
            ),
            Some(count) => if *current is Err {
                r matches Err(error) && error@ == ErrorView::Config(
                    "此官方配置已变化或被删除，请重新选择账号后查询"@,
                )
            } else if !same_identity(*credentials, (*current)->Ok_0) {
                r matches Err(error) && error@ == ErrorView::Config(
                    "此官方账号的登录信息已变化，请重新刷新"@,
                )
            } else {
                r matches Ok(snapshot) && snapshot.profile_id@ == trimmed(profile_id@)
                    && snapshot.available_count == count && rfc3339(
                    checked_at.spec_seconds(),
                    checked_at.spec_nanoseconds(),
                ) == Some(snapshot.checked_at@)
            },
        },
{
    let fingerprint = credential_fingerprint(credentials);
    let profile_id = trim(profile_id);
    match parse_reset_credits_response(available_count, &profile_id, checked_at) {
        Ok(snapshot) => read_official_snapshot(&fingerprint, snapshot, current),
        Err(error) => Err(error),
    }
}

/// What two equal fingerprints say of the credentials they were taken of.
pub open spec fn same_identity(
    left: OfficialProfileQuotaCredentials,
    right: OfficialProfileQuotaCredentials,
) -> bool {
    sha256(fingerprint_input(left)) == sha256(fingerprint_input(right))
}

/// A delimited text is told from any other by its beginning.
proof fn lemma_delimited_injective(left: Seq<char>, right: Seq<char>, a: Seq<u8>, b: Seq<u8>)
    requires
        utf8(left).len() <= u64::MAX,
        utf8(right).len() <= u64::MAX,
        delimited(left) + a == delimited(right) + b,
    ensures
        left == right,
        a == b,
{
    lemma_sized_injective(utf8(left), utf8(right), a, b);
    encode_utf8_decode_utf8(left);
    encode_utf8_decode_utf8(right);
}

/// A fingerprint is never taken of the same bytes for two different identities, however their
/// texts are cut.
pub proof fn law_identities_are_told_apart(
    left: OfficialProfileQuotaCredentials,
    right: OfficialProfileQuotaCredentials,
)
    requires
        utf8(left.access_token@).len() <= u64::MAX,
        utf8(right.access_token@).len() <= u64::MAX,
        utf8(or_empty(opt_view(left.account_id))).len() <= u64::MAX,
        utf8(or_empty(opt_view(right.account_id))).len() <= u64::MAX,
        utf8(or_empty(opt_view(left.email))).len() <= u64::MAX,
        utf8(or_empty(opt_view(right.email))).len() <= u64::MAX,
    ensures
        (fingerprint_input(left) == fingerprint_input(right)) == (left.access_token@
            == right.access_token@ && or_empty(opt_view(left.account_id)) == or_empty(
            opt_view(right.account_id),
        ) && or_empty(opt_view(left.email)) == or_empty(opt_view(right.email))),
{
    let account = or_empty(opt_view(left.account_id));
    let other_account = or_empty(opt_view(right.account_id));
    let email = or_empty(opt_view(left.email));
    let other_email = or_empty(opt_view(right.email));
    if fingerprint_input(left) == fingerprint_input(right) {
        assert(fingerprint_input(left) =~= delimited(left.access_token@) + (delimited(account)
            + delimited(email)));
        assert(fingerprint_input(right) =~= delimited(right.access_token@) + (delimited(
            other_account,
        ) + delimited(other_email)));
        lemma_delimited_injective(
            left.access_token@,
            right.access_token@,
            delimited(account) + delimited(email),
            delimited(other_account) + delimited(other_email),
        );
        lemma_delimited_injective(
            account,
            other_account,
            delimited(email),
            delimited(other_email),
        );
        assert(delimited(email) + Seq::<u8>::empty() =~= delimited(email));
        assert(delimited(other_email) + Seq::<u8>::empty() =~= delimited(other_email));
        lemma_delimited_injective(email, other_email, seq![], seq![]);
    }
}

/// Credentials that did not change are recognised again.
pub proof fn law_unchanged_credentials_are_recognised(
    left: OfficialProfileQuotaCredentials,
    right: OfficialProfileQuotaCredentials,
)
    requires
        left.access_token@ == right.access_token@,
        opt_view(left.account_id) == opt_view(right.account_id),
        opt_view(left.email) == opt_view(right.email),
    ensures
        same_identity(left, right),
{
}

} // verus!
