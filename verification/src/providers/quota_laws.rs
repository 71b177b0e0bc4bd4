//! What holds of the quota that is shown for an official account.
use crate::clock::{rfc3339, Timestamp};
use crate::error::{CodexxError, ErrorView};
use crate::providers::official_display::{
    official_profile_quota_credentials, OfficialProfileQuotaCredentials,
};
use crate::providers::quota::{
    additional_sources, check_status, credential_fingerprint, declares_too_much,
    ensure_same_credentials, fetch_official_response, get_official_profile_quota_inner,
    get_official_profile_reset_credits_inner, limit, limit_sources, nonempty, parse_quota_response,
    parse_reset_credits_response, quota_headers, read_bounded_body, read_official_snapshot,
    read_query_credentials, window, FetchFailure, OfficialQuery, OfficialQuotaLimit,
    OfficialQuotaSnapshot, OfficialQuotaWindow, OfficialReply, OfficialResetCreditsSnapshot,
    QuotaHeaders, RawAdditionalLimit, RawLimit, RawQuotaResponse, RawWindow,
};
use crate::text::{blank, decimal, lemma_trimmed_part, opt_view, trimmed};
use serde_json::Value;
use vstd::prelude::*;

verus! {

/// Whether a shown window says of its usage what a stated one says.
pub open spec fn same_usage<P>(raw: RawWindow<P>, shown: OfficialQuotaWindow<P>) -> bool {
    shown.used_percent == raw.used_percent && shown.remaining_percent == raw.remaining_percent
}

/// A shown window states the usage that the response states, and none where the response has none:
/// neither percentage is made up, dropped, swapped or changed.
pub proof fn law_windows_show_the_stated_usage<P>(
    id: &str,
    raw: RawWindow<P>,
    checked_at: &Timestamp,
    shown: OfficialQuotaWindow<P>,
)
    requires
        call_ensures(window::<P>, (id, raw, checked_at), shown),
    ensures
        shown.id@ == id@,
        shown.used_percent == raw.used_percent,
        shown.remaining_percent == raw.remaining_percent,
        raw.used_percent is Some ==> shown.used_percent is Some,
        raw.used_percent is None ==> shown.used_percent is None,
        raw.remaining_percent is Some ==> shown.remaining_percent is Some,
        raw.remaining_percent is None ==> shown.remaining_percent is None,
{
}

/// A shown window has the length that the response states, and none where that is no length.
pub proof fn law_windows_show_the_stated_length<P>(
    id: &str,
    raw: RawWindow<P>,
    checked_at: &Timestamp,
    shown: OfficialQuotaWindow<P>,
)
    requires
        call_ensures(window::<P>, (id, raw, checked_at), shown),
    ensures
        forall|seconds: i64|
            shown.window_seconds == Some(seconds) <==> raw.limit_window_seconds == Some(seconds)
                && seconds > 0,
{
}

/// A shown window resets at the time that the response states; where it states none, or none in
/// range, so many seconds after the query as it states; where it states neither, at no time.
pub proof fn law_windows_reset_when_stated<P>(
    id: &str,
    raw: RawWindow<P>,
    checked_at: &Timestamp,
    shown: OfficialQuotaWindow<P>,
)
    requires
        call_ensures(window::<P>, (id, raw, checked_at), shown),
    ensures
        forall|time: i64|
            raw.reset_at == Some(time) && (#[trigger] rfc3339(time, 0)) is Some ==> opt_view(
                shown.resets_at,
            ) == rfc3339(time, 0),
        raw.reset_at is None && (raw.reset_after_seconds matches Some(delay) && 0 <= delay
            <= 9_000_000_000_000_000) && checked_at.spec_nanoseconds() < 1_000_000_000 && rfc3339(
            checked_at.spec_seconds(),
            checked_at.spec_nanoseconds(),
        ) is Some ==> opt_view(shown.resets_at) == rfc3339(
            (checked_at.spec_seconds() + raw.reset_after_seconds->0) as i64,
            checked_at.spec_nanoseconds(),
        ),
        raw.reset_at is None && (raw.reset_after_seconds is None || raw.reset_after_seconds->0 < 0)
            ==> shown.resets_at is None,
{
}

/// Whether a shown limit says what a stated one says: the same answers, and each window under its
/// own name and with its usage.
pub open spec fn same_limit<P>(raw: RawLimit<P>, shown: OfficialQuotaLimit<P>) -> bool {
    let first: int = if raw.primary_window is Some {
        1
    } else {
        0
    };
    let both: int = if raw.secondary_window is Some {
        first + 1
    } else {
        first
    };
    &&& shown.allowed == raw.allowed
    &&& shown.limit_reached == raw.limit_reached
    &&& shown.windows@.len() == both
    &&& raw.primary_window matches Some(primary) ==> shown.windows@[0].id@ == "primary"@
        && same_usage(primary, shown.windows@[0])
    &&& raw.secondary_window matches Some(secondary) ==> shown.windows@[first].id@ == "secondary"@
        && same_usage(secondary, shown.windows@[first])
}

/// A shown limit holds exactly the windows that are stated, and whether it allows and is reached.
pub proof fn law_limits_show_what_is_stated<P>(
    id: String,
    name: Option<String>,
    raw: RawLimit<P>,
    checked_at: &Timestamp,
    shown: OfficialQuotaLimit<P>,
)
    requires
        call_ensures(limit::<P>, (id, name, raw, checked_at), shown),
    ensures
        shown.id@ == id@,
        opt_view(shown.name) == opt_view(name),
        same_limit(raw, shown),
{
}

/// How many further limits a response states.
pub open spec fn stated_limits<P>(limits: Seq<Option<RawAdditionalLimit<P>>>) -> nat
    decreases limits.len(),
{
    if limits.len() == 0 {
        0
    } else {
        stated_limits(limits.drop_last()) + (if limits.last() is Some {
            1nat
        } else {
            0nat
        })
    }
}

/// Where a further limit is shown among the others.
proof fn lemma_additional_limits<P>(limits: Seq<Option<RawAdditionalLimit<P>>>, i: int) -> (at: int)
    ensures
        additional_sources(limits).len() == stated_limits(limits),
        0 <= i < limits.len() && limits[i] is Some ==> 0 <= at < stated_limits(limits)
            && additional_sources(limits)[at].id == "additional-"@ + decimal(i as nat)
            && additional_sources(limits)[at].raw == (match limits[i]->0.rate_limit {
            Some(raw) => raw,
            None => limits[i]->0.direct_limit,
        }),
    decreases limits.len(),
{
    if limits.len() == 0 {
        0
    } else {
        let at = lemma_additional_limits(limits.drop_last(), i);
        if i == limits.len() - 1 {
            stated_limits(limits.drop_last()) as int
        } else {
            at
        }
    }
}

/// A response that could be understood and is about the account that was asked for is shown: for
/// the profile, at the time of the query, with every limit that it states and no other.
pub proof fn law_quota_shows_every_limit<P>(
    raw: RawQuotaResponse<P>,
    profile_id: &str,
    credentials: &OfficialProfileQuotaCredentials,
    checked_at: &Timestamp,
    r: Result<OfficialQuotaSnapshot<P>, CodexxError>,
    i: int,
)
    requires
        call_ensures(parse_quota_response::<P>, (Some(raw), profile_id, credentials, checked_at), r),
    ensures
        raw.account_id is None || credentials.account_id is None ==> r is Ok,
        r matches Ok(shown) ==> {
            let main: nat = if raw.rate_limit is Some {
                1
            } else {
                0
            };
            let reviews: nat = if raw.code_review_rate_limit is Some {
                1
            } else {
                0
            };
            &&& shown.profile_id@ == profile_id@
            &&& rfc3339(checked_at.spec_seconds(), checked_at.spec_nanoseconds()) == Some(
                shown.checked_at@,
            )
            &&& shown.limits@.len() == main + reviews + stated_limits(raw.additional_rate_limits@)
            &&& raw.rate_limit matches Some(stated) ==> shown.limits@[0].id@ == "main"@
                && same_limit(stated, shown.limits@[0])
            &&& raw.code_review_rate_limit matches Some(stated)
                ==> shown.limits@[main as int].id@ == "code_review"@ && same_limit(
                stated,
                shown.limits@[main as int],
            )
            &&& 0 <= i < raw.additional_rate_limits@.len() && raw.additional_rate_limits@[i] is Some
                ==> exists|at: int|
                0 <= at < shown.limits@.len() && (#[trigger] shown.limits@[at]).id@
                    == "additional-"@ + decimal(i as nat) && same_limit(
                    match raw.additional_rate_limits@[i]->0.rate_limit {
                        Some(stated) => stated,
                        None => raw.additional_rate_limits@[i]->0.direct_limit,
                    },
                    shown.limits@[at],
                )
        },
{
    if let Ok(shown) = r {
        let further = raw.additional_rate_limits@;
        let at = lemma_additional_limits(further, i);
        let all = limit_sources(raw);
        let head = all.len() - additional_sources(further).len();
        assert forall|k: int| 0 <= k < additional_sources(further).len() implies all[head + k]
            == additional_sources(further)[k] by {}
        if raw.rate_limit is Some {
            assert(all[0].raw == raw.rate_limit->0);
        }
        if raw.code_review_rate_limit is Some {
            assert(all[head - 1].raw == raw.code_review_rate_limit->0);
        }
        if 0 <= i < further.len() && further[i] is Some {
            assert(all[head + at].id == "additional-"@ + decimal(i as nat));
            assert(shown.limits@[head + at].id@ == "additional-"@ + decimal(i as nat));
        }
    }
}

/// A response about another account is refused, and one about the same account is not, whatever
/// white space stands around the identifiers.
pub proof fn law_quota_belongs_to_the_account<P>(
    raw: RawQuotaResponse<P>,
    profile_id: &str,
    credentials: &OfficialProfileQuotaCredentials,
    checked_at: &Timestamp,
    r: Result<OfficialQuotaSnapshot<P>, CodexxError>,
)
    requires
        call_ensures(parse_quota_response::<P>, (Some(raw), profile_id, credentials, checked_at), r),
        raw.account_id is Some,
        credentials.account_id is Some,
    ensures
        ({
            let actual = raw.account_id->0@;
            let expected = credentials.account_id->0@;
            r is Err <==> !blank(actual) && !blank(expected) && trimmed(actual) != trimmed(expected)
        }),
{
}

/// Once the login has changed, or is gone, no answer of a query made with it is shown; as long as
/// it is there unchanged, the answer is.
pub proof fn law_answers_need_the_login_they_were_asked_with<T>(
    credentials: &OfficialProfileQuotaCredentials,
    fingerprint: Vec<u8>,
    snapshot: T,
    current: &Result<OfficialProfileQuotaCredentials, CodexxError>,
    r: Result<T, CodexxError>,
)
    requires
        call_ensures(credential_fingerprint, (credentials,), fingerprint),
        call_ensures(read_official_snapshot::<T>, (&fingerprint, snapshot, current), r),
    ensures
        *current is Err ==> r is Err,
        r is Ok ==> r == Ok::<T, CodexxError>(snapshot),
        *current matches Ok(found) && found.access_token@ == credentials.access_token@ && opt_view(
            found.account_id,
        ) == opt_view(credentials.account_id) && opt_view(found.email) == opt_view(
            credentials.email,
        ) ==> r is Ok,
{
}

/// The count that a response states is shown as it is; a response without one is an error.
pub proof fn law_reset_credits_show_the_stated_count(
    available_count: Option<u32>,
    profile_id: &str,
    checked_at: &Timestamp,
    r: Result<OfficialResetCreditsSnapshot, CodexxError>,
)
    requires
        call_ensures(parse_reset_credits_response, (available_count, profile_id, checked_at), r),
    ensures
        r is Ok <==> available_count is Some,
        r matches Ok(shown) ==> Some(shown.available_count) == available_count
            && shown.profile_id@ == profile_id@ && rfc3339(
            checked_at.spec_seconds(),
            checked_at.spec_nanoseconds(),
        ) == Some(shown.checked_at@),
{
}

/// A query about the resets of a profile answers with the count that the response states, for that
/// profile, as long as the login is the one it was made with.
pub proof fn law_reset_queries_answer_for_their_profile(
    profile_id: &str,
    credentials: &OfficialProfileQuotaCredentials,
    count: u32,
    checked_at: &Timestamp,
    r: Result<OfficialResetCreditsSnapshot, CodexxError>,
    current: &Result<OfficialProfileQuotaCredentials, CodexxError>,
)
    requires
        call_ensures(
            get_official_profile_reset_credits_inner,
            (profile_id, credentials, Some(count), checked_at, current),
            r,
        ),
    ensures
        *current is Err ==> r is Err,
        *current matches Ok(found) && found == *credentials ==> r is Ok,
        r matches Ok(shown) ==> shown.available_count == count && shown.profile_id@ == trimmed(
            profile_id@,
        ),
{
}

/// A query about the quota of a profile answers for that profile and with every limit that the
/// response states, as long as the login is the one it was made with.
pub proof fn law_quota_queries_answer_for_their_profile<P>(
    profile_id: &str,
    credentials: &OfficialProfileQuotaCredentials,
    raw: RawQuotaResponse<P>,
    checked_at: &Timestamp,
    current: &Result<OfficialProfileQuotaCredentials, CodexxError>,
    r: Result<OfficialQuotaSnapshot<P>, CodexxError>,
)
    requires
        call_ensures(
            get_official_profile_quota_inner::<P>,
            (profile_id, credentials, Some(raw), checked_at, current),
            r,
        ),
    ensures
        *current is Err ==> r is Err,
        raw.account_id is None && (*current matches Ok(found) && found == *credentials) ==> r is Ok,
        r matches Ok(shown) ==> {
            &&& shown.profile_id@ == trimmed(profile_id@)
            &&& raw.rate_limit matches Some(stated) ==> shown.limits@.len() > 0 && same_limit(
                stated,
                shown.limits@[0],
            )
        },
{
    if let Ok(shown) = r {
        let all = limit_sources(raw);
        if raw.rate_limit is Some {
            assert(all[0].raw == raw.rate_limit->0);
        }
    }
}

/// An answer is a success exactly where its status is one of the two hundreds; then the whole body
/// is handed on as it was received, as long as it is no larger than a mebibyte.
pub proof fn law_only_successes_are_read(
    query: OfficialQuery,
    status: u16,
    content_length: Option<u64>,
    body: Option<Vec<u8>>,
    r: Result<Vec<u8>, CodexxError>,
)
    requires
        call_ensures(
            fetch_official_response,
            (query, &OfficialReply::Answered { status, content_length, body }),
            r,
        ),
    ensures
        r is Ok <==> status / 100 == 2 && body is Some && body->0@.len() <= 1024 * 1024 && (
        content_length is None || content_length->0 <= 1024 * 1024),
        r matches Ok(bytes) ==> bytes@ == body->0@,
{
}

/// A request without an answer is an error.
pub proof fn law_failed_requests_are_errors(
    query: OfficialQuery,
    failure: FetchFailure,
    r: Result<Vec<u8>, CodexxError>,
)
    requires
        call_ensures(fetch_official_response, (query, &OfficialReply::Failed(failure)), r),
    ensures
        r is Err,
{
}

/// A request carries the trimmed token as its bearer and the trimmed account, and no account where
/// none is known.
pub proof fn law_requests_carry_the_login(
    credentials: &OfficialProfileQuotaCredentials,
    r: Result<QuotaHeaders, CodexxError>,
)
    requires
        call_ensures(quota_headers, (credentials,), r),
    ensures
        blank(credentials.access_token@) ==> r is Err,
        r matches Ok(headers) ==> headers.authorization@ == "Bearer "@ + trimmed(
            credentials.access_token@,
        ) && opt_view(headers.account_id) == (match credentials.account_id {
            Some(account) => if blank(account@) {
                None
            } else {
                Some(trimmed(account@))
            },
            None => None,
        }),
        !blank(credentials.access_token@) && (forall|i: int|
            0 <= i < credentials.access_token@.len() ==> (33 <= (
            #[trigger] credentials.access_token@[i]) as u32 <= 126)) && credentials.account_id is None
            ==> r is Ok,
{
    if !blank(credentials.access_token@) && (forall|i: int|
        0 <= i < credentials.access_token@.len() ==> (33 <= (
        #[trigger] credentials.access_token@[i]) as u32 <= 126)) {
        let token = trimmed(credentials.access_token@);
        reveal_strlit("Bearer ");
        let whole = "Bearer "@ + token;
        assert forall|i: int| 0 <= i < whole.len() implies (#[trigger] whole[i]) as u32 >= 32
            && whole[i] as u32 != 127 by {
            if i >= 7 {
                assert(whole[i] == token[i - 7]);
                let (from, to) = lemma_trimmed_part(credentials.access_token@);
                assert(token[i - 7] == credentials.access_token@[from + i - 7]);
            }
        }
    }
}

/// Each question is asked at its own place and has its own name.
pub proof fn law_questions_have_their_own_place(
    query: OfficialQuery,
    url: &'static str,
    label: &'static str,
)
    requires
        call_ensures(OfficialQuery::url, (query,), url),
        call_ensures(OfficialQuery::label, (query,), label),
    ensures
        query is Quota ==> url@ == "https://chatgpt.com/backend-api/wham/usage"@ && label@
            == "额度"@,
        query is ResetCredits ==> url@
            == "https://chatgpt.com/backend-api/wham/rate-limit-reset-credits"@ && label@
            == "重置次数"@,
{
}

/// What is reported of a status names what was asked; a login that has expired, a refusal, too many
/// questions, a redirection and a failure of the service are told apart from anything else, and the
/// status is shown.
pub proof fn law_failed_statuses_are_told_apart(
    status: u16,
    query: OfficialQuery,
    label: &'static str,
    number: u128,
    digits: String,
    r: Result<(), CodexxError>,
)
    requires
        call_ensures(check_status, (status, query), r),
        call_ensures(OfficialQuery::label, (query,), label),
        number == status,
        call_ensures(crate::text::decimal_of, (number,), digits),
    ensures
        r is Ok <==> status / 100 == 2,
        status == 401 ==> r->Err_0@ == ErrorView::Config(
            "官方登录已失效，请重新登录此账号后查询"@ + label@ + "（HTTP 401）"@,
        ),
        status == 403 ==> r->Err_0@ == ErrorView::Config(
            "无法访问官方"@ + label@ + "服务（HTTP 403），请稍后重试或检查网络"@,
        ),
        status == 429 ==> r->Err_0@ == ErrorView::Config(
            "官方"@ + label@ + "查询过于频繁，请稍后重试（HTTP 429）"@,
        ),
        status / 100 == 3 ==> r->Err_0@ == ErrorView::Config(
            "官方"@ + label@ + "接口发生重定向，已停止请求，请稍后重试"@,
        ),
        status / 100 == 5 ==> r->Err_0@ == ErrorView::Config(
            "官方"@ + label@ + "服务暂不可用（HTTP "@ + digits@ + "），请稍后重试"@,
        ),
        status / 100 != 2 && status / 100 != 3 && status / 100 != 5 && status != 401 && status != 403
            && status != 429 ==> r->Err_0@ == ErrorView::Config(
            "官方"@ + label@ + "查询失败（HTTP "@ + digits@ + "），请稍后重试"@,
        ),
{
}

/// A body is read whole, or not at all where it is larger than a mebibyte, whatever it declares.
pub proof fn law_bodies_are_read_whole(
    body: &[u8],
    length: Option<u64>,
    declared: bool,
    r: Result<Vec<u8>, CodexxError>,
)
    requires
        call_ensures(read_bounded_body, (body, length), r),
        call_ensures(declares_too_much, (length,), declared),
    ensures
        declared <==> length is Some && length->0 > 1024 * 1024,
        r is Ok <==> !declared && body@.len() <= 1024 * 1024,
        r is Ok ==> r->Ok_0@ == body@,
{
}

/// Credentials pass for those that a fingerprint was taken of where they are the same.
pub proof fn law_the_same_login_is_recognised(
    before: &OfficialProfileQuotaCredentials,
    fingerprint: Vec<u8>,
    current: &OfficialProfileQuotaCredentials,
    other: Vec<u8>,
    r: Result<(), CodexxError>,
)
    requires
        call_ensures(credential_fingerprint, (before,), fingerprint),
        call_ensures(credential_fingerprint, (current,), other),
        call_ensures(ensure_same_credentials, (&fingerprint, current), r),
    ensures
        r is Ok <==> fingerprint@ == other@,
        before.access_token@ == current.access_token@ && opt_view(before.account_id) == opt_view(
            current.account_id,
        ) && opt_view(before.email) == opt_view(current.email) ==> r is Ok,
{
}

/// A query reads its credentials only while it holds both locks.
pub proof fn law_queries_hold_both_locks(
    query_locked: bool,
    file_locked: bool,
    auth: &Option<Value>,
    read: Result<OfficialProfileQuotaCredentials, CodexxError>,
    r: Result<OfficialProfileQuotaCredentials, CodexxError>,
)
    requires
        call_ensures(read_query_credentials, (query_locked, file_locked, auth), r),
        call_ensures(official_profile_quota_credentials, (auth,), read),
    ensures
        !query_locked || !file_locked ==> r is Err,
        query_locked && file_locked ==> (r is Ok <==> read is Ok),
        r is Ok ==> r->Ok_0.access_token@ == read->Ok_0.access_token@ && opt_view(
            r->Ok_0.account_id,
        ) == opt_view(read->Ok_0.account_id) && opt_view(r->Ok_0.email) == opt_view(
            read->Ok_0.email,
        ),
{
}

/// What remains of an optional text is what it says without the white space around it, if anything.
pub proof fn law_blank_texts_are_none(
    value: &Option<String>,
    given: &str,
    text: String,
    r: Option<String>,
)
    requires
        call_ensures(nonempty, (value,), r),
        *value is Some ==> given@ == value->0@,
        call_ensures(crate::text::trim, (given,), text),
    ensures
        r is Some <==> *value is Some && text@.len() > 0,
        r is Some ==> r->0@ == text@,
{
}

/// A login of plain characters makes headers, with its account or without.
pub proof fn law_plain_logins_make_headers(
    credentials: &OfficialProfileQuotaCredentials,
    other: &OfficialProfileQuotaCredentials,
    without: Result<QuotaHeaders, CodexxError>,
    r: Result<QuotaHeaders, CodexxError>,
)
    requires
        call_ensures(quota_headers, (credentials,), r),
        call_ensures(quota_headers, (other,), without),
        other.access_token@ == credentials.access_token@,
        other.account_id is None,
        without is Ok,
        credentials.account_id is Some,
        forall|i: int|
            0 <= i < credentials.account_id->0@.len() ==> (33 <= (
            #[trigger] credentials.account_id->0@[i]) as u32 <= 126),
    ensures
        r is Ok,
{
    let account = credentials.account_id->0@;
    let shown = trimmed(account);
    let (from, to) = lemma_trimmed_part(account);
    assert forall|i: int| 0 <= i < shown.len() implies (#[trigger] shown[i]) as u32 >= 32
        && shown[i] as u32 != 127 by {
        assert(shown[i] == account[from + i]);
    }
}

} // verus!
