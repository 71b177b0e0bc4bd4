//! What tells endpoints and providers apart, and what does not.
use crate::digest::sha256;
use crate::providers::store::{
    canonical_from_parts, canonical_host, canonical_provider_base_url, canonical_text,
    canonical_url, canonical_user, compatible, compatible_provider_match, credential_bytes,
    custom_provider_id, effective_key, effective_provider_api_key, id_char, ids_where,
    is_historical_custom_provider_id, is_placeholder_provider, matching_ids,
    matching_saved_provider_ids, matching_saved_provider_ids_for_live, normalized_name,
    normalized_provider_name, profile_identity, provider_identity, provider_profile_identity,
    provider_views, reserved_codex_provider_id, routed, same_fallback, same_live_provider_route,
    same_provider_endpoint, same_provider_endpoint_and_name, same_provider_profile_fallback,
    same_route, sanitize_id, texts_where, unique_saved_provider_id_for_live, without_leading,
    ProviderIdentity, ProviderProfileIdentity, ProviderView, SavedProvider,
};
use crate::text::{
    ascii_lower, blank, decimal, kept, lemma_decimal_injective, lowered, opt_view, text_views,
    trimmed, utf8, without_trailing,
};
use crate::text_laws::lemma_without_trailing;
use crate::toml::{parsed_toml, section_entry, text_entry};
use crate::web::{request_url_parts, UrlParts, UrlView};
use vstd::prelude::*;
use vstd::utf8::encode_utf8_decode_utf8;

verus! {

proof fn lemma_middles_show(head: Seq<char>, a: Seq<char>, b: Seq<char>, tail: Seq<char>)
    requires
        a != b,
    ensures
        head + a + tail != head + b + tail,
{
    let left = head + a + tail;
    let right = head + b + tail;
    if left == right {
        assert(left.len() == head.len() + a.len() + tail.len());
        assert(right.len() == head.len() + b.len() + tail.len());
        assert forall|i: int| 0 <= i < a.len() implies a[i] == b[i] by {
            assert(left[head.len() + i] == a[i]);
            assert(right[head.len() + i] == b[i]);
        }
        assert(a =~= b);
    }
}

/// How a port is written in a canonical URL.
spec fn port_text(url: UrlView) -> Seq<char> {
    match url.port {
        Some(port) => seq![':'] + decimal(port as nat),
        None => seq![],
    }
}

spec fn query_text(url: UrlView) -> Seq<char> {
    match url.query {
        Some(query) => seq!['?'] + query,
        None => seq![],
    }
}

/// Two URLs that differ in their ports alone have different canonical forms.
pub proof fn law_ports_tell_endpoints_apart(
    text: &str,
    other: &str,
    left: UrlParts,
    right: UrlParts,
    l: String,
    r: String,
)
    requires
        call_ensures(canonical_from_parts, (text, &Some(left)), l),
        call_ensures(canonical_from_parts, (other, &Some(right)), r),
        left@ == (UrlView { port: left.port, ..right@ }),
        left.port != right.port,
    ensures
        l@ != r@,
{
    let a = left@;
    let b = right@;
    if a.port is Some && b.port is Some {
        if port_text(a) == port_text(b) {
            assert(port_text(a).skip(1) =~= decimal(a.port->0 as nat));
            assert(port_text(b).skip(1) =~= decimal(b.port->0 as nat));
            lemma_decimal_injective(a.port->0 as nat, b.port->0 as nat);
        }
    } else if a.port is Some {
        assert(port_text(a)[0] == ':');
        assert(port_text(a).len() > port_text(b).len());
    } else {
        assert(port_text(b)[0] == ':');
        assert(port_text(b).len() > port_text(a).len());
    }
    let head = lowered(a.scheme) + "://"@ + canonical_user(a) + canonical_host(a.host);
    let tail = without_trailing(a.path, '/') + query_text(a);
    lemma_middles_show(head, port_text(a), port_text(b), tail);
    assert(canonical_text(a) =~= head + port_text(a) + tail);
    assert(canonical_text(b) =~= head + port_text(b) + tail);
}

/// Two URLs that differ in nothing but their hosts, beyond the case of letters, have different
/// canonical forms.
pub proof fn law_hosts_tell_endpoints_apart(
    text: &str,
    other: &str,
    left: UrlParts,
    right: UrlParts,
    l: String,
    r: String,
)
    requires
        call_ensures(canonical_from_parts, (text, &Some(left)), l),
        call_ensures(canonical_from_parts, (other, &Some(right)), r),
        left@ == (UrlView { host: left.host@, ..right@ }),
        !left.host@.contains(':'),
        !right.host@.contains(':'),
        lowered(left.host@) != lowered(right.host@),
    ensures
        l@ != r@,
{
    let a = left@;
    let b = right@;
    let head = lowered(a.scheme) + "://"@ + canonical_user(a);
    let tail = port_text(a) + without_trailing(a.path, '/') + query_text(a);
    lemma_middles_show(head, canonical_host(a.host), canonical_host(b.host), tail);
    assert(canonical_text(a) =~= head + canonical_host(a.host) + tail);
    assert(canonical_text(b) =~= head + canonical_host(b.host) + tail);
}

/// Two URLs that differ in nothing but their schemes, beyond the case of letters, have different
/// canonical forms.
pub proof fn law_schemes_tell_endpoints_apart(
    text: &str,
    other: &str,
    left: UrlParts,
    right: UrlParts,
    l: String,
    r: String,
)
    requires
        call_ensures(canonical_from_parts, (text, &Some(left)), l),
        call_ensures(canonical_from_parts, (other, &Some(right)), r),
        left@ == (UrlView { scheme: left.scheme@, ..right@ }),
        lowered(left.scheme@) != lowered(right.scheme@),
    ensures
        l@ != r@,
{
    let a = left@;
    let b = right@;
    let tail = "://"@ + canonical_user(a) + canonical_host(a.host) + port_text(a) + without_trailing(
        a.path,
        '/',
    ) + query_text(a);
    lemma_middles_show(seq![], lowered(a.scheme), lowered(b.scheme), tail);
    assert(canonical_text(a) =~= seq![] + lowered(a.scheme) + tail);
    assert(canonical_text(b) =~= seq![] + lowered(b.scheme) + tail);
}

/// Two URLs that differ in nothing but their paths, beyond slashes at the end, have different
/// canonical forms.
pub proof fn law_paths_tell_endpoints_apart(
    text: &str,
    other: &str,
    left: UrlParts,
    right: UrlParts,
    l: String,
    r: String,
)
    requires
        call_ensures(canonical_from_parts, (text, &Some(left)), l),
        call_ensures(canonical_from_parts, (other, &Some(right)), r),
        left@ == (UrlView { path: left.path@, ..right@ }),
        without_trailing(left.path@, '/') != without_trailing(right.path@, '/'),
    ensures
        l@ != r@,
{
    let a = left@;
    let b = right@;
    let head = lowered(a.scheme) + "://"@ + canonical_user(a) + canonical_host(a.host) + port_text(a);
    lemma_middles_show(
        head,
        without_trailing(a.path, '/'),
        without_trailing(b.path, '/'),
        query_text(a),
    );
    assert(canonical_text(a) =~= head + without_trailing(a.path, '/') + query_text(a));
    assert(canonical_text(b) =~= head + without_trailing(b.path, '/') + query_text(b));
}

/// Two URLs that differ in nothing but their queries have different canonical forms.
pub proof fn law_queries_tell_endpoints_apart(
    text: &str,
    other: &str,
    left: UrlParts,
    right: UrlParts,
    l: String,
    r: String,
)
    requires
        call_ensures(canonical_from_parts, (text, &Some(left)), l),
        call_ensures(canonical_from_parts, (other, &Some(right)), r),
        left@ == (UrlView { query: left@.query, ..right@ }),
        left@.query != right@.query,
    ensures
        l@ != r@,
{
    let a = left@;
    let b = right@;
    if a.query is Some && b.query is Some && query_text(a) == query_text(b) {
        assert(query_text(a).skip(1) =~= a.query->0);
        assert(query_text(b).skip(1) =~= b.query->0);
    } else if a.query is Some && b.query is None {
        assert(query_text(a).len() > query_text(b).len());
    } else if b.query is Some && a.query is None {
        assert(query_text(b).len() > query_text(a).len());
    }
    let head = lowered(a.scheme) + "://"@ + canonical_user(a) + canonical_host(a.host) + port_text(a)
        + without_trailing(a.path, '/');
    lemma_middles_show(head, query_text(a), query_text(b), seq![]);
    assert(canonical_text(a) =~= head + query_text(a) + seq![]);
    assert(canonical_text(b) =~= head + query_text(b) + seq![]);
}

/// Two URLs with a user that differ in nothing but the user's name, or nothing but the password,
/// have different canonical forms.
pub proof fn law_users_tell_endpoints_apart(
    text: &str,
    other: &str,
    left: UrlParts,
    right: UrlParts,
    l: String,
    r: String,
)
    requires
        call_ensures(canonical_from_parts, (text, &Some(left)), l),
        call_ensures(canonical_from_parts, (other, &Some(right)), r),
        left.username@.len() > 0,
        right.username@.len() > 0,
        left@ == (UrlView { username: left.username@, ..right@ }) && left.username@
            != right.username@ || left@ == (UrlView { password: left@.password, ..right@ })
            && left@.password != right@.password,
    ensures
        l@ != r@,
{
    let a = left@;
    let b = right@;
    let empty: Seq<char> = seq![];
    if a.username != b.username {
        let tail = match a.password {
            Some(password) => seq![':'] + password + seq!['@'],
            None => seq!['@'],
        };
        lemma_middles_show(seq![], a.username, b.username, tail);
        assert(canonical_user(a) =~= empty + a.username + tail);
        assert(canonical_user(b) =~= empty + b.username + tail);
    } else if a.password is Some && b.password is Some {
        lemma_middles_show(a.username + seq![':'], a.password->0, b.password->0, seq!['@']);
    } else if a.password is Some {
        assert(canonical_user(a).len() > canonical_user(b).len());
    } else {
        assert(canonical_user(b).len() > canonical_user(a).len());
    }
    assert(canonical_user(a) != canonical_user(b));
    let head = lowered(a.scheme) + "://"@;
    let tail = canonical_host(a.host) + port_text(a) + without_trailing(a.path, '/') + query_text(a);
    lemma_middles_show(head, canonical_user(a), canonical_user(b), tail);
    assert(canonical_text(a) =~= head + canonical_user(a) + tail);
    assert(canonical_text(b) =~= head + canonical_user(b) + tail);
}

/// The canonical form of a URL holds its port, after a colon and in decimal digits, wherever it has
/// one of its own; it begins with its scheme in lower case, and ends with its query.
pub proof fn law_canonical_forms_hold_every_part(text: &str, url: UrlParts, r: String)
    requires
        call_ensures(canonical_from_parts, (text, &Some(url)), r),
    ensures
        (lowered(url.scheme@) + "://"@).is_prefix_of(r@),
        url.port matches Some(port) ==> exists|at: int|
            0 <= at && at + 1 + decimal(port as nat).len() <= r@.len() && #[trigger] r@.subrange(
                at,
                at + 1 + decimal(port as nat).len(),
            ) == seq![':'] + decimal(port as nat),
        url@.query matches Some(query) ==> (seq!['?'] + query).is_suffix_of(r@),
        url.username@.len() == 0 && url.port is None && url@.query is None && !url.host@.contains(':')
            ==> r@ == lowered(url.scheme@) + "://"@ + lowered(url.host@) + without_trailing(
            url.path@,
            '/',
        ),
{
    let a = url@;
    let head = lowered(a.scheme) + "://"@ + canonical_user(a) + canonical_host(a.host);
    let tail = without_trailing(a.path, '/') + query_text(a);
    assert(r@ =~= head + port_text(a) + tail);
    if let Some(port) = a.port {
        let at = head.len() as int;
        assert(r@.subrange(at, at + 1 + decimal(port as nat).len()) =~= seq![':'] + decimal(
            port as nat,
        ));
    }
    if let Some(query) = a.query {
        let front = head + port_text(a) + without_trailing(a.path, '/');
        assert(r@ =~= front + query_text(a));
        assert(r@.skip(front.len() as int) =~= query_text(a));
        assert((seq!['?'] + query).is_suffix_of(r@)) by {
            assert(r@.subrange(r@.len() - query_text(a).len(), r@.len() as int) =~= query_text(a));
        }
    }
    if a.username.len() == 0 && a.port is None && a.query is None && !a.host.contains(':') {
        assert(r@ =~= lowered(a.scheme) + "://"@ + lowered(a.host) + without_trailing(a.path, '/'));
    }
}

/// The case of scheme and host, and slashes at the end of the path, make no difference.
pub proof fn law_case_and_slashes_make_no_difference(
    text: &str,
    other: &str,
    left: UrlParts,
    right: UrlParts,
    l: String,
    r: String,
)
    requires
        call_ensures(canonical_from_parts, (text, &Some(left)), l),
        call_ensures(canonical_from_parts, (other, &Some(right)), r),
        left@ == (UrlView {
            scheme: left.scheme@,
            host: left.host@,
            path: left.path@,
            ..right@
        }),
        lowered(left.scheme@) == lowered(right.scheme@),
        lowered(left.host@) == lowered(right.host@),
        without_trailing(left.path@, '/') == without_trailing(right.path@, '/'),
    ensures
        l@ == r@,
{
    let a = left.host@;
    let b = right.host@;
    assert(lowered(a).len() == a.len() && lowered(b).len() == b.len());
    assert forall|i: int| 0 <= i < a.len() implies (a[i] == ':' <==> b[i] == ':') && (a[i] == '['
        <==> b[i] == '[') by {
        assert(lowered(a)[i] == ascii_lower(a[i]));
        assert(lowered(b)[i] == ascii_lower(b[i]));
    }
    if a.contains(':') {
        let i = choose|i: int| 0 <= i < a.len() && a[i] == ':';
        assert(b[i] == ':');
    }
    if b.contains(':') {
        let i = choose|i: int| 0 <= i < b.len() && b[i] == ':';
        assert(a[i] == ':');
    }
}

/// The canonical form of an endpoint is that of the URL it reads as; what is no URL stays as it is
/// but for white space around it and slashes at its end, and a blank text has none.
pub proof fn law_endpoints_are_read_as_urls(input: &str, r: String)
    requires
        call_ensures(canonical_provider_base_url, (input,), r),
    ensures
        blank(input@) ==> r@.len() == 0,
        !blank(input@) && request_url_parts(trimmed(input@)) is None ==> r@ == without_trailing(
            trimmed(input@),
            '/',
        ),
        forall|url: UrlParts, text: &str, made: String|
            !blank(input@) && request_url_parts(trimmed(input@)) == Some(url@) && #[trigger]
                call_ensures(canonical_from_parts, (text, &Some(url)), made) ==> made@ == r@,
{
}

/// Two endpoints that read as the same URL but for the port are two endpoints: no provider at the one
/// is taken for a provider at the other.
pub proof fn law_providers_on_other_ports_are_others(
    left: &SavedProvider,
    right: &SavedProvider,
    url: UrlView,
    other: Option<u16>,
    same: bool,
    compatible: bool,
    route: bool,
)
    requires
        !blank(left.base_url@),
        !blank(right.base_url@),
        request_url_parts(trimmed(left.base_url@)) == Some(url),
        request_url_parts(trimmed(right.base_url@)) == Some(UrlView { port: other, ..url }),
        url.port != other,
        call_ensures(same_provider_endpoint, (left, right), same),
        call_ensures(compatible_provider_match, (left, right), compatible),
        call_ensures(same_live_provider_route, (left, right), route),
    ensures
        !same,
        !compatible,
        !route,
{
    lemma_other_ports(url, UrlView { port: other, ..url });
}

proof fn lemma_other_ports(a: UrlView, b: UrlView)
    requires
        a == (UrlView { port: a.port, ..b }),
        a.port != b.port,
    ensures
        canonical_text(a) != canonical_text(b),
{
    if a.port is Some && b.port is Some {
        if port_text(a) == port_text(b) {
            assert(port_text(a).skip(1) =~= decimal(a.port->0 as nat));
            assert(port_text(b).skip(1) =~= decimal(b.port->0 as nat));
            lemma_decimal_injective(a.port->0 as nat, b.port->0 as nat);
        }
    } else if a.port is Some {
        assert(port_text(a).len() > port_text(b).len());
    } else {
        assert(port_text(b).len() > port_text(a).len());
    }
    let head = lowered(a.scheme) + "://"@ + canonical_user(a) + canonical_host(a.host);
    let tail = without_trailing(a.path, '/') + query_text(a);
    lemma_middles_show(head, port_text(a), port_text(b), tail);
    assert(canonical_text(a) =~= head + port_text(a) + tail);
    assert(canonical_text(b) =~= head + port_text(b) + tail);
}

/// A provider is used with its own key, trimmed, wherever it has one; otherwise with the token of its
/// template: that of the provider that the template selects before the general one. Without a key and
/// without a template it has none.
pub proof fn law_own_keys_come_first(provider: &SavedProvider, r: Option<String>)
    requires
        call_ensures(effective_provider_api_key, (provider,), r),
    ensures
        provider.api_key matches Some(key) && !blank(key@) ==> opt_view(r) == Some(
            trimmed(provider.api_key->0@),
        ),
        (provider.api_key is None || blank(provider.api_key->0@)) && provider.toml_config is None
            ==> r is None,
        (provider.api_key is None || blank(provider.api_key->0@)) && (
        provider.toml_config matches Some(text) && parsed_toml(text@) is Err) ==> r is None,
        (provider.api_key is None || blank(provider.api_key->0@)) && (
        provider.toml_config matches Some(text) && parsed_toml(text@) is Ok) ==> {
            let entries = parsed_toml(provider.toml_config->0@)->Ok_0;
            let general = text_entry(entries, "experimental_bearer_token"@);
            let own = match (
                text_entry(entries, "model_provider"@),
                section_entry(entries, "model_providers"@),
            ) {
                (Some(id), Some(providers)) => match section_entry(providers, trimmed(id)) {
                    Some(section) => if blank(id) {
                        None
                    } else {
                        text_entry(section, "experimental_bearer_token"@)
                    },
                    None => None,
                },
                _ => None,
            };
            &&& own matches Some(token) ==> opt_view(r) == kept(token)
            &&& own is None && general is Some ==> opt_view(r) == kept(general->0)
            &&& own is None && general is None ==> r is None
        },
{
}

/// Two providers have the same endpoint exactly where their endpoints have the same canonical form,
/// and that is not empty; the same endpoint and name where their names agree too; and the same
/// profile where their models do.
pub proof fn law_comparisons_look_at_every_field(
    left: &SavedProvider,
    right: &SavedProvider,
    endpoint: bool,
    name: bool,
    model: bool,
)
    requires
        call_ensures(same_provider_endpoint, (left, right), endpoint),
        call_ensures(same_provider_endpoint_and_name, (left, right), name),
        call_ensures(same_provider_profile_fallback, (left, right), model),
    ensures
        endpoint <==> canonical_url(left.base_url@) == canonical_url(right.base_url@)
            && canonical_url(left.base_url@).len() > 0,
        name <==> endpoint && normalized_name(left.provider_name@) == normalized_name(
            right.provider_name@,
        ),
        model <==> name && trimmed(left.model@) == trimmed(right.model@),
{
}

/// Providers of one profile may be the same unless both have a key and the keys differ.
pub proof fn law_other_keys_make_other_providers(
    left: &SavedProvider,
    right: &SavedProvider,
    model: bool,
    l: Option<String>,
    r: Option<String>,
    found: bool,
)
    requires
        call_ensures(same_provider_profile_fallback, (left, right), model),
        call_ensures(effective_provider_api_key, (left,), l),
        call_ensures(effective_provider_api_key, (right,), r),
        call_ensures(compatible_provider_match, (left, right), found),
    ensures
        found <==> model && (l is None || r is None || l->0@ == r->0@),
{
}

/// A live provider uses the route of a saved one at the same endpoint with the same key; where one of
/// them has no key, with the same name. Another key or another endpoint is another route.
pub proof fn law_routes_go_by_endpoint_and_key(
    live: &SavedProvider,
    saved: &SavedProvider,
    endpoint: bool,
    l: Option<String>,
    r: Option<String>,
    found: bool,
)
    requires
        call_ensures(same_provider_endpoint, (live, saved), endpoint),
        call_ensures(effective_provider_api_key, (live,), l),
        call_ensures(effective_provider_api_key, (saved,), r),
        call_ensures(same_live_provider_route, (live, saved), found),
    ensures
        !endpoint ==> !found,
        endpoint && l is Some && r is Some ==> found == (l->0@ == r->0@),
        endpoint && (l is None || r is None) ==> found == (normalized_name(live.provider_name@)
            == normalized_name(saved.provider_name@)),
{
}

proof fn lemma_bytes_show(head: Seq<u8>, a: Seq<char>, b: Seq<char>, tail: Seq<u8>)
    requires
        head + utf8(a) + tail == head + utf8(b) + tail,
    ensures
        a == b,
{
    let left = head + utf8(a) + tail;
    let right = head + utf8(b) + tail;
    assert(left.len() == head.len() + utf8(a).len() + tail.len());
    assert(right.len() == head.len() + utf8(b).len() + tail.len());
    assert forall|i: int| 0 <= i < utf8(a).len() implies utf8(a)[i] == utf8(b)[i] by {
        assert(left[head.len() + i] == utf8(a)[i]);
        assert(right[head.len() + i] == utf8(b)[i]);
    }
    assert(utf8(a) =~= utf8(b));
    encode_utf8_decode_utf8(a);
    encode_utf8_decode_utf8(b);
}

/// A provider with a key is identified by a digest in which its endpoint and its key both are, the key
/// last; without a key by its endpoint and its name.
pub proof fn law_identities_follow_endpoint_and_key(
    provider: &SavedProvider,
    key: Option<String>,
    r: Option<ProviderIdentity>,
)
    requires
        call_ensures(effective_provider_api_key, (provider,), key),
        call_ensures(provider_identity, (provider,), r),
    ensures
        canonical_url(provider.base_url@).len() == 0 ==> r is None,
        canonical_url(provider.base_url@).len() > 0 && key is Some ==> (
        r matches Some(ProviderIdentity::Credential(digest)) && exists|mark: Seq<u8>|
            digest@ == #[trigger] sha256(
                mark + utf8(canonical_url(provider.base_url@)) + utf8("\0"@) + utf8(key->0@),
            )),
        canonical_url(provider.base_url@).len() > 0 && key is None && normalized_name(
            provider.provider_name@,
        ).len() > 0 ==> (r matches Some(
            ProviderIdentity::Unauthenticated { base_url, name },
        ) && base_url@ == canonical_url(provider.base_url@) && name@ == normalized_name(
            provider.provider_name@,
        )),
        canonical_url(provider.base_url@).len() > 0 && key is None && normalized_name(
            provider.provider_name@,
        ).len() == 0 ==> r is None,
{
    if canonical_url(provider.base_url@).len() > 0 && key is Some {
        let mark = utf8("codex-x/provider-identity/v1\0"@);
        assert(mark + utf8(canonical_url(provider.base_url@)) + utf8("\0"@) + utf8(key->0@)
            == credential_bytes(canonical_url(provider.base_url@), key->0@));
    }
}

/// What a digest is taken of tells keys at one endpoint apart, and endpoints with one key.
pub proof fn law_identities_tell_keys_apart(
    base_url: Seq<char>,
    other: Seq<char>,
    key: Seq<char>,
    other_key: Seq<char>,
)
    ensures
        key != other_key ==> credential_bytes(base_url, key) != credential_bytes(base_url, other_key),
        base_url != other ==> credential_bytes(base_url, key) != credential_bytes(other, key),
{
    let mark = utf8("codex-x/provider-identity/v1\0"@);
    let zero = utf8("\0"@);
    let empty: Seq<u8> = seq![];
    if credential_bytes(base_url, key) == credential_bytes(base_url, other_key) {
        let head = mark + utf8(base_url) + zero;
        assert(credential_bytes(base_url, key) =~= head + utf8(key) + empty);
        assert(credential_bytes(base_url, other_key) =~= head + utf8(other_key) + empty);
        lemma_bytes_show(head, key, other_key, empty);
    }
    if credential_bytes(base_url, key) == credential_bytes(other, key) {
        let tail = zero + utf8(key);
        assert(credential_bytes(base_url, key) =~= mark + utf8(base_url) + tail);
        assert(credential_bytes(other, key) =~= mark + utf8(other) + tail);
        lemma_bytes_show(mark, base_url, other, tail);
    }
}

/// A profile is identified by its provider and its trimmed model.
pub proof fn law_profiles_are_told_apart_by_model(
    provider: &SavedProvider,
    found: Option<ProviderIdentity>,
    r: Option<ProviderProfileIdentity>,
)
    requires
        call_ensures(provider_identity, (provider,), found),
        call_ensures(provider_profile_identity, (provider,), r),
    ensures
        r is Some <==> found is Some,
        r matches Some(profile) ==> profile.model@ == trimmed(provider.model@)
            && profile.provider@ == found->0@,
{
}

proof fn lemma_ids_come_from_providers(
    providers: Seq<ProviderView>,
    keep: spec_fn(ProviderView) -> bool,
    k: int,
) -> (i: int)
    requires
        0 <= k < ids_where(providers, keep).len(),
    ensures
        0 <= i < providers.len(),
        providers[i].id == ids_where(providers, keep)[k],
        keep(providers[i]),
    decreases providers.len(),
{
    let head = ids_where(providers.drop_last(), keep);
    if k < head.len() {
        lemma_ids_come_from_providers(providers.drop_last(), keep, k)
    } else {
        providers.len() - 1
    }
}

proof fn lemma_providers_show(
    providers: Seq<ProviderView>,
    keep: spec_fn(ProviderView) -> bool,
    i: int,
) -> (k: int)
    requires
        0 <= i < providers.len(),
        keep(providers[i]),
    ensures
        0 <= k < ids_where(providers, keep).len(),
        ids_where(providers, keep)[k] == providers[i].id,
    decreases providers.len(),
{
    if i < providers.len() - 1 {
        assert(providers.drop_last()[i] == providers[i]);
        lemma_providers_show(providers.drop_last(), keep, i)
    } else {
        ids_where(providers.drop_last(), keep).len() as int
    }
}

/// Every saved provider that a live one may be has the model of the live one. Where one agrees with
/// it in endpoint, name, model and key, some are found.
pub proof fn law_matches_have_the_live_model(
    live: &SavedProvider,
    providers: &[SavedProvider],
    r: Vec<String>,
    k: int,
    i: int,
    agrees: bool,
)
    requires
        call_ensures(matching_saved_provider_ids_for_live, (live, providers), r),
        0 <= i < providers@.len(),
        call_ensures(compatible_provider_match, (live, &providers@[i]), agrees),
    ensures
        0 <= k < r@.len() ==> exists|j: int|
            0 <= j < providers@.len() && (#[trigger] providers@[j]).id@ == r@[k]@ && trimmed(
                providers@[j].model@,
            ) == trimmed(live.model@),
        agrees ==> r@.len() > 0,
{
    let all = provider_views(providers@);
    let texts = text_views(r@);
    assert(texts.len() == r@.len());
    if 0 <= k < r@.len() {
        assert(texts[k] == r@[k]@);
        let exact = |candidate: ProviderView| profile_identity(candidate) == Some(
            profile_identity(live@)->0,
        );
        let near = |candidate: ProviderView| compatible(live@, candidate);
        let fallback = |candidate: ProviderView| same_fallback(live@, candidate);
        let j = if profile_identity(live@) is Some && texts == ids_where(all, exact) {
            lemma_ids_come_from_providers(all, exact, k)
        } else if texts == ids_where(all, near) {
            lemma_ids_come_from_providers(all, near, k)
        } else {
            lemma_ids_come_from_providers(all, fallback, k)
        };
        assert(all[j] == providers@[j]@);
    }
    if agrees {
        let near = |candidate: ProviderView| compatible(live@, candidate);
        assert(all[i] == providers@[i]@);
        let at = lemma_providers_show(all, near, i);
    }
}

proof fn lemma_texts_come_from_texts(
    texts: Seq<Seq<char>>,
    keep: spec_fn(Seq<char>) -> bool,
    k: int,
)
    requires
        0 <= k < texts_where(texts, keep).len(),
    ensures
        keep(texts_where(texts, keep)[k]),
    decreases texts.len(),
{
    let head = texts_where(texts.drop_last(), keep);
    if k < head.len() {
        lemma_texts_come_from_texts(texts.drop_last(), keep, k);
    }
}

/// Every saved provider that a live one is taken for has its endpoint and, where both have a key, its
/// key; and where any saved provider has them, one is found. The remembered one is found alone as long
/// as its route fits.
pub proof fn law_live_providers_are_found_by_their_route(
    selected: &Option<String>,
    live: &SavedProvider,
    providers: &[SavedProvider],
    r: Vec<String>,
    k: int,
    i: int,
    route: bool,
)
    requires
        call_ensures(matching_saved_provider_ids, (selected, live, providers), r),
        0 <= i < providers@.len(),
        call_ensures(same_live_provider_route, (live, &providers@[i]), route),
    ensures
        0 <= k < r@.len() ==> exists|j: int|
            0 <= j < providers@.len() && (#[trigger] providers@[j]).id@ == r@[k]@ && canonical_url(
                providers@[j].base_url@,
            ) == canonical_url(live.base_url@) && (effective_key(providers@[j]@) is Some
                && effective_key(live@) is Some ==> effective_key(providers@[j]@) == effective_key(
                live@,
            )),
        route ==> r@.len() > 0,
        route && (selected matches Some(id) && id@ == providers@[i].id@) ==> r@.len() == 1
            && r@[0]@ == providers@[i].id@,
{
    let all = provider_views(providers@);
    let texts = text_views(r@);
    assert(texts.len() == r@.len());
    assert(all[i] == providers@[i]@);
    let shares = |provider: ProviderView| same_route(live@, provider);
    if route {
        let at = lemma_providers_show(all, shares, i);
        assert(routed(live@, all, providers@[i].id@));
        if selected is Some && selected->0@ == providers@[i].id@ {
            assert(r@[0]@ == texts[0]);
        }
    }
    if 0 <= k < r@.len() {
        assert(texts[k] == r@[k]@);
        let fits = |id: Seq<char>| routed(live@, all, id);
        let fitting = texts_where(matching_ids(live@, all), fits);
        if texts == ids_where(all, shares) {
            let j = lemma_ids_come_from_providers(all, shares, k);
            assert(all[j] == providers@[j]@);
        } else {
            if texts == fitting {
                lemma_texts_come_from_texts(matching_ids(live@, all), fits, k);
            }
            assert(routed(live@, all, texts[k]));
            let j = choose|j: int|
                0 <= j < all.len() && (#[trigger] all[j]).id == texts[k] && same_route(live@, all[j]);
            assert(all[j] == providers@[j]@);
        }
    }
}

/// One saved provider is named exactly where one alone matches.
pub proof fn law_ambiguous_providers_are_left_alone(
    live: &SavedProvider,
    providers: &[SavedProvider],
    all: Vec<String>,
    one: Option<String>,
)
    requires
        call_ensures(matching_saved_provider_ids_for_live, (live, providers), all),
        call_ensures(unique_saved_provider_id_for_live, (live, providers), one),
    ensures
        one is Some <==> all@.len() == 1,
        one matches Some(id) ==> id@ == all@[0]@,
{
    assert(text_views(all@).len() == all@.len());
    if all@.len() == 1 {
        assert(text_views(all@)[0] == all@[0]@);
    }
}

/// A character that an identifier may hold.
pub open spec fn is_id_char(c: char) -> bool {
    97 <= c as u32 <= 122 || 48 <= c as u32 <= 57 || c == '-' || c == '_'
}

proof fn lemma_without_leading(s: Seq<char>, c: char) -> (from: int)
    ensures
        0 <= from <= s.len(),
        without_leading(s, c) == s.subrange(from, s.len() as int),
        forall|i: int| 0 <= i < from ==> #[trigger] s[i] == c,
        from < s.len() ==> s[from] != c,
    decreases s.len(),
{
    if s.len() > 0 && s[0] == c {
        let rest = s.subrange(1, s.len() as int);
        let from = lemma_without_leading(rest, c);
        assert(rest.subrange(from, rest.len() as int) =~= s.subrange(from + 1, s.len() as int));
        assert forall|i: int| 0 <= i < from + 1 implies #[trigger] s[i] == c by {
            if i > 0 {
                assert(rest[i - 1] == s[i]);
            }
        }
        from + 1
    } else {
        assert(s.subrange(0, s.len() as int) =~= s);
        0
    }
}

/// An identifier is made of small letters, digits, `-` and `_`, with no `-` at either end, and is
/// never empty; a text that is one already stays as it is.
pub proof fn law_identifiers_are_plain(input: &str, r: String)
    requires
        call_ensures(sanitize_id, (input,), r),
    ensures
        r@.len() > 0,
        r@[0] != '-',
        r@.last() != '-',
        forall|i: int| 0 <= i < r@.len() ==> is_id_char(#[trigger] r@[i]),
        input@.len() > 0 && input@[0] != '-' && input@.last() != '-' && (forall|i: int|
            0 <= i < input@.len() ==> is_id_char(#[trigger] input@[i])) ==> r@ == input@,
        r@.len() <= input@.len() || r@ == "provider"@,
{
    let mapped = Seq::new(input@.len(), |i: int| id_char(input@[i]));
    let from = lemma_without_leading(mapped, '-');
    let start = without_leading(mapped, '-');
    lemma_without_trailing(start, '-');
    let id = without_trailing(start, '-');
    reveal_strlit("provider");
    assert forall|i: int| 0 <= i < mapped.len() implies is_id_char(#[trigger] mapped[i]) by {}
    assert forall|i: int| 0 <= i < id.len() implies is_id_char(#[trigger] id[i]) by {
        assert(id[i] == start[i] && start[i] == mapped[from + i]);
    }
    if id.len() > 0 {
        assert(id[0] == start[0] && start[0] == mapped[from]);
    } else {
        assert forall|i: int| 0 <= i < "provider"@.len() implies is_id_char(
            #[trigger] "provider"@[i],
        ) by {}
    }
    if input@.len() > 0 && input@[0] != '-' && input@.last() != '-' && (forall|i: int|
        0 <= i < input@.len() ==> is_id_char(#[trigger] input@[i])) {
        assert forall|i: int| 0 <= i < input@.len() implies mapped[i] == input@[i] by {
            assert(is_id_char(input@[i]));
        }
        assert(mapped =~= input@);
        assert(from == 0);
        assert(start =~= input@);
        assert(start.last() != '-');
        assert(id =~= input@);
    }
}

/// The identifier of a new provider is the plain form of what it was given; one that Codex reserves
/// gets an ending, and no other does.
pub proof fn law_new_identifiers_stay_recognisable(
    input: &str,
    plain: String,
    text: &str,
    reserved: bool,
    r: String,
)
    requires
        call_ensures(sanitize_id, (input,), plain),
        text@ == plain@,
        call_ensures(reserved_codex_provider_id, (text,), reserved),
        call_ensures(custom_provider_id, (input,), r),
    ensures
        !reserved ==> r@ == plain@,
        reserved ==> r@ == plain@ + "-custom"@,
{
}

/// The identifiers that Codex gives a meaning of its own, however they are written.
pub proof fn law_reserved_identifiers(id: &str, r: bool)
    requires
        call_ensures(reserved_codex_provider_id, (id,), r),
    ensures
        r <==> lowered(trimmed(id@)) == "openai"@ || lowered(trimmed(id@)) == "custom"@ || lowered(
            trimmed(id@),
        ) == "amazon-bedrock"@ || lowered(trimmed(id@)) == "ollama"@ || lowered(trimmed(id@))
            == "lmstudio"@ || lowered(trimmed(id@)) == "oss"@,
{
}

/// A historical identifier is `custom`, or `custom-` and digits.
pub proof fn law_historical_identifiers(id: &str, r: bool)
    requires
        call_ensures(is_historical_custom_provider_id, (id,), r),
    ensures
        trimmed(id@) == "custom"@ ==> r,
        r && trimmed(id@) != "custom"@ ==> trimmed(id@).len() > 7 && trimmed(id@).take(7)
            == "custom-"@ && forall|i: int|
            7 <= i < trimmed(id@).len() ==> 48 <= (#[trigger] trimmed(id@)[i]) as u32 <= 57,
        trimmed(id@).len() > 7 && trimmed(id@).take(7) == "custom-"@ && (forall|i: int|
            7 <= i < trimmed(id@).len() ==> 48 <= (#[trigger] trimmed(id@)[i]) as u32 <= 57) ==> r,
{
    reveal_strlit("custom-");
    assert("custom-"@.len() == 7);
    let name = trimmed(id@);
    if r && name != "custom"@ {
        assert(name.take(7) =~= "custom-"@);
        assert forall|i: int| 7 <= i < name.len() implies 48 <= (#[trigger] name[i]) as u32
            <= 57 by {
            assert(crate::text::is_digit(name[i]));
        }
    }
    if name.len() > 7 && name.take(7) == "custom-"@ {
        assert("custom-"@.is_prefix_of(name)) by {
            assert(name.subrange(0, 7) =~= name.take(7));
        }
    }
}

/// The example is recognised by its name and its endpoint together, and nothing else is taken for it.
pub proof fn law_only_the_example_is_a_placeholder(name: &str, base_url: &str, n: String, u: String, r: bool)
    requires
        call_ensures(is_placeholder_provider, (name, base_url), r),
        call_ensures(normalized_provider_name, (name,), n),
        call_ensures(canonical_provider_base_url, (base_url,), u),
    ensures
        r <==> n@ == "your-provider"@ && u@ == "https://example.com/v1"@,
{
}

} // verus!
