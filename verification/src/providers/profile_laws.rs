//! What holds of official profiles: which one is selected, what is listed and shown of each, what a
//! save, a copy and a deletion change, and how a change is undone.
use crate::error::{error_text, CodexxError, ErrorView};
use crate::json::{json_pretty_text, json_value, opt_json};
use crate::providers::live_toml::LiveAuthAction;
use crate::providers::official_auth::document_is_official;
use crate::providers::official_display::{
    auth_display_metadata, parse_auth, quota_access_token, OfficialAuthDisplayMetadata,
};
use crate::providers::official_profiles::{
    active_profile_id, bounded_copy_name, copy_name, delete_official_profile_inner, detail,
    duplicate_official_profile_inner, has_named_profiles, has_record, list_official_profiles_inner,
    listed_profiles, named_profiles, normalize_name, owned_auth_source, owned_live_auth,
    owned_saved_auth, profile_auth_action, profile_candidate, profile_name, read_live_official,
    record_at, record_of, records_without, reset_default_official_profile_inner, reset_needs_config,
    save_locked, select_profile, selected_profile_id, store_profile, LiveOfficial, Mutation,
    OfficialProfileDetail, OfficialProfileInput, OfficialProfileSummary, ProfileCandidate,
    ProfileRecord, ProfileSave, ProfileSource, RecordView, StoreSnapshot, UndoStep,
};
use crate::text::{
    decimal_of, is_space, joined_by, lemma_trimmed_end, opt_bytes, opt_view, trim, trimmed_end,
};
use crate::toml::{document_entries, get_kept_text, table_entries};
use serde_json::Value;
use toml_edit::{DocumentMut, Table};
use vstd::prelude::*;

verus! {

proof fn lemma_first_record(store: &StoreSnapshot, id: Seq<char>, at: int)
    requires
        0 <= at < store.profiles@.len(),
        store.profiles@[at].id@ == id,
        forall|j: int| 0 <= j < at ==> (#[trigger] store.profiles@[j]).id@ != id,
    ensures
        record_of(store@.profiles, id) == Some(store.profiles@[at]@),
        has_record(store@.profiles, id),
        record_at(store@.profiles, id, at),
{
    let all = store@.profiles;
    assert(all[at].id == id);
    assert forall|j: int| 0 <= j < at implies (#[trigger] all[j]).id != id by {
        assert(store.profiles@[j].id@ != id);
    }
    assert(record_at(all, id, at));
    let found = choose|k: int| record_at(all, id, k);
    assert(record_at(all, id, found));
    if found < at {
        assert(all[found].id != id);
    } else if at < found {
        assert(all[at].id != id);
    }
}

proof fn lemma_no_record(store: &StoreSnapshot, id: Seq<char>)
    requires
        forall|j: int|
            0 <= j < store.profiles@.len() ==> (#[trigger] store.profiles@[j]).id@ != id,
    ensures
        record_of(store@.profiles, id) is None,
        !has_record(store@.profiles, id),
{
    let all = store@.profiles;
    assert forall|j: int| 0 <= j < all.len() implies (#[trigger] all[j]).id != id by {
        assert(store.profiles@[j].id@ != id);
    }
    assert forall|at: int| !record_at(all, id, at) by {
        if record_at(all, id, at) {
            assert(all[at].id == id);
        }
    }
}

/// Whether a store has a profile of this identifier besides the default one that is always there.
pub open spec fn holds(store: &StoreSnapshot, id: Seq<char>) -> bool {
    exists|i: int| 0 <= i < store.profiles@.len() && (#[trigger] store.profiles@[i]).id@ == id
}

proof fn lemma_holds(store: &StoreSnapshot, id: Seq<char>)
    ensures
        holds(store, id) == has_record(store@.profiles, id),
        holds(store, id) == (record_of(store@.profiles, id) is Some),
        holds(store, id) ==> exists|at: int|
            #![trigger store.profiles@[at]]
            record_at(store@.profiles, id, at) && record_of(store@.profiles, id) == Some(
                store.profiles@[at]@,
            ),
{
    if holds(store, id) {
        let i = choose|i: int|
            0 <= i < store.profiles@.len() && (#[trigger] store.profiles@[i]).id@ == id;
        let at = lemma_first(store, id, i);
        lemma_first_record(store, id, at);
    } else {
        lemma_no_record(store, id);
    }
}

proof fn lemma_first(store: &StoreSnapshot, id: Seq<char>, i: int) -> (at: int)
    requires
        0 <= i < store.profiles@.len(),
        store.profiles@[i].id@ == id,
    ensures
        0 <= at <= i,
        store.profiles@[at].id@ == id,
        forall|j: int| 0 <= j < at ==> (#[trigger] store.profiles@[j]).id@ != id,
    decreases i,
{
    if exists|j: int| 0 <= j < i && (#[trigger] store.profiles@[j]).id@ == id {
        let j = choose|j: int| 0 <= j < i && (#[trigger] store.profiles@[j]).id@ == id;
        lemma_first(store, id, j)
    } else {
        i
    }
}

/// The selected profile is the remembered one as long as it exists; otherwise, and where none is
/// remembered, it is the default one.
pub proof fn law_remembered_profiles_stay_selected(store: &StoreSnapshot, r: String)
    requires
        call_ensures(selected_profile_id, (store,), r),
    ensures
        r@ == "openai-official"@ || holds(store, r@),
        store.selection is None ==> r@ == "openai-official"@,
        store.selection is Some && holds(store, (store.selection->0).0@) ==> r@
            == (store.selection->0).0@,
        store.selection is Some && !holds(store, (store.selection->0).0@) ==> r@
            == "openai-official"@,
{
    lemma_holds(store, r@);
    if store.selection is Some {
        lemma_holds(store, (store.selection->0).0@);
    }
}

/// A profile is in use only under an official route, and then it is the selected one.
pub proof fn law_profiles_in_use_are_selected(
    store: &StoreSnapshot,
    is_official: bool,
    selected: String,
    r: Option<String>,
)
    requires
        call_ensures(selected_profile_id, (store,), selected),
        call_ensures(active_profile_id, (store, is_official), r),
    ensures
        r is Some <==> is_official,
        r is Some ==> r->0@ == selected@,
{
}

/// There are named profiles just if some record is not the default one's.
pub proof fn law_named_profiles_are_noticed(store: &StoreSnapshot, r: bool)
    requires
        call_ensures(has_named_profiles, (store,), r),
    ensures
        r <==> exists|i: int|
            0 <= i < store.profiles@.len() && (#[trigger] store.profiles@[i]).id@
                != "openai-official"@,
{
    let all = store@.profiles;
    if r {
        let i = choose|i: int|
            0 <= i < all.len() && (#[trigger] all[i]).id
                != crate::providers::official_profiles::default_id();
        assert(store.profiles@[i].id@ != "openai-official"@);
    } else {
        assert forall|i: int| 0 <= i < store.profiles@.len() implies (
        #[trigger] store.profiles@[i]).id@ == "openai-official"@ by {
            assert(all[i].id == "openai-official"@);
        }
    }
}

/// A profile has the name of its record. The default one has a name without a record as well; any
/// other has none, and asking for it fails with its identifier.
pub proof fn law_profiles_have_their_own_names(
    store: &StoreSnapshot,
    id: &str,
    at: int,
    r: Result<String, CodexxError>,
)
    requires
        call_ensures(profile_name, (store, id), r),
    ensures
        r is Ok <==> id@ == "openai-official"@ || holds(store, id@),
        r is Err ==> r->Err_0@ == ErrorView::Config("未找到官方配置: "@ + id@),
        r is Ok && !holds(store, id@) ==> r->Ok_0@ == "OpenAI Official"@,
        0 <= at < store.profiles@.len() && store.profiles@[at].id@ == id@ && (forall|j: int|
            0 <= j < at ==> (#[trigger] store.profiles@[j]).id@ != id@) ==> r is Ok && r->Ok_0@
            == store.profiles@[at].provider_name@,
{
    lemma_holds(store, id@);
    if 0 <= at < store.profiles@.len() && store.profiles@[at].id@ == id@ && (forall|j: int|
        0 <= j < at ==> (#[trigger] store.profiles@[j]).id@ != id@) {
        lemma_first_record(store, id@, at);
    }
}

/// A profile's name is what was entered without the white space around it, and has at least one
/// character and at most a hundred.
pub proof fn law_profile_names_have_a_length(
    name: &str,
    text: String,
    r: Result<String, CodexxError>,
)
    requires
        call_ensures(trim, (name,), text),
        call_ensures(normalize_name, (name,), r),
    ensures
        r is Ok <==> 1 <= text@.len() <= 100,
        r is Ok ==> r->Ok_0@ == text@,
        r is Err ==> r->Err_0@ == ErrorView::Config("官方配置名称必须为 1–100 个字符"@),
{
}

/// The name of a copy has at most a hundred characters. It ends with the copy's number, if it has
/// one, before which stands the mark of a copy that the name ended with; what stands before these
/// is the beginning of the name, whole where it fits.
pub proof fn law_copy_names_keep_mark_and_number(
    base: &str,
    ordinal: Option<u128>,
    text: String,
    number: String,
    stem: Seq<char>,
    mark: Seq<char>,
    r: String,
)
    requires
        call_ensures(bounded_copy_name, (base, ordinal), r),
        call_ensures(trim, (base,), text),
        ordinal is Some ==> call_ensures(decimal_of, (ordinal->0,), number),
        text@ == stem + mark,
        mark == " 副本"@ || mark == " Copy"@ || (mark.len() == 0 && !" 副本"@.is_suffix_of(text@)
            && !" Copy"@.is_suffix_of(text@)),
    ensures
        r@.len() <= 100,
        ({
            let ending = if ordinal is Some {
                mark + " "@ + number@
            } else {
                mark
            };
            let head = r@.take(r@.len() - ending.len());
            &&& r@ == head + ending
            &&& head.len() <= stem.len() && head == stem.take(head.len() as int)
            &&& head.len() > 0 ==> !is_space(head.last())
            &&& stem.len() + ending.len() <= 100 && stem.len() > 0 && !is_space(stem.last())
                ==> head == stem
            &&& ending.len() < 100 < stem.len() + ending.len() && !is_space(
                stem[100 - ending.len() - 1],
            ) ==> r@.len() == 100
        }),
{
    reveal_strlit(" 副本");
    reveal_strlit(" Copy");
    reveal_strlit(" ");
    let whole = text@;
    let cn = " 副本"@;
    let en = " Copy"@;
    let parts = crate::providers::official_profiles::copy_parts(whole);
    if mark == cn {
        assert(cn =~= whole.subrange(whole.len() - cn.len(), whole.len() as int));
        assert(whole.take(whole.len() - cn.len()) =~= stem);
    } else if mark == en {
        assert(en =~= whole.subrange(whole.len() - en.len(), whole.len() as int));
        assert(whole.take(whole.len() - en.len()) =~= stem);
        assert(whole.last() == 'y');
        if cn.is_suffix_of(whole) {
            assert(cn.last() == whole.last());
            assert(cn.last() == '本');
        }
    } else {
        assert(stem =~= whole);
        assert(mark =~= seq![]);
    }
    assert(parts == (stem, mark));
    let ending = if ordinal is Some {
        mark + " "@ + number@
    } else {
        mark
    };
    crate::providers::official_profiles::law_copy_names_fit(
        base@,
        match ordinal {
            Some(n) => Some(n as nat),
            None => None,
        },
    );
    let cut = crate::providers::official_profiles::at_most(stem, 100 - ending.len());
    lemma_trimmed_end(cut);
    let head = trimmed_end(cut);
    assert(r@ == head + ending);
    assert(r@.take(r@.len() - ending.len()) =~= head);
    assert(head =~= stem.take(head.len() as int));
}

/// How many of the first records are not the default one's.
pub open spec fn named_count(store: &StoreSnapshot, n: int) -> int
    decreases n,
{
    if n <= 0 {
        0
    } else if store.profiles@[n - 1].id@ == "openai-official"@ {
        named_count(store, n - 1)
    } else {
        named_count(store, n - 1) + 1
    }
}

proof fn lemma_named(store: &StoreSnapshot, n: int, i: int)
    requires
        0 <= n <= store.profiles@.len(),
    ensures
        named_count(store, n) >= 0,
        named_profiles(store@.profiles.take(n)).len() == named_count(store, n),
        0 <= i < n && store.profiles@[i].id@ != "openai-official"@ ==> 0 <= named_count(store, i)
            < named_count(store, n) && named_profiles(store@.profiles.take(n))[named_count(
            store,
            i,
        )] == (store.profiles@[i].id@, store.profiles@[i].provider_name@),
    decreases n,
{
    let all = store@.profiles;
    if n > 0 {
        lemma_named(store, n - 1, i);
        assert(all.take(n).drop_last() =~= all.take(n - 1));
        assert(all.take(n).last() == store.profiles@[n - 1]@);
    }
}

/// The default profile is listed first, with its own name or the usual one. Every other profile is
/// listed once, with its own name, in the order of the records; nothing else is listed.
pub proof fn law_every_profile_is_listed_once(
    store: &StoreSnapshot,
    name: Result<String, CodexxError>,
    i: int,
    r: Vec<(String, String)>,
)
    requires
        call_ensures(listed_profiles, (store,), r),
        call_ensures(profile_name, (store, "openai-official"), name),
    ensures
        r@.len() == 1 + named_count(store, store.profiles@.len() as int),
        r@[0].0@ == "openai-official"@,
        name is Ok && r@[0].1@ == name->Ok_0@,
        0 <= i < store.profiles@.len() && store.profiles@[i].id@ != "openai-official"@ ==> ({
            let at = 1 + named_count(store, i);
            &&& 1 <= at < r@.len()
            &&& r@[at].0@ == store.profiles@[i].id@
            &&& r@[at].1@ == store.profiles@[i].provider_name@
        }),
{
    let n = store.profiles@.len() as int;
    let all = store@.profiles;
    assert(all.take(n) =~= all);
    lemma_named(store, n, i);
    let pairs = crate::providers::official_profiles::pair_views(r@);
    assert(pairs.len() == r@.len());
    assert(pairs[0] == (r@[0].0@, r@[0].1@));
    if 0 <= i < n && store.profiles@[i].id@ != "openai-official"@ {
        let at = 1 + named_count(store, i);
        assert(pairs[at] == (r@[at].0@, r@[at].1@));
    }
}

/// What is shown of a profile of the list: its own identifier and name, whether it is the default
/// one, and whether it is in use. Of the profile in use the live files own the model and the
/// account; of every other one, and of all of them where the live route is not official, only what
/// is kept of it is shown. Without a credential no account is shown and no quota can be asked for.
pub proof fn law_profiles_show_only_what_is_theirs(
    store: &StoreSnapshot,
    live: &LiveOfficial,
    saved: &Vec<Option<ProfileCandidate>>,
    names: Vec<(String, String)>,
    selected: String,
    i: int,
    shown: OfficialAuthDisplayMetadata,
    token: Option<String>,
    auth: &Value,
    r: Vec<OfficialProfileSummary>,
)
    requires
        call_ensures(list_official_profiles_inner, (store, live, saved), r),
        call_ensures(listed_profiles, (store,), names),
        call_ensures(selected_profile_id, (store,), selected),
        call_ensures(auth_display_metadata, (auth,), shown),
        call_ensures(quota_access_token, (auth,), token),
        0 <= i < names@.len(),
    ensures
        r@.len() == names@.len(),
        r@[i].id@ == names@[i].0@,
        r@[i].provider_name@ == names@[i].1@,
        r@[i].is_default <==> names@[i].0@ == "openai-official"@,
        r@[i].is_current <==> live.is_official && names@[i].0@ == selected@,
        ({
            let kept = if i < saved@.len() {
                saved@[i]
            } else {
                None
            };
            let own = if r@[i].is_current {
                live.auth
            } else if kept is Some {
                kept->0.auth
            } else {
                None
            };
            &&& r@[i].is_current ==> opt_view(r@[i].model) == opt_view(live.model)
            &&& !r@[i].is_current && kept is Some ==> opt_view(r@[i].model) == opt_view(
                kept->0.model,
            )
            &&& !r@[i].is_current && kept is None ==> r@[i].model is None
            &&& r@[i].has_owned_auth <==> own is Some
            &&& r@[i].has_auth <==> own is Some || (kept is Some && kept->0.auth is Some)
            &&& own is Some && own->0 == *auth ==> opt_view(r@[i].email) == opt_view(shown.email)
                && opt_view(r@[i].plan_type) == opt_view(shown.plan_type) && (r@[i].can_query_quota
                <==> token is Some)
            &&& own is None ==> r@[i].email is None && r@[i].plan_type is None
                && !r@[i].can_query_quota
        }),
{
    let pairs = crate::providers::official_profiles::pair_views(names@);
    assert(pairs.len() == names@.len());
    assert(pairs[i] == (names@[i].0@, names@[i].1@));
    assert(r@[i]@.id == r@[i].id@);
}

/// The model and the route are those of the live configuration; the live credential counts only
/// under an official route, and only if it can be read and accepted.
pub proof fn law_live_credentials_count_under_official_routes(
    doc: &DocumentMut,
    table: &Table,
    text: Option<&str>,
    official: bool,
    model: Option<String>,
    parsed: Result<Option<Value>, CodexxError>,
    r: LiveOfficial,
)
    requires
        call_ensures(read_live_official, (doc, text), r),
        call_ensures(document_is_official, (doc,), official),
        table_entries(*table) == document_entries(*doc),
        call_ensures(get_kept_text, (table, "model"), model),
        text is Some ==> call_ensures(parse_auth, (text->0,), parsed),
    ensures
        r.is_official == official,
        opt_view(r.model) == opt_view(model),
        !official || text is None ==> r.auth is None,
        official && text is Some && parsed is Err ==> r.auth is None,
        official && text is Some && parsed is Ok ==> opt_json(r.auth) == opt_json(parsed->Ok_0),
{
}

/// A profile is read from the live files just if it is the selected one, and from what is kept of
/// it otherwise. Its credential is read from the live files only under an official route; where the
/// route of the selected profile cannot be told, nothing is read. A profile without a name is
/// refused.
pub proof fn law_only_the_selected_profile_owns_the_live_files(
    store: &StoreSnapshot,
    id: &str,
    official: Option<bool>,
    selected: String,
    name: Result<String, CodexxError>,
    config: Result<ProfileSource, CodexxError>,
    auth: Result<ProfileSource, CodexxError>,
)
    requires
        call_ensures(selected_profile_id, (store,), selected),
        call_ensures(profile_name, (store, id), name),
        call_ensures(profile_candidate, (store, id), config),
        call_ensures(owned_auth_source, (store, id, official), auth),
    ensures
        name is Err ==> config is Err && config->Err_0@ == name->Err_0@,
        name is Err ==> auth is Err && auth->Err_0@ == name->Err_0@,
        name is Ok ==> config is Ok && (config->Ok_0 == ProfileSource::Live <==> selected@ == id@),
        name is Ok && selected@ != id@ ==> auth is Ok && auth->Ok_0 == ProfileSource::Snapshot,
        name is Ok && selected@ == id@ && official is Some ==> auth is Ok && (auth->Ok_0
            == ProfileSource::Live <==> official->0),
        name is Ok && selected@ == id@ && official is None ==> auth is Err,
{
}

/// The live credential of the profile in use is what its file holds; nothing takes the place of one
/// that is absent, unreadable or not acceptable.
pub proof fn law_nothing_replaces_a_live_credential(
    text: Option<&str>,
    parsed: Result<Option<Value>, CodexxError>,
    r: Result<Option<Value>, CodexxError>,
)
    requires
        call_ensures(owned_live_auth, (text,), r),
        text is Some ==> call_ensures(parse_auth, (text->0,), parsed),
    ensures
        r is Ok <==> text is Some && parsed is Ok,
        r is Ok ==> opt_json(r->Ok_0) == opt_json(parsed->Ok_0),
{
}

/// The credential that is kept of a profile is that of what was read of it; where reading failed
/// there is none, but an error.
pub proof fn law_kept_credentials_come_from_what_was_read(
    read: Result<Option<ProfileCandidate>, CodexxError>,
    r: Result<Option<Value>, CodexxError>,
)
    requires
        call_ensures(owned_saved_auth, (read,), r),
    ensures
        r is Ok <==> read is Ok,
        r is Ok && read->Ok_0 is None ==> r->Ok_0 is None,
        r is Ok && read->Ok_0 is Some ==> opt_json(r->Ok_0) == opt_json(read->Ok_0->0.auth),
{
}

/// A profile with its configuration and credential: its own name and identifier, the model,
/// configuration and credential that are kept of it, and the account that is its own. A named
/// profile of which nothing is kept is refused; the default one is then built.
pub proof fn law_details_are_the_profiles_own(
    store: &StoreSnapshot,
    id: &str,
    candidate: &Option<ProfileCandidate>,
    built: &str,
    owned: &Option<Value>,
    official: bool,
    name: Result<String, CodexxError>,
    selected: String,
    shown: OfficialAuthDisplayMetadata,
    token: Option<String>,
    auth: &Value,
    kept: &Value,
    r: Result<OfficialProfileDetail, CodexxError>,
)
    requires
        call_ensures(detail, (store, id, candidate, built, owned, official), r),
        call_ensures(profile_name, (store, id), name),
        call_ensures(selected_profile_id, (store,), selected),
        call_ensures(auth_display_metadata, (auth,), shown),
        call_ensures(quota_access_token, (auth,), token),
    ensures
        name is Err ==> r is Err && r->Err_0@ == name->Err_0@,
        *candidate is None && id@ != "openai-official"@ ==> r is Err,
        name is Ok && *candidate is None && id@ == "openai-official"@ ==> r is Ok && (
        r->Ok_0.config_text@ == built@ && r->Ok_0.auth_json@.len() == 0
            && r->Ok_0.profile.model is None && !r->Ok_0.profile.has_auth),
        name is Ok && *candidate is Some && candidate->0.auth is None ==> r is Ok
            && r->Ok_0.auth_json@.len() == 0,
        name is Ok && *candidate is Some && candidate->0.auth is Some && candidate->0.auth->0
            == *kept ==> (r is Ok <==> json_pretty_text(json_value(*kept)) is Ok) && (r is Ok
            ==> r->Ok_0.auth_json@ == json_pretty_text(json_value(*kept))->Ok_0),
        r is Ok && *candidate is Some ==> opt_view(r->Ok_0.profile.model) == opt_view(
            candidate->0.model,
        ) && r->Ok_0.source@ == candidate->0.source@ && (candidate->0.config_text is Some
            ==> r->Ok_0.config_text@ == candidate->0.config_text->0@) && (
        candidate->0.config_text is None ==> r->Ok_0.config_text@ == built@),
        r is Ok ==> r->Ok_0.profile.id@ == id@ && r->Ok_0.profile.provider_name@ == name->Ok_0@ && (
        r->Ok_0.profile.is_default <==> id@ == "openai-official"@) && (r->Ok_0.profile.is_current
            <==> official && selected@ == id@) && (r->Ok_0.profile.has_owned_auth <==> *owned is Some)
            && (r->Ok_0.profile.has_auth <==> r->Ok_0.auth_json@.len() > 0),
        r is Ok && *owned is Some && owned->0 == *auth ==> opt_view(r->Ok_0.profile.email)
            == opt_view(shown.email) && opt_view(r->Ok_0.profile.plan_type) == opt_view(
            shown.plan_type,
        ) && (r->Ok_0.profile.can_query_quota <==> token is Some),
        r is Ok && *owned is None ==> r->Ok_0.profile.email is None
            && r->Ok_0.profile.plan_type is None && !r->Ok_0.profile.can_query_quota,
{
    if r is Ok {
        assert(r->Ok_0.profile@.id == r->Ok_0.profile.id@);
    }
}

/// A save keeps what was entered: the name as it is accepted, the configuration unless it is blank,
/// the credential even where it is empty. What was not entered stays as it was. The live files are
/// written where the profile is in use or is to be.
pub proof fn law_saves_keep_what_was_entered(
    input: &OfficialProfileInput,
    existing: &Option<OfficialProfileDetail>,
    activate: bool,
    given_name: &str,
    given_config: &str,
    name: Result<String, CodexxError>,
    text: String,
    r: Result<ProfileSave, CodexxError>,
)
    requires
        call_ensures(save_locked, (input, existing, activate), r),
        given_name@ == input.provider_name@,
        call_ensures(normalize_name, (given_name,), name),
        input.config_text is Some ==> given_config@ == input.config_text->0@,
        call_ensures(trim, (given_config,), text),
    ensures
        name is Err ==> r is Err && r->Err_0@ == name->Err_0@,
        name is Ok ==> r is Ok && r->Ok_0.name@ == name->Ok_0@,
        name is Ok ==> r->Ok_0.message@ == "已保存官方配置 "@ + name->Ok_0@,
        name is Ok && input.config_text is Some && text@.len() > 0 ==> opt_view(
            r->Ok_0.config_text,
        ) == opt_view(input.config_text),
        name is Ok && (input.config_text is None || text@.len() == 0) && *existing is Some
            ==> r->Ok_0.config_text is Some && r->Ok_0.config_text->0@ == existing->0.config_text@,
        name is Ok && (input.config_text is None || text@.len() == 0) && *existing is None
            ==> r->Ok_0.config_text is None,
        name is Ok && input.auth_json is Some ==> r->Ok_0.auth_text@ == input.auth_json->0@,
        name is Ok && input.auth_json is None && *existing is Some ==> r->Ok_0.auth_text@
            == existing->0.auth_json@,
        name is Ok && input.auth_json is None && *existing is None ==> r->Ok_0.auth_text@.len()
            == 0,
        name is Ok ==> (r->Ok_0.writes_live <==> activate || (*existing is Some
            && existing->0.profile.is_current)),
{
}

/// A profile that takes the live files over puts its own credential there, and removes the one that
/// is there where it has none.
pub proof fn law_profiles_bring_their_own_credential(auth: &Option<Value>, r: LiveAuthAction)
    requires
        call_ensures(profile_auth_action, (auth,), r),
    ensures
        *auth is Some ==> r is Replace && json_value(r->Replace_0)
            == json_value(auth->0),
        *auth is None ==> r is Remove,
{
}

/// A new default profile keeps the default identifier and name, has the model that was entered, the
/// configuration that was entered unless it is blank, and an empty credential.
pub proof fn law_new_default_profiles_are_logged_out(
    store: &StoreSnapshot,
    model: &Option<String>,
    config: &Option<String>,
    built: &str,
    given_config: &str,
    needs: bool,
    name: Result<String, CodexxError>,
    text: String,
    r: (OfficialProfileInput, String),
)
    requires
        call_ensures(reset_default_official_profile_inner, (store, model, config, built), r),
        call_ensures(reset_needs_config, (config,), needs),
        call_ensures(profile_name, (store, "openai-official"), name),
        *config is Some ==> given_config@ == config->0@,
        call_ensures(trim, (given_config,), text),
    ensures
        needs <==> *config is None || text@.len() == 0,
        r.0.id is Some && r.0.id->0@ == "openai-official"@,
        name is Ok && r.0.provider_name@ == name->Ok_0@,
        opt_view(r.0.model) == opt_view(*model),
        r.0.auth_json is Some && r.0.auth_json->0@.len() == 0,
        r.0.config_text is Some,
        needs ==> r.0.config_text->0@ == built@,
        !needs ==> r.0.config_text->0@ == config->0@,
{
}

/// Storing a profile that is there renames it and notes when, and changes nothing else of it. A new
/// one is added with its name and time. Every other record stays as it is, and so does the
/// selection.
pub proof fn law_storing_touches_one_profile(
    store: &mut StoreSnapshot,
    id: &str,
    name: &str,
    now: &str,
    at: int,
    i: int,
)
    requires
        call_ensures(store_profile, (store, id, name, now), ()),
    ensures
        final(store)@.selection == old(store)@.selection,
        holds(final(store), id@),
        0 <= at < old(store).profiles@.len() && old(store).profiles@[at].id@ == id@ && (forall|
            j: int,
        |
            0 <= j < at ==> (#[trigger] old(store).profiles@[j]).id@ != id@) ==> ({
            let after = final(store).profiles@;
            let before = old(store).profiles@;
            &&& after.len() == before.len()
            &&& after[at].id@ == id@
            &&& after[at].provider_name@ == name@
            &&& after[at].created_at@ == before[at].created_at@
            &&& after[at].updated_at@ == now@
            &&& 0 <= i < before.len() && i != at ==> after[i]@ == before[i]@
        }),
        !holds(old(store), id@) ==> final(store).profiles@.len() == old(store).profiles@.len() + 1
            && exists|k: int|
            {
                let added = #[trigger] final(store).profiles@[k];
                &&& 0 <= k < final(store).profiles@.len()
                &&& added.id@ == id@
                &&& added.provider_name@ == name@
                &&& added.created_at@ == now@
                &&& added.updated_at@ == now@
                &&& final(store)@.profiles.remove(k) == old(store)@.profiles
            },
{
    let before = old(store)@.profiles;
    let after = final(store)@.profiles;
    assert(after == crate::providers::official_profiles::stored(before, id@, name@, now@));
    assert(after.len() == final(store).profiles@.len());
    assert(before.len() == old(store).profiles@.len());
    lemma_holds(old(store), id@);
    if 0 <= at < old(store).profiles@.len() && old(store).profiles@[at].id@ == id@ && (forall|
        j: int,
    |
        0 <= j < at ==> (#[trigger] old(store).profiles@[j]).id@ != id@) {
        lemma_first_record(old(store), id@, at);
        let found = choose|k: int| record_at(before, id@, k);
        assert(record_at(before, id@, found));
        if found < at {
            assert(before[found].id != id@);
        } else if at < found {
            assert(before[at].id != id@);
        }
        assert(after[at] == final(store).profiles@[at]@);
        assert(before[at] == old(store).profiles@[at]@);
        if 0 <= i < before.len() && i != at {
            assert(after[i] == final(store).profiles@[i]@);
            assert(before[i] == old(store).profiles@[i]@);
        }
    }
    if holds(old(store), id@) {
        let k = choose|k: int| record_at(before, id@, k);
        assert(record_at(before, id@, k));
        assert(after[k] == final(store).profiles@[k]@);
    } else {
        assert forall|k: int| !record_at(before, id@, k) by {
            if record_at(before, id@, k) {
                assert(before[k].id == id@);
            }
        }
        let record = RecordView {
            id: id@,
            provider_name: name@,
            created_at: now@,
            updated_at: now@,
        };
        let k = lemma_filed_somewhere(before, record);
        assert(after[k] == final(store).profiles@[k]@);
        assert(after.remove(k) =~= before);
    }
}

proof fn lemma_filed_somewhere(records: Seq<RecordView>, record: RecordView) -> (at: int)
    ensures
        0 <= at <= records.len(),
        crate::providers::official_profiles::filed(records, record) == records.insert(at, record),
    decreases records.len(),
{
    if records.len() > 0 && crate::providers::official_profiles::listed_before(
        record,
        records.last(),
    ) {
        let at = lemma_filed_somewhere(records.drop_last(), record);
        assert(records.drop_last().insert(at, record).push(records.last()) =~= records.insert(
            at,
            record,
        ));
        at
    } else {
        assert(records.push(record) =~= records.insert(records.len() as int, record));
        records.len() as int
    }
}

/// Selecting a profile notes it with the time, and touches no record.
pub proof fn law_selecting_touches_no_record(store: &mut StoreSnapshot, id: &str, now: &str)
    requires
        call_ensures(select_profile, (store, id, now), ()),
    ensures
        final(store)@.profiles == old(store)@.profiles,
        final(store).selection is Some,
        (final(store).selection->0).0@ == id@,
        (final(store).selection->0).1@ == now@,
{
}

proof fn lemma_rest(records: Seq<RecordView>, id: Seq<char>)
    ensures
        forall|i: int|
            0 <= i < records_without(records, id).len() ==> (#[trigger] records_without(
                records,
                id,
            )[i]).id != id && records.contains(records_without(records, id)[i]),
        forall|i: int|
            0 <= i < records.len() && (#[trigger] records[i]).id != id ==> records_without(
                records,
                id,
            ).contains(records[i]),
        (forall|i: int| 0 <= i < records.len() ==> (#[trigger] records[i]).id != id)
            ==> records_without(records, id) == records,
    decreases records.len(),
{
    if records.len() > 0 {
        let head = records.drop_last();
        let rest = records_without(head, id);
        let whole = records_without(records, id);
        lemma_rest(head, id);
        assert forall|i: int| 0 <= i < whole.len() implies (#[trigger] whole[i]).id != id
            && records.contains(whole[i]) by {
            if i < rest.len() {
                assert(whole[i] == rest[i]);
                let k = head.index_of(rest[i]);
                assert(records[k] == rest[i]);
            } else {
                assert(records[records.len() - 1] == whole[i]);
            }
        }
        assert forall|i: int| 0 <= i < records.len() && (#[trigger] records[i]).id != id implies
            whole.contains(records[i]) by {
            if i < head.len() {
                assert(head[i] == records[i]);
                let k = rest.index_of(records[i]);
                assert(whole[k] == records[i]);
            } else {
                assert(whole[whole.len() - 1] == records[i]);
            }
        }
        if forall|i: int| 0 <= i < records.len() ==> (#[trigger] records[i]).id != id {
            assert forall|i: int| 0 <= i < head.len() implies (#[trigger] head[i]).id != id by {
                assert(records[i].id != id);
            }
            assert(whole =~= records);
        }
    }
}

/// The default profile, an unknown one and the one in use are not deleted, and then nothing
/// changes. Otherwise no record of the profile is left and every other record is; where it was
/// selected, the default one is from then on, and otherwise the selection stays.
pub proof fn law_deletions_take_one_profile(
    store: &mut StoreSnapshot,
    id: &str,
    official: bool,
    now: &str,
    selected: String,
    i: int,
    r: Result<(), CodexxError>,
)
    requires
        call_ensures(delete_official_profile_inner, (store, id, official, now), r),
        call_ensures(selected_profile_id, (&*old(store),), selected),
    ensures
        r is Ok <==> id@ != "openai-official"@ && holds(old(store), id@) && !(official && selected@
            == id@),
        r is Err ==> final(store)@ == old(store)@,
        r is Ok ==> !holds(final(store), id@),
        r is Ok && 0 <= i < old(store).profiles@.len() && old(store).profiles@[i].id@ != id@
            ==> final(store)@.profiles.contains(old(store).profiles@[i]@),
        r is Ok && 0 <= i < final(store).profiles@.len() ==> old(store)@.profiles.contains(
            final(store).profiles@[i]@,
        ),
        r is Ok && selected@ == id@ ==> final(store).selection is Some && (
        final(store).selection->0).0@ == "openai-official"@ && (final(store).selection->0).1@
            == now@,
        r is Ok && selected@ != id@ ==> final(store)@.selection == old(store)@.selection,
{
    lemma_holds(old(store), id@);
    let before = old(store)@.profiles;
    lemma_rest(before, id@);
    if r is Ok {
        let after = final(store)@.profiles;
        if holds(final(store), id@) {
            let k = choose|k: int|
                0 <= k < final(store).profiles@.len() && (#[trigger] final(store).profiles@[k]).id@
                    == id@;
            assert(after[k] == final(store).profiles@[k]@);
            assert(after[k].id != id@);
        }
        if 0 <= i < old(store).profiles@.len() {
            assert(before[i] == old(store).profiles@[i]@);
        }
        if 0 <= i < final(store).profiles@.len() {
            assert(after[i] == final(store).profiles@[i]@);
        }
    }
}

proof fn lemma_without_one(records: Seq<RecordView>, id: Seq<char>, at: int)
    requires
        0 <= at < records.len(),
        records[at].id == id,
        forall|i: int| 0 <= i < records.len() && i != at ==> (#[trigger] records[i]).id != id,
    ensures
        records_without(records, id) == records.remove(at),
    decreases records.len(),
{
    let head = records.drop_last();
    if at == records.len() - 1 {
        assert forall|i: int| 0 <= i < head.len() implies (#[trigger] head[i]).id != id by {
            assert(records[i].id != id);
        }
        lemma_rest(head, id);
        assert(records.remove(at) =~= head);
    } else {
        assert forall|i: int| 0 <= i < head.len() && i != at implies (#[trigger] head[i]).id
            != id by {
            assert(records[i].id != id);
        }
        assert(records.last() == records[records.len() - 1]);
        lemma_without_one(head, id, at);
        assert(head.remove(at).push(records.last()) =~= records.remove(at));
    }
}

/// Where a profile has one record, deleting it takes that record out and leaves the others in their
/// places.
pub proof fn law_deletions_keep_the_order(
    store: &mut StoreSnapshot,
    id: &str,
    official: bool,
    now: &str,
    at: int,
    r: Result<(), CodexxError>,
)
    requires
        call_ensures(delete_official_profile_inner, (store, id, official, now), r),
        r is Ok,
        0 <= at < old(store).profiles@.len(),
        old(store).profiles@[at].id@ == id@,
        forall|i: int|
            0 <= i < old(store).profiles@.len() && i != at ==> (
            #[trigger] old(store).profiles@[i]).id@ != id@,
    ensures
        final(store)@.profiles == old(store)@.profiles.remove(at),
{
    let before = old(store)@.profiles;
    assert forall|i: int| 0 <= i < before.len() && i != at implies (#[trigger] before[i]).id
        != id@ by {
        assert(old(store).profiles@[i].id@ != id@);
    }
    lemma_without_one(before, id@, at);
}

/// A copy of a record, and of all records, is what it is a copy of.
pub proof fn law_record_copies_are_whole(record: &ProfileRecord, r: ProfileRecord)
    requires
        call_ensures(ProfileRecord::clone, (record,), r),
    ensures
        r.id@ == record.id@,
        r.provider_name@ == record.provider_name@,
        r.created_at@ == record.created_at@,
        r.updated_at@ == record.updated_at@,
{
    assert(r@.id == r.id@);
    assert(record@.id == record.id@);
}

/// A copy of the records has every record and the selection.
pub proof fn law_store_copies_are_whole(store: &StoreSnapshot, i: int, r: StoreSnapshot)
    requires
        call_ensures(StoreSnapshot::clone, (store,), r),
    ensures
        r.profiles@.len() == store.profiles@.len(),
        0 <= i < store.profiles@.len() ==> r.profiles@[i].id@ == store.profiles@[i].id@
            && r.profiles@[i].provider_name@ == store.profiles@[i].provider_name@
            && r.profiles@[i].created_at@ == store.profiles@[i].created_at@
            && r.profiles@[i].updated_at@ == store.profiles@[i].updated_at@,
        r.selection is Some <==> store.selection is Some,
        r.selection is Some ==> (r.selection->0).0@ == (store.selection->0).0@ && (
        r.selection->0).1@ == (store.selection->0).1@,
{
    assert(r@.profiles.len() == r.profiles@.len());
    assert(store@.profiles.len() == store.profiles@.len());
    assert(r@.selection == store@.selection);
    if 0 <= i < store.profiles@.len() {
        assert(r@.profiles[i] == r.profiles@[i]@);
        assert(store@.profiles[i] == store.profiles@[i]@);
    }
}

/// A change that has done nothing has nothing to undo, and remembers the records before it.
pub proof fn law_new_changes_have_nothing_to_undo(
    store: StoreSnapshot,
    change: Mutation,
    r: Vec<UndoStep>,
)
    requires
        call_ensures(Mutation::new, (store,), change),
        call_ensures(Mutation::undo_plan, (&change,), r),
    ensures
        r@.len() == 0,
        change.store_before == store,
{
    assert(crate::providers::official_profiles::undo_views(r@).len() == r@.len());
}

/// Noting what is kept of a profile before and after adds that to the change, behind what it holds,
/// and touches nothing else of it.
pub proof fn law_changes_note_what_was_kept(
    change: &mut Mutation,
    id: &str,
    before: Option<Vec<u8>>,
    after: Option<Vec<u8>>,
    i: int,
)
    requires
        call_ensures(Mutation::snapshot, (change, id, before, after), ()),
    ensures
        final(change).snapshots@.len() == old(change).snapshots@.len() + 1,
        0 <= i < old(change).snapshots@.len() ==> final(change).snapshots@[i]
            == old(change).snapshots@[i],
        ({
            let noted = final(change).snapshots@[old(change).snapshots@.len() as int];
            noted.profile_id@ == id@ && noted.before == before && noted.after == after
        }),
        final(change).store_before == old(change).store_before,
        final(change).store_after == old(change).store_after,
        final(change).live == old(change).live,
        final(change).provider_saved == old(change).provider_saved,
{
    if 0 <= i < old(change).snapshots@.len() {
        assert(final(change).snapshots@.drop_last()[i] == final(change).snapshots@[i]);
    }
}

/// A change is undone whole and backwards: the live files first, then what is kept of the profiles,
/// the last change first, each put back from what it became to what it was, then the records, then
/// the saved provider. What was not done is not undone.
pub proof fn law_changes_are_undone_backwards(change: &Mutation, i: int, r: Vec<UndoStep>)
    requires
        call_ensures(Mutation::undo_plan, (change,), r),
    ensures
        ({
            let live: int = if change.live is Some {
                1
            } else {
                0
            };
            let kept = change.snapshots@.len() as int;
            let records: int = if change.store_after is Some {
                1
            } else {
                0
            };
            let provider: int = if change.provider_saved {
                1
            } else {
                0
            };
            &&& r@.len() == live + kept + records + provider
            &&& live == 1 ==> r@[0] is Live
            &&& 0 <= i < kept ==> ({
                let step = r@[live + kept - 1 - i];
                &&& step is Snapshot
                &&& step->profile_id@ == change.snapshots@[i].profile_id@
                &&& opt_bytes(step->expected) == opt_bytes(change.snapshots@[i].after)
                &&& opt_bytes(step->original) == opt_bytes(change.snapshots@[i].before)
            })
            &&& records == 1 ==> r@[live + kept] is Store
            &&& provider == 1 ==> r@[live + kept + records] is Provider
        }),
{
    let views = crate::providers::official_profiles::undo_views(r@);
    assert(views.len() == r@.len());
    assert forall|k: int| 0 <= k < r@.len() implies views[k] == (#[trigger] r@[k])@ by {}
    let live: int = if change.live is Some {
        1
    } else {
        0
    };
    let kept = change.snapshots@.len() as int;
    let undos = crate::providers::official_profiles::snapshot_undos(change.snapshots@);
    if live == 1 {
        assert(views[0] == r@[0]@);
    }
    if 0 <= i < kept {
        assert(views[live + kept - 1 - i] == undos[kept - 1 - i]);
        assert(views[live + kept - 1 - i] == r@[live + kept - 1 - i]@);
    }
}

/// Undoing never hides why the change failed: that error is reported alone where all went well, and
/// comes first where undoing failed too, with every further error behind it. Live files that could
/// not be put back are reported before anything else.
pub proof fn law_failed_undoing_is_reported(
    error: CodexxError,
    live: Option<CodexxError>,
    failures: &Vec<CodexxError>,
    r: CodexxError,
)
    requires
        call_ensures(Mutation::rollback, (error, live, failures), r),
    ensures
        live is None && failures@.len() == 0 ==> r@ == error@,
        live is Some ==> r@ == ErrorView::Config(
            error_text(error@) + "；live 配置回滚失败，已保留账号恢复快照："@ + error_text(
                live->0@,
            ),
        ),
        live is None && failures@.len() == 1 ==> r@ == ErrorView::Config(
            error_text(error@) + "；回滚失败："@ + error_text(failures@[0]@),
        ),
        live is None && failures@.len() == 2 ==> r@ == ErrorView::Config(
            error_text(error@) + "；回滚失败："@ + (error_text(failures@[0]@) + "；"@ + error_text(
                failures@[1]@,
            )),
        ),
{
    let texts = crate::providers::official_profiles::error_texts(failures@);
    if failures@.len() == 1 {
        assert(texts =~= seq![error_text(failures@[0]@)]);
        reveal_with_fuel(joined_by, 3);
    }
    if failures@.len() == 2 {
        assert(texts[0] == error_text(failures@[0]@));
        assert(texts[1] == error_text(failures@[1]@));
        assert(texts.drop_last() =~= seq![texts[0]]);
        reveal_with_fuel(joined_by, 3);
    }
}

/// Undoing puts back the records as they were before the change, unless something else changed them
/// since; then they are left alone.
pub proof fn law_records_changed_since_are_left_alone(
    change: &Mutation,
    current: &StoreSnapshot,
    r: Result<StoreSnapshot, CodexxError>,
)
    requires
        call_ensures(Mutation::restored_store, (change, current), r),
    ensures
        r is Err <==> change.store_after is Some && change.store_after->0@ != current@,
        r is Ok ==> r->Ok_0@ == change.store_before@,
{
}

/// A copy of a profile is a new one with everything of the source, under a name that no profile
/// has, the default one included: the name of a copy of what was entered, or of the source's name
/// with the mark of a copy, without a number where that is free and otherwise with the first number
/// from two on that is.
pub proof fn law_copies_of_profiles_are_whole(
    store: &StoreSnapshot,
    source: &OfficialProfileDetail,
    name: &Option<String>,
    base: &str,
    plain: String,
    default: Result<String, CodexxError>,
    i: int,
    r: OfficialProfileInput,
) -> (n: nat)
    requires
        call_ensures(duplicate_official_profile_inner, (store, source, name), r),
        *name is Some ==> base@ == name->0@,
        *name is None ==> base@ == source.profile.provider_name@ + " 副本"@,
        call_ensures(bounded_copy_name, (base, None), plain),
        call_ensures(profile_name, (store, "openai-official"), default),
    ensures
        r.id is None,
        opt_view(r.model) == opt_view(source.profile.model),
        r.config_text is Some && r.config_text->0@ == source.config_text@,
        r.auth_json is Some && r.auth_json->0@ == source.auth_json@,
        default is Ok && r.provider_name@ != default->Ok_0@,
        0 <= i < store.profiles@.len() ==> r.provider_name@ != store.profiles@[i].provider_name@,
        plain@ != default->Ok_0@ && (forall|k: int|
            0 <= k < store.profiles@.len() ==> (#[trigger] store.profiles@[k]).provider_name@
                != plain@) ==> r.provider_name@ == plain@,
        r.provider_name@ != plain@ ==> n >= 2 && r.provider_name@ == copy_name(base@, Some(n)) && (
        forall|m: nat|
            2 <= m < n ==> named(store, default->Ok_0@, #[trigger] copy_name(base@, Some(m)))),
{
    let taken = crate::providers::official_profiles::taken_names(store@);
    let all = store@.profiles;
    let count = all.len() as int;
    assert(all.len() == store.profiles@.len());
    lemma_holds(store, "openai-official"@);
    assert(taken[count] == default->Ok_0@);
    assert forall|k: int| 0 <= k < count implies #[trigger] taken[k]
        == store.profiles@[k].provider_name@ by {
        assert(all[k] == store.profiles@[k]@);
    }
    if 0 <= i < count {
        assert(taken[i] == store.profiles@[i].provider_name@);
    }
    let n = choose|n: nat|
        crate::providers::official_profiles::first_free_copy(taken, base@, n);
    if taken.contains(plain@) {
        let k = taken.index_of(plain@);
        if k < count {
            assert(store.profiles@[k].provider_name@ == plain@);
        }
        lemma_first_free(taken, base@, 2);
        assert forall|m: nat| 2 <= m < n implies named(
            store,
            default->Ok_0@,
            #[trigger] copy_name(base@, Some(m)),
        ) by {
            let text = copy_name(base@, Some(m));
            assert(taken.contains(text));
            let k = taken.index_of(text);
            if k < count {
                assert(store.profiles@[k].provider_name@ == text);
            }
        }
    }
    n
}

/// Whether a name is the default profile's or some record's.
pub open spec fn named(store: &StoreSnapshot, default: Seq<char>, name: Seq<char>) -> bool {
    name == default || exists|k: int|
        0 <= k < store.profiles@.len() && (#[trigger] store.profiles@[k]).provider_name@ == name
}

/// Some number is free, because numbers tell copies apart.
proof fn lemma_first_free(taken: Seq<Seq<char>>, base: Seq<char>, n: nat)
    requires
        n >= 2,
        forall|k: nat| 2 <= k < n ==> taken.contains(#[trigger] copy_name(base, Some(k))),
    ensures
        exists|free: nat| crate::providers::official_profiles::first_free_copy(taken, base, free),
    decreases taken.len() + 3 - n,
{
    if taken.contains(copy_name(base, Some(n))) {
        crate::providers::official_profiles::lemma_copies_bound(taken, base, n + 1);
        lemma_first_free(taken, base, n + 1);
    } else {
        assert(crate::providers::official_profiles::first_free_copy(taken, base, n));
    }
}

} // verus!
