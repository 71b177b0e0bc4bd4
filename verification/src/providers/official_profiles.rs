//! Official profiles: their records, names, summaries, and the changes made to them as a whole.
use crate::error::{config, config2, config3, error_text, CodexxError, ErrorView};
use crate::json::{copy_opt_json, json_pretty_text, opt_json, print_json_pretty, JsonView};
use crate::providers::live_files::AppliedLiveFiles;
use crate::providers::live_toml::{AuthActionView, LiveAuthAction};
use crate::providers::official_auth::{document_is_official, official_document};
use crate::providers::official_display::{
    auth_display, auth_display_metadata, parse_auth, parsed_auth, quota_access_token, quota_token,
    DisplayView, OfficialAuthDisplayMetadata,
};
use crate::text::{
    blank, chars_of, copy_opt, copy_opt_bytes, decimal, decimal_of, is_blank, is_digit, joined,
    joined3, joined_by, lemma_decimal_injective, lemma_precedes_total, lemma_precedes_transitive,
    lemma_trimmed_end, opt_bytes, opt_view, precedes, same_text, stands_before, strip_suffix,
    text_between, trim, trim_end, trimmed, trimmed_end,
};
use crate::toml::{document_entries, get_kept_text, kept_entry};
use serde_json::Value;
use toml_edit::DocumentMut;
use vstd::prelude::*;

verus! {

/// A named official profile.
#[derive(Debug, PartialEq, Eq)]
pub struct ProfileRecord {
    pub id: String,
    pub provider_name: String,
    pub created_at: String,
    pub updated_at: String,
}

/// A named official profile, as contracts speak of it.
pub ghost struct RecordView {
    pub id: Seq<char>,
    pub provider_name: Seq<char>,
    pub created_at: Seq<char>,
    pub updated_at: Seq<char>,
}

impl View for ProfileRecord {
    type V = RecordView;

    open spec fn view(&self) -> RecordView {
        RecordView {
            id: self.id@,
            provider_name: self.provider_name@,
            created_at: self.created_at@,
            updated_at: self.updated_at@,
        }
    }
}

impl Clone for ProfileRecord {
    fn clone(&self) -> (r: Self)
        ensures
            r@ == self@,
    {
        ProfileRecord {
            id: self.id.clone(),
            provider_name: self.provider_name.clone(),
            created_at: self.created_at.clone(),
            updated_at: self.updated_at.clone(),
        }
    }
}

/// Records, as contracts speak of them.
pub open spec fn record_views(records: Seq<ProfileRecord>) -> Seq<RecordView> {
    records.map_values(|record: ProfileRecord| record@)
}

/// The official profiles of one configuration directory, and the one that is selected with the
/// time of its selection.
#[derive(Debug, PartialEq, Eq)]
pub struct StoreSnapshot {
    pub profiles: Vec<ProfileRecord>,
    pub selection: Option<(String, String)>,
}

/// The official profiles of one configuration directory, as contracts speak of them.
pub ghost struct StoreView {
    pub profiles: Seq<RecordView>,
    pub selection: Option<(Seq<char>, Seq<char>)>,
}

impl View for StoreSnapshot {
    type V = StoreView;

    open spec fn view(&self) -> StoreView {
        StoreView {
            profiles: record_views(self.profiles@),
            selection: match self.selection {
                Some((id, at)) => Some((id@, at@)),
                None => None,
            },
        }
    }
}

/// The identifier of the profile that always exists.
pub open spec fn default_id() -> Seq<char> {
    "openai-official"@
}

/// Whether the first record of this identifier stands at `at`.
pub open spec fn record_at(records: Seq<RecordView>, id: Seq<char>, at: int) -> bool {
    &&& 0 <= at < records.len()
    &&& records[at].id == id
    &&& forall|j: int| 0 <= j < at ==> (#[trigger] records[j]).id != id
}

/// Whether there is a record of this identifier.
pub open spec fn has_record(records: Seq<RecordView>, id: Seq<char>) -> bool {
    exists|i: int| 0 <= i < records.len() && (#[trigger] records[i]).id == id
}

/// The record of an identifier.
pub open spec fn record_of(records: Seq<RecordView>, id: Seq<char>) -> Option<RecordView> {
    if exists|at: int| record_at(records, id, at) {
        Some(records[choose|at: int| record_at(records, id, at)])
    } else {
        None
    }
}

fn find_record(records: &Vec<ProfileRecord>, id: &str) -> (r: Option<usize>)
    ensures
        match r {
            Some(at) => record_at(record_views(records@), id@, at as int) && record_of(
                record_views(records@),
                id@,
            ) == Some(records@[at as int]@) && has_record(record_views(records@), id@),
            None => record_of(record_views(records@), id@) is None && !has_record(
                record_views(records@),
                id@,
            ),
        },
{
    let ghost all = record_views(records@);
    let mut i: usize = 0;
    while i < records.len()
        invariant
            i <= records@.len(),
            all == record_views(records@),
            forall|j: int| 0 <= j < i ==> (#[trigger] all[j]).id != id@,
        decreases records@.len() - i,
    {
        if same_text(&records[i].id, id) {
            proof {
                assert(all[i as int].id == id@);
                assert(record_at(all, id@, i as int));
                let at = choose|at: int| record_at(all, id@, at);
                assert(record_at(all, id@, at));
                if at < i {
                    assert(all[at].id != id@);
                } else if i < at {
                    assert(all[i as int].id != id@);
                }
            }
            return Some(i);
        }
        i = i + 1;
    }
    proof {
        assert forall|at: int| !record_at(all, id@, at) by {
            if record_at(all, id@, at) {
                assert(all[at].id != id@);
            }
        }
    }
    None
}

/// The selected profile: the one that is remembered while it exists, otherwise the default.
pub open spec fn selected_id(store: StoreView) -> Seq<char> {
    match store.selection {
        Some((id, _)) => if id == default_id() || has_record(store.profiles, id) {
            id
        } else {
            default_id()
        },
        None => default_id(),
    }
}

/// The selected profile.
pub fn selected_profile_id(store: &StoreSnapshot) -> (r: String)
    ensures
        r@ == selected_id(store@),
{
    if let Some((id, _)) = &store.selection {
        if same_text(id, "openai-official") || find_record(&store.profiles, id).is_some() {
            return id.clone();
        }
    }
    "openai-official".to_owned()
}

/// Whether there is a profile besides the default one.
pub fn has_named_profiles(store: &StoreSnapshot) -> (r: bool)
    ensures
        r == exists|i: int|
            0 <= i < store@.profiles.len() && (#[trigger] store@.profiles[i]).id != default_id(),
{
    let ghost all = store@.profiles;
    let mut i: usize = 0;
    while i < store.profiles.len()
        invariant
            i <= store.profiles@.len(),
            all == store@.profiles,
            all.len() == store.profiles@.len(),
            forall|j: int| 0 <= j < i ==> (#[trigger] all[j]).id == default_id(),
        decreases store.profiles@.len() - i,
    {
        if !same_text(&store.profiles[i].id, "openai-official") {
            assert(all[i as int].id != default_id());
            return true;
        }
        i = i + 1;
    }
    false
}

/// The profile in use: the selected one while the route is official.
pub fn active_profile_id(store: &StoreSnapshot, is_official: bool) -> (r: Option<String>)
    ensures
        opt_view(r) == if is_official {
            Some(selected_id(store@))
        } else {
            None
        },
{
    if is_official {
        Some(selected_profile_id(store))
    } else {
        None
    }
}

/// The name of a profile; the default one has a name even without a record.
pub open spec fn name_of(store: StoreView, id: Seq<char>) -> Result<Seq<char>, ErrorView> {
    match record_of(store.profiles, id) {
        Some(record) => Ok(record.provider_name),
        None => if id == default_id() {
            Ok("OpenAI Official"@)
        } else {
            Err(ErrorView::Config("未找到官方配置: "@ + id))
        },
    }
}

/// The name of a profile.
pub fn profile_name(store: &StoreSnapshot, id: &str) -> (r: Result<String, CodexxError>)
    ensures
        match name_of(store@, id@) {
            Ok(name) => r matches Ok(found) && found@ == name,
            Err(error) => r matches Err(found) && found@ == error,
        },
{
    match find_record(&store.profiles, id) {
        Some(at) => Ok(store.profiles[at].provider_name.clone()),
        None => if same_text(id, "openai-official") {
            Ok("OpenAI Official".to_owned())
        } else {
            Err(config2("未找到官方配置: ", id))
        },
    }
}

/// What a name of a profile becomes.
pub open spec fn normalized_profile_name(name: Seq<char>) -> Result<Seq<char>, ErrorView> {
    if blank(name) || trimmed(name).len() > 100 {
        Err(ErrorView::Config("官方配置名称必须为 1–100 个字符"@))
    } else {
        Ok(trimmed(name))
    }
}

/// A name of a profile, trimmed and of acceptable length.
pub fn normalize_name(name: &str) -> (r: Result<String, CodexxError>)
    ensures
        match normalized_profile_name(name@) {
            Ok(text) => r matches Ok(found) && found@ == text,
            Err(error) => r matches Err(found) && found@ == error,
        },
{
    let name = trim(name);
    let count: usize = chars_of(&name).len();
    if count == 0 || count > 100 {
        return Err(config("官方配置名称必须为 1–100 个字符"));
    }
    Ok(name)
}

/// A name without its mark of a copy, and that mark.
pub open spec fn copy_parts(base: Seq<char>) -> (Seq<char>, Seq<char>) {
    if " 副本"@.is_suffix_of(base) {
        (base.take(base.len() - " 副本"@.len()), " 副本"@)
    } else if " Copy"@.is_suffix_of(base) {
        (base.take(base.len() - " Copy"@.len()), " Copy"@)
    } else {
        (base, seq![])
    }
}

/// The end of a copy's name: its mark and its number.
pub open spec fn copy_ending(marker: Seq<char>, ordinal: Option<nat>) -> Seq<char> {
    match ordinal {
        Some(n) => marker + " "@ + decimal(n),
        None => marker,
    }
}

/// At most the first `n` characters of a text.
pub open spec fn at_most(s: Seq<char>, n: int) -> Seq<char> {
    if n <= 0 {
        seq![]
    } else if s.len() <= n {
        s
    } else {
        s.take(n)
    }
}

/// The name of a copy: the name is shortened, never its mark or number, so that the whole fits.
pub open spec fn copy_name(base: Seq<char>, ordinal: Option<nat>) -> Seq<char> {
    let (stem, marker) = copy_parts(trimmed(base));
    let ending = copy_ending(marker, ordinal);
    trimmed_end(at_most(stem, 100 - ending.len())) + ending
}

/// The name of a copy.
pub fn bounded_copy_name(base_name: &str, ordinal: Option<u128>) -> (r: String)
    ensures
        r@ == copy_name(
            base_name@,
            match ordinal {
                Some(n) => Some(n as nat),
                None => None,
            },
        ),
        r@.len() <= 100,
{
    proof {
        law_copy_names_fit(
            base_name@,
            match ordinal {
                Some(n) => Some(n as nat),
                None => None,
            },
        );
    }
    let base = trim(base_name);
    let (stem, marker) = match strip_suffix(&base, " 副本") {
        Some(stem) => {
            assert(" 副本"@ =~= base@.subrange(
                base@.len() - " 副本"@.len(),
                base@.len() as int,
            ));
            assert(stem@ =~= base@.take(base@.len() - " 副本"@.len()));
            (stem, " 副本".to_owned())
        },
        None => match strip_suffix(&base, " Copy") {
            Some(stem) => {
                assert(" Copy"@ =~= base@.subrange(
                    base@.len() - " Copy"@.len(),
                    base@.len() as int,
                ));
                assert(stem@ =~= base@.take(base@.len() - " Copy"@.len()));
                (stem, " Copy".to_owned())
            },
            None => (base.clone(), String::new()),
        },
    };
    assert((stem@, marker@) == copy_parts(trimmed(base_name@)));
    let ending = match ordinal {
        Some(n) => joined3(&marker, " ", &decimal_of(n)),
        None => marker.clone(),
    };
    let length: usize = chars_of(&ending).len();
    let room: usize = if length < 100 {
        100 - length
    } else {
        0
    };
    let chars = chars_of(&stem);
    let to: usize = if chars.len() <= room {
        chars.len()
    } else {
        room
    };
    let short = text_between(&chars, 0, to);
    assert(short@ =~= at_most(stem@, 100 - ending@.len()));
    joined(&trim_end(&short), &ending)
}

/// What is kept of an official profile besides its record.
#[derive(Debug)]
pub struct ProfileCandidate {
    pub model: Option<String>,
    pub config_text: Option<String>,
    pub auth: Option<Value>,
    pub source: String,
}

/// What is shown of an official profile.
#[derive(Debug, PartialEq, Eq)]
pub struct OfficialProfileSummary {
    pub id: String,
    pub provider_name: String,
    pub model: Option<String>,
    pub has_auth: bool,
    pub has_owned_auth: bool,
    pub email: Option<String>,
    pub plan_type: Option<String>,
    pub can_query_quota: bool,
    pub is_default: bool,
    pub is_current: bool,
}

/// What is shown of an official profile, as contracts speak of it.
pub ghost struct SummaryView {
    pub id: Seq<char>,
    pub provider_name: Seq<char>,
    pub model: Option<Seq<char>>,
    pub has_auth: bool,
    pub has_owned_auth: bool,
    pub email: Option<Seq<char>>,
    pub plan_type: Option<Seq<char>>,
    pub can_query_quota: bool,
    pub is_default: bool,
    pub is_current: bool,
}

impl View for OfficialProfileSummary {
    type V = SummaryView;

    open spec fn view(&self) -> SummaryView {
        SummaryView {
            id: self.id@,
            provider_name: self.provider_name@,
            model: opt_view(self.model),
            has_auth: self.has_auth,
            has_owned_auth: self.has_owned_auth,
            email: opt_view(self.email),
            plan_type: opt_view(self.plan_type),
            can_query_quota: self.can_query_quota,
            is_default: self.is_default,
            is_current: self.is_current,
        }
    }
}

/// What is shown of a credential that may be absent.
pub open spec fn opt_display(auth: Option<JsonView>) -> DisplayView {
    match auth {
        Some(auth) => auth_display(auth),
        None => DisplayView { email: None, plan_type: None },
    }
}

/// Whether a quota can be asked for with a credential that may be absent.
pub open spec fn opt_quota(auth: Option<JsonView>) -> bool {
    match auth {
        Some(auth) => quota_token(auth) is Some,
        None => false,
    }
}

/// The summary of a profile, given the model and the credential that are its own.
pub open spec fn summary(
    id: Seq<char>,
    provider_name: Seq<char>,
    model: Option<Seq<char>>,
    has_auth: bool,
    owned_auth: Option<JsonView>,
    is_current: bool,
) -> SummaryView {
    SummaryView {
        id,
        provider_name,
        model,
        has_auth,
        has_owned_auth: owned_auth is Some,
        email: opt_display(owned_auth).email,
        plan_type: opt_display(owned_auth).plan_type,
        can_query_quota: opt_quota(owned_auth),
        is_default: id == default_id(),
        is_current,
    }
}

fn summarize(
    id: String,
    provider_name: String,
    model: Option<String>,
    has_auth: bool,
    owned_auth: &Option<Value>,
    is_current: bool,
) -> (r: OfficialProfileSummary)
    ensures
        r@ == summary(
            id@,
            provider_name@,
            opt_view(model),
            has_auth,
            opt_json(*owned_auth),
            is_current,
        ),
{
    let display = match owned_auth {
        Some(auth) => auth_display_metadata(auth),
        None => OfficialAuthDisplayMetadata { email: None, plan_type: None },
    };
    let can_query_quota: bool = match owned_auth {
        Some(auth) => quota_access_token(auth).is_some(),
        None => false,
    };
    let is_default: bool = same_text(&id, "openai-official");
    OfficialProfileSummary {
        id,
        provider_name,
        model,
        has_auth,
        has_owned_auth: owned_auth.is_some(),
        email: display.email,
        plan_type: display.plan_type,
        can_query_quota,
        is_default,
        is_current,
    }
}

/// The profiles that are listed: the default one first, then the others in order.
pub open spec fn listed(store: StoreView) -> Seq<(Seq<char>, Seq<char>)> {
    let name = match record_of(store.profiles, default_id()) {
        Some(record) => record.provider_name,
        None => "OpenAI Official"@,
    };
    seq![(default_id(), name)] + named_profiles(store.profiles)
}

/// The profiles besides the default one.
pub open spec fn named_profiles(records: Seq<RecordView>) -> Seq<(Seq<char>, Seq<char>)>
    decreases records.len(),
{
    if records.len() == 0 {
        seq![]
    } else {
        let head = named_profiles(records.drop_last());
        if records.last().id != default_id() {
            head.push((records.last().id, records.last().provider_name))
        } else {
            head
        }
    }
}

/// Pairs of texts, as contracts speak of them.
pub open spec fn pair_views(pairs: Seq<(String, String)>) -> Seq<(Seq<char>, Seq<char>)> {
    pairs.map_values(|pair: (String, String)| (pair.0@, pair.1@))
}

/// The profiles that are listed, each with its name.
pub fn listed_profiles(store: &StoreSnapshot) -> (r: Vec<(String, String)>)
    ensures
        pair_views(r@) == listed(store@),
{
    let name = match find_record(&store.profiles, "openai-official") {
        Some(at) => store.profiles[at].provider_name.clone(),
        None => "OpenAI Official".to_owned(),
    };
    let ghost all = record_views(store.profiles@);
    let mut out: Vec<(String, String)> = Vec::new();
    out.push(("openai-official".to_owned(), name));
    let ghost first = seq![(default_id(), name@)];
    let mut i: usize = 0;
    assert(pair_views(out@) =~= first + named_profiles(all.take(0)));
    while i < store.profiles.len()
        invariant
            i <= store.profiles@.len(),
            all == record_views(store.profiles@),
            pair_views(out@) == first + named_profiles(all.take(i as int)),
        decreases store.profiles@.len() - i,
    {
        assert(all.take(i + 1).drop_last() =~= all.take(i as int));
        let record = &store.profiles[i];
        if !same_text(&record.id, "openai-official") {
            let ghost before = out@;
            out.push((record.id.clone(), record.provider_name.clone()));
            assert(pair_views(out@) =~= pair_views(before).push(
                (all[i as int].id, all[i as int].provider_name),
            ));
            assert(pair_views(out@) =~= first + named_profiles(all.take(i + 1)));
        }
        i = i + 1;
    }
    assert(all.take(all.len() as int) =~= all);
    out
}

/// What the live configuration says of the profile in use.
#[derive(Debug)]
pub struct LiveOfficial {
    /// Whether the live route is official.
    pub is_official: bool,
    /// The model of the live configuration.
    pub model: Option<String>,
    /// The live credential, where the live route is official and it is acceptable.
    pub auth: Option<Value>,
}

/// What the live configuration says of the profile in use, given the text of the live credential
/// file, if it could be read. The credential counts only under an official route.
pub fn read_live_official(doc: &DocumentMut, auth_text: Option<&str>) -> (r: LiveOfficial)
    ensures
        r.is_official == official_document(document_entries(*doc)),
        opt_view(r.model) == kept_entry(document_entries(*doc), "model"@),
        opt_json(r.auth) == match auth_text {
            Some(text) if r.is_official => match parsed_auth(text@) {
                Ok(auth) => auth,
                Err(_) => None,
            },
            _ => None,
        },
{
    let is_official: bool = document_is_official(doc);
    let mut auth: Option<Value> = None;
    if is_official {
        if let Some(text) = auth_text {
            if let Ok(found) = parse_auth(text) {
                auth = found;
            }
        }
    }
    LiveOfficial { is_official, model: get_kept_text(doc.as_table(), "model"), auth }
}

/// What is kept of the profile at this place of the list, if anything.
pub open spec fn saved_at(saved: Seq<Option<ProfileCandidate>>, i: int) -> Option<ProfileCandidate> {
    if 0 <= i < saved.len() {
        saved[i]
    } else {
        None
    }
}

/// The summary of a listed profile. The live files own what is shown of the profile in use; every
/// other profile shows what is kept of it and nothing else.
pub open spec fn listed_summary(
    profile: (Seq<char>, Seq<char>),
    selected: Seq<char>,
    live: LiveOfficial,
    saved: Option<ProfileCandidate>,
) -> SummaryView {
    let is_current = live.is_official && selected == profile.0;
    let kept_auth = match saved {
        Some(saved) => opt_json(saved.auth),
        None => None,
    };
    let kept_model = match saved {
        Some(saved) => opt_view(saved.model),
        None => None,
    };
    let live_auth = if live.is_official {
        opt_json(live.auth)
    } else {
        None
    };
    summary(
        profile.0,
        profile.1,
        if is_current {
            opt_view(live.model)
        } else {
            kept_model
        },
        (is_current && live_auth is Some) || kept_auth is Some,
        if is_current {
            live_auth
        } else {
            kept_auth
        },
        is_current,
    )
}

/// The summaries of all profiles, given what is kept of each in the order in which they are
/// listed.
pub fn list_official_profiles_inner(
    store: &StoreSnapshot,
    live: &LiveOfficial,
    saved: &Vec<Option<ProfileCandidate>>,
) -> (r: Vec<OfficialProfileSummary>)
    ensures
        r@.len() == listed(store@).len(),
        forall|i: int|
            0 <= i < r@.len() ==> (#[trigger] r@[i])@ == listed_summary(
                listed(store@)[i],
                selected_id(store@),
                *live,
                saved_at(saved@, i),
            ),
{
    let profiles = listed_profiles(store);
    let selected = selected_profile_id(store);
    let ghost all = listed(store@);
    let mut out: Vec<OfficialProfileSummary> = Vec::new();
    let mut i: usize = 0;
    while i < profiles.len()
        invariant
            i <= profiles@.len(),
            all == listed(store@),
            pair_views(profiles@) == all,
            selected@ == selected_id(store@),
            out@.len() == i,
            forall|j: int|
                0 <= j < i ==> (#[trigger] out@[j])@ == listed_summary(
                    all[j],
                    selected_id(store@),
                    *live,
                    saved_at(saved@, j),
                ),
        decreases profiles@.len() - i,
    {
        let id = profiles[i].0.clone();
        let name = profiles[i].1.clone();
        assert(all[i as int] == (id@, name@));
        let is_current: bool = live.is_official && same_text(&selected, &id);
        let mut kept_auth: Option<Value> = None;
        let mut kept_model: Option<String> = None;
        if i < saved.len() {
            if let Some(saved) = &saved[i] {
                kept_auth = copy_opt_json(&saved.auth);
                kept_model = copy_opt(&saved.model);
            }
        }
        let has_kept_auth: bool = kept_auth.is_some();
        let summary = if is_current {
            let auth = copy_opt_json(&live.auth);
            let has_auth: bool = auth.is_some() || has_kept_auth;
            summarize(id, name, copy_opt(&live.model), has_auth, &auth, true)
        } else {
            summarize(id, name, kept_model, has_kept_auth, &kept_auth, false)
        };
        out.push(summary);
        i = i + 1;
    }
    out
}

/// Where something of a profile is read from.
#[derive(Debug, Clone, Copy, PartialEq, Eq, Structural)]
pub enum ProfileSource {
    /// The live files.
    Live,
    /// What is kept of the profile.
    Snapshot,
}

/// Where the configuration of a profile is read from: the selected profile owns the live files.
pub fn profile_candidate(store: &StoreSnapshot, id: &str) -> (r: Result<ProfileSource, CodexxError>)
    ensures
        match name_of(store@, id@) {
            Err(error) => r matches Err(found) && found@ == error,
            Ok(_) => r == Ok::<ProfileSource, CodexxError>(
                if selected_id(store@) == id@ {
                    ProfileSource::Live
                } else {
                    ProfileSource::Snapshot
                },
            ),
        },
{
    if let Err(error) = profile_name(store, id) {
        return Err(error);
    }
    if same_text(&selected_profile_id(store), id) {
        Ok(ProfileSource::Live)
    } else {
        Ok(ProfileSource::Snapshot)
    }
}

/// Where the credential that belongs to a profile is read from: the live files only while the
/// profile is selected and the live route official. `live_is_official` is `None` where that
/// cannot be told.
pub fn owned_auth_source(store: &StoreSnapshot, id: &str, live_is_official: Option<bool>) -> (r: Result<
    ProfileSource,
    CodexxError,
>)
    ensures
        match name_of(store@, id@) {
            Err(error) => r matches Err(found) && found@ == error,
            Ok(_) => if selected_id(store@) != id@ {
                r == Ok::<ProfileSource, CodexxError>(ProfileSource::Snapshot)
            } else {
                match live_is_official {
                    Some(true) => r == Ok::<ProfileSource, CodexxError>(ProfileSource::Live),
                    Some(false) => r == Ok::<ProfileSource, CodexxError>(ProfileSource::Snapshot),
                    None => r matches Err(error) && error@ == ErrorView::Config(
                        "无法确认当前官方登录状态，请刷新配置"@,
                    ),
                }
            },
        },
{
    if let Err(error) = profile_name(store, id) {
        return Err(error);
    }
    if !same_text(&selected_profile_id(store), id) {
        return Ok(ProfileSource::Snapshot);
    }
    match live_is_official {
        Some(true) => Ok(ProfileSource::Live),
        Some(false) => Ok(ProfileSource::Snapshot),
        None => Err(config("无法确认当前官方登录状态，请刷新配置")),
    }
}

/// The credential that belongs to the profile in use, given the text of the live credential file,
/// if it could be read. A logout there counts: nothing older takes its place.
pub fn owned_live_auth(text: Option<&str>) -> (r: Result<Option<Value>, CodexxError>)
    ensures
        match text {
            None => r matches Err(error) && error@ == ErrorView::Config(
                "无法读取当前官方认证，请重新登录"@,
            ),
            Some(text) => match parsed_auth(text@) {
                Ok(auth) => r matches Ok(found) && opt_json(found) == auth,
                Err(_) => r matches Err(error) && error@ == ErrorView::Config(
                    "当前官方认证无效，请重新登录"@,
                ),
            },
        },
{
    match text {
        None => Err(config("无法读取当前官方认证，请重新登录")),
        Some(text) => match parse_auth(text) {
            Ok(auth) => Ok(auth),
            Err(_) => Err(config("当前官方认证无效，请重新登录")),
        },
    }
}

/// The credential that is kept of a profile, given how reading it went.
pub fn owned_saved_auth(read: Result<Option<ProfileCandidate>, CodexxError>) -> (r: Result<
    Option<Value>,
    CodexxError,
>)
    ensures
        match read {
            Ok(candidate) => r matches Ok(auth) && opt_json(auth) == candidate_auth(candidate),
            Err(_) => r matches Err(error) && error@ == ErrorView::Config(
                "无法读取此官方配置的认证，请重新保存登录信息"@,
            ),
        },
{
    match read {
        Ok(Some(candidate)) => Ok(candidate.auth),
        Ok(None) => Ok(None),
        Err(_) => Err(config("无法读取此官方配置的认证，请重新保存登录信息")),
    }
}

/// An official profile with its configuration and credential.
#[derive(Debug)]
pub struct OfficialProfileDetail {
    pub profile: OfficialProfileSummary,
    pub config_text: String,
    pub auth_json: String,
    pub source: String,
}

/// The text of a credential that may be absent.
pub open spec fn auth_text(auth: Option<JsonView>) -> Result<Seq<char>, ErrorView> {
    match auth {
        None => Ok(seq![]),
        Some(auth) => match json_pretty_text(auth) {
            Ok(text) => Ok(text),
            Err(message) => Err(ErrorView::Config("读取官方认证失败: "@ + message)),
        },
    }
}

/// The credential of a candidate that may be absent.
pub open spec fn candidate_auth(candidate: Option<ProfileCandidate>) -> Option<JsonView> {
    match candidate {
        Some(candidate) => opt_json(candidate.auth),
        None => None,
    }
}

/// The model of a candidate that may be absent.
pub open spec fn candidate_model(candidate: Option<ProfileCandidate>) -> Option<Seq<char>> {
    match candidate {
        Some(candidate) => opt_view(candidate.model),
        None => None,
    }
}

/// An official profile with its configuration and credential. `built_config` is the configuration
/// of a profile that keeps none; a named profile of which nothing is kept is never given the
/// account of another one.
pub fn detail(
    store: &StoreSnapshot,
    id: &str,
    candidate: &Option<ProfileCandidate>,
    built_config: &str,
    owned_auth: &Option<Value>,
    live_is_official: bool,
) -> (r: Result<OfficialProfileDetail, CodexxError>)
    ensures
        match name_of(store@, id@) {
            Err(error) => r matches Err(found) && found@ == error,
            Ok(name) => if candidate is None && id@ != default_id() {
                r matches Err(error) && error@ == ErrorView::Config(
                    "官方配置 "@ + name + " 的快照缺失，未使用其他账号替代"@,
                )
            } else {
                match auth_text(candidate_auth(*candidate)) {
                    Err(error) => r matches Err(found) && found@ == error,
                    Ok(text) => r matches Ok(found) && {
                        &&& found.auth_json@ == text
                        &&& found.profile@ == summary(
                            id@,
                            name,
                            candidate_model(*candidate),
                            text.len() > 0,
                            opt_json(*owned_auth),
                            live_is_official && selected_id(store@) == id@,
                        )
                        &&& found.config_text@ == match *candidate {
                            Some(ProfileCandidate { config_text: Some(config), .. }) => config@,
                            _ => built_config@,
                        }
                        &&& found.source@ == match *candidate {
                            Some(candidate) => candidate.source@,
                            None => "根据当前 config.toml 生成"@,
                        }
                    },
                }
            },
        },
{
    let provider_name = match profile_name(store, id) {
        Ok(name) => name,
        Err(error) => return Err(error),
    };
    if candidate.is_none() && !same_text(id, "openai-official") {
        return Err(
            config3("官方配置 ", &provider_name, " 的快照缺失，未使用其他账号替代"),
        );
    }
    let mut model: Option<String> = None;
    let mut config_text = built_config.to_owned();
    let mut source = "根据当前 config.toml 生成".to_owned();
    let mut auth_json = String::new();
    if let Some(candidate) = candidate {
        model = copy_opt(&candidate.model);
        if let Some(config) = &candidate.config_text {
            config_text = config.clone();
        }
        source = candidate.source.clone();
        if let Some(auth) = &candidate.auth {
            auth_json =
            match print_json_pretty(auth) {
                Ok(text) => text,
                Err(message) => return Err(config2("读取官方认证失败: ", &message)),
            };
        }
    }
    let has_auth: bool = !auth_json.as_str().is_empty();
    let is_current: bool = live_is_official && same_text(&selected_profile_id(store), id);
    let profile = summarize(id.to_owned(), provider_name, model, has_auth, owned_auth, is_current);
    Ok(OfficialProfileDetail { profile, config_text, auth_json, source })
}

/// What the user enters of an official profile.
#[derive(Debug)]
pub struct OfficialProfileInput {
    pub id: Option<String>,
    pub provider_name: String,
    pub model: Option<String>,
    pub config_text: Option<String>,
    pub auth_json: Option<String>,
}

/// What a save of an official profile does.
#[derive(Debug)]
pub struct ProfileSave {
    pub name: String,
    /// The configuration to save; `None` where one is to be made.
    pub config_text: Option<String>,
    /// The text of the credential to save.
    pub auth_text: String,
    /// Whether the live files are written too.
    pub writes_live: bool,
    pub message: String,
}

/// Decides a save of an official profile. `existing` is the profile as it is, where one is edited.
/// The profile in use and one that is activated are written to the live files as well.
pub fn save_locked(
    input: &OfficialProfileInput,
    existing: &Option<OfficialProfileDetail>,
    activate: bool,
) -> (r: Result<ProfileSave, CodexxError>)
    ensures
        match normalized_profile_name(input.provider_name@) {
            Err(error) => r matches Err(found) && found@ == error,
            Ok(name) => r matches Ok(save) && {
                &&& save.name@ == name
                &&& save.message@ == "已保存官方配置 "@ + name
                &&& opt_view(save.config_text) == match (input.config_text, *existing) {
                    (Some(text), _) if !blank(text@) => Some(text@),
                    (_, Some(detail)) => Some(detail.config_text@),
                    _ => None,
                }
                &&& save.auth_text@ == match (input.auth_json, *existing) {
                    (Some(text), _) => text@,
                    (None, Some(detail)) => detail.auth_json@,
                    (None, None) => seq![],
                }
                &&& save.writes_live == (activate || match *existing {
                    Some(detail) => detail.profile.is_current,
                    None => false,
                })
            },
        },
{
    let name = match normalize_name(&input.provider_name) {
        Ok(name) => name,
        Err(error) => return Err(error),
    };
    let mut config_text: Option<String> = None;
    if let Some(text) = &input.config_text {
        if !is_blank(text) {
            config_text = Some(text.clone());
        }
    }
    let mut auth_text = String::new();
    let mut is_current: bool = false;
    if let Some(detail) = existing {
        if config_text.is_none() {
            config_text = Some(detail.config_text.clone());
        }
        auth_text = detail.auth_json.clone();
        is_current = detail.profile.is_current;
    }
    if let Some(text) = &input.auth_json {
        auth_text = text.clone();
    }
    let message = joined("已保存官方配置 ", &name);
    Ok(ProfileSave { name, config_text, auth_text, writes_live: activate || is_current, message })
}

/// What becomes of the live credential when a profile takes the live files over.
pub fn profile_auth_action(auth: &Option<Value>) -> (r: LiveAuthAction)
    ensures
        r@ == match opt_json(*auth) {
            Some(auth) => AuthActionView::Replace(auth),
            None => AuthActionView::Remove,
        },
{
    match auth {
        Some(auth) => LiveAuthAction::Replace(auth.clone()),
        None => LiveAuthAction::Remove,
    }
}

/// Whether a new default profile needs a configuration that is made for it, because the user gave
/// none.
pub fn reset_needs_config(config_text: &Option<String>) -> (r: bool)
    ensures
        r == match *config_text {
            Some(text) => blank(text@),
            None => true,
        },
{
    match config_text {
        Some(text) => is_blank(text),
        None => true,
    }
}

/// What a new default profile is saved from, and what its activation reports: `built_config` where
/// the user gave no configuration, and never a credential.
pub fn reset_default_official_profile_inner(
    store: &StoreSnapshot,
    model: &Option<String>,
    config_text: &Option<String>,
    built_config: &str,
) -> (r: (OfficialProfileInput, String))
    ensures
        opt_view(r.0.id) == Some(default_id()),
        name_of(store@, default_id()) == Ok::<Seq<char>, ErrorView>(r.0.provider_name@),
        opt_view(r.0.model) == opt_view(*model),
        opt_view(r.0.config_text) == Some(
            match *config_text {
                Some(text) if !blank(text@) => text@,
                _ => built_config@,
            },
        ),
        r.0.auth_json matches Some(auth) && auth@.len() == 0,
        r.1@ == "已新建默认官方配置，请在 Codex 中重新登录"@,
{
    let provider_name = match find_record(&store.profiles, "openai-official") {
        Some(at) => store.profiles[at].provider_name.clone(),
        None => "OpenAI Official".to_owned(),
    };
    let mut config = built_config.to_owned();
    if let Some(text) = config_text {
        if !is_blank(text) {
            config = text.clone();
        }
    }
    let input = OfficialProfileInput {
        id: Some("openai-official".to_owned()),
        provider_name,
        model: copy_opt(model),
        config_text: Some(config),
        auth_json: Some(String::new()),
    };
    (input, "已新建默认官方配置，请在 Codex 中重新登录".to_owned())
}

fn copy_records(records: &Vec<ProfileRecord>) -> (r: Vec<ProfileRecord>)
    ensures
        record_views(r@) == record_views(records@),
{
    let mut out: Vec<ProfileRecord> = Vec::new();
    let mut i: usize = 0;
    while i < records.len()
        invariant
            i <= records@.len(),
            out@.len() == i,
            forall|j: int| 0 <= j < i ==> (#[trigger] out@[j])@ == records@[j]@,
        decreases records@.len() - i,
    {
        out.push(records[i].clone());
        i = i + 1;
    }
    assert(record_views(out@) =~= record_views(records@));
    out
}

impl Clone for StoreSnapshot {
    fn clone(&self) -> (r: Self)
        ensures
            r@ == self@,
    {
        StoreSnapshot {
            profiles: copy_records(&self.profiles),
            selection: match &self.selection {
                Some((id, at)) => Some((id.clone(), at.clone())),
                None => None,
            },
        }
    }
}

/// Whether a record is listed before another: it was created earlier, or at the same time and its
/// identifier stands before the other's.
pub open spec fn listed_before(left: RecordView, right: RecordView) -> bool {
    precedes(left.created_at, right.created_at) || (left.created_at == right.created_at && precedes(
        left.id,
        right.id,
    ))
}

/// Records with one more, behind every record that is not listed after it.
pub open spec fn filed(records: Seq<RecordView>, record: RecordView) -> Seq<RecordView>
    decreases records.len(),
{
    if records.len() > 0 && listed_before(record, records.last()) {
        filed(records.drop_last(), record).push(records.last())
    } else {
        records.push(record)
    }
}

/// Whether records stand in the order in which they are listed.
pub open spec fn listed_in_order(records: Seq<RecordView>) -> bool {
    forall|i: int, j: int|
        0 <= i < j < records.len() ==> !listed_before(#[trigger] records[j], #[trigger] records[i])
}

/// A record stands before those that are listed after it.
proof fn lemma_filed(records: Seq<RecordView>, record: RecordView, at: int)
    requires
        0 <= at <= records.len(),
        at > 0 ==> !listed_before(record, records[at - 1]),
        forall|i: int| at <= i < records.len() ==> listed_before(record, #[trigger] records[i]),
    ensures
        filed(records, record) == records.insert(at, record),
    decreases records.len(),
{
    if at < records.len() {
        lemma_filed(records.drop_last(), record, at);
        assert(records.drop_last().insert(at, record).push(records.last()) =~= records.insert(
            at,
            record,
        ));
    } else {
        assert(records.push(record) =~= records.insert(at, record));
    }
}

fn goes_before(left: &ProfileRecord, right: &ProfileRecord) -> (r: bool)
    ensures
        r == listed_before(left@, right@),
{
    stands_before(&left.created_at, &right.created_at) || (same_text(
        &left.created_at,
        &right.created_at,
    ) && stands_before(&left.id, &right.id))
}

fn file(records: &mut Vec<ProfileRecord>, record: ProfileRecord)
    ensures
        record_views(final(records)@) == filed(record_views(old(records)@), record@),
{
    let ghost before = record_views(records@);
    let ghost view = record@;
    let mut at: usize = records.len();
    while at > 0 && goes_before(&record, &records[at - 1])
        invariant
            at <= records@.len(),
            before == record_views(records@),
            view == record@,
            forall|i: int| at <= i < records@.len() ==> listed_before(view, #[trigger] before[i]),
        decreases at,
    {
        assert(before[at - 1] == records@[at - 1]@);
        at = at - 1;
    }
    proof {
        if at > 0 {
            assert(before[at - 1] == records@[at - 1]@);
        }
        lemma_filed(before, view, at as int);
    }
    records.insert(at, record);
    assert(record_views(records@) =~= before.insert(at as int, view));
}

/// The records after a profile was stored: renamed where it is there, otherwise as a new one, which
/// stands by when it was created and its identifier.
pub open spec fn stored(records: Seq<RecordView>, id: Seq<char>, name: Seq<char>, now: Seq<char>) -> Seq<
    RecordView,
> {
    if exists|at: int| record_at(records, id, at) {
        let at = choose|at: int| record_at(records, id, at);
        records.update(
            at,
            RecordView { provider_name: name, updated_at: now, ..records[at] },
        )
    } else {
        filed(records, RecordView { id, provider_name: name, created_at: now, updated_at: now })
    }
}

/// Stores a profile.
pub fn store_profile(store: &mut StoreSnapshot, id: &str, name: &str, now: &str)
    ensures
        final(store)@ == (StoreView {
            profiles: stored(old(store)@.profiles, id@, name@, now@),
            ..old(store)@
        }),
{
    let ghost before = record_views(store.profiles@);
    match find_record(&store.profiles, id) {
        Some(at) => {
            let record = ProfileRecord {
                id: id.to_owned(),
                provider_name: name.to_owned(),
                created_at: store.profiles[at].created_at.clone(),
                updated_at: now.to_owned(),
            };
            proof {
                let found = choose|at: int| record_at(before, id@, at);
                assert(record_at(before, id@, at as int));
                assert(record_at(before, id@, found));
                if found < at {
                    assert(before[found].id != id@);
                } else if at < found {
                    assert(before[at as int].id != id@);
                }
            }
            store.profiles.set(at, record);
            assert(record_views(store.profiles@) =~= stored(before, id@, name@, now@));
        },
        None => {
            proof {
                assert forall|at: int| !record_at(before, id@, at) by {
                    if record_at(before, id@, at) {
                        assert(before[at].id == id@);
                    }
                }
            }
            file(
                &mut store.profiles,
                ProfileRecord {
                    id: id.to_owned(),
                    provider_name: name.to_owned(),
                    created_at: now.to_owned(),
                    updated_at: now.to_owned(),
                },
            );
            assert(record_views(store.profiles@) =~= stored(before, id@, name@, now@));
        },
    }
}

proof fn lemma_filing_place(records: Seq<RecordView>, record: RecordView) -> (at: int)
    ensures
        0 <= at <= records.len(),
        at > 0 ==> !listed_before(record, records[at - 1]),
        forall|i: int| at <= i < records.len() ==> listed_before(record, #[trigger] records[i]),
        filed(records, record) == records.insert(at, record),
    decreases records.len(),
{
    if records.len() > 0 && listed_before(record, records.last()) {
        let at = lemma_filing_place(records.drop_last(), record);
        assert forall|i: int| at <= i < records.len() implies listed_before(
            record,
            #[trigger] records[i],
        ) by {
            if i < records.len() - 1 {
                assert(records.drop_last()[i] == records[i]);
            }
        }
        lemma_filed(records, record, at);
        at
    } else {
        lemma_filed(records, record, records.len() as int);
        records.len() as int
    }
}

proof fn lemma_listing_transitive(a: RecordView, b: RecordView, c: RecordView)
    requires
        !listed_before(b, a),
        !listed_before(c, b),
    ensures
        !listed_before(c, a),
{
    lemma_precedes_transitive(a.created_at, b.created_at, c.created_at);
    lemma_precedes_total(a.created_at, b.created_at);
    lemma_precedes_total(b.created_at, c.created_at);
    lemma_precedes_total(a.created_at, c.created_at);
    if a.created_at == c.created_at {
        lemma_precedes_transitive(a.id, b.id, c.id);
    }
}

/// Storing a profile keeps the records in the order in which they are listed, whatever time it is
/// given.
pub proof fn law_stored_profiles_keep_the_order(
    records: Seq<RecordView>,
    id: Seq<char>,
    name: Seq<char>,
    now: Seq<char>,
)
    requires
        listed_in_order(records),
    ensures
        listed_in_order(stored(records, id, name, now)),
{
    let after = stored(records, id, name, now);
    if exists|at: int| record_at(records, id, at) {
        let at = choose|at: int| record_at(records, id, at);
        assert(record_at(records, id, at));
        assert forall|i: int, j: int| 0 <= i < j < after.len() implies !listed_before(
            #[trigger] after[j],
            #[trigger] after[i],
        ) by {
            assert(!listed_before(records[j], records[i]));
        }
    } else {
        let record = RecordView { id, provider_name: name, created_at: now, updated_at: now };
        let at = lemma_filing_place(records, record);
        assert(forall|i: int| 0 <= i < at ==> (#[trigger] after[i]) == records[i]);
        assert(forall|i: int| at < i < after.len() ==> (#[trigger] after[i]) == records[i - 1]);
        assert forall|i: int, j: int| 0 <= i < j < after.len() implies !listed_before(
            #[trigger] after[j],
            #[trigger] after[i],
        ) by {
            if j == at {
                if i < at - 1 {
                    lemma_listing_transitive(records[i], records[at - 1], record);
                }
            } else if i == at {
                lemma_precedes_total(now, records[j - 1].created_at);
                lemma_precedes_total(id, records[j - 1].id);
            } else {
                let first = if i < at {
                    i
                } else {
                    i - 1
                };
                let second = if j < at {
                    j
                } else {
                    j - 1
                };
                assert(!listed_before(records[second], records[first]));
            }
        }
    }
}

/// Selects a profile.
pub fn select_profile(store: &mut StoreSnapshot, id: &str, now: &str)
    ensures
        final(store)@ == (StoreView { selection: Some((id@, now@)), ..old(store)@ }),
{
    store.selection = Some((id.to_owned(), now.to_owned()));
}

/// The records without those of an identifier.
pub open spec fn records_without(records: Seq<RecordView>, id: Seq<char>) -> Seq<RecordView>
    decreases records.len(),
{
    if records.len() == 0 {
        seq![]
    } else if records.last().id == id {
        records_without(records.drop_last(), id)
    } else {
        records_without(records.drop_last(), id).push(records.last())
    }
}

/// Why a profile cannot be deleted: it is the default one, unknown, or in use.
pub open spec fn delete_error(store: StoreView, id: Seq<char>, live_is_official: bool) -> Option<
    ErrorView,
> {
    if id == default_id() {
        Some(ErrorView::Config("不能删除默认官方配置"@))
    } else {
        match name_of(store, id) {
            Err(error) => Some(error),
            Ok(_) => if live_is_official && selected_id(store) == id {
                Some(ErrorView::Config("请先切换到其他配置，再删除当前官方配置"@))
            } else {
                None
            },
        }
    }
}

/// Deletes a profile. Where it was selected, the default one is from then on.
pub fn delete_official_profile_inner(
    store: &mut StoreSnapshot,
    id: &str,
    live_is_official: bool,
    now: &str,
) -> (r: Result<(), CodexxError>)
    ensures
        match delete_error(old(store)@, id@, live_is_official) {
            Some(error) => r matches Err(found) && found@ == error && final(store)@ == old(store)@,
            None => r is Ok && final(store)@ == (StoreView {
                profiles: records_without(old(store)@.profiles, id@),
                selection: if selected_id(old(store)@) == id@ {
                    Some((default_id(), now@))
                } else {
                    old(store)@.selection
                },
            }),
        },
{
    if same_text(id, "openai-official") {
        return Err(config("不能删除默认官方配置"));
    }
    if let Err(error) = profile_name(store, id) {
        return Err(error);
    }
    let selected: bool = same_text(&selected_profile_id(store), id);
    if live_is_official && selected {
        return Err(config("请先切换到其他配置，再删除当前官方配置"));
    }
    let ghost before = record_views(store.profiles@);
    let ghost start = store@;
    let mut records: Vec<ProfileRecord> = Vec::new();
    let mut i: usize = 0;
    assert(record_views(records@) =~= seq![]);
    while i < store.profiles.len()
        invariant
            i <= store.profiles@.len(),
            before == record_views(store.profiles@),
            store@ == start,
            record_views(records@) == records_without(before.take(i as int), id@),
        decreases store.profiles@.len() - i,
    {
        assert(before.take(i + 1).drop_last() =~= before.take(i as int));
        if !same_text(&store.profiles[i].id, id) {
            let ghost earlier = records@;
            records.push(store.profiles[i].clone());
            assert(record_views(records@) =~= record_views(earlier).push(before[i as int]));
        }
        i = i + 1;
    }
    assert(before.take(before.len() as int) =~= before);
    store.profiles = records;
    if selected {
        select_profile(store, "openai-official", now);
    }
    Ok(())
}

fn same_store(left: &StoreSnapshot, right: &StoreSnapshot) -> (r: bool)
    ensures
        r == (left@ == right@),
{
    let same_selection: bool = match (&left.selection, &right.selection) {
        (Some((a, b)), Some((c, d))) => same_text(a, c) && same_text(b, d),
        (None, None) => true,
        _ => false,
    };
    if !same_selection {
        return false;
    }
    let ghost a = record_views(left.profiles@);
    let ghost b = record_views(right.profiles@);
    if left.profiles.len() != right.profiles.len() {
        assert(a.len() != b.len());
        return false;
    }
    let mut i: usize = 0;
    while i < left.profiles.len()
        invariant
            i <= left.profiles@.len(),
            left.profiles@.len() == right.profiles@.len(),
            a == record_views(left.profiles@),
            b == record_views(right.profiles@),
            left@.selection == right@.selection,
            forall|j: int| 0 <= j < i ==> a[j] == b[j],
        decreases left.profiles@.len() - i,
    {
        let x = &left.profiles[i];
        let y = &right.profiles[i];
        if !(same_text(&x.id, &y.id) && same_text(&x.provider_name, &y.provider_name) && same_text(
            &x.created_at,
            &y.created_at,
        ) && same_text(&x.updated_at, &y.updated_at)) {
            assert(a[i as int] != b[i as int]);
            return false;
        }
        assert(a[i as int] == b[i as int]);
        i = i + 1;
    }
    assert(a =~= b);
    true
}

/// What is kept of a profile before and after it was changed.
#[derive(Debug)]
pub struct SnapshotChange {
    pub profile_id: String,
    pub before: Option<Vec<u8>>,
    pub after: Option<Vec<u8>>,
}

/// Everything that a change to official profiles has done so far.
#[derive(Debug)]
pub struct Mutation {
    pub store_before: StoreSnapshot,
    pub store_after: Option<StoreSnapshot>,
    pub snapshots: Vec<SnapshotChange>,
    pub live: Option<AppliedLiveFiles>,
    /// Whether the live third-party provider was saved.
    pub provider_saved: bool,
}

/// A part of a change that is to be undone.
#[derive(Debug)]
pub enum UndoStep {
    /// The live files. Where this fails, nothing else is undone.
    Live,
    /// What is kept of a profile: put back while it still holds `expected`.
    Snapshot { profile_id: String, expected: Option<Vec<u8>>, original: Option<Vec<u8>> },
    /// The records of the profiles.
    Store,
    /// The saved third-party provider.
    Provider,
}

/// A part of a change that is to be undone, as contracts speak of it.
pub ghost enum UndoView {
    Live,
    Snapshot { profile_id: Seq<char>, expected: Option<Seq<u8>>, original: Option<Seq<u8>> },
    Store,
    Provider,
}

impl View for UndoStep {
    type V = UndoView;

    open spec fn view(&self) -> UndoView {
        match self {
            UndoStep::Live => UndoView::Live,
            UndoStep::Snapshot { profile_id, expected, original } => UndoView::Snapshot {
                profile_id: profile_id@,
                expected: opt_bytes(*expected),
                original: opt_bytes(*original),
            },
            UndoStep::Store => UndoView::Store,
            UndoStep::Provider => UndoView::Provider,
        }
    }
}

/// The undoing of the changed snapshots, the last one first.
pub open spec fn snapshot_undos(snapshots: Seq<SnapshotChange>) -> Seq<UndoView> {
    Seq::new(
        snapshots.len(),
        |i: int|
            {
                let change = snapshots[snapshots.len() - 1 - i];
                UndoView::Snapshot {
                    profile_id: change.profile_id@,
                    expected: opt_bytes(change.after),
                    original: opt_bytes(change.before),
                }
            },
    )
}

/// The steps that undo a change, in order: the live files, what is kept of the profiles in
/// reverse, their records, the saved provider.
pub open spec fn undo_steps(mutation: Mutation) -> Seq<UndoView> {
    (if mutation.live is Some {
        seq![UndoView::Live]
    } else {
        seq![]
    }) + snapshot_undos(mutation.snapshots@) + (if mutation.store_after is Some {
        seq![UndoView::Store]
    } else {
        seq![]
    }) + (if mutation.provider_saved {
        seq![UndoView::Provider]
    } else {
        seq![]
    })
}

/// Undo steps, as contracts speak of them.
pub open spec fn undo_views(steps: Seq<UndoStep>) -> Seq<UndoView> {
    steps.map_values(|step: UndoStep| step@)
}

/// The texts of errors.
pub open spec fn error_texts(errors: Seq<CodexxError>) -> Seq<Seq<char>> {
    errors.map_values(|error: CodexxError| error_text(error@))
}

impl Mutation {
    /// A change that has done nothing yet.
    pub fn new(store: StoreSnapshot) -> (r: Mutation)
        ensures
            r.store_before == store,
            r.store_after is None,
            r.snapshots@.len() == 0,
            r.live is None,
            !r.provider_saved,
            undo_steps(r).len() == 0,
    {
        let r = Mutation {
            store_before: store,
            store_after: None,
            snapshots: Vec::new(),
            live: None,
            provider_saved: false,
        };
        assert(undo_steps(r) =~= seq![]);
        r
    }

    /// Records that what is kept of a profile was changed.
    pub fn snapshot(&mut self, profile_id: &str, before: Option<Vec<u8>>, after: Option<Vec<u8>>)
        ensures
            final(self).snapshots@.len() == old(self).snapshots@.len() + 1,
            final(self).snapshots@.drop_last() == old(self).snapshots@,
            final(self).snapshots@.last().profile_id@ == profile_id@,
            final(self).snapshots@.last().before == before,
            final(self).snapshots@.last().after == after,
            final(self).store_before == old(self).store_before,
            final(self).store_after == old(self).store_after,
            final(self).live == old(self).live,
            final(self).provider_saved == old(self).provider_saved,
    {
        self.snapshots.push(SnapshotChange { profile_id: profile_id.to_owned(), before, after });
        assert(self.snapshots@.drop_last() =~= old(self).snapshots@);
    }

    /// The steps that undo the change, in order.
    pub fn undo_plan(&self) -> (r: Vec<UndoStep>)
        ensures
            undo_views(r@) == undo_steps(*self),
    {
        let mut steps: Vec<UndoStep> = Vec::new();
        if self.live.is_some() {
            steps.push(UndoStep::Live);
        }
        let ghost head = undo_views(steps@);
        let ghost wanted = snapshot_undos(self.snapshots@);
        let ghost first: Seq<UndoView> = if self.live is Some {
            seq![UndoView::Live]
        } else {
            seq![]
        };
        let mut i: usize = 0;
        assert(head =~= first);
        assert(head + wanted.take(0) =~= head);
        while i < self.snapshots.len()
            invariant
                i <= self.snapshots@.len(),
                wanted == snapshot_undos(self.snapshots@),
                head == first,
                undo_views(steps@) == head + wanted.take(i as int),
            decreases self.snapshots@.len() - i,
        {
            let change = &self.snapshots[self.snapshots.len() - 1 - i];
            let ghost before = steps@;
            steps.push(
                UndoStep::Snapshot {
                    profile_id: change.profile_id.clone(),
                    expected: copy_opt_bytes(&change.after),
                    original: copy_opt_bytes(&change.before),
                },
            );
            assert(undo_views(steps@) =~= undo_views(before).push(wanted[i as int]));
            assert(undo_views(steps@) =~= head + wanted.take(i + 1));
            i = i + 1;
        }
        assert(wanted.take(wanted.len() as int) =~= wanted);
        if self.store_after.is_some() {
            steps.push(UndoStep::Store);
        }
        if self.provider_saved {
            steps.push(UndoStep::Provider);
        }
        assert(undo_views(steps@) =~= undo_steps(*self));
        steps
    }

    /// The error of a change that was undone, given the errors of undoing it. Where the live files
    /// could not be put back, everything else was left, so that they can be recovered.
    pub fn rollback(error: CodexxError, live: Option<CodexxError>, failures: &Vec<CodexxError>) -> (r:
        CodexxError)
        ensures
            r@ == match live {
                Some(live) => ErrorView::Config(
                    error_text(error@) + "；live 配置回滚失败，已保留账号恢复快照："@
                        + error_text(live@),
                ),
                None => if failures@.len() == 0 {
                    error@
                } else {
                    ErrorView::Config(
                        error_text(error@) + "；回滚失败："@ + joined_by(
                            error_texts(failures@),
                            "；"@,
                        ),
                    )
                },
            },
    {
        if let Some(live) = live {
            return CodexxError::Config(
                joined3(
                    &error.text(),
                    "；live 配置回滚失败，已保留账号恢复快照：",
                    &live.text(),
                ),
            );
        }
        if failures.len() == 0 {
            return error;
        }
        let ghost texts = error_texts(failures@);
        let mut list = failures[0].text();
        let mut i: usize = 1;
        assert(texts.take(1) =~= seq![texts[0]]);
        while i < failures.len()
            invariant
                1 <= i <= failures@.len(),
                texts == error_texts(failures@),
                list@ == joined_by(texts.take(i as int), "；"@),
            decreases failures@.len() - i,
        {
            assert(texts.take(i + 1).drop_last() =~= texts.take(i as int));
            list.append("；");
            list.append(&failures[i].text());
            i = i + 1;
        }
        assert(texts.take(texts.len() as int) =~= texts);
        CodexxError::Config(joined3(&error.text(), "；回滚失败：", &list))
    }

    /// The records that are put back when a change is undone: those before it, unless something
    /// else changed them since.
    pub fn restored_store(&self, current: &StoreSnapshot) -> (r: Result<StoreSnapshot, CodexxError>)
        ensures
            match self.store_after {
                Some(after) if after@ != current@ => r matches Err(error) && error@
                    == ErrorView::Config("官方配置记录已被其他操作修改，拒绝覆盖"@),
                _ => r matches Ok(store) && store@ == self.store_before@,
            },
    {
        if let Some(after) = &self.store_after {
            if !same_store(current, after) {
                return Err(config("官方配置记录已被其他操作修改，拒绝覆盖"));
            }
        }
        Ok(self.store_before.clone())
    }
}

/// Whether `n` is the first number from 2 on that makes a copy's name which is not taken.
pub open spec fn first_free_copy(taken: Seq<Seq<char>>, base: Seq<char>, n: nat) -> bool {
    &&& n >= 2
    &&& !taken.contains(copy_name(base, Some(n)))
    &&& forall|k: nat| 2 <= k < n ==> taken.contains(#[trigger] copy_name(base, Some(k)))
}

/// The name of a copy that is not taken: without a number if possible, otherwise with the first
/// number from 2 on.
pub open spec fn free_copy_name(taken: Seq<Seq<char>>, base: Seq<char>) -> Seq<char> {
    if taken.contains(copy_name(base, None)) {
        copy_name(base, Some(choose|n: nat| first_free_copy(taken, base, n)))
    } else {
        copy_name(base, None)
    }
}

proof fn lemma_decimal_digits(n: nat)
    ensures
        forall|i: int| 0 <= i < decimal(n).len() ==> is_digit(#[trigger] decimal(n)[i]),
    decreases n,
{
    if n >= 10 {
        lemma_decimal_digits(n / 10);
        assert forall|i: int| 0 <= i < decimal(n).len() implies is_digit(
            #[trigger] decimal(n)[i],
        ) by {
            if i < decimal(n / 10).len() {
                assert(decimal(n)[i] == decimal(n / 10)[i]);
            } else {
                assert(decimal(n)[i] as int == 48 + n % 10);
            }
        }
    } else {
        assert(decimal(n)[0] as int == 48 + n);
    }
}

/// Copies of different numbers have different names.
pub proof fn law_copy_numbers_show(base: Seq<char>, a: nat, b: nat)
    requires
        copy_name(base, Some(a)) == copy_name(base, Some(b)),
    ensures
        a == b,
{
    reveal_strlit(" ");
    lemma_decimal_digits(a);
    lemma_decimal_digits(b);
    let (stem, marker) = copy_parts(trimmed(base));
    let left = copy_name(base, Some(a));
    let right = copy_name(base, Some(b));
    let i = left.len() - 1 - decimal(a).len();
    let j = right.len() - 1 - decimal(b).len();
    assert(left[i] == ' ');
    assert(right[j] == ' ');
    assert(left.subrange(i + 1, left.len() as int) =~= decimal(a));
    assert(right.subrange(j + 1, right.len() as int) =~= decimal(b));
    if i < j {
        assert(left[j] == decimal(a)[j - i - 1]);
    } else if j < i {
        assert(right[i] == decimal(b)[i - j - 1]);
    }
    lemma_decimal_injective(a, b);
}

/// As long as every number from 2 up to `n` is taken, there are at least that many taken names.
pub proof fn lemma_copies_bound(taken: Seq<Seq<char>>, base: Seq<char>, n: nat)
    requires
        n >= 2,
        forall|k: nat| 2 <= k < n ==> taken.contains(#[trigger] copy_name(base, Some(k))),
    ensures
        n - 2 <= taken.len(),
    decreases n,
{
    if n > 2 {
        let last = (n - 1) as nat;
        assert(taken.contains(copy_name(base, Some(last))));
        let at = taken.index_of(copy_name(base, Some(last)));
        let rest = taken.remove(at);
        assert forall|k: nat| 2 <= k < last implies rest.contains(
            #[trigger] copy_name(base, Some(k)),
        ) by {
            let text = copy_name(base, Some(k));
            assert(taken.contains(text));
            let i = taken.index_of(text);
            if i == at {
                law_copy_numbers_show(base, k, last);
            }
            if i < at {
                assert(rest[i] == text);
            } else {
                assert(rest[i - 1] == text);
            }
        }
        lemma_copies_bound(rest, base, last);
    }
}

/// The names that a copy may not have: those of all profiles, the default one included.
pub open spec fn taken_names(store: StoreView) -> Seq<Seq<char>> {
    let default_name = match record_of(store.profiles, default_id()) {
        Some(record) => record.provider_name,
        None => "OpenAI Official"@,
    };
    store.profiles.map_values(|record: RecordView| record.provider_name).push(default_name)
}

fn is_taken(store: &StoreSnapshot, default_name: &str, name: &str) -> (r: bool)
    requires
        taken_names(store@).last() == default_name@,
    ensures
        r == taken_names(store@).contains(name@),
{
    let ghost taken = taken_names(store@);
    if same_text(default_name, name) {
        assert(taken[taken.len() - 1] == name@);
        return true;
    }
    let mut i: usize = 0;
    while i < store.profiles.len()
        invariant
            i <= store.profiles@.len(),
            taken == taken_names(store@),
            taken.len() == store.profiles@.len() + 1,
            taken.last() == default_name@,
            default_name@ != name@,
            forall|j: int| 0 <= j < i ==> taken[j] != name@,
        decreases store.profiles@.len() - i,
    {
        if same_text(&store.profiles[i].provider_name, name) {
            assert(taken[i as int] == name@);
            return true;
        }
        i = i + 1;
    }
    false
}

/// What a copy of an official profile is saved from: everything of the source, under a name that
/// no profile has.
pub fn duplicate_official_profile_inner(
    store: &StoreSnapshot,
    source: &OfficialProfileDetail,
    provider_name: &Option<String>,
) -> (r: OfficialProfileInput)
    ensures
        r.id is None,
        r.provider_name@ == free_copy_name(
            taken_names(store@),
            match *provider_name {
                Some(name) => name@,
                None => source.profile.provider_name@ + " 副本"@,
            },
        ),
        !taken_names(store@).contains(r.provider_name@),
        r.provider_name@.len() <= 100,
        opt_view(r.model) == opt_view(source.profile.model),
        opt_view(r.config_text) == Some(source.config_text@),
        opt_view(r.auth_json) == Some(source.auth_json@),
{
    let base = match provider_name {
        Some(name) => name.clone(),
        None => joined(&source.profile.provider_name, " 副本"),
    };
    let default_name = match find_record(&store.profiles, "openai-official") {
        Some(at) => store.profiles[at].provider_name.clone(),
        None => "OpenAI Official".to_owned(),
    };
    let ghost taken = taken_names(store@);
    let mut name = bounded_copy_name(&base, None);
    if is_taken(store, &default_name, &name) {
        let count: usize = store.profiles.len();
        let mut suffix: u128 = 2;
        name = bounded_copy_name(&base, Some(suffix));
        while is_taken(store, &default_name, &name)
            invariant
                taken == taken_names(store@),
                taken.len() == count + 1,
                taken.last() == default_name@,
                2 <= suffix,
                name@.len() <= 100,
                name@ == copy_name(base@, Some(suffix as nat)),
                forall|k: nat|
                    2 <= k < suffix ==> taken.contains(#[trigger] copy_name(base@, Some(k))),
            decreases taken.len() + 3 - suffix,
        {
            proof {
                assert forall|k: nat| 2 <= k < suffix + 1 implies taken.contains(
                    #[trigger] copy_name(base@, Some(k)),
                ) by {}
                lemma_copies_bound(taken, base@, (suffix + 1) as nat);
            }
            suffix = suffix + 1;
            name = bounded_copy_name(&base, Some(suffix));
        }
        proof {
            assert(first_free_copy(taken, base@, suffix as nat));
            let found = choose|n: nat| first_free_copy(taken, base@, n);
            assert(first_free_copy(taken, base@, found));
            if found < suffix {
                assert(taken.contains(copy_name(base@, Some(found))));
            } else if suffix < found {
                assert(taken.contains(copy_name(base@, Some(suffix as nat))));
            }
        }
    }
    OfficialProfileInput {
        id: None,
        provider_name: name,
        model: copy_opt(&source.profile.model),
        config_text: Some(source.config_text.clone()),
        auth_json: Some(source.auth_json.clone()),
    }
}

spec fn power_of_ten(digits: nat) -> nat
    decreases digits,
{
    if digits == 0 {
        1
    } else {
        10 * power_of_ten((digits - 1) as nat)
    }
}

proof fn lemma_decimal_length(n: nat, digits: nat)
    requires
        digits > 0,
        n < power_of_ten(digits),
    ensures
        decimal(n).len() <= digits,
    decreases digits,
{
    reveal_with_fuel(power_of_ten, 2);
    if n >= 10 {
        lemma_decimal_length(n / 10, (digits - 1) as nat);
    }
}

/// A copy's name is short enough for a profile, whatever number it has.
pub proof fn law_copy_names_fit(base: Seq<char>, ordinal: Option<nat>)
    requires
        ordinal matches Some(n) ==> n <= u128::MAX,
    ensures
        copy_name(base, ordinal).len() <= 100,
{
    reveal_strlit(" 副本");
    reveal_strlit(" Copy");
    reveal_strlit(" ");
    if let Some(n) = ordinal {
        assert(power_of_ten(39) > u128::MAX) by {
            reveal_with_fuel(power_of_ten, 40);
        }
        lemma_decimal_length(n, 39);
    }
    let (stem, marker) = copy_parts(trimmed(base));
    let ending = copy_ending(marker, ordinal);
    assert(ending.len() <= 45);
    lemma_trimmed_end(at_most(stem, 100 - ending.len()));
}

/// A selected profile always exists: it is the default one or has a record.
pub proof fn law_selected_profile_exists(store: StoreView)
    ensures
        selected_id(store) == default_id() || has_record(store.profiles, selected_id(store)),
{
}

/// After a profile is deleted no record of it is left, every other record is, and it is not
/// selected.
pub proof fn law_deleted_profile_is_gone(records: Seq<RecordView>, id: Seq<char>)
    ensures
        !has_record(records_without(records, id), id),
        forall|other: Seq<char>|
            other != id ==> #[trigger] has_record(records_without(records, id), other)
                == has_record(records, other),
    decreases records.len(),
{
    if records.len() > 0 {
        let head = records.drop_last();
        let rest = records_without(head, id);
        law_deleted_profile_is_gone(head, id);
        assert forall|other: Seq<char>| other != id implies #[trigger] has_record(
            records_without(records, id),
            other,
        ) == has_record(records, other) by {
            assert(has_record(rest, other) == has_record(head, other));
            if has_record(records, other) {
                let i = choose|i: int|
                    0 <= i < records.len() && (#[trigger] records[i]).id == other;
                if i < head.len() {
                    assert(head[i].id == other);
                    let j = choose|j: int| 0 <= j < rest.len() && (#[trigger] rest[j]).id == other;
                    assert(records_without(records, id)[j].id == other);
                } else {
                    let whole = records_without(records, id);
                    assert(whole[whole.len() - 1].id == other);
                }
            }
            if has_record(records_without(records, id), other) {
                let whole = records_without(records, id);
                let j = choose|j: int| 0 <= j < whole.len() && (#[trigger] whole[j]).id == other;
                if j < rest.len() {
                    assert(rest[j].id == other);
                    let i = choose|i: int| 0 <= i < head.len() && (#[trigger] head[i]).id == other;
                    assert(records[i].id == other);
                } else {
                    assert(records[records.len() - 1].id == other);
                }
            }
        }
        if has_record(records_without(records, id), id) {
            let whole = records_without(records, id);
            let j = choose|j: int| 0 <= j < whole.len() && (#[trigger] whole[j]).id == id;
            if j < rest.len() {
                assert(rest[j].id == id);
            }
        }
    }
}

} // verus!
