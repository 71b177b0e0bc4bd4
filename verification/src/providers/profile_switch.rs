//! What a switch to an official profile and a save of one do, step by step, and what that makes of
//! the logins of all profiles.
use crate::error::CodexxError;
use crate::json::{opt_json, JsonView};
use crate::providers::live_toml::{AuthActionView, LiveAuthAction};
use crate::providers::official_display::{parse_auth, parsed_auth};
use crate::providers::official_profiles::{
    profile_auth_action, selected_id, selected_profile_id, OfficialProfileDetail, ProfileSave,
    StoreSnapshot, StoreView,
};
use crate::text::{joined, joined3};
use serde_json::Value;
use vstd::prelude::*;

verus! {

/// A step of a switch or a save.
#[derive(Debug)]
pub enum ProfileStep {
    /// What the live files hold is kept for this profile.
    Capture { profile_id: String },
    /// The third-party provider that the live files use is saved, if there is one.
    SaveProvider,
    /// The live files are written.
    Write,
    /// What was written, or is to be written later, is kept for this profile.
    Keep { profile_id: String },
    /// The profile is stored under a name and, where that is asked for, selected, both at once.
    Record { profile_id: String, name: String, select: bool },
    /// The profile is selected.
    Select { profile_id: String },
}

/// A step of a switch or a save, as contracts speak of it.
pub ghost enum ProfileStepView {
    Capture { profile_id: Seq<char> },
    SaveProvider,
    Write,
    Keep { profile_id: Seq<char> },
    Record { profile_id: Seq<char>, name: Seq<char>, select: bool },
    Select { profile_id: Seq<char> },
}

impl View for ProfileStep {
    type V = ProfileStepView;

    open spec fn view(&self) -> ProfileStepView {
        match self {
            ProfileStep::Capture { profile_id } => ProfileStepView::Capture {
                profile_id: profile_id@,
            },
            ProfileStep::SaveProvider => ProfileStepView::SaveProvider,
            ProfileStep::Write => ProfileStepView::Write,
            ProfileStep::Keep { profile_id } => ProfileStepView::Keep { profile_id: profile_id@ },
            ProfileStep::Record { profile_id, name, select } => ProfileStepView::Record {
                profile_id: profile_id@,
                name: name@,
                select: *select,
            },
            ProfileStep::Select { profile_id } => ProfileStepView::Select {
                profile_id: profile_id@,
            },
        }
    }
}

/// Steps, as contracts speak of them.
pub open spec fn profile_steps(steps: Seq<ProfileStep>) -> Seq<ProfileStepView> {
    steps.map_values(|step: ProfileStep| step@)
}

/// The steps before a profile takes the live files over: what they hold belongs to the selected
/// profile while the route is official, and to a third-party provider otherwise.
pub open spec fn takeover(store: StoreView, live_is_official: bool) -> Seq<ProfileStepView> {
    (if live_is_official {
        seq![ProfileStepView::Capture { profile_id: selected_id(store) }]
    } else {
        seq![]
    }).push(ProfileStepView::SaveProvider)
}

/// The steps of a switch to a profile.
pub open spec fn switch_plan(store: StoreView, id: Seq<char>, live_is_official: bool) -> Seq<
    ProfileStepView,
> {
    takeover(store, live_is_official).push(ProfileStepView::Write).push(
        ProfileStepView::Keep { profile_id: id },
    ).push(ProfileStepView::Select { profile_id: id })
}

/// The steps of a save of a profile, which may be activated as well.
pub open spec fn save_plan(
    store: StoreView,
    id: Seq<char>,
    name: Seq<char>,
    activate: bool,
    writes_live: bool,
    live_is_official: bool,
) -> Seq<ProfileStepView> {
    let before = if activate {
        takeover(store, live_is_official)
    } else {
        seq![]
    };
    let written = if writes_live {
        before.push(ProfileStepView::Write)
    } else {
        before
    };
    written.push(ProfileStepView::Keep { profile_id: id }).push(
        ProfileStepView::Record { profile_id: id, name, select: activate },
    )
}

/// A switch to a profile or a save of one that is ready to be performed.
#[derive(Debug)]
pub struct PreparedProfile {
    pub steps: Vec<ProfileStep>,
    /// The credential of the profile.
    pub auth: Option<Value>,
    /// What becomes of the live credential where the live files are written.
    pub auth_action: LiveAuthAction,
    pub message: String,
}

fn take_over(store: &StoreSnapshot, live_is_official: bool) -> (r: Vec<ProfileStep>)
    ensures
        profile_steps(r@) == takeover(store@, live_is_official),
{
    let mut steps: Vec<ProfileStep> = Vec::new();
    if live_is_official {
        steps.push(ProfileStep::Capture { profile_id: selected_profile_id(store) });
    }
    steps.push(ProfileStep::SaveProvider);
    assert(profile_steps(steps@) =~= takeover(store@, live_is_official));
    steps
}

/// What becomes of the live credential when a credential takes the live files over.
pub open spec fn owned_auth_action(auth: Option<JsonView>) -> AuthActionView {
    match auth {
        Some(auth) => AuthActionView::Replace(auth),
        None => AuthActionView::Remove,
    }
}

/// Prepares a switch to an official profile. The live credential becomes that of the profile, or
/// none; it is never left to be used by another profile.
pub fn switch_official_profile_with_before_apply(
    store: &StoreSnapshot,
    target: &OfficialProfileDetail,
    live_is_official: bool,
) -> (r: Result<PreparedProfile, CodexxError>)
    ensures
        match parsed_auth(target.auth_json@) {
            Err(error) => r matches Err(found) && found@ == error,
            Ok(auth) => r matches Ok(prepared) && {
                &&& profile_steps(prepared.steps@) == switch_plan(
                    store@,
                    target.profile.id@,
                    live_is_official,
                )
                &&& opt_json(prepared.auth) == auth
                &&& prepared.auth_action@ == owned_auth_action(auth)
                &&& prepared.message@ == if target.profile.has_auth {
                    "已切换到 "@ + target.profile.provider_name@
                } else {
                    "已切换到 "@ + target.profile.provider_name@ + "，请在 Codex 中完成登录"@
                }
            },
        },
{
    let auth = match parse_auth(&target.auth_json) {
        Ok(auth) => auth,
        Err(error) => return Err(error),
    };
    let mut steps = take_over(store, live_is_official);
    steps.push(ProfileStep::Write);
    steps.push(ProfileStep::Keep { profile_id: target.profile.id.clone() });
    steps.push(ProfileStep::Select { profile_id: target.profile.id.clone() });
    assert(profile_steps(steps@) =~= switch_plan(store@, target.profile.id@, live_is_official));
    let message = if target.profile.has_auth {
        joined("已切换到 ", &target.profile.provider_name)
    } else {
        joined3("已切换到 ", &target.profile.provider_name, "，请在 Codex 中完成登录")
    };
    let auth_action = profile_auth_action(&auth);
    Ok(PreparedProfile { steps, auth, auth_action, message })
}

/// Prepares a save of an official profile under an identifier, once its configuration is settled.
/// A credential that is not an official one is refused.
pub fn save_official_profile_inner(
    store: &StoreSnapshot,
    id: &str,
    save: &ProfileSave,
    activate: bool,
    live_is_official: bool,
) -> (r: Result<PreparedProfile, CodexxError>)
    ensures
        match parsed_auth(save.auth_text@) {
            Err(error) => r matches Err(found) && found@ == error,
            Ok(auth) => r matches Ok(prepared) && {
                &&& profile_steps(prepared.steps@) == save_plan(
                    store@,
                    id@,
                    save.name@,
                    activate,
                    save.writes_live,
                    live_is_official,
                )
                &&& opt_json(prepared.auth) == auth
                &&& prepared.auth_action@ == owned_auth_action(auth)
                &&& prepared.message@ == save.message@
            },
        },
{
    let auth = match parse_auth(&save.auth_text) {
        Ok(auth) => auth,
        Err(error) => return Err(error),
    };
    let mut steps: Vec<ProfileStep> = if activate {
        take_over(store, live_is_official)
    } else {
        Vec::new()
    };
    if save.writes_live {
        steps.push(ProfileStep::Write);
    }
    steps.push(ProfileStep::Keep { profile_id: id.to_owned() });
    steps.push(
        ProfileStep::Record {
            profile_id: id.to_owned(),
            name: save.name.clone(),
            select: activate,
        },
    );
    assert(profile_steps(steps@) =~= save_plan(
        store@,
        id@,
        save.name@,
        activate,
        save.writes_live,
        live_is_official,
    ));
    let auth_action = profile_auth_action(&auth);
    Ok(PreparedProfile { steps, auth, auth_action, message: save.message.clone() })
}

/// Who is logged in where: the live credential, and what is kept for each profile.
pub ghost struct Accounts {
    /// Whether the live route is official.
    pub official: bool,
    /// The selected profile.
    pub selected: Seq<char>,
    /// The live credential.
    pub live: Option<JsonView>,
    /// The credentials that are kept, by profile.
    pub kept: Map<Seq<char>, Option<JsonView>>,
}

/// The login of a profile: the live credential while it is in use, otherwise what is kept of it.
pub open spec fn login_of(accounts: Accounts, id: Seq<char>) -> Option<JsonView> {
    if accounts.official && accounts.selected == id {
        accounts.live
    } else if accounts.kept.contains_key(id) {
        accounts.kept[id]
    } else {
        None
    }
}

/// What a step makes of the accounts, where the profile at hand has this login.
pub open spec fn performed(
    accounts: Accounts,
    step: ProfileStepView,
    login: Option<JsonView>,
) -> Accounts {
    match step {
        ProfileStepView::Capture { profile_id } => Accounts {
            kept: accounts.kept.insert(profile_id, accounts.live),
            ..accounts
        },
        ProfileStepView::SaveProvider => accounts,
        ProfileStepView::Write => Accounts { official: true, live: login, ..accounts },
        ProfileStepView::Keep { profile_id } => Accounts {
            kept: accounts.kept.insert(profile_id, login),
            ..accounts
        },
        ProfileStepView::Record { profile_id, select, .. } => if select {
            Accounts { selected: profile_id, ..accounts }
        } else {
            accounts
        },
        ProfileStepView::Select { profile_id } => Accounts { selected: profile_id, ..accounts },
    }
}

/// What steps make of the accounts, performed in order.
pub open spec fn performed_all(
    accounts: Accounts,
    steps: Seq<ProfileStepView>,
    login: Option<JsonView>,
) -> Accounts
    decreases steps.len(),
{
    if steps.len() == 0 {
        accounts
    } else {
        performed(performed_all(accounts, steps.drop_last(), login), steps.last(), login)
    }
}

/// The accounts after a third-party provider took the live files over: what they held was kept for
/// the selected profile.
pub open spec fn left_for_third_party(accounts: Accounts, live: Option<JsonView>) -> Accounts {
    Accounts {
        official: false,
        live,
        kept: if accounts.official {
            accounts.kept.insert(accounts.selected, accounts.live)
        } else {
            accounts.kept
        },
        ..accounts
    }
}

/// The accounts after a switch to a profile.
pub open spec fn switched(store: StoreView, accounts: Accounts, id: Seq<char>) -> Accounts {
    performed_all(accounts, switch_plan(store, id, accounts.official), login_of(accounts, id))
}

proof fn lemma_push(
    accounts: Accounts,
    steps: Seq<ProfileStepView>,
    step: ProfileStepView,
    login: Option<JsonView>,
)
    ensures
        performed_all(accounts, steps.push(step), login) == performed(
            performed_all(accounts, steps, login),
            step,
            login,
        ),
{
    assert(steps.push(step).drop_last() =~= steps);
}

proof fn lemma_takeover(store: StoreView, accounts: Accounts, login: Option<JsonView>)
    ensures
        performed_all(accounts, takeover(store, accounts.official), login) == (Accounts {
            kept: if accounts.official {
                accounts.kept.insert(selected_id(store), accounts.live)
            } else {
                accounts.kept
            },
            ..accounts
        }),
{
    let first: Seq<ProfileStepView> = seq![];
    lemma_push(accounts, first, ProfileStepView::SaveProvider, login);
    assert(performed_all(accounts, first, login) == accounts);
    if accounts.official {
        let capture = ProfileStepView::Capture { profile_id: selected_id(store) };
        lemma_push(accounts, first, capture, login);
        assert(seq![capture] =~= first.push(capture));
        lemma_push(accounts, seq![capture], ProfileStepView::SaveProvider, login);
    }
}

/// A switch makes the login of its profile the live one, and no profile loses or changes its login
/// by it: a login that was refreshed while its profile was in use comes back with that profile.
pub proof fn law_switch_keeps_every_login(store: StoreView, accounts: Accounts, id: Seq<char>)
    requires
        selected_id(store) == accounts.selected,
    ensures
        switched(store, accounts, id).official,
        switched(store, accounts, id).selected == id,
        switched(store, accounts, id).live == login_of(accounts, id),
        forall|other: Seq<char>| #[trigger]
            login_of(switched(store, accounts, id), other) == login_of(accounts, other),
{
    let login = login_of(accounts, id);
    let before = takeover(store, accounts.official);
    let written = before.push(ProfileStepView::Write);
    let kept = written.push(ProfileStepView::Keep { profile_id: id });
    lemma_takeover(store, accounts, login);
    lemma_push(accounts, before, ProfileStepView::Write, login);
    lemma_push(accounts, written, ProfileStepView::Keep { profile_id: id }, login);
    lemma_push(accounts, kept, ProfileStepView::Select { profile_id: id }, login);
}

/// A third-party provider that takes the live files over changes the login of no profile, whatever
/// credential it puts there.
pub proof fn law_third_party_changes_no_login(
    accounts: Accounts,
    live: Option<JsonView>,
    id: Seq<char>,
)
    ensures
        login_of(left_for_third_party(accounts, live), id) == login_of(accounts, id),
{
}

/// A profile that was left for another one, for a third-party provider or for both comes back with
/// the login that it had when it was left.
pub proof fn law_profile_comes_back_with_its_login(
    store: StoreView,
    later: StoreView,
    last: StoreView,
    accounts: Accounts,
    other: Seq<char>,
    live: Option<JsonView>,
)
    requires
        accounts.official,
        selected_id(store) == accounts.selected,
        selected_id(later) == other,
        selected_id(last) == accounts.selected,
    ensures
        switched(later, switched(store, accounts, other), accounts.selected).live == accounts.live,
        switched(last, left_for_third_party(accounts, live), accounts.selected).live
            == accounts.live,
        switched(
            later,
            left_for_third_party(switched(store, accounts, other), live),
            accounts.selected,
        ).live == accounts.live,
{
    let there = switched(store, accounts, other);
    law_switch_keeps_every_login(store, accounts, other);
    assert(login_of(there, accounts.selected) == login_of(accounts, accounts.selected));
    law_switch_keeps_every_login(later, there, accounts.selected);
    law_third_party_changes_no_login(accounts, live, accounts.selected);
    law_switch_keeps_every_login(last, left_for_third_party(accounts, live), accounts.selected);
    law_third_party_changes_no_login(there, live, accounts.selected);
    law_switch_keeps_every_login(later, left_for_third_party(there, live), accounts.selected);
}

/// A save of a profile changes the login of that profile and of no other one, whether or not it is
/// activated, and never makes the live route use a login that belongs to another profile.
pub proof fn law_save_changes_one_login(
    store: StoreView,
    accounts: Accounts,
    id: Seq<char>,
    name: Seq<char>,
    activate: bool,
    login: Option<JsonView>,
)
    requires
        selected_id(store) == accounts.selected,
    ensures
        ({
            let current = accounts.official && accounts.selected == id;
            let after = performed_all(
                accounts,
                save_plan(store, id, name, activate, activate || current, accounts.official),
                login,
            );
            &&& login_of(after, id) == login
            &&& forall|other: Seq<char>|
                other != id ==> #[trigger] login_of(after, other) == login_of(accounts, other)
            &&& activate || current ==> after.official && after.selected == id && after.live
                == login
            &&& !activate && !current ==> after.live == accounts.live && after.official
                == accounts.official && after.selected == accounts.selected
        }),
{
    let current = accounts.official && accounts.selected == id;
    let nothing: Seq<ProfileStepView> = seq![];
    let before = if activate {
        takeover(store, accounts.official)
    } else {
        nothing
    };
    lemma_takeover(store, accounts, login);
    assert(performed_all(accounts, nothing, login) == accounts);
    lemma_push(accounts, before, ProfileStepView::Write, login);
    let written = if activate || current {
        before.push(ProfileStepView::Write)
    } else {
        before
    };
    let kept = written.push(ProfileStepView::Keep { profile_id: id });
    let record = ProfileStepView::Record { profile_id: id, name, select: activate };
    lemma_push(accounts, written, ProfileStepView::Keep { profile_id: id }, login);
    lemma_push(accounts, kept, record, login);
}

} // verus!
