//! What holds of the identifiers and the templates of providers.
use crate::error::CodexxError;
use crate::providers::store::{
    compatible, custom_id, lemma_collapsed_ascii, normal_form, normalized_name, normalizes,
    prints_over, provider_keys, reserved_id, same_endpoint, stripped, without_token, ProviderView,
    SavedProvider,
};
use crate::text::{
    ascii_lower, blank, collapsed, is_ascii_text, is_space, joined_by, lowercased, lowered, trimmed,
    trimmed_end, trimmed_start, words,
};
use crate::toml::{parsed_toml, section_entry, spelled, Entries, TomlView};
use vstd::prelude::*;

verus! {

/// Whether a configuration holds a bearer token, its own or that of one of its providers.
pub open spec fn holds_token(entries: Entries) -> bool {
    entries.contains_key("experimental_bearer_token"@) || (section_entry(
        entries,
        "model_providers"@,
    ) matches Some(providers) && exists|id: Seq<char>| #[trigger]
        providers.contains_key(id) && (providers[id] matches TomlView::Section(section)
            && section.contains_key("experimental_bearer_token"@)))
}

proof fn lemma_keys_differ()
    ensures
        "experimental_bearer_token"@ != "model_providers"@,
{
    reveal_strlit("experimental_bearer_token");
    reveal_strlit("model_providers");
    assert("experimental_bearer_token"@.len() != "model_providers"@.len());
}

/// No bearer token is left in a configuration once they were taken out.
pub proof fn law_no_token_is_left(entries: Entries)
    ensures
        !holds_token(stripped(entries)),
{
    lemma_keys_differ();
    let rest = entries.remove("experimental_bearer_token"@);
    let after = stripped(entries);
    assert(!after.contains_key("experimental_bearer_token"@));
    if section_entry(rest, "model_providers"@) is Some {
        let providers = section_entry(rest, "model_providers"@)->0;
        let left = providers.map_values(|item: TomlView| without_token(item));
        assert(section_entry(after, "model_providers"@) == Some(left));
        assert forall|id: Seq<char>| #[trigger] left.contains_key(id) implies !(
        left[id] matches TomlView::Section(section) && section.contains_key(
            "experimental_bearer_token"@,
        )) by {
            assert(left[id] == without_token(providers[id]));
        }
    }
}

/// Taking the bearer tokens out leaves every other entry of a configuration, and every other field
/// of its providers, as it is.
pub proof fn law_only_tokens_are_taken_out(entries: Entries, key: Seq<char>)
    requires
        key != "experimental_bearer_token"@,
    ensures
        key != "model_providers"@ || section_entry(entries, key) is None ==> stripped(
            entries,
        ).contains_key(key) == entries.contains_key(key) && (entries.contains_key(key) ==> stripped(
            entries,
        )[key] == entries[key]),
        section_entry(entries, "model_providers"@) matches Some(providers) ==> section_entry(
            stripped(entries),
            "model_providers"@,
        ) == Some(providers.map_values(|item: TomlView| without_token(item))),
{
    lemma_keys_differ();
}

/// Taking the bearer tokens out once is enough.
pub proof fn law_stripping_twice_is_stripping_once(entries: Entries)
    ensures
        stripped(stripped(entries)) == stripped(entries),
{
    lemma_keys_differ();
    let once = stripped(entries);
    let rest = entries.remove("experimental_bearer_token"@);
    assert(once.remove("experimental_bearer_token"@) =~= once);
    if section_entry(rest, "model_providers"@) is Some {
        let providers = section_entry(rest, "model_providers"@)->0;
        let left = providers.map_values(|item: TomlView| without_token(item));
        assert(section_entry(once, "model_providers"@) == Some(left));
        assert forall|id: Seq<char>| #[trigger] left.contains_key(id) implies without_token(
            left[id],
        ) == left[id] by {
            assert(left[id] == without_token(providers[id]));
            if let TomlView::Section(section) = providers[id] {
                let removed = section.remove("experimental_bearer_token"@);
                assert(removed.remove("experimental_bearer_token"@) =~= removed);
            }
        }
        assert(left.map_values(|item: TomlView| without_token(item)) =~= left);
        assert(stripped(once) =~= once);
    } else {
        assert(section_entry(once, "model_providers"@) is None);
    }
}

proof fn lemma_start_keeps(s: Seq<char>, i: int)
    requires
        0 <= i < s.len(),
        !is_space(s[i]),
    ensures
        trimmed_start(s).len() >= s.len() - i,
        trimmed_start(s).last() == s.last(),
    decreases s.len(),
{
    if is_space(s[0]) {
        let rest = s.subrange(1, s.len() as int);
        assert(rest[i - 1] == s[i]);
        lemma_start_keeps(rest, i - 1);
    }
}

/// A provider that is saved with a template keeps it, apart from the settings that follow the
/// provider: every other setting keeps its value and stays as it is written, comments included.
pub proof fn law_saving_keeps_other_settings(
    provider: ProviderView,
    saved: Result<SavedProvider, CodexxError>,
)
    requires
        normalizes(provider, saved),
        saved is Ok,
        provider.toml_config matches Some(text) && !blank(trimmed_end(text)),
    ensures
        saved->Ok_0@.toml_config is Some,
        parsed_toml(trimmed_end(provider.toml_config->Some_0)) is Ok,
        exists|entries: Entries| #[trigger]
            prints_over(
                saved->Ok_0@.toml_config->Some_0,
                entries,
                spelled(trimmed_end(provider.toml_config->Some_0)),
            ) && entries.remove_keys(provider_keys()) == parsed_toml(
                trimmed_end(provider.toml_config->Some_0),
            )->Ok_0.remove_keys(provider_keys()),
{
    let source = trimmed_end(provider.toml_config->Some_0);
    let (view, template) = normal_form(provider)->Ok_0;
    let entries = template->Some_0;
    let before = parsed_toml(source)->Ok_0;
    assert(stripped(before).remove_keys(provider_keys()) =~= before.remove_keys(provider_keys()));
    assert(entries.remove_keys(provider_keys()) =~= before.remove_keys(provider_keys()));
    assert(prints_over(saved->Ok_0@.toml_config->Some_0, entries, spelled(source)));
}

/// The identifier that a new provider gets is never one that Codex reserves.
pub proof fn law_custom_identifiers_are_never_reserved(input: Seq<char>)
    ensures
        !reserved_id(custom_id(input)),
{
    let given = custom_id(input);
    if reserved_id(given) {
        reveal_strlit("-custom");
        reveal_strlit("openai");
        reveal_strlit("custom");
        reveal_strlit("amazon-bedrock");
        reveal_strlit("ollama");
        reveal_strlit("lmstudio");
        reveal_strlit("oss");
        let n = given.len();
        assert(given.last() == 'm');
        assert(given[n - 7] == '-');
        lemma_start_keeps(given, n - 7);
        let start = trimmed_start(given);
        assert(trimmed_end(start) == start);
        let name = lowered(trimmed(given));
        assert(name.len() >= 7);
        assert(name.last() == 'm');
    }
}

proof fn lemma_collapsed_ends(s: Seq<char>)
    ensures
        s.len() > 0 && !is_space(s.last()) ==> collapsed(s).len() > 0 && collapsed(s).last()
            == s.last(),
        collapsed(s).len() > 0 ==> !is_space(collapsed(s).last()),
        (collapsed(s).len() == 0) == (words(s).len() == 0),
    decreases s.len(),
{
    if s.len() > 0 {
        lemma_collapsed_ends(s.drop_last());
    }
}

proof fn lemma_collapsed_words(s: Seq<char>)
    ensures
        words(collapsed(s)) == words(s),
        collapsed(s) == joined_by(words(s), " "@),
    decreases s.len(),
{
    reveal_strlit(" ");
    if s.len() > 0 {
        let shorter = s.drop_last();
        let head = collapsed(shorter);
        let listed = words(shorter);
        let last = s.last();
        lemma_collapsed_words(shorter);
        lemma_collapsed_ends(shorter);
        if !is_space(last) {
            if s.len() >= 2 && !is_space(s[s.len() - 2]) {
                assert(head.push(last).drop_last() =~= head);
                assert(head.push(last)[head.len() - 1] == head.last());
                let before = listed.drop_last();
                let longer = before.push(listed.last().push(last));
                assert(longer.drop_last() =~= before);
                assert(before.push(listed.last()) =~= listed);
                assert(joined_by(longer, " "@) =~= joined_by(listed, " "@).push(last));
            } else {
                let more = listed.push(seq![last]);
                assert(more.drop_last() =~= listed);
                if head.len() > 0 {
                    let spaced = head.push(' ');
                    assert(spaced.drop_last() =~= head);
                    assert(spaced.push(last).drop_last() =~= spaced);
                    assert(words(spaced) == words(head));
                    assert(joined_by(more, " "@) =~= spaced.push(last));
                } else {
                    assert(head.push(last).drop_last() =~= head);
                    assert(listed =~= seq![]);
                    assert(head.push(last) =~= seq![last]);
                }
            }
        }
    }
}

proof fn lemma_collapsed_is_tidy(s: Seq<char>)
    ensures
        forall|i: int|
            0 <= i < collapsed(s).len() && is_space(#[trigger] collapsed(s)[i]) ==> collapsed(s)[i]
                == ' ' && 0 < i < collapsed(s).len() - 1 && !is_space(collapsed(s)[i - 1])
                && !is_space(collapsed(s)[i + 1]),
    decreases s.len(),
{
    if s.len() > 0 {
        lemma_collapsed_is_tidy(s.drop_last());
        lemma_collapsed_ends(s.drop_last());
        let head = collapsed(s.drop_last());
        let all = collapsed(s);
        assert forall|i: int| 0 <= i < all.len() && is_space(#[trigger] all[i]) implies all[i]
            == ' ' && 0 < i < all.len() - 1 && !is_space(all[i - 1]) && !is_space(all[i + 1]) by {
            if i < head.len() {
                assert(all[i] == head[i]);
                assert(is_space(head[i]));
                assert(all[i - 1] == head[i - 1] && all[i + 1] == head[i + 1]);
            } else if all.len() == head.len() + 2 && i == head.len() {
                assert(all[i - 1] == head.last());
                assert(all[i + 1] == s.last());
            }
        }
    }
}

/// Collapsing a text leaves its words with one space between them, and none before or behind them;
/// doing so again changes nothing.
pub proof fn law_collapsing_leaves_the_words(s: Seq<char>)
    ensures
        collapsed(s) == joined_by(words(s), " "@),
        words(collapsed(s)) == words(s),
        collapsed(collapsed(s)) == collapsed(s),
        forall|i: int|
            0 <= i < collapsed(s).len() && is_space(#[trigger] collapsed(s)[i]) ==> collapsed(s)[i]
                == ' ' && 0 < i < collapsed(s).len() - 1 && !is_space(collapsed(s)[i - 1])
                && !is_space(collapsed(s)[i + 1]),
{
    lemma_collapsed_words(s);
    lemma_collapsed_words(collapsed(s));
    lemma_collapsed_is_tidy(s);
}

/// The normalized name of a provider does not depend on how much white space stands between and
/// around its words.
pub proof fn law_names_are_blind_to_white_space(left: Seq<char>, right: Seq<char>)
    requires
        words(left) == words(right),
    ensures
        normalized_name(left) == normalized_name(right),
        normalized_name(collapsed(left)) == normalized_name(left),
{
    law_collapsing_leaves_the_words(left);
    law_collapsing_leaves_the_words(right);
}

proof fn lemma_lowered_collapsed(s: Seq<char>)
    ensures
        collapsed(lowered(s)) == lowered(collapsed(s)),
    decreases s.len(),
{
    if s.len() > 0 {
        let shorter = s.drop_last();
        lemma_lowered_collapsed(shorter);
        assert(lowered(s).drop_last() =~= lowered(shorter));
        assert(lowered(s).last() == ascii_lower(s.last()));
        let head = collapsed(shorter);
        assert(lowered(head.push(s.last())) =~= lowered(head).push(ascii_lower(s.last())));
        assert(lowered(head.push(' ').push(s.last())) =~= lowered(head).push(' ').push(
            ascii_lower(s.last()),
        ));
        assert(collapsed(lowered(s)) =~= lowered(collapsed(s)));
    } else {
        assert(lowered(s) =~= s);
        assert(lowered(collapsed(s)) =~= collapsed(lowered(s)));
    }
}

/// Normalizing the name of a provider twice changes nothing: of any ASCII name, and of any other
/// name that lower-casing leaves alone once it is in lower case.
pub proof fn law_normalized_names_are_stable(name: Seq<char>)
    ensures
        lowered(collapsed(lowered(collapsed(name)))) == lowered(collapsed(name)),
        is_ascii_text(name) ==> is_ascii_text(lowered(collapsed(name))),
        ({
            let once = normalized_name(name);
            lowercased(once) == once && collapsed(once) == once ==> normalized_name(once) == once
        }),
{
    let tidy = collapsed(name);
    law_collapsing_leaves_the_words(name);
    lemma_lowered_collapsed(tidy);
    assert(lowered(lowered(tidy)) =~= lowered(tidy));
    lemma_collapsed_ascii(name);
    if is_ascii_text(name) {
        assert forall|i: int| 0 <= i < lowered(tidy).len() implies (
        #[trigger] lowered(tidy)[i]) as u32 <= 0x7f by {
            assert(tidy[i] as u32 <= 0x7f);
        }
    }
}

/// Two providers that may be the same are so whichever of them is asked about.
pub proof fn law_matching_is_symmetric(left: ProviderView, right: ProviderView)
    ensures
        same_endpoint(left, right) == same_endpoint(right, left),
        compatible(left, right) == compatible(right, left),
{
}

} // verus!
