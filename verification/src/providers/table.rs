//! The table of saved providers: lookups, writes, imports, copies and their undoing.
use crate::error::{config, config3, CodexxError, ErrorView};
use crate::providers::model_catalog::{mapping_views, ProviderModelMapping};
use crate::providers::store::{
    custom_id, custom_provider_id, hydrates, live_ids, matching_saved_provider_ids, normal_form,
    normalize_saved_provider, normalize_stored_provider_from_toml, provider_views, rewritten,
    ProviderView, SavedProvider,
};
use crate::text::{
    lemma_decimal_injective, text_views, blank, copy_opt, decimal, decimal_of, is_blank, joined,
    joined3, keep, kept, opt_view, precedes, same_opt, same_text, stands_before, trim, trimmed,
};
use crate::toml::Entries;
use vstd::prelude::*;

verus! {

/// A row of the table.
#[derive(Debug, PartialEq, Eq)]
pub struct StoredProvider {
    pub provider: SavedProvider,
    pub created_at: String,
    pub updated_at: String,
    pub source: String,
    pub source_id: Option<String>,
}

/// A row of the table, as contracts speak of it.
pub ghost struct StoredView {
    pub provider: ProviderView,
    pub created_at: Seq<char>,
    pub updated_at: Seq<char>,
    pub source: Seq<char>,
    pub source_id: Option<Seq<char>>,
}

impl View for StoredProvider {
    type V = StoredView;

    open spec fn view(&self) -> StoredView {
        StoredView {
            provider: self.provider@,
            created_at: self.created_at@,
            updated_at: self.updated_at@,
            source: self.source@,
            source_id: opt_view(self.source_id),
        }
    }
}

impl Clone for StoredProvider {
    fn clone(&self) -> (r: Self)
        ensures
            r@ == self@,
    {
        StoredProvider {
            provider: self.provider.clone(),
            created_at: self.created_at.clone(),
            updated_at: self.updated_at.clone(),
            source: self.source.clone(),
            source_id: copy_opt(&self.source_id),
        }
    }
}

/// Rows, as contracts speak of them.
pub open spec fn stored_views(rows: Seq<StoredProvider>) -> Seq<StoredView> {
    rows.map_values(|row: StoredProvider| row@)
}

/// The providers of rows.
pub open spec fn providers_of(rows: Seq<StoredView>) -> Seq<ProviderView> {
    rows.map_values(|row: StoredView| row.provider)
}

/// The identifiers of rows.
pub open spec fn ids_of(rows: Seq<StoredView>) -> Seq<Seq<char>> {
    rows.map_values(|row: StoredView| row.provider.id)
}

/// Whether no two rows have the same identifier.
pub open spec fn ids_differ(rows: Seq<StoredView>) -> bool {
    forall|i: int, j: int|
        0 <= i < j < rows.len() ==> (#[trigger] rows[i]).provider.id != (
        #[trigger] rows[j]).provider.id
}

/// The table of saved providers, its rows in the order in which they are listed.
#[derive(Debug, PartialEq, Eq)]
pub struct ProviderTable {
    pub rows: Vec<StoredProvider>,
}

impl View for ProviderTable {
    type V = Seq<StoredView>;

    open spec fn view(&self) -> Seq<StoredView> {
        stored_views(self.rows@)
    }
}

/// Whether the first row of this identifier stands at `at`.
pub open spec fn first_at(rows: Seq<StoredView>, id: Seq<char>, at: int) -> bool {
    &&& 0 <= at < rows.len()
    &&& rows[at].provider.id == id
    &&& forall|j: int| 0 <= j < at ==> (#[trigger] rows[j]).provider.id != id
}

/// The row of an identifier.
pub open spec fn row_of(rows: Seq<StoredView>, id: Seq<char>) -> Option<StoredView> {
    if exists|at: int| first_at(rows, id, at) {
        Some(rows[choose|at: int| first_at(rows, id, at)])
    } else {
        None
    }
}

/// There is one first row of an identifier.
pub proof fn lemma_row_at(rows: Seq<StoredView>, id: Seq<char>, at: int)
    requires
        first_at(rows, id, at),
    ensures
        row_of(rows, id) == Some(rows[at]),
        forall|other: int| first_at(rows, id, other) ==> other == at,
{
    let found = choose|at: int| first_at(rows, id, at);
    assert(first_at(rows, id, found));
    assert forall|other: int| first_at(rows, id, other) implies other == at by {
        if other < at {
            assert(rows[other].provider.id != id);
        } else if at < other {
            assert(rows[at].provider.id != id);
        }
    }
}

/// An identifier that no row has has no row.
pub proof fn lemma_no_row(rows: Seq<StoredView>, id: Seq<char>)
    requires
        forall|i: int| 0 <= i < rows.len() ==> (#[trigger] rows[i]).provider.id != id,
    ensures
        row_of(rows, id) is None,
        !ids_of(rows).contains(id),
{
    if ids_of(rows).contains(id) {
        let i = choose|i: int| 0 <= i < ids_of(rows).len() && ids_of(rows)[i] == id;
        assert(rows[i].provider.id == id);
    }
}

fn find_row(rows: &Vec<StoredProvider>, id: &str) -> (r: Option<usize>)
    ensures
        match r {
            Some(at) => first_at(stored_views(rows@), id@, at as int) && row_of(
                stored_views(rows@),
                id@,
            ) == Some(rows@[at as int]@) && ids_of(stored_views(rows@)).contains(id@),
            None => row_of(stored_views(rows@), id@) is None && !ids_of(
                stored_views(rows@),
            ).contains(id@) && forall|i: int|
                0 <= i < rows@.len() ==> (#[trigger] rows@[i]).provider.id@ != id@,
        },
{
    let ghost all = stored_views(rows@);
    let mut i: usize = 0;
    while i < rows.len()
        invariant
            i <= rows@.len(),
            all == stored_views(rows@),
            forall|j: int| 0 <= j < i ==> (#[trigger] all[j]).provider.id != id@,
        decreases rows@.len() - i,
    {
        if same_text(&rows[i].provider.id, id) {
            proof {
                assert(all[i as int].provider.id == id@);
                lemma_row_at(all, id@, i as int);
                assert(ids_of(all)[i as int] == id@);
            }
            return Some(i);
        }
        i = i + 1;
    }
    proof {
        lemma_no_row(all, id@);
        assert forall|i: int| 0 <= i < rows@.len() implies (#[trigger] rows@[i]).provider.id@
            != id@ by {
            assert(all[i].provider.id != id@);
        }
    }
    None
}

/// Whether `stored` is what reading these rows gives.
pub open spec fn reads(rows: Seq<StoredView>, stored: Seq<StoredView>) -> bool {
    stored.len() == rows.len() && forall|i: int|
        0 <= i < rows.len() ==> hydrates((#[trigger] rows[i]).provider, stored[i].provider)
            && stored[i] == (StoredView { provider: stored[i].provider, ..rows[i] })
}

/// Reads the rows: every provider follows its template.
pub fn stored_providers(table: &ProviderTable) -> (r: Vec<StoredProvider>)
    ensures
        reads(table@, stored_views(r@)),
        ids_of(stored_views(r@)) == ids_of(table@),
{
    let mut out: Vec<StoredProvider> = Vec::new();
    let mut i: usize = 0;
    while i < table.rows.len()
        invariant
            i <= table.rows@.len(),
            out@.len() == i,
            forall|j: int|
                0 <= j < i ==> hydrates(table@[j].provider, (#[trigger] out@[j])@.provider)
                    && out@[j]@ == (StoredView { provider: out@[j]@.provider, ..table@[j] }),
        decreases table.rows@.len() - i,
    {
        let mut row = table.rows[i].clone();
        normalize_stored_provider_from_toml(&mut row.provider);
        out.push(row);
        i = i + 1;
    }
    proof {
        let stored = stored_views(out@);
        assert forall|j: int| 0 <= j < table@.len() implies hydrates(
            (#[trigger] table@[j]).provider,
            stored[j].provider,
        ) && stored[j] == (StoredView { provider: stored[j].provider, ..table@[j] }) by {
            assert(stored[j] == out@[j]@);
        }
        assert forall|j: int| 0 <= j < table@.len() implies ids_of(stored)[j] == ids_of(
            table@,
        )[j] by {
            assert(hydrates(table@[j].provider, stored[j].provider));
        }
        assert(ids_of(stored) =~= ids_of(table@));
    }
    out
}

fn providers_in(rows: &Vec<StoredProvider>) -> (r: Vec<SavedProvider>)
    ensures
        provider_views(r@) == providers_of(stored_views(rows@)),
{
    let mut out: Vec<SavedProvider> = Vec::new();
    let mut i: usize = 0;
    while i < rows.len()
        invariant
            i <= rows@.len(),
            out@.len() == i,
            forall|j: int| 0 <= j < i ==> (#[trigger] out@[j])@ == rows@[j]@.provider,
        decreases rows@.len() - i,
    {
        out.push(rows[i].provider.clone());
        i = i + 1;
    }
    assert(provider_views(out@) =~= providers_of(stored_views(rows@)));
    out
}

/// The saved providers, each following its template.
pub fn list_saved_providers_inner(table: &ProviderTable) -> (r: Vec<SavedProvider>)
    ensures
        exists|stored: Seq<StoredView>| #[trigger]
            reads(table@, stored) && provider_views(r@) == providers_of(stored),
{
    let stored = stored_providers(table);
    providers_in(&stored)
}

/// The saved provider of an identifier, following its template.
pub fn provider_by_id(table: &ProviderTable, id: &str) -> (r: Option<SavedProvider>)
    ensures
        match row_of(table@, id@) {
            Some(row) => r matches Some(found) && hydrates(row.provider, found@),
            None => r is None,
        },
{
    match find_row(&table.rows, id) {
        Some(at) => {
            let mut provider = table.rows[at].provider.clone();
            normalize_stored_provider_from_toml(&mut provider);
            Some(provider)
        },
        None => None,
    }
}

/// Where a record comes from: the kind of source and its identifier there.
pub type Origin = Option<(Seq<char>, Seq<char>)>;

/// An origin, as contracts speak of it.
pub open spec fn origin_view(origin: Option<(&str, &str)>) -> Origin {
    match origin {
        Some((source, id)) => Some((source@, id@)),
        None => None,
    }
}

/// Rows with one more, which stands by when it was created: behind every row that was not created
/// after it.
pub open spec fn placed(rows: Seq<StoredView>, row: StoredView) -> Seq<StoredView>
    decreases rows.len(),
{
    if rows.len() > 0 && precedes(row.created_at, rows.last().created_at) {
        placed(rows.drop_last(), row).push(rows.last())
    } else {
        rows.push(row)
    }
}

/// Whether rows stand in the order in which they were created.
pub open spec fn in_order(rows: Seq<StoredView>) -> bool {
    forall|i: int, j: int|
        0 <= i < j < rows.len() ==> !precedes(
            (#[trigger] rows[j]).created_at,
            (#[trigger] rows[i]).created_at,
        )
}

/// A row stands before those that were created after it.
pub proof fn lemma_placed(rows: Seq<StoredView>, row: StoredView, at: int)
    requires
        0 <= at <= rows.len(),
        at > 0 ==> !precedes(row.created_at, rows[at - 1].created_at),
        forall|i: int|
            at <= i < rows.len() ==> precedes(row.created_at, (#[trigger] rows[i]).created_at),
    ensures
        placed(rows, row) == rows.insert(at, row),
    decreases rows.len(),
{
    if at < rows.len() {
        lemma_placed(rows.drop_last(), row, at);
        assert(rows.drop_last().insert(at, row).push(rows.last()) =~= rows.insert(at, row));
    } else {
        assert(rows.push(row) =~= rows.insert(at, row));
    }
}

fn place(rows: &mut Vec<StoredProvider>, row: StoredProvider)
    ensures
        stored_views(final(rows)@) == placed(stored_views(old(rows)@), row@),
{
    let ghost before = stored_views(rows@);
    let mut at: usize = rows.len();
    while at > 0 && stands_before(&row.created_at, &rows[at - 1].created_at)
        invariant
            at <= rows@.len(),
            before == stored_views(rows@),
            forall|i: int|
                at <= i < rows@.len() ==> precedes(
                    row@.created_at,
                    (#[trigger] before[i]).created_at,
                ),
        decreases at,
    {
        assert(before[at - 1] == rows@[at - 1]@);
        at = at - 1;
    }
    let ghost view = row@;
    proof {
        if at > 0 {
            assert(before[at - 1] == rows@[at - 1]@);
        }
        lemma_placed(before, view, at as int);
    }
    rows.insert(at, row);
    assert(stored_views(rows@) =~= before.insert(at as int, view));
}

/// The row of a provider that is written for the first time.
pub open spec fn new_row(provider: ProviderView, origin: Origin, now: Seq<char>) -> StoredView {
    StoredView {
        provider,
        created_at: now,
        updated_at: now,
        source: match origin {
            Some((source, _)) => source,
            None => "manual"@,
        },
        source_id: match origin {
            Some((_, id)) => Some(id),
            None => None,
        },
    }
}

/// The rows after a provider was written: in place of the row of its identifier, or as a new row,
/// which stands by when it was created. A write without an origin leaves that of an existing row
/// alone.
pub open spec fn written(
    rows: Seq<StoredView>,
    provider: ProviderView,
    origin: Origin,
    now: Seq<char>,
) -> Seq<StoredView> {
    if exists|at: int| first_at(rows, provider.id, at) {
        let at = choose|at: int| first_at(rows, provider.id, at);
        rows.update(
            at,
            StoredView {
                provider,
                created_at: rows[at].created_at,
                updated_at: now,
                source: match origin {
                    Some((source, _)) => source,
                    None => rows[at].source,
                },
                source_id: match origin {
                    Some((_, id)) => Some(id),
                    None => rows[at].source_id,
                },
            },
        )
    } else {
        placed(rows, new_row(provider, origin, now))
    }
}

/// Writes a provider into the table.
pub fn write_provider_with_origin(
    table: &mut ProviderTable,
    provider: &SavedProvider,
    origin: Option<(&str, &str)>,
    now: &str,
)
    ensures
        final(table)@ == written(old(table)@, provider@, origin_view(origin), now@),
{
    let ghost before = table@;
    match find_row(&table.rows, &provider.id) {
        Some(at) => {
            let source = match origin {
                Some((source, _)) => source.to_owned(),
                None => table.rows[at].source.clone(),
            };
            let source_id = match origin {
                Some((_, id)) => Some(id.to_owned()),
                None => copy_opt(&table.rows[at].source_id),
            };
            let row = StoredProvider {
                provider: provider.clone(),
                created_at: table.rows[at].created_at.clone(),
                updated_at: now.to_owned(),
                source,
                source_id,
            };
            table.rows.set(at, row);
            proof {
                lemma_row_at(before, provider@.id, at as int);
                assert(table@ =~= written(before, provider@, origin_view(origin), now@));
            }
        },
        None => {
            let source = match origin {
                Some((source, _)) => source.to_owned(),
                None => "manual".to_owned(),
            };
            let source_id = match origin {
                Some((_, id)) => Some(id.to_owned()),
                None => None,
            };
            let row = StoredProvider {
                provider: provider.clone(),
                created_at: now.to_owned(),
                updated_at: now.to_owned(),
                source,
                source_id,
            };
            place(&mut table.rows, row);
            assert(table@ =~= written(before, provider@, origin_view(origin), now@));
        },
    }
}

/// A text with a number behind it.
pub open spec fn numbered(base: Seq<char>, separator: Seq<char>, n: nat) -> Seq<char> {
    base + separator + decimal(n)
}

/// Whether `n` is the first number from 2 on that makes a text which is not taken.
pub open spec fn first_free(
    taken: Seq<Seq<char>>,
    base: Seq<char>,
    separator: Seq<char>,
    n: nat,
) -> bool {
    &&& n >= 2
    &&& !taken.contains(numbered(base, separator, n))
    &&& forall|k: nat| 2 <= k < n ==> taken.contains(#[trigger] numbered(base, separator, k))
}

/// The text itself if it is not taken, otherwise with the first number from 2 on that makes it
/// free.
pub open spec fn free_text(taken: Seq<Seq<char>>, base: Seq<char>, separator: Seq<char>) -> Seq<char> {
    if taken.contains(base) {
        numbered(base, separator, choose|n: nat| first_free(taken, base, separator, n))
    } else {
        base
    }
}

proof fn lemma_numbered_injective(base: Seq<char>, separator: Seq<char>, a: nat, b: nat)
    requires
        numbered(base, separator, a) == numbered(base, separator, b),
    ensures
        a == b,
{
    let head = base + separator;
    let left = numbered(base, separator, a);
    let right = numbered(base, separator, b);
    assert(decimal(a) =~= left.subrange(head.len() as int, left.len() as int));
    assert(decimal(b) =~= right.subrange(head.len() as int, right.len() as int));
    lemma_decimal_injective(a, b);
}

/// As long as every number from 2 up to `n` is taken, there are at least that many taken texts.
pub proof fn lemma_taken_bounds(taken: Seq<Seq<char>>, base: Seq<char>, separator: Seq<char>, n: nat)
    requires
        n >= 2,
        forall|k: nat| 2 <= k < n ==> taken.contains(#[trigger] numbered(base, separator, k)),
    ensures
        n - 2 <= taken.len(),
    decreases n,
{
    if n > 2 {
        let last = (n - 1) as nat;
        assert(taken.contains(numbered(base, separator, last)));
        let at = taken.index_of(numbered(base, separator, last));
        let rest = taken.remove(at);
        assert forall|k: nat| 2 <= k < last implies rest.contains(
            #[trigger] numbered(base, separator, k),
        ) by {
            let text = numbered(base, separator, k);
            assert(taken.contains(text));
            let i = taken.index_of(text);
            if i == at {
                lemma_numbered_injective(base, separator, k, last);
            }
            if i < at {
                assert(rest[i] == text);
            } else {
                assert(rest[i - 1] == text);
            }
        }
        lemma_taken_bounds(rest, base, separator, last);
    }
}

proof fn lemma_free_text(taken: Seq<Seq<char>>, base: Seq<char>, separator: Seq<char>, n: nat)
    requires
        taken.contains(base),
        first_free(taken, base, separator, n),
    ensures
        free_text(taken, base, separator) == numbered(base, separator, n),
{
    let found = choose|n: nat| first_free(taken, base, separator, n);
    assert(first_free(taken, base, separator, found));
    if found < n {
        assert(taken.contains(numbered(base, separator, found)));
    } else if n < found {
        assert(taken.contains(numbered(base, separator, n)));
    }
}

/// An identifier that no row has: the preferred one, or that with a number.
pub fn unique_provider_id(table: &ProviderTable, preferred: &str) -> (r: String)
    ensures
        r@ == free_text(ids_of(table@), preferred@, "-"@),
        !ids_of(table@).contains(r@),
{
    let ghost taken = ids_of(table@);
    if find_row(&table.rows, preferred).is_none() {
        return preferred.to_owned();
    }
    let count: usize = table.rows.len();
    let mut index: u128 = 2;
    loop
        invariant
            taken == ids_of(table@),
            taken.contains(preferred@),
            taken.len() == count,
            2 <= index,
            forall|k: nat|
                2 <= k < index ==> taken.contains(#[trigger] numbered(preferred@, "-"@, k)),
        decreases taken.len() + 3 - index,
    {
        proof {
            lemma_taken_bounds(taken, preferred@, "-"@, index as nat);
        }
        let candidate = joined3(preferred, "-", &decimal_of(index));
        assert(candidate@ == numbered(preferred@, "-"@, index as nat));
        if find_row(&table.rows, &candidate).is_none() {
            proof {
                lemma_free_text(taken, preferred@, "-"@, index as nat);
            }
            return candidate;
        }
        index = index + 1;
    }
}

/// An imported provider with the fields that it lacks taken from the record it belongs to.
pub open spec fn merged_import(incoming: ProviderView, existing: ProviderView) -> ProviderView {
    ProviderView {
        id: existing.id,
        provider_name: if blank(incoming.provider_name) {
            existing.provider_name
        } else {
            incoming.provider_name
        },
        base_url: if blank(incoming.base_url) {
            existing.base_url
        } else {
            incoming.base_url
        },
        model: if blank(incoming.model) {
            existing.model
        } else {
            incoming.model
        },
        api_key: match incoming.api_key {
            Some(key) if !blank(key) => Some(key),
            _ => existing.api_key,
        },
        toml_config: match incoming.toml_config {
            Some(text) if !blank(text) => Some(text),
            _ => existing.toml_config,
        },
        wire_api: if blank(incoming.wire_api) {
            existing.wire_api
        } else {
            incoming.wire_api
        },
        requires_openai_auth: incoming.requires_openai_auth,
        model_mappings: if incoming.model_mappings.len() == 0 {
            existing.model_mappings
        } else {
            incoming.model_mappings
        },
    }
}

/// An imported provider with the fields that it lacks taken from the record it belongs to.
pub fn merge_authoritative_import(incoming: SavedProvider, existing: &SavedProvider) -> (r:
    SavedProvider)
    ensures
        r@ == merged_import(incoming@, existing@),
{
    let mut incoming = incoming;
    let fallback = existing.clone();
    incoming.id = fallback.id;
    if is_blank(&incoming.provider_name) {
        incoming.provider_name = fallback.provider_name;
    }
    if is_blank(&incoming.base_url) {
        incoming.base_url = fallback.base_url;
    }
    if is_blank(&incoming.model) {
        incoming.model = fallback.model;
    }
    let has_key: bool = match &incoming.api_key {
        Some(key) => !is_blank(key),
        None => false,
    };
    if !has_key {
        incoming.api_key = fallback.api_key;
    }
    let has_template: bool = match &incoming.toml_config {
        Some(text) => !is_blank(text),
        None => false,
    };
    if !has_template {
        incoming.toml_config = fallback.toml_config;
    }
    if is_blank(&incoming.wire_api) {
        incoming.wire_api = fallback.wire_api;
    }
    if incoming.model_mappings.len() == 0 {
        incoming.model_mappings = fallback.model_mappings;
    }
    incoming
}

/// Whether a row comes from this origin. A local import counts as one from the same source.
pub open spec fn from_origin(row: StoredView, source: Seq<char>, source_id: Seq<char>) -> bool {
    (row.source == source || (source == "cc-switch"@ && row.source == "cc-switch-local"@))
        && row.source_id == Some(source_id)
}

/// Whether a row comes from this origin.
pub fn source_matches(row: &StoredProvider, origin: (&str, &str)) -> (r: bool)
    ensures
        r == from_origin(row@, origin.0@, origin.1@),
{
    let fits: bool = same_text(&row.source, origin.0) || (same_text(origin.0, "cc-switch")
        && same_text(&row.source, "cc-switch-local"));
    let same_id: bool = match &row.source_id {
        Some(id) => same_text(id, origin.1),
        None => false,
    };
    fits && same_id
}

/// Whether a record is saved by the user or imported.
#[derive(Debug, Clone, Copy, PartialEq, Eq, Structural)]
pub enum ProviderUpsertMode {
    Manual,
    Imported,
}

/// Whether a record was added or replaced.
#[derive(Debug, Clone, Copy, PartialEq, Eq, Structural)]
pub enum ProviderUpsertKind {
    Added,
    Updated,
}

/// A record that was written.
#[derive(Debug)]
pub struct ProviderUpsertResult {
    pub provider: SavedProvider,
    pub kind: ProviderUpsertKind,
}

/// Whether the first row of this origin stands at `at`.
pub open spec fn first_from(
    rows: Seq<StoredView>,
    source: Seq<char>,
    source_id: Seq<char>,
    at: int,
) -> bool {
    &&& 0 <= at < rows.len()
    &&& from_origin(rows[at], source, source_id)
    &&& forall|j: int| 0 <= j < at ==> !from_origin(#[trigger] rows[j], source, source_id)
}

/// The row that a record replaces: for the user's own save, that of its identifier; for an
/// import, that of its origin.
pub open spec fn upsert_target(
    stored: Seq<StoredView>,
    id: Seq<char>,
    mode: ProviderUpsertMode,
    origin: Origin,
) -> Option<StoredView> {
    match mode {
        ProviderUpsertMode::Manual => row_of(stored, id),
        ProviderUpsertMode::Imported => match origin {
            Some((source, source_id)) => if exists|at: int|
                first_from(stored, source, source_id, at) {
                Some(stored[choose|at: int| first_from(stored, source, source_id, at)])
            } else {
                None
            },
            None => None,
        },
    }
}

/// The record that is written for a provider, and whether it is new.
pub open spec fn upserted(
    stored: Seq<StoredView>,
    provider: ProviderView,
    mode: ProviderUpsertMode,
    origin: Origin,
) -> (ProviderView, ProviderUpsertKind) {
    match upsert_target(stored, provider.id, mode, origin) {
        Some(target) => (
            if mode is Imported {
                merged_import(provider, target.provider)
            } else {
                provider
            },
            ProviderUpsertKind::Updated,
        ),
        None => (
            ProviderView { id: free_text(ids_of(stored), provider.id, "-"@), ..provider },
            ProviderUpsertKind::Added,
        ),
    }
}

fn find_origin(rows: &Vec<StoredProvider>, origin: (&str, &str)) -> (r: Option<usize>)
    ensures
        match r {
            Some(at) => first_from(stored_views(rows@), origin.0@, origin.1@, at as int),
            None => forall|at: int|
                !first_from(stored_views(rows@), origin.0@, origin.1@, at),
        },
{
    let ghost all = stored_views(rows@);
    let mut i: usize = 0;
    while i < rows.len()
        invariant
            i <= rows@.len(),
            all == stored_views(rows@),
            forall|j: int| 0 <= j < i ==> !from_origin(#[trigger] all[j], origin.0@, origin.1@),
        decreases rows@.len() - i,
    {
        if source_matches(&rows[i], origin) {
            assert(all[i as int] == rows@[i as int]@);
            return Some(i);
        }
        i = i + 1;
    }
    None
}

/// There is one first row of an origin.
pub proof fn lemma_first_from(
    rows: Seq<StoredView>,
    source: Seq<char>,
    source_id: Seq<char>,
    at: int,
)
    requires
        first_from(rows, source, source_id, at),
    ensures
        forall|other: int| first_from(rows, source, source_id, other) ==> other == at,
{
    assert forall|other: int| first_from(rows, source, source_id, other) implies other == at by {
        if other < at {
            assert(!from_origin(rows[other], source, source_id));
        } else if at < other {
            assert(!from_origin(rows[at], source, source_id));
        }
    }
}

/// Writes a provider into the table: an import replaces the row of its origin and never another
/// one, the user's own save replaces the row of its identifier.
pub fn upsert_provider_with_origin(
    table: &mut ProviderTable,
    provider: SavedProvider,
    mode: ProviderUpsertMode,
    origin: Option<(&str, &str)>,
    now: &str,
) -> (r: ProviderUpsertResult)
    ensures
        exists|stored: Seq<StoredView>| #[trigger]
            reads(old(table)@, stored) && {
                let (row, kind) = upserted(stored, provider@, mode, origin_view(origin));
                &&& final(table)@ == written(old(table)@, row, origin_view(origin), now@)
                &&& r.kind == kind
                &&& hydrates(row, r.provider@)
            },
{
    let mut provider = provider;
    let ghost start = provider@;
    let stored = stored_providers(table);
    let ghost views = stored_views(stored@);
    let target: Option<usize> = match mode {
        ProviderUpsertMode::Manual => find_row(&stored, &provider.id),
        ProviderUpsertMode::Imported => match origin {
            Some(origin) => find_origin(&stored, origin),
            None => None,
        },
    };
    proof {
        if let Some(at) = target {
            if mode is Imported {
                let (source, source_id) = origin_view(origin)->Some_0;
                lemma_first_from(views, source, source_id, at as int);
                assert(first_from(views, source, source_id, at as int));
                let found = choose|at: int| first_from(views, source, source_id, at);
                assert(found == at);
            }
            assert(upsert_target(views, start.id, mode, origin_view(origin)) == Some(
                views[at as int],
            ));
        } else {
            assert(upsert_target(views, start.id, mode, origin_view(origin)) is None);
        }
    }
    let kind = match target {
        Some(at) => {
            match mode {
                ProviderUpsertMode::Imported => {
                    provider = merge_authoritative_import(provider, &stored[at].provider);
                },
                ProviderUpsertMode::Manual => {},
            }
            ProviderUpsertKind::Updated
        },
        None => {
            let id = unique_provider_id(table, &provider.id);
            provider.id = id;
            ProviderUpsertKind::Added
        },
    };
    let ghost row = provider@;
    assert((row, kind) == upserted(views, start, mode, origin_view(origin)));
    write_provider_with_origin(table, &provider, origin, now);
    normalize_stored_provider_from_toml(&mut provider);
    ProviderUpsertResult { provider, kind }
}

/// Imports a provider from cc-switch under the identifier that it has there.
pub fn upsert_ccswitch_provider(
    table: &mut ProviderTable,
    provider: SavedProvider,
    source_id: &str,
    now: &str,
) -> (r: Result<ProviderUpsertResult, CodexxError>)
    ensures
        if blank(source_id@) {
            r matches Err(error) && error@ == ErrorView::Config(
                "cc-switch 供应商缺少稳定来源 ID"@,
            ) && final(table)@ == old(table)@
        } else {
            r matches Ok(result) && exists|stored: Seq<StoredView>| #[trigger]
                reads(old(table)@, stored) && {
                    let origin = Some(("cc-switch"@, trimmed(source_id@)));
                    let (row, kind) = upserted(
                        stored,
                        provider@,
                        ProviderUpsertMode::Imported,
                        origin,
                    );
                    &&& final(table)@ == written(old(table)@, row, origin, now@)
                    &&& result.kind == kind
                    &&& hydrates(row, result.provider@)
                }
        },
{
    let source_id = trim(source_id);
    if source_id.as_str().is_empty() {
        return Err(config("cc-switch 供应商缺少稳定来源 ID"));
    }
    Ok(
        upsert_provider_with_origin(
            table,
            provider,
            ProviderUpsertMode::Imported,
            Some(("cc-switch", source_id.as_str())),
            now,
        ),
    )
}

/// What is saved for a provider: its normal form, under its own identifier where that is already
/// saved. An identifier that only becomes that of another record is refused.
pub open spec fn saved_form(ids: Seq<Seq<char>>, provider: ProviderView) -> Result<
    (ProviderView, Option<Entries>),
    ErrorView,
> {
    match normal_form(provider) {
        Err(error) => Err(error),
        Ok((view, template)) => {
            let requested = trimmed(provider.id);
            if ids.contains(requested) {
                Ok((ProviderView { id: requested, ..view }, template))
            } else if requested != view.id && ids.contains(view.id) {
                Err(
                    ErrorView::Config(
                        "供应商 ID "@ + requested + " 规范化后与现有供应商冲突，请更换名称或 ID"@,
                    ),
                )
            } else {
                Ok((view, template))
            }
        },
    }
}

/// A provider as it is saved into the table.
pub fn normalize_saved_provider_for_save(table: &ProviderTable, provider: SavedProvider) -> (r: Result<
    SavedProvider,
    CodexxError,
>)
    ensures
        match saved_form(ids_of(table@), provider@) {
            Ok((view, template)) => r matches Ok(found) && rewritten(view, template, found@),
            Err(error) => r matches Err(found) && found@ == error,
        },
{
    let requested = trim(&provider.id);
    let mut normalized = match normalize_saved_provider(provider) {
        Ok(normalized) => normalized,
        Err(error) => return Err(error),
    };
    if find_row(&table.rows, &requested).is_some() {
        normalized.id = requested;
    } else if !same_text(&requested, &normalized.id) && find_row(
        &table.rows,
        &normalized.id,
    ).is_some() {
        return Err(
            config3("供应商 ID ", &requested, " 规范化后与现有供应商冲突，请更换名称或 ID"),
        );
    }
    Ok(normalized)
}

/// Whether `after` are the rows once a provider was saved, and `saved` the provider as it is then
/// read.
pub open spec fn saves(
    before: Seq<StoredView>,
    view: ProviderView,
    template: Option<Entries>,
    now: Seq<char>,
    after: Seq<StoredView>,
    saved: ProviderView,
) -> bool {
    exists|row: ProviderView| #[trigger]
        rewritten(view, template, row) && after == written(before, row, None, now) && hydrates(
            row,
            saved,
        )
}

/// Saves a provider into the table.
pub fn save_provider_inner(table: &mut ProviderTable, provider: SavedProvider, now: &str) -> (r: Result<
    SavedProvider,
    CodexxError,
>)
    ensures
        match saved_form(ids_of(old(table)@), provider@) {
            Ok((view, template)) => r matches Ok(found) && saves(
                old(table)@,
                view,
                template,
                now@,
                final(table)@,
                found@,
            ),
            Err(error) => r matches Err(found) && found@ == error && final(table)@ == old(table)@,
        },
{
    let mut provider = match normalize_saved_provider_for_save(table, provider) {
        Ok(provider) => provider,
        Err(error) => return Err(error),
    };
    write_provider_with_origin(table, &provider, None, now);
    normalize_stored_provider_from_toml(&mut provider);
    Ok(provider)
}

fn copy_rows(rows: &Vec<StoredProvider>) -> (r: Vec<StoredProvider>)
    ensures
        stored_views(r@) == stored_views(rows@),
{
    let mut out: Vec<StoredProvider> = Vec::new();
    let mut i: usize = 0;
    while i < rows.len()
        invariant
            i <= rows@.len(),
            out@.len() == i,
            forall|j: int| 0 <= j < i ==> (#[trigger] out@[j])@ == rows@[j]@,
        decreases rows@.len() - i,
    {
        out.push(rows[i].clone());
        i = i + 1;
    }
    assert(stored_views(out@) =~= stored_views(rows@));
    out
}

impl Clone for ProviderTable {
    fn clone(&self) -> (r: Self)
        ensures
            r@ == self@,
    {
        ProviderTable { rows: copy_rows(&self.rows) }
    }
}

/// The provider that stays active: the only candidate, or the remembered one while it is a
/// candidate.
pub open spec fn reconciled(selected: Option<Seq<char>>, candidates: Seq<Seq<char>>) -> Option<
    Seq<char>,
> {
    if candidates.len() == 1 {
        Some(candidates[0])
    } else if selected matches Some(id) && candidates.contains(id) {
        selected
    } else {
        None
    }
}

/// The provider that stays active among the candidates for the live one.
pub fn reconcile_active_provider(selected: &Option<String>, candidates: &Vec<String>) -> (r: Option<
    String,
>)
    ensures
        opt_view(r) == reconciled(opt_view(*selected), text_views(candidates@)),
{
    if candidates.len() == 1 {
        return Some(candidates[0].clone());
    }
    let id = match selected {
        Some(id) => id,
        None => return None,
    };
    let mut i: usize = 0;
    while i < candidates.len()
        invariant
            i <= candidates@.len(),
            candidates@.len() != 1,
            opt_view(*selected) == Some(id@),
            forall|j: int| 0 <= j < i ==> text_views(candidates@)[j] != id@,
        decreases candidates@.len() - i,
    {
        if same_text(&candidates[i], id) {
            assert(text_views(candidates@)[i as int] == id@);
            return Some(id.clone());
        }
        i = i + 1;
    }
    None
}

/// A copied provider with everything that belongs to its copying.
#[derive(Debug)]
pub struct DuplicateProviderResult {
    pub provider: SavedProvider,
    pub providers: Vec<SavedProvider>,
    pub active_provider_id: Option<String>,
}

/// A detected provider as the record that it is saved as.
pub open spec fn adopted(detected: ProviderView, original: ProviderView) -> ProviderView {
    ProviderView {
        id: original.id,
        model_mappings: original.model_mappings,
        api_key: match detected.api_key {
            Some(key) => Some(key),
            None => original.api_key,
        },
        ..detected
    }
}

/// A detected provider under an identifier that no row has.
pub open spec fn fresh_record(rows: Seq<StoredView>, detected: ProviderView) -> ProviderView {
    ProviderView {
        id: free_text(ids_of(rows), custom_id(detected.provider_name), "-"@),
        ..detected
    }
}

/// Why there is nothing to copy.
pub open spec fn copy_source_error(
    rows: Seq<StoredView>,
    stored: Seq<StoredView>,
    live: Option<ProviderView>,
    provider_id: Option<Seq<char>>,
    selected: Option<Seq<char>>,
) -> Option<ErrorView> {
    match provider_id {
        Some(id) => if row_of(stored, id) is None {
            Some(ErrorView::Config("供应商已不存在，请刷新列表后重试"@))
        } else {
            None
        },
        None => match live {
            None => Some(ErrorView::Config("当前第三方配置已变更，请刷新列表后重试"@)),
            Some(detected) => if live_ids(selected, detected, providers_of(stored)).len() == 0 {
                match saved_form(ids_of(rows), fresh_record(rows, detected)) {
                    Err(error) => Some(error),
                    Ok(_) => None,
                }
            } else {
                None
            },
        },
    }
}

/// Whether `source` is what is copied, once a detected provider that no record belongs to was
/// saved: `middle` are the rows then, and `saved` the providers.
pub open spec fn copy_source(
    rows: Seq<StoredView>,
    stored: Seq<StoredView>,
    live: Option<ProviderView>,
    provider_id: Option<Seq<char>>,
    selected: Option<Seq<char>>,
    now: Seq<char>,
    middle: Seq<StoredView>,
    saved: Seq<ProviderView>,
    source: ProviderView,
) -> bool {
    match provider_id {
        Some(id) => {
            &&& middle == rows
            &&& saved == providers_of(stored)
            &&& row_of(stored, id) matches Some(row) && source == row.provider
        },
        None => live matches Some(detected) && {
            let ids = live_ids(selected, detected, providers_of(stored));
            if ids.len() == 0 {
                saved_form(ids_of(rows), fresh_record(rows, detected)) matches Ok((view, template))
                    && saves(rows, view, template, now, middle, source) && saved == providers_of(
                    stored,
                ).push(source)
            } else {
                &&& middle == rows
                &&& saved == providers_of(stored)
                &&& source == if ids.len() == 1 {
                    match row_of(stored, ids[0]) {
                        Some(row) => adopted(detected, row.provider),
                        None => detected,
                    }
                } else {
                    detected
                }
            }
        },
    }
}

/// The names of providers.
pub open spec fn names_of(providers: Seq<ProviderView>) -> Seq<Seq<char>> {
    providers.map_values(|provider: ProviderView| provider.provider_name)
}

/// The copy of a provider: an identifier and a name that no other has.
pub open spec fn copy_of(
    source: ProviderView,
    rows: Seq<StoredView>,
    saved: Seq<ProviderView>,
    provider_name: Option<Seq<char>>,
) -> ProviderView {
    let wanted = match provider_name {
        Some(name) => kept(name),
        None => None,
    };
    let base = match wanted {
        Some(name) => name,
        None => source.provider_name + " 副本"@,
    };
    ProviderView {
        id: free_text(ids_of(rows), source.id + "-copy"@, "-"@),
        provider_name: free_text(names_of(saved), base, " "@),
        ..source
    }
}

/// Whether `result` is what copying a source gives, and `after` the rows then.
pub open spec fn copy_outcome(
    live: Option<ProviderView>,
    provider_name: Option<Seq<char>>,
    selected: Option<Seq<char>>,
    now: Seq<char>,
    before: Seq<StoredView>,
    middle: Seq<StoredView>,
    saved: Seq<ProviderView>,
    source: ProviderView,
    after: Seq<StoredView>,
    result: Result<DuplicateProviderResult, CodexxError>,
) -> bool {
    match saved_form(ids_of(middle), copy_of(source, middle, saved, provider_name)) {
        Err(error) => result matches Err(found) && found@ == error && after == before,
        Ok((view, template)) => result matches Ok(copied) && {
            &&& saves(middle, view, template, now, after, copied.provider@)
            &&& exists|listed: Seq<StoredView>| #[trigger]
                reads(after, listed) && provider_views(copied.providers@) == providers_of(listed)
            &&& opt_view(copied.active_provider_id) == match live {
                Some(live) => reconciled(selected, live_ids(selected, live, saved)),
                None => None,
            }
        },
    }
}

/// The characters of an optional string slice.
pub open spec fn opt_text(text: Option<&str>) -> Option<Seq<char>> {
    match text {
        Some(text) => Some(text@),
        None => None,
    }
}

/// An optional provider, as contracts speak of it.
pub open spec fn opt_provider(provider: Option<SavedProvider>) -> Option<ProviderView> {
    match provider {
        Some(provider) => Some(provider@),
        None => None,
    }
}

/// Whether `result` is what copying a provider gives, and `after` the rows then.
pub open spec fn duplicates(
    before: Seq<StoredView>,
    live: Option<ProviderView>,
    provider_id: Option<Seq<char>>,
    provider_name: Option<Seq<char>>,
    selected: Option<Seq<char>>,
    now: Seq<char>,
    after: Seq<StoredView>,
    result: Result<DuplicateProviderResult, CodexxError>,
) -> bool {
    exists|stored: Seq<StoredView>| #[trigger]
        reads(before, stored) && match copy_source_error(
            before,
            stored,
            live,
            provider_id,
            selected,
        ) {
            Some(error) => result matches Err(found) && found@ == error && after == before,
            None => exists|
                middle: Seq<StoredView>,
                saved: Seq<ProviderView>,
                source: ProviderView,
            | #[trigger]
                copy_source(
                    before,
                    stored,
                    live,
                    provider_id,
                    selected,
                    now,
                    middle,
                    saved,
                    source,
                ) && copy_outcome(
                    live,
                    provider_name,
                    selected,
                    now,
                    before,
                    middle,
                    saved,
                    source,
                    after,
                    result,
                ),
        }
}

fn unique_name(saved: &Vec<SavedProvider>, base: &str) -> (r: String)
    ensures
        r@ == free_text(names_of(provider_views(saved@)), base@, " "@),
        !names_of(provider_views(saved@)).contains(r@),
{
    let ghost taken = names_of(provider_views(saved@));
    if !has_name(saved, base) {
        return base.to_owned();
    }
    let count: usize = saved.len();
    let mut index: u128 = 2;
    loop
        invariant
            taken == names_of(provider_views(saved@)),
            taken.contains(base@),
            taken.len() == count,
            2 <= index,
            forall|k: nat| 2 <= k < index ==> taken.contains(#[trigger] numbered(base@, " "@, k)),
        decreases taken.len() + 3 - index,
    {
        proof {
            lemma_taken_bounds(taken, base@, " "@, index as nat);
        }
        let candidate = joined3(base, " ", &decimal_of(index));
        assert(candidate@ == numbered(base@, " "@, index as nat));
        if !has_name(saved, &candidate) {
            proof {
                lemma_free_text(taken, base@, " "@, index as nat);
            }
            return candidate;
        }
        index = index + 1;
    }
}

fn has_name(saved: &Vec<SavedProvider>, name: &str) -> (r: bool)
    ensures
        r == names_of(provider_views(saved@)).contains(name@),
{
    let ghost names = names_of(provider_views(saved@));
    let mut i: usize = 0;
    while i < saved.len()
        invariant
            i <= saved@.len(),
            names == names_of(provider_views(saved@)),
            forall|j: int| 0 <= j < i ==> names[j] != name@,
        decreases saved@.len() - i,
    {
        if same_text(&saved[i].provider_name, name) {
            assert(names[i as int] == name@);
            return true;
        }
        i = i + 1;
    }
    false
}

/// Copies a saved provider, or the live one where no identifier is given. A live provider that no
/// record belongs to is saved first, so that the copy is not taken for it. Nothing changes where
/// the copy cannot be saved.
pub fn duplicate_provider_inner(
    table: &mut ProviderTable,
    live: Option<SavedProvider>,
    provider_id: Option<&str>,
    provider_name: Option<&str>,
    selected: &Option<String>,
    now: &str,
) -> (r: Result<DuplicateProviderResult, CodexxError>)
    ensures
        duplicates(
            old(table)@,
            opt_provider(live),
            opt_text(provider_id),
            opt_text(provider_name),
            opt_view(*selected),
            now@,
            final(table)@,
            r,
        ),
{
    let ghost before = table@;
    let mut work = table.clone();
    let stored = stored_providers(table);
    let ghost views = stored_views(stored@);
    assert(reads(before, views));
    let mut saved = providers_in(&stored);
    let source = match provider_id {
        Some(id) => match find_row(&stored, id) {
            Some(at) => stored[at].provider.clone(),
            None => return Err(config("供应商已不存在，请刷新列表后重试")),
        },
        None => {
            let mut detected = match &live {
                Some(provider) => provider.clone(),
                None => return Err(config("当前第三方配置已变更，请刷新列表后重试")),
            };
            let matches = matching_saved_provider_ids(selected, &detected, &saved);
            if matches.len() == 1 {
                if let Some(at) = find_row(&stored, &matches[0]) {
                    let original = stored[at].provider.clone();
                    detected.id = original.id;
                    detected.model_mappings = original.model_mappings;
                    if detected.api_key.is_none() {
                        detected.api_key = original.api_key;
                    }
                }
                detected
            } else if matches.len() == 0 {
                let preferred = custom_provider_id(&detected.provider_name);
                let id = unique_provider_id(&work, &preferred);
                detected.id = id;
                match save_provider_inner(&mut work, detected, now) {
                    Ok(found) => {
                        let ghost earlier = saved@;
                        saved.push(found.clone());
                        assert(provider_views(saved@) =~= provider_views(earlier).push(found@));
                        found
                    },
                    Err(error) => return Err(error),
                }
            } else {
                detected
            }
        },
    };
    let active_provider_id = match &live {
        Some(live) => {
            let candidates = matching_saved_provider_ids(selected, live, &saved);
            reconcile_active_provider(selected, &candidates)
        },
        None => None,
    };
    let ghost middle = work@;
    let ghost known = provider_views(saved@);
    assert(copy_source(
        before,
        views,
        opt_provider(live),
        opt_text(provider_id),
        opt_view(*selected),
        now@,
        middle,
        known,
        source@,
    ));
    assert(copy_source_error(
        before,
        views,
        opt_provider(live),
        opt_text(provider_id),
        opt_view(*selected),
    ) is None);
    let base = match provider_name {
        Some(name) => match keep(name) {
            Some(name) => name,
            None => joined(&source.provider_name, " 副本"),
        },
        None => joined(&source.provider_name, " 副本"),
    };
    let mut copy = source.clone();
    copy.id = unique_provider_id(&work, &joined(&source.id, "-copy"));
    copy.provider_name = unique_name(&saved, &base);
    assert(copy@ == copy_of(source@, middle, known, opt_text(provider_name)));
    let r = match save_provider_inner(&mut work, copy, now) {
        Ok(provider) => {
            let providers = list_saved_providers_inner(&work);
            *table = work;
            Ok(DuplicateProviderResult { provider, providers, active_provider_id })
        },
        Err(error) => Err(error),
    };
    assert(copy_outcome(
        opt_provider(live),
        opt_text(provider_name),
        opt_view(*selected),
        now@,
        before,
        middle,
        known,
        source@,
        table@,
        r,
    ));
    r
}

/// What undoes a save: the rows as they were read before it and after it.
#[derive(Debug)]
pub struct ProviderStoreRollback {
    pub before: Vec<StoredProvider>,
    pub after: Vec<StoredProvider>,
}

/// Saves a provider and keeps what undoes it.
pub fn save_provider_with_rollback(table: &mut ProviderTable, provider: SavedProvider, now: &str) -> (r:
    Result<(SavedProvider, ProviderStoreRollback), CodexxError>)
    ensures
        match saved_form(ids_of(old(table)@), provider@) {
            Ok((view, template)) => r matches Ok((saved, rollback)) && saves(
                old(table)@,
                view,
                template,
                now@,
                final(table)@,
                saved@,
            ) && reads(old(table)@, stored_views(rollback.before@)) && reads(
                final(table)@,
                stored_views(rollback.after@),
            ),
            Err(error) => r matches Err(found) && found@ == error && final(table)@ == old(table)@,
        },
{
    let before = stored_providers(table);
    match save_provider_inner(table, provider, now) {
        Ok(saved) => {
            let after = stored_providers(table);
            Ok((saved, ProviderStoreRollback { before, after }))
        },
        Err(error) => Err(error),
    }
}

/// The record that a detected provider is saved as: the only one that it may be, or a new one;
/// none where several fit.
pub open spec fn detected_record(
    rows: Seq<StoredView>,
    stored: Seq<StoredView>,
    selected: Option<Seq<char>>,
    live: ProviderView,
) -> Option<ProviderView> {
    let ids = live_ids(selected, live, providers_of(stored));
    if ids.len() == 0 {
        Some(fresh_record(rows, live))
    } else if ids.len() == 1 {
        Some(
            match row_of(stored, ids[0]) {
                Some(row) => adopted(live, row.provider),
                None => ProviderView { id: ids[0], ..live },
            },
        )
    } else {
        None
    }
}

/// Whether `result` is what saving a detected provider gives, and `after` the rows then.
pub open spec fn saves_detected(
    before: Seq<StoredView>,
    selected: Option<Seq<char>>,
    live: ProviderView,
    now: Seq<char>,
    after: Seq<StoredView>,
    result: Result<Option<ProviderStoreRollback>, CodexxError>,
) -> bool {
    exists|stored: Seq<StoredView>| #[trigger]
        reads(before, stored) && match detected_record(before, stored, selected, live) {
            None => result matches Ok(None) && after == before,
            Some(record) => match saved_form(ids_of(before), record) {
                Err(error) => result matches Err(found) && found@ == error && after == before,
                Ok((view, template)) => result matches Ok(Some(rollback)) && stored_views(
                    rollback.before@,
                ) == stored && reads(after, stored_views(rollback.after@)) && exists|
                    saved: ProviderView,
                | #[trigger] saves(before, view, template, now, after, saved),
            },
        }
}

/// Saves the provider that the live configuration uses, unless several records may be it. The
/// live route is kept before a write action replaces it.
pub fn save_detected_provider_with_rollback(
    table: &mut ProviderTable,
    selected: &Option<String>,
    live: SavedProvider,
    now: &str,
) -> (r: Result<Option<ProviderStoreRollback>, CodexxError>)
    ensures
        saves_detected(old(table)@, opt_view(*selected), live@, now@, final(table)@, r),
{
    let mut live = live;
    let ghost start = live@;
    let ghost rows = table@;
    let before = stored_providers(table);
    let ghost stored = stored_views(before@);
    let saved = providers_in(&before);
    let matches = matching_saved_provider_ids(selected, &live, &saved);
    if matches.len() > 1 {
        assert(detected_record(rows, stored, opt_view(*selected), start) is None);
        return Ok(None);
    }
    if matches.len() == 1 {
        if let Some(at) = find_row(&before, &matches[0]) {
            let original = before[at].provider.clone();
            live.model_mappings = original.model_mappings;
            if live.api_key.is_none() {
                live.api_key = original.api_key;
            }
        }
        live.id = matches[0].clone();
    } else {
        let preferred = custom_provider_id(&live.provider_name);
        let id = unique_provider_id(table, &preferred);
        live.id = id;
    }
    assert(detected_record(rows, stored, opt_view(*selected), start) == Some(live@));
    match save_provider_inner(table, live, now) {
        Ok(_) => {
            let after = stored_providers(table);
            Ok(Some(ProviderStoreRollback { before, after }))
        },
        Err(error) => Err(error),
    }
}

/// Whether a save changed the row of an identifier.
pub open spec fn changed_row(
    before: Seq<StoredView>,
    after: Seq<StoredView>,
    id: Seq<char>,
) -> bool {
    row_of(before, id) != row_of(after, id)
}

/// Whether the row of an identifier was changed by a save and by something else since.
pub open spec fn conflicting_row(
    before: Seq<StoredView>,
    after: Seq<StoredView>,
    current: Seq<StoredView>,
    id: Seq<char>,
) -> bool {
    changed_row(before, after, id) && row_of(current, id) != row_of(after, id)
}

/// The rows for which a test on the identifier holds, in order.
pub open spec fn rows_where(rows: Seq<StoredView>, keep: spec_fn(Seq<char>) -> bool) -> Seq<StoredView>
    decreases rows.len(),
{
    if rows.len() == 0 {
        seq![]
    } else {
        let head = rows_where(rows.drop_last(), keep);
        if keep(rows.last().provider.id) {
            head.push(rows.last())
        } else {
            head
        }
    }
}

/// Rows with more of them, each by when it was created.
pub open spec fn placed_all(rows: Seq<StoredView>, more: Seq<StoredView>) -> Seq<StoredView>
    decreases more.len(),
{
    if more.len() == 0 {
        rows
    } else {
        placed(placed_all(rows, more.drop_last()), more.last())
    }
}

/// The test for an identifier whose row a save changed.
pub open spec fn changed_by(before: Seq<StoredView>, after: Seq<StoredView>) -> spec_fn(
    Seq<char>,
) -> bool {
    |id: Seq<char>| changed_row(before, after, id)
}

/// The test for an identifier whose row a save did not change.
pub open spec fn unchanged_by(before: Seq<StoredView>, after: Seq<StoredView>) -> spec_fn(
    Seq<char>,
) -> bool {
    |id: Seq<char>| !changed_row(before, after, id)
}

/// The rows once a save was undone: those that it did not change as they are, and those that it
/// changed as they were, put in again by when they were created.
pub open spec fn restored(
    rows: Seq<StoredView>,
    before: Seq<StoredView>,
    after: Seq<StoredView>,
) -> Seq<StoredView> {
    placed_all(
        rows_where(rows, unchanged_by(before, after)),
        rows_where(before, changed_by(before, after)),
    )
}

fn same_mappings(
    left: &Vec<ProviderModelMapping>,
    right: &Vec<ProviderModelMapping>,
) -> (r: bool)
    ensures
        r == (mapping_views(left@) == mapping_views(right@)),
{
    let ghost a = mapping_views(left@);
    let ghost b = mapping_views(right@);
    if left.len() != right.len() {
        assert(a.len() != b.len());
        return false;
    }
    let mut i: usize = 0;
    while i < left.len()
        invariant
            i <= left@.len(),
            left@.len() == right@.len(),
            a == mapping_views(left@),
            b == mapping_views(right@),
            forall|j: int| 0 <= j < i ==> a[j] == b[j],
        decreases left@.len() - i,
    {
        let same_window: bool = match (left[i].context_window, right[i].context_window) {
            (Some(m), Some(n)) => m == n,
            (None, None) => true,
            _ => false,
        };
        if !same_window || !same_text(&left[i].model, &right[i].model) || !same_text(
            &left[i].display_name,
            &right[i].display_name,
        ) {
            assert(a[i as int] != b[i as int]);
            return false;
        }
        assert(a[i as int] == b[i as int]);
        i = i + 1;
    }
    assert(a =~= b);
    true
}

/// Whether two providers are the same in every field.
pub fn same_provider(left: &SavedProvider, right: &SavedProvider) -> (r: bool)
    ensures
        r == (left@ == right@),
{
    same_text(&left.id, &right.id) && same_text(&left.provider_name, &right.provider_name)
        && same_text(&left.base_url, &right.base_url) && same_text(&left.model, &right.model)
        && same_opt(&left.api_key, &right.api_key) && same_opt(
        &left.toml_config,
        &right.toml_config,
    ) && same_text(&left.wire_api, &right.wire_api) && left.requires_openai_auth
        == right.requires_openai_auth && same_mappings(&left.model_mappings, &right.model_mappings)
}

fn same_row(left: &StoredProvider, right: &StoredProvider) -> (r: bool)
    ensures
        r == (left@ == right@),
{
    same_provider(&left.provider, &right.provider) && same_text(
        &left.created_at,
        &right.created_at,
    ) && same_text(&left.updated_at, &right.updated_at) && same_text(&left.source, &right.source)
        && same_opt(&left.source_id, &right.source_id)
}

fn same_found(left: &Vec<StoredProvider>, right: &Vec<StoredProvider>, id: &str) -> (r: bool)
    ensures
        r == (row_of(stored_views(left@), id@) == row_of(stored_views(right@), id@)),
{
    match (find_row(left, id), find_row(right, id)) {
        (Some(i), Some(j)) => same_row(&left[i], &right[j]),
        (None, None) => true,
        _ => false,
    }
}

fn find_conflict(
    rows: &Vec<StoredProvider>,
    before: &Vec<StoredProvider>,
    after: &Vec<StoredProvider>,
    current: &Vec<StoredProvider>,
) -> (r: Option<String>)
    ensures
        match r {
            Some(id) => conflicting_row(
                stored_views(before@),
                stored_views(after@),
                stored_views(current@),
                id@,
            ),
            None => forall|i: int|
                0 <= i < rows@.len() ==> !conflicting_row(
                    stored_views(before@),
                    stored_views(after@),
                    stored_views(current@),
                    (#[trigger] rows@[i])@.provider.id,
                ),
        },
{
    let mut i: usize = 0;
    while i < rows.len()
        invariant
            i <= rows@.len(),
            forall|j: int|
                0 <= j < i ==> !conflicting_row(
                    stored_views(before@),
                    stored_views(after@),
                    stored_views(current@),
                    (#[trigger] rows@[j])@.provider.id,
                ),
        decreases rows@.len() - i,
    {
        let id = &rows[i].provider.id;
        if !same_found(before, after, id) && !same_found(current, after, id) {
            return Some(id.clone());
        }
        i = i + 1;
    }
    None
}

proof fn lemma_row_is_listed(rows: Seq<StoredView>, id: Seq<char>)
    requires
        row_of(rows, id) is Some,
    ensures
        exists|i: int| 0 <= i < rows.len() && (#[trigger] rows[i]).provider.id == id,
{
    let at = choose|at: int| first_at(rows, id, at);
    assert(first_at(rows, id, at));
    assert(rows[at].provider.id == id);
}

/// Undoes a save, unless one of the rows that it changed was changed again since.
pub fn rollback_provider_store_inner(table: &mut ProviderTable, rollback: &ProviderStoreRollback) -> (r:
    Result<(), CodexxError>)
    ensures
        exists|current: Seq<StoredView>| #[trigger]
            reads(old(table)@, current) && {
                let before = stored_views(rollback.before@);
                let after = stored_views(rollback.after@);
                match r {
                    Ok(()) => (forall|id: Seq<char>|
                        !#[trigger] conflicting_row(before, after, current, id)) && final(table)@
                        == restored(old(table)@, before, after),
                    Err(error) => final(table)@ == old(table)@ && exists|id: Seq<char>| #[trigger]
                        conflicting_row(before, after, current, id) && error@
                            == ErrorView::Database(
                            "供应商 "@ + id + " 已被其他操作修改，拒绝覆盖并发变更"@,
                        ),
                }
            },
{
    let ghost start = table@;
    let current = stored_providers(table);
    let ghost before = stored_views(rollback.before@);
    let ghost after = stored_views(rollback.after@);
    let ghost now = stored_views(current@);
    let mut conflict = find_conflict(&rollback.before, &rollback.before, &rollback.after, &current);
    if conflict.is_none() {
        conflict = find_conflict(&rollback.after, &rollback.before, &rollback.after, &current);
    }
    if let Some(id) = conflict {
        return Err(
            CodexxError::Database(
                joined3("供应商 ", &id, " 已被其他操作修改，拒绝覆盖并发变更"),
            ),
        );
    }
    proof {
        assert forall|id: Seq<char>| !#[trigger] conflicting_row(before, after, now, id) by {
            if changed_row(before, after, id) {
                if row_of(before, id) is Some {
                    lemma_row_is_listed(before, id);
                    let i = choose|i: int|
                        0 <= i < before.len() && (#[trigger] before[i]).provider.id == id;
                    assert(rollback.before@[i]@.provider.id == id);
                } else {
                    lemma_row_is_listed(after, id);
                    let i = choose|i: int|
                        0 <= i < after.len() && (#[trigger] after[i]).provider.id == id;
                    assert(rollback.after@[i]@.provider.id == id);
                }
            }
        }
    }
    let ghost same = unchanged_by(before, after);
    let ghost changed = changed_by(before, after);
    let mut rows: Vec<StoredProvider> = Vec::new();
    let mut i: usize = 0;
    assert(stored_views(rows@) =~= seq![]);
    while i < table.rows.len()
        invariant
            i <= table.rows@.len(),
            table@ == start,
            before == stored_views(rollback.before@),
            after == stored_views(rollback.after@),
            same == unchanged_by(before, after),
            stored_views(rows@) == rows_where(start.take(i as int), same),
        decreases table.rows@.len() - i,
    {
        assert(start.take(i + 1).drop_last() =~= start.take(i as int));
        if same_found(&rollback.before, &rollback.after, &table.rows[i].provider.id) {
            let ghost earlier = rows@;
            rows.push(table.rows[i].clone());
            assert(stored_views(rows@) =~= stored_views(earlier).push(start[i as int]));
        }
        i = i + 1;
    }
    assert(start.take(start.len() as int) =~= start);
    let ghost kept_rows = stored_views(rows@);
    let mut i: usize = 0;
    while i < rollback.before.len()
        invariant
            i <= rollback.before@.len(),
            table@ == start,
            before == stored_views(rollback.before@),
            after == stored_views(rollback.after@),
            changed == changed_by(before, after),
            stored_views(rows@) == placed_all(
                kept_rows,
                rows_where(before.take(i as int), changed),
            ),
        decreases rollback.before@.len() - i,
    {
        assert(before.take(i + 1).drop_last() =~= before.take(i as int));
        if !same_found(&rollback.before, &rollback.after, &rollback.before[i].provider.id) {
            let ghost earlier = rows_where(before.take(i as int), changed);
            assert(earlier.push(before[i as int]).drop_last() =~= earlier);
            place(&mut rows, rollback.before[i].clone());
        }
        i = i + 1;
    }
    assert(before.take(before.len() as int) =~= before);
    table.rows = rows;
    Ok(())
}

/// The rows without those of an identifier.
pub open spec fn rows_without(rows: Seq<StoredView>, id: Seq<char>) -> Seq<StoredView> {
    rows_where(rows, other_than(id))
}

/// The test for any identifier but one.
pub open spec fn other_than(id: Seq<char>) -> spec_fn(Seq<char>) -> bool {
    |other: Seq<char>| other != id
}

/// The remembered selection once the provider of an identifier is removed: none where it was that
/// one.
pub open spec fn selection_without(selected: Option<Seq<char>>, id: Seq<char>) -> Option<Seq<char>> {
    if selected == Some(id) {
        None
    } else {
        selected
    }
}

fn clear_selection(selected: &Option<String>, id: &str) -> (r: Option<String>)
    ensures
        opt_view(r) == selection_without(opt_view(*selected), id@),
{
    match selected {
        Some(name) => if same_text(name, id) {
            None
        } else {
            Some(name.clone())
        },
        None => None,
    }
}

/// The remembered selection of any configuration directory once a provider was deleted, given the
/// identifier that was asked for.
pub fn selection_after_delete(selected: &Option<String>, id: &str) -> (r: Option<String>)
    ensures
        opt_view(r) == if opt_view(*selected) == Some(trimmed(id@)) {
            None
        } else {
            opt_view(*selected)
        },
{
    clear_selection(selected, &trim(id))
}

/// Removes the provider of an identifier, and the remembered selection where it was that one.
pub fn delete_provider_inner(table: &mut ProviderTable, selected: &mut Option<String>, id: &str)
    ensures
        final(table)@ == rows_without(old(table)@, id@),
        opt_view(*final(selected)) == selection_without(opt_view(*old(selected)), id@),
{
    *selected = clear_selection(selected, id);
    let ghost start = table@;
    let ghost others = other_than(id@);
    let mut rows: Vec<StoredProvider> = Vec::new();
    let mut i: usize = 0;
    assert(stored_views(rows@) =~= seq![]);
    while i < table.rows.len()
        invariant
            i <= table.rows@.len(),
            table@ == start,
            others == other_than(id@),
            stored_views(rows@) == rows_where(start.take(i as int), others),
        decreases table.rows@.len() - i,
    {
        assert(start.take(i + 1).drop_last() =~= start.take(i as int));
        if !same_text(&table.rows[i].provider.id, id) {
            let ghost earlier = rows@;
            rows.push(table.rows[i].clone());
            assert(stored_views(rows@) =~= stored_views(earlier).push(start[i as int]));
        }
        i = i + 1;
    }
    assert(start.take(start.len() as int) =~= start);
    table.rows = rows;
}

/// How many rows a consolidation merges: none. Rows of distinct identifiers are independent
/// records, even where every other field is the same.
pub fn consolidate_legacy_provider_duplicates(table: &mut ProviderTable) -> (r: usize)
    ensures
        r == 0,
        final(table)@ == old(table)@,
{
    0
}

} // verus!
