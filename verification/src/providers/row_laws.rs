//! What holds of the saves that can be undone, of the identifiers that providers are saved under,
//! and of providers that come from elsewhere.
use crate::error::CodexxError;
use crate::providers::provider_laws::lemma_first_row;
use crate::providers::store::{
    hydrates, normalize_saved_provider, rewritten, ProviderView, SavedProvider,
};
use crate::providers::table::{
    first_at, ids_of, lemma_row_at, normalize_saved_provider_for_save, reads, row_of, same_provider,
    save_detected_provider_with_rollback, save_provider_with_rollback, saved_form, saves,
    stored_providers, stored_views, upsert_ccswitch_provider, upserted, written,
    ProviderStoreRollback, ProviderTable, ProviderUpsertMode, ProviderUpsertResult, StoredProvider,
    StoredView,
};
use crate::providers::table_laws::law_write_concerns_one_row;
use crate::text::{opt_view, trim, trimmed};
use vstd::prelude::*;

verus! {

/// A provider is saved in its normal form, under its own identifier where that is saved already. It
/// is refused where its normal form is, and where its identifier only becomes that of another one.
pub proof fn law_saved_providers_keep_their_identifier(
    table: &ProviderTable,
    provider: SavedProvider,
    normal: Result<SavedProvider, CodexxError>,
    r: Result<SavedProvider, CodexxError>,
)
    requires
        call_ensures(normalize_saved_provider_for_save, (table, provider), r),
        call_ensures(normalize_saved_provider, (provider,), normal),
    ensures
        normal is Err ==> r is Err && r->Err_0@ == normal->Err_0@,
        normal is Ok && ids_of(table@).contains(trimmed(provider.id@)) ==> r is Ok && r->Ok_0.id@
            == trimmed(provider.id@),
        normal is Ok && !ids_of(table@).contains(trimmed(provider.id@)) ==> (r is Err <==> trimmed(
            provider.id@,
        ) != normal->Ok_0.id@ && ids_of(table@).contains(normal->Ok_0.id@)),
        r is Ok && !ids_of(table@).contains(trimmed(provider.id@)) ==> r->Ok_0.id@
            == normal->Ok_0.id@,
        r is Ok ==> r->Ok_0@ == (ProviderView {
            id: r->Ok_0@.id,
            toml_config: r->Ok_0@.toml_config,
            ..normal->Ok_0@
        }),
        r is Ok ==> (r->Ok_0.toml_config is Some <==> normal->Ok_0.toml_config is Some),
{
    if r is Ok {
        assert(r->Ok_0@.id == r->Ok_0.id@);
        assert(normal->Ok_0@.id == normal->Ok_0.id@);
        assert(r->Ok_0@.toml_config == opt_view(r->Ok_0.toml_config));
        assert(normal->Ok_0@.toml_config == opt_view(normal->Ok_0.toml_config));
    }
    if normal is Ok {
        assert(normal->Ok_0@.id == normal->Ok_0.id@);
    }
}

/// A save that can be undone changes one row, as a save does, and remembers the rows before and
/// after it. One that is refused changes nothing.
pub proof fn law_saves_remember_both_sides(
    table: &mut ProviderTable,
    provider: SavedProvider,
    now: &str,
    form: Result<SavedProvider, CodexxError>,
    id: Seq<char>,
    r: Result<(SavedProvider, ProviderStoreRollback), CodexxError>,
)
    requires
        call_ensures(save_provider_with_rollback, (table, provider, now), r),
        call_ensures(normalize_saved_provider_for_save, (&*old(table), provider), form),
    ensures
        r is Ok <==> form is Ok,
        r is Err ==> r->Err_0@ == form->Err_0@ && final(table)@ == old(table)@,
        r is Ok ==> (r->Ok_0).0.id@ == form->Ok_0.id@,
        r is Ok ==> row_of(final(table)@, form->Ok_0.id@) is Some && row_of(
            final(table)@,
            form->Ok_0.id@,
        )->0.updated_at == now@,
        r is Ok && id != form->Ok_0.id@ ==> row_of(final(table)@, id) == row_of(old(table)@, id),
        r is Ok ==> ids_of(stored_views((r->Ok_0).1.before@)) == ids_of(old(table)@),
        r is Ok ==> ids_of(stored_views((r->Ok_0).1.after@)) == ids_of(final(table)@),
{
    if r is Ok {
        let before = old(table)@;
        let (view, template) = saved_form(ids_of(before), provider@)->Ok_0;
        let saved = (r->Ok_0).0;
        let row = choose|row: ProviderView| #[trigger]
            rewritten(view, template, row) && final(table)@ == written(before, row, None, now@)
                && hydrates(row, saved@);
        assert(saved@.id == row.id);
        assert(form->Ok_0@.id == view.id);
        law_write_concerns_one_row(before, row, None, now@, row.id);
        law_write_concerns_one_row(before, row, None, now@, id);
        lemma_ids_are_read(before, stored_views((r->Ok_0).1.before@));
        lemma_ids_are_read(final(table)@, stored_views((r->Ok_0).1.after@));
    }
}

proof fn lemma_ids_are_read(rows: Seq<StoredView>, stored: Seq<StoredView>)
    requires
        reads(rows, stored),
    ensures
        ids_of(stored) == ids_of(rows),
{
    assert(ids_of(stored).len() == ids_of(rows).len());
    assert forall|i: int| 0 <= i < rows.len() implies ids_of(stored)[i] == ids_of(rows)[i] by {
        assert(hydrates(rows[i].provider, stored[i].provider));
    }
    assert(ids_of(stored) =~= ids_of(rows));
}

/// Reading gives one provider for each row, in order, with the row's own origin and times.
pub proof fn law_rows_are_read_in_order(table: &ProviderTable, i: int, r: Vec<StoredProvider>)
    requires
        call_ensures(stored_providers, (table,), r),
    ensures
        r@.len() == table.rows@.len(),
        0 <= i < r@.len() ==> ({
            let read = r@[i]@;
            let row = table.rows@[i]@;
            &&& read.provider.id == row.provider.id
            &&& read.source == row.source
            &&& read.source_id == row.source_id
            &&& read.created_at == row.created_at
            &&& read.updated_at == row.updated_at
            &&& row.provider.toml_config is None ==> read.provider == row.provider
        }),
{
    let views = stored_views(r@);
    assert(views.len() == r@.len());
    assert(table@.len() == table.rows@.len());
    if 0 <= i < r@.len() {
        assert(views[i] == r@[i]@);
        assert(table@[i] == table.rows@[i]@);
        assert(hydrates(table@[i].provider, views[i].provider));
    }
}

/// An import from cc-switch needs the identifier that the provider has there. It is then written
/// once, with that origin, and no other row changes.
pub proof fn law_imports_note_where_they_come_from(
    table: &mut ProviderTable,
    provider: SavedProvider,
    source_id: &str,
    now: &str,
    text: String,
    id: Seq<char>,
    r: Result<ProviderUpsertResult, CodexxError>,
)
    requires
        call_ensures(upsert_ccswitch_provider, (table, provider, source_id, now), r),
        call_ensures(trim, (source_id,), text),
    ensures
        r is Err <==> text@.len() == 0,
        r is Err ==> final(table)@ == old(table)@,
        r is Ok ==> row_of(final(table)@, r->Ok_0.provider.id@) is Some,
        r is Ok ==> ({
            let row = row_of(final(table)@, r->Ok_0.provider.id@)->0;
            &&& row.source == "cc-switch"@
            &&& row.source_id == Some(text@)
            &&& row.updated_at == now@
        }),
        r is Ok && id != r->Ok_0.provider.id@ ==> row_of(final(table)@, id) == row_of(
            old(table)@,
            id,
        ),
{
    if r is Ok {
        let before = old(table)@;
        let origin = Some(("cc-switch"@, trimmed(source_id@)));
        let result = r->Ok_0;
        let stored = choose|stored: Seq<StoredView>| #[trigger]
            reads(before, stored) && {
                let (row, kind) = upserted(
                    stored,
                    provider@,
                    ProviderUpsertMode::Imported,
                    origin,
                );
                &&& final(table)@ == written(before, row, origin, now@)
                &&& result.kind == kind
                &&& hydrates(row, result.provider@)
            };
        let (row, kind) = upserted(stored, provider@, ProviderUpsertMode::Imported, origin);
        assert(result.provider@.id == row.id);
        law_write_concerns_one_row(before, row, origin, now@, row.id);
        law_write_concerns_one_row(before, row, origin, now@, id);
        let after = final(table)@;
        if exists|at: int| first_at(before, row.id, at) {
            let at = choose|at: int| first_at(before, row.id, at);
            assert(first_at(after, row.id, at)) by {
                assert forall|j: int| 0 <= j < at implies (#[trigger] after[j]).provider.id
                    != row.id by {
                    assert(after[j] == before[j]);
                }
            }
            lemma_row_at(after, row.id, at);
        } else {
            let new = crate::providers::table::new_row(row, origin, now@);
            let at = crate::providers::provider_laws::lemma_placed_somewhere(before, new);
            assert forall|j: int| 0 <= j < at implies (#[trigger] after[j]).provider.id
                != row.id by {
                if before[j].provider.id == row.id {
                    let first = lemma_first_row(before, row.id, j);
                }
            }
            assert(first_at(after, row.id, at));
            lemma_row_at(after, row.id, at);
        }
    }
}

/// Whether rows differ from earlier ones in that of one identifier alone, which is there.
pub open spec fn changes_only(before: Seq<StoredView>, after: Seq<StoredView>, id: Seq<char>) -> bool {
    row_of(after, id) is Some && forall|other: Seq<char>|
        other != id ==> #[trigger] row_of(after, other) == row_of(before, other)
}

/// Saving the live provider changes one row; where it fails, or several records may be the
/// live one, nothing changes.
pub proof fn law_detected_providers_change_one_row(
    table: &mut ProviderTable,
    selected: &Option<String>,
    live: SavedProvider,
    now: &str,
    r: Result<Option<ProviderStoreRollback>, CodexxError>,
)
    requires
        call_ensures(save_detected_provider_with_rollback, (table, selected, live, now), r),
    ensures
        r is Err ==> final(table)@ == old(table)@,
        r is Ok && r->Ok_0 is None ==> final(table)@ == old(table)@,
        r is Ok && r->Ok_0 is Some ==> exists|id: Seq<char>| #[trigger]
            changes_only(old(table)@, final(table)@, id),
{
    let before = old(table)@;
    if r is Ok && r->Ok_0 is Some {
        let stored = choose|stored: Seq<StoredView>| #[trigger]
            reads(before, stored) && match crate::providers::table::detected_record(
                before,
                stored,
                opt_view(*selected),
                live@,
            ) {
                None => false,
                Some(record) => match saved_form(ids_of(before), record) {
                    Err(error) => false,
                    Ok((view, template)) => exists|saved: ProviderView| #[trigger]
                        saves(before, view, template, now@, final(table)@, saved),
                },
            };
        let record = crate::providers::table::detected_record(
            before,
            stored,
            opt_view(*selected),
            live@,
        )->0;
        let (view, template) = saved_form(ids_of(before), record)->Ok_0;
        let saved = choose|saved: ProviderView| #[trigger]
            saves(before, view, template, now@, final(table)@, saved);
        let row = choose|row: ProviderView| #[trigger]
            rewritten(view, template, row) && final(table)@ == written(before, row, None, now@)
                && hydrates(row, saved);
        assert forall|id: Seq<char>| id != row.id implies #[trigger] row_of(final(table)@, id)
            == row_of(before, id) by {
            law_write_concerns_one_row(before, row, None, now@, id);
        }
        law_write_concerns_one_row(before, row, None, now@, row.id);
        assert(changes_only(before, final(table)@, row.id));
    }
}

/// Two providers are the same just where every field is.
pub proof fn law_same_providers_agree_in_every_field(
    left: &SavedProvider,
    right: &SavedProvider,
    r: bool,
)
    requires
        call_ensures(same_provider, (left, right), r),
    ensures
        r ==> left.id@ == right.id@ && left.provider_name@ == right.provider_name@ && left.model@
            == right.model@ && left.base_url@ == right.base_url@ && left.wire_api@
            == right.wire_api@ && opt_view(left.api_key) == opt_view(right.api_key)
            && left.requires_openai_auth == right.requires_openai_auth && opt_view(
            left.toml_config,
        ) == opt_view(right.toml_config),
        left@ == right@ ==> r,
{
    if r {
        assert(left@.id == left.id@ && right@.id == right.id@);
    }
}

proof fn lemma_plain_rows(rows: Seq<StoredView>, stored: Seq<StoredView>)
    requires
        reads(rows, stored),
        forall|i: int| 0 <= i < rows.len() ==> (#[trigger] rows[i]).provider.toml_config is None,
    ensures
        stored == rows,
{
    assert forall|i: int| 0 <= i < rows.len() implies stored[i] == rows[i] by {
        assert(hydrates(rows[i].provider, stored[i].provider));
    }
    assert(stored =~= rows);
}

/// Among rows without templates, a provider is saved as the active one just if its form is accepted
/// and it is one of those that the live configuration is; where that is none of them, its identifier
/// must not be saved yet.
pub proof fn law_active_saves_are_of_the_live_provider(
    table: &ProviderTable,
    provider: SavedProvider,
    live: &Option<SavedProvider>,
    selected: &Option<String>,
    providers: &[SavedProvider],
    form: Result<SavedProvider, CodexxError>,
    ids: Vec<String>,
    r: Result<SavedProvider, CodexxError>,
)
    requires
        call_ensures(
            crate::providers::live::save_active_provider_with_apply,
            (table, provider, live, selected),
            r,
        ),
        call_ensures(normalize_saved_provider_for_save, (table, provider), form),
        *live is Some,
        crate::providers::store::provider_views(providers@)
            == crate::providers::table::providers_of(table@),
        call_ensures(
            crate::providers::store::matching_saved_provider_ids,
            (selected, &live->0, providers),
            ids,
        ),
        forall|i: int|
            0 <= i < table@.len() ==> (#[trigger] table@[i]).provider.toml_config is None,
    ensures
        form is Err ==> r is Err && r->Err_0@ == form->Err_0@,
        form is Ok && ids@.len() == 0 ==> (r is Ok <==> !ids_of(table@).contains(form->Ok_0.id@)),
        form is Ok && ids@.len() > 0 ==> (r is Ok <==> crate::text::text_views(ids@).contains(
            form->Ok_0.id@,
        )),
        r is Ok ==> r->Ok_0.id@ == form->Ok_0.id@,
{
    assert(crate::text::text_views(ids@).len() == ids@.len());
    if form is Ok {
        assert(form->Ok_0@.id == form->Ok_0.id@);
        let (view, template) = saved_form(ids_of(table@), provider@)->Ok_0;
        let stored = choose|stored: Seq<StoredView>| #[trigger]
            reads(table@, stored) && match crate::providers::live::active_save_error(
                view.id,
                crate::providers::table::opt_provider(*live),
                opt_view(*selected),
                crate::providers::table::providers_of(stored),
            ) {
                Some(error) => r matches Err(found) && found@ == error,
                None => r matches Ok(found) && rewritten(view, template, found@),
            };
        lemma_plain_rows(table@, stored);
        let saved = crate::providers::table::providers_of(table@);
        assert(saved.len() == table@.len());
        if r is Ok {
            assert(r->Ok_0@.id == r->Ok_0.id@);
        }
        if ids_of(table@).contains(view.id) {
            let k = ids_of(table@).index_of(view.id);
            assert(saved[k].id == view.id);
        }
        if exists|i: int| 0 <= i < saved.len() && (#[trigger] saved[i]).id == view.id {
            let k = choose|i: int| 0 <= i < saved.len() && (#[trigger] saved[i]).id == view.id;
            assert(ids_of(table@)[k] == view.id);
        }
    }
}

/// Among rows without templates, the live provider is saved unless several of them may be it: as a
/// new row where none is.
pub proof fn law_detected_providers_are_saved_unless_ambiguous(
    table: &mut ProviderTable,
    selected: &Option<String>,
    live: SavedProvider,
    now: &str,
    providers: &[SavedProvider],
    ids: Vec<String>,
    r: Result<Option<ProviderStoreRollback>, CodexxError>,
)
    requires
        call_ensures(save_detected_provider_with_rollback, (table, selected, live, now), r),
        crate::providers::store::provider_views(providers@)
            == crate::providers::table::providers_of(old(table)@),
        call_ensures(
            crate::providers::store::matching_saved_provider_ids,
            (selected, &live, providers),
            ids,
        ),
        forall|i: int|
            0 <= i < old(table)@.len() ==> (
            #[trigger] old(table)@[i]).provider.toml_config is None,
    ensures
        r is Ok ==> (r->Ok_0 is None <==> ids@.len() >= 2),
        r is Err ==> ids@.len() <= 1,
{
    assert(crate::text::text_views(ids@).len() == ids@.len());
    let before = old(table)@;
    let stored = choose|stored: Seq<StoredView>| #[trigger]
        reads(before, stored) && match crate::providers::table::detected_record(
            before,
            stored,
            opt_view(*selected),
            live@,
        ) {
            None => r matches Ok(None) && final(table)@ == before,
            Some(record) => match saved_form(ids_of(before), record) {
                Err(error) => r is Err,
                Ok((view, template)) => r matches Ok(Some(_)),
            },
        };
    lemma_plain_rows(before, stored);
}

/// Among rows without templates, a save is undone just if none of the rows that it changed was
/// changed since.
pub proof fn law_undoing_needs_untouched_rows(
    table: &mut ProviderTable,
    rollback: &ProviderStoreRollback,
    r: Result<(), CodexxError>,
)
    requires
        call_ensures(
            crate::providers::table::rollback_provider_store_inner,
            (table, rollback),
            r,
        ),
        forall|i: int|
            0 <= i < old(table)@.len() ==> (
            #[trigger] old(table)@[i]).provider.toml_config is None,
    ensures
        r is Ok <==> forall|id: Seq<char>| #[trigger]
            row_of(stored_views(rollback.before@), id) != row_of(
                stored_views(rollback.after@),
                id,
            ) ==> row_of(old(table)@, id) == row_of(stored_views(rollback.after@), id),
{
    let before = stored_views(rollback.before@);
    let after = stored_views(rollback.after@);
    let current = choose|current: Seq<StoredView>| #[trigger]
        reads(old(table)@, current) && match r {
            Ok(()) => forall|id: Seq<char>|
                !#[trigger] crate::providers::table::conflicting_row(before, after, current, id),
            Err(error) => exists|id: Seq<char>| #[trigger]
                crate::providers::table::conflicting_row(before, after, current, id),
        };
    lemma_plain_rows(old(table)@, current);
    if r is Ok {
        assert forall|id: Seq<char>| #[trigger] row_of(before, id) != row_of(after, id) implies
            row_of(old(table)@, id) == row_of(after, id) by {
            assert(!crate::providers::table::conflicting_row(before, after, current, id));
        }
    } else {
        let id = choose|id: Seq<char>| #[trigger]
            crate::providers::table::conflicting_row(before, after, current, id);
        assert(row_of(before, id) != row_of(after, id));
    }
}

} // verus!
