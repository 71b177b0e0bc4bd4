//! What every operation on the table of saved providers keeps.
use crate::providers::store::{authority, hydrates, prints, ProviderView};
use crate::providers::table::{
    changed_by, changed_row, first_at, first_free, first_from, free_text, from_origin, ids_differ,
    ids_of, in_order, lemma_first_from, lemma_no_row, lemma_placed, lemma_row_at,
    lemma_taken_bounds, new_row, numbered, other_than, placed, placed_all, reads, restored, row_of,
    rows_where, rows_without, unchanged_by, upsert_target, upserted, written, Origin,
    ProviderUpsertMode, StoredView,
};
use crate::text::{lemma_precedes_total, lemma_precedes_transitive, precedes};
use vstd::prelude::*;

verus! {

/// Either an identifier has a first row, or no row has it.
proof fn lemma_found(rows: Seq<StoredView>, id: Seq<char>)
    ensures
        match row_of(rows, id) {
            Some(row) => exists|at: int| #[trigger]
                first_at(rows, id, at) && row == rows[at] && row.provider.id == id,
            None => forall|i: int| 0 <= i < rows.len() ==> (#[trigger] rows[i]).provider.id != id,
        },
{
    if row_of(rows, id) is Some {
        let at = choose|at: int| first_at(rows, id, at);
        assert(first_at(rows, id, at));
    } else {
        assert forall|i: int| 0 <= i < rows.len() implies (#[trigger] rows[i]).provider.id
            != id by {
            if rows[i].provider.id == id {
                lemma_first_exists(rows, id, i);
            }
        }
    }
}

proof fn lemma_first_exists(rows: Seq<StoredView>, id: Seq<char>, i: int)
    requires
        0 <= i < rows.len(),
        rows[i].provider.id == id,
    ensures
        exists|at: int| first_at(rows, id, at),
    decreases i,
{
    if exists|j: int| 0 <= j < i && (#[trigger] rows[j]).provider.id == id {
        let j = choose|j: int| 0 <= j < i && (#[trigger] rows[j]).provider.id == id;
        lemma_first_exists(rows, id, j);
    } else {
        assert(first_at(rows, id, i));
    }
}

/// In a table whose identifiers differ, a row is the row of its identifier.
proof fn lemma_own_row(rows: Seq<StoredView>, i: int)
    requires
        ids_differ(rows),
        0 <= i < rows.len(),
    ensures
        first_at(rows, rows[i].provider.id, i),
        row_of(rows, rows[i].provider.id) == Some(rows[i]),
{
    assert(first_at(rows, rows[i].provider.id, i));
    lemma_row_at(rows, rows[i].provider.id, i);
}

/// The place that a row gets.
proof fn lemma_place(rows: Seq<StoredView>, row: StoredView) -> (at: int)
    ensures
        0 <= at <= rows.len(),
        at > 0 ==> !precedes(row.created_at, rows[at - 1].created_at),
        forall|i: int|
            at <= i < rows.len() ==> precedes(row.created_at, (#[trigger] rows[i]).created_at),
        placed(rows, row) == rows.insert(at, row),
    decreases rows.len(),
{
    if rows.len() > 0 && precedes(row.created_at, rows.last().created_at) {
        let at = lemma_place(rows.drop_last(), row);
        assert forall|i: int| at <= i < rows.len() implies precedes(
            row.created_at,
            (#[trigger] rows[i]).created_at,
        ) by {
            if i < rows.len() - 1 {
                assert(rows.drop_last()[i] == rows[i]);
            }
        }
        lemma_placed(rows, row, at);
        at
    } else {
        lemma_placed(rows, row, rows.len() as int);
        rows.len() as int
    }
}

/// Putting a row in changes what is found under its identifier alone.
proof fn lemma_placed_row(rows: Seq<StoredView>, row: StoredView, id: Seq<char>)
    requires
        row_of(rows, row.provider.id) is None,
    ensures
        row_of(placed(rows, row), id) == (if row.provider.id == id {
            Some(row)
        } else {
            row_of(rows, id)
        }),
{
    let after = placed(rows, row);
    let at = lemma_place(rows, row);
    lemma_found(rows, id);
    lemma_found(rows, row.provider.id);
    assert(forall|i: int| 0 <= i < at ==> (#[trigger] after[i]) == rows[i]);
    assert(forall|i: int| at < i < after.len() ==> (#[trigger] after[i]) == rows[i - 1]);
    if row.provider.id == id {
        assert(first_at(after, id, at));
        lemma_row_at(after, id, at);
    } else if row_of(rows, id) is Some {
        let k = choose|k: int| first_at(rows, id, k);
        assert(first_at(rows, id, k));
        lemma_row_at(rows, id, k);
        let there = if k < at {
            k
        } else {
            k + 1
        };
        assert(first_at(after, id, there));
        lemma_row_at(after, id, there);
    } else {
        lemma_no_row(after, id);
    }
}

/// A write replaces the row of its identifier or adds one: the identifiers still differ.
pub proof fn law_writes_keep_identifiers_apart(
    rows: Seq<StoredView>,
    provider: ProviderView,
    origin: Origin,
    now: Seq<char>,
)
    requires
        ids_differ(rows),
    ensures
        ids_differ(written(rows, provider, origin, now)),
{
    let after = written(rows, provider, origin, now);
    lemma_found(rows, provider.id);
    if exists|at: int| first_at(rows, provider.id, at) {
        let at = choose|at: int| first_at(rows, provider.id, at);
        assert(first_at(rows, provider.id, at));
        assert forall|i: int, j: int| 0 <= i < j < after.len() implies (
        #[trigger] after[i]).provider.id != (#[trigger] after[j]).provider.id by {
            assert(after[i].provider.id == rows[i].provider.id);
            assert(after[j].provider.id == rows[j].provider.id);
        }
    } else {
        let row = new_row(provider, origin, now);
        let at = lemma_place(rows, row);
        assert(forall|i: int| 0 <= i < at ==> (#[trigger] after[i]) == rows[i]);
        assert(forall|i: int| at < i < after.len() ==> (#[trigger] after[i]) == rows[i - 1]);
        assert forall|i: int, j: int| 0 <= i < j < after.len() implies (
        #[trigger] after[i]).provider.id != (#[trigger] after[j]).provider.id by {
            let first = if i < at {
                i
            } else {
                i - 1
            };
            let second = if j < at {
                j
            } else {
                j - 1
            };
            if i == at {
                assert(rows[second].provider.id != provider.id);
            } else if j == at {
                assert(rows[first].provider.id != provider.id);
            } else {
                assert(rows[first].provider.id != rows[second].provider.id);
            }
        }
    }
}

proof fn lemma_placed_order(rows: Seq<StoredView>, row: StoredView)
    requires
        in_order(rows),
    ensures
        in_order(placed(rows, row)),
{
    let after = placed(rows, row);
    let at = lemma_place(rows, row);
    assert(forall|i: int| 0 <= i < at ==> (#[trigger] after[i]) == rows[i]);
    assert(forall|i: int| at < i < after.len() ==> (#[trigger] after[i]) == rows[i - 1]);
    assert forall|i: int, j: int| 0 <= i < j < after.len() implies !precedes(
        (#[trigger] after[j]).created_at,
        (#[trigger] after[i]).created_at,
    ) by {
        if j == at {
            if i < at - 1 {
                lemma_precedes_transitive(
                    rows[i].created_at,
                    rows[at - 1].created_at,
                    row.created_at,
                );
            }
        } else if i == at {
            lemma_precedes_total(row.created_at, rows[j - 1].created_at);
        } else {
            let first = if i < at {
                i
            } else {
                i - 1
            };
            let second = if j < at {
                j
            } else {
                j - 1
            };
            assert(!precedes(rows[second].created_at, rows[first].created_at));
        }
    }
}

/// A write keeps the rows in the order in which they were created, whatever time it is given.
pub proof fn law_writes_keep_the_order(
    rows: Seq<StoredView>,
    provider: ProviderView,
    origin: Origin,
    now: Seq<char>,
)
    requires
        in_order(rows),
    ensures
        in_order(written(rows, provider, origin, now)),
{
    let after = written(rows, provider, origin, now);
    if exists|at: int| first_at(rows, provider.id, at) {
        let at = choose|at: int| first_at(rows, provider.id, at);
        assert(first_at(rows, provider.id, at));
        assert(forall|i: int|
            0 <= i < rows.len() ==> (#[trigger] after[i]).created_at == rows[i].created_at);
        assert forall|i: int, j: int| 0 <= i < j < after.len() implies !precedes(
            (#[trigger] after[j]).created_at,
            (#[trigger] after[i]).created_at,
        ) by {
            assert(!precedes(rows[j].created_at, rows[i].created_at));
        }
    } else {
        lemma_placed_order(rows, new_row(provider, origin, now));
    }
}

/// A write concerns the row of its identifier alone: that row then holds the provider, and was
/// created when it was created, and every other row is as it was.
pub proof fn law_write_concerns_one_row(
    rows: Seq<StoredView>,
    provider: ProviderView,
    origin: Origin,
    now: Seq<char>,
    id: Seq<char>,
)
    ensures
        ({
            let after = written(rows, provider, origin, now);
            if id == provider.id {
                row_of(after, id) matches Some(row) && row.provider == provider && row.updated_at
                    == now && (row_of(rows, id) matches Some(old_row) ==> row.created_at
                    == old_row.created_at && (origin is None ==> row.source == old_row.source
                    && row.source_id == old_row.source_id))
            } else {
                row_of(after, id) == row_of(rows, id)
            }
        }),
{
    let after = written(rows, provider, origin, now);
    lemma_found(rows, provider.id);
    lemma_found(rows, id);
    lemma_found(after, id);
    if exists|at: int| first_at(rows, provider.id, at) {
        let at = choose|at: int| first_at(rows, provider.id, at);
        assert(first_at(rows, provider.id, at));
        lemma_row_at(rows, provider.id, at);
        assert(forall|i: int|
            0 <= i < rows.len() ==> (#[trigger] after[i]).provider.id == rows[i].provider.id);
        if id == provider.id {
            assert(first_at(after, id, at)) by {
                assert forall|j: int| 0 <= j < at implies (#[trigger] after[j]).provider.id
                    != id by {
                    assert(rows[j].provider.id != id);
                }
            }
            lemma_row_at(after, id, at);
        } else if row_of(rows, id) is Some {
            let k = choose|k: int| first_at(rows, id, k);
            assert(first_at(rows, id, k));
            lemma_row_at(rows, id, k);
            assert(first_at(after, id, k)) by {
                assert forall|j: int| 0 <= j < k implies (#[trigger] after[j]).provider.id
                    != id by {
                    assert(rows[j].provider.id != id);
                }
            }
            lemma_row_at(after, id, k);
            assert(after[k] == rows[k]);
        } else {
            assert forall|i: int| 0 <= i < after.len() implies (#[trigger] after[i]).provider.id
                != id by {
                assert(rows[i].provider.id != id);
            }
            lemma_no_row(after, id);
        }
    } else {
        lemma_placed_row(rows, new_row(provider, origin, now), id);
    }
}

proof fn lemma_some_number_is_free(
    taken: Seq<Seq<char>>,
    base: Seq<char>,
    separator: Seq<char>,
    n: nat,
)
    requires
        n >= 2,
        forall|k: nat| 2 <= k < n ==> taken.contains(#[trigger] numbered(base, separator, k)),
    ensures
        exists|m: nat| first_free(taken, base, separator, m),
    decreases taken.len() + 3 - n,
{
    lemma_taken_bounds(taken, base, separator, n);
    if taken.contains(numbered(base, separator, n)) {
        lemma_some_number_is_free(taken, base, separator, n + 1);
    } else {
        assert(first_free(taken, base, separator, n));
    }
}

/// A provider that was written is read back under its identifier with its models and its key. It is
/// read back unchanged where it has no usable template; where its template states the fields that
/// it has, nothing but the print of the template can differ.
pub proof fn law_written_provider_reads_back(
    rows: Seq<StoredView>,
    provider: ProviderView,
    origin: Origin,
    now: Seq<char>,
    found: ProviderView,
)
    requires
        row_of(written(rows, provider, origin, now), provider.id) matches Some(row) && hydrates(
            row.provider,
            found,
        ),
    ensures
        found.id == provider.id,
        found.model_mappings == provider.model_mappings,
        provider.api_key is Some ==> found.api_key == provider.api_key,
        match authority(provider) {
            Ok(Some((stated, entries))) => (found.toml_config matches Some(text) && prints(
                text,
                entries,
            )) && (stated == provider ==> found == (ProviderView {
                toml_config: found.toml_config,
                ..provider
            })),
            _ => found == provider,
        },
{
    law_write_concerns_one_row(rows, provider, origin, now, provider.id);
}

/// There is always a text that is not taken, and it is found.
pub proof fn law_free_texts_are_free(
    taken: Seq<Seq<char>>,
    base: Seq<char>,
    separator: Seq<char>,
)
    ensures
        !taken.contains(free_text(taken, base, separator)),
        !taken.contains(base) ==> free_text(taken, base, separator) == base,
{
    if taken.contains(base) {
        lemma_some_number_is_free(taken, base, separator, 2);
        let n = choose|n: nat| first_free(taken, base, separator, n);
        assert(first_free(taken, base, separator, n));
    }
}

/// An import never overwrites a record that does not come from its origin, whatever identifiers the
/// two have.
pub proof fn law_imports_leave_other_records(
    rows: Seq<StoredView>,
    stored: Seq<StoredView>,
    provider: ProviderView,
    origin: Origin,
    now: Seq<char>,
    id: Seq<char>,
)
    requires
        ids_differ(rows),
        reads(rows, stored),
        row_of(rows, id) is Some,
        !(origin matches Some((source, source_id)) && from_origin(
            row_of(rows, id)->0,
            source,
            source_id,
        )),
    ensures
        row_of(
            written(
                rows,
                upserted(stored, provider, ProviderUpsertMode::Imported, origin).0,
                origin,
                now,
            ),
            id,
        ) == row_of(rows, id),
{
    let (row, kind) = upserted(stored, provider, ProviderUpsertMode::Imported, origin);
    lemma_found(rows, id);
    law_write_concerns_one_row(rows, row, origin, now, id);
    let target = upsert_target(stored, provider.id, ProviderUpsertMode::Imported, origin);
    if target is Some {
        let (source, source_id) = origin->0;
        let at = choose|at: int| first_from(stored, source, source_id, at);
        assert(first_from(stored, source, source_id, at));
        assert(hydrates(rows[at].provider, stored[at].provider));
        assert(rows[at].provider.id == row.id);
        lemma_own_row(rows, at);
        assert(from_origin(rows[at], source, source_id));
    } else {
        let taken = ids_of(stored);
        law_free_texts_are_free(taken, provider.id, "-"@);
        let k = choose|k: int| first_at(rows, id, k);
        assert(first_at(rows, id, k));
        assert(hydrates(rows[k].provider, stored[k].provider));
        assert(taken[k] == id);
        assert(row.id != id);
    }
}

/// An import of the same record again goes to the same row.
pub proof fn law_second_import_updates_the_first(
    stored: Seq<StoredView>,
    provider: ProviderView,
    source: Seq<char>,
    source_id: Seq<char>,
    at: int,
)
    requires
        first_from(stored, source, source_id, at),
    ensures
        upserted(stored, provider, ProviderUpsertMode::Imported, Some((source, source_id))).0.id
            == stored[at].provider.id,
{
    lemma_first_from(stored, source, source_id, at);
    let found = choose|at: int| first_from(stored, source, source_id, at);
    assert(first_from(stored, source, source_id, found));
}

proof fn lemma_where(rows: Seq<StoredView>, keep: spec_fn(Seq<char>) -> bool, id: Seq<char>)
    ensures
        keep(id) ==> row_of(rows_where(rows, keep), id) == row_of(rows, id),
        !keep(id) ==> row_of(rows_where(rows, keep), id) is None,
    decreases rows.len(),
{
    if rows.len() == 0 {
        lemma_no_row(rows, id);
        lemma_no_row(rows_where(rows, keep), id);
        assert(rows_where(rows, keep) =~= rows);
    } else {
        lemma_where(rows.drop_last(), keep, id);
        lemma_pushed(rows.drop_last(), rows.last(), id);
        assert(rows.drop_last().push(rows.last()) =~= rows);
        lemma_pushed(rows_where(rows.drop_last(), keep), rows.last(), id);
    }
}

/// Adding a row changes what is found under its identifier only where nothing was.
proof fn lemma_pushed(rows: Seq<StoredView>, row: StoredView, id: Seq<char>)
    ensures
        row_of(rows.push(row), id) == (if row_of(rows, id) is Some {
            row_of(rows, id)
        } else if row.provider.id == id {
            Some(row)
        } else {
            None
        }),
{
    let after = rows.push(row);
    lemma_found(rows, id);
    if row_of(rows, id) is Some {
        let k = choose|k: int| first_at(rows, id, k);
        assert(first_at(rows, id, k));
        lemma_row_at(rows, id, k);
        assert(first_at(after, id, k)) by {
            assert forall|j: int| 0 <= j < k implies (#[trigger] after[j]).provider.id != id by {
                assert(rows[j].provider.id != id);
            }
        }
        lemma_row_at(after, id, k);
    } else if row.provider.id == id {
        assert(first_at(after, id, rows.len() as int)) by {
            assert forall|j: int| 0 <= j < rows.len() implies (#[trigger] after[j]).provider.id
                != id by {
                assert(rows[j].provider.id != id);
            }
        }
        lemma_row_at(after, id, rows.len() as int);
    } else {
        assert forall|i: int| 0 <= i < after.len() implies (#[trigger] after[i]).provider.id
            != id by {
            if i < rows.len() {
                assert(rows[i].provider.id != id);
            }
        }
        lemma_no_row(after, id);
    }
}

/// Removing a provider removes its row and no other.
pub proof fn law_removal_concerns_one_row(rows: Seq<StoredView>, id: Seq<char>, asked: Seq<char>)
    ensures
        row_of(rows_without(rows, id), asked) == (if asked == id {
            None
        } else {
            row_of(rows, asked)
        }),
{
    lemma_where(rows, other_than(id), asked);
}

proof fn lemma_put_back(
    rows: Seq<StoredView>,
    before: Seq<StoredView>,
    keep: spec_fn(Seq<char>) -> bool,
    id: Seq<char>,
)
    requires
        ids_differ(before),
        forall|other: Seq<char>| #[trigger] keep(other) ==> row_of(rows, other) is None,
    ensures
        row_of(placed_all(rows, rows_where(before, keep)), id) == (if keep(id) {
            row_of(before, id)
        } else {
            row_of(rows, id)
        }),
    decreases before.len(),
{
    if before.len() == 0 {
        lemma_no_row(before, id);
    } else {
        let shorter = before.drop_last();
        let last = before.last();
        let head = rows_where(shorter, keep);
        assert(ids_differ(shorter)) by {
            assert forall|i: int, j: int| 0 <= i < j < shorter.len() implies (
            #[trigger] shorter[i]).provider.id != (#[trigger] shorter[j]).provider.id by {
                assert(before[i].provider.id != before[j].provider.id);
            }
        }
        assert forall|i: int| 0 <= i < shorter.len() implies (#[trigger] shorter[i]).provider.id
            != last.provider.id by {
            assert(before[i].provider.id != before[before.len() - 1].provider.id);
        }
        lemma_no_row(shorter, last.provider.id);
        lemma_put_back(rows, shorter, keep, id);
        lemma_put_back(rows, shorter, keep, last.provider.id);
        lemma_pushed(shorter, last, id);
        assert(shorter.push(last) =~= before);
        if keep(last.provider.id) {
            assert(head.push(last).drop_last() =~= head);
            lemma_placed_row(placed_all(rows, head), last, id);
        }
    }
}

/// Undoing a save gives every row that it changed back as it was, and leaves every other row as it
/// is now.
pub proof fn law_undo_restores_what_a_save_changed(
    rows: Seq<StoredView>,
    before: Seq<StoredView>,
    after: Seq<StoredView>,
    id: Seq<char>,
)
    requires
        ids_differ(before),
    ensures
        row_of(restored(rows, before, after), id) == (if changed_row(before, after, id) {
            row_of(before, id)
        } else {
            row_of(rows, id)
        }),
{
    let kept = rows_where(rows, unchanged_by(before, after));
    let keep = changed_by(before, after);
    assert forall|other: Seq<char>| #[trigger] keep(other) implies row_of(kept, other) is None by {
        lemma_where(rows, unchanged_by(before, after), other);
    }
    lemma_where(rows, unchanged_by(before, after), id);
    lemma_put_back(kept, before, keep, id);
}

proof fn lemma_where_order(rows: Seq<StoredView>, keep: spec_fn(Seq<char>) -> bool)
    requires
        in_order(rows),
    ensures
        in_order(rows_where(rows, keep)),
        forall|k: int|
            0 <= k < rows_where(rows, keep).len() ==> rows.contains(
                #[trigger] rows_where(rows, keep)[k],
            ),
    decreases rows.len(),
{
    if rows.len() > 0 {
        let shorter = rows.drop_last();
        assert(in_order(shorter)) by {
            assert forall|i: int, j: int| 0 <= i < j < shorter.len() implies !precedes(
                (#[trigger] shorter[j]).created_at,
                (#[trigger] shorter[i]).created_at,
            ) by {
                assert(!precedes(rows[j].created_at, rows[i].created_at));
            }
        }
        lemma_where_order(shorter, keep);
        let head = rows_where(shorter, keep);
        let all = rows_where(rows, keep);
        assert forall|k: int| 0 <= k < all.len() implies rows.contains(#[trigger] all[k]) by {
            if k < head.len() {
                assert(shorter.contains(head[k]));
                assert(rows[shorter.index_of(head[k])] == all[k]);
            } else {
                assert(rows[rows.len() - 1] == all[k]);
            }
        }
        assert forall|i: int, j: int| 0 <= i < j < all.len() implies !precedes(
            (#[trigger] all[j]).created_at,
            (#[trigger] all[i]).created_at,
        ) by {
            assert(all[i] == head[i]);
            if j < head.len() {
                assert(all[j] == head[j]);
            } else {
                assert(shorter.contains(head[i]));
                let at = shorter.index_of(head[i]);
                assert(!precedes(rows[rows.len() - 1].created_at, rows[at].created_at));
            }
        }
    }
}

proof fn lemma_placed_all_order(rows: Seq<StoredView>, more: Seq<StoredView>)
    requires
        in_order(rows),
    ensures
        in_order(placed_all(rows, more)),
    decreases more.len(),
{
    if more.len() > 0 {
        lemma_placed_all_order(rows, more.drop_last());
        lemma_placed_order(placed_all(rows, more.drop_last()), more.last());
    }
}

/// Removing a provider and undoing a save keep the rows in the order in which they were created.
pub proof fn law_removal_and_undo_keep_the_order(
    rows: Seq<StoredView>,
    before: Seq<StoredView>,
    after: Seq<StoredView>,
    id: Seq<char>,
)
    requires
        in_order(rows),
    ensures
        in_order(rows_without(rows, id)),
        in_order(restored(rows, before, after)),
{
    lemma_where_order(rows, other_than(id));
    lemma_where_order(rows, unchanged_by(before, after));
    lemma_placed_all_order(
        rows_where(rows, unchanged_by(before, after)),
        rows_where(before, changed_by(before, after)),
    );
}

} // verus!
