use vstd::prelude::*;
use crate::binder::{bind_fields, lemma_bind_fields};
use crate::descriptor::{names_distinct, FieldDef, ModelDescriptor};
use crate::hydrator::{hydrate_fields, hydrate_rows, lemma_hydrate_fields, HydrationError};
use crate::query::placeholders;
use crate::value::{has_kind, lemma_lookup_set_entry, lookup, Entry, Row, Timespec, Value};

verus! {

/// The row that an insert with `params` writes: each field's name with its parameter.
pub open spec fn inserted_row(fields: Seq<FieldDef>, params: Seq<Value>) -> Seq<Entry> {
    Seq::new(fields.len(), |i: int| Entry { name: fields[i].name, value: params[i] })
}

proof fn lemma_lookup_distinct(es: Seq<Entry>, i: int)
    requires
        0 <= i < es.len(),
        forall|a: int, b: int| 0 <= a < b < es.len() ==> es[a].name@ != es[b].name@,
    ensures
        lookup(es, es[i].name@) == Some(es[i].value),
    decreases es.len(),
{
    if i > 0 {
        let rest = es.drop_first();
        assert(rest[i - 1] == es[i]);
        assert(es[0].name@ != es[i].name@);
        lemma_lookup_distinct(rest, i - 1);
    }
}

proof fn lemma_lookup_stamped(d: ModelDescriptor, entries: Seq<Entry>, now: Timespec, name: Seq<char>)
    requires
        d.wf(),
    ensures
        lookup(d.stamped(entries, now), name) == if name == "updated_at"@ {
            Some(Value::Timestamp(now))
        } else {
            lookup(entries, name)
        },
{
    lemma_lookup_set_entry(
        entries,
        Entry { name: d.field_defs()[d.stamp_index as int].name, value: Value::Timestamp(now) },
        name,
    );
}

/// What a save writes reads back: hydrating the row that the insert writes
/// gives every field the record's own value, except `updated_at`, which holds
/// the time of the save.
pub proof fn law_saved_record_reads_back(d: ModelDescriptor, entries: Seq<Entry>, now: Timespec)
    requires
        d.wf(),
        bind_fields(d.field_defs(), d.stamped(entries, now)) is Ok,
    ensures
        bind_fields(d.field_defs(), d.stamped(entries, now)) matches Ok(p) && hydrate_fields(
            d.field_defs(),
            inserted_row(d.field_defs(), p),
        ) matches Ok(h) && h.len() == d.field_defs().len() && forall|i: int|
            0 <= i < h.len() ==> {
                &&& (#[trigger] h[i]).name == d.field_defs()[i].name
                &&& d.field_defs()[i].name@ == "updated_at"@ ==> h[i].value == Value::Timestamp(now)
                &&& d.field_defs()[i].name@ != "updated_at"@ ==> Some(h[i].value) == lookup(
                    entries,
                    d.field_defs()[i].name@,
                )
            },
{
    let fields = d.field_defs();
    let stamped = d.stamped(entries, now);
    lemma_bind_fields(fields, stamped);
    let p = bind_fields(fields, stamped)->Ok_0;
    let row = inserted_row(fields, p);
    assert(names_distinct(fields));
    assert forall|i: int| 0 <= i < fields.len() implies lookup(row, fields[i].name@) == Some(p[i]) by {
        assert(row[i].name == fields[i].name);
        lemma_lookup_distinct(row, i);
    }
    lemma_hydrate_fields(fields, row);
    assert forall|i: int| 0 <= i < fields.len() implies {
        &&& #[trigger] lookup(row, fields[i].name@) is Some
        &&& has_kind(lookup(row, fields[i].name@)->Some_0, fields[i].kind)
    } by {
        assert(lookup(row, fields[i].name@) == Some(p[i]));
        assert(lookup(stamped, fields[i].name@) == Some(p[i]));
    }
    let h = hydrate_fields(fields, row)->Ok_0;
    assert forall|i: int| 0 <= i < h.len() implies {
        &&& (#[trigger] h[i]).name == fields[i].name
        &&& fields[i].name@ == "updated_at"@ ==> h[i].value == Value::Timestamp(now)
        &&& fields[i].name@ != "updated_at"@ ==> Some(h[i].value) == lookup(entries, fields[i].name@)
    } by {
        assert(lookup(row, fields[i].name@) == Some(p[i]));
        assert(Some(p[i]) == lookup(stamped, fields[i].name@));
        lemma_lookup_stamped(d, entries, now, fields[i].name@);
    }
}

/// The insert binds exactly one value per field, in the descriptor's field
/// order, each taken from the record under that field's name.
pub proof fn law_insert_binds_in_field_order(d: ModelDescriptor, entries: Seq<Entry>)
    requires
        d.wf(),
    ensures
        bind_fields(d.field_defs(), entries) matches Ok(p) ==> {
            &&& p.len() == d.field_defs().len()
            &&& forall|i: int|
                0 <= i < p.len() ==> Some(#[trigger] p[i]) == lookup(entries, d.field_defs()[i].name@)
        },
{
    lemma_bind_fields(d.field_defs(), entries);
}

/// A row without a column that some field needs never becomes a record.
pub proof fn law_missing_column_fails(fields: Seq<FieldDef>, columns: Seq<Entry>, i: int)
    requires
        0 <= i < fields.len(),
        lookup(columns, fields[i].name@) is None,
    ensures
        hydrate_fields(fields, columns) is Err,
{
    lemma_hydrate_fields(fields, columns);
}

/// A list of rows of which one lacks a column that some field needs gives no
/// records at all.
pub proof fn law_missing_column_fails_all(fields: Seq<FieldDef>, rows: Seq<Row>, j: int, i: int)
    requires
        0 <= j < rows.len(),
        0 <= i < fields.len(),
        lookup(rows[j].entries@, fields[i].name@) is None,
    ensures
        hydrate_rows(fields, rows) is Err,
    decreases rows.len(),
{
    if j < rows.len() - 1 {
        assert(rows.drop_last()[j] == rows[j]);
        law_missing_column_fails_all(fields, rows.drop_last(), j, i);
    } else {
        law_missing_column_fails(fields, rows[j].entries@, i);
    }
}

/// Every returned row becomes one record, in the order of the rows.
pub proof fn law_one_record_per_row(fields: Seq<FieldDef>, rows: Seq<Row>)
    ensures
        hydrate_rows(fields, rows) matches Ok(rs) ==> {
            &&& rs.len() == rows.len()
            &&& forall|j: int|
                0 <= j < rows.len() ==> hydrate_fields(fields, rows[j].entries@) == Ok::<
                    Seq<Entry>,
                    HydrationError,
                >(#[trigger] rs[j])
        },
    decreases rows.len(),
{
    if rows.len() > 0 {
        law_one_record_per_row(fields, rows.drop_last());
        if hydrate_rows(fields, rows) is Ok {
            assert forall|j: int| 0 <= j < rows.len() - 1 implies rows.drop_last()[j] == rows[j] by {}
        }
    }
}

/// Save, delete and lookup by key agree on the key: the value that the
/// insert binds for `id` is the one that the delete binds.
pub proof fn law_save_and_delete_share_the_key(d: ModelDescriptor, entries: Seq<Entry>, now: Timespec)
    requires
        d.wf(),
        bind_fields(d.field_defs(), d.stamped(entries, now)) is Ok,
    ensures
        bind_fields(seq![d.id_field()], entries) matches Ok(k) && k.len() == 1 && bind_fields(
            d.field_defs(),
            d.stamped(entries, now),
        )->Ok_0[d.id_position()] == k[0],
{
    let fields = d.field_defs();
    let stamped = d.stamped(entries, now);
    lemma_bind_fields(fields, stamped);
    let i = d.id_position();
    reveal_strlit("id");
    reveal_strlit("updated_at");
    assert("id"@.len() != "updated_at"@.len());
    assert(lookup(stamped, fields[i].name@) is Some);
    lemma_lookup_stamped(d, entries, now, fields[i].name@);
    lemma_bind_fields(seq![d.id_field()], entries);
    assert(seq![d.id_field()][0] == fields[i]);
}

} // verus!

verus! {

/// How many times `c` occurs in `s`.
pub open spec fn count_char(s: Seq<char>, c: char) -> nat
    decreases s.len(),
{
    if s.len() == 0 {
        0
    } else {
        count_char(s.drop_last(), c) + if s.last() == c {
            1nat
        } else {
            0nat
        }
    }
}

proof fn lemma_count_concat(a: Seq<char>, b: Seq<char>, c: char)
    ensures
        count_char(a + b, c) == count_char(a, c) + count_char(b, c),
    decreases b.len(),
{
    if b.len() == 0 {
        assert(a + b =~= a);
    } else {
        assert((a + b).drop_last() =~= a + b.drop_last());
        lemma_count_concat(a, b.drop_last(), c);
    }
}

/// The value list of the insert template holds one `?` per field.
pub proof fn law_one_placeholder_per_field(n: nat)
    ensures
        count_char(placeholders(n), '?') == n,
    decreases n,
{
    reveal_strlit("?");
    reveal_strlit(", ");
    let marks = Seq::new(n, |i: int| "?"@);
    if n == 1 {
        assert(count_char("?"@, '?') == count_char("?"@.drop_last(), '?') + 1);
    } else if n > 1 {
        assert(marks.drop_last() =~= Seq::new((n - 1) as nat, |i: int| "?"@));
        law_one_placeholder_per_field((n - 1) as nat);
        lemma_count_concat(placeholders((n - 1) as nat), ", "@, '?');
        lemma_count_concat(placeholders((n - 1) as nat) + ", "@, "?"@, '?');
        assert(count_char(", "@, '?') == 0) by {
            let sep = ", "@;
            assert(sep.len() == 2 && sep[0] == ',' && sep[1] == ' ');
            assert(sep.drop_last().len() == 1 && sep.drop_last().last() == ',');
            assert(sep.drop_last().drop_last().len() == 0);
            assert(count_char(sep.drop_last().drop_last(), '?') == 0);
            assert(count_char(sep.drop_last(), '?') == 0);
        }
        assert(count_char("?"@, '?') == count_char("?"@.drop_last(), '?') + 1);
    }
}

} // verus!
