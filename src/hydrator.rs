use vstd::prelude::*;
use crate::descriptor::{FieldDef, ModelDescriptor};
use crate::value::{find_entry, has_kind, lookup, Entry, Record, Row};

verus! {

/// Why a returned row cannot become a record.
#[derive(Clone, Debug, PartialEq)]
pub enum HydrationError {
    /// The row has no column for this field.
    MissingColumn(String),
    /// The row's value for this field is not of the field's declared kind.
    TypeMismatch(String),
}

/// The record made of `columns`: one entry per field, in declaration order;
/// the error of the first field that cannot be filled.
pub open spec fn hydrate_fields(fields: Seq<FieldDef>, columns: Seq<Entry>) -> Result<Seq<Entry>, HydrationError>
    decreases fields.len(),
{
    if fields.len() == 0 {
        Ok(Seq::empty())
    } else {
        let f = fields.last();
        match hydrate_fields(fields.drop_last(), columns) {
            Err(e) => Err(e),
            Ok(p) => match lookup(columns, f.name@) {
                None => Err(HydrationError::MissingColumn(f.name)),
                Some(v) => if has_kind(v, f.kind) {
                    Ok(p.push(Entry { name: f.name, value: v }))
                } else {
                    Err(HydrationError::TypeMismatch(f.name))
                },
            },
        }
    }
}

/// The records made of `rows`, in order; the error of the first row that fails.
pub open spec fn hydrate_rows(fields: Seq<FieldDef>, rows: Seq<Row>) -> Result<Seq<Seq<Entry>>, HydrationError>
    decreases rows.len(),
{
    if rows.len() == 0 {
        Ok(Seq::empty())
    } else {
        match hydrate_rows(fields, rows.drop_last()) {
            Err(e) => Err(e),
            Ok(p) => match hydrate_fields(fields, rows.last().entries@) {
                Err(e) => Err(e),
                Ok(r) => Ok(p.push(r)),
            },
        }
    }
}

/// The entries of each record.
pub open spec fn records_view(records: Seq<Record>) -> Seq<Seq<Entry>> {
    records.map_values(|r: Record| r.entries@)
}

/// Hydration fails exactly when some field has no column of its kind, and on
/// success gives each field, under its own name, the row's value for it.
pub proof fn lemma_hydrate_fields(fields: Seq<FieldDef>, columns: Seq<Entry>)
    ensures
        hydrate_fields(fields, columns) is Ok <==> forall|i: int|
            0 <= i < fields.len() ==> {
                &&& #[trigger] lookup(columns, fields[i].name@) is Some
                &&& has_kind(lookup(columns, fields[i].name@)->Some_0, fields[i].kind)
            },
        hydrate_fields(fields, columns) matches Ok(p) ==> {
            &&& p.len() == fields.len()
            &&& forall|i: int|
                0 <= i < fields.len() ==> #[trigger] p[i] == (Entry {
                    name: fields[i].name,
                    value: lookup(columns, fields[i].name@)->Some_0,
                })
        },
    decreases fields.len(),
{
    if fields.len() > 0 {
        let init = fields.drop_last();
        lemma_hydrate_fields(init, columns);
        assert forall|i: int| 0 <= i < init.len() implies init[i] == fields[i] by {}
        let last = fields.len() - 1;
        if hydrate_fields(fields, columns) is Ok {
            assert forall|i: int| 0 <= i < fields.len() implies {
                &&& #[trigger] lookup(columns, fields[i].name@) is Some
                &&& has_kind(lookup(columns, fields[i].name@)->Some_0, fields[i].kind)
            } by {
                if i < last {
                    assert(init[i] == fields[i]);
                }
            }
        } else if hydrate_fields(init, columns) is Err {
            assert(!(forall|i: int| 0 <= i < init.len() ==> {
                &&& #[trigger] lookup(columns, init[i].name@) is Some
                &&& has_kind(lookup(columns, init[i].name@)->Some_0, init[i].kind)
            }));
        } else {
            assert(!{
                &&& lookup(columns, fields[last].name@) is Some
                &&& has_kind(lookup(columns, fields[last].name@)->Some_0, fields[last].kind)
            });
        }
    }
}

proof fn lemma_hydrate_error_persists(fields: Seq<FieldDef>, columns: Seq<Entry>, k: int)
    requires
        0 <= k <= fields.len(),
        hydrate_fields(fields.take(k), columns) is Err,
    ensures
        hydrate_fields(fields, columns) == hydrate_fields(fields.take(k), columns),
    decreases fields.len(),
{
    if k < fields.len() {
        assert(fields.drop_last().take(k) =~= fields.take(k));
        lemma_hydrate_error_persists(fields.drop_last(), columns, k);
    } else {
        assert(fields.take(k) =~= fields);
    }
}

proof fn lemma_rows_error_persists(fields: Seq<FieldDef>, rows: Seq<Row>, k: int)
    requires
        0 <= k <= rows.len(),
        hydrate_rows(fields, rows.take(k)) is Err,
    ensures
        hydrate_rows(fields, rows) == hydrate_rows(fields, rows.take(k)),
    decreases rows.len(),
{
    if k < rows.len() {
        assert(rows.drop_last().take(k) =~= rows.take(k));
        lemma_rows_error_persists(fields, rows.drop_last(), k);
    } else {
        assert(rows.take(k) =~= rows);
    }
}

/// The record that `row` holds for `fields`.
pub fn hydrate_row(fields: &Vec<FieldDef>, row: &Row) -> (r: Result<Record, HydrationError>)
    ensures
        r matches Ok(rec) ==> hydrate_fields(fields@, row.entries@) == Ok::<Seq<Entry>, HydrationError>(rec.entries@),
        r matches Err(e) ==> hydrate_fields(fields@, row.entries@) == Err::<Seq<Entry>, HydrationError>(e),
{
    let mut entries: Vec<Entry> = Vec::new();
    let mut i: usize = 0;
    while i < fields.len()
        invariant
            i <= fields@.len(),
            hydrate_fields(fields@.take(i as int), row.entries@) == Ok::<Seq<Entry>, HydrationError>(entries@),
        decreases fields@.len() - i,
    {
        assert(fields@.take(i + 1).drop_last() =~= fields@.take(i as int));
        assert(fields@.take(i + 1).last() == fields@[i as int]);
        let f = &fields[i];
        match find_entry(&row.entries, &f.name) {
            None => {
                proof {
                    lemma_hydrate_error_persists(fields@, row.entries@, i + 1);
                }
                return Err(HydrationError::MissingColumn(f.name.clone()));
            },
            Some(v) => {
                if !v.is_of_kind(f.kind) {
                    proof {
                        lemma_hydrate_error_persists(fields@, row.entries@, i + 1);
                    }
                    return Err(HydrationError::TypeMismatch(f.name.clone()));
                }
                entries.push(Entry { name: f.name.clone(), value: v });
            },
        }
        i += 1;
    }
    assert(fields@.take(fields@.len() as int) =~= fields@);
    Ok(Record { entries })
}

/// The records that `rows` hold for `fields`, all or none.
pub fn hydrate_all(fields: &Vec<FieldDef>, rows: &Vec<Row>) -> (r: Result<Vec<Record>, HydrationError>)
    ensures
        r matches Ok(recs) ==> hydrate_rows(fields@, rows@) == Ok::<Seq<Seq<Entry>>, HydrationError>(records_view(recs@)),
        r matches Err(e) ==> hydrate_rows(fields@, rows@) == Err::<Seq<Seq<Entry>>, HydrationError>(e),
{
    let mut out: Vec<Record> = Vec::new();
    let mut i: usize = 0;
    assert(records_view(out@) =~= Seq::<Seq<Entry>>::empty());
    assert(rows@.take(0) =~= Seq::<Row>::empty());
    while i < rows.len()
        invariant
            i <= rows@.len(),
            hydrate_rows(fields@, rows@.take(i as int)) == Ok::<Seq<Seq<Entry>>, HydrationError>(records_view(out@)),
        decreases rows@.len() - i,
    {
        assert(rows@.take(i + 1).drop_last() =~= rows@.take(i as int));
        assert(rows@.take(i + 1).last() == rows@[i as int]);
        match hydrate_row(fields, &rows[i]) {
            Err(e) => {
                proof {
                    lemma_rows_error_persists(fields@, rows@, i + 1);
                }
                return Err(e);
            },
            Ok(rec) => {
                let ghost before = out@;
                out.push(rec);
                assert(records_view(out@) =~= records_view(before).push(rec.entries@));
            },
        }
        i += 1;
    }
    assert(rows@.take(rows@.len() as int) =~= rows@);
    Ok(out)
}

impl ModelDescriptor {
    /// The record that `row` holds: every field filled, or an error.
    pub fn hydrate(&self, row: &Row) -> (r: Result<Record, HydrationError>)
        ensures
            r matches Ok(rec) ==> hydrate_fields(self.field_defs(), row.entries@) == Ok::<Seq<Entry>, HydrationError>(rec.entries@),
            r matches Err(e) ==> hydrate_fields(self.field_defs(), row.entries@) == Err::<Seq<Entry>, HydrationError>(e),
    {
        hydrate_row(&self.fields, row)
    }

    /// The records held by the rows of an ad-hoc query; no rows give none.
    pub fn from_rows(&self, rows: Option<Vec<Row>>) -> (r: Result<Vec<Record>, HydrationError>)
        ensures
            rows is None ==> (r matches Ok(recs) && recs@.len() == 0),
            rows matches Some(rs) ==> {
                &&& r matches Ok(recs) ==> hydrate_rows(self.field_defs(), rs@) == Ok::<Seq<Seq<Entry>>, HydrationError>(records_view(recs@))
                &&& r matches Err(e) ==> hydrate_rows(self.field_defs(), rs@) == Err::<Seq<Seq<Entry>>, HydrationError>(e)
            },
    {
        match rows {
            None => Ok(Vec::new()),
            Some(rs) => hydrate_all(&self.fields, &rs),
        }
    }
}

} // verus!
