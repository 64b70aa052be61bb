use vstd::prelude::*;
use crate::descriptor::{FieldDef, ModelDescriptor};
use crate::value::{find_entry, has_kind, lookup, Entry, Record, Value};

verus! {

/// Why a record cannot be turned into query parameters.
#[derive(Clone, Debug, PartialEq)]
pub enum BindError {
    /// The record has no value for this field.
    MissingField(String),
    /// The record's value for this field is not of the field's declared kind.
    TypeMismatch(String),
}

/// The parameters for `fields`, in their order, taken from `entries` by name;
/// the error of the first field that cannot be bound.
pub open spec fn bind_fields(fields: Seq<FieldDef>, entries: Seq<Entry>) -> Result<Seq<Value>, BindError>
    decreases fields.len(),
{
    if fields.len() == 0 {
        Ok(Seq::empty())
    } else {
        let f = fields.last();
        match bind_fields(fields.drop_last(), entries) {
            Err(e) => Err(e),
            Ok(p) => match lookup(entries, f.name@) {
                None => Err(BindError::MissingField(f.name)),
                Some(v) => if has_kind(v, f.kind) {
                    Ok(p.push(v))
                } else {
                    Err(BindError::TypeMismatch(f.name))
                },
            },
        }
    }
}

/// Binding fails exactly when some field has no value of its kind, and on
/// success gives each field's value at the field's position.
pub proof fn lemma_bind_fields(fields: Seq<FieldDef>, entries: Seq<Entry>)
    ensures
        bind_fields(fields, entries) is Ok <==> forall|i: int|
            0 <= i < fields.len() ==> {
                &&& #[trigger] lookup(entries, fields[i].name@) is Some
                &&& has_kind(lookup(entries, fields[i].name@)->Some_0, fields[i].kind)
            },
        bind_fields(fields, entries) matches Ok(p) ==> {
            &&& p.len() == fields.len()
            &&& forall|i: int| 0 <= i < fields.len() ==> Some(#[trigger] p[i]) == lookup(entries, fields[i].name@)
        },
    decreases fields.len(),
{
    if fields.len() > 0 {
        let init = fields.drop_last();
        lemma_bind_fields(init, entries);
        assert forall|i: int| 0 <= i < init.len() implies init[i] == fields[i] by {}
        let last = fields.len() - 1;
        if bind_fields(fields, entries) is Ok {
            assert forall|i: int| 0 <= i < fields.len() implies {
                &&& #[trigger] lookup(entries, fields[i].name@) is Some
                &&& has_kind(lookup(entries, fields[i].name@)->Some_0, fields[i].kind)
            } by {
                if i < last {
                    assert(init[i] == fields[i]);
                }
            }
        } else if bind_fields(init, entries) is Err {
            assert(!(forall|i: int| 0 <= i < init.len() ==> {
                &&& #[trigger] lookup(entries, init[i].name@) is Some
                &&& has_kind(lookup(entries, init[i].name@)->Some_0, init[i].kind)
            }));
        } else {
            let f = fields[last];
            assert(!{
                &&& lookup(entries, fields[last].name@) is Some
                &&& has_kind(lookup(entries, fields[last].name@)->Some_0, fields[last].kind)
            });
        }
    }
}

proof fn lemma_bind_error_persists(fields: Seq<FieldDef>, entries: Seq<Entry>, k: int)
    requires
        0 <= k <= fields.len(),
        bind_fields(fields.take(k), entries) is Err,
    ensures
        bind_fields(fields, entries) == bind_fields(fields.take(k), entries),
    decreases fields.len(),
{
    if k < fields.len() {
        assert(fields.drop_last().take(k) =~= fields.take(k));
        lemma_bind_error_persists(fields.drop_last(), entries, k);
    } else {
        assert(fields.take(k) =~= fields);
    }
}

/// The parameters for `fields`, taken from `record` by name.
pub fn bind_record(fields: &Vec<FieldDef>, record: &Record) -> (r: Result<Vec<Value>, BindError>)
    ensures
        r matches Ok(p) ==> bind_fields(fields@, record.entries@) == Ok::<Seq<Value>, BindError>(p@),
        r matches Err(e) ==> bind_fields(fields@, record.entries@) == Err::<Seq<Value>, BindError>(e),
{
    let mut params: Vec<Value> = Vec::new();
    let mut i: usize = 0;
    while i < fields.len()
        invariant
            i <= fields@.len(),
            bind_fields(fields@.take(i as int), record.entries@) == Ok::<Seq<Value>, BindError>(params@),
        decreases fields@.len() - i,
    {
        assert(fields@.take(i + 1).drop_last() =~= fields@.take(i as int));
        assert(fields@.take(i + 1).last() == fields@[i as int]);
        let f = &fields[i];
        match find_entry(&record.entries, &f.name) {
            None => {
                proof {
                    lemma_bind_error_persists(fields@, record.entries@, i + 1);
                }
                return Err(BindError::MissingField(f.name.clone()));
            },
            Some(v) => {
                if !v.is_of_kind(f.kind) {
                    proof {
                        lemma_bind_error_persists(fields@, record.entries@, i + 1);
                    }
                    return Err(BindError::TypeMismatch(f.name.clone()));
                }
                params.push(v);
            },
        }
        i += 1;
    }
    assert(fields@.take(fields@.len() as int) =~= fields@);
    Ok(params)
}

/// A parameter list of one value, for a lookup or a delete.
pub fn bind_single(value: Value) -> (r: Vec<Value>)
    ensures
        r@ == seq![value],
{
    let mut r: Vec<Value> = Vec::new();
    r.push(value);
    r
}

impl ModelDescriptor {
    /// The insert parameters of `record`: one per field, in declaration order.
    pub fn bind_for_insert(&self, record: &Record) -> (r: Result<Vec<Value>, BindError>)
        ensures
            r matches Ok(p) ==> bind_fields(self.field_defs(), record.entries@) == Ok::<Seq<Value>, BindError>(p@),
            r matches Err(e) ==> bind_fields(self.field_defs(), record.entries@) == Err::<Seq<Value>, BindError>(e),
    {
        bind_record(&self.fields, record)
    }
}

} // verus!
