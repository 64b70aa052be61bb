use vstd::prelude::*;
use vstd::string::*;
use crate::query::{field_names, QueryTemplates};
use crate::value::{set_entry, Entry, FieldKind, Timespec, Value};

verus! {

/// One field of a record type: its name and declared kind.
#[derive(Clone, Debug, PartialEq)]
pub struct FieldDef {
    pub name: String,
    pub kind: FieldKind,
}

impl FieldDef {
    /// A copy of this field definition.
    pub fn duplicate(&self) -> (r: FieldDef)
        ensures
            r == *self,
    {
        FieldDef { name: self.name.clone(), kind: self.kind }
    }
}

/// Why a record shape cannot be registered.
#[derive(Clone, Copy, Debug, PartialEq, Eq, Structural)]
pub enum DescriptorError {
    /// The record has no named fields.
    NoFields,
    /// Two fields carry the same name.
    DuplicateField,
    /// No field is named `id`.
    MissingId,
    /// No field named `updated_at` holds a timestamp.
    MissingUpdatedAt,
}

pub open spec fn names_distinct(fields: Seq<FieldDef>) -> bool {
    forall|i: int, j: int| 0 <= i < j < fields.len() ==> fields[i].name@ != fields[j].name@
}

pub open spec fn has_field(fields: Seq<FieldDef>, name: Seq<char>) -> bool {
    exists|i: int| 0 <= i < fields.len() && fields[i].name@ == name
}

pub open spec fn has_timestamp_field(fields: Seq<FieldDef>, name: Seq<char>) -> bool {
    exists|i: int| 0 <= i < fields.len() && fields[i].name@ == name && fields[i].kind == FieldKind::Timestamp
}

/// What is wrong with a field list, checked in this order; `None` when it can be registered.
pub open spec fn descriptor_problem(fields: Seq<FieldDef>) -> Option<DescriptorError> {
    if fields.len() == 0 {
        Some(DescriptorError::NoFields)
    } else if !names_distinct(fields) {
        Some(DescriptorError::DuplicateField)
    } else if !has_field(fields, "id"@) {
        Some(DescriptorError::MissingId)
    } else if !has_timestamp_field(fields, "updated_at"@) {
        Some(DescriptorError::MissingUpdatedAt)
    } else {
        None
    }
}

/// The immutable metadata of one record type: its table, its fields in
/// declaration order, and the query templates built from them.
#[derive(Clone, Debug, PartialEq)]
pub struct ModelDescriptor {
    pub(crate) table_name: String,
    pub(crate) fields: Vec<FieldDef>,
    pub(crate) id_index: usize,
    pub(crate) stamp_index: usize,
    pub(crate) templates: QueryTemplates,
}

impl ModelDescriptor {
    pub open(crate) spec fn table_view(&self) -> Seq<char> {
        self.table_name@
    }

    pub open(crate) spec fn field_defs(&self) -> Seq<FieldDef> {
        self.fields@
    }

    /// The position of the primary key among the fields.
    pub open(crate) spec fn id_position(&self) -> int {
        self.id_index as int
    }

    /// The field that holds the primary key.
    pub open(crate) spec fn id_field(&self) -> FieldDef {
        self.fields@[self.id_index as int]
    }

    /// `entries` with `updated_at` set to `now`.
    pub open(crate) spec fn stamped(&self, entries: Seq<Entry>, now: Timespec) -> Seq<Entry> {
        set_entry(entries, Entry { name: self.fields@[self.stamp_index as int].name, value: Value::Timestamp(now) })
    }

    pub open(crate) spec fn wf(&self) -> bool {
        &&& descriptor_problem(self.fields@) is None
        &&& self.id_index < self.fields@.len()
        &&& self.fields@[self.id_index as int].name@ == "id"@
        &&& self.stamp_index < self.fields@.len()
        &&& self.fields@[self.stamp_index as int].name@ == "updated_at"@
        &&& self.fields@[self.stamp_index as int].kind == FieldKind::Timestamp
        &&& self.templates.describes(self.table_name@, field_names(self.fields@))
    }

    /// Registers a record type under `table_name` with `fields` in declaration order.
    pub fn new(table_name: String, fields: Vec<FieldDef>) -> (r: Result<ModelDescriptor, DescriptorError>)
        ensures
            match r {
                Ok(d) => {
                    &&& descriptor_problem(fields@) is None
                    &&& d.wf()
                    &&& d.table_view() == table_name@
                    &&& d.field_defs() == fields@
                },
                Err(e) => descriptor_problem(fields@) == Some(e),
            },
    {
        if fields.len() == 0 {
            return Err(DescriptorError::NoFields);
        }
        let mut i: usize = 0;
        while i < fields.len()
            invariant
                i <= fields@.len(),
                forall|a: int, b: int| 0 <= a < b < fields@.len() && a < i ==> fields@[a].name@ != fields@[b].name@,
            decreases fields@.len() - i,
        {
            let mut j: usize = i + 1;
            while j < fields.len()
                invariant
                    i < j <= fields@.len(),
                    forall|a: int, b: int| 0 <= a < b < fields@.len() && a < i ==> fields@[a].name@ != fields@[b].name@,
                    forall|b: int| i < b < j ==> fields@[i as int].name@ != fields@[b].name@,
                decreases fields@.len() - j,
            {
                if fields[i].name == fields[j].name {
                    return Err(DescriptorError::DuplicateField);
                }
                j += 1;
            }
            i += 1;
        }
        let id = String::from_str("id");
        let stamp = String::from_str("updated_at");
        let mut id_index: Option<usize> = None;
        let mut stamp_index: Option<usize> = None;
        let mut k: usize = 0;
        while k < fields.len()
            invariant
                k <= fields@.len(),
                id@ == "id"@,
                stamp@ == "updated_at"@,
                match id_index {
                    Some(x) => x < k && fields@[x as int].name@ == "id"@,
                    None => forall|a: int| 0 <= a < k ==> fields@[a].name@ != "id"@,
                },
                match stamp_index {
                    Some(x) => x < k && fields@[x as int].name@ == "updated_at"@ && fields@[x as int].kind
                        == FieldKind::Timestamp,
                    None => forall|a: int|
                        0 <= a < k ==> !(fields@[a].name@ == "updated_at"@ && fields@[a].kind
                            == FieldKind::Timestamp),
                },
            decreases fields@.len() - k,
        {
            if fields[k].name == id {
                id_index = Some(k);
            }
            if fields[k].name == stamp && fields[k].kind == FieldKind::Timestamp {
                stamp_index = Some(k);
            }
            k += 1;
        }
        match id_index {
            None => Err(DescriptorError::MissingId),
            Some(x) => match stamp_index {
                None => Err(DescriptorError::MissingUpdatedAt),
                Some(y) => {
                    let templates = QueryTemplates::build(&table_name, &fields);
                    Ok(ModelDescriptor { table_name, fields, id_index: x, stamp_index: y, templates })
                },
            },
        }
    }

    /// The table this record type is stored in.
    pub fn table_name(&self) -> (r: &String)
        ensures
            r@ == self.table_view(),
    {
        &self.table_name
    }

    /// The fields of this record type, in declaration order.
    pub fn fields(&self) -> (r: &Vec<FieldDef>)
        ensures
            r@ == self.field_defs(),
    {
        &self.fields
    }

    /// The query templates built at registration.
    pub fn templates(&self) -> (r: &QueryTemplates)
        requires
            self.wf(),
        ensures
            r.describes(self.table_view(), field_names(self.field_defs())),
    {
        &self.templates
    }
}

} // verus!
