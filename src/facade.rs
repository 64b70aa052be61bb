use vstd::prelude::*;
use crate::binder::{bind_fields, bind_record, bind_single, BindError};
use crate::descriptor::{has_field, FieldDef, ModelDescriptor};
use crate::hydrator::{hydrate_all, hydrate_fields, hydrate_row, hydrate_rows, records_view, HydrationError};
use crate::query::{delete_query, field_names, find_by_column_query, find_by_id_query, insert_query};
use crate::value::{put_entry, Entry, Record, Row, Timespec, Value};

verus! {

/// A query for the driver to run: its text and its positional parameters.
#[derive(Clone, Debug, PartialEq)]
pub struct Statement {
    pub query: String,
    pub params: Vec<Value>,
}

/// A failure reported by the driver, passed on as it came.
#[derive(Clone, Debug, PartialEq)]
pub struct DriverError {
    pub message: String,
}

/// Why a mapping operation failed.
#[derive(Clone, Debug, PartialEq)]
pub enum MapperError {
    Bind(BindError),
    Hydration(HydrationError),
    /// The column is not a field of the record type.
    UnknownColumn(String),
    Driver(DriverError),
}

/// What the driver returned for one query: rows, no row set, or a failure.
pub type DriverResult = Result<Option<Vec<Row>>, DriverError>;

impl ModelDescriptor {
    /// The query that looks a record up by its primary key.
    pub fn find_by_id_statement(&self, id: Value) -> (r: Statement)
        requires
            self.wf(),
        ensures
            r.query@ == find_by_id_query(self.table_view()),
            r.params@ == seq![id],
    {
        Statement { query: self.templates.find_by_id.clone(), params: bind_single(id) }
    }

    /// The record found by a lookup by primary key: the first row, or `None`
    /// when there is none.
    pub fn finish_find_by_id(&self, result: DriverResult) -> (r: Result<Option<Record>, MapperError>)
        ensures
            match result {
                Err(d) => r == Err::<Option<Record>, MapperError>(MapperError::Driver(d)),
                Ok(None) => r == Ok::<Option<Record>, MapperError>(None),
                Ok(Some(rows)) => if rows@.len() == 0 {
                    r == Ok::<Option<Record>, MapperError>(None)
                } else {
                    match hydrate_fields(self.field_defs(), rows@[0].entries@) {
                        Ok(es) => r matches Ok(Some(rec)) && rec.entries@ == es,
                        Err(e) => r == Err::<Option<Record>, MapperError>(MapperError::Hydration(e)),
                    }
                },
            },
    {
        match result {
            Err(d) => Err(MapperError::Driver(d)),
            Ok(None) => Ok(None),
            Ok(Some(rows)) => {
                if rows.len() == 0 {
                    Ok(None)
                } else {
                    match hydrate_row(&self.fields, &rows[0]) {
                        Ok(rec) => Ok(Some(rec)),
                        Err(e) => Err(MapperError::Hydration(e)),
                    }
                }
            },
        }
    }

    /// The query that looks records up by the value of `column`, which must
    /// be a field of the record type.
    pub fn find_by_column_statement(&self, column: &String, value: Value) -> (r: Result<Statement, MapperError>)
        requires
            self.wf(),
        ensures
            has_field(self.field_defs(), column@) <==> r is Ok,
            r matches Ok(st) ==> {
                &&& st.query@ == find_by_column_query(self.table_view(), column@)
                &&& st.params@ == seq![value]
            },
            r matches Err(e) ==> e == MapperError::UnknownColumn(*column),
    {
        let mut i: usize = 0;
        while i < self.fields.len()
            invariant
                self.wf(),
                i <= self.fields@.len(),
                forall|a: int| 0 <= a < i ==> self.fields@[a].name@ != column@,
            decreases self.fields@.len() - i,
        {
            if self.fields[i].name == *column {
                let query = self.templates.render_find_by_column(column);
                return Ok(Statement { query, params: bind_single(value) });
            }
            i += 1;
        }
        Err(MapperError::UnknownColumn(column.clone()))
    }

    /// The records found by a lookup by column: one per row, all or none;
    /// no rows give an empty list.
    pub fn finish_find_by_column(&self, result: DriverResult) -> (r: Result<Vec<Record>, MapperError>)
        ensures
            match result {
                Err(d) => r == Err::<Vec<Record>, MapperError>(MapperError::Driver(d)),
                Ok(None) => r matches Ok(recs) && recs@.len() == 0,
                Ok(Some(rows)) => match hydrate_rows(self.field_defs(), rows@) {
                    Ok(rs) => r matches Ok(recs) && records_view(recs@) == rs,
                    Err(e) => r == Err::<Vec<Record>, MapperError>(MapperError::Hydration(e)),
                },
            },
    {
        match result {
            Err(d) => Err(MapperError::Driver(d)),
            Ok(None) => Ok(Vec::new()),
            Ok(Some(rows)) => match hydrate_all(&self.fields, &rows) {
                Ok(recs) => Ok(recs),
                Err(e) => Err(MapperError::Hydration(e)),
            },
        }
    }

    /// Sets the record's `updated_at` to `now`.
    pub fn stamp(&self, record: &mut Record, now: Timespec)
        requires
            self.wf(),
        ensures
            final(record).entries@ == self.stamped(old(record).entries@, now),
    {
        let e = Entry { name: self.fields[self.stamp_index].name.clone(), value: Value::Timestamp(now) };
        put_entry(&mut record.entries, e);
    }

    /// The upsert of `record`, stamped with `now`: every field in declaration order.
    pub fn save_statement(&self, record: Record, now: Timespec) -> (r: Result<Statement, MapperError>)
        requires
            self.wf(),
        ensures
            match bind_fields(self.field_defs(), self.stamped(record.entries@, now)) {
                Ok(p) => r matches Ok(st) && st.query@ == insert_query(
                    self.table_view(),
                    field_names(self.field_defs()),
                ) && st.params@ == p,
                Err(e) => r == Err::<Statement, MapperError>(MapperError::Bind(e)),
            },
    {
        let mut record = record;
        self.stamp(&mut record, now);
        match bind_record(&self.fields, &record) {
            Ok(params) => Ok(Statement { query: self.templates.insert.clone(), params }),
            Err(e) => Err(MapperError::Bind(e)),
        }
    }

    /// The delete of `record`, by its primary key.
    pub fn delete_statement(&self, record: &Record) -> (r: Result<Statement, MapperError>)
        requires
            self.wf(),
        ensures
            match bind_fields(seq![self.id_field()], record.entries@) {
                Ok(p) => r matches Ok(st) && st.query@ == delete_query(self.table_view()) && st.params@ == p,
                Err(e) => r == Err::<Statement, MapperError>(MapperError::Bind(e)),
            },
    {
        let mut key: Vec<FieldDef> = Vec::new();
        key.push(self.fields[self.id_index].duplicate());
        assert(key@ =~= seq![self.id_field()]);
        match bind_record(&key, record) {
            Ok(params) => Ok(Statement { query: self.templates.delete.clone(), params }),
            Err(e) => Err(MapperError::Bind(e)),
        }
    }

    /// The outcome of a save or a delete: nothing, or the driver's failure.
    pub fn finish_write(&self, result: DriverResult) -> (r: Result<(), MapperError>)
        ensures
            match result {
                Err(d) => r == Err::<(), MapperError>(MapperError::Driver(d)),
                Ok(_) => r is Ok,
            },
    {
        match result {
            Err(d) => Err(MapperError::Driver(d)),
            Ok(_) => Ok(()),
        }
    }
}

} // verus!
