use vstd::prelude::*;
use vstd::string::*;
use crate::descriptor::FieldDef;

verus! {

/// The names of `fields`, in order.
pub open spec fn field_names(fields: Seq<FieldDef>) -> Seq<Seq<char>> {
    fields.map_values(|f: FieldDef| f.name@)
}

/// `parts` with `sep` between each two neighbours.
pub open spec fn join(parts: Seq<Seq<char>>, sep: Seq<char>) -> Seq<char>
    decreases parts.len(),
{
    if parts.len() == 0 {
        Seq::empty()
    } else if parts.len() == 1 {
        parts[0]
    } else {
        join(parts.drop_last(), sep) + sep + parts.last()
    }
}

/// One `?` placeholder for each of `n` values, comma separated.
pub open spec fn placeholders(n: nat) -> Seq<char> {
    join(Seq::new(n, |i: int| "?"@), ", "@)
}

pub open spec fn find_by_id_query(table: Seq<char>) -> Seq<char> {
    "SELECT * FROM "@ + table + " WHERE id = ? ALLOW FILTERING;"@
}

/// The lookup-by-column template: `{}` marks where the column name goes.
pub open spec fn find_by_column_template(table: Seq<char>) -> Seq<char> {
    "SELECT * FROM "@ + table + " WHERE {} = ? ALLOW FILTERING;"@
}

pub open spec fn column_prefix(table: Seq<char>) -> Seq<char> {
    "SELECT * FROM "@ + table + " WHERE "@
}

/// The lookup-by-column query with `column` written in.
pub open spec fn find_by_column_query(table: Seq<char>, column: Seq<char>) -> Seq<char> {
    column_prefix(table) + column + " = ? ALLOW FILTERING;"@
}

pub open spec fn insert_query(table: Seq<char>, names: Seq<Seq<char>>) -> Seq<char> {
    "INSERT INTO "@ + table + " ("@ + join(names, ", "@) + ") VALUES ("@ + placeholders(
        names.len(),
    ) + ");"@
}

pub open spec fn delete_query(table: Seq<char>) -> Seq<char> {
    "DELETE FROM "@ + table + " WHERE id = ?;"@
}

/// The four query templates of one table, built once.
#[derive(Clone, Debug, PartialEq)]
pub struct QueryTemplates {
    pub find_by_id: String,
    pub find_by_column: String,
    pub insert: String,
    pub delete: String,
    pub prefix: String,
}

impl QueryTemplates {
    /// The templates are those of `table` with the fields `names`.
    pub open spec fn describes(&self, table: Seq<char>, names: Seq<Seq<char>>) -> bool {
        &&& self.find_by_id@ == find_by_id_query(table)
        &&& self.find_by_column@ == find_by_column_template(table)
        &&& self.insert@ == insert_query(table, names)
        &&& self.delete@ == delete_query(table)
        &&& self.prefix@ == column_prefix(table)
    }

    /// Builds the templates for `table` and `fields`.
    pub fn build(table: &String, fields: &Vec<FieldDef>) -> (r: QueryTemplates)
        ensures
            r.describes(table@, field_names(fields@)),
    {
        let mut find_by_id = String::from_str("SELECT * FROM ");
        find_by_id.append(table.as_str());
        find_by_id.append(" WHERE id = ? ALLOW FILTERING;");

        let mut prefix = String::from_str("SELECT * FROM ");
        prefix.append(table.as_str());
        prefix.append(" WHERE ");

        let mut find_by_column = String::from_str("SELECT * FROM ");
        find_by_column.append(table.as_str());
        find_by_column.append(" WHERE {} = ? ALLOW FILTERING;");

        let mut insert = String::from_str("INSERT INTO ");
        insert.append(table.as_str());
        insert.append(" (");
        let names = join_names(fields);
        insert.append(names.as_str());
        insert.append(") VALUES (");
        let marks = join_placeholders(fields.len());
        insert.append(marks.as_str());
        insert.append(");");

        let mut delete = String::from_str("DELETE FROM ");
        delete.append(table.as_str());
        delete.append(" WHERE id = ?;");

        QueryTemplates { find_by_id, find_by_column, insert, delete, prefix }
    }

    /// The lookup-by-column query for `column`.
    pub fn render_find_by_column(&self, column: &String) -> (r: String)
        ensures
            forall|table: Seq<char>, names: Seq<Seq<char>>|
                self.describes(table, names) ==> r@ == find_by_column_query(table, column@),
    {
        let mut q = self.prefix.clone();
        q.append(column.as_str());
        q.append(" = ? ALLOW FILTERING;");
        q
    }
}

/// The names of `fields`, comma separated.
fn join_names(fields: &Vec<FieldDef>) -> (r: String)
    ensures
        r@ == join(field_names(fields@), ", "@),
{
    let mut out = String::new();
    let mut i: usize = 0;
    while i < fields.len()
        invariant
            i <= fields@.len(),
            out@ == join(field_names(fields@).take(i as int), ", "@),
        decreases fields@.len() - i,
    {
        let ghost names = field_names(fields@);
        proof {
            assert(names.take(i + 1).drop_last() =~= names.take(i as int));
        }
        if i > 0 {
            out.append(", ");
        } else {
            assert(out@ + names.take(1)[0] =~= names.take(1)[0]);
        }
        out.append(fields[i].name.as_str());
        i += 1;
    }
    assert(field_names(fields@).take(fields@.len() as int) =~= field_names(fields@));
    out
}

/// `n` placeholders, comma separated.
fn join_placeholders(n: usize) -> (r: String)
    ensures
        r@ == placeholders(n as nat),
{
    let mut out = String::new();
    let mut i: usize = 0;
    while i < n
        invariant
            i <= n,
            out@ == placeholders(i as nat),
        decreases n - i,
    {
        proof {
            let next = Seq::new((i + 1) as nat, |j: int| "?"@);
            assert(next.drop_last() =~= Seq::new(i as nat, |j: int| "?"@));
        }
        if i > 0 {
            out.append(", ");
        } else {
            assert(out@ + "?"@ =~= "?"@);
        }
        out.append("?");
        i += 1;
    }
    out
}

} // verus!
