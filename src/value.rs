use vstd::prelude::*;

verus! {

/// A point in time as whole seconds since the epoch and a nanosecond remainder.
#[derive(Clone, Copy, Debug, PartialEq, Eq, Structural)]
pub struct Timespec {
    pub sec: i64,
    pub nsec: i32,
}

/// The declared type of one field of a record.
#[derive(Clone, Copy, Debug, PartialEq, Eq, Structural)]
pub enum FieldKind {
    Int,
    Text,
    Bool,
    Timestamp,
}

/// A scalar value as the driver carries it.
#[derive(Clone, Debug, PartialEq)]
pub enum Value {
    Int(i64),
    Text(String),
    Bool(bool),
    Timestamp(Timespec),
}

/// Whether a value is of the given declared kind.
pub open spec fn has_kind(v: Value, k: FieldKind) -> bool {
    match v {
        Value::Int(_) => k == FieldKind::Int,
        Value::Text(_) => k == FieldKind::Text,
        Value::Bool(_) => k == FieldKind::Bool,
        Value::Timestamp(_) => k == FieldKind::Timestamp,
    }
}

impl Value {
    /// Whether this value can stand in a field of kind `k`.
    pub fn is_of_kind(&self, k: FieldKind) -> (r: bool)
        ensures
            r == has_kind(*self, k),
    {
        match self {
            Value::Int(_) => k == FieldKind::Int,
            Value::Text(_) => k == FieldKind::Text,
            Value::Bool(_) => k == FieldKind::Bool,
            Value::Timestamp(_) => k == FieldKind::Timestamp,
        }
    }

    /// A copy of this value.
    pub fn duplicate(&self) -> (r: Value)
        ensures
            r == *self,
    {
        match self {
            Value::Int(i) => Value::Int(*i),
            Value::Text(s) => Value::Text(s.clone()),
            Value::Bool(b) => Value::Bool(*b),
            Value::Timestamp(t) => Value::Timestamp(*t),
        }
    }
}

} // verus!

verus! {

/// One named value: a column of a returned row, or a field of a record.
#[derive(Clone, Debug, PartialEq)]
pub struct Entry {
    pub name: String,
    pub value: Value,
}

impl Entry {
    /// A copy of this entry.
    pub fn duplicate(&self) -> (r: Entry)
        ensures
            r == *self,
    {
        Entry { name: self.name.clone(), value: self.value.duplicate() }
    }
}

/// The value stored under `name`: the first entry that carries that name.
pub open spec fn lookup(es: Seq<Entry>, name: Seq<char>) -> Option<Value>
    decreases es.len(),
{
    if es.len() == 0 {
        None
    } else if es[0].name@ == name {
        Some(es[0].value)
    } else {
        lookup(es.drop_first(), name)
    }
}

proof fn lemma_lookup_suffix(es: Seq<Entry>, name: Seq<char>, i: int)
    requires
        0 <= i < es.len(),
        es[i].name@ != name,
    ensures
        lookup(es.subrange(i, es.len() as int), name) == lookup(
            es.subrange(i + 1, es.len() as int),
            name,
        ),
{
    assert(es.subrange(i, es.len() as int).drop_first() =~= es.subrange(i + 1, es.len() as int));
}

/// The value stored under `name` among `es`, if any.
pub fn find_entry(es: &Vec<Entry>, name: &String) -> (r: Option<Value>)
    ensures
        r == lookup(es@, name@),
{
    let mut i: usize = 0;
    assert(es@.subrange(0, es@.len() as int) =~= es@);
    while i < es.len()
        invariant
            i <= es@.len(),
            lookup(es@, name@) == lookup(es@.subrange(i as int, es@.len() as int), name@),
        decreases es@.len() - i,
    {
        if es[i].name == *name {
            return Some(es[i].value.duplicate());
        }
        proof {
            lemma_lookup_suffix(es@, name@, i as int);
        }
        i += 1;
    }
    None
}

/// A row as the driver returns it: column names with their raw values.
#[derive(Clone, Debug, PartialEq)]
pub struct Row {
    pub entries: Vec<Entry>,
}

/// A record of the mapped type: its fields by name.
#[derive(Clone, Debug, PartialEq)]
pub struct Record {
    pub entries: Vec<Entry>,
}

} // verus!

verus! {

/// `es` with the first entry named like `e` replaced by `e`, or `e` added at
/// the end when no entry has that name.
pub open spec fn set_entry(es: Seq<Entry>, e: Entry) -> Seq<Entry>
    decreases es.len(),
{
    if es.len() == 0 {
        seq![e]
    } else if es[0].name@ == e.name@ {
        seq![e] + es.drop_first()
    } else {
        seq![es[0]] + set_entry(es.drop_first(), e)
    }
}

/// After `set_entry`, the name of `e` reads `e`'s value and every other name
/// reads what it read before.
pub proof fn lemma_lookup_set_entry(es: Seq<Entry>, e: Entry, name: Seq<char>)
    ensures
        lookup(set_entry(es, e), name) == if name == e.name@ {
            Some(e.value)
        } else {
            lookup(es, name)
        },
    decreases es.len(),
{
    if es.len() == 0 {
        assert(seq![e].drop_first() =~= Seq::<Entry>::empty());
        assert(seq![e][0] == e);
        assert(lookup(Seq::<Entry>::empty(), name) is None);
    } else if es[0].name@ == e.name@ {
        assert((seq![e] + es.drop_first()).drop_first() =~= es.drop_first());
        assert((seq![e] + es.drop_first())[0] == e);
    } else {
        let rest = set_entry(es.drop_first(), e);
        assert((seq![es[0]] + rest).drop_first() =~= rest);
        assert((seq![es[0]] + rest)[0] == es[0]);
        lemma_lookup_set_entry(es.drop_first(), e, name);
    }
}

proof fn lemma_set_entry_at(es: Seq<Entry>, e: Entry, i: int)
    requires
        0 <= i < es.len(),
        es[i].name@ == e.name@,
        forall|j: int| 0 <= j < i ==> es[j].name@ != e.name@,
    ensures
        set_entry(es, e) == es.update(i, e),
    decreases i,
{
    if i == 0 {
        assert(seq![e] + es.drop_first() =~= es.update(0, e));
    } else {
        lemma_set_entry_at(es.drop_first(), e, i - 1);
        assert(seq![es[0]] + es.drop_first().update(i - 1, e) =~= es.update(i, e));
    }
}

proof fn lemma_set_entry_absent(es: Seq<Entry>, e: Entry)
    requires
        forall|j: int| 0 <= j < es.len() ==> es[j].name@ != e.name@,
    ensures
        set_entry(es, e) == es.push(e),
    decreases es.len(),
{
    if es.len() == 0 {
        assert(seq![e] =~= es.push(e));
    } else {
        lemma_set_entry_absent(es.drop_first(), e);
        assert(seq![es[0]] + es.drop_first().push(e) =~= es.push(e));
    }
}

/// Sets the entry named like `e` to `e`, adding it when there is none.
pub fn put_entry(es: &mut Vec<Entry>, e: Entry)
    ensures
        final(es)@ == set_entry(old(es)@, e),
{
    let mut i: usize = 0;
    while i < es.len()
        invariant
            es@ == old(es)@,
            i <= es@.len(),
            forall|j: int| 0 <= j < i ==> es@[j].name@ != e.name@,
        decreases es@.len() - i,
    {
        if es[i].name == e.name {
            proof {
                lemma_set_entry_at(es@, e, i as int);
            }
            es.set(i, e);
            return;
        }
        i += 1;
    }
    proof {
        lemma_set_entry_absent(es@, e);
    }
    es.push(e);
}

} // verus!
