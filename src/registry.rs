use vstd::prelude::*;
use crate::descriptor::{descriptor_problem, DescriptorError, FieldDef, ModelDescriptor};

verus! {

/// A record type's name with its descriptor.
#[derive(Debug)]
pub struct RegisteredModel {
    pub model_name: String,
    pub descriptor: ModelDescriptor,
}

/// Why a registration was refused.
#[derive(Clone, Debug, PartialEq)]
pub enum RegisterError {
    /// The record shape itself is malformed.
    Descriptor(DescriptorError),
    /// The type is already registered with another table or field list.
    Conflict(String),
}

/// The descriptor registered under `name`, if any.
pub open spec fn find_model(ms: Seq<RegisteredModel>, name: Seq<char>) -> Option<ModelDescriptor>
    decreases ms.len(),
{
    if ms.len() == 0 {
        None
    } else if ms[0].model_name@ == name {
        Some(ms[0].descriptor)
    } else {
        find_model(ms.drop_first(), name)
    }
}

/// Two field lists with the same names and kinds, in the same order.
pub open spec fn same_fields(a: Seq<FieldDef>, b: Seq<FieldDef>) -> bool {
    &&& a.len() == b.len()
    &&& forall|i: int| 0 <= i < a.len() ==> a[i].name@ == b[i].name@ && a[i].kind == b[i].kind
}

/// `d` describes the table `table` with the fields `fields`.
pub open spec fn same_definition(d: ModelDescriptor, table: Seq<char>, fields: Seq<FieldDef>) -> bool {
    d.table_view() == table && same_fields(d.field_defs(), fields)
}

/// The descriptors of all registered record types, each registered once.
pub struct Registry {
    pub(crate) models: Vec<RegisteredModel>,
}

proof fn lemma_find_model_suffix(ms: Seq<RegisteredModel>, name: Seq<char>, i: int)
    requires
        0 <= i < ms.len(),
        ms[i].model_name@ != name,
    ensures
        find_model(ms.subrange(i, ms.len() as int), name) == find_model(ms.subrange(i + 1, ms.len() as int), name),
{
    assert(ms.subrange(i, ms.len() as int).drop_first() =~= ms.subrange(i + 1, ms.len() as int));
}

proof fn lemma_find_model_push(ms: Seq<RegisteredModel>, m: RegisteredModel, name: Seq<char>)
    requires
        find_model(ms, m.model_name@) is None,
    ensures
        find_model(ms.push(m), name) == if name == m.model_name@ {
            Some(m.descriptor)
        } else {
            find_model(ms, name)
        },
    decreases ms.len(),
{
    let pm = ms.push(m);
    if ms.len() == 0 {
        assert(pm.drop_first() =~= Seq::<RegisteredModel>::empty());
        assert(pm[0] == m);
        assert(find_model(pm.drop_first(), name) is None);
        assert(find_model(ms, name) is None);
    } else {
        assert(pm[0] == ms[0]);
        assert(pm.drop_first() =~= ms.drop_first().push(m));
        if ms[0].model_name@ != name {
            assert(find_model(ms.drop_first(), m.model_name@) is None);
            lemma_find_model_push(ms.drop_first(), m, name);
            assert(find_model(pm, name) == find_model(pm.drop_first(), name));
        } else {
            assert(find_model(pm, name) == Some(ms[0].descriptor));
            assert(find_model(ms, name) == Some(ms[0].descriptor));
        }
    }
}

fn same_field_list(a: &Vec<FieldDef>, b: &Vec<FieldDef>) -> (r: bool)
    ensures
        r == same_fields(a@, b@),
{
    if a.len() != b.len() {
        return false;
    }
    let mut i: usize = 0;
    while i < a.len()
        invariant
            a@.len() == b@.len(),
            i <= a@.len(),
            forall|k: int| 0 <= k < i ==> a@[k].name@ == b@[k].name@ && a@[k].kind == b@[k].kind,
        decreases a@.len() - i,
    {
        if a[i].name != b[i].name || a[i].kind != b[i].kind {
            return false;
        }
        i += 1;
    }
    true
}

impl Registry {
    pub open(crate) spec fn models_view(&self) -> Seq<RegisteredModel> {
        self.models@
    }

    pub open(crate) spec fn get_spec(&self, model_name: Seq<char>) -> Option<ModelDescriptor> {
        find_model(self.models@, model_name)
    }

    pub open(crate) spec fn wf(&self) -> bool {
        forall|i: int| 0 <= i < self.models@.len() ==> (#[trigger] self.models@[i]).descriptor.wf()
    }

    /// A registry with no record type in it.
    pub fn new() -> (r: Registry)
        ensures
            r.wf(),
            forall|n: Seq<char>| r.get_spec(n) is None,
    {
        Registry { models: Vec::new() }
    }

    /// The descriptor registered for `model_name`, if any.
    pub fn get(&self, model_name: &String) -> (r: Option<&ModelDescriptor>)
        requires
            self.wf(),
        ensures
            r matches Some(d) ==> self.get_spec(model_name@) == Some(*d) && d.wf(),
            r is None ==> self.get_spec(model_name@) is None,
    {
        let mut i: usize = 0;
        assert(self.models@.subrange(0, self.models@.len() as int) =~= self.models@);
        while i < self.models.len()
            invariant
                self.wf(),
                i <= self.models@.len(),
                find_model(self.models@, model_name@) == find_model(
                    self.models@.subrange(i as int, self.models@.len() as int),
                    model_name@,
                ),
            decreases self.models@.len() - i,
        {
            if self.models[i].model_name == *model_name {
                assert(self.models@[i as int].descriptor.wf());
                return Some(&self.models[i].descriptor);
            }
            proof {
                lemma_find_model_suffix(self.models@, model_name@, i as int);
            }
            i += 1;
        }
        None
    }

    /// Registers the record type `model_name` with its table and fields.
    /// Registering it again with the same definition changes nothing; with
    /// another definition it is refused, and the first one stays.
    pub fn register(&mut self, model_name: String, table_name: String, fields: Vec<FieldDef>) -> (r: Result<(), RegisterError>)
        requires
            old(self).wf(),
        ensures
            final(self).wf(),
            match old(self).get_spec(model_name@) {
                Some(d) => {
                    &&& final(self).models_view() == old(self).models_view()
                    &&& if same_definition(d, table_name@, fields@) {
                        r is Ok
                    } else {
                        r == Err::<(), RegisterError>(RegisterError::Conflict(model_name))
                    }
                },
                None => match descriptor_problem(fields@) {
                    Some(e) => {
                        &&& final(self).models_view() == old(self).models_view()
                        &&& r == Err::<(), RegisterError>(RegisterError::Descriptor(e))
                    },
                    None => {
                        &&& r is Ok
                        &&& final(self).get_spec(model_name@) matches Some(d) && d.table_view()
                            == table_name@ && d.field_defs() == fields@
                        &&& forall|n: Seq<char>|
                            n != model_name@ ==> final(self).get_spec(n) == old(self).get_spec(n)
                    },
                },
            },
    {
        match self.get(&model_name) {
            Some(d) => {
                if d.table_name == table_name && same_field_list(&d.fields, &fields) {
                    Ok(())
                } else {
                    Err(RegisterError::Conflict(model_name))
                }
            },
            None => match ModelDescriptor::new(table_name, fields) {
                Err(e) => Err(RegisterError::Descriptor(e)),
                Ok(descriptor) => {
                    let m = RegisteredModel { model_name, descriptor };
                    proof {
                        lemma_find_model_push(self.models@, m, m.model_name@);
                        assert forall|n: Seq<char>| true implies find_model(self.models@.push(m), n) == if n
                            == m.model_name@ {
                            Some(m.descriptor)
                        } else {
                            find_model(self.models@, n)
                        } by {
                            lemma_find_model_push(self.models@, m, n);
                        }
                    }
                    self.models.push(m);
                    Ok(())
                },
            },
        }
    }
}

} // verus!
