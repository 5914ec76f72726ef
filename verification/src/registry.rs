//! Description of a protocol object, as a registry of objects holds it.

use vstd::prelude::*;

use crate::types::{str_eq, DataType};

verus! {

/// A protocol object: its id, name, the data types of its requests and
/// responses, and the labels of its enumeration values.
pub struct ObjectInfo {
    pub object_id: u32,
    pub name: String,
    pub request_data_type: DataType,
    pub response_data_type: DataType,
    /// Enumeration values and their labels, first match wins.
    pub enum_labels: Vec<(u32, String)>,
}

/// Label of the first entry for `v`.
pub open spec fn enum_label(labels: Seq<(u32, String)>, v: u32) -> Option<Seq<char>>
    decreases labels.len(),
{
    if labels.len() == 0 {
        None
    } else if labels[0].0 == v {
        Some(labels[0].1@)
    } else {
        enum_label(labels.drop_first(), v)
    }
}

impl ObjectInfo {
    /// Label of an enumeration value.
    pub fn enum_str(&self, v: u32) -> (r: Option<String>)
        ensures
            match r {
                Some(s) => enum_label(self.enum_labels@, v) == Some(s@),
                None => enum_label(self.enum_labels@, v) is None,
            },
    {
        let mut i: usize = 0;
        assert(self.enum_labels@.skip(0) =~= self.enum_labels@);
        while i < self.enum_labels.len()
            invariant
                i <= self.enum_labels@.len(),
                enum_label(self.enum_labels@, v) == enum_label(self.enum_labels@.skip(i as int), v),
            decreases self.enum_labels@.len() - i,
        {
            let entry = &self.enum_labels[i];
            assert(self.enum_labels@.skip(i as int)[0] == self.enum_labels@[i as int]);
            if entry.0 == v {
                return Some(entry.1.clone());
            }
            assert(self.enum_labels@.skip(i as int).drop_first() =~= self.enum_labels@.skip(i + 1));
            i = i + 1;
        }
        None
    }
}

/// Objects known to a client, looked up by name or id.
pub struct Registry {
    pub objects: Vec<ObjectInfo>,
}

/// Position of the first object named `name` in `objs`.
pub open spec fn first_named(objs: Seq<ObjectInfo>, name: Seq<char>, i: int) -> bool {
    &&& 0 <= i < objs.len()
    &&& objs[i].name@ == name
    &&& forall|j: int| 0 <= j < i ==> objs[j].name@ != name
}

/// Position of the first object with id `id` in `objs`.
pub open spec fn first_with_id(objs: Seq<ObjectInfo>, id: u32, i: int) -> bool {
    &&& 0 <= i < objs.len()
    &&& objs[i].object_id == id
    &&& forall|j: int| 0 <= j < i ==> objs[j].object_id != id
}

impl Registry {
    /// The first object with the given name.
    pub fn get_by_name(&self, name: &str) -> (r: Option<&ObjectInfo>)
        ensures
            match r {
                Some(o) => exists|i: int| first_named(self.objects@, name@, i) && *o == self.objects@[i],
                None => forall|j: int| 0 <= j < self.objects@.len() ==> self.objects@[j].name@ != name@,
            },
    {
        let mut i: usize = 0;
        while i < self.objects.len()
            invariant
                i <= self.objects@.len(),
                forall|j: int| 0 <= j < i ==> self.objects@[j].name@ != name@,
            decreases self.objects@.len() - i,
        {
            let o = &self.objects[i];
            if str_eq(o.name.as_str(), name) {
                assert(first_named(self.objects@, name@, i as int));
                return Some(o);
            }
            i = i + 1;
        }
        None
    }

    /// The first object with the given id.
    pub fn get_by_id(&self, id: u32) -> (r: Option<&ObjectInfo>)
        ensures
            match r {
                Some(o) => exists|i: int| first_with_id(self.objects@, id, i) && *o == self.objects@[i],
                None => forall|j: int| 0 <= j < self.objects@.len() ==> self.objects@[j].object_id != id,
            },
    {
        let mut i: usize = 0;
        while i < self.objects.len()
            invariant
                i <= self.objects@.len(),
                forall|j: int| 0 <= j < i ==> self.objects@[j].object_id != id,
            decreases self.objects@.len() - i,
        {
            let o = &self.objects[i];
            if o.object_id == id {
                assert(first_with_id(self.objects@, id, i as int));
                return Some(o);
            }
            i = i + 1;
        }
        None
    }
}

} // verus!
