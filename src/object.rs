use vstd::prelude::*;
use crate::accessor::{Accessor, AccessorKind};
use crate::decl::Field;
use crate::expand::Expansion;

verus! {

/// A value of an expanded record: the value of each field, in declaration
/// order, as written.
pub struct Object {
    pub values: Vec<String>,
}

/// `i` is the first operation of `acc` of kind `kind` named `method`.
pub open spec fn first_accessor(acc: Seq<Accessor>, kind: AccessorKind, method: Seq<char>, i: int) -> bool {
    &&& 0 <= i < acc.len()
    &&& acc[i].kind == kind
    &&& acc[i].name@ == method
    &&& forall|k: int| 0 <= k < i ==> !(#[trigger] acc[k].kind == kind && acc[k].name@ == method)
}

/// `j` is the first field of `fields` named `name`.
pub open spec fn first_field(fields: Seq<Field>, name: Seq<char>, j: int) -> bool {
    &&& 0 <= j < fields.len()
    &&& fields[j].name matches Some(n) && n@ == name
    &&& forall|k: int|
        0 <= k < j ==> !(#[trigger] fields[k].name matches Some(n) && n@ == name)
}

/// Calling the operation of kind `kind` named `method` on a value of the
/// expanded record reaches the field at position `j`.
pub open spec fn reaches(e: Expansion, kind: AccessorKind, method: Seq<char>, j: int) -> bool {
    e.block matches Some(b) && exists|i: int|
        first_accessor(b.accessors@, kind, method, i) && first_field(
            e.item.fields@,
            #[trigger] b.accessors@[i].field@,
            j,
        )
}

fn find_accessor(acc: &Vec<Accessor>, kind: AccessorKind, method: &str) -> (r: Option<usize>)
    ensures
        match r {
            Some(i) => first_accessor(acc@, kind, method@, i as int),
            None => forall|k: int|
                0 <= k < acc@.len() ==> !(#[trigger] acc@[k].kind == kind && acc@[k].name@
                    == method@),
        },
{
    let wanted = String::from_str(method);
    let mut i: usize = 0;
    while i < acc.len()
        invariant
            i <= acc@.len(),
            wanted@ == method@,
            forall|k: int|
                0 <= k < i ==> !(#[trigger] acc@[k].kind == kind && acc@[k].name@ == method@),
        decreases acc.len() - i,
    {
        if acc[i].kind == kind && acc[i].name == wanted {
            return Some(i);
        }
        i += 1;
    }
    None
}

fn find_field(fields: &Vec<Field>, name: &String) -> (r: Option<usize>)
    ensures
        match r {
            Some(j) => first_field(fields@, name@, j as int),
            None => forall|k: int|
                0 <= k < fields@.len() ==> !(#[trigger] fields@[k].name matches Some(n) && n@
                    == name@),
        },
{
    let mut j: usize = 0;
    while j < fields.len()
        invariant
            j <= fields@.len(),
            forall|k: int|
                0 <= k < j ==> !(#[trigger] fields@[k].name matches Some(n) && n@ == name@),
        decreases fields.len() - j,
    {
        let hit = match &fields[j].name {
            Some(n) => *n == *name,
            None => false,
        };
        if hit {
            return Some(j);
        }
        j += 1;
    }
    None
}

impl Expansion {
    /// The position of the field that the operation of kind `kind` named
    /// `method` reaches, if the expansion generated one.
    pub fn target(&self, kind: AccessorKind, method: &str) -> (r: Option<usize>)
        ensures
            match r {
                Some(j) => reaches(*self, kind, method@, j as int),
                None => forall|j: int| !reaches(*self, kind, method@, j),
            },
    {
        match &self.block {
            None => None,
            Some(b) => match find_accessor(&b.accessors, kind, method) {
                None => None,
                Some(i) => {
                    let r = find_field(&self.item.fields, &b.accessors[i].field);
                    proof {
                        assert forall|j: int| r is None implies !reaches(*self, kind, method@, j) by {
                            if reaches(*self, kind, method@, j) {
                                let i2 = choose|i2: int|
                                    first_accessor(b.accessors@, kind, method@, i2) && first_field(
                                        self.item.fields@,
                                        #[trigger] b.accessors@[i2].field@,
                                        j,
                                    );
                                assert(i2 == i);
                            }
                        }
                    }
                    r
                },
            },
        }
    }

    /// Calls the getter named `method` on `obj`: a borrow of the field it
    /// reads, or `None` if no such getter was generated.
    pub fn get<'a>(&self, obj: &'a Object, method: &str) -> (r: Option<&'a String>)
        requires
            obj.values@.len() == self.item.fields@.len(),
        ensures
            match r {
                Some(v) => exists|j: int|
                    reaches(*self, AccessorKind::Getter, method@, j) && *v == obj.values@[j],
                None => forall|j: int| !reaches(*self, AccessorKind::Getter, method@, j),
            },
    {
        match self.target(AccessorKind::Getter, method) {
            Some(j) => Some(&obj.values[j]),
            None => None,
        }
    }

    /// Calls the setter named `method` on `obj` with `value`: the field it
    /// writes is overwritten. Returns `false`, leaving `obj` as it was, if no
    /// such setter was generated.
    pub fn set(&self, obj: &mut Object, method: &str, value: String) -> (r: bool)
        requires
            old(obj).values@.len() == self.item.fields@.len(),
        ensures
            r == exists|j: int| reaches(*self, AccessorKind::Setter, method@, j),
            r ==> exists|j: int|
                reaches(*self, AccessorKind::Setter, method@, j) && final(obj).values@ == old(
                    obj,
                ).values@.update(j, value),
            !r ==> final(obj).values@ == old(obj).values@,
    {
        match self.target(AccessorKind::Setter, method) {
            Some(j) => {
                obj.values.set(j, value);
                true
            },
            None => false,
        }
    }
}

} // verus!
