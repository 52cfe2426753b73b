use vstd::prelude::*;
use crate::accessor::{describes, requested_kinds, Accessor, AccessorKind, ClassifiedField};
use crate::decl::{
    copy_lines, is_getter_marker, is_setter_marker, lines_of, opaque_markers, wants_getter,
    wants_setter, Field, GenericParams, Marker, Record,
};

verus! {

/// The block of generated operations that follows the declaration.
pub struct ImplBlock {
    /// The record's name.
    pub name: String,
    /// The record's generic parameters, as declared.
    pub generics: GenericParams,
    /// The generated operations, in field order.
    pub accessors: Vec<Accessor>,
}

/// What a record declaration turns into: the declaration with the recognized
/// markers removed, and the block of operations, absent when it would be empty.
pub struct Expansion {
    pub item: Record,
    pub block: Option<ImplBlock>,
}

/// Why a declaration is rejected.
#[derive(Clone, Copy, Debug, PartialEq, Eq, Structural)]
pub enum ExpandError {
    /// The field at this position has no name.
    UnnamedField { index: usize },
}

pub open spec fn same_generics(a: GenericParams, b: GenericParams) -> bool {
    a.params@ == b.params@ && a.where_predicates@ == b.where_predicates@
}

/// `stripped` is `field` with the recognized markers taken away and nothing
/// else changed.
pub open spec fn is_stripped(stripped: Field, field: Field) -> bool {
    &&& stripped.name == field.name
    &&& stripped.ty == field.ty
    &&& stripped.docs@ == field.docs@
    &&& stripped.markers@ == opaque_markers(field.markers@)
}

/// The kinds of operation a field asks for.
pub open spec fn field_kinds(f: Field) -> Seq<AccessorKind> {
    requested_kinds(wants_getter(f.markers@), wants_setter(f.markers@))
}

/// The operations a list of fields asks for, in order: each as the position of
/// its field and its kind.
pub open spec fn plan(fields: Seq<Field>) -> Seq<(int, AccessorKind)>
    decreases fields.len(),
{
    if fields.len() == 0 {
        seq![]
    } else {
        let n = fields.len() - 1;
        plan(fields.drop_last()) + field_kinds(fields.last()).map_values(
            |k: AccessorKind| (n, k),
        )
    }
}

/// `a` is the operation of kind `kind` for the named field `f`.
pub open spec fn describes_field(a: Accessor, kind: AccessorKind, f: Field) -> bool {
    f.name is Some && describes(a, kind, f.name.unwrap()@, f.ty@, lines_of(f.docs@))
}

/// `acc` is exactly the list of operations that `fields` ask for.
pub open spec fn generated_for(acc: Seq<Accessor>, fields: Seq<Field>) -> bool {
    let p = plan(fields);
    &&& acc.len() == p.len()
    &&& forall|i: int|
        0 <= i < acc.len() ==> {
            &&& 0 <= #[trigger] p[i].0 < fields.len()
            &&& describes_field(acc[i], p[i].1, fields[p[i].0])
        }
}

pub open spec fn all_named(fields: Seq<Field>) -> bool {
    forall|j: int| 0 <= j < fields.len() ==> (#[trigger] fields[j]).name is Some
}

/// What expanding `item` must give.
pub open spec fn expands_to(item: Record, e: Expansion) -> bool {
    &&& e.item.name == item.name
    &&& same_generics(e.item.generics, item.generics)
    &&& e.item.fields@.len() == item.fields@.len()
    &&& forall|j: int|
        0 <= j < item.fields@.len() ==> is_stripped(
            #[trigger] e.item.fields@[j],
            item.fields@[j],
        )
    &&& match e.block {
        None => plan(item.fields@).len() == 0,
        Some(b) => {
            &&& plan(item.fields@).len() > 0
            &&& b.name == item.name
            &&& same_generics(b.generics, item.generics)
            &&& generated_for(b.accessors@, item.fields@)
        },
    }
}

/// A copy of a list of markers.
fn copy_markers(v: &Vec<Marker>) -> (r: Vec<Marker>)
    ensures
        r@ == v@,
{
    let mut r: Vec<Marker> = Vec::new();
    let mut i: usize = 0;
    while i < v.len()
        invariant
            i <= v.len(),
            r@ == v@.take(i as int),
        decreases v.len() - i,
    {
        r.push(v[i].duplicate());
        assert(v@.take(i as int + 1) == v@.take(i as int).push(v@[i as int]));
        i += 1;
    }
    assert(v@.take(v.len() as int) == v@);
    r
}

impl Field {
    /// A copy of this field.
    pub fn duplicate(&self) -> (r: Field)
        ensures
            r.name == self.name,
            r.ty == self.ty,
            r.markers@ == self.markers@,
            r.docs@ == self.docs@,
    {
        let name = match &self.name {
            Some(n) => Some(n.clone()),
            None => None,
        };
        Field {
            name,
            ty: self.ty.clone(),
            markers: copy_markers(&self.markers),
            docs: copy_lines(&self.docs),
        }
    }

    /// Removes the `get` and `set` markers from this field, keeping every
    /// other marker in order, and returns whether each was there.
    pub fn take_markers(&mut self) -> (r: (bool, bool))
        ensures
            r.0 == wants_getter(old(self).markers@),
            r.1 == wants_setter(old(self).markers@),
            final(self).markers@ == opaque_markers(old(self).markers@),
            final(self).name == old(self).name,
            final(self).ty == old(self).ty,
            final(self).docs@ == old(self).docs@,
    {
        let mut kept: Vec<Marker> = Vec::new();
        let mut get = false;
        let mut set = false;
        let ghost ms = self.markers@;
        proof {
            reveal_strlit("get");
            reveal_strlit("set");
            assert("get"@[0] != "set"@[0]);
        }
        let mut i: usize = 0;
        while i < self.markers.len()
            invariant
                ms == self.markers@,
                "get"@ != "set"@,
                i <= ms.len(),
                kept@ == opaque_markers(ms.take(i as int)),
                get == exists|j: int| 0 <= j < i && is_getter_marker(#[trigger] ms[j]),
                set == exists|j: int| 0 <= j < i && is_setter_marker(#[trigger] ms[j]),
            decreases ms.len() - i,
        {
            let m = &self.markers[i];
            assert(ms.take(i as int + 1).drop_last() == ms.take(i as int));
            if m.path_is("get") {
                get = true;
            } else if m.path_is("set") {
                set = true;
            } else {
                kept.push(m.duplicate());
            }
            i += 1;
        }
        assert(ms.take(ms.len() as int) == ms);
        self.markers = kept;
        (get, set)
    }

    /// Reduces this field to its name, type, requested operations and
    /// documentation, removing the recognized markers from it.
    pub fn classify(&mut self) -> (r: ClassifiedField)
        requires
            old(self).name is Some,
        ensures
            r.name == old(self).name.unwrap(),
            r.ty == old(self).ty,
            r.wants_getter == wants_getter(old(self).markers@),
            r.wants_setter == wants_setter(old(self).markers@),
            r.docs@ == old(self).docs@,
            is_stripped(*final(self), *old(self)),
    {
        let (wants_getter, wants_setter) = self.take_markers();
        let name = match &self.name {
            Some(n) => n.clone(),
            None => String::new(),
        };
        ClassifiedField {
            name,
            ty: self.ty.clone(),
            wants_getter,
            wants_setter,
            docs: copy_lines(&self.docs),
        }
    }
}

/// The position of the first field without a name, if there is one.
pub fn first_unnamed(fields: &Vec<Field>) -> (r: Option<usize>)
    ensures
        match r {
            None => all_named(fields@),
            Some(i) => {
                &&& i < fields@.len()
                &&& fields@[i as int].name is None
                &&& all_named(fields@.take(i as int))
            },
        },
{
    let mut i: usize = 0;
    while i < fields.len()
        invariant
            i <= fields@.len(),
            all_named(fields@.take(i as int)),
        decreases fields.len() - i,
    {
        if fields[i].name.is_none() {
            return Some(i);
        }
        assert(fields@.take(i as int + 1) == fields@.take(i as int).push(fields@[i as int]));
        i += 1;
    }
    assert(fields@.take(fields.len() as int) == fields@);
    None
}

/// Adding one field to the end adds its operations to the end of the plan.
proof fn lemma_plan_push(fields: Seq<Field>, f: Field)
    ensures
        plan(fields.push(f)) == plan(fields) + field_kinds(f).map_values(
            |k: AccessorKind| (fields.len() as int, k),
        ),
{
    assert(fields.push(f).drop_last() == fields);
}

/// Expands a record declaration: removes the `get` and `set` markers from its
/// fields and generates, in field order, a getter for each field that had
/// `get` and a setter for each field that had `set`. The block of operations
/// is left out when nothing was generated. A declaration with a field that
/// has no name is rejected as a whole.
pub fn ters(item: Record) -> (r: Result<Expansion, ExpandError>)
    ensures
        match r {
            Err(ExpandError::UnnamedField { index }) => {
                &&& index < item.fields@.len()
                &&& item.fields@[index as int].name is None
                &&& all_named(item.fields@.take(index as int))
            },
            Ok(e) => all_named(item.fields@) && expands_to(item, e),
        },
{
    if let Some(index) = first_unnamed(&item.fields) {
        return Err(ExpandError::UnnamedField { index });
    }
    let ghost src = item.fields@;
    let mut fields: Vec<Field> = Vec::new();
    let mut accessors: Vec<Accessor> = Vec::new();
    let mut i: usize = 0;
    while i < item.fields.len()
        invariant
            src == item.fields@,
            i <= src.len(),
            all_named(src),
            fields@.len() == i,
            forall|j: int| 0 <= j < i ==> is_stripped(#[trigger] fields@[j], src[j]),
            generated_for(accessors@, src.take(i as int)),
        decreases src.len() - i,
    {
        let mut f = item.fields[i].duplicate();
        assert(src[i as int].name is Some);
        let c = f.classify();
        let ghost before = accessors@;
        c.synthesize(&mut accessors);
        fields.push(f);
        proof {
            let prev = src.take(i as int);
            let next = src.take(i as int + 1);
            assert(next == prev.push(src[i as int]));
            lemma_plan_push(prev, src[i as int]);
            let kinds = field_kinds(src[i as int]);
            assert(kinds == requested_kinds(c.wants_getter, c.wants_setter));
            assert forall|k: int| 0 <= k < accessors@.len() implies {
                &&& 0 <= #[trigger] plan(next)[k].0 < next.len()
                &&& describes_field(accessors@[k], plan(next)[k].1, next[plan(next)[k].0])
            } by {
                if k < before.len() {
                    assert(accessors@.take(before.len() as int)[k] == before[k]);
                    assert(plan(next)[k] == plan(prev)[k]);
                    assert(0 <= plan(prev)[k].0 < prev.len());
                    assert(next[plan(prev)[k].0] == prev[plan(prev)[k].0]);
                } else {
                    let t = k - before.len();
                    assert(plan(next)[k] == (i as int, kinds[t]));
                    assert(describes(
                        accessors@[before.len() + t],
                        kinds[t],
                        c.name@,
                        c.ty@,
                        lines_of(c.docs@),
                    ));
                    assert(next[i as int] == src[i as int]);
                }
            }
        }
        i += 1;
    }
    assert(src.take(src.len() as int) == src);
    let block = if accessors.len() == 0 {
        None
    } else {
        Some(ImplBlock { name: item.name.clone(), generics: item.generics.duplicate(), accessors })
    };
    let expanded = Record { name: item.name, generics: item.generics, fields };
    Ok(Expansion { item: expanded, block })
}

} // verus!
