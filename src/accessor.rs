use vstd::prelude::*;
use crate::decl::lines_of;

verus! {

/// The two kinds of generated operation.
#[derive(Clone, Copy, Debug, PartialEq, Eq, Structural)]
pub enum AccessorKind {
    /// Borrows the record immutably and returns a borrow of the field.
    Getter,
    /// Borrows the record mutably and overwrites the field with its argument.
    Setter,
}

/// A field reduced to what accessor generation needs.
pub struct ClassifiedField {
    pub name: String,
    pub ty: String,
    pub wants_getter: bool,
    pub wants_setter: bool,
    pub docs: Vec<String>,
}

/// One generated accessor operation.
pub struct Accessor {
    pub kind: AccessorKind,
    /// The name of the field it reads or writes.
    pub field: String,
    /// The name of the generated operation.
    pub name: String,
    /// The field's declared type: the getter returns a borrow of it, the
    /// setter takes a value of it.
    pub ty: String,
    /// The documentation lines of the generated operation.
    pub docs: Vec<String>,
}

/// The name of the operation of the given kind for a field: the field's own
/// name for a getter, `set_` followed by it for a setter.
pub open spec fn accessor_name(kind: AccessorKind, field: Seq<char>) -> Seq<char> {
    match kind {
        AccessorKind::Getter => field,
        AccessorKind::Setter => "set_"@ + field,
    }
}

/// The first documentation line of a generated operation.
pub open spec fn doc_header(kind: AccessorKind, field: Seq<char>) -> Seq<char> {
    match kind {
        AccessorKind::Getter => "Getter for `"@ + field + "`."@,
        AccessorKind::Setter => "Setter for `"@ + field + "`."@,
    }
}

/// The documentation of a generated operation: the header, a blank line, then
/// the field's own lines unchanged.
pub open spec fn accessor_docs(kind: AccessorKind, field: Seq<char>, docs: Seq<Seq<char>>) -> Seq<
    Seq<char>,
> {
    seq![doc_header(kind, field), Seq::<char>::empty()] + docs
}

/// `a` is the operation of kind `kind` for a field named `field` of type `ty`
/// documented by `docs`.
pub open spec fn describes(
    a: Accessor,
    kind: AccessorKind,
    field: Seq<char>,
    ty: Seq<char>,
    docs: Seq<Seq<char>>,
) -> bool {
    &&& a.kind == kind
    &&& a.field@ == field
    &&& a.name@ == accessor_name(kind, field)
    &&& a.ty@ == ty
    &&& lines_of(a.docs@) == accessor_docs(kind, field, docs)
}

/// The kinds of operation a classified field asks for, getter first.
pub open spec fn requested_kinds(wants_getter: bool, wants_setter: bool) -> Seq<AccessorKind> {
    (if wants_getter {
        seq![AccessorKind::Getter]
    } else {
        Seq::empty()
    }) + (if wants_setter {
        seq![AccessorKind::Setter]
    } else {
        Seq::empty()
    })
}

/// The name of the operation of kind `kind` for the field `field`.
pub fn accessor_name_of(kind: AccessorKind, field: &String) -> (r: String)
    ensures
        r@ == accessor_name(kind, field@),
{
    match kind {
        AccessorKind::Getter => field.clone(),
        AccessorKind::Setter => String::from_str("set_").concat(field.as_str()),
    }
}

/// The documentation lines of the operation of kind `kind` for the field
/// `field` documented by `docs`.
pub fn accessor_doc_lines(kind: AccessorKind, field: &String, docs: &Vec<String>) -> (r: Vec<
    String,
>)
    ensures
        lines_of(r@) == accessor_docs(kind, field@, lines_of(docs@)),
{
    let lead = match kind {
        AccessorKind::Getter => String::from_str("Getter for `"),
        AccessorKind::Setter => String::from_str("Setter for `"),
    };
    let header = lead.concat(field.as_str()).concat("`.");
    let mut r: Vec<String> = Vec::new();
    r.push(header);
    r.push(String::new());
    assert(lines_of(r@) =~= accessor_docs(kind, field@, lines_of(docs@.take(0))));
    let mut i: usize = 0;
    while i < docs.len()
        invariant
            i <= docs.len(),
            lines_of(r@) == accessor_docs(kind, field@, lines_of(docs@.take(i as int))),
        decreases docs.len() - i,
    {
        let ghost before = r@;
        r.push(docs[i].clone());
        assert(lines_of(r@) =~= lines_of(before).push(docs@[i as int]@));
        assert(lines_of(docs@.take(i as int + 1)) =~= lines_of(docs@.take(i as int)).push(
            docs@[i as int]@,
        ));
        i += 1;
    }
    assert(docs@.take(docs.len() as int) == docs@);
    r
}

impl ClassifiedField {
    /// The operation of kind `kind` for this field.
    pub fn accessor(&self, kind: AccessorKind) -> (r: Accessor)
        ensures
            describes(r, kind, self.name@, self.ty@, lines_of(self.docs@)),
    {
        Accessor {
            kind,
            field: self.name.clone(),
            name: accessor_name_of(kind, &self.name),
            ty: self.ty.clone(),
            docs: accessor_doc_lines(kind, &self.name, &self.docs),
        }
    }

    /// Appends to `out` the operations this field asks for: its getter, then
    /// its setter, each only where requested.
    pub fn synthesize(&self, out: &mut Vec<Accessor>)
        ensures
            final(out)@.len() == old(out)@.len() + requested_kinds(
                self.wants_getter,
                self.wants_setter,
            ).len(),
            final(out)@.take(old(out)@.len() as int) == old(out)@,
            forall|k: int|
                0 <= k < requested_kinds(self.wants_getter, self.wants_setter).len() ==> describes(
                    #[trigger] final(out)@[old(out)@.len() + k],
                    requested_kinds(self.wants_getter, self.wants_setter)[k],
                    self.name@,
                    self.ty@,
                    lines_of(self.docs@),
                ),
    {
        let ghost start = out@;
        if self.wants_getter {
            out.push(self.accessor(AccessorKind::Getter));
        }
        if self.wants_setter {
            out.push(self.accessor(AccessorKind::Setter));
        }
        assert(out@.take(start.len() as int) =~= start);
    }
}

} // verus!
