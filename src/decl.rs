use vstd::prelude::*;

verus! {

/// A marker attached to a field: the path that names it and the rest of its
/// text, which is carried along unread.
pub struct Marker {
    pub path: String,
    pub tokens: String,
}

/// One field of a record declaration.
pub struct Field {
    /// The field's name; `None` for a positional field.
    pub name: Option<String>,
    /// The declared type, as written.
    pub ty: String,
    /// The markers attached to the field, in order.
    pub markers: Vec<Marker>,
    /// The documentation lines attached to the field, in order.
    pub docs: Vec<String>,
}

/// The generic parameter list of a record: each parameter as written (bounds
/// included) and each `where` predicate as written.
pub struct GenericParams {
    pub params: Vec<String>,
    pub where_predicates: Vec<String>,
}

/// A parsed record declaration.
pub struct Record {
    pub name: String,
    pub generics: GenericParams,
    pub fields: Vec<Field>,
}

/// The marker that asks for a getter.
pub open spec fn is_getter_marker(m: Marker) -> bool {
    m.path@ == "get"@
}

/// The marker that asks for a setter.
pub open spec fn is_setter_marker(m: Marker) -> bool {
    m.path@ == "set"@
}

pub open spec fn is_recognized(m: Marker) -> bool {
    is_getter_marker(m) || is_setter_marker(m)
}

pub open spec fn wants_getter(ms: Seq<Marker>) -> bool {
    exists|j: int| 0 <= j < ms.len() && is_getter_marker(#[trigger] ms[j])
}

pub open spec fn wants_setter(ms: Seq<Marker>) -> bool {
    exists|j: int| 0 <= j < ms.len() && is_setter_marker(#[trigger] ms[j])
}

/// The markers other than `get` and `set`, in the order they were declared.
pub open spec fn opaque_markers(ms: Seq<Marker>) -> Seq<Marker>
    decreases ms.len(),
{
    if ms.len() == 0 {
        seq![]
    } else {
        let rest = opaque_markers(ms.drop_last());
        if is_recognized(ms.last()) {
            rest
        } else {
            rest.push(ms.last())
        }
    }
}

/// The character contents of a list of strings.
pub open spec fn lines_of(v: Seq<String>) -> Seq<Seq<char>> {
    v.map_values(|s: String| s@)
}

/// A copy of a list of strings.
pub fn copy_lines(v: &Vec<String>) -> (r: Vec<String>)
    ensures
        r@ == v@,
{
    let mut r: Vec<String> = Vec::new();
    let mut i: usize = 0;
    while i < v.len()
        invariant
            i <= v.len(),
            r@ == v@.take(i as int),
        decreases v.len() - i,
    {
        r.push(v[i].clone());
        assert(v@.take(i as int + 1) == v@.take(i as int).push(v@[i as int]));
        i += 1;
    }
    assert(v@.take(v.len() as int) == v@);
    r
}

impl Marker {
    /// A copy of this marker.
    pub fn duplicate(&self) -> (r: Marker)
        ensures
            r == *self,
    {
        Marker { path: self.path.clone(), tokens: self.tokens.clone() }
    }

    /// Whether this marker's path is exactly `word`.
    pub fn path_is(&self, word: &str) -> (r: bool)
        ensures
            r == (self.path@ == word@),
    {
        let w = String::from_str(word);
        self.path == w
    }
}

impl GenericParams {
    /// A copy of this parameter list.
    pub fn duplicate(&self) -> (r: GenericParams)
        ensures
            r.params@ == self.params@,
            r.where_predicates@ == self.where_predicates@,
    {
        GenericParams {
            params: copy_lines(&self.params),
            where_predicates: copy_lines(&self.where_predicates),
        }
    }
}

} // verus!
