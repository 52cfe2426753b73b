use vstd::prelude::*;
use crate::accessor::{accessor_docs, accessor_name, doc_header, AccessorKind};
use crate::decl::{
    is_getter_marker, is_recognized, is_setter_marker, lines_of, opaque_markers, wants_getter,
    wants_setter, Field, Marker, Record,
};
use crate::expand::{describes_field, expands_to, field_kinds, plan, Expansion};

verus! {

/// Every planned operation belongs to a field of the list and is one of the
/// kinds that field asks for.
proof fn lemma_plan_sound(fields: Seq<Field>, k: int)
    requires
        0 <= k < plan(fields).len(),
    ensures
        0 <= plan(fields)[k].0 < fields.len(),
        field_kinds(fields[plan(fields)[k].0]).contains(plan(fields)[k].1),
    decreases fields.len(),
{
    let prev = fields.drop_last();
    let n = fields.len() - 1;
    let kinds = field_kinds(fields.last());
    if k < plan(prev).len() {
        lemma_plan_sound(prev, k);
        assert(plan(fields)[k] == plan(prev)[k]);
        assert(fields[plan(prev)[k].0] == prev[plan(prev)[k].0]);
    } else {
        let t = k - plan(prev).len();
        assert(plan(fields)[k] == (n, kinds[t]));
    }
}

/// Every operation that a field asks for is planned, at that field's position.
proof fn lemma_plan_complete(fields: Seq<Field>, j: int, t: int)
    requires
        0 <= j < fields.len(),
        0 <= t < field_kinds(fields[j]).len(),
    ensures
        exists|k: int|
            0 <= k < plan(fields).len() && #[trigger] plan(fields)[k] == (
                j,
                field_kinds(fields[j])[t],
            ),
    decreases fields.len(),
{
    let prev = fields.drop_last();
    let n = fields.len() - 1;
    if j < n {
        lemma_plan_complete(prev, j, t);
        let k = choose|k: int|
            0 <= k < plan(prev).len() && #[trigger] plan(prev)[k] == (j, field_kinds(prev[j])[t]);
        assert(plan(fields)[k] == plan(prev)[k]);
    } else {
        let k = plan(prev).len() + t;
        assert(plan(fields)[k] == (n, field_kinds(fields.last())[t]));
    }
}

proof fn lemma_opaque_unchanged(ms: Seq<Marker>)
    requires
        !wants_getter(ms),
        !wants_setter(ms),
    ensures
        opaque_markers(ms) == ms,
    decreases ms.len(),
{
    if ms.len() > 0 {
        let prev = ms.drop_last();
        assert(!wants_getter(prev)) by {
            if wants_getter(prev) {
                let j = choose|j: int|
                    0 <= j < prev.len() && is_getter_marker(#[trigger] prev[j]);
                assert(ms[j] == prev[j]);
            }
        }
        assert(!wants_setter(prev)) by {
            if wants_setter(prev) {
                let j = choose|j: int|
                    0 <= j < prev.len() && is_setter_marker(#[trigger] prev[j]);
                assert(ms[j] == prev[j]);
            }
        }
        lemma_opaque_unchanged(prev);
        assert(!is_recognized(ms[ms.len() - 1]));
        assert(prev.push(ms.last()) == ms);
    }
}

/// A field that carries neither the `get` nor the `set` marker comes out
/// exactly as it went in, and no generated operation belongs to it.
pub proof fn law_unmarked_field_unchanged(item: Record, e: Expansion, j: int)
    requires
        expands_to(item, e),
        0 <= j < item.fields@.len(),
        !wants_getter(item.fields@[j].markers@),
        !wants_setter(item.fields@[j].markers@),
    ensures
        e.item.fields@[j].name == item.fields@[j].name,
        e.item.fields@[j].ty == item.fields@[j].ty,
        e.item.fields@[j].markers@ == item.fields@[j].markers@,
        e.item.fields@[j].docs@ == item.fields@[j].docs@,
        forall|k: int| 0 <= k < plan(item.fields@).len() ==> #[trigger] plan(item.fields@)[k].0 != j,
{
    lemma_opaque_unchanged(item.fields@[j].markers@);
    assert forall|k: int| 0 <= k < plan(item.fields@).len() implies #[trigger] plan(
        item.fields@,
    )[k].0 != j by {
        lemma_plan_sound(item.fields@, k);
    }
}

/// The markers of a field that come out are its markers other than `get` and
/// `set`, all of them, unchanged and in the order they were declared.
pub proof fn law_opaque_markers_kept(item: Record, e: Expansion, j: int)
    requires
        expands_to(item, e),
        0 <= j < item.fields@.len(),
    ensures
        e.item.fields@[j].markers@ == item.fields@[j].markers@.filter(
            |m: Marker| !is_recognized(m),
        ),
{
    lemma_opaque_is_filter(item.fields@[j].markers@);
}

proof fn lemma_opaque_is_filter(ms: Seq<Marker>)
    ensures
        opaque_markers(ms) == ms.filter(|m: Marker| !is_recognized(m)),
    decreases ms.len(),
{
    reveal(Seq::filter);
    if ms.len() > 0 {
        lemma_opaque_is_filter(ms.drop_last());
    }
}

/// The getter of a documented field carries the header line, a blank line,
/// and then the field's documentation lines, all of them and in order.
pub proof fn law_getter_docs(item: Record, e: Expansion, j: int)
    requires
        expands_to(item, e),
        0 <= j < item.fields@.len(),
        wants_getter(item.fields@[j].markers@),
    ensures
        e.block matches Some(b) && exists|k: int|
            0 <= k < b.accessors@.len() && {
                let a = #[trigger] b.accessors@[k];
                &&& a.kind == AccessorKind::Getter
                &&& a.field@ == item.fields@[j].name.unwrap()@
                &&& lines_of(a.docs@) == seq![
                    doc_header(AccessorKind::Getter, a.field@),
                    Seq::<char>::empty(),
                ] + lines_of(item.fields@[j].docs@)
            },
{
    let fields = item.fields@;
    assert(field_kinds(fields[j])[0] == AccessorKind::Getter);
    lemma_plan_complete(fields, j, 0);
    let k = choose|k: int|
        0 <= k < plan(fields).len() && #[trigger] plan(fields)[k] == (j, field_kinds(fields[j])[0]);
    assert(e.block is Some);
    let b = e.block.unwrap();
    assert(0 <= plan(fields)[k].0 < fields.len());
    assert(describes_field(b.accessors@[k], plan(fields)[k].1, fields[j]));
    assert(accessor_docs(AccessorKind::Getter, b.accessors@[k].field@, lines_of(fields[j].docs@))
        == seq![doc_header(AccessorKind::Getter, b.accessors@[k].field@), Seq::<char>::empty()]
        + lines_of(fields[j].docs@));
}

/// When no field carries `get` or `set`, no block of operations is produced,
/// not even an empty one.
pub proof fn law_no_marker_no_block(item: Record, e: Expansion)
    requires
        expands_to(item, e),
        forall|j: int|
            0 <= j < item.fields@.len() ==> !wants_getter(#[trigger] item.fields@[j].markers@)
                && !wants_setter(item.fields@[j].markers@),
    ensures
        e.block is None,
{
    let fields = item.fields@;
    if plan(fields).len() > 0 {
        lemma_plan_sound(fields, 0);
        let j = plan(fields)[0].0;
        assert(!wants_getter(fields[j].markers@));
        assert(field_kinds(fields[j]).len() == 0);
    }
}

/// Every generated getter is named exactly as its field, and every generated
/// setter is named `set_` followed by its field's name.
pub proof fn law_accessor_names(item: Record, e: Expansion, k: int)
    requires
        expands_to(item, e),
        e.block is Some,
        0 <= k < e.block.unwrap().accessors@.len(),
    ensures
        ({
            let a = e.block.unwrap().accessors@[k];
            &&& a.kind == AccessorKind::Getter ==> a.name@ == a.field@
            &&& a.kind == AccessorKind::Setter ==> a.name@ == "set_"@ + a.field@
            &&& a.field@ == item.fields@[plan(item.fields@)[k].0].name.unwrap()@
        }),
{
    let a = e.block.unwrap().accessors@[k];
    assert(a.name@ == accessor_name(a.kind, a.field@));
}

} // verus!
