use vstd::prelude::*;

verus! {

/// The mathematical model of a decoded JSON document: scalars carry the text
/// they render as, containers carry their children in document order.
pub enum TreeV {
    Null,
    Boolean(bool),
    Number(Seq<char>),
    Text(Seq<char>),
    Object(Seq<(Seq<char>, TreeV)>),
    Array(Seq<TreeV>),
}

/// A tree-shaped value as decoded from a JSON document: a tagged union of
/// scalars and ordered containers. A number carries its natural decimal
/// rendering, fixed at decode time.
pub enum TreeValue {
    Null,
    Boolean(bool),
    Number(String),
    Text(String),
    Object(Vec<(String, TreeValue)>),
    Array(Vec<TreeValue>),
}

pub open spec fn tree_view(t: TreeValue) -> TreeV
    decreases t, 0int,
{
    match t {
        TreeValue::Null => TreeV::Null,
        TreeValue::Boolean(b) => TreeV::Boolean(b),
        TreeValue::Number(s) => TreeV::Number(s@),
        TreeValue::Text(s) => TreeV::Text(s@),
        TreeValue::Object(fields) => TreeV::Object(fields_view(fields@, 0)),
        TreeValue::Array(elems) => TreeV::Array(elems_view(elems@, 0)),
    }
}

pub open spec fn fields_view(fields: Seq<(String, TreeValue)>, i: int) -> Seq<(Seq<char>, TreeV)>
    decreases fields, fields.len() - i,
{
    if 0 <= i < fields.len() {
        seq![(fields[i].0@, tree_view(fields[i].1))] + fields_view(fields, i + 1)
    } else {
        Seq::empty()
    }
}

pub open spec fn elems_view(elems: Seq<TreeValue>, i: int) -> Seq<TreeV>
    decreases elems, elems.len() - i,
{
    if 0 <= i < elems.len() {
        seq![tree_view(elems[i])] + elems_view(elems, i + 1)
    } else {
        Seq::empty()
    }
}

impl View for TreeValue {
    type V = TreeV;

    open spec fn view(&self) -> TreeV {
        tree_view(*self)
    }
}

/// The suffix of field views from `i` on has one entry per remaining field,
/// each pairing the field's key with the view of its value.
pub proof fn lemma_fields_view(fields: Seq<(String, TreeValue)>, i: int)
    requires
        0 <= i <= fields.len(),
    ensures
        fields_view(fields, i).len() == fields.len() - i,
        forall|j: int|
            0 <= j < fields.len() - i ==> #[trigger] fields_view(fields, i)[j] == (
            fields[i + j].0@,
            tree_view(fields[i + j].1),
            ),
    decreases fields.len() - i,
{
    if i < fields.len() {
        lemma_fields_view(fields, i + 1);
    }
}

/// The suffix of element views from `i` on has one entry per remaining
/// element, in order.
pub proof fn lemma_elems_view(elems: Seq<TreeValue>, i: int)
    requires
        0 <= i <= elems.len(),
    ensures
        elems_view(elems, i).len() == elems.len() - i,
        forall|j: int|
            0 <= j < elems.len() - i ==> #[trigger] elems_view(elems, i)[j] == tree_view(
                elems[i + j],
            ),
    decreases elems.len() - i,
{
    if i < elems.len() {
        lemma_elems_view(elems, i + 1);
    }
}

} // verus!
