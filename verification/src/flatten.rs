use vstd::prelude::*;

use crate::num::{dec_digits, usize_to_string};
use crate::paths::{join_path, make_name};
use crate::tree::{elems_view, fields_view, lemma_elems_view, lemma_fields_view, TreeV, TreeValue};
use vstd::string::StringSliceAdditionalSpecFns;

verus! {

/// The text a scalar renders as: `null` for the null value, `true`/`false`
/// for booleans, and the carried text, verbatim, for numbers and strings.
pub open spec fn scalar_text(t: TreeV) -> Seq<char>
    recommends
        !(t is Object) && !(t is Array),
{
    match t {
        TreeV::Null => seq!['n', 'u', 'l', 'l'],
        TreeV::Boolean(b) => if b {
            seq!['t', 'r', 'u', 'e']
        } else {
            seq!['f', 'a', 'l', 's', 'e']
        },
        TreeV::Number(s) => s,
        TreeV::Text(s) => s,
        TreeV::Object(_) => Seq::empty(),
        TreeV::Array(_) => Seq::empty(),
    }
}

/// The flat lines of a tree below a path prefix: one `(path, value)` pair per
/// leaf scalar, in depth-first order, object fields in their stored order and
/// array elements by ascending index. Containers emit no pair of their own.
pub open spec fn flat_lines(t: TreeV, prefix: Seq<char>) -> Seq<(Seq<char>, Seq<char>)>
    decreases t, 0int,
{
    match t {
        TreeV::Object(fields) => obj_lines(fields, prefix, 0),
        TreeV::Array(elems) => arr_lines(elems, prefix, 0),
        _ => seq![(prefix, scalar_text(t))],
    }
}

pub open spec fn obj_lines(fields: Seq<(Seq<char>, TreeV)>, prefix: Seq<char>, i: int) -> Seq<
    (Seq<char>, Seq<char>),
>
    decreases fields, fields.len() - i,
{
    if 0 <= i < fields.len() {
        flat_lines(fields[i].1, join_path(prefix, fields[i].0)) + obj_lines(fields, prefix, i + 1)
    } else {
        Seq::empty()
    }
}

pub open spec fn arr_lines(elems: Seq<TreeV>, prefix: Seq<char>, i: int) -> Seq<
    (Seq<char>, Seq<char>),
>
    decreases elems, elems.len() - i,
{
    if 0 <= i < elems.len() {
        flat_lines(elems[i], join_path(prefix, dec_digits(i as nat))) + arr_lines(
            elems,
            prefix,
            i + 1,
        )
    } else {
        Seq::empty()
    }
}

/// One flat line as text: the path, a colon, the rendered value, a newline.
pub open spec fn render_line(line: (Seq<char>, Seq<char>)) -> Seq<char> {
    line.0 + seq![':'] + line.1 + seq!['\n']
}

/// A sequence of flat lines as text, in order.
pub open spec fn render_lines(lines: Seq<(Seq<char>, Seq<char>)>) -> Seq<char>
    decreases lines.len(),
{
    if lines.len() == 0 {
        Seq::empty()
    } else {
        render_line(lines[0]) + render_lines(lines.drop_first())
    }
}

/// The whole flattened text of a tree below a prefix.
pub open spec fn flat_text(t: TreeV, prefix: Seq<char>) -> Seq<char> {
    render_lines(flat_lines(t, prefix))
}

/// Rendering distributes over concatenation of line sequences.
pub proof fn lemma_render_lines_concat(a: Seq<(Seq<char>, Seq<char>)>, b: Seq<(Seq<char>, Seq<char>)>)
    ensures
        render_lines(a + b) == render_lines(a) + render_lines(b),
    decreases a.len(),
{
    if a.len() == 0 {
        assert(a + b =~= b);
        assert(render_lines(a) + render_lines(b) =~= render_lines(b));
    } else {
        lemma_render_lines_concat(a.drop_first(), b);
        assert((a + b).drop_first() =~= a.drop_first() + b);
        assert((a + b)[0] == a[0]);
        assert(render_line(a[0]) + (render_lines(a.drop_first()) + render_lines(b)) =~= (
        render_line(a[0]) + render_lines(a.drop_first())) + render_lines(b));
    }
}

/// A single line renders as itself.
pub proof fn lemma_render_singleton(line: (Seq<char>, Seq<char>))
    ensures
        render_lines(seq![line]) == render_line(line),
{
    assert(seq![line].drop_first() =~= Seq::<(Seq<char>, Seq<char>)>::empty());
    assert(seq![line][0] == line);
    assert(render_lines(Seq::<(Seq<char>, Seq<char>)>::empty()) == Seq::<char>::empty());
    assert(render_lines(seq![line]) =~= render_line(line));
}

/// The number of leaf scalars reachable in a tree.
pub open spec fn leaf_count(t: TreeV) -> nat
    decreases t, 0int,
{
    match t {
        TreeV::Object(fields) => obj_leaf_count(fields, 0),
        TreeV::Array(elems) => arr_leaf_count(elems, 0),
        _ => 1,
    }
}

pub open spec fn obj_leaf_count(fields: Seq<(Seq<char>, TreeV)>, i: int) -> nat
    decreases fields, fields.len() - i,
{
    if 0 <= i < fields.len() {
        leaf_count(fields[i].1) + obj_leaf_count(fields, i + 1)
    } else {
        0
    }
}

pub open spec fn arr_leaf_count(elems: Seq<TreeV>, i: int) -> nat
    decreases elems, elems.len() - i,
{
    if 0 <= i < elems.len() {
        leaf_count(elems[i]) + arr_leaf_count(elems, i + 1)
    } else {
        0
    }
}

/// Law: flattening any tree yields exactly one flat line per leaf scalar
/// reachable in it, whatever the prefix.
pub proof fn lemma_one_line_per_leaf(t: TreeV, prefix: Seq<char>)
    ensures
        flat_lines(t, prefix).len() == leaf_count(t),
    decreases t, 0int,
{
    match t {
        TreeV::Object(fields) => lemma_obj_lines_count(fields, prefix, 0),
        TreeV::Array(elems) => lemma_arr_lines_count(elems, prefix, 0),
        _ => {},
    }
}

proof fn lemma_obj_lines_count(fields: Seq<(Seq<char>, TreeV)>, prefix: Seq<char>, i: int)
    ensures
        obj_lines(fields, prefix, i).len() == obj_leaf_count(fields, i),
    decreases fields, fields.len() - i,
{
    if 0 <= i < fields.len() {
        lemma_one_line_per_leaf(fields[i].1, join_path(prefix, fields[i].0));
        lemma_obj_lines_count(fields, prefix, i + 1);
    }
}

proof fn lemma_arr_lines_count(elems: Seq<TreeV>, prefix: Seq<char>, i: int)
    ensures
        arr_lines(elems, prefix, i).len() == arr_leaf_count(elems, i),
    decreases elems, elems.len() - i,
{
    if 0 <= i < elems.len() {
        lemma_one_line_per_leaf(elems[i], join_path(prefix, dec_digits(i as nat)));
        lemma_arr_lines_count(elems, prefix, i + 1);
    }
}

fn append_scalar_line(prefix: &str, text: &str, out: &mut String)
    ensures
        final (out)@ == old(out)@ + render_line((prefix@, text@)),
{
    out.append(prefix);
    out.append(":");
    out.append(text);
    out.append("\n");
    proof {
        reveal_strlit(":");
        reveal_strlit("\n");
        assert(":"@ =~= seq![':']);
        assert("\n"@ =~= seq!['\n']);
        assert(out@ =~= old(out)@ + render_line((prefix@, text@)));
    }
}

/// Appends the flattened `path:value` lines of `v` below `prefix` to `out`:
/// one line per leaf scalar, in depth-first document order.
pub fn to_flat_json_int(v: &TreeValue, prefix: &str, out: &mut String)
    ensures
        final (out)@ == old(out)@ + flat_text(v@, prefix@),
    decreases *v, 0int,
{
    match v {
        TreeValue::Null => {
            append_scalar_line(prefix, "null", out);
            proof {
                reveal_strlit("null");
                assert("null"@ =~= scalar_text(v@));
                lemma_render_singleton((prefix@, scalar_text(v@)));
                assert(out@ =~= old(out)@ + flat_text(v@, prefix@));
            }
        },
        TreeValue::Boolean(b) => {
            append_scalar_line(prefix, if *b { "true" } else { "false" }, out);
            proof {
                reveal_strlit("true");
                reveal_strlit("false");
                assert((if *b { "true" } else { "false" })@ =~= scalar_text(v@));
                lemma_render_singleton((prefix@, scalar_text(v@)));
                assert(out@ =~= old(out)@ + flat_text(v@, prefix@));
            }
        },
        TreeValue::Number(s) => {
            append_scalar_line(prefix, s.as_str(), out);
            proof {
                lemma_render_singleton((prefix@, scalar_text(v@)));
                assert(out@ =~= old(out)@ + flat_text(v@, prefix@));
            }
        },
        TreeValue::Text(s) => {
            append_scalar_line(prefix, s.as_str(), out);
            proof {
                lemma_render_singleton((prefix@, scalar_text(v@)));
                assert(out@ =~= old(out)@ + flat_text(v@, prefix@));
            }
        },
        TreeValue::Object(fields) => {
            flat_obj_int(fields, 0, prefix, out);
            proof {
                assert(v@ == TreeV::Object(fields_view(fields@, 0)));
            }
        },
        TreeValue::Array(elems) => {
            flat_arr_int(elems, 0, prefix, out);
            proof {
                assert(v@ == TreeV::Array(elems_view(elems@, 0)));
            }
        },
    }
}

fn flat_obj_int(fields: &Vec<(String, TreeValue)>, i: usize, prefix: &str, out: &mut String)
    requires
        i <= fields.len(),
    ensures
        final (out)@ == old(out)@ + render_lines(
            obj_lines(fields_view(fields@, 0), prefix@, i as int),
        ),
    decreases *fields, fields.len() - i,
{
    proof {
        lemma_fields_view(fields@, 0);
    }
    if i < fields.len() {
        let entry = &fields[i];
        let name = make_name(prefix, entry.0.as_str());
        to_flat_json_int(&entry.1, name.as_str(), out);
        flat_obj_int(fields, i + 1, prefix, out);
        proof {
            let view = fields_view(fields@, 0);
            lemma_render_lines_concat(
                flat_lines(view[i as int].1, join_path(prefix@, view[i as int].0)),
                obj_lines(view, prefix@, i as int + 1),
            );
            assert(out@ =~= old(out)@ + render_lines(obj_lines(view, prefix@, i as int)));
        }
    } else {
        proof {
            let view = fields_view(fields@, 0);
            assert(render_lines(obj_lines(view, prefix@, i as int)) == Seq::<char>::empty());
            assert(out@ =~= old(out)@ + render_lines(obj_lines(view, prefix@, i as int)));
        }
    }
}

fn flat_arr_int(elems: &Vec<TreeValue>, i: usize, prefix: &str, out: &mut String)
    requires
        i <= elems.len(),
    ensures
        final (out)@ == old(out)@ + render_lines(
            arr_lines(elems_view(elems@, 0), prefix@, i as int),
        ),
    decreases *elems, elems.len() - i,
{
    proof {
        lemma_elems_view(elems@, 0);
    }
    if i < elems.len() {
        let idx = usize_to_string(i);
        let name = make_name(prefix, idx.as_str());
        to_flat_json_int(&elems[i], name.as_str(), out);
        flat_arr_int(elems, i + 1, prefix, out);
        proof {
            let view = elems_view(elems@, 0);
            lemma_render_lines_concat(
                flat_lines(view[i as int], join_path(prefix@, dec_digits(i as nat))),
                arr_lines(view, prefix@, i as int + 1),
            );
            assert(out@ =~= old(out)@ + render_lines(arr_lines(view, prefix@, i as int)));
        }
    } else {
        proof {
            let view = elems_view(elems@, 0);
            assert(render_lines(arr_lines(view, prefix@, i as int)) == Seq::<char>::empty());
            assert(out@ =~= old(out)@ + render_lines(arr_lines(view, prefix@, i as int)));
        }
    }
}

/// The longest run of consecutive decimal-digit bytes that `parse_tree`
/// admits: json 0.12 counts a number's fraction digits down in a 16-bit
/// exponent, so a longer run could overflow it.
pub const DIGIT_RUN_LIMIT: usize = 32768;

pub open spec fn is_digit_byte(b: u8) -> bool {
    48 <= b <= 57
}

/// The length of the run of consecutive digit bytes ending at index `i`.
pub open spec fn digit_run_at(s: Seq<u8>, i: int) -> nat
    decreases i + 1,
{
    if i < 0 || i >= s.len() || !is_digit_byte(s[i]) {
        0
    } else {
        digit_run_at(s, i - 1) + 1
    }
}

/// No run of consecutive digit bytes in `s` is longer than `limit`.
pub open spec fn digit_runs_bounded(s: Seq<u8>, limit: nat) -> bool {
    forall|i: int| 0 <= i < s.len() ==> digit_run_at(s, i) <= limit
}

/// Holds exactly when every run of consecutive decimal-digit bytes in `s` is
/// at most `DIGIT_RUN_LIMIT` long: the documents `parse_tree` admits.
pub fn digit_runs_short(s: &str) -> (r: bool)
    ensures
        r == digit_runs_bounded(s.spec_bytes(), DIGIT_RUN_LIMIT as nat),
{
    let bytes = s.as_bytes();
    let mut i: usize = 0;
    let mut run: usize = 0;
    while i < bytes.len()
        invariant
            i <= bytes.len(),
            bytes@ == s.spec_bytes(),
            run == digit_run_at(bytes@, i as int - 1),
            run <= DIGIT_RUN_LIMIT,
            forall|j: int| 0 <= j < i ==> digit_run_at(bytes@, j) <= DIGIT_RUN_LIMIT as nat,
        decreases bytes.len() - i,
    {
        let b = bytes[i];
        if 48 <= b && b <= 57 {
            run = run + 1;
            if run > DIGIT_RUN_LIMIT {
                proof {
                    assert(digit_run_at(bytes@, i as int) > DIGIT_RUN_LIMIT as nat);
                    assert(!digit_runs_bounded(s.spec_bytes(), DIGIT_RUN_LIMIT as nat));
                }
                return false;
            }
        } else {
            run = 0;
        }
        i = i + 1;
    }
    true
}

/// What `json::parse` yields on a document: `None` where the text is not
/// valid JSON, otherwise the decoded tree.
pub uninterp spec fn json_tree_of(s: Seq<char>) -> Option<TreeV>;

#[verifier::external_type_specification]
#[verifier::external_body]
pub struct ExJsonValue(json::JsonValue);

/// Decode step used only inside `parse_tree`: carries json's tree over onto
/// the library's tree, variant by variant, numbers by their decimal rendering.
#[verifier::external_body]
fn json_to_tree(v: &json::JsonValue) -> TreeValue {
    match v {
        json::JsonValue::Null => TreeValue::Null,
        json::JsonValue::Boolean(b) => TreeValue::Boolean(*b),
        json::JsonValue::Number(n) => TreeValue::Number(format!("{}", n)),
        json::JsonValue::Short(s) => TreeValue::Text(s.as_str().to_owned()),
        json::JsonValue::String(s) => TreeValue::Text(s.clone()),
        json::JsonValue::Object(o) => TreeValue::Object(
            o.iter().map(|(k, x)| (k.to_owned(), json_to_tree(x))).collect(),
        ),
        json::JsonValue::Array(a) => TreeValue::Array(a.iter().map(json_to_tree).collect()),
    }
}

/// Relies on json::parse: whether a document parses, and the tree it yields,
/// are functions of the text alone; `json_tree_of` names that result. The
/// `requires` keeps out the one kind of document the parser cannot take: a
/// run of more than `DIGIT_RUN_LIMIT` digit bytes, whose fraction digits
/// could overflow the parser's 16-bit decimal exponent.
#[verifier::external_body]
fn parse_tree(s: &str) -> (r: Option<TreeValue>)
    requires
        digit_runs_bounded(s.spec_bytes(), DIGIT_RUN_LIMIT as nat),
    ensures
        (r is Some) == (json_tree_of(s@) is Some),
        r matches Some(t) ==> json_tree_of(s@) == Some(t@),
{
    match json::parse(s) {
        Ok(v) => Some(json_to_tree(&v)),
        Err(_) => None,
    }
}

/// Parses a JSON document and flattens it: one `path:value` line per leaf
/// scalar, paths joined with dots, in depth-first document order. Returns
/// `None` exactly when the text is not valid JSON, or holds a digit run
/// longer than `DIGIT_RUN_LIMIT`, which the underlying decoder cannot take.
pub fn to_flat_json(s: &str) -> (r: Option<String>)
    ensures
        (r is Some) == (digit_runs_bounded(s.spec_bytes(), DIGIT_RUN_LIMIT as nat)
            && json_tree_of(s@) is Some),
        r matches Some(flat) ==> json_tree_of(s@) matches Some(t) && flat@ == flat_text(
            t,
            Seq::empty(),
        ),
{
    if !digit_runs_short(s) {
        return None;
    }
    match parse_tree(s) {
        Some(v) => {
            let mut out = String::new();
            to_flat_json_int(&v, "", &mut out);
            proof {
                reveal_strlit("");
                assert(""@ =~= Seq::<char>::empty());
                assert(out@ =~= flat_text(v@, Seq::empty()));
            }
            Some(out)
        },
        None => None,
    }
}

} // verus!
