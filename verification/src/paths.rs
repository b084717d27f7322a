use vstd::prelude::*;

verus! {

/// The dotted join of a path prefix and a field name: the name alone when the
/// prefix is empty, otherwise the prefix, a dot, and the name.
pub open spec fn join_path(prefix: Seq<char>, name: Seq<char>) -> Seq<char> {
    if prefix.len() == 0 {
        name
    } else {
        prefix + seq!['.'] + name
    }
}

/// Joins a path prefix and a field name with a dot, leaving the name alone
/// when the prefix is empty.
pub fn make_name(prefix: &str, suffix: &str) -> (r: String)
    ensures
        r@ == join_path(prefix@, suffix@),
{
    if prefix.is_empty() {
        suffix.to_owned()
    } else {
        let mut r = prefix.to_owned();
        r.append(".");
        r.append(suffix);
        proof {
            reveal_strlit(".");
            assert(r@ =~= join_path(prefix@, suffix@));
        }
        r
    }
}

/// Law: joining under the empty prefix returns the name unchanged; joining
/// under a non-empty prefix puts exactly one dot between prefix and name.
pub proof fn lemma_join_path(prefix: Seq<char>, name: Seq<char>)
    ensures
        prefix.len() == 0 ==> join_path(prefix, name) == name,
        prefix.len() > 0 ==> join_path(prefix, name) == prefix + seq!['.'] + name,
{
}

/// One joined path per name, in order: `names[i]` under `prefix`.
pub open spec fn joined_paths(names: Seq<Seq<char>>, prefix: Seq<char>) -> Seq<Seq<char>> {
    Seq::new(names.len(), |i: int| join_path(prefix, names[i]))
}

/// Law: under the empty prefix the joined paths are the names themselves,
/// verbatim and in order; under any prefix the entry for `names[i]` is its
/// dotted join with the prefix.
pub proof fn lemma_joined_paths(names: Seq<Seq<char>>, prefix: Seq<char>)
    ensures
        prefix.len() == 0 ==> joined_paths(names, prefix) == names,
        joined_paths(names, prefix).len() == names.len(),
        forall|i: int|
            0 <= i < names.len() ==> #[trigger] joined_paths(names, prefix)[i] == join_path(
                prefix,
                names[i],
            ),
{
    if prefix.len() == 0 {
        assert(joined_paths(names, prefix) =~= names);
    }
}

/// A record with named fields enumerates its dotted field paths. Each
/// implementation contributes exactly its own immediate field names, in
/// declaration order; nested record fields are not recursed into, and fields
/// of sequence type contribute no path (their elements have no fixed name).
pub trait EvgFields {
    /// The declared field names of the record, in declaration order.
    spec fn field_names(&self) -> Seq<Seq<char>>;

    /// Appends to `out` one dotted path per named field of the record: the
    /// join of `prefix` with the field's name, in declaration order.
    fn evg_fields_nested(&self, prefix: &str, out: &mut Vec<String>)
        ensures
            final (out).deep_view() == old(out).deep_view() + joined_paths(
                self.field_names(),
                prefix@,
            ),
    ;

    /// The dotted paths of the record's named fields, under no prefix: the
    /// field names themselves, in declaration order.
    fn evg_fields(&self) -> (r: Vec<String>)
        ensures
            r.deep_view() == self.field_names(),
    {
        let mut out: Vec<String> = Vec::new();
        self.evg_fields_nested("", &mut out);
        proof {
            reveal_strlit("");
            lemma_joined_paths(self.field_names(), ""@);
            assert(out.deep_view() =~~= self.field_names());
        }
        out
    }
}

} // verus!
