use vstd::prelude::*;

verus! {

/// The selected output mode: flattened `path:value` lines, or the pretty
/// JSON document itself.
#[derive(Clone, Copy, PartialEq, Eq, Structural, Debug)]
pub enum OutputType {
    Flat,
    Json,
}

fn str_eq(a: &str, b: &str) -> (r: bool)
    ensures
        r == (a@ == b@),
{
    let a_owned = a.to_owned();
    let b_owned = b.to_owned();
    a_owned == b_owned
}

/// Parses the output-mode flag: `flat` and `json` are the only values, and
/// anything else is rejected.
pub fn output_type_from_str(s: &str) -> (r: Option<OutputType>)
    ensures
        r == Some(OutputType::Json) <==> s@ == "json"@,
        r == Some(OutputType::Flat) <==> s@ == "flat"@,
        r is None <==> (s@ != "json"@ && s@ != "flat"@),
{
    proof {
        reveal_strlit("json");
        reveal_strlit("flat");
        assert("json"@[0] == 'j' && "flat"@[0] == 'f');
        assert("json"@ != "flat"@);
    }
    if str_eq(s, "json") {
        Some(OutputType::Json)
    } else if str_eq(s, "flat") {
        Some(OutputType::Flat)
    } else {
        None
    }
}

} // verus!
