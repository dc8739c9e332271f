//! The signature canonicalizer: an interface entry's canonical textual
//! signature is `name(type1,type2,...)` — the effective name, an opening
//! parenthesis, the parameter type descriptors joined by commas with no
//! whitespace, and a closing parenthesis. An entry without a name uses the
//! literal placeholder `unknown`.

use vstd::prelude::*;

use crate::abi::{EntryModel, InterfaceEntry, InterfaceInput};

verus! {

/// The parameter type descriptors joined by single commas, in order, with
/// nothing before the first or after the last.
pub open spec fn spec_join_comma(types: Seq<Seq<char>>) -> Seq<char>
    decreases types.len(),
{
    if types.len() == 0 {
        Seq::empty()
    } else if types.len() == 1 {
        types[0]
    } else {
        spec_join_comma(types.drop_last()) + ","@ + types.last()
    }
}

/// The name under which an entry is canonicalized: its own name, or the
/// placeholder `unknown` where the interface gave none.
pub open spec fn spec_effective_name(name: Option<Seq<char>>) -> Seq<char> {
    match name {
        Some(n) => n,
        None => "unknown"@,
    }
}

/// The canonical signature of a name and an ordered list of parameter type
/// descriptors.
pub open spec fn spec_signature(name: Option<Seq<char>>, types: Seq<Seq<char>>) -> Seq<char> {
    spec_effective_name(name) + "("@ + spec_join_comma(types) + ")"@
}

/// The canonical signature of an interface entry.
pub open spec fn spec_entry_signature(e: EntryModel) -> Seq<char> {
    spec_signature(e.name, e.inputs)
}

/// Law: an entry with no inputs canonicalizes to its effective name
/// followed by an empty pair of parentheses.
pub proof fn lemma_empty_inputs_signature(name: Option<Seq<char>>)
    ensures
        spec_signature(name, Seq::empty()) == spec_effective_name(name) + "()"@,
{
    reveal_strlit("(");
    reveal_strlit(")");
    reveal_strlit("()");
    assert(spec_signature(name, Seq::empty()) =~= spec_effective_name(name) + "()"@);
}

/// Returns the entry's effective name: its own, or `unknown` where the
/// interface gave none.
fn effective_name(name: &Option<String>) -> (r: &str)
    ensures
        r@ == spec_effective_name(match name {
            Some(n) => Some(n@),
            None => None,
        }),
{
    match name {
        Some(n) => n.as_str(),
        None => "unknown",
    }
}

/// Joins the entry's parameter type descriptors with commas, in order,
/// byte for byte as given.
fn join_types(inputs: &Vec<InterfaceInput>) -> (r: String)
    ensures
        r@ == spec_join_comma(inputs.deep_view()),
{
    let ghost types: Seq<Seq<char>> = inputs.deep_view();
    let mut r = String::new();
    let n = inputs.len();
    for i in 0..n
        invariant
            n == inputs.len(),
            types == inputs.deep_view(),
            r@ == spec_join_comma(types.take(i as int)),
    {
        if i > 0 {
            r.append(",");
        }
        r.append(inputs[i].param_type.as_str());
        proof {
            assert(types.take(i + 1).drop_last() =~= types.take(i as int));
            assert(types.take(i + 1).last() == types[i as int]);
            if i == 0 {
                assert(r@ =~= spec_join_comma(types.take(1)));
            }
        }
    }
    proof {
        assert(types.take(n as int) =~= types);
    }
    r
}

/// Produces the entry's canonical signature `name(type1,type2,...)`: the
/// effective name, then the parameter type descriptors joined by commas
/// between parentheses, with no whitespace and no normalization.
pub fn canonical_signature(e: &InterfaceEntry) -> (r: String)
    ensures
        r@ == spec_entry_signature(e@),
{
    let mut r = effective_name(&e.name).to_owned();
    r.append("(");
    let joined = join_types(&e.inputs);
    r.append(joined.as_str());
    r.append(")");
    proof {
        assert(e@.inputs =~= e.inputs.deep_view());
        assert(r@ =~= spec_entry_signature(e@));
    }
    r
}

} // verus!
