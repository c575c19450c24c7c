//! The generics of a definition as generated impls repeat them: the
//! declaration, the arguments that name the type, and the `where` clause.
use vstd::prelude::*;
use crate::utils::text::push_str;

verus! {

/// A generic parameter: a constant or a type, by its name, or a lifetime.
pub enum GenericParam {
    Const(String),
    Type(String),
    Lifetime,
}

/// The names of the parameters, separated by commas.
pub open spec fn join_params(ps: Seq<GenericParam>) -> Seq<char>
    decreases ps.len(),
{
    if ps.len() == 0 {
        Seq::empty()
    } else {
        let name = match ps.last() {
            GenericParam::Const(n) => n@,
            GenericParam::Type(n) => n@,
            GenericParam::Lifetime => Seq::empty(),
        };
        if ps.len() == 1 {
            name
        } else {
            join_params(ps.drop_last()) + ", "@ + name
        }
    }
}

/// The message of a lifetime parameter.
pub open spec fn lifetime_message() -> Seq<char> {
    "not yet implemented: lifetime generics,  not implemented"@
}

/// The generics as generated impls repeat them: with no parameters, only the
/// `where` clause; else the declaration as written, the parameters' names
/// between angle brackets, and the `where` clause. Lifetimes are refused.
pub open spec fn spec_generics(params: Seq<GenericParam>, decl: Seq<char>, where_clause: Seq<char>) -> Result<
    (Seq<char>, Seq<char>, Seq<char>),
    Seq<char>,
> {
    if exists|i: int| 0 <= i < params.len() && #[trigger] params[i] is Lifetime {
        Err(lifetime_message())
    } else if params.len() == 0 {
        Ok((Seq::empty(), Seq::empty(), where_clause))
    } else {
        Ok((decl, "<"@ + join_params(params) + ">"@, where_clause))
    }
}

/// The generics of a definition as generated impls repeat them.
pub fn get_generics(params: &Vec<GenericParam>, decl: &String, where_clause: &String) -> (r: Result<(String, String, String), String>)
    ensures
        match (r, spec_generics(params@, decl@, where_clause@)) {
            (Ok((a, b, c)), Ok((x, y, z))) => a@ == x && b@ == y && c@ == z,
            (Err(e), Err(m)) => e@ == m,
            _ => false,
        },
{
    let mut names = String::new();
    let mut i: usize = 0;
    while i < params.len()
        invariant
            i <= params.len(),
            names@ == join_params(params@.take(i as int)),
            forall|k: int| 0 <= k < i ==> !(#[trigger] params@[k] is Lifetime),
        decreases params.len() - i,
    {
        assert(params@.take(i + 1).drop_last() =~= params@.take(i as int));
        if i > 0 {
            push_str(&mut names, ", ");
        }
        match &params[i] {
            GenericParam::Const(n) => push_str(&mut names, n.as_str()),
            GenericParam::Type(n) => push_str(&mut names, n.as_str()),
            GenericParam::Lifetime => {
                return Err("not yet implemented: lifetime generics,  not implemented".to_owned());
            },
        }
        proof {
            if i == 0 {
                assert(params@.take(1) =~= seq![params@[0]]);
            }
        }
        assert(names@ =~= join_params(params@.take(i + 1)));
        i = i + 1;
    }
    assert(params@.take(params@.len() as int) =~= params@);
    if params.len() == 0 {
        Ok((String::new(), String::new(), where_clause.clone()))
    } else {
        let mut alias = String::new();
        push_str(&mut alias, "<");
        push_str(&mut alias, names.as_str());
        push_str(&mut alias, ">");
        Ok((decl.clone(), alias, where_clause.clone()))
    }
}

} // verus!
