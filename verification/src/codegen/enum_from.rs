//! The `From` impls generated between a unit-only enum and the struct type it
//! is bound to, as source text.
use vstd::prelude::*;
use crate::codegen::model::{AttrArg, Shape, StructDef, VariantDef};
use crate::utils::text::push_str;
use vstd::string::StrSliceExecFns;

verus! {

/// The attribute arguments of an enum or variant, once read: the
/// expression of `replace`, the type of `bind`, and the types of `from`.
pub type EnumAttrsSpec = (Option<Seq<char>>, Option<Seq<char>>, Seq<Seq<char>>);

/// The attribute arguments read in order: a later `replace` or `bind`
/// overrides an earlier one, each `from` adds a type; the first argument that
/// is not understood is an error.
pub open spec fn spec_enum_attrs(attrs: Seq<AttrArg>) -> Result<EnumAttrsSpec, Seq<char>>
    decreases attrs.len(),
{
    if attrs.len() == 0 {
        Ok((None, None, Seq::empty()))
    } else {
        match spec_enum_attrs(attrs.drop_last()) {
            Err(e) => Err(e),
            Ok(acc) => {
                let a = attrs.last();
                if a.key@ == "replace"@ {
                    Ok((Some(a.arg@), acc.1, acc.2))
                } else if a.key@ == "bind"@ {
                    Ok((acc.0, Some(a.arg@), acc.2))
                } else if a.key@ == "from"@ {
                    Ok((acc.0, acc.1, acc.2.push(a.arg@)))
                } else {
                    Err("Unexpected attribute. "@ + a.key@)
                }
            },
        }
    }
}

/// Whether `n` occurs in `h`.
pub open spec fn contains_text(h: Seq<char>, n: Seq<char>) -> bool {
    exists|i: int| 0 <= i && i + n.len() <= h.len() && #[trigger] h.subrange(i, i + n.len()) == n
}

/// A type written behind a reference, as generated text writes it.
pub open spec fn ref_text(t: Seq<char>) -> Seq<char> {
    "& "@ + t
}

/// The message of an enum without `bind`.
pub open spec fn bind_message(name: Seq<char>) -> Seq<char> {
    "Enum "@ + name + " needs to be bound to a struct type using bind attribute. Example: `#[byteserde(bind( MyStructName ))]`"@
}

/// The message of an enum without `from`.
pub open spec fn from_empty_message(name: Seq<char>) -> Seq<char> {
    "Enum "@ + name + " is missing at least one from attribute,\n                Example: \n                    `#[byteserde(from(&"@
        + name + "))] - used by serializers`\n                    `#[byteserde(from("@ + name
        + "))] - convenient for testings`\n                    "@
}

/// The message of a `from` type that is neither the enum, the bound type,
/// nor a reference to either.
pub open spec fn from_mismatch_message(f: Seq<char>, b: Seq<char>, name: Seq<char>) -> Seq<char> {
    "`#[byteserde(from("@ + f + "))]` needs to match one of \n                 `"@ + b + "`\n                 `"@ + ref_text(b)
        + "`\n                 `"@ + name + "`\n                 `"@ + ref_text(name) + "`\n                 "@
}

/// The message of a variant without `replace`.
pub open spec fn replace_missing_message(name: Seq<char>, vname: Seq<char>, b: Seq<char>) -> Seq<char> {
    "`"@ + name + "::"@ + vname + "` variant with missing replace, consider adding `#[byteserde(replace( <instance of type "@ + b
        + "> ))]`"@
}

/// The match arms that map each variant to its `replace` value (when
/// `to_bind`) or back; each variant needs `replace` and must be a unit.
pub open spec fn spec_arms(name: Seq<char>, b: Seq<char>, to_bind: bool, vs: Seq<VariantDef>) -> Result<Seq<char>, Seq<char>>
    decreases vs.len(),
{
    if vs.len() == 0 {
        Ok(Seq::empty())
    } else {
        match spec_arms(name, b, to_bind, vs.drop_last()) {
            Err(e) => Err(e),
            Ok(arms) => {
                let v = vs.last();
                match spec_enum_attrs(v.attrs@) {
                    Err(e) => Err(e),
                    Ok(va) => match va.0 {
                        None => Err(replace_missing_message(name, v.name@, b)),
                        Some(rep) => if v.shape != Shape::Unit {
                            Err("Only unit fields for enum types supported"@)
                        } else if to_bind {
                            Ok(arms + name + "::"@ + v.name@ + " => "@ + rep + ", "@)
                        } else {
                            Ok(arms + rep + " => "@ + name + "::"@ + v.name@ + ", "@)
                        },
                    },
                }
            },
        }
    }
}

/// The `From<f>` impl: into the bound type when `f` names the enum, else
/// into the enum, with a panic for values that no variant maps.
pub open spec fn from_impl_text(f: Seq<char>, b: Seq<char>, name: Seq<char>, to_bind: bool, arms: Seq<char>) -> Seq<char> {
    if to_bind {
        "#[automatically_derived] impl From<"@ + f + "> for "@ + b + " { fn from(v: "@ + f + ") -> "@ + b + " { match v { "@
            + arms + "} } }"@
    } else {
        "#[automatically_derived] impl From<"@ + f + "> for "@ + name + " { fn from(v: "@ + f + ") -> "@ + name
            + " { match v { "@ + arms + "_ => panic!(\"{:?} is not mapped to enum variant\", v), "@ + "} } }"@
    }
}

/// The impl for one `from` type.
pub open spec fn spec_from_impl(def: StructDef, b: Seq<char>, f: Seq<char>) -> Result<Seq<char>, Seq<char>> {
    let name = def.name@;
    if !(f == b || f == ref_text(b) || f == name || f == ref_text(name)) {
        Err(from_mismatch_message(f, b, name))
    } else if def.shape != Shape::Enum {
        Err("This feature is only supported for enum types"@)
    } else {
        let to_bind = contains_text(f, name);
        match spec_arms(name, b, to_bind, def.variants@) {
            Err(e) => Err(e),
            Ok(arms) => Ok(from_impl_text(f, b, name, to_bind, arms)),
        }
    }
}

/// The impls for the `from` types in order; the first refused makes the error.
pub open spec fn spec_from_impls(def: StructDef, b: Seq<char>, froms: Seq<Seq<char>>) -> Result<Seq<Seq<char>>, Seq<char>>
    decreases froms.len(),
{
    if froms.len() == 0 {
        Ok(Seq::empty())
    } else {
        match spec_from_impls(def, b, froms.drop_last()) {
            Err(e) => Err(e),
            Ok(v) => match spec_from_impl(def, b, froms.last()) {
                Err(e) => Err(e),
                Ok(t) => Ok(v.push(t)),
            },
        }
    }
}

/// The `From` impls of an enum bound to a struct type: one per `from` type.
pub open spec fn spec_enum_from(def: StructDef) -> Result<Seq<Seq<char>>, Seq<char>> {
    match spec_enum_attrs(def.attrs@) {
        Err(e) => Err(e),
        Ok(ea) => match ea.1 {
            None => Err(bind_message(def.name@)),
            Some(b) => if ea.2.len() == 0 {
                Err(from_empty_message(def.name@))
            } else {
                spec_from_impls(def, b, ea.2)
            },
        },
    }
}

/// Whether `s` holds the text `lit`.
fn is_text(s: &String, lit: &str) -> (r: bool)
    ensures
        r == (s@ == lit@),
{
    *s == lit.to_owned()
}

/// Whether `n` occurs in `h`.
pub(crate) fn text_contains(h: &String, n: &String) -> (r: bool)
    ensures
        r == contains_text(h@, n@),
{
    let hl = h.as_str().unicode_len();
    let nl = n.as_str().unicode_len();
    if nl > hl {
        return false;
    }
    let mut i: usize = 0;
    while i <= hl - nl
        invariant
            hl == h@.len(),
            nl == n@.len(),
            nl <= hl,
            forall|k: int| 0 <= k < i ==> #[trigger] h@.subrange(k, k + nl) != n@,
        decreases hl - nl + 1 - i,
    {
        let mut j: usize = 0;
        let mut same = true;
        while j < nl && same
            invariant
                hl == h@.len(),
                nl == n@.len(),
                i + nl <= hl,
                j <= nl,
                same <==> forall|q: int| 0 <= q < j ==> h@[i + q] == n@[q],
            decreases nl - j,
        {
            if h.as_str().get_char(i + j) != n.as_str().get_char(j) {
                same = false;
            }
            j = j + 1;
        }
        if same {
            assert(h@.subrange(i as int, i + nl) =~= n@);
            return true;
        }
        assert(h@.subrange(i as int, i + nl) != n@) by {
            let q = choose|q: int| 0 <= q < j && h@[i + q] != n@[q];
            assert(h@.subrange(i as int, i + nl)[q] != n@[q]);
        }
        i = i + 1;
    }
    false
}

/// The enum attribute arguments, once read.
pub struct EnumAttrs {
    pub replace: Option<String>,
    pub bind: Option<String>,
    pub from: Vec<String>,
}

/// The read enum attribute arguments, as plain values.
pub open spec fn enum_attrs_view(a: EnumAttrs) -> EnumAttrsSpec {
    (
        match a.replace {
            Some(s) => Some(s@),
            None => None,
        },
        match a.bind {
            Some(s) => Some(s@),
            None => None,
        },
        a.from@.map_values(|s: String| s@),
    )
}

/// Reads the attribute arguments of an enum or variant in order.
pub fn parse_enum_attrs(attrs: &Vec<AttrArg>) -> (r: Result<EnumAttrs, String>)
    ensures
        match (r, spec_enum_attrs(attrs@)) {
            (Ok(a), Ok(s)) => enum_attrs_view(a) == s,
            (Err(e), Err(m)) => e@ == m,
            _ => false,
        },
{
    let mut acc = EnumAttrs { replace: None, bind: None, from: Vec::new() };
    assert(enum_attrs_view(acc).2 =~= Seq::<Seq<char>>::empty());
    assert(attrs@.take(0) =~= Seq::<AttrArg>::empty());
    let mut i: usize = 0;
    while i < attrs.len()
        invariant
            i <= attrs.len(),
            spec_enum_attrs(attrs@.take(i as int)) == Ok::<EnumAttrsSpec, Seq<char>>(enum_attrs_view(acc)),
        decreases attrs.len() - i,
    {
        let a = &attrs[i];
        assert(attrs@.take(i + 1).drop_last() =~= attrs@.take(i as int));
        assert(attrs@.take(i + 1).last() == *a);
        if is_text(&a.key, "replace") {
            acc.replace = Some(a.arg.clone());
        } else if is_text(&a.key, "bind") {
            acc.bind = Some(a.arg.clone());
        } else if is_text(&a.key, "from") {
            let ghost before = acc.from@;
            acc.from.push(a.arg.clone());
            assert(acc.from@.map_values(|s: String| s@) =~= before.map_values(|s: String| s@).push(a.arg@));
        } else {
            let mut e = "Unexpected attribute. ".to_owned();
            e.append(a.key.as_str());
            proof {
                lemma_enum_attrs_err_stays(attrs@, i as int + 1, "Unexpected attribute. "@ + a.key@);
            }
            return Err(e);
        }
        i = i + 1;
    }
    assert(attrs@.take(attrs@.len() as int) =~= attrs@);
    Ok(acc)
}

/// An error in the first `k` attribute arguments stays the error of all of
/// them.
proof fn lemma_enum_attrs_err_stays(attrs: Seq<AttrArg>, k: int, e: Seq<char>)
    requires
        0 <= k <= attrs.len(),
        spec_enum_attrs(attrs.take(k)) == Err::<EnumAttrsSpec, Seq<char>>(e),
    ensures
        spec_enum_attrs(attrs) == Err::<EnumAttrsSpec, Seq<char>>(e),
    decreases attrs.len() - k,
{
    if k < attrs.len() {
        assert(attrs.take(k + 1).drop_last() =~= attrs.take(k));
        lemma_enum_attrs_err_stays(attrs, k + 1, e);
    } else {
        assert(attrs.take(k) =~= attrs);
    }
}

/// An error in the arms of the first `k` variants stays the error of all.
proof fn lemma_arms_err_stays(name: Seq<char>, b: Seq<char>, to_bind: bool, vs: Seq<VariantDef>, k: int, e: Seq<char>)
    requires
        0 <= k <= vs.len(),
        spec_arms(name, b, to_bind, vs.take(k)) == Err::<Seq<char>, Seq<char>>(e),
    ensures
        spec_arms(name, b, to_bind, vs) == Err::<Seq<char>, Seq<char>>(e),
    decreases vs.len() - k,
{
    if k < vs.len() {
        assert(vs.take(k + 1).drop_last() =~= vs.take(k));
        lemma_arms_err_stays(name, b, to_bind, vs, k + 1, e);
    } else {
        assert(vs.take(k) =~= vs);
    }
}

/// The match arms of the variants.
fn arms(name: &String, b: &String, to_bind: bool, vs: &Vec<VariantDef>) -> (r: Result<String, String>)
    ensures
        match (r, spec_arms(name@, b@, to_bind, vs@)) {
            (Ok(a), Ok(s)) => a@ == s,
            (Err(e), Err(m)) => e@ == m,
            _ => false,
        },
{
    let mut out = String::new();
    assert(vs@.take(0) =~= Seq::<VariantDef>::empty());
    let mut i: usize = 0;
    while i < vs.len()
        invariant
            i <= vs.len(),
            spec_arms(name@, b@, to_bind, vs@.take(i as int)) == Ok::<Seq<char>, Seq<char>>(out@),
        decreases vs.len() - i,
    {
        let v = &vs[i];
        assert(vs@.take(i + 1).drop_last() =~= vs@.take(i as int));
        assert(vs@.take(i + 1).last() == *v);
        let va = match parse_enum_attrs(&v.attrs) {
            Ok(a) => a,
            Err(e) => {
                proof {
                    lemma_arms_err_stays(name@, b@, to_bind, vs@, i as int + 1, e@);
                }
                return Err(e);
            },
        };
        let rep = match &va.replace {
            Some(x) => x,
            None => {
                let mut e = String::new();
                push_str(&mut e, "`");
                push_str(&mut e, name.as_str());
                push_str(&mut e, "::");
                push_str(&mut e, v.name.as_str());
                push_str(&mut e, "` variant with missing replace, consider adding `#[byteserde(replace( <instance of type ");
                push_str(&mut e, b.as_str());
                push_str(&mut e, "> ))]`");
                proof {
                    assert(e@ =~= replace_missing_message(name@, v.name@, b@));
                    lemma_arms_err_stays(name@, b@, to_bind, vs@, i as int + 1, e@);
                }
                return Err(e);
            },
        };
        if v.shape != Shape::Unit {
            let e = "Only unit fields for enum types supported".to_owned();
            proof {
                lemma_arms_err_stays(name@, b@, to_bind, vs@, i as int + 1, e@);
            }
            return Err(e);
        }
        let ghost before = out@;
        if to_bind {
            push_str(&mut out, name.as_str());
            push_str(&mut out, "::");
            push_str(&mut out, v.name.as_str());
            push_str(&mut out, " => ");
            push_str(&mut out, rep.as_str());
            push_str(&mut out, ", ");
        } else {
            push_str(&mut out, rep.as_str());
            push_str(&mut out, " => ");
            push_str(&mut out, name.as_str());
            push_str(&mut out, "::");
            push_str(&mut out, v.name.as_str());
            push_str(&mut out, ", ");
        }
        assert(out@ =~= spec_arms(name@, b@, to_bind, vs@.take(i + 1))->Ok_0);
        i = i + 1;
    }
    assert(vs@.take(vs@.len() as int) =~= vs@);
    Ok(out)
}

/// A type written behind a reference.
fn ref_string(t: &String) -> (r: String)
    ensures
        r@ == ref_text(t@),
{
    let mut s = String::new();
    push_str(&mut s, "& ");
    push_str(&mut s, t.as_str());
    s
}

/// The impl for one `from` type.
fn from_impl(def: &StructDef, b: &String, f: &String) -> (r: Result<String, String>)
    ensures
        match (r, spec_from_impl(*def, b@, f@)) {
            (Ok(a), Ok(s)) => a@ == s,
            (Err(e), Err(m)) => e@ == m,
            _ => false,
        },
{
    let name = &def.name;
    let bref = ref_string(b);
    let nref = ref_string(name);
    if !(*f == *b || *f == bref || *f == *name || *f == nref) {
        let mut e = String::new();
        push_str(&mut e, "`#[byteserde(from(");
        push_str(&mut e, f.as_str());
        push_str(&mut e, "))]` needs to match one of \n                 `");
        push_str(&mut e, b.as_str());
        push_str(&mut e, "`\n                 `");
        push_str(&mut e, bref.as_str());
        push_str(&mut e, "`\n                 `");
        push_str(&mut e, name.as_str());
        push_str(&mut e, "`\n                 `");
        push_str(&mut e, nref.as_str());
        push_str(&mut e, "`\n                 ");
        assert(e@ =~= from_mismatch_message(f@, b@, name@));
        return Err(e);
    }
    if def.shape != Shape::Enum {
        return Err("This feature is only supported for enum types".to_owned());
    }
    let to_bind = text_contains(f, name);
    let a = match arms(name, b, to_bind, &def.variants) {
        Ok(a) => a,
        Err(e) => return Err(e),
    };
    let mut s = String::new();
    push_str(&mut s, "#[automatically_derived] impl From<");
    push_str(&mut s, f.as_str());
    push_str(&mut s, "> for ");
    push_str(&mut s, if to_bind { b.as_str() } else { name.as_str() });
    push_str(&mut s, " { fn from(v: ");
    push_str(&mut s, f.as_str());
    push_str(&mut s, ") -> ");
    push_str(&mut s, if to_bind { b.as_str() } else { name.as_str() });
    push_str(&mut s, " { match v { ");
    push_str(&mut s, a.as_str());
    if !to_bind {
        push_str(&mut s, "_ => panic!(\"{:?} is not mapped to enum variant\", v), ");
    }
    push_str(&mut s, "} } }");
    assert(s@ =~= from_impl_text(f@, b@, name@, to_bind, a@));
    Ok(s)
}

/// An error in the impls of the first `k` `from` types stays the error of all.
proof fn lemma_impls_err_stays(def: StructDef, b: Seq<char>, froms: Seq<Seq<char>>, k: int, e: Seq<char>)
    requires
        0 <= k <= froms.len(),
        spec_from_impls(def, b, froms.take(k)) == Err::<Seq<Seq<char>>, Seq<char>>(e),
    ensures
        spec_from_impls(def, b, froms) == Err::<Seq<Seq<char>>, Seq<char>>(e),
    decreases froms.len() - k,
{
    if k < froms.len() {
        assert(froms.take(k + 1).drop_last() =~= froms.take(k));
        lemma_impls_err_stays(def, b, froms, k + 1, e);
    } else {
        assert(froms.take(k) =~= froms);
    }
}

/// The `From` impls generated for an enum bound to a struct type, one per
/// `from` type, each mapping every variant to its `replace` value or back.
/// An enum without `bind` or `from`, a `from` type that is neither the enum,
/// the bound type nor a reference to either, and a variant without `replace`
/// or with fields are refused, with the message of the first.
pub fn enum_from_tokens(def: &StructDef) -> (r: Result<Vec<String>, String>)
    ensures
        match (r, spec_enum_from(*def)) {
            (Ok(v), Ok(s)) => v@.map_values(|t: String| t@) == s,
            (Err(e), Err(m)) => e@ == m,
            _ => false,
        },
{
    let ea = match parse_enum_attrs(&def.attrs) {
        Ok(a) => a,
        Err(e) => return Err(e),
    };
    let b = match &ea.bind {
        Some(b) => b,
        None => {
            let mut e = String::new();
            push_str(&mut e, "Enum ");
            push_str(&mut e, def.name.as_str());
            push_str(&mut e, " needs to be bound to a struct type using bind attribute. Example: `#[byteserde(bind( MyStructName ))]`");
            assert(e@ =~= bind_message(def.name@));
            return Err(e);
        },
    };
    if ea.from.len() == 0 {
        let mut e = String::new();
        push_str(&mut e, "Enum ");
        push_str(&mut e, def.name.as_str());
        push_str(&mut e, " is missing at least one from attribute,\n                Example: \n                    `#[byteserde(from(&");
        push_str(&mut e, def.name.as_str());
        push_str(&mut e, "))] - used by serializers`\n                    `#[byteserde(from(");
        push_str(&mut e, def.name.as_str());
        push_str(&mut e, "))] - convenient for testings`\n                    ");
        assert(e@ =~= from_empty_message(def.name@));
        return Err(e);
    }
    let ghost froms = ea.from@.map_values(|s: String| s@);
    assert(enum_attrs_view(ea).2 == froms);
    assert(froms.len() == ea.from@.len());
    assert(spec_enum_from(*def) == spec_from_impls(*def, b@, froms));
    let mut out: Vec<String> = Vec::new();
    assert(out@.map_values(|t: String| t@) =~= Seq::<Seq<char>>::empty());
    assert(froms.take(0) =~= Seq::<Seq<char>>::empty());
    let mut i: usize = 0;
    while i < ea.from.len()
        invariant
            i <= ea.from.len(),
            froms == ea.from@.map_values(|s: String| s@),
            spec_enum_from(*def) == spec_from_impls(*def, b@, froms),
            spec_from_impls(*def, b@, froms.take(i as int)) == Ok::<Seq<Seq<char>>, Seq<char>>(
                out@.map_values(|t: String| t@),
            ),
        decreases ea.from.len() - i,
    {
        assert(froms.take(i + 1).drop_last() =~= froms.take(i as int));
        assert(froms.take(i + 1).last() == ea.from@[i as int]@);
        match from_impl(def, b, &ea.from[i]) {
            Ok(t) => {
                let ghost before = out@;
                out.push(t);
                assert(out@.map_values(|t: String| t@) =~= before.map_values(|t: String| t@).push(t@));
            },
            Err(e) => {
                proof {
                    lemma_impls_err_stays(*def, b@, froms, i as int + 1, e@);
                }
                return Err(e);
            },
        }
        i = i + 1;
    }
    assert(froms.take(froms.len() as int) =~= froms);
    Ok(out)
}

} // verus!
