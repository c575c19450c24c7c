//! The code generated for a whole struct or enum, field by field or variant
//! by variant, and the definitions that are refused.
use vstd::prelude::*;
use crate::codegen::fields::{
    has_first_arg, serialize_method, setup_array, setup_numeric, setup_option, setup_struct, setup_vec,
    spec_setup_field, FldCode, FldText,
};
use crate::codegen::model::{
    attrs_result_is, attrs_view, classify_type, parse_field_attrs, spec_classify, spec_field_attrs, AttrsSpec,
    FieldAttrs, FieldDef, FieldKind, Shape, StructDef, TypeDesc, VariantDef,
};
use crate::codegen::struct_shared::Endian;
use crate::utils::text::{decimal, push_decimal, push_str};

verus! {

/// Whether a field of this kind is written in a byte order.
pub open spec fn needs_endian(kind: FieldKind) -> bool {
    !(kind is Struct || kind is OptionStructs)
}

/// The code of one field of a struct whose own attributes read as
/// `sattrs`: by its kind and attributes, in the field's byte order or, when
/// it sets none and needs one, the struct's.
pub open spec fn spec_field_code(sname: Seq<char>, sattrs: Result<AttrsSpec, Seq<char>>, fld: FieldDef) -> Result<
    FldText,
    Seq<char>,
> {
    match spec_classify(fld.ty) {
        Err(e) => Err(e),
        Ok(kind) => match spec_field_attrs(fld.attrs@) {
            Err(e) => Err(e),
            Ok(fa) => if needs_endian(kind) && fa.0 == Endian::NotSet {
                match sattrs {
                    Err(e) => Err(e),
                    Ok(sa) => Ok(spec_setup_field(sname, fld, fa, sa.0, kind)),
                }
            } else {
                Ok(spec_setup_field(sname, fld, fa, fa.0, kind))
            },
        },
    }
}

/// The code of the fields in order; the first field that is refused makes
/// the error.
pub open spec fn spec_fields_code(sname: Seq<char>, sattrs: Result<AttrsSpec, Seq<char>>, flds: Seq<FieldDef>) -> Result<
    Seq<FldText>,
    Seq<char>,
>
    decreases flds.len(),
{
    if flds.len() == 0 {
        Ok(Seq::empty())
    } else {
        match spec_fields_code(sname, sattrs, flds.drop_last()) {
            Err(e) => Err(e),
            Ok(v) => match spec_field_code(sname, sattrs, flds.last()) {
                Err(e) => Err(e),
                Ok(t) => Ok(v.push(t)),
            },
        }
    }
}

/// Code with nothing in it.
pub open spec fn empty_text() -> FldText {
    FldText {
        ser_vars: Seq::empty(),
        ser_repl: Seq::empty(),
        ser_uses_stck: Seq::empty(),
        ser_uses_heap: Seq::empty(),
        des_vars: Seq::empty(),
        des_peeked: Seq::empty(),
        des_uses: Seq::empty(),
        des_errors: Seq::empty(),
        size_of: Seq::empty(),
        size_errors: Seq::empty(),
        len_of: Seq::empty(),
    }
}

/// The reads of a variant's fields, by their types, separated by commas.
pub open spec fn join_deser(ts: Seq<Seq<char>>) -> Seq<char>
    decreases ts.len(),
{
    if ts.len() == 0 {
        Seq::empty()
    } else if ts.len() == 1 {
        ts[0] + "::byte_deserialize(des)?"@
    } else {
        join_deser(ts.drop_last()) + ", "@ + ts.last() + "::byte_deserialize(des)?"@
    }
}

/// The names `_0` to `_(n-1)`, separated by commas.
pub open spec fn var_list(n: nat) -> Seq<char>
    decreases n,
{
    if n == 0 {
        Seq::empty()
    } else if n == 1 {
        "_0"@
    } else {
        var_list((n - 1) as nat) + ", _"@ + decimal((n - 1) as nat)
    }
}

/// The serialization of `_0` to `_(n-1)` for the stack or the heap.
pub open spec fn ser_calls(n: nat, stack: bool) -> Seq<char>
    decreases n,
{
    if n == 0 {
        Seq::empty()
    } else {
        ser_calls((n - 1) as nat, stack) + "_"@ + decimal((n - 1) as nat) + "."@ + serialize_method(stack) + "(ser)?; "@
    }
}

/// The message of a variant without `eq`.
pub open spec fn variant_eq_message(ename: Seq<char>, vname: Seq<char>) -> Seq<char> {
    "enum '"@ + ename + "' variant '"@ + vname
        + "' missing required #[byteserde(eq( ... ))] attribute. It is matched vs #[byteserde(peek(start, len))] to determin deserilization struct."@
}

/// The message of a variant that is not tuple-like, which quotes the variant.
pub open spec fn variant_shape_message(ename: Seq<char>, vtext: Seq<char>) -> Seq<char> {
    "enum '"@ + ename + "' has an unsupported variant '"@ + vtext + "'. Only tuple-like style variants are supported"@
}

/// The serialization of a variant's fields for the stack or the heap.
pub open spec fn variant_ser(vname: Seq<char>, n: nat, stack: bool) -> Seq<char> {
    "Self::"@ + vname + "("@ + var_list(n) + ") => { "@ + ser_calls(n, stack) + "},"@
}

/// The code of one variant of an enum: read when the peeked bytes equal its
/// `eq`, written field by field. A variant needs `eq` and must be tuple-like.
pub open spec fn spec_variant_code(ename: Seq<char>, v: VariantDef) -> Result<Seq<FldText>, Seq<char>> {
    match spec_field_attrs(v.attrs@) {
        Err(e) => Err(e),
        Ok(fa) => match fa.3 {
            None => Err(variant_eq_message(ename, v.name@)),
            Some(eq) => if v.shape != Shape::Tuple {
                Err(variant_shape_message(ename, v.text@))
            } else {
                let ts = v.field_types@.map_values(|t: String| t@);
                let n = v.field_types@.len();
                Ok(
                    seq![
                        FldText {
                            des_peeked: "if __peeked == "@ + eq + " { return Ok( Self::"@ + v.name@ + "( "@ + join_deser(ts)
                                + " ) )}"@,
                            ..empty_text()
                        },
                        FldText {
                            ser_uses_stck: variant_ser(v.name@, n, true),
                            ser_uses_heap: variant_ser(v.name@, n, false),
                            ..empty_text()
                        },
                    ],
                )
            },
        },
    }
}

/// The code of the variants in order; the first variant that is refused
/// makes the error.
pub open spec fn spec_variants_code(ename: Seq<char>, vs: Seq<VariantDef>) -> Result<Seq<FldText>, Seq<char>>
    decreases vs.len(),
{
    if vs.len() == 0 {
        Ok(Seq::empty())
    } else {
        match spec_variants_code(ename, vs.drop_last()) {
            Err(e) => Err(e),
            Ok(c) => match spec_variant_code(ename, vs.last()) {
                Err(e) => Err(e),
                Ok(d) => Ok(c + d),
            },
        }
    }
}

/// The message of a unit struct.
pub open spec fn unit_message(name: Seq<char>) -> Seq<char> {
    "Unit struct type is not supported, found '"@ + name + "'"@
}

/// The message of a union.
pub open spec fn union_message(name: Seq<char>) -> Seq<char> {
    "Only struct types supported, found '"@ + name + "' of type 'union'"@
}

/// The code of a whole definition: its fields' or its variants' in order.
/// Unit structs and unions are refused.
pub open spec fn spec_struct_tokens(def: StructDef) -> Result<Seq<FldText>, Seq<char>> {
    match def.shape {
        Shape::Unit => Err(unit_message(def.name@)),
        Shape::Union => Err(union_message(def.name@)),
        Shape::Enum => spec_variants_code(def.name@, def.variants@),
        _ => spec_fields_code(def.name@, spec_field_attrs(def.attrs@), def.fields@),
    }
}

/// The code texts of some field codes.
pub open spec fn codes_view(v: Seq<FldCode>) -> Seq<FldText> {
    v.map_values(|c: FldCode| c@)
}

/// Whether a result of generation is the spec's.
pub open spec fn codes_result_is(r: Result<Vec<FldCode>, String>, s: Result<Seq<FldText>, Seq<char>>) -> bool {
    match (r, s) {
        (Ok(v), Ok(t)) => codes_view(v@) == t,
        (Err(e), Err(m)) => e@ == m,
        _ => false,
    }
}

/// A field's classification tells the shape of its type.
proof fn lemma_kind_shape(t: TypeDesc)
    requires
        spec_classify(t) is Ok,
    ensures
        ({
            let kind = spec_classify(t)->Ok_0;
            &&& (kind is ArrBytes || kind is ArrNumerics || kind is ArrStructs) ==> t is Array
            &&& (kind is VecBytes || kind is VecNumerics || kind is VecStructs || kind is OptionStructs) ==> has_first_arg(t)
        }),
{
}

/// The code of one field.
fn field_code(sname: &String, sattrs: &Result<FieldAttrs, String>, fld: &FieldDef) -> (r: Result<FldCode, String>)
    ensures
        match (r, spec_field_code(sname@, spec_field_attrs_of(*sattrs), *fld)) {
            (Ok(c), Ok(t)) => c@ == t,
            (Err(e), Err(m)) => e@ == m,
            _ => false,
        },
{
    let kind = match classify_type(&fld.ty) {
        Ok(k) => k,
        Err(e) => return Err(e),
    };
    proof {
        lemma_kind_shape(fld.ty);
    }
    let fa = match parse_field_attrs(&fld.attrs) {
        Ok(a) => a,
        Err(e) => return Err(e),
    };
    let needs = match kind {
        FieldKind::Struct { .. } | FieldKind::OptionStructs => false,
        _ => true,
    };
    let endian = if needs && fa.endian == Endian::NotSet {
        match sattrs {
            Ok(sa) => sa.endian,
            Err(e) => return Err(e.clone()),
        }
    } else {
        fa.endian
    };
    let code = match kind {
        FieldKind::Byte { .. } | FieldKind::Numeric => setup_numeric(fld, &fa, endian, kind),
        FieldKind::ArrBytes { .. } | FieldKind::ArrNumerics | FieldKind::ArrStructs => setup_array(fld, &fa, endian, kind),
        FieldKind::VecBytes | FieldKind::VecNumerics | FieldKind::VecStructs => setup_vec(sname, fld, &fa, endian, kind),
        FieldKind::OptionStructs => setup_option(sname, fld, &fa),
        FieldKind::Struct { .. } => setup_struct(fld, &fa, kind),
    };
    Ok(code)
}

/// What the struct's own attributes read as, as plain values.
pub open spec fn spec_field_attrs_of(r: Result<FieldAttrs, String>) -> Result<AttrsSpec, Seq<char>> {
    match r {
        Ok(a) => Ok(attrs_view(a)),
        Err(e) => Err(e@),
    }
}

/// The code of the fields in order.
fn fields_code(sname: &String, sattrs: &Result<FieldAttrs, String>, flds: &Vec<FieldDef>) -> (r: Result<Vec<FldCode>, String>)
    ensures
        codes_result_is(r, spec_fields_code(sname@, spec_field_attrs_of(*sattrs), flds@)),
{
    let ghost sa = spec_field_attrs_of(*sattrs);
    let mut out: Vec<FldCode> = Vec::new();
    assert(codes_view(out@) =~= Seq::<FldText>::empty());
    assert(flds@.take(0) =~= Seq::<FieldDef>::empty());
    let mut i: usize = 0;
    while i < flds.len()
        invariant
            i <= flds.len(),
            sa == spec_field_attrs_of(*sattrs),
            spec_fields_code(sname@, sa, flds@.take(i as int)) == Ok::<Seq<FldText>, Seq<char>>(codes_view(out@)),
        decreases flds.len() - i,
    {
        assert(flds@.take(i + 1).drop_last() =~= flds@.take(i as int));
        assert(flds@.take(i + 1).last() == flds@[i as int]);
        match field_code(sname, sattrs, &flds[i]) {
            Ok(c) => {
                let ghost before = out@;
                out.push(c);
                assert(codes_view(out@) =~= codes_view(before).push(c@));
            },
            Err(e) => {
                proof {
                    lemma_fields_err_stays(sname@, sa, flds@, i as int + 1, e@);
                }
                return Err(e);
            },
        }
        i = i + 1;
    }
    assert(flds@.take(flds@.len() as int) =~= flds@);
    Ok(out)
}

/// An error in the first `k` fields stays the error of all of them.
proof fn lemma_fields_err_stays(sname: Seq<char>, sa: Result<AttrsSpec, Seq<char>>, flds: Seq<FieldDef>, k: int, e: Seq<char>)
    requires
        0 <= k <= flds.len(),
        spec_fields_code(sname, sa, flds.take(k)) == Err::<Seq<FldText>, Seq<char>>(e),
    ensures
        spec_fields_code(sname, sa, flds) == Err::<Seq<FldText>, Seq<char>>(e),
    decreases flds.len() - k,
{
    if k < flds.len() {
        assert(flds.take(k + 1).drop_last() =~= flds.take(k));
        lemma_fields_err_stays(sname, sa, flds, k + 1, e);
    } else {
        assert(flds.take(k) =~= flds);
    }
}

/// Code with nothing in it.
fn empty_code() -> (r: FldCode)
    ensures
        r@ == empty_text(),
{
    let r = FldCode {
        ser_vars: String::new(),
        ser_repl: String::new(),
        ser_uses_stck: String::new(),
        ser_uses_heap: String::new(),
        des_vars: String::new(),
        des_peeked: String::new(),
        des_uses: String::new(),
        des_errors: Vec::new(),
        size_of: String::new(),
        size_errors: Vec::new(),
        len_of: String::new(),
    };
    assert(r@.des_errors =~= Seq::<Seq<char>>::empty());
    assert(r@.size_errors =~= Seq::<Seq<char>>::empty());
    assert(r@ =~= empty_text());
    r
}

/// Appends the reads of a variant's fields.
fn push_join_deser(s: &mut String, ts: &Vec<String>)
    ensures
        final(s)@ == old(s)@ + join_deser(ts@.map_values(|t: String| t@)),
{
    let ghost all = ts@.map_values(|t: String| t@);
    let ghost start = s@;
    let mut i: usize = 0;
    while i < ts.len()
        invariant
            i <= ts.len(),
            all == ts@.map_values(|t: String| t@),
            s@ == start + join_deser(all.take(i as int)),
        decreases ts.len() - i,
    {
        assert(all.take(i + 1).drop_last() =~= all.take(i as int));
        if i > 0 {
            push_str(s, ", ");
        }
        push_str(s, ts[i].as_str());
        push_str(s, "::byte_deserialize(des)?");
        proof {
            if i == 0 {
                assert(all.take(1) =~= seq![all[0]]);
            }
        }
        assert(s@ =~= start + join_deser(all.take(i + 1)));
        i = i + 1;
    }
    assert(all.take(ts.len() as int) =~= all);
}

/// Appends the serialization of a variant's fields.
fn push_variant_ser(s: &mut String, vname: &str, n: usize, stack: bool)
    ensures
        final(s)@ == old(s)@ + variant_ser(vname@, n as nat, stack),
{
    let ghost start = s@;
    push_str(s, "Self::");
    push_str(s, vname);
    push_str(s, "(");
    let ghost mid = s@;
    let mut i: usize = 0;
    while i < n
        invariant
            i <= n,
            s@ == mid + var_list(i as nat),
        decreases n - i,
    {
        if i == 0 {
            push_str(s, "_0");
        } else {
            push_str(s, ", _");
            push_decimal(s, i as u128);
        }
        assert(s@ =~= mid + var_list((i + 1) as nat));
        i = i + 1;
    }
    push_str(s, ") => { ");
    let ghost mid2 = s@;
    let mut j: usize = 0;
    while j < n
        invariant
            j <= n,
            s@ == mid2 + ser_calls(j as nat, stack),
        decreases n - j,
    {
        push_str(s, "_");
        push_decimal(s, j as u128);
        push_str(s, ".");
        push_str(s, if stack { "byte_serialize_stack" } else { "byte_serialize_heap" });
        push_str(s, "(ser)?; ");
        assert(s@ =~= mid2 + ser_calls((j + 1) as nat, stack));
        j = j + 1;
    }
    push_str(s, "},");
    assert(s@ =~= start + variant_ser(vname@, n as nat, stack));
}

/// The code of one variant of an enum.
fn variant_code(ename: &String, v: &VariantDef) -> (r: Result<Vec<FldCode>, String>)
    ensures
        codes_result_is(r, spec_variant_code(ename@, *v)),
{
    let fa = match parse_field_attrs(&v.attrs) {
        Ok(a) => a,
        Err(e) => return Err(e),
    };
    let eq = match &fa.eq {
        Some(x) => x,
        None => {
            let mut e = String::new();
            push_str(&mut e, "enum '");
            push_str(&mut e, ename.as_str());
            push_str(&mut e, "' variant '");
            push_str(&mut e, v.name.as_str());
            push_str(
                &mut e,
                "' missing required #[byteserde(eq( ... ))] attribute. It is matched vs #[byteserde(peek(start, len))] to determin deserilization struct.",
            );
            assert(e@ =~= variant_eq_message(ename@, v.name@));
            return Err(e);
        },
    };
    if v.shape != Shape::Tuple {
        let mut e = String::new();
        push_str(&mut e, "enum '");
        push_str(&mut e, ename.as_str());
        push_str(&mut e, "' has an unsupported variant '");
        push_str(&mut e, v.text.as_str());
        push_str(&mut e, "'. Only tuple-like style variants are supported");
        assert(e@ =~= variant_shape_message(ename@, v.text@));
        return Err(e);
    }
    let mut des = empty_code();
    let mut peeked = String::new();
    push_str(&mut peeked, "if __peeked == ");
    push_str(&mut peeked, eq.as_str());
    push_str(&mut peeked, " { return Ok( Self::");
    push_str(&mut peeked, v.name.as_str());
    push_str(&mut peeked, "( ");
    push_join_deser(&mut peeked, &v.field_types);
    push_str(&mut peeked, " ) )}");
    des.des_peeked = peeked;
    let mut ser = empty_code();
    let mut stck = String::new();
    push_variant_ser(&mut stck, v.name.as_str(), v.field_types.len(), true);
    let mut heap = String::new();
    push_variant_ser(&mut heap, v.name.as_str(), v.field_types.len(), false);
    ser.ser_uses_stck = stck;
    ser.ser_uses_heap = heap;
    let mut out: Vec<FldCode> = Vec::new();
    out.push(des);
    out.push(ser);
    proof {
        let t = spec_variant_code(ename@, *v)->Ok_0;
        assert(codes_view(out@) =~= t);
    }
    Ok(out)
}

/// The code of the variants in order.
fn variants_code(ename: &String, vs: &Vec<VariantDef>) -> (r: Result<Vec<FldCode>, String>)
    ensures
        codes_result_is(r, spec_variants_code(ename@, vs@)),
{
    let mut out: Vec<FldCode> = Vec::new();
    assert(codes_view(out@) =~= Seq::<FldText>::empty());
    assert(vs@.take(0) =~= Seq::<VariantDef>::empty());
    let mut i: usize = 0;
    while i < vs.len()
        invariant
            i <= vs.len(),
            spec_variants_code(ename@, vs@.take(i as int)) == Ok::<Seq<FldText>, Seq<char>>(codes_view(out@)),
        decreases vs.len() - i,
    {
        assert(vs@.take(i + 1).drop_last() =~= vs@.take(i as int));
        assert(vs@.take(i + 1).last() == vs@[i as int]);
        match variant_code(ename, &vs[i]) {
            Ok(mut c) => {
                let ghost before = out@;
                let ghost cv = c@;
                out.append(&mut c);
                assert(codes_view(out@) =~= codes_view(before) + codes_view(cv));
            },
            Err(e) => {
                proof {
                    lemma_variants_err_stays(ename@, vs@, i as int + 1, e@);
                }
                return Err(e);
            },
        }
        i = i + 1;
    }
    assert(vs@.take(vs@.len() as int) =~= vs@);
    Ok(out)
}

/// An error in the first `k` variants stays the error of all of them.
proof fn lemma_variants_err_stays(ename: Seq<char>, vs: Seq<VariantDef>, k: int, e: Seq<char>)
    requires
        0 <= k <= vs.len(),
        spec_variants_code(ename, vs.take(k)) == Err::<Seq<FldText>, Seq<char>>(e),
    ensures
        spec_variants_code(ename, vs) == Err::<Seq<FldText>, Seq<char>>(e),
    decreases vs.len() - k,
{
    if k < vs.len() {
        assert(vs.take(k + 1).drop_last() =~= vs.take(k));
        lemma_variants_err_stays(ename, vs, k + 1, e);
    } else {
        assert(vs.take(k) =~= vs);
    }
}

/// The code generated for a definition: for a struct, each field's code by
/// its type and attributes; for an enum, each variant's. Unit structs,
/// unions, unreadable attributes, an `Option` of a primitive, and variants
/// without `eq` or not tuple-like are refused, with the message of the first.
pub fn struct_tokens(def: &StructDef) -> (r: Result<Vec<FldCode>, String>)
    ensures
        codes_result_is(r, spec_struct_tokens(*def)),
        r is Err <== def.shape is Unit || def.shape is Union,
{
    match def.shape {
        Shape::Unit => {
            let mut e = String::new();
            push_str(&mut e, "Unit struct type is not supported, found '");
            push_str(&mut e, def.name.as_str());
            push_str(&mut e, "'");
            assert(e@ =~= unit_message(def.name@));
            Err(e)
        },
        Shape::Union => {
            let mut e = String::new();
            push_str(&mut e, "Only struct types supported, found '");
            push_str(&mut e, def.name.as_str());
            push_str(&mut e, "' of type 'union'");
            assert(e@ =~= union_message(def.name@));
            Err(e)
        },
        Shape::Enum => variants_code(&def.name, &def.variants),
        _ => {
            let sattrs = parse_field_attrs(&def.attrs);
            assert(spec_field_attrs_of(sattrs) == spec_field_attrs(def.attrs@));
            fields_code(&def.name, &sattrs, &def.fields)
        },
    }
}

} // verus!
