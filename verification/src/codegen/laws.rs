//! What the generated code of a field promises, whatever the field: numeric
//! arrays are read back in the byte order they are written in, a
//! replacement is what gets written, and the size of an array counts every
//! element.
use vstd::prelude::*;
use crate::codegen::fields::{
    arr_elem, arr_len, deplete_check, size_of_text, spec_setup_array, spec_setup_field, spec_setup_numeric, spec_setup_option,
    spec_setup_struct, spec_setup_vec, struct_ty, vec_deplete_len, FldText,
};
use crate::codegen::model::{member_text, spec_field_attrs, Shape, StructDef};
use crate::codegen::impls::{
    concat_pieces, des_body, peek_loop, piece, spec_deserialize_impl, spec_len_of_impl, spec_serialize_impl, spec_size_of_impl, sum_pieces,
    sum_terms, Piece,
};
use crate::codegen::tokens::spec_struct_tokens;
use crate::codegen::validate::peeked_count;
use crate::codegen::impls::impl_head;
use crate::codegen::model::{text_of, var_text, AttrsSpec, FieldDef, FieldKind};
use crate::codegen::struct_shared::{des_method, field_endian, ser_method, Endian};

verus! {

/// Whether `t` occurs in `s`.
pub open spec fn has_text(s: Seq<char>, t: Seq<char>) -> bool {
    exists|i: int| 0 <= i && i + t.len() <= s.len() && #[trigger] s.subrange(i, i + t.len()) == t
}

/// The suffix that names a byte order in the numeric serializer and
/// deserializer methods: `be` for big endian, `le` for little endian and
/// `ne`, the machine's order, when none is set.
pub open spec fn order_suffix(e: Endian) -> Seq<char> {
    match e {
        Endian::Big => "be"@,
        Endian::Lit => "le"@,
        _ => "ne"@,
    }
}

proof fn lemma_has_mid(a: Seq<char>, t: Seq<char>, b: Seq<char>)
    ensures
        has_text(a + t + b, t),
{
    assert((a + t + b).subrange(a.len() as int, (a.len() + t.len()) as int) =~= t);
}

proof fn lemma_method_names(e: Endian)
    ensures
        ser_method(e) == "serialize_"@ + order_suffix(e),
        des_method(e) == "deserialize_"@ + order_suffix(e),
{
    reveal_strlit("serialize_");
    reveal_strlit("deserialize_");
    reveal_strlit("be");
    reveal_strlit("le");
    reveal_strlit("ne");
    reveal_strlit("serialize_be");
    reveal_strlit("serialize_le");
    reveal_strlit("serialize_ne");
    reveal_strlit("deserialize_be");
    reveal_strlit("deserialize_le");
    reveal_strlit("deserialize_ne");
    assert(ser_method(e) =~= "serialize_"@ + order_suffix(e));
    assert(des_method(e) =~= "deserialize_"@ + order_suffix(e));
}

/// Law: the elements of a numeric array field are read back in the byte
/// order they are written in. The stack and the heap serializers write each
/// element with `ser.serialize_X`, and the deserializer reads each with
/// `des.deserialize_X`, for the one suffix `X` of the field's byte order.
pub proof fn law_array_numerics_read_in_written_order(fld: FieldDef, fa: AttrsSpec, endian: Endian)
    ensures
        has_text(
            spec_setup_array(fld, fa, endian, FieldKind::ArrNumerics).ser_uses_stck,
            "ser.serialize_"@ + order_suffix(endian) + "(*n)?"@,
        ),
        has_text(
            spec_setup_array(fld, fa, endian, FieldKind::ArrNumerics).ser_uses_heap,
            "ser.serialize_"@ + order_suffix(endian) + "(*n)?"@,
        ),
        has_text(
            spec_setup_array(fld, fa, endian, FieldKind::ArrNumerics).des_vars,
            "des.deserialize_"@ + order_suffix(endian) + "()?"@,
        ),
{
    let c = spec_setup_array(fld, fa, endian, FieldKind::ArrNumerics);
    let v = var_text(fld.member);
    let x = order_suffix(endian);
    lemma_method_names(endian);
    reveal_strlit(" { ser.");
    reveal_strlit(" { ");
    reveal_strlit("ser.");
    reveal_strlit("serialize_");
    reveal_strlit("ser.serialize_");
    reveal_strlit("(*n)?; }");
    reveal_strlit("(*n)?");
    reveal_strlit("; }");
    reveal_strlit(".iter_mut() { *e = des.");
    reveal_strlit(".iter_mut() { *e = ");
    reveal_strlit("des.");
    reveal_strlit("deserialize_");
    reveal_strlit("des.deserialize_");
    reveal_strlit("()?; }");
    reveal_strlit("()?");
    let su = "ser.serialize_"@ + x + "(*n)?"@;
    assert(" { ser."@ =~= " { "@ + "ser."@);
    assert("ser.serialize_"@ =~= "ser."@ + "serialize_"@);
    assert("(*n)?; }"@ =~= "(*n)?"@ + "; }"@);
    let ps = "for n in "@ + v + " { "@;
    assert(c.ser_uses_stck =~= ps + su + "; }"@);
    assert(c.ser_uses_heap =~= ps + su + "; }"@);
    lemma_has_mid(ps, su, "; }"@);
    let du = "des.deserialize_"@ + x + "()?"@;
    assert(".iter_mut() { *e = des."@ =~= ".iter_mut() { *e = "@ + "des."@);
    assert("des.deserialize_"@ =~= "des."@ + "deserialize_"@);
    assert("()?; }"@ =~= "()?"@ + "; }"@);
    let a = arr_elem(fld.ty);
    let l = arr_len(fld.ty);
    let arr = "["@ + a + "; "@ + l + "]"@;
    let pd = "let mut "@ + v + ": "@ + arr + " = [0; "@ + l + "]; for e in "@ + v + ".iter_mut() { *e = "@;
    assert(c.des_vars =~= pd + du + "; }"@);
    lemma_has_mid(pd, du, "; }"@);
}

/// Law: the byte order of a numeric array field is its own when it sets
/// one, else its struct's; its elements are written and read back in that
/// order.
pub proof fn law_array_numerics_field_or_struct_order(fld: FieldDef, fa: AttrsSpec, sa: AttrsSpec)
    ensures
        has_text(
            spec_setup_array(fld, fa, field_endian(sa.0, fa.0), FieldKind::ArrNumerics).ser_uses_stck,
            "ser.serialize_"@ + order_suffix(if fa.0 == Endian::NotSet { sa.0 } else { fa.0 }) + "(*n)?"@,
        ),
        has_text(
            spec_setup_array(fld, fa, field_endian(sa.0, fa.0), FieldKind::ArrNumerics).des_vars,
            "des.deserialize_"@ + order_suffix(if fa.0 == Endian::NotSet { sa.0 } else { fa.0 }) + "()?"@,
        ),
{
    law_array_numerics_read_in_written_order(fld, fa, field_endian(sa.0, fa.0));
}

/// Law: a byte or numeric field given `replace(expr)` is written as `expr`:
/// before the write, the variable that the write reads is bound to `expr`
/// cast to the field's type. Without `replace` nothing rebinds it, and the
/// field's own value is written.
pub proof fn law_numeric_replace_is_written(fld: FieldDef, fa: AttrsSpec, endian: Endian, kind: FieldKind)
    requires
        kind is Byte || kind is Numeric,
    ensures
        fa.1 matches Some(x) ==> has_text(
            spec_setup_numeric(fld, fa, endian, kind).ser_repl,
            "let "@ + var_text(fld.member) + " = ("@ + x + ") as "@ + text_of(fld.ty),
        ),
        fa.1 is None ==> spec_setup_numeric(fld, fa, endian, kind).ser_repl.len() == 0,
        has_text(spec_setup_numeric(fld, fa, endian, kind).ser_uses_stck, var_text(fld.member)),
        has_text(spec_setup_numeric(fld, fa, endian, kind).ser_uses_heap, var_text(fld.member)),
{
    let c = spec_setup_numeric(fld, fa, endian, kind);
    let v = var_text(fld.member);
    let t = text_of(fld.ty);
    if let Some(x) = fa.1 {
        let r = "let "@ + v + " = ("@ + x + ") as "@ + t;
        assert(c.ser_repl =~= Seq::<char>::empty() + r + ";"@);
        lemma_has_mid(Seq::empty(), r, ";"@);
    }
    match kind {
        FieldKind::Byte { .. } => {
            let p = "ser.serialize_bytes_slice(&["@;
            assert(c.ser_uses_stck =~= p + v + " as u8])?;"@);
            lemma_has_mid(p, v, " as u8])?;"@);
        },
        _ => {
            let p = "ser."@ + ser_method(endian) + "("@;
            assert(c.ser_uses_stck =~= p + v + ")?;"@);
            lemma_has_mid(p, v, ")?;"@);
        },
    }
}

/// Law: the size of an array field counts every element: it is the size of
/// the element type times the array's length, for an array of structs the
/// element struct's own size. For an array of bytes or numerics the length
/// of a value is that same size.
pub proof fn law_array_size_counts_every_element(fld: FieldDef, fa: AttrsSpec, endian: Endian, kind: FieldKind)
    requires
        kind is ArrBytes || kind is ArrNumerics || kind is ArrStructs,
    ensures
        kind is ArrStructs ==> spec_setup_array(fld, fa, endian, kind).size_of == arr_elem(fld.ty) + "::byte_size()"@ + " * "@
            + arr_len(fld.ty),
        !(kind is ArrStructs) ==> spec_setup_array(fld, fa, endian, kind).size_of == size_of_text(arr_elem(fld.ty)) + " * "@
            + arr_len(fld.ty),
        !(kind is ArrStructs) ==> spec_setup_array(fld, fa, endian, kind).len_of == "("@ + spec_setup_array(
            fld,
            fa,
            endian,
            kind,
        ).size_of + ")"@,
{
    reveal_strlit("::byte_size() * ");
    reveal_strlit("::byte_size()");
    reveal_strlit(" * ");
    assert("::byte_size() * "@ =~= "::byte_size()"@ + " * "@);
    let c = spec_setup_array(fld, fa, endian, kind);
    let a = arr_elem(fld.ty);
    let l = arr_len(fld.ty);
    if kind is ArrStructs {
        assert(c.size_of =~= a + "::byte_size()"@ + " * "@ + l);
    } else {
        assert(c.len_of =~= "("@ + c.size_of + ")"@);
    }
}

/// Law: a numeric field is read back in the byte order it is written in:
/// written with `ser.serialize_X` and read with `des.deserialize_X`, for the
/// one suffix `X` of the field's byte order. A byte field is written as one
/// byte and read back as one, signed or not as its type is. Its size and its
/// length are both the size of its type.
pub proof fn law_numeric_read_in_written_order(fld: FieldDef, fa: AttrsSpec, endian: Endian, kind: FieldKind)
    requires
        kind is Byte || kind is Numeric,
    ensures
        kind is Numeric ==> has_text(
            spec_setup_numeric(fld, fa, endian, kind).ser_uses_stck,
            "ser.serialize_"@ + order_suffix(endian) + "("@,
        ),
        kind is Numeric ==> has_text(
            spec_setup_numeric(fld, fa, endian, kind).ser_uses_heap,
            "ser.serialize_"@ + order_suffix(endian) + "("@,
        ),
        kind is Numeric ==> has_text(
            spec_setup_numeric(fld, fa, endian, kind).des_vars,
            "des.deserialize_"@ + order_suffix(endian) + "()?"@,
        ),
        kind is Byte ==> has_text(spec_setup_numeric(fld, fa, endian, kind).ser_uses_stck, " as u8])?"@),
        kind == (FieldKind::Byte { signed: true }) ==> has_text(
            spec_setup_numeric(fld, fa, endian, kind).des_vars,
            "des.deserialize_i8()?"@,
        ),
        kind == (FieldKind::Byte { signed: false }) ==> has_text(
            spec_setup_numeric(fld, fa, endian, kind).des_vars,
            "des.deserialize_u8()?"@,
        ),
        spec_setup_numeric(fld, fa, endian, kind).size_of == size_of_text(text_of(fld.ty)),
        spec_setup_numeric(fld, fa, endian, kind).len_of == size_of_text(text_of(fld.ty)),
{
    let c = spec_setup_numeric(fld, fa, endian, kind);
    let v = var_text(fld.member);
    let t = text_of(fld.ty);
    lemma_method_names(endian);
    reveal_strlit("ser.");
    reveal_strlit("serialize_");
    reveal_strlit("ser.serialize_");
    reveal_strlit(" = des.");
    reveal_strlit(" = ");
    reveal_strlit("des.");
    reveal_strlit("deserialize_");
    reveal_strlit("des.deserialize_");
    reveal_strlit("()?;");
    reveal_strlit("()?");
    reveal_strlit(";");
    reveal_strlit(" = des.deserialize_i8()?;");
    reveal_strlit(" = des.deserialize_u8()?;");
    reveal_strlit("des.deserialize_i8()?");
    reveal_strlit("des.deserialize_u8()?");
    reveal_strlit(" as u8])?;");
    reveal_strlit(" as u8])?");
    let x = order_suffix(endian);
    let pv = "let "@ + v + ": "@ + t;
    match kind {
        FieldKind::Byte { signed } => {
            assert(" as u8])?;"@ =~= " as u8])?"@ + ";"@);
            let p = "ser.serialize_bytes_slice(&["@ + v;
            assert(c.ser_uses_stck =~= p + " as u8])?"@ + ";"@);
            lemma_has_mid(p, " as u8])?"@, ";"@);
            if signed {
                assert(" = des.deserialize_i8()?;"@ =~= " = "@ + "des.deserialize_i8()?"@ + ";"@);
                assert(c.des_vars =~= (pv + " = "@) + "des.deserialize_i8()?"@ + ";"@);
                lemma_has_mid(pv + " = "@, "des.deserialize_i8()?"@, ";"@);
            } else {
                assert(" = des.deserialize_u8()?;"@ =~= " = "@ + "des.deserialize_u8()?"@ + ";"@);
                assert(c.des_vars =~= (pv + " = "@) + "des.deserialize_u8()?"@ + ";"@);
                lemma_has_mid(pv + " = "@, "des.deserialize_u8()?"@, ";"@);
            }
        },
        _ => {
            let su = "ser.serialize_"@ + x + "("@;
            assert("ser.serialize_"@ =~= "ser."@ + "serialize_"@);
            assert(c.ser_uses_stck =~= Seq::<char>::empty() + su + (v + ")?;"@));
            lemma_has_mid(Seq::empty(), su, v + ")?;"@);
            let du = "des.deserialize_"@ + x + "()?"@;
            assert(" = des."@ =~= " = "@ + "des."@);
            assert("des.deserialize_"@ =~= "des."@ + "deserialize_"@);
            assert("()?;"@ =~= "()?"@ + ";"@);
            assert(c.des_vars =~= (pv + " = "@) + du + ";"@);
            lemma_has_mid(pv + " = "@, du, ";"@);
        },
    }
}

/// Law: a numeric vector field is read back as it is written: each element
/// written with `ser.serialize_X` is read with `des.deserialize_X`, for the
/// one suffix `X` of the field's byte order; and with `deplete(n)` the
/// writer stops after `n` elements where the reader reads `n` of them.
pub proof fn law_vec_numerics_read_as_written(sname: Seq<char>, fld: FieldDef, fa: AttrsSpec, endian: Endian)
    ensures
        has_text(
            spec_setup_vec(sname, fld, fa, endian, FieldKind::VecNumerics).ser_uses_stck,
            "ser.serialize_"@ + order_suffix(endian) + "(*n)?"@,
        ),
        has_text(
            spec_setup_vec(sname, fld, fa, endian, FieldKind::VecNumerics).ser_uses_heap,
            "ser.serialize_"@ + order_suffix(endian) + "(*n)?"@,
        ),
        has_text(
            spec_setup_vec(sname, fld, fa, endian, FieldKind::VecNumerics).des_vars,
            "des.deserialize_"@ + order_suffix(endian) + "()?"@,
        ),
        fa.2 matches Some(n) ==> has_text(
            spec_setup_vec(sname, fld, fa, endian, FieldKind::VecNumerics).ser_uses_stck,
            "if idx >= "@ + n + " {break;}"@,
        ),
        fa.2 matches Some(n) ==> has_text(
            spec_setup_vec(sname, fld, fa, endian, FieldKind::VecNumerics).des_vars,
            "for _ in 0.."@ + n + " {"@,
        ),
{
    lemma_vec_numerics_write(sname, fld, fa, endian);
    lemma_vec_numerics_read(sname, fld, fa, endian);
    if let Some(n) = fa.2 {
        lemma_vec_numerics_deplete(sname, fld, fa, endian, n);
    }
}

proof fn lemma_vec_numerics_write(sname: Seq<char>, fld: FieldDef, fa: AttrsSpec, endian: Endian)
    ensures
        has_text(
            spec_setup_vec(sname, fld, fa, endian, FieldKind::VecNumerics).ser_uses_stck,
            "ser.serialize_"@ + order_suffix(endian) + "(*n)?"@,
        ),
        has_text(
            spec_setup_vec(sname, fld, fa, endian, FieldKind::VecNumerics).ser_uses_heap,
            "ser.serialize_"@ + order_suffix(endian) + "(*n)?"@,
        ),
{
    let c = spec_setup_vec(sname, fld, fa, endian, FieldKind::VecNumerics);
    let v = var_text(fld.member);
    let m = member_text(fld.member);
    let dl = vec_deplete_len(m, fa);
    let x = order_suffix(endian);
    lemma_method_names(endian);
    reveal_strlit(" {break;} ser.");
    reveal_strlit(" {break;} ");
    reveal_strlit("ser.");
    reveal_strlit("serialize_");
    reveal_strlit("ser.serialize_");
    reveal_strlit("(*n)?; }");
    reveal_strlit("(*n)?");
    reveal_strlit("; }");
    assert(" {break;} ser."@ =~= " {break;} "@ + "ser."@);
    assert("ser.serialize_"@ =~= "ser."@ + "serialize_"@);
    assert("(*n)?; }"@ =~= "(*n)?"@ + "; }"@);
    let su = "ser.serialize_"@ + x + "(*n)?"@;
    let ps = deplete_check(sname, v, m, fa) + "; for (idx, n) in "@ + v + ".iter().enumerate() { if idx >= "@ + dl
        + " {break;} "@;
    assert(c.ser_uses_stck =~= ps + su + "; }"@);
    assert(c.ser_uses_heap =~= ps + su + "; }"@);
    lemma_has_mid(ps, su, "; }"@);
}

proof fn lemma_vec_numerics_read(sname: Seq<char>, fld: FieldDef, fa: AttrsSpec, endian: Endian)
    ensures
        has_text(
            spec_setup_vec(sname, fld, fa, endian, FieldKind::VecNumerics).des_vars,
            "des.deserialize_"@ + order_suffix(endian) + "()?"@,
        ),
{
    let c = spec_setup_vec(sname, fld, fa, endian, FieldKind::VecNumerics);
    let v = var_text(fld.member);
    let t = text_of(fld.ty);
    let x = order_suffix(endian);
    lemma_method_names(endian);
    reveal_strlit("des.");
    reveal_strlit("deserialize_");
    reveal_strlit("des.deserialize_");
    assert("des.deserialize_"@ =~= "des."@ + "deserialize_"@);
    let du = "des.deserialize_"@ + x + "()?"@;
    assert("des."@ + des_method(endian) + "()?"@ =~= du);
    match fa.2 {
        Some(n) => {
            let pd = "let mut "@ + v + ": "@ + t + " = vec![]; for _ in 0.."@ + n + " { "@ + v + ".push("@;
            assert(c.des_vars =~= pd + du + "); }"@);
            lemma_has_mid(pd, du, "); }"@);
        },
        None => {
            let pd = "let mut "@ + v + ": "@ + t + " = vec![]; while des.is_empty() == false { "@ + v + ".push("@;
            assert(c.des_vars =~= pd + du + "); }"@);
            lemma_has_mid(pd, du, "); }"@);
        },
    }
}

proof fn lemma_vec_numerics_deplete(sname: Seq<char>, fld: FieldDef, fa: AttrsSpec, endian: Endian, n: Seq<char>)
    requires
        fa.2 == Some(n),
    ensures
        has_text(spec_setup_vec(sname, fld, fa, endian, FieldKind::VecNumerics).ser_uses_stck, "if idx >= "@ + n + " {break;}"@),
        has_text(spec_setup_vec(sname, fld, fa, endian, FieldKind::VecNumerics).des_vars, "for _ in 0.."@ + n + " {"@),
{
    let c = spec_setup_vec(sname, fld, fa, endian, FieldKind::VecNumerics);
    let v = var_text(fld.member);
    let m = member_text(fld.member);
    let t = text_of(fld.ty);
    reveal_strlit(".iter().enumerate() { if idx >= ");
    reveal_strlit(".iter().enumerate() { ");
    reveal_strlit("if idx >= ");
    reveal_strlit(" {break;} ser.");
    reveal_strlit(" {break;}");
    reveal_strlit(" ser.");
    assert(".iter().enumerate() { if idx >= "@ =~= ".iter().enumerate() { "@ + "if idx >= "@);
    assert(" {break;} ser."@ =~= " {break;}"@ + " ser."@);
    let p1 = deplete_check(sname, v, m, fa) + "; for (idx, n) in "@ + v + ".iter().enumerate() { "@;
    let s1 = " ser."@ + ser_method(endian) + "(*n)?; }"@;
    assert(c.ser_uses_stck =~= p1 + ("if idx >= "@ + n + " {break;}"@) + s1);
    lemma_has_mid(p1, "if idx >= "@ + n + " {break;}"@, s1);
    reveal_strlit(" = vec![]; for _ in 0..");
    reveal_strlit(" = vec![]; ");
    reveal_strlit("for _ in 0..");
    reveal_strlit(" { ");
    reveal_strlit(" {");
    reveal_strlit(" ");
    assert(" = vec![]; for _ in 0.."@ =~= " = vec![]; "@ + "for _ in 0.."@);
    assert(" { "@ =~= " {"@ + " "@);
    let p2 = "let mut "@ + v + ": "@ + t + " = vec![]; "@;
    let s2 = " "@ + v + ".push("@ + ("des."@ + des_method(endian) + "()?"@) + "); }"@;
    assert(c.des_vars =~= p2 + ("for _ in 0.."@ + n + " {"@) + s2);
    lemma_has_mid(p2, "for _ in 0.."@ + n + " {"@, s2);
}

proof fn lemma_binds(s: Seq<char>, v: Seq<char>, mid: Seq<char>, x: Seq<char>, end: Seq<char>)
    requires
        s == "let "@ + v + mid + x + end,
    ensures
        has_text(s, "let "@ + v),
        has_text(s, x),
{
    assert(s =~= Seq::<char>::empty() + ("let "@ + v) + (mid + x + end));
    lemma_has_mid(Seq::empty(), "let "@ + v, mid + x + end);
    assert(s =~= ("let "@ + v + mid) + x + end);
    lemma_has_mid("let "@ + v + mid, x, end);
}

/// Law: a field of any kind given `replace(expr)` is written as `expr`:
/// before the write, the variable that the write reads is bound anew from
/// `expr`. Without `replace` nothing rebinds it, and the field's own value
/// is written.
pub proof fn law_replace_is_written(sname: Seq<char>, fld: FieldDef, fa: AttrsSpec, endian: Endian, kind: FieldKind)
    ensures
        fa.1 matches Some(x) ==> has_text(spec_setup_field(sname, fld, fa, endian, kind).ser_repl, "let "@ + var_text(fld.member))
            && has_text(spec_setup_field(sname, fld, fa, endian, kind).ser_repl, x),
        fa.1 is None ==> spec_setup_field(sname, fld, fa, endian, kind).ser_repl.len() == 0,
{
    let c = spec_setup_field(sname, fld, fa, endian, kind);
    let v = var_text(fld.member);
    if let Some(x) = fa.1 {
        match kind {
            FieldKind::Byte { .. } | FieldKind::Numeric => {
                assert(c.ser_repl =~= "let "@ + v + " = ("@ + x + (") as "@ + text_of(fld.ty) + ";"@));
                lemma_binds(c.ser_repl, v, " = ("@, x, ") as "@ + text_of(fld.ty) + ";"@);
            },
            FieldKind::ArrBytes { .. } | FieldKind::ArrNumerics | FieldKind::ArrStructs => {
                let arr = "["@ + arr_elem(fld.ty) + "; "@ + arr_len(fld.ty) + "]"@;
                assert(c.ser_repl =~= "let "@ + v + (": &"@ + arr + " = &"@) + x + ";"@);
                lemma_binds(c.ser_repl, v, ": &"@ + arr + " = &"@, x, ";"@);
            },
            FieldKind::VecBytes | FieldKind::VecNumerics | FieldKind::VecStructs | FieldKind::OptionStructs => {
                lemma_binds(c.ser_repl, v, " = &"@, x, ";"@);
            },
            FieldKind::Struct { .. } => {
                let t = struct_ty(fld, kind);
                assert(c.ser_repl =~= "let "@ + v + (": &"@ + t + " = &"@) + x + ";"@);
                lemma_binds(c.ser_repl, v, ": &"@ + t + " = &"@, x, ";"@);
            },
        }
    }
}

/// Law: a field that serializes itself is read back from exactly the bytes
/// `deplete(n)` gives it, when given: it is read with
/// `deserialize_take(n)`; else with `deserialize`, taking what its image
/// occupies.
pub proof fn law_struct_deplete_reads_n_bytes(fld: FieldDef, fa: AttrsSpec, kind: FieldKind)
    requires
        kind is Struct,
    ensures
        fa.2 matches Some(n) ==> has_text(
            spec_setup_struct(fld, fa, kind).des_vars,
            "des.deserialize_take(("@ + n + ") as usize)?"@,
        ),
        fa.2 is None ==> has_text(spec_setup_struct(fld, fa, kind).des_vars, "des.deserialize()?"@),
{
    let c = spec_setup_struct(fld, fa, kind);
    let p = "let "@ + var_text(fld.member) + ": "@ + struct_ty(fld, kind) + " = "@;
    reveal_strlit(" = des.deserialize_take((");
    reveal_strlit(" = ");
    reveal_strlit("des.deserialize_take((");
    reveal_strlit(") as usize)?;");
    reveal_strlit(") as usize)?");
    reveal_strlit(";");
    reveal_strlit(" = des.deserialize()?;");
    reveal_strlit("des.deserialize()?");
    match fa.2 {
        Some(n) => {
            assert(" = des.deserialize_take(("@ =~= " = "@ + "des.deserialize_take(("@);
            assert(") as usize)?;"@ =~= ") as usize)?"@ + ";"@);
            let t = "des.deserialize_take(("@ + n + ") as usize)?"@;
            assert(c.des_vars =~= p + t + ";"@);
            lemma_has_mid(p, t, ";"@);
        },
        None => {
            assert(" = des.deserialize()?;"@ =~= " = "@ + "des.deserialize()?"@ + ";"@);
            assert(c.des_vars =~= p + "des.deserialize()?"@ + ";"@);
            lemma_has_mid(p, "des.deserialize()?"@, ";"@);
        },
    }
}

/// Law: a byte vector field with `deplete(n)` writes its first `n` bytes and
/// is read back from the next `n` bytes.
pub proof fn law_vec_bytes_deplete_reads_what_is_written(sname: Seq<char>, fld: FieldDef, fa: AttrsSpec, endian: Endian, n: Seq<char>)
    requires
        fa.2 == Some(n),
    ensures
        has_text(spec_setup_vec(sname, fld, fa, endian, FieldKind::VecBytes).ser_uses_stck, "[.."@ + n + "]"@),
        has_text(spec_setup_vec(sname, fld, fa, endian, FieldKind::VecBytes).ser_uses_heap, "[.."@ + n + "]"@),
        has_text(spec_setup_vec(sname, fld, fa, endian, FieldKind::VecBytes).des_vars, "(("@ + n + ") as usize)"@),
{
    let c = spec_setup_vec(sname, fld, fa, endian, FieldKind::VecBytes);
    let v = var_text(fld.member);
    let m = member_text(fld.member);
    let t = text_of(fld.ty);
    reveal_strlit("])?;");
    reveal_strlit("]");
    reveal_strlit(")?;");
    assert("])?;"@ =~= "]"@ + ")?;"@);
    let p1 = deplete_check(sname, v, m, fa) + "; ser.serialize_bytes_slice(&"@ + v;
    assert(c.ser_uses_stck =~= p1 + ("[.."@ + n + "]"@) + ")?;"@);
    assert(c.ser_uses_heap =~= p1 + ("[.."@ + n + "]"@) + ")?;"@);
    lemma_has_mid(p1, "[.."@ + n + "]"@, ")?;"@);
    reveal_strlit(">((");
    reveal_strlit(">");
    reveal_strlit("((");
    reveal_strlit(") as usize)?.into();");
    reveal_strlit(") as usize)");
    reveal_strlit("?.into();");
    assert(">(("@ =~= ">"@ + "(("@);
    assert(") as usize)?.into();"@ =~= ") as usize)"@ + "?.into();"@);
    let p2 = "let "@ + v + ": "@ + t + " = des.deserialize_take::<"@ + t + ">"@;
    assert(c.des_vars =~= p2 + ("(("@ + n + ") as usize)"@) + "?.into();"@);
    lemma_has_mid(p2, "(("@ + n + ") as usize)"@, "?.into();"@);
}

/// Law: an optional field is read, in the loop over optional fields, when
/// the peeked bytes equal its `eq`; a field without `eq` is refused with a
/// message, one with `eq` is not.
pub proof fn law_option_read_when_peek_equals(sname: Seq<char>, fld: FieldDef, fa: AttrsSpec)
    ensures
        fa.3 matches Some(x) ==> has_text(spec_setup_option(sname, fld, fa).des_peeked, "if __peeked == "@ + x + " {"@),
        fa.3 is Some <==> spec_setup_option(sname, fld, fa).des_errors.len() == 0,
{
    let c = spec_setup_option(sname, fld, fa);
    if let Some(x) = fa.3 {
        reveal_strlit(" { ");
        reveal_strlit(" {");
        reveal_strlit(" ");
        assert(" { "@ =~= " {"@ + " "@);
        let rest = " "@ + var_text(fld.member) + " = Some(des.deserialize()?); continue; }"@;
        assert(c.des_peeked =~= Seq::<char>::empty() + ("if __peeked == "@ + x + " {"@) + rest);
        lemma_has_mid(Seq::empty(), "if __peeked == "@ + x + " {"@, rest);
    }
}

proof fn lemma_has_within(x: Seq<char>, s: Seq<char>, y: Seq<char>, t: Seq<char>)
    requires
        has_text(s, t),
    ensures
        has_text(x + s + y, t),
{
    let i = choose|i: int| 0 <= i && i + t.len() <= s.len() && #[trigger] s.subrange(i, i + t.len()) == t;
    assert((x + s + y).subrange(x.len() + i, x.len() + i + t.len()) =~= s.subrange(i, i + t.len()));
}

proof fn lemma_concat_has_piece(cs: Seq<FldText>, p: Piece, i: int)
    requires
        0 <= i < cs.len(),
        piece(cs[i], p).len() > 0,
    ensures
        has_text(concat_pieces(cs, p), piece(cs[i], p)),
    decreases cs.len(),
{
    let init = cs.drop_last();
    let x = piece(cs.last(), p);
    if i == cs.len() - 1 {
        lemma_has_mid(concat_pieces(init, p), x, " "@);
        assert(concat_pieces(init, p) + x + " "@ =~= concat_pieces(cs, p));
    } else {
        lemma_concat_has_piece(init, p, i);
        assert(init[i] == cs[i]);
        let tail = if x.len() > 0 {
            x + " "@
        } else {
            Seq::empty()
        };
        lemma_has_within(Seq::empty(), concat_pieces(init, p), tail, piece(cs[i], p));
        assert(Seq::<char>::empty() + concat_pieces(init, p) + tail =~= concat_pieces(cs, p));
    }
}

proof fn lemma_sum_has_term(cs: Seq<FldText>, p: Piece, i: int)
    requires
        0 <= i < cs.len(),
        piece(cs[i], p).len() > 0,
    ensures
        has_text(sum_terms(cs, p), piece(cs[i], p)),
    decreases cs.len(),
{
    let init = cs.drop_last();
    let pre = sum_terms(init, p);
    let x = piece(cs.last(), p);
    if i == cs.len() - 1 {
        if pre.len() == 0 {
            lemma_has_mid(Seq::empty(), x, Seq::empty());
            assert(Seq::<char>::empty() + x + Seq::<char>::empty() =~= x);
        } else {
            lemma_has_mid(pre + " + "@, x, Seq::empty());
            assert(pre + " + "@ + x + Seq::<char>::empty() =~= pre + " + "@ + x);
        }
    } else {
        lemma_sum_has_term(init, p, i);
        assert(init[i] == cs[i]);
        if x.len() == 0 {
        } else {
            assert(pre.len() > 0);
            lemma_has_within(Seq::empty(), pre, " + "@ + x, piece(cs[i], p));
            assert(Seq::<char>::empty() + pre + (" + "@ + x) =~= pre + " + "@ + x);
        }
    }
}

/// The piece that writes a field to the stack (`stack`) or the heap.
pub open spec fn uses_piece(stack: bool) -> Piece {
    if stack {
        Piece::SerUsesStck
    } else {
        Piece::SerUsesHeap
    }
}

/// Law: the generated serializer takes, replaces and writes every field:
/// the code of each field for each of the three steps occurs in the impl,
/// and all replacements come before the writes.
pub proof fn law_serialize_impl_writes_every_field(def: StructDef, decl: Seq<char>, alias: Seq<char>, wh: Seq<char>, stack: bool)
    ensures
        spec_serialize_impl(def, decl, alias, wh, stack) matches Ok(t) ==> spec_struct_tokens(def) matches Ok(cs) && (forall|i: int, p: Piece|
            0 <= i < cs.len() && (p == Piece::SerVars || p == Piece::SerRepl || p == uses_piece(stack)) && piece(cs[i], p).len()
                > 0 ==> has_text(t, #[trigger] piece(cs[i], p))) && has_text(
            t,
            concat_pieces(cs, Piece::SerRepl) + concat_pieces(cs, uses_piece(stack)),
        ),
{
    if let Ok(cs) = spec_struct_tokens(def) {
        let t = spec_serialize_impl(def, decl, alias, wh, stack)->Ok_0;
        let head = impl_head_of(def, decl, alias, wh, stack);
        let vars = concat_pieces(cs, Piece::SerVars);
        let repl = concat_pieces(cs, Piece::SerRepl);
        let uses = concat_pieces(cs, uses_piece(stack));
        assert(t =~= head + (vars + repl + uses) + "Ok(()) } }"@);
        assert(t =~= (head + vars) + (repl + uses) + "Ok(()) } }"@);
        lemma_has_mid(head + vars, repl + uses, "Ok(()) } }"@);
        assert forall|i: int, p: Piece|
            0 <= i < cs.len() && (p == Piece::SerVars || p == Piece::SerRepl || p == uses_piece(stack)) && piece(cs[i], p).len()
                > 0 implies has_text(t, #[trigger] piece(cs[i], p)) by {
            lemma_concat_has_piece(cs, p, i);
            if p == Piece::SerVars {
                assert(t =~= head + vars + (repl + uses + "Ok(()) } }"@));
                lemma_has_within(head, vars, repl + uses + "Ok(()) } }"@, piece(cs[i], p));
            } else if p == Piece::SerRepl {
                assert(t =~= (head + vars) + repl + (uses + "Ok(()) } }"@));
                lemma_has_within(head + vars, repl, uses + "Ok(()) } }"@, piece(cs[i], p));
            } else {
                assert(t =~= (head + vars + repl) + uses + "Ok(()) } }"@);
                lemma_has_within(head + vars + repl, uses, "Ok(()) } }"@, piece(cs[i], p));
            }
        }
    }
}

/// The text before the fields' code in a serialization impl.
spec fn impl_head_of(def: StructDef, decl: Seq<char>, alias: Seq<char>, wh: Seq<char>, stack: bool) -> Seq<char> {
    if stack {
        crate::codegen::impls::impl_head(def.name@, decl, alias, wh, "::byteserde::ser_stack::ByteSerializeStack"@)
            + "fn byte_serialize_stack<const CAP: usize>(&self, ser: &mut ::byteserde::ser_stack::ByteSerializerStack<CAP>) -> ::byteserde::error::Result<()> { "@
    } else {
        crate::codegen::impls::impl_head(def.name@, decl, alias, wh, "::byteserde::ser_heap::ByteSerializeHeap"@)
            + "fn byte_serialize_heap(&self, ser: &mut ::byteserde::ser_heap::ByteSerializerHeap) -> ::byteserde::error::Result<()> { "@
    }
}

proof fn lemma_loop_head(peek: Seq<char>, cs: Seq<FldText>)
    ensures
        has_text(peek_loop(peek, cs), "while !des.is_empty() {"@),
        forall|i: int|
            0 <= i < cs.len() && cs[i].des_peeked.len() > 0 ==> has_text(peek_loop(peek, cs), #[trigger] cs[i].des_peeked),
{
    let a = "while !des.is_empty() { let peek = |start, len| -> ::byteserde::error::Result<&[u8]> { let p = des.peek_bytes_slice(len+start)?; Ok(&p[start..]) }; let __peeked = peek("@;
    let a1 = "while !des.is_empty() {"@;
    let a2 = " let peek = |start, len| -> ::byteserde::error::Result<&[u8]> { let p = des.peek_bytes_slice(len+start)?; Ok(&p[start..]) }; let __peeked = peek("@;
    reveal_strlit("while !des.is_empty() { let peek = |start, len| -> ::byteserde::error::Result<&[u8]> { let p = des.peek_bytes_slice(len+start)?; Ok(&p[start..]) }; let __peeked = peek(");
    reveal_strlit("while !des.is_empty() {");
    reveal_strlit(" let peek = |start, len| -> ::byteserde::error::Result<&[u8]> { let p = des.peek_bytes_slice(len+start)?; Ok(&p[start..]) }; let __peeked = peek(");
    assert(a =~= a1 + a2);
    let l = peek_loop(peek, cs);
    let rest = a2 + peek + ")?; "@ + concat_pieces(cs, Piece::DesPeeked) + "} "@;
    assert(l =~= Seq::<char>::empty() + a1 + rest);
    lemma_has_mid(Seq::empty(), a1, rest);
    let pre = a + peek + ")?; "@;
    let peeked = concat_pieces(cs, Piece::DesPeeked);
    assert(l =~= pre + peeked + "} "@);
    assert forall|i: int| 0 <= i < cs.len() && cs[i].des_peeked.len() > 0 implies has_text(l, #[trigger] cs[i].des_peeked) by {
        assert(piece(cs[i], Piece::DesPeeked) == cs[i].des_peeked);
        lemma_concat_has_piece(cs, Piece::DesPeeked, i);
        lemma_has_within(pre, peeked, "} "@, cs[i].des_peeked);
    }
}

proof fn lemma_des_text(h: Seq<char>, vars: Seq<char>, lp: Seq<char>, body: Seq<char>)
    ensures
        has_text(h + vars + lp + "Ok("@ + body + ") } }"@, "Ok("@ + body + ")"@),
        forall|x: Seq<char>| #[trigger] has_text(vars, x) ==> has_text(h + vars + lp + "Ok("@ + body + ") } }"@, x),
        forall|x: Seq<char>| #[trigger] has_text(lp, x) ==> has_text(h + vars + lp + "Ok("@ + body + ") } }"@, x),
        forall|x: Seq<char>| #[trigger] has_text(body, x) ==> has_text(h + vars + lp + "Ok("@ + body + ") } }"@, x),
{
    let t = h + vars + lp + "Ok("@ + body + ") } }"@;
    reveal_strlit(") } }");
    reveal_strlit(")");
    reveal_strlit(" } }");
    assert(") } }"@ =~= ")"@ + " } }"@);
    assert(t =~= (h + vars + lp) + ("Ok("@ + body + ")"@) + " } }"@);
    lemma_has_mid(h + vars + lp, "Ok("@ + body + ")"@, " } }"@);
    assert forall|x: Seq<char>| #[trigger] has_text(vars, x) implies has_text(t, x) by {
        assert(t =~= h + vars + (lp + "Ok("@ + body + ") } }"@));
        lemma_has_within(h, vars, lp + "Ok("@ + body + ") } }"@, x);
    }
    assert forall|x: Seq<char>| #[trigger] has_text(lp, x) implies has_text(t, x) by {
        assert(t =~= (h + vars) + lp + ("Ok("@ + body + ") } }"@));
        lemma_has_within(h + vars, lp, "Ok("@ + body + ") } }"@, x);
    }
    assert forall|x: Seq<char>| #[trigger] has_text(body, x) implies has_text(t, x) by {
        assert(t =~= (h + vars + lp + "Ok("@) + body + ") } }"@);
        lemma_has_within(h + vars + lp + "Ok("@, body, ") } }"@, x);
    }
}

proof fn lemma_body_has_uses(def: StructDef, cs: Seq<FldText>)
    requires
        def.shape == Shape::Named || def.shape == Shape::Tuple,
    ensures
        forall|i: int| 0 <= i < cs.len() && cs[i].des_uses.len() > 0 ==> has_text(des_body(def, cs), #[trigger] cs[i].des_uses),
{
    let uses = concat_pieces(cs, Piece::DesUses);
    let (o, c) = if def.shape == Shape::Named {
        (" { "@, "}"@)
    } else {
        (" ( "@, ")"@)
    };
    assert(des_body(def, cs) =~= (def.name@ + o) + uses + c);
    assert forall|i: int| 0 <= i < cs.len() && cs[i].des_uses.len() > 0 implies has_text(des_body(def, cs), #[trigger] cs[i].des_uses) by {
        assert(piece(cs[i], Piece::DesUses) == cs[i].des_uses);
        lemma_concat_has_piece(cs, Piece::DesUses, i);
        lemma_has_within(def.name@ + o, uses, c, cs[i].des_uses);
    }
}

/// Law: the generated deserializer reads every field, then, when some field
/// is optional, loops over the remaining bytes reading each optional field
/// whose peeked bytes match, and builds the value from what it read: each
/// field's read occurs in the impl, the loop and each field's read in it
/// occur when some field is peeked, and the value is built from every field
/// of a struct with named or unnamed fields.
pub proof fn law_deserialize_impl_reads_every_field(def: StructDef, decl: Seq<char>, alias: Seq<char>, wh: Seq<char>)
    ensures
        spec_deserialize_impl(def, decl, alias, wh) matches Ok(t) ==> spec_struct_tokens(def) matches Ok(cs) && (forall|i: int|
            0 <= i < cs.len() && cs[i].des_vars.len() > 0 ==> has_text(t, #[trigger] cs[i].des_vars)) && has_text(
            t,
            "Ok("@ + des_body(def, cs) + ")"@,
        ) && (peeked_count(cs) > 0 ==> has_text(t, "while !des.is_empty() {"@) && forall|i: int|
            0 <= i < cs.len() && cs[i].des_peeked.len() > 0 ==> has_text(t, #[trigger] cs[i].des_peeked)) && ((def.shape
            == Shape::Named || def.shape == Shape::Tuple) ==> forall|i: int|
            0 <= i < cs.len() && cs[i].des_uses.len() > 0 ==> has_text(t, #[trigger] cs[i].des_uses)),
{
    if let Ok(t) = spec_deserialize_impl(def, decl, alias, wh) {
        let cs = spec_struct_tokens(def)->Ok_0;
        let sa = spec_field_attrs(def.attrs@)->Ok_0;
        let ty = def.name@ + alias;
        let h = "#[automatically_derived] impl"@ + decl + " ::byteserde::des_slice::ByteDeserializeSlice<"@ + ty + "> for "@ + ty
            + " "@ + wh + " { fn byte_deserialize(des: &mut ::byteserde::des_slice::ByteDeserializerSlice) -> ::byteserde::error::Result<"@
            + ty + "> { "@;
        let vars = concat_pieces(cs, Piece::DesVars);
        let pk = match sa.4 {
            Some(x) => x,
            None => Seq::empty(),
        };
        let lp = if peeked_count(cs) > 0 {
            peek_loop(pk, cs)
        } else {
            Seq::empty()
        };
        let body = des_body(def, cs);
        assert(t == h + vars + lp + "Ok("@ + body + ") } }"@);
        lemma_des_text(h, vars, lp, body);
        assert forall|i: int| 0 <= i < cs.len() && cs[i].des_vars.len() > 0 implies has_text(t, #[trigger] cs[i].des_vars) by {
            assert(piece(cs[i], Piece::DesVars) == cs[i].des_vars);
            lemma_concat_has_piece(cs, Piece::DesVars, i);
        }
        if peeked_count(cs) > 0 {
            lemma_loop_head(pk, cs);
        }
        if def.shape == Shape::Named || def.shape == Shape::Tuple {
            lemma_body_has_uses(def, cs);
        }
    }
}

proof fn lemma_sum_empty(cs: Seq<FldText>, p: Piece)
    requires
        forall|i: int| 0 <= i < cs.len() ==> (#[trigger] piece(cs[i], p)).len() == 0,
    ensures
        sum_terms(cs, p).len() == 0,
    decreases cs.len(),
{
    if cs.len() > 0 {
        let init = cs.drop_last();
        assert forall|i: int| 0 <= i < init.len() implies (#[trigger] piece(init[i], p)).len() == 0 by {
            assert(init[i] == cs[i]);
        }
        lemma_sum_empty(init, p);
        assert(piece(cs[cs.len() - 1], p).len() == 0);
    }
}

proof fn lemma_sum_text(h: Seq<char>, f: Seq<char>, cs: Seq<FldText>, p: Piece)
    ensures
        forall|i: int|
            0 <= i < cs.len() && piece(cs[i], p).len() > 0 ==> has_text(
                h + f + "usize { "@ + sum_pieces(cs, p) + " } }"@,
                #[trigger] piece(cs[i], p),
            ),
        (forall|i: int| 0 <= i < cs.len() ==> (#[trigger] piece(cs[i], p)).len() == 0) ==> has_text(
            h + f + "usize { "@ + sum_pieces(cs, p) + " } }"@,
            "usize { 0 }"@,
        ),
{
    let t = h + f + "usize { "@ + sum_pieces(cs, p) + " } }"@;
    assert forall|i: int| 0 <= i < cs.len() && piece(cs[i], p).len() > 0 implies has_text(t, #[trigger] piece(cs[i], p)) by {
        lemma_sum_has_term(cs, p, i);
        assert(sum_terms(cs, p).len() > 0);
        assert(sum_pieces(cs, p) == sum_terms(cs, p));
        lemma_has_within(h + f + "usize { "@, sum_terms(cs, p), " } }"@, piece(cs[i], p));
    }
    if forall|i: int| 0 <= i < cs.len() ==> (#[trigger] piece(cs[i], p)).len() == 0 {
        lemma_sum_empty(cs, p);
        reveal_strlit(" } }");
        reveal_strlit(" }");
        reveal_strlit("usize { ");
        reveal_strlit("0");
        reveal_strlit("usize { 0 }");
        assert(" } }"@ =~= " }"@ + " }"@);
        assert("usize { 0 }"@ =~= "usize { "@ + "0"@ + " }"@);
        assert(t =~= (h + f) + "usize { 0 }"@ + " }"@);
        lemma_has_mid(h + f, "usize { 0 }"@, " }"@);
    }
}

/// Law: the generated size of a struct is the sum of the sizes of all its
/// fields, and its generated length the sum of all their lengths: each
/// field's term occurs in the impl, and a struct whose fields give no term
/// has size or length `0`.
pub proof fn law_size_and_len_impls_sum_every_field(def: StructDef, decl: Seq<char>, alias: Seq<char>, wh: Seq<char>)
    ensures
        spec_size_of_impl(def, decl, alias, wh) matches Ok(t) ==> spec_struct_tokens(def) matches Ok(cs) && (forall|i: int|
            0 <= i < cs.len() && cs[i].size_of.len() > 0 ==> has_text(t, #[trigger] cs[i].size_of)) && ((forall|i: int|
            0 <= i < cs.len() ==> (#[trigger] cs[i].size_of).len() == 0) ==> has_text(t, "usize { 0 }"@)),
        spec_len_of_impl(def, decl, alias, wh) matches Ok(t) ==> spec_struct_tokens(def) matches Ok(cs) && (forall|i: int|
            0 <= i < cs.len() && cs[i].len_of.len() > 0 ==> has_text(t, #[trigger] cs[i].len_of)) && ((forall|i: int|
            0 <= i < cs.len() ==> (#[trigger] cs[i].len_of).len() == 0) ==> has_text(t, "usize { 0 }"@)),
{
    reveal_strlit("fn byte_size() -> usize { ");
    reveal_strlit("fn byte_size() -> ");
    reveal_strlit("fn byte_len(&self) -> usize { ");
    reveal_strlit("fn byte_len(&self) -> ");
    reveal_strlit("usize { ");
    assert("fn byte_size() -> usize { "@ =~= "fn byte_size() -> "@ + "usize { "@);
    assert("fn byte_len(&self) -> usize { "@ =~= "fn byte_len(&self) -> "@ + "usize { "@);
    if let Ok(cs) = spec_struct_tokens(def) {
        let hs = impl_head(def.name@, decl, alias, wh, "::byteserde::size::ByteSerializedSizeOf"@);
        let hl = impl_head(def.name@, decl, alias, wh, "::byteserde::size::ByteSerializedLenOf"@);
        lemma_sum_text(hs, "fn byte_size() -> "@, cs, Piece::SizeOf);
        lemma_sum_text(hl, "fn byte_len(&self) -> "@, cs, Piece::LenOf);
        if let Ok(t) = spec_size_of_impl(def, decl, alias, wh) {
            assert(t =~= hs + "fn byte_size() -> "@ + "usize { "@ + sum_pieces(cs, Piece::SizeOf) + " } }"@);
            assert forall|i: int| 0 <= i < cs.len() && cs[i].size_of.len() > 0 implies has_text(t, #[trigger] cs[i].size_of) by {
                assert(piece(cs[i], Piece::SizeOf) == cs[i].size_of);
            }
            if forall|i: int| 0 <= i < cs.len() ==> (#[trigger] cs[i].size_of).len() == 0 {
                assert forall|i: int| 0 <= i < cs.len() implies (#[trigger] piece(cs[i], Piece::SizeOf)).len() == 0 by {
                    assert(piece(cs[i], Piece::SizeOf) == cs[i].size_of);
                }
            }
        }
        if let Ok(t) = spec_len_of_impl(def, decl, alias, wh) {
            assert(t =~= hl + "fn byte_len(&self) -> "@ + "usize { "@ + sum_pieces(cs, Piece::LenOf) + " } }"@);
            assert forall|i: int| 0 <= i < cs.len() && cs[i].len_of.len() > 0 implies has_text(t, #[trigger] cs[i].len_of) by {
                assert(piece(cs[i], Piece::LenOf) == cs[i].len_of);
            }
            if forall|i: int| 0 <= i < cs.len() ==> (#[trigger] cs[i].len_of).len() == 0 {
                assert forall|i: int| 0 <= i < cs.len() implies (#[trigger] piece(cs[i], Piece::LenOf)).len() == 0 by {
                    assert(piece(cs[i], Piece::LenOf) == cs[i].len_of);
                }
            }
        }
    }
}

} // verus!
