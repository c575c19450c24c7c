//! The code generated for each field of a struct, as source text: how the
//! field is taken from `self`, replaced, written to a stack or heap
//! serializer, read back, and sized; by the field's kind and attributes.
use vstd::prelude::*;
use crate::codegen::model::{
    attrs_view, member_text, text_of, var_text, AttrsSpec, FieldAttrs, FieldDef, FieldKind, Member, TypeDesc,
};
use crate::codegen::struct_shared::{des_endian_method_xx, des_method, ser_endian_method_xx, ser_method, Endian};
use crate::utils::text::{decimal, push_decimal, push_str};

verus! {

/// The code generated for one field, as source text.
pub struct FldCode {
    pub ser_vars: String,
    pub ser_repl: String,
    pub ser_uses_stck: String,
    pub ser_uses_heap: String,
    pub des_vars: String,
    pub des_peeked: String,
    pub des_uses: String,
    pub des_errors: Vec<String>,
    pub size_of: String,
    pub size_errors: Vec<String>,
    pub len_of: String,
}

/// The code generated for one field, as text.
pub struct FldText {
    pub ser_vars: Seq<char>,
    pub ser_repl: Seq<char>,
    pub ser_uses_stck: Seq<char>,
    pub ser_uses_heap: Seq<char>,
    pub des_vars: Seq<char>,
    pub des_peeked: Seq<char>,
    pub des_uses: Seq<char>,
    pub des_errors: Seq<Seq<char>>,
    pub size_of: Seq<char>,
    pub size_errors: Seq<Seq<char>>,
    pub len_of: Seq<char>,
}

/// The texts of some strings.
pub open spec fn texts(v: Seq<String>) -> Seq<Seq<char>> {
    v.map_values(|s: String| s@)
}

impl View for FldCode {
    type V = FldText;

    open spec fn view(&self) -> FldText {
        FldText {
            ser_vars: self.ser_vars@,
            ser_repl: self.ser_repl@,
            ser_uses_stck: self.ser_uses_stck@,
            ser_uses_heap: self.ser_uses_heap@,
            des_vars: self.des_vars@,
            des_peeked: self.des_peeked@,
            des_uses: self.des_uses@,
            des_errors: texts(self.des_errors@),
            size_of: self.size_of@,
            size_errors: texts(self.size_errors@),
            len_of: self.len_of@,
        }
    }
}

/// The text of the element type of an array type.
pub open spec fn arr_elem(t: TypeDesc) -> Seq<char> {
    match t {
        TypeDesc::Array { elem, .. } => text_of(*elem),
        _ => Seq::empty(),
    }
}

/// The text of the length of an array type.
pub open spec fn arr_len(t: TypeDesc) -> Seq<char> {
    match t {
        TypeDesc::Array { len, .. } => len@,
        _ => Seq::empty(),
    }
}

/// The text of the first type argument of a path type.
pub open spec fn arg_text(t: TypeDesc) -> Seq<char> {
    match t {
        TypeDesc::Path { first_arg: Some(b), .. } => text_of(*b),
        _ => Seq::empty(),
    }
}

/// Whether a path type has a first type argument.
pub open spec fn has_first_arg(t: TypeDesc) -> bool {
    t matches TypeDesc::Path { first_arg: Some(_), .. }
}

/// `text` when an expression is given, else nothing.
pub open spec fn when_set(o: Option<Seq<char>>, text: Seq<char>) -> Seq<char> {
    if o is Some {
        text
    } else {
        Seq::empty()
    }
}

/// The given expression, or nothing.
pub open spec fn or_empty(o: Option<Seq<char>>) -> Seq<char> {
    match o {
        Some(x) => x,
        None => Seq::empty(),
    }
}

/// `size_of::<ty>()`, as text.
pub open spec fn size_of_text(ty: Seq<char>) -> Seq<char> {
    "::std::mem::size_of::<"@ + ty + ">()"@
}

/// The code of a byte or numeric field.
pub open spec fn spec_setup_numeric(fld: FieldDef, fa: AttrsSpec, endian: Endian, kind: FieldKind) -> FldText {
    let v = var_text(fld.member);
    let t = text_of(fld.ty);
    let uses = match kind {
        FieldKind::Byte { .. } => "ser.serialize_bytes_slice(&["@ + v + " as u8])?;"@,
        _ => "ser."@ + ser_method(endian) + "("@ + v + ")?;"@,
    };
    FldText {
        ser_vars: "let "@ + v + ": "@ + t + " = self."@ + member_text(fld.member) + ";"@,
        ser_repl: when_set(fa.1, "let "@ + v + " = ("@ + or_empty(fa.1) + ") as "@ + t + ";"@),
        ser_uses_stck: uses,
        ser_uses_heap: uses,
        des_vars: match kind {
            FieldKind::Byte { signed: true } => "let "@ + v + ": "@ + t + " = des.deserialize_i8()?;"@,
            FieldKind::Byte { signed: false } => "let "@ + v + ": "@ + t + " = des.deserialize_u8()?;"@,
            _ => "let "@ + v + ": "@ + t + " = des."@ + des_method(endian) + "()?;"@,
        },
        des_peeked: Seq::empty(),
        des_uses: v + ","@,
        des_errors: Seq::empty(),
        size_of: size_of_text(t),
        size_errors: Seq::empty(),
        len_of: size_of_text(t),
    }
}

/// The serialization of an array field for the stack (`stack`) or the heap.
pub open spec fn array_uses(v: Seq<char>, l: Seq<char>, endian: Endian, kind: FieldKind, stack: bool) -> Seq<char> {
    match kind {
        FieldKind::ArrBytes { signed: false } => "ser.serialize_bytes_slice("@ + v + ")?;"@,
        FieldKind::ArrBytes { signed: true } => "let "@ + v + ": &[u8; "@ + l + "] = unsafe { ::std::mem::transmute("@ + v
            + ") }; ser.serialize_bytes_slice("@ + v + ")?;"@,
        FieldKind::ArrNumerics => "for n in "@ + v + " { ser."@ + ser_method(endian) + "(*n)?; }"@,
        _ => "for n in "@ + v + " { n."@ + serialize_method(stack) + "(ser)?; }"@,
    }
}

/// The name of a value's own serialization method for the stack or the heap.
pub open spec fn serialize_method(stack: bool) -> Seq<char> {
    if stack {
        "byte_serialize_stack"@
    } else {
        "byte_serialize_heap"@
    }
}

/// The code of an array field.
pub open spec fn spec_setup_array(fld: FieldDef, fa: AttrsSpec, endian: Endian, kind: FieldKind) -> FldText {
    let v = var_text(fld.member);
    let m = member_text(fld.member);
    let a = arr_elem(fld.ty);
    let l = arr_len(fld.ty);
    let arr = "["@ + a + "; "@ + l + "]"@;
    FldText {
        ser_vars: "let "@ + v + ": &"@ + arr + " = &self."@ + m + ";"@,
        ser_repl: when_set(fa.1, "let "@ + v + ": &"@ + arr + " = &"@ + or_empty(fa.1) + ";"@),
        ser_uses_stck: array_uses(v, l, endian, kind, true),
        ser_uses_heap: array_uses(v, l, endian, kind, false),
        des_vars: match kind {
            FieldKind::ArrBytes { signed: false } => "let "@ + v + ": "@ + arr + " = *des.deserialize_bytes_array_ref()?;"@,
            FieldKind::ArrBytes { signed: true } => "let "@ + v + ": [u8; "@ + l + "] = *des.deserialize_bytes_array_ref()?; let "@
                + v + ": "@ + arr + " = unsafe { ::std::mem::transmute("@ + v + ") };"@,
            FieldKind::ArrNumerics => "let mut "@ + v + ": "@ + arr + " = [0; "@ + l + "]; for e in "@ + v
                + ".iter_mut() { *e = des."@ + des_method(endian) + "()?; }"@,
            _ => "let mut "@ + v + ": "@ + arr + " = ["@ + a + "::default(); "@ + l + "]; for e in "@ + v
                + ".iter_mut() { *e = des.deserialize()?; }"@,
        },
        des_peeked: Seq::empty(),
        des_uses: v + ","@,
        des_errors: Seq::empty(),
        size_of: if kind is ArrStructs {
            a + "::byte_size() * "@ + l
        } else {
            size_of_text(a) + " * "@ + l
        },
        size_errors: Seq::empty(),
        len_of: if kind is ArrStructs {
            "({ let mut len = 0; for e in self."@ + m + ".iter() { len += e.byte_len(); } len })"@
        } else {
            "("@ + size_of_text(a) + " * "@ + l + ")"@
        },
    }
}

/// The message of a `deplete` larger than the vector it applies to.
pub open spec fn deplete_message(sname: Seq<char>, m: Seq<char>) -> Seq<char> {
    sname + "."@ + m + " field #[byteserde(deplete( .. ))] set higther then length of Vec instance"@
}

/// The message of a struct whose size cannot be known for a vector field.
pub open spec fn vec_size_message(sname: Seq<char>, m: Seq<char>) -> Seq<char> {
    "trait ByteSerializedLenOf can't be implemented for struct "@ + sname + " because it has a member self . "@ + m
        + " of Vec type whose size is not know at compile time"@
}

/// The check, when `deplete` is given, that a vector has that many elements.
pub open spec fn deplete_check(sname: Seq<char>, v: Seq<char>, m: Seq<char>, fa: AttrsSpec) -> Seq<char> {
    when_set(fa.2, "assert!("@ + v + ".len() >= "@ + or_empty(fa.2) + ", \""@ + deplete_message(sname, m) + "\")"@)
}

/// The writing of the elements of a vector field for the stack or the heap.
pub open spec fn vec_write(v: Seq<char>, m: Seq<char>, fa: AttrsSpec, endian: Endian, kind: FieldKind, stack: bool) -> Seq<char> {
    let dl = vec_deplete_len(m, fa);
    match kind {
        FieldKind::VecBytes => "; ser.serialize_bytes_slice(&"@ + v + "[.."@ + dl + "])?;"@,
        FieldKind::VecNumerics => "; for (idx, n) in "@ + v + ".iter().enumerate() { if idx >= "@ + dl + " {break;} ser."@
            + ser_method(endian) + "(*n)?; }"@,
        _ => "; for (idx, n) in "@ + v + ".iter().enumerate() { if idx >= "@ + dl + " {break;} n."@ + serialize_method(stack)
            + "(ser)?; }"@,
    }
}

/// The serialization of a vector field for the stack or the heap: as many
/// elements as `deplete` says, or all of them.
pub open spec fn vec_uses(
    sname: Seq<char>,
    v: Seq<char>,
    m: Seq<char>,
    fa: AttrsSpec,
    endian: Endian,
    kind: FieldKind,
    stack: bool,
) -> Seq<char> {
    deplete_check(sname, v, m, fa) + vec_write(v, m, fa, endian, kind, stack)
}

/// The length of a vector field once serialized, as an expression.
pub open spec fn vec_len_of(fld: FieldDef, fa: AttrsSpec, kind: FieldKind) -> Seq<char> {
    let m = member_text(fld.member);
    let dl = vec_deplete_len(m, fa);
    if kind is VecStructs {
        let src = match fa.1 {
            Some(x) => x,
            None => "self."@ + m,
        };
        "({ let mut len = 0; for (idx, e) in "@ + src + ".iter().enumerate() { if idx >= "@ + dl
            + " {break} len += e.byte_len(); } len })"@
    } else {
        "("@ + size_of_text(arg_text(fld.ty)) + " * "@ + dl + ")"@
    }
}

/// How many elements of a vector field are written.
pub open spec fn vec_deplete_len(m: Seq<char>, fa: AttrsSpec) -> Seq<char> {
    match fa.2 {
        Some(sz) => sz,
        None => "self."@ + m + ".len()"@,
    }
}

/// The reading of a vector field: as many elements as `deplete` says, or
/// all that remain.
pub open spec fn vec_des_vars(v: Seq<char>, t: Seq<char>, fa: AttrsSpec, endian: Endian, kind: FieldKind) -> Seq<char> {
    let read = if kind is VecNumerics {
        "des."@ + des_method(endian) + "()?"@
    } else {
        "des.deserialize()?"@
    };
    match (kind, fa.2) {
        (FieldKind::VecBytes, Some(sz)) => "let "@ + v + ": "@ + t + " = des.deserialize_take::<"@ + t + ">(("@ + sz
            + ") as usize)?.into();"@,
        (FieldKind::VecBytes, None) => "let "@ + v + ": "@ + t + " = des.deserialize_bytes_slice_remaining().into();"@,
        (_, Some(sz)) => "let mut "@ + v + ": "@ + t + " = vec![]; for _ in 0.."@ + sz + " { "@ + v + ".push("@ + read
            + "); }"@,
        (_, None) => "let mut "@ + v + ": "@ + t + " = vec![]; while des.is_empty() == false { "@ + v + ".push("@ + read
            + "); }"@,
    }
}

/// The code of a vector field.
pub open spec fn spec_setup_vec(sname: Seq<char>, fld: FieldDef, fa: AttrsSpec, endian: Endian, kind: FieldKind) -> FldText {
    let v = var_text(fld.member);
    let m = member_text(fld.member);
    let t = text_of(fld.ty);
    let dl = vec_deplete_len(m, fa);
    FldText {
        ser_vars: "let "@ + v + ": &"@ + t + " = &self."@ + m + ";"@,
        ser_repl: when_set(fa.1, "let "@ + v + " = &"@ + or_empty(fa.1) + ";"@),
        ser_uses_stck: vec_uses(sname, v, m, fa, endian, kind, true),
        ser_uses_heap: vec_uses(sname, v, m, fa, endian, kind, false),
        des_vars: vec_des_vars(v, t, fa, endian, kind),
        des_peeked: Seq::empty(),
        des_uses: v + ","@,
        des_errors: Seq::empty(),
        size_of: "0"@,
        size_errors: seq![vec_size_message(sname, m)],
        len_of: vec_len_of(fld, fa, kind),
    }
}

/// The type of a field read as a struct: its own, or its element type for an
/// array taken as a struct.
pub open spec fn struct_ty(fld: FieldDef, kind: FieldKind) -> Seq<char> {
    if kind == (FieldKind::Struct { elem: true }) {
        match fld.ty {
            TypeDesc::Array { elem, .. } => text_of(*elem),
            _ => text_of(fld.ty),
        }
    } else {
        text_of(fld.ty)
    }
}

/// The code of a field that serializes itself.
pub open spec fn spec_setup_struct(fld: FieldDef, fa: AttrsSpec, kind: FieldKind) -> FldText {
    let v = var_text(fld.member);
    let t = struct_ty(fld, kind);
    FldText {
        ser_vars: "let "@ + v + " = &self."@ + member_text(fld.member) + ";"@,
        ser_repl: when_set(fa.1, "let "@ + v + ": &"@ + t + " = &"@ + or_empty(fa.1) + ";"@),
        ser_uses_stck: v + ".byte_serialize_stack(ser)?;"@,
        ser_uses_heap: v + ".byte_serialize_heap(ser)?;"@,
        des_vars: match fa.2 {
            Some(sz) => "let "@ + v + ": "@ + t + " = des.deserialize_take(("@ + sz + ") as usize)?;"@,
            None => "let "@ + v + ": "@ + t + " = des.deserialize()?;"@,
        },
        des_peeked: Seq::empty(),
        des_uses: v + ","@,
        des_errors: Seq::empty(),
        size_of: t + ".byte_size()"@,
        size_errors: Seq::empty(),
        len_of: "self."@ + v + ".byte_len()"@,
    }
}

/// The message of an optional field without `eq`.
pub open spec fn option_eq_message(sname: Seq<char>, m: Seq<char>) -> Seq<char> {
    sname + "."@ + m
        + " is Option<T> type and hence requires `#[byteserde(eq( ... ))] attribute it that evalutes to a byte slice and complared with &[u8] of `#[byteserde(peek( start, len ))]` expression"@
}

/// The serialization of an optional field for the stack or the heap.
pub open spec fn option_uses(v: Seq<char>, stack: bool) -> Seq<char> {
    "match "@ + v + " { Some(v) => v."@ + serialize_method(stack) + "(ser)?, None => {}, }"@
}

/// The code of an optional field, read when the peeked bytes equal its `eq`.
pub open spec fn spec_setup_option(sname: Seq<char>, fld: FieldDef, fa: AttrsSpec) -> FldText {
    let v = var_text(fld.member);
    let m = member_text(fld.member);
    let t = text_of(fld.ty);
    FldText {
        ser_vars: "let "@ + v + ": &"@ + t + " = &self."@ + m + ";"@,
        ser_repl: when_set(fa.1, "let "@ + v + " = &"@ + or_empty(fa.1) + ";"@),
        ser_uses_stck: option_uses(v, true),
        ser_uses_heap: option_uses(v, false),
        des_vars: "let mut "@ + v + ": "@ + t + " = None;"@,
        des_peeked: "if __peeked == "@ + or_empty(fa.3) + " { "@ + v + " = Some(des.deserialize()?); continue; }"@,
        des_uses: v + ","@,
        des_errors: if fa.3 is Some {
            Seq::empty()
        } else {
            seq![option_eq_message(sname, m)]
        },
        size_of: "Option::<"@ + arg_text(fld.ty) + ">::byte_size()"@,
        size_errors: Seq::empty(),
        len_of: "self."@ + v + ".byte_len()"@,
    }
}

/// The code of a field, by its kind.
pub open spec fn spec_setup_field(sname: Seq<char>, fld: FieldDef, fa: AttrsSpec, endian: Endian, kind: FieldKind) -> FldText {
    match kind {
        FieldKind::Byte { .. } | FieldKind::Numeric => spec_setup_numeric(fld, fa, endian, kind),
        FieldKind::ArrBytes { .. } | FieldKind::ArrNumerics | FieldKind::ArrStructs => spec_setup_array(fld, fa, endian, kind),
        FieldKind::VecBytes | FieldKind::VecNumerics | FieldKind::VecStructs => spec_setup_vec(sname, fld, fa, endian, kind),
        FieldKind::OptionStructs => spec_setup_option(sname, fld, fa),
        FieldKind::Struct { .. } => spec_setup_struct(fld, fa, kind),
    }
}

/// The text of a type.
fn type_text(t: &TypeDesc) -> (r: &String)
    ensures
        r@ == text_of(*t),
{
    match t {
        TypeDesc::Path { text, .. } => text,
        TypeDesc::Array { text, .. } => text,
        TypeDesc::Other { text } => text,
    }
}

/// Appends the name by which generated code holds a field.
fn push_var(s: &mut String, m: &Member)
    ensures
        final(s)@ == old(s)@ + var_text(*m),
{
    match m {
        Member::Named(n) => push_str(s, n.as_str()),
        Member::Unnamed(i) => {
            push_str(s, "_");
            push_decimal(s, *i as u128);
        },
    }
}

/// Appends how generated code reaches a field of `self`.
fn push_member(s: &mut String, m: &Member)
    ensures
        final(s)@ == old(s)@ + member_text(*m),
{
    match m {
        Member::Named(n) => push_str(s, n.as_str()),
        Member::Unnamed(i) => push_decimal(s, *i as u128),
    }
}

/// The name by which generated code holds a field.
fn var_string(m: &Member) -> (r: String)
    ensures
        r@ == var_text(*m),
{
    let mut s = String::new();
    push_var(&mut s, m);
    s
}

/// How generated code reaches a field of `self`.
fn member_string(m: &Member) -> (r: String)
    ensures
        r@ == member_text(*m),
{
    let mut s = String::new();
    push_member(&mut s, m);
    s
}

/// Appends the given expression, if any.
fn push_opt(s: &mut String, o: &Option<String>)
    ensures
        final(s)@ == old(s)@ + or_empty(crate::codegen::model::opt_text(*o)),
{
    match o {
        Some(x) => push_str(s, x.as_str()),
        None => {},
    }
}

/// `size_of::<ty>()`, as text.
fn size_of_string(ty: &str) -> (r: String)
    ensures
        r@ == size_of_text(ty@),
{
    let mut s = String::new();
    push_str(&mut s, "::std::mem::size_of::<");
    push_str(&mut s, ty);
    push_str(&mut s, ">()");
    s
}

/// A list of no messages.
fn no_errors() -> (r: Vec<String>)
    ensures
        texts(r@) == Seq::<Seq<char>>::empty(),
{
    let r: Vec<String> = Vec::new();
    assert(texts(r@) =~= Seq::<Seq<char>>::empty());
    r
}

/// A list of one message.
fn one_error(e: String) -> (r: Vec<String>)
    ensures
        texts(r@) == seq![e@],
{
    let mut r: Vec<String> = Vec::new();
    r.push(e);
    assert(texts(r@) =~= seq![e@]);
    r
}

/// The code of a byte or numeric field.
pub fn setup_numeric(fld: &FieldDef, fa: &FieldAttrs, endian: Endian, kind: FieldKind) -> (r: FldCode)
    requires
        kind is Byte || kind is Numeric,
    ensures
        r@ == spec_setup_numeric(*fld, attrs_view(*fa), endian, kind),
{
    let v = var_string(&fld.member);
    let t = type_text(&fld.ty);
    let mut ser_vars = String::new();
    push_str(&mut ser_vars, "let ");
    push_str(&mut ser_vars, v.as_str());
    push_str(&mut ser_vars, ": ");
    push_str(&mut ser_vars, t.as_str());
    push_str(&mut ser_vars, " = self.");
    push_member(&mut ser_vars, &fld.member);
    push_str(&mut ser_vars, ";");
    let mut ser_repl = String::new();
    if fa.replace.is_some() {
        push_str(&mut ser_repl, "let ");
        push_str(&mut ser_repl, v.as_str());
        push_str(&mut ser_repl, " = (");
        push_opt(&mut ser_repl, &fa.replace);
        push_str(&mut ser_repl, ") as ");
        push_str(&mut ser_repl, t.as_str());
        push_str(&mut ser_repl, ";");
    }
    let mut uses = String::new();
    match kind {
        FieldKind::Byte { .. } => {
            push_str(&mut uses, "ser.serialize_bytes_slice(&[");
            push_str(&mut uses, v.as_str());
            push_str(&mut uses, " as u8])?;");
        },
        _ => {
            push_str(&mut uses, "ser.");
            push_str(&mut uses, ser_endian_method_xx(&endian));
            push_str(&mut uses, "(");
            push_str(&mut uses, v.as_str());
            push_str(&mut uses, ")?;");
        },
    }
    let mut des_vars = String::new();
    push_str(&mut des_vars, "let ");
    push_str(&mut des_vars, v.as_str());
    push_str(&mut des_vars, ": ");
    push_str(&mut des_vars, t.as_str());
    match kind {
        FieldKind::Byte { signed: true } => push_str(&mut des_vars, " = des.deserialize_i8()?;"),
        FieldKind::Byte { signed: false } => push_str(&mut des_vars, " = des.deserialize_u8()?;"),
        _ => {
            push_str(&mut des_vars, " = des.");
            push_str(&mut des_vars, des_endian_method_xx(&endian));
            push_str(&mut des_vars, "()?;");
        },
    }
    let mut des_uses = v.clone();
    push_str(&mut des_uses, ",");
    let r = FldCode {
        ser_vars,
        ser_repl,
        ser_uses_stck: uses.clone(),
        ser_uses_heap: uses,
        des_vars,
        des_peeked: String::new(),
        des_uses,
        des_errors: no_errors(),
        size_of: size_of_string(t.as_str()),
        size_errors: no_errors(),
        len_of: size_of_string(t.as_str()),
    };
    assert(r@ =~= spec_setup_numeric(*fld, attrs_view(*fa), endian, kind));
    r
}

/// The element type and length of an array type.
fn array_parts(t: &TypeDesc) -> (r: (&String, &String))
    requires
        *t is Array,
    ensures
        r.0@ == arr_elem(*t),
        r.1@ == arr_len(*t),
{
    match t {
        TypeDesc::Array { elem, len, .. } => (type_text(elem), len),
        _ => {
            assert(false);
            (type_text(t), type_text(t))
        },
    }
}

/// Appends the serialization of an array field for the stack or the heap.
fn push_array_uses(s: &mut String, v: &str, l: &str, endian: Endian, kind: FieldKind, stack: bool)
    ensures
        final(s)@ == old(s)@ + array_uses(v@, l@, endian, kind, stack),
{
    match kind {
        FieldKind::ArrBytes { signed: false } => {
            push_str(s, "ser.serialize_bytes_slice(");
            push_str(s, v);
            push_str(s, ")?;");
        },
        FieldKind::ArrBytes { signed: true } => {
            push_str(s, "let ");
            push_str(s, v);
            push_str(s, ": &[u8; ");
            push_str(s, l);
            push_str(s, "] = unsafe { ::std::mem::transmute(");
            push_str(s, v);
            push_str(s, ") }; ser.serialize_bytes_slice(");
            push_str(s, v);
            push_str(s, ")?;");
        },
        FieldKind::ArrNumerics => {
            push_str(s, "for n in ");
            push_str(s, v);
            push_str(s, " { ser.");
            push_str(s, ser_endian_method_xx(&endian));
            push_str(s, "(*n)?; }");
        },
        _ => {
            push_str(s, "for n in ");
            push_str(s, v);
            push_str(s, " { n.");
            push_str(s, if stack { "byte_serialize_stack" } else { "byte_serialize_heap" });
            push_str(s, "(ser)?; }");
        },
    }
    assert(final(s)@ =~= old(s)@ + array_uses(v@, l@, endian, kind, stack));
}

/// The code of an array field.
pub fn setup_array(fld: &FieldDef, fa: &FieldAttrs, endian: Endian, kind: FieldKind) -> (r: FldCode)
    requires
        kind is ArrBytes || kind is ArrNumerics || kind is ArrStructs,
        fld.ty is Array,
    ensures
        r@ == spec_setup_array(*fld, attrs_view(*fa), endian, kind),
{
    let v = var_string(&fld.member);
    let m = member_string(&fld.member);
    let (a, l) = array_parts(&fld.ty);
    let mut arr = String::new();
    push_str(&mut arr, "[");
    push_str(&mut arr, a.as_str());
    push_str(&mut arr, "; ");
    push_str(&mut arr, l.as_str());
    push_str(&mut arr, "]");
    let mut ser_vars = String::new();
    push_str(&mut ser_vars, "let ");
    push_str(&mut ser_vars, v.as_str());
    push_str(&mut ser_vars, ": &");
    push_str(&mut ser_vars, arr.as_str());
    push_str(&mut ser_vars, " = &self.");
    push_str(&mut ser_vars, m.as_str());
    push_str(&mut ser_vars, ";");
    let mut ser_repl = String::new();
    if fa.replace.is_some() {
        push_str(&mut ser_repl, "let ");
        push_str(&mut ser_repl, v.as_str());
        push_str(&mut ser_repl, ": &");
        push_str(&mut ser_repl, arr.as_str());
        push_str(&mut ser_repl, " = &");
        push_opt(&mut ser_repl, &fa.replace);
        push_str(&mut ser_repl, ";");
    }
    let mut ser_uses_stck = String::new();
    push_array_uses(&mut ser_uses_stck, v.as_str(), l.as_str(), endian, kind, true);
    let mut ser_uses_heap = String::new();
    push_array_uses(&mut ser_uses_heap, v.as_str(), l.as_str(), endian, kind, false);
    let mut des_vars = String::new();
    match kind {
        FieldKind::ArrBytes { signed: false } => {
            push_str(&mut des_vars, "let ");
            push_str(&mut des_vars, v.as_str());
            push_str(&mut des_vars, ": ");
            push_str(&mut des_vars, arr.as_str());
            push_str(&mut des_vars, " = *des.deserialize_bytes_array_ref()?;");
        },
        FieldKind::ArrBytes { signed: true } => {
            push_str(&mut des_vars, "let ");
            push_str(&mut des_vars, v.as_str());
            push_str(&mut des_vars, ": [u8; ");
            push_str(&mut des_vars, l.as_str());
            push_str(&mut des_vars, "] = *des.deserialize_bytes_array_ref()?; let ");
            push_str(&mut des_vars, v.as_str());
            push_str(&mut des_vars, ": ");
            push_str(&mut des_vars, arr.as_str());
            push_str(&mut des_vars, " = unsafe { ::std::mem::transmute(");
            push_str(&mut des_vars, v.as_str());
            push_str(&mut des_vars, ") };");
        },
        FieldKind::ArrNumerics => {
            push_str(&mut des_vars, "let mut ");
            push_str(&mut des_vars, v.as_str());
            push_str(&mut des_vars, ": ");
            push_str(&mut des_vars, arr.as_str());
            push_str(&mut des_vars, " = [0; ");
            push_str(&mut des_vars, l.as_str());
            push_str(&mut des_vars, "]; for e in ");
            push_str(&mut des_vars, v.as_str());
            push_str(&mut des_vars, ".iter_mut() { *e = des.");
            push_str(&mut des_vars, des_endian_method_xx(&endian));
            push_str(&mut des_vars, "()?; }");
        },
        _ => {
            push_str(&mut des_vars, "let mut ");
            push_str(&mut des_vars, v.as_str());
            push_str(&mut des_vars, ": ");
            push_str(&mut des_vars, arr.as_str());
            push_str(&mut des_vars, " = [");
            push_str(&mut des_vars, a.as_str());
            push_str(&mut des_vars, "::default(); ");
            push_str(&mut des_vars, l.as_str());
            push_str(&mut des_vars, "]; for e in ");
            push_str(&mut des_vars, v.as_str());
            push_str(&mut des_vars, ".iter_mut() { *e = des.deserialize()?; }");
        },
    }
    let mut des_uses = v.clone();
    push_str(&mut des_uses, ",");
    let structs = match kind {
        FieldKind::ArrStructs => true,
        _ => false,
    };
    let mut size_of = String::new();
    let mut len_of = String::new();
    if structs {
        push_str(&mut size_of, a.as_str());
        push_str(&mut size_of, "::byte_size() * ");
        push_str(&mut size_of, l.as_str());
        push_str(&mut len_of, "({ let mut len = 0; for e in self.");
        push_str(&mut len_of, m.as_str());
        push_str(&mut len_of, ".iter() { len += e.byte_len(); } len })");
    } else {
        push_str(&mut size_of, size_of_string(a.as_str()).as_str());
        push_str(&mut size_of, " * ");
        push_str(&mut size_of, l.as_str());
        push_str(&mut len_of, "(");
        push_str(&mut len_of, size_of_string(a.as_str()).as_str());
        push_str(&mut len_of, " * ");
        push_str(&mut len_of, l.as_str());
        push_str(&mut len_of, ")");
    }
    let r = FldCode {
        ser_vars,
        ser_repl,
        ser_uses_stck,
        ser_uses_heap,
        des_vars,
        des_peeked: String::new(),
        des_uses,
        des_errors: no_errors(),
        size_of,
        size_errors: no_errors(),
        len_of,
    };
    assert(r@ =~= spec_setup_array(*fld, attrs_view(*fa), endian, kind));
    r
}

/// The text of the first type argument of a path type.
fn first_arg_text(t: &TypeDesc) -> (r: &String)
    requires
        has_first_arg(*t),
    ensures
        r@ == arg_text(*t),
{
    match t {
        TypeDesc::Path { first_arg: Some(b), .. } => type_text(b),
        _ => {
            assert(false);
            type_text(t)
        },
    }
}

/// Appends how many elements of a vector field are written.
fn push_deplete_len(s: &mut String, m: &str, fa: &FieldAttrs)
    ensures
        final(s)@ == old(s)@ + vec_deplete_len(m@, attrs_view(*fa)),
{
    match &fa.deplete {
        Some(sz) => push_str(s, sz.as_str()),
        None => {
            push_str(s, "self.");
            push_str(s, m);
            push_str(s, ".len()");
        },
    }
}

/// Appends the check, when `deplete` is given, that a vector has that many
/// elements.
fn push_deplete_check(s: &mut String, sname: &str, v: &str, m: &str, fa: &FieldAttrs)
    ensures
        final(s)@ == old(s)@ + deplete_check(sname@, v@, m@, attrs_view(*fa)),
{
    if fa.deplete.is_some() {
        push_str(s, "assert!(");
        push_str(s, v);
        push_str(s, ".len() >= ");
        push_opt(s, &fa.deplete);
        push_str(s, ", \"");
        push_str(s, sname);
        push_str(s, ".");
        push_str(s, m);
        push_str(s, " field #[byteserde(deplete( .. ))] set higther then length of Vec instance");
        push_str(s, "\")");
    }
    assert(final(s)@ =~= old(s)@ + deplete_check(sname@, v@, m@, attrs_view(*fa)));
}

/// Appends the writing of the elements of a vector field.
fn push_vec_write(s: &mut String, v: &str, m: &str, fa: &FieldAttrs, endian: Endian, kind: FieldKind, stack: bool)
    ensures
        final(s)@ == old(s)@ + vec_write(v@, m@, attrs_view(*fa), endian, kind, stack),
{
    match kind {
        FieldKind::VecBytes => {
            push_str(s, "; ser.serialize_bytes_slice(&");
            push_str(s, v);
            push_str(s, "[..");
            push_deplete_len(s, m, fa);
            push_str(s, "])?;");
        },
        FieldKind::VecNumerics => {
            push_str(s, "; for (idx, n) in ");
            push_str(s, v);
            push_str(s, ".iter().enumerate() { if idx >= ");
            push_deplete_len(s, m, fa);
            push_str(s, " {break;} ser.");
            push_str(s, ser_endian_method_xx(&endian));
            push_str(s, "(*n)?; }");
        },
        _ => {
            push_str(s, "; for (idx, n) in ");
            push_str(s, v);
            push_str(s, ".iter().enumerate() { if idx >= ");
            push_deplete_len(s, m, fa);
            push_str(s, " {break;} n.");
            push_str(s, if stack { "byte_serialize_stack" } else { "byte_serialize_heap" });
            push_str(s, "(ser)?; }");
        },
    }
    assert(final(s)@ =~= old(s)@ + vec_write(v@, m@, attrs_view(*fa), endian, kind, stack));
}

/// Appends the serialization of a vector field for the stack or the heap.
fn push_vec_uses(s: &mut String, sname: &str, v: &str, m: &str, fa: &FieldAttrs, endian: Endian, kind: FieldKind, stack: bool)
    ensures
        final(s)@ == old(s)@ + vec_uses(sname@, v@, m@, attrs_view(*fa), endian, kind, stack),
{
    push_deplete_check(s, sname, v, m, fa);
    push_vec_write(s, v, m, fa, endian, kind, stack);
    assert(final(s)@ =~= old(s)@ + vec_uses(sname@, v@, m@, attrs_view(*fa), endian, kind, stack));
}

/// The reading of a vector field.
fn vec_des_vars_string(v: &str, t: &str, fa: &FieldAttrs, endian: Endian, kind: FieldKind) -> (r: String)
    ensures
        r@ == vec_des_vars(v@, t@, attrs_view(*fa), endian, kind),
{
    let mut read = String::new();
    match kind {
        FieldKind::VecNumerics => {
            push_str(&mut read, "des.");
            push_str(&mut read, des_endian_method_xx(&endian));
            push_str(&mut read, "()?");
        },
        _ => push_str(&mut read, "des.deserialize()?"),
    }
    let bytes = match kind {
        FieldKind::VecBytes => true,
        _ => false,
    };
    let mut des_vars = String::new();
    if bytes {
        push_str(&mut des_vars, "let ");
        push_str(&mut des_vars, v);
        push_str(&mut des_vars, ": ");
        push_str(&mut des_vars, t);
        match &fa.deplete {
            Some(sz) => {
                push_str(&mut des_vars, " = des.deserialize_take::<");
                push_str(&mut des_vars, t);
                push_str(&mut des_vars, ">((");
                push_str(&mut des_vars, sz.as_str());
                push_str(&mut des_vars, ") as usize)?.into();");
            },
            None => push_str(&mut des_vars, " = des.deserialize_bytes_slice_remaining().into();"),
        }
    } else {
        push_str(&mut des_vars, "let mut ");
        push_str(&mut des_vars, v);
        push_str(&mut des_vars, ": ");
        push_str(&mut des_vars, t);
        match &fa.deplete {
            Some(sz) => {
                push_str(&mut des_vars, " = vec![]; for _ in 0..");
                push_str(&mut des_vars, sz.as_str());
                push_str(&mut des_vars, " { ");
            },
            None => push_str(&mut des_vars, " = vec![]; while des.is_empty() == false { "),
        }
        push_str(&mut des_vars, v);
        push_str(&mut des_vars, ".push(");
        push_str(&mut des_vars, read.as_str());
        push_str(&mut des_vars, "); }");
    }
    assert(des_vars@ =~= vec_des_vars(v@, t@, attrs_view(*fa), endian, kind));
    des_vars
}

/// The length of a vector field once serialized, as an expression.
fn vec_len_of_string(fld: &FieldDef, m: &str, fa: &FieldAttrs, kind: FieldKind) -> (r: String)
    requires
        m@ == member_text(fld.member),
        has_first_arg(fld.ty),
    ensures
        r@ == vec_len_of(*fld, attrs_view(*fa), kind),
{
    let structs = match kind {
        FieldKind::VecStructs => true,
        _ => false,
    };
    let mut len_of = String::new();
    if structs {
        push_str(&mut len_of, "({ let mut len = 0; for (idx, e) in ");
        match &fa.replace {
            Some(x) => push_str(&mut len_of, x.as_str()),
            None => {
                push_str(&mut len_of, "self.");
                push_str(&mut len_of, m);
            },
        }
        push_str(&mut len_of, ".iter().enumerate() { if idx >= ");
        push_deplete_len(&mut len_of, m, fa);
        push_str(&mut len_of, " {break} len += e.byte_len(); } len })");
    } else {
        push_str(&mut len_of, "(");
        push_str(&mut len_of, size_of_string(first_arg_text(&fld.ty).as_str()).as_str());
        push_str(&mut len_of, " * ");
        push_deplete_len(&mut len_of, m, fa);
        push_str(&mut len_of, ")");
    }
    assert(len_of@ =~= vec_len_of(*fld, attrs_view(*fa), kind));
    len_of
}

/// The code of a vector field.
pub fn setup_vec(sname: &String, fld: &FieldDef, fa: &FieldAttrs, endian: Endian, kind: FieldKind) -> (r: FldCode)
    requires
        kind is VecBytes || kind is VecNumerics || kind is VecStructs,
        has_first_arg(fld.ty),
    ensures
        r@ == spec_setup_vec(sname@, *fld, attrs_view(*fa), endian, kind),
{
    let v = var_string(&fld.member);
    let m = member_string(&fld.member);
    let t = type_text(&fld.ty);
    let mut ser_vars = String::new();
    push_str(&mut ser_vars, "let ");
    push_str(&mut ser_vars, v.as_str());
    push_str(&mut ser_vars, ": &");
    push_str(&mut ser_vars, t.as_str());
    push_str(&mut ser_vars, " = &self.");
    push_str(&mut ser_vars, m.as_str());
    push_str(&mut ser_vars, ";");
    let mut ser_repl = String::new();
    if fa.replace.is_some() {
        push_str(&mut ser_repl, "let ");
        push_str(&mut ser_repl, v.as_str());
        push_str(&mut ser_repl, " = &");
        push_opt(&mut ser_repl, &fa.replace);
        push_str(&mut ser_repl, ";");
    }
    let mut ser_uses_stck = String::new();
    push_vec_uses(&mut ser_uses_stck, sname.as_str(), v.as_str(), m.as_str(), fa, endian, kind, true);
    let mut ser_uses_heap = String::new();
    push_vec_uses(&mut ser_uses_heap, sname.as_str(), v.as_str(), m.as_str(), fa, endian, kind, false);
    let des_vars = vec_des_vars_string(v.as_str(), t.as_str(), fa, endian, kind);
    let mut des_uses = v.clone();
    push_str(&mut des_uses, ",");
    let mut size_of = String::new();
    push_str(&mut size_of, "0");
    let mut size_error = String::new();
    push_str(&mut size_error, "trait ByteSerializedLenOf can't be implemented for struct ");
    push_str(&mut size_error, sname.as_str());
    push_str(&mut size_error, " because it has a member self . ");
    push_str(&mut size_error, m.as_str());
    push_str(&mut size_error, " of Vec type whose size is not know at compile time");
    let len_of = vec_len_of_string(fld, m.as_str(), fa, kind);
    let r = FldCode {
        ser_vars,
        ser_repl,
        ser_uses_stck,
        ser_uses_heap,
        des_vars,
        des_peeked: String::new(),
        des_uses,
        des_errors: no_errors(),
        size_of,
        size_errors: one_error(size_error),
        len_of,
    };
    assert(r@ =~= spec_setup_vec(sname@, *fld, attrs_view(*fa), endian, kind));
    r
}

/// The code of a field that serializes itself.
pub fn setup_struct(fld: &FieldDef, fa: &FieldAttrs, kind: FieldKind) -> (r: FldCode)
    requires
        kind is Struct,
    ensures
        r@ == spec_setup_struct(*fld, attrs_view(*fa), kind),
{
    let v = var_string(&fld.member);
    let t = match (kind, &fld.ty) {
        (FieldKind::Struct { elem: true }, TypeDesc::Array { elem, .. }) => type_text(elem),
        _ => type_text(&fld.ty),
    };
    assert(t@ == struct_ty(*fld, kind));
    let mut ser_vars = String::new();
    push_str(&mut ser_vars, "let ");
    push_str(&mut ser_vars, v.as_str());
    push_str(&mut ser_vars, " = &self.");
    push_member(&mut ser_vars, &fld.member);
    push_str(&mut ser_vars, ";");
    let mut ser_repl = String::new();
    if fa.replace.is_some() {
        push_str(&mut ser_repl, "let ");
        push_str(&mut ser_repl, v.as_str());
        push_str(&mut ser_repl, ": &");
        push_str(&mut ser_repl, t.as_str());
        push_str(&mut ser_repl, " = &");
        push_opt(&mut ser_repl, &fa.replace);
        push_str(&mut ser_repl, ";");
    }
    let mut ser_uses_stck = v.clone();
    push_str(&mut ser_uses_stck, ".byte_serialize_stack(ser)?;");
    let mut ser_uses_heap = v.clone();
    push_str(&mut ser_uses_heap, ".byte_serialize_heap(ser)?;");
    let mut des_vars = String::new();
    push_str(&mut des_vars, "let ");
    push_str(&mut des_vars, v.as_str());
    push_str(&mut des_vars, ": ");
    push_str(&mut des_vars, t.as_str());
    match &fa.deplete {
        Some(sz) => {
            push_str(&mut des_vars, " = des.deserialize_take((");
            push_str(&mut des_vars, sz.as_str());
            push_str(&mut des_vars, ") as usize)?;");
        },
        None => push_str(&mut des_vars, " = des.deserialize()?;"),
    }
    let mut des_uses = v.clone();
    push_str(&mut des_uses, ",");
    let mut size_of = t.clone();
    push_str(&mut size_of, ".byte_size()");
    let mut len_of = String::new();
    push_str(&mut len_of, "self.");
    push_str(&mut len_of, v.as_str());
    push_str(&mut len_of, ".byte_len()");
    let r = FldCode {
        ser_vars,
        ser_repl,
        ser_uses_stck,
        ser_uses_heap,
        des_vars,
        des_peeked: String::new(),
        des_uses,
        des_errors: no_errors(),
        size_of,
        size_errors: no_errors(),
        len_of,
    };
    assert(r@ =~= spec_setup_struct(*fld, attrs_view(*fa), kind));
    r
}

/// Appends the serialization of an optional field for the stack or the heap.
fn push_option_uses(s: &mut String, v: &str, stack: bool)
    ensures
        final(s)@ == old(s)@ + option_uses(v@, stack),
{
    push_str(s, "match ");
    push_str(s, v);
    push_str(s, " { Some(v) => v.");
    push_str(s, if stack { "byte_serialize_stack" } else { "byte_serialize_heap" });
    push_str(s, "(ser)?, None => {}, }");
    assert(final(s)@ =~= old(s)@ + option_uses(v@, stack));
}

/// The code of an optional field.
pub fn setup_option(sname: &String, fld: &FieldDef, fa: &FieldAttrs) -> (r: FldCode)
    requires
        has_first_arg(fld.ty),
    ensures
        r@ == spec_setup_option(sname@, *fld, attrs_view(*fa)),
{
    let v = var_string(&fld.member);
    let m = member_string(&fld.member);
    let t = type_text(&fld.ty);
    let mut ser_vars = String::new();
    push_str(&mut ser_vars, "let ");
    push_str(&mut ser_vars, v.as_str());
    push_str(&mut ser_vars, ": &");
    push_str(&mut ser_vars, t.as_str());
    push_str(&mut ser_vars, " = &self.");
    push_str(&mut ser_vars, m.as_str());
    push_str(&mut ser_vars, ";");
    let mut ser_repl = String::new();
    if fa.replace.is_some() {
        push_str(&mut ser_repl, "let ");
        push_str(&mut ser_repl, v.as_str());
        push_str(&mut ser_repl, " = &");
        push_opt(&mut ser_repl, &fa.replace);
        push_str(&mut ser_repl, ";");
    }
    let mut ser_uses_stck = String::new();
    push_option_uses(&mut ser_uses_stck, v.as_str(), true);
    let mut ser_uses_heap = String::new();
    push_option_uses(&mut ser_uses_heap, v.as_str(), false);
    let mut des_vars = String::new();
    push_str(&mut des_vars, "let mut ");
    push_str(&mut des_vars, v.as_str());
    push_str(&mut des_vars, ": ");
    push_str(&mut des_vars, t.as_str());
    push_str(&mut des_vars, " = None;");
    let mut des_peeked = String::new();
    push_str(&mut des_peeked, "if __peeked == ");
    push_opt(&mut des_peeked, &fa.eq);
    push_str(&mut des_peeked, " { ");
    push_str(&mut des_peeked, v.as_str());
    push_str(&mut des_peeked, " = Some(des.deserialize()?); continue; }");
    let mut des_uses = v.clone();
    push_str(&mut des_uses, ",");
    let des_errors = if fa.eq.is_some() {
        no_errors()
    } else {
        let mut e = String::new();
        push_str(&mut e, sname.as_str());
        push_str(&mut e, ".");
        push_str(&mut e, m.as_str());
        push_str(
            &mut e,
            " is Option<T> type and hence requires `#[byteserde(eq( ... ))] attribute it that evalutes to a byte slice and complared with &[u8] of `#[byteserde(peek( start, len ))]` expression",
        );
        one_error(e)
    };
    let mut size_of = String::new();
    push_str(&mut size_of, "Option::<");
    push_str(&mut size_of, first_arg_text(&fld.ty).as_str());
    push_str(&mut size_of, ">::byte_size()");
    let mut len_of = String::new();
    push_str(&mut len_of, "self.");
    push_str(&mut len_of, v.as_str());
    push_str(&mut len_of, ".byte_len()");
    let r = FldCode {
        ser_vars,
        ser_repl,
        ser_uses_stck,
        ser_uses_heap,
        des_vars,
        des_peeked,
        des_uses,
        des_errors,
        size_of,
        size_errors: no_errors(),
        len_of,
    };
    assert(r@ =~= spec_setup_option(sname@, *fld, attrs_view(*fa)));
    r
}

} // verus!
