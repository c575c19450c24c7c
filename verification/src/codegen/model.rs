//! A struct or enum that asks for generated serialization code, as plain
//! values: its shape, its fields' types and its `#[byteserde(..)]` arguments;
//! and how a field's type is classified.
use vstd::prelude::*;
use crate::codegen::struct_shared::Endian;
use crate::utils::text::decimal;

verus! {

/// A field's name, or its position in a tuple struct.
pub enum Member {
    Named(String),
    Unnamed(usize),
}

/// One argument of a `#[byteserde(..)]` attribute: `key(arg)` or `key = "arg"`.
pub struct AttrArg {
    pub key: String,
    pub arg: String,
}

/// A field's type as far as classification looks at it: a path (with
/// whether it has a leading `::`, its segments, whether its first segment has
/// arguments, and its first generic argument when that is a type), an array
/// (its element and length), or any other type; each with its source text.
pub enum TypeDesc {
    Path { leading_colon: bool, segments: Vec<String>, has_args: bool, first_arg: Option<Box<TypeDesc>>, text: String },
    Array { elem: Box<TypeDesc>, len: String, text: String },
    Other { text: String },
}

/// A field of a struct: its member, its type and its attribute arguments.
pub struct FieldDef {
    pub member: Member,
    pub ty: TypeDesc,
    pub attrs: Vec<AttrArg>,
}

/// The shape of the type that asks for generated code.
#[derive(PartialEq, Eq, Structural, Clone, Copy, Debug)]
pub enum Shape {
    Named,
    Tuple,
    Unit,
    Enum,
    Union,
}

/// A variant of an enum: its name, its source text, its shape (named,
/// tuple-like or unit), the source text of its fields' types and its
/// attribute arguments.
pub struct VariantDef {
    pub name: String,
    pub text: String,
    pub shape: Shape,
    pub field_types: Vec<String>,
    pub attrs: Vec<AttrArg>,
}

/// A struct or enum that asks for generated code.
pub struct StructDef {
    pub name: String,
    pub shape: Shape,
    pub attrs: Vec<AttrArg>,
    pub fields: Vec<FieldDef>,
    pub variants: Vec<VariantDef>,
}

/// How a field is serialized, by its type.
#[derive(PartialEq, Eq, Structural, Clone, Copy, Debug)]
pub enum FieldKind {
    /// `u8` or `i8`.
    Byte { signed: bool },
    /// Any other numeric primitive.
    Numeric,
    /// Any other type, serialized by its own impl; `elem` when the field is
    /// an array whose element is taken as the field's type.
    Struct { elem: bool },
    ArrBytes { signed: bool },
    ArrNumerics,
    ArrStructs,
    VecBytes,
    VecNumerics,
    VecStructs,
    OptionStructs,
}

/// The source text of a type.
pub open spec fn text_of(t: TypeDesc) -> Seq<char> {
    match t {
        TypeDesc::Path { text, .. } => text@,
        TypeDesc::Array { text, .. } => text@,
        TypeDesc::Other { text } => text@,
    }
}

/// The name by which generated code holds a field: its own name, or `_`
/// and its position.
pub open spec fn var_text(m: Member) -> Seq<char> {
    match m {
        Member::Named(n) => n@,
        Member::Unnamed(i) => "_"@ + decimal(i as nat),
    }
}

/// How generated code reaches a field of `self`: its name or its position.
pub open spec fn member_text(m: Member) -> Seq<char> {
    match m {
        Member::Named(n) => n@,
        Member::Unnamed(i) => decimal(i as nat),
    }
}

/// Whether the type is the plain single-segment path `name`.
pub open spec fn is_ident(t: TypeDesc, name: Seq<char>) -> bool {
    match t {
        TypeDesc::Path { leading_colon, segments, has_args, .. } => !leading_colon && segments@.len() == 1
            && !has_args && segments@[0]@ == name,
        _ => false,
    }
}

/// Whether the type is a numeric primitive wider than a byte.
pub open spec fn is_wide_numeric(t: TypeDesc) -> bool {
    is_ident(t, "i16"@) || is_ident(t, "u16"@) || is_ident(t, "i32"@) || is_ident(t, "u32"@) || is_ident(t, "i64"@)
        || is_ident(t, "u64"@) || is_ident(t, "i128"@) || is_ident(t, "u128"@) || is_ident(t, "f32"@) || is_ident(
        t,
        "f64"@,
    )
}

/// Whether the type is a path of one segment `name`, whatever its arguments.
pub open spec fn is_single(t: TypeDesc, name: Seq<char>) -> bool {
    match t {
        TypeDesc::Path { segments, .. } => segments@.len() == 1 && segments@[0]@ == name,
        _ => false,
    }
}

/// The message of an `Option` of a byte or numeric.
pub open spec fn option_of_primitive_message() -> Seq<char> {
    "Option of Byte & Numerics are not supported only of other struct types. Ex: Option<SomeStruct>"@
}

/// How a field whose type is a path is serialized: bytes and numerics by
/// name, `Vec` and `Option` by their first type argument when it is a path,
/// anything else as a struct. An `Option` of a byte or numeric is refused.
pub open spec fn path_kind(t: TypeDesc) -> Result<FieldKind, Seq<char>>
    decreases t,
{
    if is_ident(t, "u8"@) {
        Ok(FieldKind::Byte { signed: false })
    } else if is_ident(t, "i8"@) {
        Ok(FieldKind::Byte { signed: true })
    } else if is_wide_numeric(t) {
        Ok(FieldKind::Numeric)
    } else {
        match t {
            TypeDesc::Path { first_arg: Some(inner), .. } => {
                if is_single(t, "Vec"@) && (*inner) is Path {
                    match path_kind(*inner) {
                        Ok(FieldKind::Numeric) => Ok(FieldKind::VecNumerics),
                        Ok(FieldKind::Byte { .. }) => Ok(FieldKind::VecBytes),
                        Ok(_) => Ok(FieldKind::VecStructs),
                        Err(e) => Err(e),
                    }
                } else if is_single(t, "Option"@) && (*inner) is Path {
                    match path_kind(*inner) {
                        Ok(FieldKind::Struct { .. }) => Ok(FieldKind::OptionStructs),
                        Ok(_) => Err(option_of_primitive_message()),
                        Err(e) => Err(e),
                    }
                } else {
                    Ok(FieldKind::Struct { elem: false })
                }
            },
            _ => Ok(FieldKind::Struct { elem: false }),
        }
    }
}

/// How a field is serialized, by its type: a path as [path_kind] says; an
/// array of bytes, numerics or structs element by element, an array of
/// anything else as a struct of its element type; any other type as a struct.
pub open spec fn spec_classify(t: TypeDesc) -> Result<FieldKind, Seq<char>> {
    match t {
        TypeDesc::Path { .. } => path_kind(t),
        TypeDesc::Array { elem, .. } => if (*elem) is Path {
            match path_kind(*elem) {
                Ok(FieldKind::Byte { signed }) => Ok(FieldKind::ArrBytes { signed }),
                Ok(FieldKind::Numeric) => Ok(FieldKind::ArrNumerics),
                Ok(FieldKind::Struct { .. }) => Ok(FieldKind::ArrStructs),
                Ok(_) => Ok(FieldKind::Struct { elem: true }),
                Err(e) => Err(e),
            }
        } else {
            Ok(FieldKind::Struct { elem: true })
        },
        TypeDesc::Other { .. } => Ok(FieldKind::Struct { elem: false }),
    }
}

/// Whether a result of classification is the spec's.
pub open spec fn kind_result_is(r: Result<FieldKind, String>, s: Result<FieldKind, Seq<char>>) -> bool {
    match (r, s) {
        (Ok(k), Ok(j)) => k == j,
        (Err(e), Err(m)) => e@ == m,
        _ => false,
    }
}

/// Whether `s` holds the text `lit`.
fn text_is(s: &String, lit: &str) -> (r: bool)
    ensures
        r == (s@ == lit@),
{
    *s == lit.to_owned()
}

/// Whether the type is the plain single-segment path `name`.
fn is_ident_exec(t: &TypeDesc, name: &str) -> (r: bool)
    ensures
        r == is_ident(*t, name@),
{
    match t {
        TypeDesc::Path { leading_colon, segments, has_args, .. } => !*leading_colon && segments.len() == 1
            && !*has_args && text_is(&segments[0], name),
        _ => false,
    }
}

/// Whether the type is a path of one segment `name`.
fn is_single_exec(t: &TypeDesc, name: &str) -> (r: bool)
    ensures
        r == is_single(*t, name@),
{
    match t {
        TypeDesc::Path { segments, .. } => segments.len() == 1 && text_is(&segments[0], name),
        _ => false,
    }
}

/// How a field whose type is a path is serialized.
fn path_kind_exec(t: &TypeDesc) -> (r: Result<FieldKind, String>)
    ensures
        kind_result_is(r, path_kind(*t)),
    decreases t,
{
    if is_ident_exec(t, "u8") {
        Ok(FieldKind::Byte { signed: false })
    } else if is_ident_exec(t, "i8") {
        Ok(FieldKind::Byte { signed: true })
    } else if is_ident_exec(t, "i16") || is_ident_exec(t, "u16") || is_ident_exec(t, "i32") || is_ident_exec(t, "u32")
        || is_ident_exec(t, "i64") || is_ident_exec(t, "u64") || is_ident_exec(t, "i128") || is_ident_exec(t, "u128")
        || is_ident_exec(t, "f32") || is_ident_exec(t, "f64") {
        Ok(FieldKind::Numeric)
    } else {
        match t {
            TypeDesc::Path { first_arg: Some(inner), .. } => {
                let inner_is_path = match &**inner {
                    TypeDesc::Path { .. } => true,
                    _ => false,
                };
                if is_single_exec(t, "Vec") && inner_is_path {
                    match path_kind_exec(inner) {
                        Ok(FieldKind::Numeric) => Ok(FieldKind::VecNumerics),
                        Ok(FieldKind::Byte { .. }) => Ok(FieldKind::VecBytes),
                        Ok(_) => Ok(FieldKind::VecStructs),
                        Err(e) => Err(e),
                    }
                } else if is_single_exec(t, "Option") && inner_is_path {
                    match path_kind_exec(inner) {
                        Ok(FieldKind::Struct { .. }) => Ok(FieldKind::OptionStructs),
                        Ok(_) => Err(
                            "Option of Byte & Numerics are not supported only of other struct types. Ex: Option<SomeStruct>".to_owned(),
                        ),
                        Err(e) => Err(e),
                    }
                } else {
                    Ok(FieldKind::Struct { elem: false })
                }
            },
            _ => Ok(FieldKind::Struct { elem: false }),
        }
    }
}

/// How a field is serialized, by its type.
pub fn classify_type(t: &TypeDesc) -> (r: Result<FieldKind, String>)
    ensures
        kind_result_is(r, spec_classify(*t)),
{
    match t {
        TypeDesc::Path { .. } => path_kind_exec(t),
        TypeDesc::Array { elem, .. } => {
            let elem_is_path = match &**elem {
                TypeDesc::Path { .. } => true,
                _ => false,
            };
            if elem_is_path {
                match path_kind_exec(elem) {
                    Ok(FieldKind::Byte { signed }) => Ok(FieldKind::ArrBytes { signed }),
                    Ok(FieldKind::Numeric) => Ok(FieldKind::ArrNumerics),
                    Ok(FieldKind::Struct { .. }) => Ok(FieldKind::ArrStructs),
                    Ok(_) => Ok(FieldKind::Struct { elem: true }),
                    Err(e) => Err(e),
                }
            } else {
                Ok(FieldKind::Struct { elem: true })
            }
        },
        TypeDesc::Other { .. } => Ok(FieldKind::Struct { elem: false }),
    }
}

/// The attribute arguments of a field or struct, once read: its byte order,
/// and the expressions of `replace`, `deplete`, `eq` and `peek`.
pub struct FieldAttrs {
    pub endian: Endian,
    pub replace: Option<String>,
    pub deplete: Option<String>,
    pub eq: Option<String>,
    pub peek: Option<String>,
}

/// The text of an optional expression.
pub open spec fn opt_text(o: Option<String>) -> Option<Seq<char>> {
    match o {
        Some(s) => Some(s@),
        None => None,
    }
}

/// Read attribute arguments, as plain values: byte order, then the
/// expressions of `replace`, `deplete`, `eq` and `peek`.
pub type AttrsSpec = (Endian, Option<Seq<char>>, Option<Seq<char>>, Option<Seq<char>>, Option<Seq<char>>);

/// The message of a byte order other than `be`, `le` and `ne`.
pub open spec fn endian_value_message() -> Seq<char> {
    "Expected \"be\", \"le\", or \"ne\""@
}

/// One attribute argument applied to what was read before it.
pub open spec fn attr_step(acc: AttrsSpec, a: AttrArg) -> Result<AttrsSpec, Seq<char>> {
    if a.key@ == "endian"@ {
        if a.arg@ == "be"@ {
            Ok((Endian::Big, acc.1, acc.2, acc.3, acc.4))
        } else if a.arg@ == "le"@ {
            Ok((Endian::Lit, acc.1, acc.2, acc.3, acc.4))
        } else if a.arg@ == "ne"@ {
            Ok((Endian::Native, acc.1, acc.2, acc.3, acc.4))
        } else {
            Err(endian_value_message())
        }
    } else if a.key@ == "replace"@ {
        Ok((acc.0, Some(a.arg@), acc.2, acc.3, acc.4))
    } else if a.key@ == "deplete"@ {
        Ok((acc.0, acc.1, Some(a.arg@), acc.3, acc.4))
    } else if a.key@ == "eq"@ {
        Ok((acc.0, acc.1, acc.2, Some(a.arg@), acc.4))
    } else if a.key@ == "peek"@ {
        Ok((acc.0, acc.1, acc.2, acc.3, Some(a.arg@)))
    } else {
        Err("Unexpected attribute. "@ + a.key@)
    }
}

/// The attribute arguments read in order: a later one of a key overrides an
/// earlier one; the first that is not understood is an error.
pub open spec fn spec_field_attrs(attrs: Seq<AttrArg>) -> Result<AttrsSpec, Seq<char>>
    decreases attrs.len(),
{
    if attrs.len() == 0 {
        Ok((Endian::NotSet, None, None, None, None))
    } else {
        match spec_field_attrs(attrs.drop_last()) {
            Ok(acc) => attr_step(acc, attrs.last()),
            Err(e) => Err(e),
        }
    }
}

/// The read attribute arguments, as plain values.
pub open spec fn attrs_view(a: FieldAttrs) -> AttrsSpec {
    (a.endian, opt_text(a.replace), opt_text(a.deplete), opt_text(a.eq), opt_text(a.peek))
}

/// Whether a result of reading attributes is the spec's.
pub open spec fn attrs_result_is(r: Result<FieldAttrs, String>, s: Result<AttrsSpec, Seq<char>>) -> bool {
    match (r, s) {
        (Ok(a), Ok(b)) => attrs_view(a) == b,
        (Err(e), Err(m)) => e@ == m,
        _ => false,
    }
}

/// Reads the attribute arguments of a field or struct in order.
pub fn parse_field_attrs(attrs: &Vec<AttrArg>) -> (r: Result<FieldAttrs, String>)
    ensures
        attrs_result_is(r, spec_field_attrs(attrs@)),
{
    let mut acc = FieldAttrs { endian: Endian::NotSet, replace: None, deplete: None, eq: None, peek: None };
    let mut i: usize = 0;
    while i < attrs.len()
        invariant
            i <= attrs.len(),
            spec_field_attrs(attrs@.take(i as int)) == Ok::<AttrsSpec, Seq<char>>(attrs_view(acc)),
        decreases attrs.len() - i,
    {
        let a = &attrs[i];
        assert(attrs@.take(i + 1).drop_last() =~= attrs@.take(i as int));
        assert(attrs@.take(i + 1).last() == *a);
        if text_is(&a.key, "endian") {
            if text_is(&a.arg, "be") {
                acc.endian = Endian::Big;
            } else if text_is(&a.arg, "le") {
                acc.endian = Endian::Lit;
            } else if text_is(&a.arg, "ne") {
                acc.endian = Endian::Native;
            } else {
                let e = "Expected \"be\", \"le\", or \"ne\"".to_owned();
                assert(attrs@.take(attrs@.len() as int) =~= attrs@);
                proof {
                    lemma_attrs_err_stays(attrs@, i as int + 1, endian_value_message());
                }
                return Err(e);
            }
        } else if text_is(&a.key, "replace") {
            acc.replace = Some(a.arg.clone());
        } else if text_is(&a.key, "deplete") {
            acc.deplete = Some(a.arg.clone());
        } else if text_is(&a.key, "eq") {
            acc.eq = Some(a.arg.clone());
        } else if text_is(&a.key, "peek") {
            acc.peek = Some(a.arg.clone());
        } else {
            let mut e = "Unexpected attribute. ".to_owned();
            e.append(a.key.as_str());
            assert(attrs@.take(attrs@.len() as int) =~= attrs@);
            proof {
                lemma_attrs_err_stays(attrs@, i as int + 1, "Unexpected attribute. "@ + a.key@);
            }
            return Err(e);
        }
        i = i + 1;
    }
    assert(attrs@.take(attrs@.len() as int) =~= attrs@);
    Ok(acc)
}

/// An error in the first `k` attribute arguments stays the error of all of
/// them.
proof fn lemma_attrs_err_stays(attrs: Seq<AttrArg>, k: int, e: Seq<char>)
    requires
        0 <= k <= attrs.len(),
        spec_field_attrs(attrs.take(k)) == Err::<AttrsSpec, Seq<char>>(e),
    ensures
        spec_field_attrs(attrs) == Err::<AttrsSpec, Seq<char>>(e),
    decreases attrs.len() - k,
{
    if k < attrs.len() {
        assert(attrs.take(k + 1).drop_last() =~= attrs.take(k));
        lemma_attrs_err_stays(attrs, k + 1, e);
    } else {
        assert(attrs.take(k) =~= attrs);
    }
}

} // verus!
