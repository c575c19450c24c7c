use byteserde::codegen::enum_from::enum_from_tokens;
use byteserde::codegen::generics::{get_generics, GenericParam};
use byteserde::codegen::impls::{deserialize_impl, len_of_impl, serialize_heap_impl, serialize_stack_impl, size_of_impl};
use byteserde::codegen::model::{classify_type, parse_field_attrs, AttrArg, FieldDef, FieldKind, Member, Shape, StructDef, TypeDesc, VariantDef};
use byteserde::codegen::struct_shared::Endian;
use byteserde::codegen::tokens::struct_tokens;
use byteserde::codegen::validate::{des_validate, size_validate};

fn path(name: &str) -> TypeDesc {
    TypeDesc::Path { leading_colon: false, segments: vec![name.to_string()], has_args: false, first_arg: None, text: name.to_string() }
}

fn generic(name: &str, arg: TypeDesc) -> TypeDesc {
    let text = format!("{}<{}>", name, type_text(&arg));
    TypeDesc::Path { leading_colon: false, segments: vec![name.to_string()], has_args: true, first_arg: Some(Box::new(arg)), text }
}

fn type_text(t: &TypeDesc) -> String {
    match t {
        TypeDesc::Path { text, .. } | TypeDesc::Array { text, .. } | TypeDesc::Other { text } => text.clone(),
    }
}

fn array(elem: TypeDesc, len: &str) -> TypeDesc {
    let text = format!("[{}; {}]", type_text(&elem), len);
    TypeDesc::Array { elem: Box::new(elem), len: len.to_string(), text }
}

fn attr(key: &str, arg: &str) -> AttrArg {
    AttrArg { key: key.to_string(), arg: arg.to_string() }
}

fn field(name: &str, ty: TypeDesc, attrs: Vec<AttrArg>) -> FieldDef {
    FieldDef { member: Member::Named(name.to_string()), ty, attrs }
}

fn def(name: &str, shape: Shape, attrs: Vec<AttrArg>, fields: Vec<FieldDef>, variants: Vec<VariantDef>) -> StructDef {
    StructDef { name: name.to_string(), shape, attrs, fields, variants }
}

#[test]
fn types_are_classified_by_shape() {
    assert_eq!(classify_type(&path("u8")).unwrap(), FieldKind::Byte { signed: false });
    assert_eq!(classify_type(&path("i8")).unwrap(), FieldKind::Byte { signed: true });
    assert_eq!(classify_type(&path("u32")).unwrap(), FieldKind::Numeric);
    assert_eq!(classify_type(&path("MyStruct")).unwrap(), FieldKind::Struct { elem: false });
    assert_eq!(classify_type(&array(path("u8"), "4")).unwrap(), FieldKind::ArrBytes { signed: false });
    assert_eq!(classify_type(&array(path("u16"), "4")).unwrap(), FieldKind::ArrNumerics);
    assert_eq!(classify_type(&array(path("S"), "4")).unwrap(), FieldKind::ArrStructs);
    assert_eq!(classify_type(&array(generic("Vec", path("u8")), "2")).unwrap(), FieldKind::Struct { elem: true });
    assert_eq!(classify_type(&generic("Vec", path("u8"))).unwrap(), FieldKind::VecBytes);
    assert_eq!(classify_type(&generic("Vec", path("i64"))).unwrap(), FieldKind::VecNumerics);
    assert_eq!(classify_type(&generic("Vec", path("S"))).unwrap(), FieldKind::VecStructs);
    assert_eq!(classify_type(&generic("Option", path("S"))).unwrap(), FieldKind::OptionStructs);
    assert_eq!(
        classify_type(&generic("Option", path("u8"))).unwrap_err(),
        "Option of Byte & Numerics are not supported only of other struct types. Ex: Option<SomeStruct>"
    );
    assert_eq!(classify_type(&TypeDesc::Other { text: "(u8, u8)".to_string() }).unwrap(), FieldKind::Struct { elem: false });
}

#[test]
fn attributes_are_read_in_order() {
    let a = parse_field_attrs(&vec![attr("endian", "be"), attr("replace", "7"), attr("endian", "le")]).unwrap();
    assert_eq!(a.endian, Endian::Lit);
    assert_eq!(a.replace, Some("7".to_string()));
    assert_eq!(a.deplete, None);
    assert_eq!(parse_field_attrs(&vec![attr("endian", "xx")]).err().unwrap(), "Expected \"be\", \"le\", or \"ne\"");
    assert_eq!(parse_field_attrs(&vec![attr("bogus", "1")]).err().unwrap(), "Unexpected attribute. bogus");
}

#[test]
fn struct_fields_get_their_code() {
    let d = def(
        "Msg",
        Shape::Named,
        vec![attr("endian", "be")],
        vec![
            field("a", path("u16"), vec![]),
            field("b", path("u32"), vec![attr("endian", "le")]),
            field("c", path("i8"), vec![]),
            field("d", generic("Vec", path("u8")), vec![attr("deplete", "2")]),
        ],
        vec![],
    );
    let code = struct_tokens(&d).unwrap();
    assert_eq!(code.len(), 4);
    assert_eq!(code[0].ser_vars, "let a: u16 = self.a;");
    assert_eq!(code[0].ser_uses_stck, "ser.serialize_be(a)?;");
    assert_eq!(code[0].des_vars, "let a: u16 = des.deserialize_be()?;");
    assert_eq!(code[0].size_of, "::std::mem::size_of::<u16>()");
    assert_eq!(code[1].ser_uses_heap, "ser.serialize_le(b)?;");
    assert_eq!(code[2].des_vars, "let c: i8 = des.deserialize_i8()?;");
    assert_eq!(code[2].ser_uses_stck, "ser.serialize_bytes_slice(&[c as u8])?;");
    assert_eq!(code[3].des_vars, "let d: Vec<u8> = des.deserialize_take::<Vec<u8>>((2) as usize)?.into();");
    assert_eq!(
        code[3].ser_uses_stck,
        "assert!(d.len() >= 2, \"Msg.d field #[byteserde(deplete( .. ))] set higther then length of Vec instance\"); ser.serialize_bytes_slice(&d[..2])?;"
    );
    assert_eq!(
        code[3].size_errors,
        vec!["trait ByteSerializedLenOf can't be implemented for struct Msg because it has a member self . d of Vec type whose size is not know at compile time".to_string()]
    );
}

#[test]
fn tuple_arrays_and_options_get_their_code() {
    let d = def(
        "T",
        Shape::Tuple,
        vec![],
        vec![
            FieldDef { member: Member::Unnamed(0), ty: array(path("u16"), "3"), attrs: vec![] },
            FieldDef { member: Member::Unnamed(1), ty: generic("Option", path("S")), attrs: vec![attr("eq", "b\"A\"")] },
            FieldDef { member: Member::Unnamed(2), ty: path("S"), attrs: vec![] },
        ],
        vec![],
    );
    let code = struct_tokens(&d).unwrap();
    assert_eq!(code[0].ser_vars, "let _0: &[u16; 3] = &self.0;");
    assert_eq!(code[0].ser_uses_stck, "for n in _0 { ser.serialize_ne(*n)?; }");
    assert_eq!(code[0].size_of, "::std::mem::size_of::<u16>() * 3");
    assert_eq!(code[1].des_peeked, "if __peeked == b\"A\" { _1 = Some(des.deserialize()?); continue; }");
    assert!(code[1].des_errors.is_empty());
    assert_eq!(code[1].size_of, "Option::<S>::byte_size()");
    assert_eq!(code[2].ser_uses_heap, "_2.byte_serialize_heap(ser)?;");
    assert_eq!(code[2].des_vars, "let _2: S = des.deserialize()?;");
}

#[test]
fn option_without_eq_is_an_error_of_the_field() {
    let d = def("O", Shape::Named, vec![], vec![field("x", generic("Option", path("S")), vec![])], vec![]);
    let code = struct_tokens(&d).unwrap();
    assert_eq!(code[0].des_errors.len(), 1);
    assert!(code[0].des_errors[0].starts_with("O.x is Option<T> type and hence requires"));
}

#[test]
fn refused_definitions() {
    assert_eq!(struct_tokens(&def("U", Shape::Unit, vec![], vec![], vec![])).err().unwrap(), "Unit struct type is not supported, found 'U'");
    assert_eq!(
        struct_tokens(&def("X", Shape::Union, vec![], vec![], vec![])).err().unwrap(),
        "Only struct types supported, found 'X' of type 'union'"
    );
    let no_eq = VariantDef { name: "A".to_string(), text: "A(S)".to_string(), shape: Shape::Tuple, field_types: vec!["S".to_string()], attrs: vec![] };
    assert_eq!(
        struct_tokens(&def("E", Shape::Enum, vec![], vec![], vec![no_eq])).err().unwrap(),
        "enum 'E' variant 'A' missing required #[byteserde(eq( ... ))] attribute. It is matched vs #[byteserde(peek(start, len))] to determin deserilization struct."
    );
    let named = VariantDef { name: "B".to_string(), text: "# [byteserde (eq (1))] B { x : u8 }".to_string(), shape: Shape::Named, field_types: vec![], attrs: vec![attr("eq", "1")] };
    assert_eq!(
        struct_tokens(&def("E", Shape::Enum, vec![], vec![], vec![named])).err().unwrap(),
        "enum 'E' has an unsupported variant '# [byteserde (eq (1))] B { x : u8 }'. Only tuple-like style variants are supported"
    );
}

#[test]
fn enum_variants_get_their_code() {
    let v = VariantDef {
        name: "A".to_string(),
        text: "A(S, T)".to_string(),
        shape: Shape::Tuple,
        field_types: vec!["S".to_string(), "T".to_string()],
        attrs: vec![attr("eq", "b\"A\"")],
    };
    let code = struct_tokens(&def("E", Shape::Enum, vec![], vec![], vec![v])).unwrap();
    assert_eq!(code.len(), 2);
    assert_eq!(code[0].des_peeked, "if __peeked == b\"A\" { return Ok( Self::A( S::byte_deserialize(des)?, T::byte_deserialize(des)? ) )}");
    assert_eq!(code[1].ser_uses_stck, "Self::A(_0, _1) => { _0.byte_serialize_stack(ser)?; _1.byte_serialize_stack(ser)?; },");
}

#[test]
fn enum_from_impls() {
    let unit = |n: &str, r: &str| VariantDef { name: n.to_string(), text: n.to_string(), shape: Shape::Unit, field_types: vec![], attrs: vec![attr("replace", r)] };
    let d = def(
        "Side",
        Shape::Enum,
        vec![attr("bind", "Code"), attr("from", "& Side"), attr("from", "Code")],
        vec![],
        vec![unit("Buy", "Code(1)"), unit("Sell", "Code(2)")],
    );
    let impls = enum_from_tokens(&d).unwrap();
    assert_eq!(
        impls[0],
        "#[automatically_derived] impl From<& Side> for Code { fn from(v: & Side) -> Code { match v { Side::Buy => Code(1), Side::Sell => Code(2), } } }"
    );
    assert_eq!(
        impls[1],
        "#[automatically_derived] impl From<Code> for Side { fn from(v: Code) -> Side { match v { Code(1) => Side::Buy, Code(2) => Side::Sell, _ => panic!(\"{:?} is not mapped to enum variant\", v), } } }"
    );
    let no_bind = def("Side", Shape::Enum, vec![attr("from", "Side")], vec![], vec![]);
    assert!(enum_from_tokens(&no_bind).err().unwrap().starts_with("Enum Side needs to be bound"));
    // a bound type whose name holds the enum's maps into the bound type
    let quirk = def("Side", Shape::Enum, vec![attr("bind", "SideCode"), attr("from", "SideCode")], vec![], vec![unit("Buy", "SideCode(1)")]);
    assert_eq!(
        enum_from_tokens(&quirk).unwrap()[0],
        "#[automatically_derived] impl From<SideCode> for SideCode { fn from(v: SideCode) -> SideCode { match v { Side::Buy => SideCode(1), } } }"
    );
    let bad = def("Side", Shape::Enum, vec![attr("bind", "C"), attr("from", "Other")], vec![], vec![]);
    assert!(enum_from_tokens(&bad).err().unwrap().starts_with("`#[byteserde(from(Other))]` needs to match one of"));
    let none = def("Side", Shape::Enum, vec![attr("bind", "C")], vec![], vec![]);
    assert!(enum_from_tokens(&none).err().unwrap().starts_with("Enum Side is missing at least one from attribute"));
}

#[test]
fn validation_of_generated_code() {
    let opt = def("O", Shape::Named, vec![], vec![field("x", generic("Option", path("S")), vec![attr("eq", "1")])], vec![]);
    let code = struct_tokens(&opt).unwrap();
    assert_eq!(des_validate(&"O".to_string(), Shape::Named, &code, true), Ok(()));
    assert_eq!(
        des_validate(&"O".to_string(), Shape::Named, &code, false).unwrap_err(),
        "struct `O` missing required `#[byteserde(peek( start, len ))]` annotation to be able to identify which optional fields are present in the bytestream"
    );
    // the check counts the fields read from an empty `Option` against those
    // read when peeked, so an optional field beside a plain one passes
    let mixed = def(
        "M",
        Shape::Named,
        vec![],
        vec![field("a", path("u8"), vec![]), field("x", generic("Option", path("S")), vec![attr("eq", "1")])],
        vec![],
    );
    let code = struct_tokens(&mixed).unwrap();
    assert_eq!(des_validate(&"M".to_string(), Shape::Named, &code, true), Ok(()));
    let odd = def("M", Shape::Named, vec![], vec![field("a", path("OptionNone"), vec![])], vec![]);
    let code = struct_tokens(&odd).unwrap();
    assert!(des_validate(&"M".to_string(), Shape::Named, &code, true)
        .unwrap_err()
        .ends_with("has a mix of Option<T> and Non Option<T> types, which is not allowed. Consider moving all Option<T> types into a seperate struct"));
    let no_eq = def("N", Shape::Named, vec![], vec![field("x", generic("Option", path("S")), vec![])], vec![]);
    let code = struct_tokens(&no_eq).unwrap();
    assert!(des_validate(&"N".to_string(), Shape::Named, &code, true)
        .unwrap_err()
        .starts_with("struct `N` ByteDeserializeSlice error:\nN.x is Option<T> type"));
    let v = def("V", Shape::Named, vec![], vec![field("v", generic("Vec", path("u8")), vec![])], vec![]);
    let code = struct_tokens(&v).unwrap();
    assert_eq!(
        size_validate(&"V".to_string(), &code).unwrap_err(),
        "struct `V` ByteSerializedSizeOf error:\ntrait ByteSerializedLenOf can't be implemented for struct V because it has a member self . v of Vec type whose size is not know at compile time"
    );
    assert_eq!(size_validate(&"O".to_string(), &struct_tokens(&opt).unwrap()), Ok(()));
}

#[test]
fn generics_are_repeated_for_impls() {
    let none = get_generics(&vec![], &"".to_string(), &"".to_string()).unwrap();
    assert_eq!(none, ("".to_string(), "".to_string(), "".to_string()));
    let two = get_generics(
        &vec![GenericParam::Const("LEN".to_string()), GenericParam::Type("T".to_string())],
        &"< const LEN : usize , T >".to_string(),
        &"where T : Copy".to_string(),
    )
    .unwrap();
    assert_eq!(two.0, "< const LEN : usize , T >");
    assert_eq!(two.1, "<LEN, T>");
    assert_eq!(two.2, "where T : Copy");
    assert_eq!(
        get_generics(&vec![GenericParam::Lifetime], &"< 'a >".to_string(), &"".to_string()).unwrap_err(),
        "not yet implemented: lifetime generics,  not implemented"
    );
}

fn no_generics() -> (String, String, String) {
    (String::new(), String::new(), String::new())
}

#[test]
fn impls_are_assembled_from_field_code() {
    let d = def("P", Shape::Named, vec![], vec![field("a", path("u16"), vec![]), field("b", path("S"), vec![])], vec![]);
    let g = no_generics();
    assert_eq!(
        serialize_stack_impl(&d, &g).unwrap(),
        "#[automatically_derived] impl ::byteserde::ser_stack::ByteSerializeStack for P  { fn byte_serialize_stack<const CAP: usize>(&self, ser: &mut ::byteserde::ser_stack::ByteSerializerStack<CAP>) -> ::byteserde::error::Result<()> { let a: u16 = self.a; let b = &self.b; ser.serialize_ne(a)?; b.byte_serialize_stack(ser)?; Ok(()) } }"
    );
    assert!(serialize_heap_impl(&d, &g).unwrap().contains("b.byte_serialize_heap(ser)?; Ok(()) } }"));
    assert_eq!(
        deserialize_impl(&d, &g).unwrap(),
        "#[automatically_derived] impl ::byteserde::des_slice::ByteDeserializeSlice<P> for P  { fn byte_deserialize(des: &mut ::byteserde::des_slice::ByteDeserializerSlice) -> ::byteserde::error::Result<P> { let a: u16 = des.deserialize_ne()?; let b: S = des.deserialize()?; Ok(P { a, b, }) } }"
    );
    assert!(size_of_impl(&d, &g).unwrap().ends_with("fn byte_size() -> usize { ::std::mem::size_of::<u16>() + S.byte_size() } }"));
    assert!(len_of_impl(&d, &g).unwrap().ends_with("fn byte_len(&self) -> usize { ::std::mem::size_of::<u16>() + self.b.byte_len() } }"));
    let empty = def("Z", Shape::Named, vec![], vec![], vec![]);
    assert!(size_of_impl(&empty, &g).unwrap().ends_with("{ 0 } }"));
    assert!(len_of_impl(&empty, &g).unwrap().ends_with("{ 0 } }"));
    let tuple = def("T", Shape::Tuple, vec![], vec![FieldDef { member: Member::Unnamed(0), ty: path("u8"), attrs: vec![] }], vec![]);
    assert!(deserialize_impl(&tuple, &g).unwrap().ends_with("Ok(T ( _0, )) } }"));
    let gen = ("< const N : usize >".to_string(), "<N>".to_string(), String::new());
    assert!(len_of_impl(&tuple, &gen).unwrap().starts_with("#[automatically_derived] impl< const N : usize > ::byteserde::size::ByteSerializedLenOf for T<N>"));
}

#[test]
fn deserializer_of_optional_fields_loops_over_peeked_bytes() {
    let d = def(
        "O",
        Shape::Named,
        vec![attr("peek", "0, 1")],
        vec![field("x", generic("Option", path("S")), vec![attr("eq", "b\"X\"")])],
        vec![],
    );
    assert_eq!(
        deserialize_impl(&d, &no_generics()).unwrap(),
        "#[automatically_derived] impl ::byteserde::des_slice::ByteDeserializeSlice<O> for O  { fn byte_deserialize(des: &mut ::byteserde::des_slice::ByteDeserializerSlice) -> ::byteserde::error::Result<O> { let mut x: Option<S> = None; while !des.is_empty() { let peek = |start, len| -> ::byteserde::error::Result<&[u8]> { let p = des.peek_bytes_slice(len+start)?; Ok(&p[start..]) }; let __peeked = peek(0, 1)?; if __peeked == b\"X\" { x = Some(des.deserialize()?); continue; } } Ok(O { x, }) } }"
    );
    let no_peek = def("O", Shape::Named, vec![], vec![field("x", generic("Option", path("S")), vec![attr("eq", "1")])], vec![]);
    assert!(deserialize_impl(&no_peek, &no_generics()).unwrap_err().contains("missing required `#[byteserde(peek( start, len ))]`"));
    let v = def("V", Shape::Named, vec![], vec![field("v", generic("Vec", path("u8")), vec![])], vec![]);
    assert!(size_of_impl(&v, &no_generics()).unwrap_err().starts_with("struct `V` ByteSerializedSizeOf error:"));
    let e = VariantDef { name: "A".to_string(), text: "A(S)".to_string(), shape: Shape::Tuple, field_types: vec!["S".to_string()], attrs: vec![attr("eq", "1")] };
    let en = def("E", Shape::Enum, vec![attr("peek", "0, 1")], vec![], vec![e]);
    assert!(deserialize_impl(&en, &no_generics()).unwrap().ends_with("Ok(E::from( _struct )) } }"));
}
