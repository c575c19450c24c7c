//! The impls that the derive macros generate for a definition, as source
//! text: serialization to a stack or heap buffer, deserialization with its
//! loop over optional fields, the size and the length; assembled from the
//! code of each field, with the definition's generics repeated.
use vstd::prelude::*;
use crate::codegen::fields::{FldCode, FldText};
use crate::codegen::model::{attrs_view, parse_field_attrs, spec_field_attrs, Shape, StructDef};
use crate::codegen::tokens::{codes_result_is, codes_view, spec_struct_tokens, struct_tokens, union_message, unit_message};
use crate::codegen::validate::{des_validate, peeked_count, size_validate, spec_des_validate, spec_size_validate};
use crate::utils::text::push_str;

verus! {

/// A piece of a field's code.
#[derive(PartialEq, Eq, Structural, Clone, Copy, Debug)]
pub enum Piece {
    SerVars,
    SerRepl,
    SerUsesStck,
    SerUsesHeap,
    DesVars,
    DesPeeked,
    DesUses,
    SizeOf,
    LenOf,
}

/// The piece `p` of a field's code.
pub open spec fn piece(c: FldText, p: Piece) -> Seq<char> {
    match p {
        Piece::SerVars => c.ser_vars,
        Piece::SerRepl => c.ser_repl,
        Piece::SerUsesStck => c.ser_uses_stck,
        Piece::SerUsesHeap => c.ser_uses_heap,
        Piece::DesVars => c.des_vars,
        Piece::DesPeeked => c.des_peeked,
        Piece::DesUses => c.des_uses,
        Piece::SizeOf => c.size_of,
        Piece::LenOf => c.len_of,
    }
}

/// The non-empty pieces `p` of the fields' code in order, each followed by a
/// space.
pub open spec fn concat_pieces(cs: Seq<FldText>, p: Piece) -> Seq<char>
    decreases cs.len(),
{
    if cs.len() == 0 {
        Seq::empty()
    } else {
        let x = piece(cs.last(), p);
        concat_pieces(cs.drop_last(), p) + if x.len() > 0 {
            x + " "@
        } else {
            Seq::empty()
        }
    }
}

/// The non-empty pieces `p` of the fields' code in order, joined by ` + `.
pub open spec fn sum_terms(cs: Seq<FldText>, p: Piece) -> Seq<char>
    decreases cs.len(),
{
    if cs.len() == 0 {
        Seq::empty()
    } else {
        let pre = sum_terms(cs.drop_last(), p);
        let x = piece(cs.last(), p);
        if x.len() == 0 {
            pre
        } else if pre.len() == 0 {
            x
        } else {
            pre + " + "@ + x
        }
    }
}

/// The sum of the non-empty pieces `p`, or `0` when there is none.
pub open spec fn sum_pieces(cs: Seq<FldText>, p: Piece) -> Seq<char> {
    if sum_terms(cs, p).len() == 0 {
        "0"@
    } else {
        sum_terms(cs, p)
    }
}

/// The head of an impl of `tr` for the definition, with its generics.
pub open spec fn impl_head(name: Seq<char>, decl: Seq<char>, alias: Seq<char>, wh: Seq<char>, tr: Seq<char>) -> Seq<char> {
    "#[automatically_derived] impl"@ + decl + " "@ + tr + " for "@ + name + alias + " "@ + wh + " { "@
}

/// The serialization impl for the stack (`stack`) or the heap: each field
/// taken, then replaced, then written, in order.
pub open spec fn spec_serialize_impl(def: StructDef, decl: Seq<char>, alias: Seq<char>, wh: Seq<char>, stack: bool) -> Result<
    Seq<char>,
    Seq<char>,
> {
    match spec_struct_tokens(def) {
        Err(e) => Err(e),
        Ok(cs) => Ok(
            if stack {
                impl_head(def.name@, decl, alias, wh, "::byteserde::ser_stack::ByteSerializeStack"@)
                    + "fn byte_serialize_stack<const CAP: usize>(&self, ser: &mut ::byteserde::ser_stack::ByteSerializerStack<CAP>) -> ::byteserde::error::Result<()> { "@
                    + concat_pieces(cs, Piece::SerVars) + concat_pieces(cs, Piece::SerRepl) + concat_pieces(
                    cs,
                    Piece::SerUsesStck,
                ) + "Ok(()) } }"@
            } else {
                impl_head(def.name@, decl, alias, wh, "::byteserde::ser_heap::ByteSerializeHeap"@)
                    + "fn byte_serialize_heap(&self, ser: &mut ::byteserde::ser_heap::ByteSerializerHeap) -> ::byteserde::error::Result<()> { "@
                    + concat_pieces(cs, Piece::SerVars) + concat_pieces(cs, Piece::SerRepl) + concat_pieces(
                    cs,
                    Piece::SerUsesHeap,
                ) + "Ok(()) } }"@
            },
        ),
    }
}

/// The loop that reads optional fields while bytes remain: it peeks at the
/// bytes that `peek` names and reads the field whose `eq` they equal.
pub open spec fn peek_loop(peek: Seq<char>, cs: Seq<FldText>) -> Seq<char> {
    "while !des.is_empty() { let peek = |start, len| -> ::byteserde::error::Result<&[u8]> { let p = des.peek_bytes_slice(len+start)?; Ok(&p[start..]) }; let __peeked = peek("@
        + peek + ")?; "@ + concat_pieces(cs, Piece::DesPeeked) + "} "@
}

/// How the deserialized value is built from the fields read, by shape.
pub open spec fn des_body(def: StructDef, cs: Seq<FldText>) -> Seq<char> {
    match def.shape {
        Shape::Named => def.name@ + " { "@ + concat_pieces(cs, Piece::DesUses) + "}"@,
        Shape::Tuple => def.name@ + " ( "@ + concat_pieces(cs, Piece::DesUses) + ")"@,
        _ => def.name@ + "::from( _struct )"@,
    }
}

/// The deserialization impl: refused as the checks of [spec_des_validate]
/// say, with `peek` as the definition's attributes set it; else each field
/// read, then the loop over optional fields when any field is read when
/// peeked, then the value built by shape.
pub open spec fn spec_deserialize_impl(def: StructDef, decl: Seq<char>, alias: Seq<char>, wh: Seq<char>) -> Result<
    Seq<char>,
    Seq<char>,
> {
    match spec_struct_tokens(def) {
        Err(e) => Err(e),
        Ok(cs) => match spec_field_attrs(def.attrs@) {
            Err(e) => Err(e),
            Ok(sa) => match spec_des_validate(def.name@, def.shape, cs, sa.4 is Some) {
                Err(e) => Err(e),
                Ok(_) => {
                    let ty = def.name@ + alias;
                    Ok(
                        "#[automatically_derived] impl"@ + decl + " ::byteserde::des_slice::ByteDeserializeSlice<"@ + ty + "> for "@
                            + ty + " "@ + wh
                            + " { fn byte_deserialize(des: &mut ::byteserde::des_slice::ByteDeserializerSlice) -> ::byteserde::error::Result<"@
                            + ty + "> { "@ + concat_pieces(cs, Piece::DesVars) + (if peeked_count(cs) > 0 {
                            peek_loop(
                                match sa.4 {
                                    Some(x) => x,
                                    None => Seq::empty(),
                                },
                                cs,
                            )
                        } else {
                            Seq::empty()
                        }) + "Ok("@ + des_body(def, cs) + ") } }"@,
                    )
                },
            },
        },
    }
}

/// The size impl: refused as [spec_size_validate] says; else the sum of the
/// fields' sizes, `0` when there is none.
pub open spec fn spec_size_of_impl(def: StructDef, decl: Seq<char>, alias: Seq<char>, wh: Seq<char>) -> Result<
    Seq<char>,
    Seq<char>,
> {
    match spec_struct_tokens(def) {
        Err(e) => Err(e),
        Ok(cs) => match spec_size_validate(def.name@, cs) {
            Err(e) => Err(e),
            Ok(_) => Ok(
                impl_head(def.name@, decl, alias, wh, "::byteserde::size::ByteSerializedSizeOf"@)
                    + "fn byte_size() -> usize { "@ + sum_pieces(cs, Piece::SizeOf) + " } }"@,
            ),
        },
    }
}

/// The length impl: the sum of the fields' lengths, `0` when there is none.
pub open spec fn spec_len_of_impl(def: StructDef, decl: Seq<char>, alias: Seq<char>, wh: Seq<char>) -> Result<
    Seq<char>,
    Seq<char>,
> {
    match spec_struct_tokens(def) {
        Err(e) => Err(e),
        Ok(cs) => Ok(
            impl_head(def.name@, decl, alias, wh, "::byteserde::size::ByteSerializedLenOf"@)
                + "fn byte_len(&self) -> usize { "@ + sum_pieces(cs, Piece::LenOf) + " } }"@,
        ),
    }
}

/// Whether a result of generation is the spec's.
pub open spec fn text_result_is(r: Result<String, String>, s: Result<Seq<char>, Seq<char>>) -> bool {
    match (r, s) {
        (Ok(a), Ok(b)) => a@ == b,
        (Err(e), Err(m)) => e@ == m,
        _ => false,
    }
}

/// The piece `p` of a field's code.
fn piece_of(c: &FldCode, p: Piece) -> (r: &String)
    ensures
        r@ == piece(c@, p),
{
    match p {
        Piece::SerVars => &c.ser_vars,
        Piece::SerRepl => &c.ser_repl,
        Piece::SerUsesStck => &c.ser_uses_stck,
        Piece::SerUsesHeap => &c.ser_uses_heap,
        Piece::DesVars => &c.des_vars,
        Piece::DesPeeked => &c.des_peeked,
        Piece::DesUses => &c.des_uses,
        Piece::SizeOf => &c.size_of,
        Piece::LenOf => &c.len_of,
    }
}

/// Appends the non-empty pieces `p` of the fields' code, each followed by a
/// space.
fn push_pieces(s: &mut String, cs: &Vec<FldCode>, p: Piece)
    ensures
        final(s)@ == old(s)@ + concat_pieces(codes_view(cs@), p),
{
    let ghost cv = codes_view(cs@);
    let ghost start = s@;
    assert(cv.take(0) =~= Seq::<FldText>::empty());
    let mut i: usize = 0;
    while i < cs.len()
        invariant
            i <= cs.len(),
            cv == codes_view(cs@),
            s@ == start + concat_pieces(cv.take(i as int), p),
        decreases cs.len() - i,
    {
        assert(cv.take(i + 1).drop_last() =~= cv.take(i as int));
        assert(cv.take(i + 1).last() == cs@[i as int]@);
        let x = piece_of(&cs[i], p);
        if !x.as_str().is_empty() {
            push_str(s, x.as_str());
            push_str(s, " ");
        }
        assert(s@ =~= start + concat_pieces(cv.take(i + 1), p));
        i = i + 1;
    }
    assert(cv.take(cs.len() as int) =~= cv);
}

/// The sum of the non-empty pieces `p`, or `0` when there is none.
fn sum_of(cs: &Vec<FldCode>, p: Piece) -> (r: String)
    ensures
        r@ == sum_pieces(codes_view(cs@), p),
{
    let ghost cv = codes_view(cs@);
    assert(cv.take(0) =~= Seq::<FldText>::empty());
    let mut s = String::new();
    let mut i: usize = 0;
    while i < cs.len()
        invariant
            i <= cs.len(),
            cv == codes_view(cs@),
            s@ == sum_terms(cv.take(i as int), p),
        decreases cs.len() - i,
    {
        assert(cv.take(i + 1).drop_last() =~= cv.take(i as int));
        assert(cv.take(i + 1).last() == cs@[i as int]@);
        let x = piece_of(&cs[i], p);
        if !x.as_str().is_empty() {
            if !s.as_str().is_empty() {
                push_str(&mut s, " + ");
            }
            push_str(&mut s, x.as_str());
        }
        assert(s@ =~= sum_terms(cv.take(i + 1), p));
        i = i + 1;
    }
    assert(cv.take(cs.len() as int) =~= cv);
    if s.as_str().is_empty() {
        let mut z = String::new();
        push_str(&mut z, "0");
        z
    } else {
        s
    }
}

/// Appends the head of an impl of `tr` for the definition.
fn push_head(s: &mut String, name: &str, generics: &(String, String, String), tr: &str)
    ensures
        final(s)@ == old(s)@ + impl_head(name@, generics.0@, generics.1@, generics.2@, tr@),
{
    push_str(s, "#[automatically_derived] impl");
    push_str(s, generics.0.as_str());
    push_str(s, " ");
    push_str(s, tr);
    push_str(s, " for ");
    push_str(s, name);
    push_str(s, generics.1.as_str());
    push_str(s, " ");
    push_str(s, generics.2.as_str());
    push_str(s, " { ");
    assert(final(s)@ =~= old(s)@ + impl_head(name@, generics.0@, generics.1@, generics.2@, tr@));
}

/// The serialization impl for the stack buffer: each field taken, then
/// replaced, then written, in order; refused as [struct_tokens] refuses.
pub fn serialize_stack_impl(def: &StructDef, generics: &(String, String, String)) -> (r: Result<String, String>)
    ensures
        text_result_is(r, spec_serialize_impl(*def, generics.0@, generics.1@, generics.2@, true)),
{
    let cs = match struct_tokens(def) {
        Ok(c) => c,
        Err(e) => return Err(e),
    };
    let mut s = String::new();
    push_head(&mut s, def.name.as_str(), generics, "::byteserde::ser_stack::ByteSerializeStack");
    push_str(
        &mut s,
        "fn byte_serialize_stack<const CAP: usize>(&self, ser: &mut ::byteserde::ser_stack::ByteSerializerStack<CAP>) -> ::byteserde::error::Result<()> { ",
    );
    push_pieces(&mut s, &cs, Piece::SerVars);
    push_pieces(&mut s, &cs, Piece::SerRepl);
    push_pieces(&mut s, &cs, Piece::SerUsesStck);
    push_str(&mut s, "Ok(()) } }");
    Ok(s)
}

/// The serialization impl for the heap buffer: each field taken, then
/// replaced, then written, in order; refused as [struct_tokens] refuses.
pub fn serialize_heap_impl(def: &StructDef, generics: &(String, String, String)) -> (r: Result<String, String>)
    ensures
        text_result_is(r, spec_serialize_impl(*def, generics.0@, generics.1@, generics.2@, false)),
{
    let cs = match struct_tokens(def) {
        Ok(c) => c,
        Err(e) => return Err(e),
    };
    let mut s = String::new();
    push_head(&mut s, def.name.as_str(), generics, "::byteserde::ser_heap::ByteSerializeHeap");
    push_str(
        &mut s,
        "fn byte_serialize_heap(&self, ser: &mut ::byteserde::ser_heap::ByteSerializerHeap) -> ::byteserde::error::Result<()> { ",
    );
    push_pieces(&mut s, &cs, Piece::SerVars);
    push_pieces(&mut s, &cs, Piece::SerRepl);
    push_pieces(&mut s, &cs, Piece::SerUsesHeap);
    push_str(&mut s, "Ok(()) } }");
    Ok(s)
}

/// The deserialization impl: refused as [struct_tokens] and [des_validate]
/// refuse; else each field read, then, when any field is read when peeked,
/// the loop over optional fields with the definition's `peek`, then the value
/// built by shape.
pub fn deserialize_impl(def: &StructDef, generics: &(String, String, String)) -> (r: Result<String, String>)
    ensures
        text_result_is(r, spec_deserialize_impl(*def, generics.0@, generics.1@, generics.2@)),
{
    let cs = match struct_tokens(def) {
        Ok(c) => c,
        Err(e) => return Err(e),
    };
    let sa = match parse_field_attrs(&def.attrs) {
        Ok(a) => a,
        Err(e) => return Err(e),
    };
    match des_validate(&def.name, def.shape, &cs, sa.peek.is_some()) {
        Ok(()) => {},
        Err(e) => return Err(e),
    }
    let ghost cv = codes_view(cs@);
    let mut ty = def.name.clone();
    push_str(&mut ty, generics.1.as_str());
    let mut s = String::new();
    push_str(&mut s, "#[automatically_derived] impl");
    push_str(&mut s, generics.0.as_str());
    push_str(&mut s, " ::byteserde::des_slice::ByteDeserializeSlice<");
    push_str(&mut s, ty.as_str());
    push_str(&mut s, "> for ");
    push_str(&mut s, ty.as_str());
    push_str(&mut s, " ");
    push_str(&mut s, generics.2.as_str());
    push_str(
        &mut s,
        " { fn byte_deserialize(des: &mut ::byteserde::des_slice::ByteDeserializerSlice) -> ::byteserde::error::Result<",
    );
    push_str(&mut s, ty.as_str());
    push_str(&mut s, "> { ");
    push_pieces(&mut s, &cs, Piece::DesVars);
    let ghost before_loop = s@;
    let mut peeked = String::new();
    push_pieces(&mut peeked, &cs, Piece::DesPeeked);
    if !peeked.as_str().is_empty() {
        push_str(
            &mut s,
            "while !des.is_empty() { let peek = |start, len| -> ::byteserde::error::Result<&[u8]> { let p = des.peek_bytes_slice(len+start)?; Ok(&p[start..]) }; let __peeked = peek(",
        );
        match &sa.peek {
            Some(x) => push_str(&mut s, x.as_str()),
            None => {},
        }
        push_str(&mut s, ")?; ");
        push_str(&mut s, peeked.as_str());
        push_str(&mut s, "} ");
    }
    proof {
        lemma_peeked_pieces(cv);
    }
    let ghost loop_text = s@.skip(before_loop.len() as int);
    let ghost want_loop = if peeked_count(cv) > 0 {
        peek_loop(
            match attrs_view(sa).4 {
                Some(x) => x,
                None => Seq::empty(),
            },
            cv,
        )
    } else {
        Seq::empty()
    };
    assert(s@ =~= before_loop + want_loop);
    let ghost before_body = s@;
    push_str(&mut s, "Ok(");
    match def.shape {
        Shape::Named => {
            push_str(&mut s, def.name.as_str());
            push_str(&mut s, " { ");
            push_pieces(&mut s, &cs, Piece::DesUses);
            push_str(&mut s, "}");
        },
        Shape::Tuple => {
            push_str(&mut s, def.name.as_str());
            push_str(&mut s, " ( ");
            push_pieces(&mut s, &cs, Piece::DesUses);
            push_str(&mut s, ")");
        },
        _ => {
            push_str(&mut s, def.name.as_str());
            push_str(&mut s, "::from( _struct )");
        },
    }
    push_str(&mut s, ") } }");
    assert(s@ =~= before_body + "Ok("@ + des_body(*def, cv) + ") } }"@);
    assert(spec_field_attrs(def.attrs@) == Ok::<crate::codegen::model::AttrsSpec, Seq<char>>(attrs_view(sa)));
    assert(spec_struct_tokens(*def) == Ok::<Seq<FldText>, Seq<char>>(cv));
    Ok(s)
}

/// Some field is read when peeked exactly when the concatenated peek code
/// is not empty.
proof fn lemma_peeked_pieces(cs: Seq<FldText>)
    ensures
        (peeked_count(cs) > 0) == (concat_pieces(cs, Piece::DesPeeked).len() > 0),
    decreases cs.len(),
{
    if cs.len() > 0 {
        lemma_peeked_pieces(cs.drop_last());
    }
}

/// The size impl: refused as [struct_tokens] and [size_validate] refuse;
/// else the sum of the fields' sizes, `0` when there is none.
pub fn size_of_impl(def: &StructDef, generics: &(String, String, String)) -> (r: Result<String, String>)
    ensures
        text_result_is(r, spec_size_of_impl(*def, generics.0@, generics.1@, generics.2@)),
{
    let cs = match struct_tokens(def) {
        Ok(c) => c,
        Err(e) => return Err(e),
    };
    match size_validate(&def.name, &cs) {
        Ok(()) => {},
        Err(e) => return Err(e),
    }
    let mut s = String::new();
    push_head(&mut s, def.name.as_str(), generics, "::byteserde::size::ByteSerializedSizeOf");
    push_str(&mut s, "fn byte_size() -> usize { ");
    push_str(&mut s, sum_of(&cs, Piece::SizeOf).as_str());
    push_str(&mut s, " } }");
    Ok(s)
}

/// The length impl: refused as [struct_tokens] refuses; else the sum of the
/// fields' lengths, `0` when there is none.
pub fn len_of_impl(def: &StructDef, generics: &(String, String, String)) -> (r: Result<String, String>)
    ensures
        text_result_is(r, spec_len_of_impl(*def, generics.0@, generics.1@, generics.2@)),
{
    let cs = match struct_tokens(def) {
        Ok(c) => c,
        Err(e) => return Err(e),
    };
    let mut s = String::new();
    push_head(&mut s, def.name.as_str(), generics, "::byteserde::size::ByteSerializedLenOf");
    push_str(&mut s, "fn byte_len(&self) -> usize { ");
    push_str(&mut s, sum_of(&cs, Piece::LenOf).as_str());
    push_str(&mut s, " } }");
    Ok(s)
}

} // verus!
