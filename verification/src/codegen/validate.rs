//! The checks made on a struct's generated code before its deserializer and
//! size are generated: collated field errors, and the rules on optional
//! fields and `peek`.
use vstd::prelude::*;
use vstd::utf8::encode_utf8;
use crate::codegen::common::{collate_errors, collated};
use crate::codegen::enum_from::{contains_text, text_contains};
use crate::codegen::fields::{FldCode, FldText};
use crate::codegen::model::Shape;
use crate::codegen::tokens::codes_view;
use crate::utils::text::push_str;

verus! {

/// The collated message of some fields' errors, when there is one: the
/// message of `collate_errors`.
pub open spec fn collated_message(errs: Seq<Seq<Seq<char>>>) -> Option<Seq<char>> {
    if encode_utf8(collated(errs)).len() > 1 {
        Some(collated(errs))
    } else {
        None
    }
}

/// The deserialization errors of each field.
pub open spec fn des_errors_of(codes: Seq<FldText>) -> Seq<Seq<Seq<char>>> {
    codes.map_values(|c: FldText| c.des_errors)
}

/// The size errors of each field.
pub open spec fn size_errors_of(codes: Seq<FldText>) -> Seq<Seq<Seq<char>>> {
    codes.map_values(|c: FldText| c.size_errors)
}

/// The number of fields that read their value when peeked.
pub open spec fn peeked_count(codes: Seq<FldText>) -> nat
    decreases codes.len(),
{
    if codes.len() == 0 {
        0
    } else {
        peeked_count(codes.drop_last()) + if codes.last().des_peeked.len() > 0 {
            1nat
        } else {
            0nat
        }
    }
}

/// The number of fields whose reading starts from an empty `Option`.
pub open spec fn option_var_count(codes: Seq<FldText>) -> nat
    decreases codes.len(),
{
    if codes.len() == 0 {
        0
    } else {
        option_var_count(codes.drop_last()) + if codes.last().des_vars.len() > 0 && contains_text(
            codes.last().des_vars,
            "Option"@,
        ) && contains_text(codes.last().des_vars, "None"@) {
            1nat
        } else {
            0nat
        }
    }
}

/// The message of a struct whose fields are read when peeked but which
/// sets no `peek`.
pub open spec fn peek_missing_message(name: Seq<char>) -> Seq<char> {
    "struct `"@ + name
        + "` missing required `#[byteserde(peek( start, len ))]` annotation to be able to identify which optional fields are present in the bytestream"@
}

/// The message of a struct that mixes optional and other fields.
pub open spec fn option_mix_message(name: Seq<char>) -> Seq<char> {
    "struct `"@ + name + "` ByteDeserializeSlice error:\n"@ + "struct `"@ + name
        + "` has a mix of Option<T> and Non Option<T> types, which is not allowed. Consider moving all Option<T> types into a seperate struct"@
}

/// The check of a definition's deserialization: no field errors; fields
/// read when peeked need `peek`; and in a struct, the fields of an optional
/// section are all optional.
pub open spec fn spec_des_validate(name: Seq<char>, shape: Shape, codes: Seq<FldText>, peek_set: bool) -> Result<(), Seq<char>> {
    match collated_message(des_errors_of(codes)) {
        Some(msg) => Err("struct `"@ + name + "` ByteDeserializeSlice error:\n"@ + msg),
        None => {
            let has_peeked = peeked_count(codes) > 0;
            if has_peeked && !peek_set {
                Err(peek_missing_message(name))
            } else if (has_peeked || peek_set) && shape != Shape::Enum && option_var_count(codes) != peeked_count(codes) {
                Err(option_mix_message(name))
            } else {
                Ok(())
            }
        },
    }
}

/// The check of a definition's size: no field size errors.
pub open spec fn spec_size_validate(name: Seq<char>, codes: Seq<FldText>) -> Result<(), Seq<char>> {
    match collated_message(size_errors_of(codes)) {
        Some(msg) => Err("struct `"@ + name + "` ByteSerializedSizeOf error:\n"@ + msg),
        None => Ok(()),
    }
}

/// A copy of some strings.
fn copy_strings(v: &Vec<String>) -> (r: Vec<String>)
    ensures
        r.deep_view() == v.deep_view(),
{
    let mut out: Vec<String> = Vec::new();
    let mut i: usize = 0;
    while i < v.len()
        invariant
            i <= v.len(),
            out@.len() == i,
            forall|k: int| 0 <= k < i ==> #[trigger] out@[k]@ == v@[k]@,
        decreases v.len() - i,
    {
        let s = v[i].clone();
        out.push(s);
        i = i + 1;
    }
    assert(out.deep_view() =~= v.deep_view());
    out
}

/// The deserialization errors (`des`) or size errors of each field.
fn errors_of(codes: &Vec<FldCode>, des: bool) -> (r: Vec<Vec<String>>)
    ensures
        r.deep_view() == if des {
            des_errors_of(codes_view(codes@))
        } else {
            size_errors_of(codes_view(codes@))
        },
{
    let ghost want = if des {
        des_errors_of(codes_view(codes@))
    } else {
        size_errors_of(codes_view(codes@))
    };
    let mut out: Vec<Vec<String>> = Vec::new();
    let mut i: usize = 0;
    while i < codes.len()
        invariant
            i <= codes.len(),
            want == (if des {
                des_errors_of(codes_view(codes@))
            } else {
                size_errors_of(codes_view(codes@))
            }),
            out@.len() == i,
            want.len() == codes@.len(),
            forall|k: int| 0 <= k < i ==> #[trigger] out@[k].deep_view() == want[k],
        decreases codes.len() - i,
    {
        let c = &codes[i];
        let e = if des {
            copy_strings(&c.des_errors)
        } else {
            copy_strings(&c.size_errors)
        };
        assert(e.deep_view() =~= want[i as int]);
        out.push(e);
        i = i + 1;
    }
    assert(out.deep_view() =~= want);
    out
}

/// Counts the fields read when peeked, and those whose reading starts from
/// an empty `Option`.
fn counts(codes: &Vec<FldCode>) -> (r: (usize, usize))
    ensures
        r.0 == peeked_count(codes_view(codes@)),
        r.1 == option_var_count(codes_view(codes@)),
{
    let ghost cv = codes_view(codes@);
    let option_text = "Option".to_owned();
    let none_text = "None".to_owned();
    let mut peeked: usize = 0;
    let mut options: usize = 0;
    let mut i: usize = 0;
    while i < codes.len()
        invariant
            i <= codes.len(),
            cv == codes_view(codes@),
            option_text@ == "Option"@,
            none_text@ == "None"@,
            peeked == peeked_count(cv.take(i as int)),
            options == option_var_count(cv.take(i as int)),
            peeked <= i,
            options <= i,
        decreases codes.len() - i,
    {
        let c = &codes[i];
        assert(cv.take(i + 1).drop_last() =~= cv.take(i as int));
        assert(cv.take(i + 1).last() == c@);
        if !c.des_peeked.as_str().is_empty() {
            peeked = peeked + 1;
        }
        if !c.des_vars.as_str().is_empty() && text_contains(&c.des_vars, &option_text) && text_contains(
            &c.des_vars,
            &none_text,
        ) {
            options = options + 1;
        }
        i = i + 1;
    }
    assert(cv.take(codes.len() as int) =~= cv);
    (peeked, options)
}

/// Checks a definition's generated deserialization before it is used: field
/// errors collated under the struct's name, a missing `peek` where fields are
/// read when peeked, and a struct that mixes optional and other fields.
pub fn des_validate(name: &String, shape: Shape, codes: &Vec<FldCode>, peek_set: bool) -> (r: Result<(), String>)
    ensures
        match (r, spec_des_validate(name@, shape, codes_view(codes@), peek_set)) {
            (Ok(()), Ok(())) => true,
            (Err(e), Err(m)) => e@ == m,
            _ => false,
        },
{
    match collate_errors(errors_of(codes, true)) {
        Some(msg) => {
            let mut e = String::new();
            push_str(&mut e, "struct `");
            push_str(&mut e, name.as_str());
            push_str(&mut e, "` ByteDeserializeSlice error:\n");
            push_str(&mut e, msg.as_str());
            assert(e@ =~= "struct `"@ + name@ + "` ByteDeserializeSlice error:\n"@ + msg@);
            return Err(e);
        },
        None => {},
    }
    let (peeked, options) = counts(codes);
    let has_peeked = peeked > 0;
    if has_peeked && !peek_set {
        let mut e = String::new();
        push_str(&mut e, "struct `");
        push_str(&mut e, name.as_str());
        push_str(
            &mut e,
            "` missing required `#[byteserde(peek( start, len ))]` annotation to be able to identify which optional fields are present in the bytestream",
        );
        assert(e@ =~= peek_missing_message(name@));
        return Err(e);
    }
    if (has_peeked || peek_set) && shape != Shape::Enum && options != peeked {
        let mut e = String::new();
        push_str(&mut e, "struct `");
        push_str(&mut e, name.as_str());
        push_str(&mut e, "` ByteDeserializeSlice error:\n");
        push_str(&mut e, "struct `");
        push_str(&mut e, name.as_str());
        push_str(
            &mut e,
            "` has a mix of Option<T> and Non Option<T> types, which is not allowed. Consider moving all Option<T> types into a seperate struct",
        );
        assert(e@ =~= option_mix_message(name@));
        return Err(e);
    }
    Ok(())
}

/// Checks a definition's generated size before it is used: field size errors
/// collated under the struct's name.
pub fn size_validate(name: &String, codes: &Vec<FldCode>) -> (r: Result<(), String>)
    ensures
        match (r, spec_size_validate(name@, codes_view(codes@))) {
            (Ok(()), Ok(())) => true,
            (Err(e), Err(m)) => e@ == m,
            _ => false,
        },
{
    match collate_errors(errors_of(codes, false)) {
        Some(msg) => {
            let mut e = String::new();
            push_str(&mut e, "struct `");
            push_str(&mut e, name.as_str());
            push_str(&mut e, "` ByteSerializedSizeOf error:\n");
            push_str(&mut e, msg.as_str());
            assert(e@ =~= "struct `"@ + name@ + "` ByteSerializedSizeOf error:\n"@ + msg@);
            Err(e)
        },
        None => Ok(()),
    }
}

} // verus!
