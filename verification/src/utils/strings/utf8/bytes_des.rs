//! Reading `String` and `char` from a `Bytes` cursor, in the same format as
//! from a slice.
use vstd::prelude::*;
use vstd::utf8::{decode_utf8_encode_utf8, encode_utf8};
use crate::des_bytes::{ByteDeserializeBytes, ByteDeserializerBytes};
use crate::des_slice::ByteDeserialized;
use crate::error::Result;
use super::{
    char_body, char_len_message, first_char, invalid_char, invalid_char_len, invalid_char_message, invalid_string,
    invalid_string_message, string_body, string_body_len, string_from_utf8,
};

verus! {

impl ByteDeserializeBytes<String> for String {
    /// Bytes that are not UTF-8 fail with a message that dumps them.
    fn byte_deserialize(des: &mut ByteDeserializerBytes) -> (r: Result<String>)
        ensures
            r matches Err(e) ==> (8 <= old(des).rest().len() && 8 + string_body_len(old(des).rest()) <= old(
                des,
            ).rest().len() ==> e.message@ == invalid_string_message(string_body(old(des).rest()))),
    {
        let _ = des.remaining();
        let ghost rest0 = des.rest();
        let len: usize = des.deserialize_be::<8, usize>()?;
        assert(des.rest() =~= rest0.skip(8));
        let bytes = des.deserialize_bytes_slice(len)?;
        assert(bytes@ =~= string_body(rest0));
        match string_from_utf8(vstd::slice::slice_to_vec(bytes)) {
            Some(s) => Ok(s),
            None => Err(invalid_string(bytes)),
        }
    }
}

impl ByteDeserializeBytes<char> for char {
    /// A count other than one to four fails with a message that names it;
    /// bytes that are not UTF-8 fail with a message that dumps them.
    fn byte_deserialize(des: &mut ByteDeserializerBytes) -> (r: Result<char>)
        ensures
            r matches Err(e) ==> (1 <= old(des).rest().len() && !(1 <= old(des).rest()[0] <= 4) ==> e.message@
                == char_len_message(old(des).rest()[0])),
            r matches Err(e) ==> (1 <= old(des).rest().len() && 1 <= old(des).rest()[0] <= 4 && 1 + old(
                des,
            ).rest()[0] <= old(des).rest().len() ==> e.message@ == invalid_char_message(char_body(old(des).rest()))),
    {
        let _ = des.remaining();
        let ghost rest0 = des.rest();
        let len = des.deserialize_bytes_slice(1)?[0];
        assert(des.rest() =~= rest0.skip(1));
        if !(1 <= len && len <= 4) {
            return Err(invalid_char_len(len));
        }
        let bytes = des.deserialize_bytes_slice(len as usize)?;
        assert(bytes@ =~= char_body(rest0));
        match string_from_utf8(vstd::slice::slice_to_vec(bytes)) {
            Some(s) => {
                proof {
                    decode_utf8_encode_utf8(bytes@);
                    if s@.len() == 0 {
                        assert(encode_utf8(s@) =~= Seq::<u8>::empty());
                    }
                }
                Ok(first_char(&s))
            },
            None => Err(invalid_char(bytes)),
        }
    }
}

} // verus!
