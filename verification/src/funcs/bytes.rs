//! Base64 encoding and decoding.
use vstd::prelude::*;
use vstd::utf8::encode_utf8;
use crate::err::{ea_str, Error};
use crate::eval::data_agrees;
use crate::tdata::{datas_v, lemma_datas_v_index, lemma_datas_v_len, TData, VData};

verus! {

/// The standard base64 text (with padding) that the base64 crate makes of bytes.
pub uninterp spec fn base64_text(b: Seq<u8>) -> Seq<char>;

/// The bytes the base64 crate reads from base64 bytes, `None` when they are not valid base64.
pub uninterp spec fn base64_bytes(b: Seq<u8>) -> Option<Seq<u8>>;

/// `base64::encode`.
///
/// Claims of the base64 crate: the text is a function of the bytes alone.
#[verifier::external_body]
fn encode_b64(b: &[u8]) -> (r: String)
    ensures
        r@ == base64_text(b@),
{
    base64::encode(b)
}

/// `base64::decode`.
///
/// Claims of the base64 crate: the result, and whether there is one, are a function of the
/// input bytes alone.
#[verifier::external_body]
fn decode_b64(b: &[u8]) -> (r: Option<Vec<u8>>)
    ensures
        match base64_bytes(b@) {
            Some(v) => r matches Some(w) && w@ == v,
            None => r is None,
        },
{
    base64::decode(b).ok()
}

/// The bytes of a value: the UTF-8 encoding of a text, or bytes themselves.
pub open spec fn bytes_of(d: VData) -> Option<Seq<u8>> {
    match d {
        VData::String(s) => Some(encode_utf8(s)),
        VData::Bytes(b) => Some(b),
        _ => None,
    }
}

/// `as_base64`: the base64 text of the first argument's bytes.
pub open spec fn as_base64_s(a: Seq<VData>) -> Result<VData, ()> {
    if a.len() == 0 {
        Err(())
    } else {
        match bytes_of(a[0]) {
            Some(b) => Ok(VData::String(base64_text(b))),
            None => Err(()),
        }
    }
}

/// `from_base64`: the bytes the first argument's base64 stands for.
pub open spec fn from_base64_s(a: Seq<VData>) -> Result<VData, ()> {
    if a.len() == 0 {
        Err(())
    } else {
        match bytes_of(a[0]) {
            Some(b) => match base64_bytes(b) {
                Some(v) => Ok(VData::Bytes(v)),
                None => Err(()),
            },
            None => Err(()),
        }
    }
}

/// The base64 text of a text's or bytes' bytes.
pub fn as_base64(l: &[TData]) -> (r: Result<TData, Error>)
    ensures
        data_agrees(r, as_base64_s(datas_v(l@))),
{
    proof { lemma_datas_v_len(l@); }
    if l.len() == 0 {
        return Err(ea_str("needs 1 arg"));
    }
    proof { lemma_datas_v_index(l@, 0); }
    match &l[0] {
        TData::String(s) => Ok(TData::String(encode_b64(s.as_str().as_bytes()))),
        TData::Bytes(b) => Ok(TData::String(encode_b64(b.as_slice()))),
        _ => Err(ea_str("as_base64 requires 1 string or bytes")),
    }
}

/// The bytes a base64 text (or base64 bytes) stands for.
pub fn from_base64(l: &[TData]) -> (r: Result<TData, Error>)
    ensures
        data_agrees(r, from_base64_s(datas_v(l@))),
{
    proof { lemma_datas_v_len(l@); }
    if l.len() == 0 {
        return Err(ea_str("needs 1 arg"));
    }
    proof { lemma_datas_v_index(l@, 0); }
    let d = match &l[0] {
        TData::String(s) => decode_b64(s.as_str().as_bytes()),
        TData::Bytes(b) => decode_b64(b.as_slice()),
        _ => { return Err(ea_str("from_base64 requires 1 string or bytes")); },
    };
    match d {
        Some(v) => Ok(TData::Bytes(v)),
        None => Err(ea_str("Invalid base64")),
    }
}

} // verus!
