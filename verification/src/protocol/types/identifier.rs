use crate::protocol::types::error::DatatypeError;
use crate::protocol::types::reader::Reader;
use crate::protocol::types::string::{read_string_bytes, spec_read_string_bytes, utf8_to_string};
use vstd::prelude::*;
use vstd::utf8::{decode_utf8, valid_utf8};

verus! {

/// A namespaced name: the text before the first `:` and the text after it.
#[derive(Debug, Clone)]
pub struct Identifier {
    pub namespace: String,
    pub value: String,
}

/// Mathematical image of an [`Identifier`].
pub struct IdentifierModel {
    pub namespace: Seq<char>,
    pub value: Seq<char>,
}

impl View for Identifier {
    type V = IdentifierModel;

    open spec fn view(&self) -> IdentifierModel {
        IdentifierModel { namespace: self.namespace@, value: self.value@ }
    }
}

/// The least index at which `b` occurs in `s`, if it occurs at all.
pub open spec fn spec_find_byte(s: Seq<u8>, b: u8) -> Option<int>
    decreases s.len(),
{
    if s.len() == 0 {
        None
    } else if s[0] == b {
        Some(0)
    } else {
        match spec_find_byte(s.skip(1), b) {
            Some(i) => Some(i + 1),
            None => None,
        }
    }
}

/// `spec_find_byte` names the first occurrence: nothing before it matches,
/// and it matches; where it names none, nothing matches.
pub proof fn lemma_find_byte(s: Seq<u8>, b: u8)
    ensures
        match spec_find_byte(s, b) {
            Some(i) => 0 <= i < s.len() && s[i] == b && forall|j: int| 0 <= j < i ==> s[j] != b,
            None => forall|j: int| 0 <= j < s.len() ==> s[j] != b,
        },
    decreases s.len(),
{
    if s.len() == 0 {
    } else if s[0] == b {
    } else {
        lemma_find_byte(s.skip(1), b);
        assert forall|j: int| 1 <= j < s.len() implies s[j] == s.skip(1)[j - 1] by {}
        match spec_find_byte(s.skip(1), b) {
            Some(i) => {
                assert forall|j: int| 0 <= j < i + 1 implies s[j] != b by {
                    if j >= 1 {
                        assert(s[j] == s.skip(1)[j - 1]);
                    }
                }
            },
            None => {
                assert forall|j: int| 0 <= j < s.len() implies s[j] != b by {
                    if j >= 1 {
                        assert(s[j] == s.skip(1)[j - 1]);
                    }
                }
            },
        }
    }
}

/// An identifier field: the raw bytes of a string field split at their
/// first `0x3a` byte, each half decoded as UTF-8. In UTF-8 the byte `0x3a`
/// is exactly the character `:`, so this is the decoded string split once
/// at its first `:`; `Invalid` where no `0x3a` occurs or where a half is
/// not valid UTF-8 (the halves are valid exactly when the whole is).
pub open spec fn spec_read_identifier(s: Seq<u8>) -> Result<(IdentifierModel, int), DatatypeError> {
    match spec_read_string_bytes(s) {
        Ok((raw, c)) => match spec_find_byte(raw, 0x3a) {
            Some(i) => {
                let b1 = raw.subrange(0, i);
                let b2 = raw.subrange(i + 1, raw.len() as int);
                if valid_utf8(b1) && valid_utf8(b2) {
                    Ok(
                        (
                            IdentifierModel {
                                namespace: decode_utf8(b1),
                                value: decode_utf8(b2),
                            },
                            c,
                        ),
                    )
                } else {
                    Err(DatatypeError::Invalid)
                }
            },
            None => Err(DatatypeError::Invalid),
        },
        Err(e) => Err(e),
    }
}

/// A successful identifier decode consumes at most the whole input.
pub proof fn lemma_read_identifier_consumed(s: Seq<u8>)
    ensures
        spec_read_identifier(s) is Ok ==> 0 <= spec_read_identifier(s)->Ok_0.1 <= s.len(),
{
    crate::protocol::types::string::lemma_read_string_consumed(s);
}

/// Find the least index at which `b` occurs in `data`, as
/// [`spec_find_byte`] describes.
pub fn find_byte(data: &[u8], b: u8) -> (r: Option<usize>)
    ensures
        match r {
            Some(k) => 0 <= k < data@.len() && data@[k as int] == b && forall|j: int|
                0 <= j < k ==> data@[j] != b,
            None => forall|j: int| 0 <= j < data@.len() ==> data@[j] != b,
        },
{
    let mut i: usize = 0;
    while i < data.len()
        invariant
            i <= data@.len(),
            forall|j: int| 0 <= j < i ==> data@[j] != b,
        decreases data@.len() - i,
    {
        if data[i] == b {
            return Some(i);
        }
        i = i + 1;
    }
    None
}

impl Identifier {
    /// Decode an identifier field, as [`spec_read_identifier`] describes.
    pub fn from_bytes(r: &mut Reader) -> (res: Result<Identifier, DatatypeError>)
        requires
            old(r).wf(),
        ensures
            final(r).wf(),
            final(r).data == old(r).data,
            match spec_read_identifier(old(r).rest()) {
                Ok((v, c)) => res is Ok && res->Ok_0@ == v && final(r).rest() == old(
                    r,
                ).rest().skip(c),
                Err(e) => res == Err::<Identifier, DatatypeError>(e),
            },
    {
        let raw = match read_string_bytes(r) {
            Ok(raw) => raw,
            Err(e) => {
                return Err(e);
            },
        };
        let found = find_byte(raw.as_slice(), 0x3a);
        proof {
            lemma_find_byte(raw@, 0x3a);
        }
        match found {
            Some(k) => {
                let rl = raw.len();
                assert(k < rl);
                let b1 = crate::parser::bytes_range(raw.as_slice(), 0, k);
                let b2 = crate::parser::bytes_range(raw.as_slice(), k + 1, rl);
                let namespace = match utf8_to_string(b1) {
                    Ok(s) => s,
                    Err(e) => {
                        return Err(e);
                    },
                };
                let value = match utf8_to_string(b2) {
                    Ok(s) => s,
                    Err(e) => {
                        return Err(e);
                    },
                };
                Ok(Identifier { namespace, value })
            },
            None => Err(DatatypeError::Invalid),
        }
    }
}

} // verus!
