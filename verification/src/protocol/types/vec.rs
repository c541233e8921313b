//! Length-prefixed homogeneous lists: a variable-length integer count, then
//! that many elements, each decoded in turn.

use crate::protocol::types::error::DatatypeError;
use crate::protocol::types::identifier::{
    lemma_read_identifier_consumed, spec_read_identifier, Identifier, IdentifierModel,
};
use crate::protocol::types::known_pack::{
    lemma_read_known_pack_consumed, spec_read_known_pack, KnownPack, KnownPackModel,
};
use crate::protocol::types::player_property::{
    lemma_read_player_property_consumed, spec_read_player_property, PlayerProperty,
    PlayerPropertyModel,
};
use crate::protocol::types::reader::Reader;
use crate::protocol::types::var_num::{lemma_varint_consumed, spec_varint, VarInt};
use vstd::prelude::*;

verus! {

/// The images of a sequence of decoded known-pack entries.
pub open spec fn known_packs_view(v: Seq<KnownPack>) -> Seq<KnownPackModel> {
    Seq::new(v.len(), |i: int| v[i]@)
}

/// The images of a sequence of decoded identifiers.
pub open spec fn identifiers_view(v: Seq<Identifier>) -> Seq<IdentifierModel> {
    Seq::new(v.len(), |i: int| v[i]@)
}

/// The images of a sequence of decoded profile properties.
pub open spec fn player_properties_view(v: Seq<PlayerProperty>) -> Seq<PlayerPropertyModel> {
    Seq::new(v.len(), |i: int| v[i]@)
}

/// Exactly `n` consecutive known-pack fields.
pub open spec fn spec_read_known_pack_list_n(s: Seq<u8>, n: nat) -> Result<
    (Seq<KnownPackModel>, int),
    DatatypeError,
>
    decreases n,
{
    if n == 0 {
        Ok((Seq::empty(), 0))
    } else {
        match spec_read_known_pack(s) {
            Ok((v, c)) => match spec_read_known_pack_list_n(s.skip(c), (n - 1) as nat) {
                Ok((vs, c2)) => Ok((seq![v] + vs, c + c2)),
                Err(e) => Err(e),
            },
            Err(e) => Err(e),
        }
    }
}

/// A known-packs list field: a count, then that many known-pack fields. A
/// negative count reads as the matching unsigned 64-bit value, which no
/// input can satisfy in practice.
pub open spec fn spec_read_known_pack_list(s: Seq<u8>) -> Result<
    (Seq<KnownPackModel>, int),
    DatatypeError,
> {
    match spec_varint(s) {
        Ok((v, c)) => match spec_read_known_pack_list_n(s.skip(c), (v as usize) as nat) {
            Ok((vs, c2)) => Ok((vs, c + c2)),
            Err(e) => Err(e),
        },
        Err(e) => Err(e),
    }
}

/// Decode a known-packs list field, as [`spec_read_known_pack_list`]
/// describes.
pub fn read_known_pack_list(r: &mut Reader) -> (res: Result<Vec<KnownPack>, DatatypeError>)
    requires
        old(r).wf(),
    ensures
        final(r).wf(),
        final(r).data == old(r).data,
        match spec_read_known_pack_list(old(r).rest()) {
            Ok((vs, c)) => res is Ok && known_packs_view(res->Ok_0@) == vs && final(r).rest()
                == old(r).rest().skip(c),
            Err(e) => res is Err && res->Err_0 == e,
        },
{
    let ghost s0 = old(r).rest();
    let vi = match VarInt::from_bytes(r) {
        Ok(vi) => vi,
        Err(e) => {
            return Err(e);
        },
    };
    let ghost c0 = spec_varint(s0)->Ok_0.1;
    proof {
        lemma_varint_consumed(s0);
    }
    let ghost s1 = r.rest();
    let n = #[verifier::truncate] (vi.value as usize);
    let mut out: Vec<KnownPack> = Vec::new();
    let ghost mut cc: int = 0;
    let mut i: usize = 0;
    proof {
        assert(s1.skip(0) =~= s1);
        assert(known_packs_view(out@) =~= Seq::<KnownPackModel>::empty());
    }
    while i < n
        invariant
            r.wf(),
            r.data == old(r).data,
            i <= n,
            0 <= cc <= s1.len(),
            r.rest() == s1.skip(cc),
            s0 == old(r).rest(),
            s1 == s0.skip(c0),
            0 <= c0 <= s0.len(),
            spec_varint(s0) == Ok::<(i32, int), DatatypeError>((vi.value, c0)),
            n == (vi.value as usize),
            match spec_read_known_pack_list_n(r.rest(), (n - i) as nat) {
                Ok((vs, c2)) => spec_read_known_pack_list_n(s1, n as nat)
                    == Ok::<(Seq<KnownPackModel>, int), DatatypeError>(
                    (known_packs_view(out@) + vs, cc + c2),
                ),
                Err(e) => spec_read_known_pack_list_n(s1, n as nat) == Err::<
                    (Seq<KnownPackModel>, int),
                    DatatypeError,
                >(e),
            },
        decreases n - i,
    {
        let ghost rest_old = r.rest();
        let ghost out_old = out@;
        let kp = match KnownPack::from_bytes(r) {
            Ok(kp) => kp,
            Err(e) => {
                proof {
                    assert(spec_read_known_pack_list_n(rest_old, (n - i) as nat) == Err::<
                        (Seq<KnownPackModel>, int),
                        DatatypeError,
                    >(e));
                }
                return Err(e);
            },
        };
        out.push(kp);
        proof {
            let c_elem = spec_read_known_pack(rest_old)->Ok_0.1;
            lemma_read_known_pack_consumed(rest_old);
            cc = cc + c_elem;
            assert(s1.skip(cc) =~= rest_old.skip(c_elem));
            assert(known_packs_view(out@) =~= known_packs_view(out_old) + seq![kp@]);
            match spec_read_known_pack_list_n(r.rest(), (n - i - 1) as nat) {
                Ok((vs2, c2)) => {
                    assert((known_packs_view(out_old) + (seq![kp@] + vs2)) =~= (known_packs_view(
                        out@,
                    ) + vs2));
                },
                Err(e) => {},
            }
        }
        i = i + 1;
    }
    proof {
        assert(known_packs_view(out@) + Seq::<KnownPackModel>::empty() =~= known_packs_view(out@));
        assert(final(r).rest() =~= s0.skip(c0 + cc));
    }
    Ok(out)
}

/// Exactly `n` consecutive identifier fields.
pub open spec fn spec_read_identifier_list_n(s: Seq<u8>, n: nat) -> Result<
    (Seq<IdentifierModel>, int),
    DatatypeError,
>
    decreases n,
{
    if n == 0 {
        Ok((Seq::empty(), 0))
    } else {
        match spec_read_identifier(s) {
            Ok((v, c)) => match spec_read_identifier_list_n(s.skip(c), (n - 1) as nat) {
                Ok((vs, c2)) => Ok((seq![v] + vs, c + c2)),
                Err(e) => Err(e),
            },
            Err(e) => Err(e),
        }
    }
}

/// A identifiers list field: a count, then that many identifier fields. A
/// negative count reads as the matching unsigned 64-bit value, which no
/// input can satisfy in practice.
pub open spec fn spec_read_identifier_list(s: Seq<u8>) -> Result<
    (Seq<IdentifierModel>, int),
    DatatypeError,
> {
    match spec_varint(s) {
        Ok((v, c)) => match spec_read_identifier_list_n(s.skip(c), (v as usize) as nat) {
            Ok((vs, c2)) => Ok((vs, c + c2)),
            Err(e) => Err(e),
        },
        Err(e) => Err(e),
    }
}

/// Decode a identifiers list field, as [`spec_read_identifier_list`]
/// describes.
pub fn read_identifier_list(r: &mut Reader) -> (res: Result<Vec<Identifier>, DatatypeError>)
    requires
        old(r).wf(),
    ensures
        final(r).wf(),
        final(r).data == old(r).data,
        match spec_read_identifier_list(old(r).rest()) {
            Ok((vs, c)) => res is Ok && identifiers_view(res->Ok_0@) == vs && final(r).rest()
                == old(r).rest().skip(c),
            Err(e) => res is Err && res->Err_0 == e,
        },
{
    let ghost s0 = old(r).rest();
    let vi = match VarInt::from_bytes(r) {
        Ok(vi) => vi,
        Err(e) => {
            return Err(e);
        },
    };
    let ghost c0 = spec_varint(s0)->Ok_0.1;
    proof {
        lemma_varint_consumed(s0);
    }
    let ghost s1 = r.rest();
    let n = #[verifier::truncate] (vi.value as usize);
    let mut out: Vec<Identifier> = Vec::new();
    let ghost mut cc: int = 0;
    let mut i: usize = 0;
    proof {
        assert(s1.skip(0) =~= s1);
        assert(identifiers_view(out@) =~= Seq::<IdentifierModel>::empty());
    }
    while i < n
        invariant
            r.wf(),
            r.data == old(r).data,
            i <= n,
            0 <= cc <= s1.len(),
            r.rest() == s1.skip(cc),
            s0 == old(r).rest(),
            s1 == s0.skip(c0),
            0 <= c0 <= s0.len(),
            spec_varint(s0) == Ok::<(i32, int), DatatypeError>((vi.value, c0)),
            n == (vi.value as usize),
            match spec_read_identifier_list_n(r.rest(), (n - i) as nat) {
                Ok((vs, c2)) => spec_read_identifier_list_n(s1, n as nat)
                    == Ok::<(Seq<IdentifierModel>, int), DatatypeError>(
                    (identifiers_view(out@) + vs, cc + c2),
                ),
                Err(e) => spec_read_identifier_list_n(s1, n as nat) == Err::<
                    (Seq<IdentifierModel>, int),
                    DatatypeError,
                >(e),
            },
        decreases n - i,
    {
        let ghost rest_old = r.rest();
        let ghost out_old = out@;
        let el = match Identifier::from_bytes(r) {
            Ok(el) => el,
            Err(e) => {
                proof {
                    assert(spec_read_identifier_list_n(rest_old, (n - i) as nat) == Err::<
                        (Seq<IdentifierModel>, int),
                        DatatypeError,
                    >(e));
                }
                return Err(e);
            },
        };
        out.push(el);
        proof {
            let c_elem = spec_read_identifier(rest_old)->Ok_0.1;
            lemma_read_identifier_consumed(rest_old);
            cc = cc + c_elem;
            assert(s1.skip(cc) =~= rest_old.skip(c_elem));
            assert(identifiers_view(out@) =~= identifiers_view(out_old) + seq![el@]);
            match spec_read_identifier_list_n(r.rest(), (n - i - 1) as nat) {
                Ok((vs2, c2)) => {
                    assert((identifiers_view(out_old) + (seq![el@] + vs2)) =~= (identifiers_view(
                        out@,
                    ) + vs2));
                },
                Err(e) => {},
            }
        }
        i = i + 1;
    }
    proof {
        assert(identifiers_view(out@) + Seq::<IdentifierModel>::empty() =~= identifiers_view(out@));
        assert(final(r).rest() =~= s0.skip(c0 + cc));
    }
    Ok(out)
}

/// Exactly `n` consecutive profile-property fields.
pub open spec fn spec_read_player_property_list_n(s: Seq<u8>, n: nat) -> Result<
    (Seq<PlayerPropertyModel>, int),
    DatatypeError,
>
    decreases n,
{
    if n == 0 {
        Ok((Seq::empty(), 0))
    } else {
        match spec_read_player_property(s) {
            Ok((v, c)) => match spec_read_player_property_list_n(s.skip(c), (n - 1) as nat) {
                Ok((vs, c2)) => Ok((seq![v] + vs, c + c2)),
                Err(e) => Err(e),
            },
            Err(e) => Err(e),
        }
    }
}

/// A profile-properties list field: a count, then that many profile-property fields. A
/// negative count reads as the matching unsigned 64-bit value, which no
/// input can satisfy in practice.
pub open spec fn spec_read_player_property_list(s: Seq<u8>) -> Result<
    (Seq<PlayerPropertyModel>, int),
    DatatypeError,
> {
    match spec_varint(s) {
        Ok((v, c)) => match spec_read_player_property_list_n(s.skip(c), (v as usize) as nat) {
            Ok((vs, c2)) => Ok((vs, c + c2)),
            Err(e) => Err(e),
        },
        Err(e) => Err(e),
    }
}

/// Decode a profile-properties list field, as [`spec_read_player_property_list`]
/// describes.
pub fn read_player_property_list(r: &mut Reader) -> (res: Result<Vec<PlayerProperty>, DatatypeError>)
    requires
        old(r).wf(),
    ensures
        final(r).wf(),
        final(r).data == old(r).data,
        match spec_read_player_property_list(old(r).rest()) {
            Ok((vs, c)) => res is Ok && player_properties_view(res->Ok_0@) == vs && final(r).rest()
                == old(r).rest().skip(c),
            Err(e) => res is Err && res->Err_0 == e,
        },
{
    let ghost s0 = old(r).rest();
    let vi = match VarInt::from_bytes(r) {
        Ok(vi) => vi,
        Err(e) => {
            return Err(e);
        },
    };
    let ghost c0 = spec_varint(s0)->Ok_0.1;
    proof {
        lemma_varint_consumed(s0);
    }
    let ghost s1 = r.rest();
    let n = #[verifier::truncate] (vi.value as usize);
    let mut out: Vec<PlayerProperty> = Vec::new();
    let ghost mut cc: int = 0;
    let mut i: usize = 0;
    proof {
        assert(s1.skip(0) =~= s1);
        assert(player_properties_view(out@) =~= Seq::<PlayerPropertyModel>::empty());
    }
    while i < n
        invariant
            r.wf(),
            r.data == old(r).data,
            i <= n,
            0 <= cc <= s1.len(),
            r.rest() == s1.skip(cc),
            s0 == old(r).rest(),
            s1 == s0.skip(c0),
            0 <= c0 <= s0.len(),
            spec_varint(s0) == Ok::<(i32, int), DatatypeError>((vi.value, c0)),
            n == (vi.value as usize),
            match spec_read_player_property_list_n(r.rest(), (n - i) as nat) {
                Ok((vs, c2)) => spec_read_player_property_list_n(s1, n as nat)
                    == Ok::<(Seq<PlayerPropertyModel>, int), DatatypeError>(
                    (player_properties_view(out@) + vs, cc + c2),
                ),
                Err(e) => spec_read_player_property_list_n(s1, n as nat) == Err::<
                    (Seq<PlayerPropertyModel>, int),
                    DatatypeError,
                >(e),
            },
        decreases n - i,
    {
        let ghost rest_old = r.rest();
        let ghost out_old = out@;
        let el = match PlayerProperty::from_bytes(r) {
            Ok(el) => el,
            Err(e) => {
                proof {
                    assert(spec_read_player_property_list_n(rest_old, (n - i) as nat) == Err::<
                        (Seq<PlayerPropertyModel>, int),
                        DatatypeError,
                    >(e));
                }
                return Err(e);
            },
        };
        out.push(el);
        proof {
            let c_elem = spec_read_player_property(rest_old)->Ok_0.1;
            lemma_read_player_property_consumed(rest_old);
            cc = cc + c_elem;
            assert(s1.skip(cc) =~= rest_old.skip(c_elem));
            assert(player_properties_view(out@) =~= player_properties_view(out_old) + seq![el@]);
            match spec_read_player_property_list_n(r.rest(), (n - i - 1) as nat) {
                Ok((vs2, c2)) => {
                    assert((player_properties_view(out_old) + (seq![el@] + vs2)) =~= (player_properties_view(
                        out@,
                    ) + vs2));
                },
                Err(e) => {},
            }
        }
        i = i + 1;
    }
    proof {
        assert(player_properties_view(out@) + Seq::<PlayerPropertyModel>::empty() =~= player_properties_view(out@));
        assert(final(r).rest() =~= s0.skip(c0 + cc));
    }
    Ok(out)
}


/// A successful known-pack-list decode consumes at most the whole input.
pub proof fn lemma_read_known_pack_list_n_consumed(s: Seq<u8>, n: nat)
    ensures
        spec_read_known_pack_list_n(s, n) is Ok ==> 0 <= spec_read_known_pack_list_n(s, n)->Ok_0.1 <= s.len(),
    decreases n,
{
    if n > 0 && spec_read_known_pack(s) is Ok {
        let c = spec_read_known_pack(s)->Ok_0.1;
        lemma_read_known_pack_consumed(s);
        lemma_read_known_pack_list_n_consumed(s.skip(c), (n - 1) as nat);
    }
}

pub proof fn lemma_read_known_pack_list_consumed(s: Seq<u8>)
    ensures
        spec_read_known_pack_list(s) is Ok ==> 0 <= spec_read_known_pack_list(s)->Ok_0.1 <= s.len(),
{
    lemma_varint_consumed(s);
    if spec_varint(s) is Ok {
        let v = spec_varint(s)->Ok_0.0;
        let c = spec_varint(s)->Ok_0.1;
        lemma_read_known_pack_list_n_consumed(s.skip(c), (v as usize) as nat);
    }
}

/// A successful identifier-list decode consumes at most the whole input.
pub proof fn lemma_read_identifier_list_n_consumed(s: Seq<u8>, n: nat)
    ensures
        spec_read_identifier_list_n(s, n) is Ok ==> 0 <= spec_read_identifier_list_n(s, n)->Ok_0.1 <= s.len(),
    decreases n,
{
    if n > 0 && spec_read_identifier(s) is Ok {
        let c = spec_read_identifier(s)->Ok_0.1;
        lemma_read_identifier_consumed(s);
        lemma_read_identifier_list_n_consumed(s.skip(c), (n - 1) as nat);
    }
}

pub proof fn lemma_read_identifier_list_consumed(s: Seq<u8>)
    ensures
        spec_read_identifier_list(s) is Ok ==> 0 <= spec_read_identifier_list(s)->Ok_0.1 <= s.len(),
{
    lemma_varint_consumed(s);
    if spec_varint(s) is Ok {
        let v = spec_varint(s)->Ok_0.0;
        let c = spec_varint(s)->Ok_0.1;
        lemma_read_identifier_list_n_consumed(s.skip(c), (v as usize) as nat);
    }
}

/// A successful profile-property-list decode consumes at most the whole input.
pub proof fn lemma_read_player_property_list_n_consumed(s: Seq<u8>, n: nat)
    ensures
        spec_read_player_property_list_n(s, n) is Ok ==> 0 <= spec_read_player_property_list_n(s, n)->Ok_0.1 <= s.len(),
    decreases n,
{
    if n > 0 && spec_read_player_property(s) is Ok {
        let c = spec_read_player_property(s)->Ok_0.1;
        lemma_read_player_property_consumed(s);
        lemma_read_player_property_list_n_consumed(s.skip(c), (n - 1) as nat);
    }
}

pub proof fn lemma_read_player_property_list_consumed(s: Seq<u8>)
    ensures
        spec_read_player_property_list(s) is Ok ==> 0 <= spec_read_player_property_list(s)->Ok_0.1 <= s.len(),
{
    lemma_varint_consumed(s);
    if spec_varint(s) is Ok {
        let v = spec_varint(s)->Ok_0.0;
        let c = spec_varint(s)->Ok_0.1;
        lemma_read_player_property_list_n_consumed(s.skip(c), (v as usize) as nat);
    }
}

} // verus!
