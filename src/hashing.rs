use vstd::prelude::*;
use crate::bytes::be_int;
use crate::curve::{
    expand_xmd_sha256, expand_xof_shake256, is_scalar, scalar_from_okm, scalar_order,
    xmd_sha256_of, xof_shake256_of,
};
use crate::error::Error;
use crate::suite::{dst_spec, Ciphersuite, Purpose};

verus! {

/// Bytes of expanded output per scalar: 32 bytes of the scalar and 16 of
/// safety margin.
pub const EXPAND_LEN: usize = 48;

/// The longest output of the ciphersuite's expander: SHA-256's stops at 255
/// blocks of 32 bytes, SHAKE-256's at `u16::MAX` bytes.
pub open spec fn max_expand(cs: Ciphersuite) -> nat {
    match cs {
        Ciphersuite::Sha256 => 8160,
        Ciphersuite::Shake256 => 65535,
    }
}

/// The largest number of scalars one call of `hash_to_scalar` derives.
pub open spec fn max_scalars(cs: Ciphersuite) -> nat {
    max_expand(cs) / 48
}

/// The largest number of scalars one call of `hash_to_scalar` derives.
pub fn max_scalar_count(cs: Ciphersuite) -> (r: usize)
    ensures
        r == max_scalars(cs),
{
    match cs {
        Ciphersuite::Sha256 => 170,
        Ciphersuite::Shake256 => 1365,
    }
}

/// `expand_message` of the ciphersuite.
pub open spec fn expand_spec(cs: Ciphersuite, msg: Seq<u8>, dst: Seq<u8>, len: nat) -> Seq<u8> {
    match cs {
        Ciphersuite::Sha256 => xmd_sha256_of(msg, dst, len),
        Ciphersuite::Shake256 => xof_shake256_of(msg, dst, len),
    }
}

/// The `i`-th scalar that `count` scalars derived from `msg` under `dst` hold:
/// the `i`-th 48-byte slice of the expanded output, reduced modulo `r`.
pub open spec fn h2s_value(cs: Ciphersuite, msg: Seq<u8>, dst: Seq<u8>, count: nat, i: int) -> nat {
    be_int(
        expand_spec(cs, msg, dst, count * 48).subrange(48 * i, 48 * i + 48),
    ) % scalar_order()
}

/// The scalar that a message maps to under `dst`.
pub open spec fn map_value(cs: Ciphersuite, msg: Seq<u8>, dst: Seq<u8>) -> nat {
    be_int(expand_spec(cs, msg, dst, 48)) % scalar_order()
}

/// Whether `r` holds exactly the `count` scalars derived from `msg` under `dst`.
pub open spec fn is_h2s_output(
    cs: Ciphersuite,
    msg: Seq<u8>,
    dst: Seq<u8>,
    count: nat,
    r: Seq<Vec<u8>>,
) -> bool {
    &&& r.len() == count
    &&& forall|i: int|
        0 <= i < count ==> #[trigger] r[i]@.len() == 32 && be_int(r[i]@) == h2s_value(
            cs,
            msg,
            dst,
            count,
            i,
        )
}

/// Runs the ciphersuite's `expand_message`.
pub fn expand_message(cs: Ciphersuite, msg: &[u8], dst: &[u8], len: usize) -> (r: Vec<u8>)
    requires
        0 < len <= max_expand(cs),
    ensures
        r@ == expand_spec(cs, msg@, dst@, len as nat),
        r@.len() == len,
{
    match cs {
        Ciphersuite::Sha256 => expand_xmd_sha256(msg, dst, len),
        Ciphersuite::Shake256 => expand_xof_shake256(msg, dst, len),
    }
}

proof fn lemma_mod_scalar(x: nat)
    ensures
        x % scalar_order() < scalar_order(),
{
}

/// Maps a message to a scalar: the message is expanded to 48 bytes under `dst`
/// (by default the ciphersuite's map tag) and reduced modulo `r`. A tag longer
/// than 255 bytes is refused.
pub fn map_message_to_scalar(cs: Ciphersuite, msg: &[u8], dst: Option<&[u8]>) -> (r: Result<
    Vec<u8>,
    Error,
>)
    ensures
        match dst {
            Some(d) => r is Err == (d@.len() > 255),
            None => r is Ok,
        },
        r is Err ==> r == Err::<Vec<u8>, Error>(Error::InvalidArgument),
        r is Ok ==> is_scalar(r.unwrap()@) && be_int(r.unwrap()@) == map_value(
            cs,
            msg@,
            match dst {
                Some(d) => d@,
                None => dst_spec(cs, Purpose::MapMessage),
            },
        ),
{
    let default_dst = cs.dst(Purpose::MapMessage);
    let d: &[u8] = match dst {
        Some(d) => d,
        None => default_dst.as_slice(),
    };
    if d.len() > 255 {
        return Err(Error::InvalidArgument);
    }
    let okm = expand_message(cs, msg, d, EXPAND_LEN);
    let s = scalar_from_okm(okm.as_slice());
    proof {
        lemma_mod_scalar(be_int(okm@));
    }
    Ok(s)
}

/// Derives `count` scalars from `msg` under `dst`: the message is expanded to
/// `48·count` bytes and each 48-byte slice is reduced modulo `r`. A count of
/// zero or above the expander's limit, or a tag longer than 255 bytes, is
/// refused.
pub fn hash_to_scalar(cs: Ciphersuite, msg: &[u8], dst: &[u8], count: usize) -> (r: Result<
    Vec<Vec<u8>>,
    Error,
>)
    ensures
        r is Err == (count == 0 || count > max_scalars(cs) || dst@.len() > 255),
        r is Err ==> r == Err::<Vec<Vec<u8>>, Error>(Error::InvalidArgument),
        r is Ok ==> is_h2s_output(cs, msg@, dst@, count as nat, r.unwrap()@),
        r is Ok ==> forall|i: int| 0 <= i < count ==> is_scalar(#[trigger] r.unwrap()@[i]@),
{
    let max = max_scalar_count(cs);
    if count == 0 || count > max || dst.len() > 255 {
        return Err(Error::InvalidArgument);
    }
    let len: usize = count * EXPAND_LEN;
    let okm = expand_message(cs, msg, dst, len);
    let mut out: Vec<Vec<u8>> = Vec::new();
    let mut i: usize = 0;
    while i < count
        invariant
            i <= count,
            count <= max_scalars(cs),
            count * 48 <= max_expand(cs),
            len == count * 48,
            okm@ == expand_spec(cs, msg@, dst@, len as nat),
            okm@.len() == len,
            out@.len() == i,
            forall|j: int|
                0 <= j < i ==> #[trigger] out@[j]@.len() == 32 && be_int(out@[j]@) == h2s_value(
                    cs,
                    msg@,
                    dst@,
                    count as nat,
                    j,
                ) && is_scalar(out@[j]@),
        decreases count - i,
    {
        let start: usize = i * EXPAND_LEN;
        let chunk = slice_bytes(okm.as_slice(), start, start + EXPAND_LEN);
        let s = scalar_from_okm(chunk.as_slice());
        proof {
            lemma_mod_scalar(be_int(chunk@));
        }
        out.push(s);
        i = i + 1;
    }
    Ok(out)
}

/// The bytes of `b` from `start` up to `end`.
pub(crate) fn slice_bytes(b: &[u8], start: usize, end: usize) -> (r: Vec<u8>)
    requires
        start <= end <= b@.len(),
    ensures
        r@ == b@.subrange(start as int, end as int),
{
    let mut r: Vec<u8> = Vec::new();
    let mut k: usize = start;
    while k < end
        invariant
            start <= k <= end,
            end <= b@.len(),
            r@ == b@.subrange(start as int, k as int),
        decreases end - k,
    {
        r.push(b[k]);
        k = k + 1;
        assert(r@ =~= b@.subrange(start as int, k as int));
    }
    r
}

} // verus!
