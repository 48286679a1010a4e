use vstd::prelude::*;

verus! {

/// The non-negative integer that a big-endian byte string denotes.
pub open spec fn be_int(b: Seq<u8>) -> nat
    decreases b.len(),
{
    if b.len() == 0 {
        0
    } else {
        be_int(b.drop_last()) * 256 + b.last() as nat
    }
}

/// Equal lengths and equal values give equal byte strings.
pub proof fn lemma_be_int_injective(a: Seq<u8>, b: Seq<u8>)
    requires
        a.len() == b.len(),
        be_int(a) == be_int(b),
    ensures
        a == b,
    decreases a.len(),
{
    if a.len() > 0 {
        let x = be_int(a.drop_last());
        let y = be_int(b.drop_last());
        let p = a.last() as nat;
        let q = b.last() as nat;
        assert(x * 256 + p == y * 256 + q);
        assert(p == q && x == y) by (nonlinear_arith)
            requires
                x * 256 + p == y * 256 + q,
                p < 256,
                q < 256,
        ;
        lemma_be_int_injective(a.drop_last(), b.drop_last());
        assert(a =~= a.drop_last().push(a.last()));
        assert(b =~= b.drop_last().push(b.last()));
    }
}

/// The 32 bytes whose big-endian value is `v`, where some exist.
pub open spec fn bytes32_of(v: nat) -> Seq<u8> {
    choose|s: Seq<u8>| s.len() == 32 && be_int(s) == v
}

/// A 32-byte string is the one that `bytes32_of` picks for its value.
pub proof fn lemma_bytes32_of(s: Seq<u8>)
    requires
        s.len() == 32,
    ensures
        bytes32_of(be_int(s)) == s,
{
    let t = bytes32_of(be_int(s));
    assert(t.len() == 32 && be_int(t) == be_int(s));
    lemma_be_int_injective(t, s);
}

/// The concatenation of byte strings.
pub open spec fn concat_all(ss: Seq<Vec<u8>>) -> Seq<u8>
    decreases ss.len(),
{
    if ss.len() == 0 {
        Seq::<u8>::empty()
    } else {
        concat_all(ss.drop_last()) + ss.last()@
    }
}

/// The eight-byte big-endian encoding of `v` (I2OSP with length 8).
pub open spec fn be8(v: nat) -> Seq<u8> {
    seq![
        (v / 0x100000000000000 % 256) as u8,
        (v / 0x1000000000000 % 256) as u8,
        (v / 0x10000000000 % 256) as u8,
        (v / 0x100000000 % 256) as u8,
        (v / 0x1000000 % 256) as u8,
        (v / 0x10000 % 256) as u8,
        (v / 0x100 % 256) as u8,
        (v % 256) as u8,
    ]
}

/// The eight bytes of `v`, most significant first.
pub(crate) fn u64_be_bytes(v: u64) -> (r: Vec<u8>)
    ensures
        r@ == be8(v as nat),
{
    let r: Vec<u8> = vec![
        (v / 0x100000000000000 % 256) as u8,
        (v / 0x1000000000000 % 256) as u8,
        (v / 0x10000000000 % 256) as u8,
        (v / 0x100000000 % 256) as u8,
        (v / 0x1000000 % 256) as u8,
        (v / 0x10000 % 256) as u8,
        (v / 0x100 % 256) as u8,
        (v % 256) as u8,
    ];
    assert(r@ =~= be8(v as nat));
    r
}

/// Appends `src` to `out`.
pub(crate) fn extend_bytes(out: &mut Vec<u8>, src: &[u8])
    ensures
        final(out)@ == old(out)@ + src@,
{
    let mut i: usize = 0;
    while i < src.len()
        invariant
            i <= src@.len(),
            out@ == old(out)@ + src@.subrange(0, i as int),
        decreases src@.len() - i,
    {
        out.push(src[i]);
        i = i + 1;
        assert(src@.subrange(0, i as int) == src@.subrange(0, i - 1 as int).push(src@[i - 1]));
    }
    assert(src@.subrange(0, src@.len() as int) == src@);
}

/// Whether two byte strings are equal.
pub fn bytes_eq(a: &[u8], b: &[u8]) -> (r: bool)
    ensures
        r == (a@ == b@),
{
    if a.len() != b.len() {
        return false;
    }
    let mut i: usize = 0;
    while i < a.len()
        invariant
            i <= a@.len(),
            a@.len() == b@.len(),
            forall|j: int| 0 <= j < i ==> a@[j] == b@[j],
        decreases a@.len() - i,
    {
        if a[i] != b[i] {
            return false;
        }
        i = i + 1;
    }
    assert(a@ =~= b@);
    true
}

/// A string of zeros denotes zero.
pub proof fn lemma_be_int_zeros(s: Seq<u8>)
    requires
        forall|i: int| 0 <= i < s.len() ==> s[i] == 0,
    ensures
        be_int(s) == 0,
    decreases s.len(),
{
    if s.len() > 0 {
        lemma_be_int_zeros(s.drop_last());
    }
}

} // verus!
