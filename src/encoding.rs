use vstd::prelude::*;

use crate::types::{Address, Cid, Signature, SignatureType, UnsignedHeader};

verus! {

/// `x` in `width` bytes, least significant first (truncated to that width).
pub open spec fn le_bytes(x: nat, width: nat) -> Seq<u8>
    decreases width,
{
    if width == 0 {
        Seq::empty()
    } else {
        seq![(x % 256) as u8] + le_bytes(x / 256, (width - 1) as nat)
    }
}

/// An epoch as an unsigned 64-bit word, in two's complement.
pub open spec fn epoch_word(e: i64) -> nat {
    if e >= 0 {
        e as nat
    } else {
        (e + 0x1_0000_0000_0000_0000) as nat
    }
}

/// A byte string preceded by its length in eight bytes.
pub open spec fn length_prefixed(s: Seq<u8>) -> Seq<u8> {
    le_bytes(s.len(), 8) + s
}

/// Each identifier in turn, length-prefixed.
pub open spec fn cid_list_bytes(cids: Seq<Cid>) -> Seq<u8>
    decreases cids.len(),
{
    if cids.len() == 0 {
        Seq::empty()
    } else {
        length_prefixed(cids[0]@) + cid_list_bytes(cids.drop_first())
    }
}

/// The protocol byte of an address, then its payload.
pub open spec fn address_bytes(a: Address) -> Seq<u8> {
    match a {
        Address::Id(id) => seq![0u8] + le_bytes(id as nat, 8),
        Address::Secp256k1(hash) => seq![1u8] + hash@,
        Address::Actor(hash) => seq![2u8] + hash@,
        Address::Bls(key) => seq![3u8] + key@,
    }
}

pub open spec fn sig_type_byte(t: SignatureType) -> u8 {
    match t {
        SignatureType::Secp256k1 => 1u8,
        SignatureType::Bls => 2u8,
        SignatureType::Delegated => 3u8,
    }
}

pub open spec fn signature_bytes(s: Signature) -> Seq<u8> {
    seq![sig_type_byte(s.sig_type)] + length_prefixed(s.bytes@)
}

/// A marker byte for the absent aggregate signature, or a marker byte and the
/// signature.
pub open spec fn aggregate_bytes(agg: Option<Signature>) -> Seq<u8> {
    match agg {
        None => seq![0u8],
        Some(s) => seq![1u8] + signature_bytes(s),
    }
}

/// The canonical encoding of a header's signable fields, in a fixed order:
/// the parents (their count, then each), the epoch, the timestamp, the miner,
/// the weight, the base fee, the state root, the receipts root, the message
/// bundle and the aggregate signature.
pub open spec fn signing_bytes(h: UnsignedHeader) -> Seq<u8> {
    le_bytes(h.parents@.len(), 8) + (cid_list_bytes(h.parents@) + (le_bytes(
        epoch_word(h.epoch),
        8,
    ) + (le_bytes(h.timestamp as nat, 8) + (address_bytes(h.miner_address) + (le_bytes(
        h.weight as nat,
        16,
    ) + (le_bytes(h.parent_base_fee as nat, 16) + (length_prefixed(h.state_root@) + (
    length_prefixed(h.message_receipts@) + (length_prefixed(h.messages@) + aggregate_bytes(
        h.bls_aggregate,
    ))))))))))
}

fn push_le(out: &mut Vec<u8>, x: u128, width: usize)
    ensures
        final(out)@ == old(out)@ + le_bytes(x as nat, width as nat),
{
    let ghost start = out@;
    let mut v: u128 = x;
    let mut i: usize = 0;
    while i < width
        invariant
            i <= width,
            out@ + le_bytes(v as nat, (width - i) as nat) == start + le_bytes(x as nat, width as nat),
        decreases width - i,
    {
        let ghost before = out@;
        out.push((v % 256) as u8);
        assert(le_bytes(v as nat, (width - i) as nat) == seq![(v % 256) as u8] + le_bytes(
            (v / 256) as nat,
            (width - i - 1) as nat,
        ));
        assert(out@ + le_bytes((v / 256) as nat, (width - i - 1) as nat) =~= before + le_bytes(
            v as nat,
            (width - i) as nat,
        ));
        v = v / 256;
        i = i + 1;
    }
    assert(le_bytes(v as nat, 0) =~= Seq::<u8>::empty());
    assert(out@ =~= start + le_bytes(x as nat, width as nat));
}

fn push_slice(out: &mut Vec<u8>, s: &[u8])
    ensures
        final(out)@ == old(out)@ + s@,
{
    let ghost start = out@;
    let mut i: usize = 0;
    while i < s.len()
        invariant
            i <= s@.len(),
            out@ == start + s@.take(i as int),
        decreases s@.len() - i,
    {
        out.push(s[i]);
        i = i + 1;
        assert(out@ =~= start + s@.take(i as int));
    }
    assert(s@.take(i as int) =~= s@);
}

fn push_length_prefixed(out: &mut Vec<u8>, s: &[u8])
    ensures
        final(out)@ == old(out)@ + length_prefixed(s@),
{
    let ghost start = out@;
    push_le(out, s.len() as u128, 8);
    push_slice(out, s);
    assert(out@ =~= start + length_prefixed(s@));
}

fn push_address(out: &mut Vec<u8>, a: &Address)
    ensures
        final(out)@ == old(out)@ + address_bytes(*a),
{
    let ghost start = out@;
    match a {
        Address::Id(id) => {
            out.push(0u8);
            push_le(out, *id as u128, 8);
        },
        Address::Secp256k1(hash) => {
            out.push(1u8);
            push_slice(out, hash);
        },
        Address::Actor(hash) => {
            out.push(2u8);
            push_slice(out, hash);
        },
        Address::Bls(key) => {
            out.push(3u8);
            push_slice(out, key);
        },
    }
    assert(out@ =~= start + address_bytes(*a));
}

fn push_signature(out: &mut Vec<u8>, s: &Signature)
    ensures
        final(out)@ == old(out)@ + signature_bytes(*s),
{
    let ghost start = out@;
    let t: u8 = match s.sig_type {
        SignatureType::Secp256k1 => 1u8,
        SignatureType::Bls => 2u8,
        SignatureType::Delegated => 3u8,
    };
    out.push(t);
    push_length_prefixed(out, s.bytes.as_slice());
    assert(out@ =~= start + signature_bytes(*s));
}

fn push_cid_list(out: &mut Vec<u8>, cids: &Vec<Cid>)
    ensures
        final(out)@ == old(out)@ + cid_list_bytes(cids@),
{
    let ghost start = out@;
    let mut i: usize = 0;
    assert(cids@.skip(0) =~= cids@);
    assert(out@ + cid_list_bytes(cids@.skip(0)) =~= start + cid_list_bytes(cids@));
    while i < cids.len()
        invariant
            i <= cids@.len(),
            out@ + cid_list_bytes(cids@.skip(i as int)) == start + cid_list_bytes(cids@),
        decreases cids@.len() - i,
    {
        let ghost before = out@;
        push_length_prefixed(out, cids[i].bytes.as_slice());
        assert(cids@.skip(i as int).drop_first() =~= cids@.skip(i + 1));
        assert(out@ + cid_list_bytes(cids@.skip(i + 1)) =~= before + cid_list_bytes(
            cids@.skip(i as int),
        ));
        i = i + 1;
    }
    assert(cid_list_bytes(cids@.skip(i as int)) =~= Seq::<u8>::empty());
    assert(out@ =~= start + cid_list_bytes(cids@));
}

impl UnsignedHeader {
    /// The bytes the proposer signs: the canonical encoding of the header.
    #[verifier::spinoff_prover]
    pub fn to_signing_bytes(&self) -> (r: Vec<u8>)
        ensures
            r@ == signing_bytes(*self),
    {
        let mut out: Vec<u8> = Vec::new();
        push_le(&mut out, self.parents.len() as u128, 8);
        let ghost o1 = out@;
        push_cid_list(&mut out, &self.parents);
        let ghost o2 = out@;
        let epoch: u128 = if self.epoch >= 0 {
            self.epoch as u128
        } else {
            (self.epoch as i128 + 0x1_0000_0000_0000_0000i128) as u128
        };
        push_le(&mut out, epoch, 8);
        let ghost o3 = out@;
        push_le(&mut out, self.timestamp as u128, 8);
        let ghost o4 = out@;
        push_address(&mut out, &self.miner_address);
        let ghost o5 = out@;
        push_le(&mut out, self.weight, 16);
        let ghost o6 = out@;
        push_le(&mut out, self.parent_base_fee, 16);
        let ghost o7 = out@;
        push_length_prefixed(&mut out, self.state_root.bytes.as_slice());
        let ghost o8 = out@;
        push_length_prefixed(&mut out, self.message_receipts.bytes.as_slice());
        let ghost o9 = out@;
        push_length_prefixed(&mut out, self.messages.bytes.as_slice());
        let ghost o10 = out@;
        match &self.bls_aggregate {
            None => {
                out.push(0u8);
            },
            Some(s) => {
                out.push(1u8);
                push_signature(&mut out, s);
            },
        }
        proof {
            let h = *self;
            let t10 = aggregate_bytes(h.bls_aggregate);
            assert(out@ =~= o10 + t10);
            let t9 = length_prefixed(h.messages@) + t10;
            lemma_add_assoc(o9, length_prefixed(h.messages@), t10);
            let t8 = length_prefixed(h.message_receipts@) + t9;
            lemma_add_assoc(o8, length_prefixed(h.message_receipts@), t9);
            let t7 = length_prefixed(h.state_root@) + t8;
            lemma_add_assoc(o7, length_prefixed(h.state_root@), t8);
            let t6 = le_bytes(h.parent_base_fee as nat, 16) + t7;
            lemma_add_assoc(o6, le_bytes(h.parent_base_fee as nat, 16), t7);
            let t5 = le_bytes(h.weight as nat, 16) + t6;
            lemma_add_assoc(o5, le_bytes(h.weight as nat, 16), t6);
            let t4 = address_bytes(h.miner_address) + t5;
            lemma_add_assoc(o4, address_bytes(h.miner_address), t5);
            let t3 = le_bytes(h.timestamp as nat, 8) + t4;
            lemma_add_assoc(o3, le_bytes(h.timestamp as nat, 8), t4);
            let t2 = le_bytes(epoch_word(h.epoch), 8) + t3;
            lemma_add_assoc(o2, le_bytes(epoch_word(h.epoch), 8), t3);
            let t1 = cid_list_bytes(h.parents@) + t2;
            lemma_add_assoc(o1, cid_list_bytes(h.parents@), t2);
            assert(o1 =~= Seq::<u8>::empty() + le_bytes(h.parents@.len(), 8));
            lemma_add_assoc(Seq::<u8>::empty(), le_bytes(h.parents@.len(), 8), t1);
            assert(Seq::<u8>::empty() + signing_bytes(h) =~= signing_bytes(h));
        }
        out
    }
}

/// 256 to the power `w`: the first number that `w` bytes cannot hold.
pub open spec fn pow256(w: nat) -> nat
    decreases w,
{
    if w == 0 {
        1
    } else {
        256 * pow256((w - 1) as nat)
    }
}

/// Every length that the encoding writes fits in its eight-byte prefix.
pub open spec fn encodable(h: UnsignedHeader) -> bool {
    &&& h.parents@.len() < pow256(8)
    &&& forall|i: int| 0 <= i < h.parents@.len() ==> (#[trigger] h.parents@[i])@.len() < pow256(8)
    &&& h.state_root@.len() < pow256(8)
    &&& h.message_receipts@.len() < pow256(8)
    &&& h.messages@.len() < pow256(8)
    &&& (h.bls_aggregate matches Some(s) ==> s.bytes@.len() < pow256(8))
}

/// Two headers agree on every field that is signed.
pub open spec fn same_signable_fields(h1: UnsignedHeader, h2: UnsignedHeader) -> bool {
    &&& h1.parents@.len() == h2.parents@.len()
    &&& forall|i: int|
        0 <= i < h1.parents@.len() ==> (#[trigger] h1.parents@[i])@ == h2.parents@[i]@
    &&& h1.epoch == h2.epoch
    &&& h1.timestamp == h2.timestamp
    &&& h1.miner_address == h2.miner_address
    &&& h1.weight == h2.weight
    &&& h1.parent_base_fee == h2.parent_base_fee
    &&& h1.state_root@ == h2.state_root@
    &&& h1.message_receipts@ == h2.message_receipts@
    &&& h1.messages@ == h2.messages@
    &&& match (h1.bls_aggregate, h2.bls_aggregate) {
        (None, None) => true,
        (Some(s1), Some(s2)) => s1.sig_type == s2.sig_type && s1.bytes@ == s2.bytes@,
        _ => false,
    }
}

pub proof fn lemma_pow256_widths()
    ensures
        pow256(8) == 0x1_0000_0000_0000_0000,
        pow256(16) == 0x1_0000_0000_0000_0000_0000_0000_0000_0000,
{
    reveal_with_fuel(pow256, 17);
}

pub proof fn lemma_add_assoc(a: Seq<u8>, b: Seq<u8>, c: Seq<u8>)
    ensures
        (a + b) + c == a + (b + c),
{
    assert((a + b) + c =~= a + (b + c));
}

pub proof fn lemma_split(a: Seq<u8>, x: Seq<u8>, b: Seq<u8>, y: Seq<u8>)
    requires
        a + x == b + y,
        a.len() == b.len(),
    ensures
        a == b,
        x == y,
{
    assert(a =~= (a + x).subrange(0, a.len() as int));
    assert(b =~= (b + y).subrange(0, b.len() as int));
    assert(x =~= (a + x).subrange(a.len() as int, (a + x).len() as int));
    assert(y =~= (b + y).subrange(b.len() as int, (b + y).len() as int));
}

pub proof fn lemma_le_len(x: nat, w: nat)
    ensures
        le_bytes(x, w).len() == w,
    decreases w,
{
    if w > 0 {
        lemma_le_len(x / 256, (w - 1) as nat);
    }
}

pub proof fn lemma_le_injective(x: nat, y: nat, w: nat)
    requires
        le_bytes(x, w) == le_bytes(y, w),
        x < pow256(w),
        y < pow256(w),
    ensures
        x == y,
    decreases w,
{
    if w > 0 {
        let p = pow256((w - 1) as nat);
        let a = le_bytes(x, w);
        let b = le_bytes(y, w);
        assert(a[0] == b[0]);
        assert(x % 256 == y % 256);
        assert(a.drop_first() =~= le_bytes(x / 256, (w - 1) as nat));
        assert(b.drop_first() =~= le_bytes(y / 256, (w - 1) as nat));
        assert(x / 256 < p) by (nonlinear_arith)
            requires
                x < 256 * p,
        ;
        assert(y / 256 < p) by (nonlinear_arith)
            requires
                y < 256 * p,
        ;
        lemma_le_injective(x / 256, y / 256, (w - 1) as nat);
    }
}

/// Two length-prefixed strings at the head of equal sequences are equal, and
/// so is what follows them.
pub proof fn lemma_length_prefixed_head(s: Seq<u8>, x: Seq<u8>, t: Seq<u8>, y: Seq<u8>)
    requires
        length_prefixed(s) + x == length_prefixed(t) + y,
        s.len() < pow256(8),
        t.len() < pow256(8),
    ensures
        s == t,
        x == y,
{
    assert(length_prefixed(s) + x =~= le_bytes(s.len(), 8) + (s + x));
    assert(length_prefixed(t) + y =~= le_bytes(t.len(), 8) + (t + y));
    lemma_le_len(s.len(), 8);
    lemma_le_len(t.len(), 8);
    lemma_split(le_bytes(s.len(), 8), s + x, le_bytes(t.len(), 8), t + y);
    lemma_le_injective(s.len(), t.len(), 8);
    lemma_split(s, x, t, y);
}

/// Fixed-width integers at the head of equal sequences are equal, and so is
/// what follows them.
pub proof fn lemma_le_head(v: nat, x: Seq<u8>, u: nat, y: Seq<u8>, w: nat)
    requires
        le_bytes(v, w) + x == le_bytes(u, w) + y,
        v < pow256(w),
        u < pow256(w),
    ensures
        v == u,
        x == y,
{
    lemma_le_len(v, w);
    lemma_le_len(u, w);
    lemma_split(le_bytes(v, w), x, le_bytes(u, w), y);
    lemma_le_injective(v, u, w);
}

pub proof fn lemma_cid_list_head(a: Seq<Cid>, x: Seq<u8>, b: Seq<Cid>, y: Seq<u8>)
    requires
        a.len() == b.len(),
        cid_list_bytes(a) + x == cid_list_bytes(b) + y,
        forall|i: int| 0 <= i < a.len() ==> (#[trigger] a[i])@.len() < pow256(8),
        forall|i: int| 0 <= i < b.len() ==> (#[trigger] b[i])@.len() < pow256(8),
    ensures
        forall|i: int| 0 <= i < a.len() ==> (#[trigger] a[i])@ == b[i]@,
        x == y,
    decreases a.len(),
{
    if a.len() == 0 {
        assert(cid_list_bytes(a) + x =~= x);
        assert(cid_list_bytes(b) + y =~= y);
    } else {
        let ra = cid_list_bytes(a.drop_first()) + x;
        let rb = cid_list_bytes(b.drop_first()) + y;
        assert(cid_list_bytes(a) + x =~= length_prefixed(a[0]@) + ra);
        assert(cid_list_bytes(b) + y =~= length_prefixed(b[0]@) + rb);
        lemma_length_prefixed_head(a[0]@, ra, b[0]@, rb);
        assert forall|i: int| 0 <= i < a.len() - 1 implies (#[trigger] a.drop_first()[i])@.len()
            < pow256(8) by {
            assert(a.drop_first()[i] == a[i + 1]);
        }
        assert forall|i: int| 0 <= i < b.len() - 1 implies (#[trigger] b.drop_first()[i])@.len()
            < pow256(8) by {
            assert(b.drop_first()[i] == b[i + 1]);
        }
        lemma_cid_list_head(a.drop_first(), x, b.drop_first(), y);
        assert forall|i: int| 0 <= i < a.len() implies (#[trigger] a[i])@ == b[i]@ by {
            if i > 0 {
                assert(a.drop_first()[i - 1] == a[i]);
                assert(b.drop_first()[i - 1] == b[i]);
            }
        }
    }
}

pub proof fn lemma_address_head(a: Address, x: Seq<u8>, b: Address, y: Seq<u8>)
    requires
        address_bytes(a) + x == address_bytes(b) + y,
    ensures
        a == b,
        x == y,
{
    broadcast use vstd::array::group_array_axioms;

    lemma_pow256_widths();
    assert((address_bytes(a) + x)[0] == address_bytes(a)[0]);
    assert((address_bytes(b) + y)[0] == address_bytes(b)[0]);
    match (a, b) {
        (Address::Id(i), Address::Id(j)) => {
            assert(address_bytes(a) + x =~= seq![0u8] + (le_bytes(i as nat, 8) + x));
            assert(address_bytes(b) + y =~= seq![0u8] + (le_bytes(j as nat, 8) + y));
            lemma_split(seq![0u8], le_bytes(i as nat, 8) + x, seq![0u8], le_bytes(j as nat, 8) + y);
            lemma_le_head(i as nat, x, j as nat, y, 8);
        },
        (Address::Secp256k1(h), Address::Secp256k1(k)) => {
            assert(address_bytes(a) + x =~= seq![1u8] + (h@ + x));
            assert(address_bytes(b) + y =~= seq![1u8] + (k@ + y));
            lemma_split(seq![1u8], h@ + x, seq![1u8], k@ + y);
            lemma_split(h@, x, k@, y);
            assert(h =~= k);
        },
        (Address::Actor(h), Address::Actor(k)) => {
            assert(address_bytes(a) + x =~= seq![2u8] + (h@ + x));
            assert(address_bytes(b) + y =~= seq![2u8] + (k@ + y));
            lemma_split(seq![2u8], h@ + x, seq![2u8], k@ + y);
            lemma_split(h@, x, k@, y);
            assert(h =~= k);
        },
        (Address::Bls(h), Address::Bls(k)) => {
            assert(address_bytes(a) + x =~= seq![3u8] + (h@ + x));
            assert(address_bytes(b) + y =~= seq![3u8] + (k@ + y));
            lemma_split(seq![3u8], h@ + x, seq![3u8], k@ + y);
            lemma_split(h@, x, k@, y);
            assert(h =~= k);
        },
        _ => {},
    }
}

} // verus!
