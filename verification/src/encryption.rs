//! The cryptographic primitives of the NTLM core: a fully modelled RC4
//! stream cipher, MD4 and MD5 digests taken from outside crates behind
//! named results, HMAC-MD5 built on MD5, and a strong random source.

use vstd::prelude::*;

verus! {

/// Length of an MD4, MD5, or HMAC-MD5 digest, and of every derived key.
pub const HASH_SIZE: usize = 16;

/// The MD5 digest of a byte sequence. The digest is a function of the
/// input alone; its bytes are pinned by the `compute_md5` wrapper.
pub uninterp spec fn md5_of(data: Seq<u8>) -> Seq<u8>;

/// The MD4 digest of a byte sequence, named like `md5_of`.
pub uninterp spec fn md4_of(data: Seq<u8>) -> Seq<u8>;

/// Relies on `md5::compute`: the MD5 digest of the input bytes, 16 bytes
/// long and a function of the input alone.
#[verifier::external_body]
pub(crate) fn compute_md5(data: &[u8]) -> (r: Vec<u8>)
    ensures
        r@ == md5_of(data@),
        r@.len() == HASH_SIZE,
{
    md5::compute(data).0.to_vec()
}

/// Relies on `md4::Md4` (through the `digest` traits): the MD4 digest of
/// the input bytes, 16 bytes long and a function of the input alone.
#[verifier::external_body]
pub(crate) fn compute_md4(data: &[u8]) -> (r: Vec<u8>)
    ensures
        r@ == md4_of(data@),
        r@.len() == HASH_SIZE,
{
    <md4::Md4 as md4::Digest>::digest(data).to_vec()
}

/// Relies on `rand::thread_rng` and `RngCore::fill_bytes`: `n` bytes from
/// the operating system's strong random source. Nothing is promised of the
/// values; every caller must work for every outcome.
#[verifier::external_body]
pub(crate) fn random_bytes(n: usize) -> (r: Vec<u8>)
    ensures
        r@.len() == n,
{
    let mut buf = vec![0u8; n];
    rand::RngCore::fill_bytes(&mut rand::thread_rng(), &mut buf);
    buf
}

/// Bytewise exclusive or; meaningful when both sequences have one length.
pub open spec fn xor_seq(a: Seq<u8>, k: Seq<u8>) -> Seq<u8>
    recommends
        a.len() == k.len(),
{
    Seq::new(a.len(), |i: int| a[i] ^ k[i])
}

/// Exclusive or undoes itself bytewise.
pub proof fn lemma_xor_seq_involution(a: Seq<u8>, k: Seq<u8>)
    requires
        a.len() == k.len(),
    ensures
        xor_seq(xor_seq(a, k), k) == a,
{
    assert forall|i: int| 0 <= i < a.len() implies xor_seq(xor_seq(a, k), k)[i] == a[i] by {
        let x = a[i];
        let y = k[i];
        assert((x ^ y) ^ y == x) by (bit_vector);
    }
    assert(xor_seq(xor_seq(a, k), k) =~= a);
}

/// Addition modulo 256, the arithmetic of RC4 indices.
pub open spec fn add_u8(a: u8, b: u8) -> u8 {
    ((a + b) % 256) as u8
}

/// The mathematical state of an RC4 stream: the 256-byte table and the two
/// indices.
pub struct Rc4Model {
    pub s: Seq<u8>,
    pub i: u8,
    pub j: u8,
}

impl Rc4Model {
    /// The table has its full 256 entries.
    pub open spec fn wf(self) -> bool {
        self.s.len() == 256
    }
}

/// The identity table the key schedule starts from.
pub open spec fn spec_rc4_identity() -> Seq<u8> {
    Seq::new(256, |i: int| i as u8)
}

/// One pass of the RC4 key schedule from position `i` on: mix the key into
/// the table, swapping as the index walks.
pub open spec fn spec_ksa_loop(s: Seq<u8>, j: u8, key: Seq<u8>, i: int) -> (Seq<u8>, u8)
    recommends
        s.len() == 256,
        key.len() > 0,
    decreases 256 - i,
{
    if i < 0 || i >= 256 || key.len() == 0 {
        (s, j)
    } else {
        let j2 = add_u8(add_u8(j, s[i]), key[i % key.len() as int]);
        let s2 = s.update(i, s[j2 as int]).update(j2 as int, s[i]);
        spec_ksa_loop(s2, j2, key, i + 1)
    }
}

/// The RC4 state a key initializes.
pub open spec fn spec_rc4_init(key: Seq<u8>) -> Rc4Model {
    Rc4Model { s: spec_ksa_loop(spec_rc4_identity(), 0, key, 0).0, i: 0, j: 0 }
}

/// One step of the RC4 generator: the next state and the keystream byte.
pub open spec fn spec_rc4_next(m: Rc4Model) -> (Rc4Model, u8)
    recommends
        m.wf(),
{
    let i2 = add_u8(m.i, 1);
    let j2 = add_u8(m.j, m.s[i2 as int]);
    let s2 = m.s.update(i2 as int, m.s[j2 as int]).update(j2 as int, m.s[i2 as int]);
    let k = s2[add_u8(s2[i2 as int], s2[j2 as int]) as int];
    (Rc4Model { s: s2, i: i2, j: j2 }, k)
}

/// The next `n` keystream bytes from a state. The keystream depends on the
/// state alone, never on the data it seals.
pub open spec fn spec_rc4_keystream(m: Rc4Model, n: nat) -> Seq<u8>
    decreases n,
{
    if n == 0 {
        Seq::empty()
    } else {
        seq![spec_rc4_next(m).1] + spec_rc4_keystream(spec_rc4_next(m).0, (n - 1) as nat)
    }
}

/// The state after producing `n` keystream bytes.
pub open spec fn spec_rc4_advance(m: Rc4Model, n: nat) -> Rc4Model
    decreases n,
{
    if n == 0 {
        m
    } else {
        spec_rc4_advance(spec_rc4_next(m).0, (n - 1) as nat)
    }
}

/// The keystream of `n` bytes has `n` bytes.
pub proof fn lemma_rc4_keystream_len(m: Rc4Model, n: nat)
    ensures
        spec_rc4_keystream(m, n).len() == n,
    decreases n,
{
    if n > 0 {
        lemma_rc4_keystream_len(spec_rc4_next(m).0, (n - 1) as nat);
    }
}

/// Peeling one step off the end: the keystream of `n + 1` bytes is the
/// keystream of `n` bytes followed by the next byte of the advanced state.
pub proof fn lemma_rc4_stream_snoc(m: Rc4Model, n: nat)
    ensures
        spec_rc4_keystream(m, n + 1) == spec_rc4_keystream(m, n) + seq![
            spec_rc4_next(spec_rc4_advance(m, n)).1,
        ],
        spec_rc4_advance(m, n + 1) == spec_rc4_next(spec_rc4_advance(m, n)).0,
    decreases n,
{
    if n == 0 {
        assert(spec_rc4_advance(m, 0) == m);
        assert(spec_rc4_advance(m, 1) == spec_rc4_advance(spec_rc4_next(m).0, 0));
        assert(spec_rc4_advance(spec_rc4_next(m).0, 0) == spec_rc4_next(m).0);
        assert(spec_rc4_keystream(spec_rc4_next(m).0, 0) =~= Seq::<u8>::empty());
        assert(spec_rc4_keystream(m, 1) =~= spec_rc4_keystream(m, 0) + seq![
            spec_rc4_next(spec_rc4_advance(m, 0)).1,
        ]);
    } else {
        lemma_rc4_stream_snoc(spec_rc4_next(m).0, (n - 1) as nat);
        assert(spec_rc4_keystream(m, n + 1) =~= spec_rc4_keystream(m, n) + seq![
            spec_rc4_next(spec_rc4_advance(m, n)).1,
        ]);
    }
}

/// A streaming RC4 cipher. One instance carries the live state of one
/// direction across every message sealed or opened in it.
pub struct Rc4 {
    s: Vec<u8>,
    i: u8,
    j: u8,
}

impl View for Rc4 {
    type V = Rc4Model;

    closed spec fn view(&self) -> Rc4Model {
        Rc4Model { s: self.s@, i: self.i, j: self.j }
    }
}

impl Rc4 {
    /// Every live stream carries a full 256-byte table.
    #[verifier::type_invariant]
    pub open spec fn type_inv(self) -> bool {
        self@.wf()
    }

    /// Seeds a stream with a key by the RC4 key schedule.
    pub fn new(key: &[u8]) -> (r: Rc4)
        requires
            key@.len() > 0,
        ensures
            r@ == spec_rc4_init(key@),
            r@.wf(),
    {
        let mut s: Vec<u8> = Vec::new();
        let mut i: usize = 0;
        while i < 256
            invariant
                i <= 256,
                s@.len() == i,
                forall|k: int| 0 <= k < i ==> s@[k] == k as u8,
            decreases 256 - i,
        {
            s.push(i as u8);
            i = i + 1;
        }
        assert(s@ =~= spec_rc4_identity());
        let ghost init_s = s@;
        let mut j: u8 = 0;
        let mut idx: usize = 0;
        while idx < 256
            invariant
                idx <= 256,
                s@.len() == 256,
                key@.len() > 0,
                spec_ksa_loop(init_s, 0, key@, 0) == spec_ksa_loop(s@, j, key@, idx as int),
            decreases 256 - idx,
        {
            let ghost s_old = s@;
            let ghost j_old = j;
            let ki = key[idx % key.len()];
            let j2: u8 = ((j as u16 + s[idx] as u16 + ki as u16) % 256) as u8;
            let si = s[idx];
            let sj = s[j2 as usize];
            s[idx] = sj;
            s[j2 as usize] = si;
            j = j2;
            idx = idx + 1;
            proof {
                assert(j2 == add_u8(add_u8(j_old, s_old[idx - 1]), key@[(idx - 1) % key@.len()
                    as int]));
                assert(s@ =~= s_old.update(idx - 1, s_old[j2 as int]).update(
                    j2 as int,
                    s_old[idx - 1],
                ));
            }
        }
        assert(spec_ksa_loop(s@, j, key@, 256) == (s@, j));
        Rc4 { s, i: 0, j: 0 }
    }

    /// Produces the next keystream byte, stepping the state.
    fn next_byte(&mut self) -> (k: u8)
        requires
            old(self)@.wf(),
        ensures
            final(self)@ == spec_rc4_next(old(self)@).0,
            k == spec_rc4_next(old(self)@).1,
            final(self)@.wf(),
    {
        let i2: u8 = ((self.i as u16 + 1) % 256) as u8;
        let j2: u8 = ((self.j as u16 + self.s[i2 as usize] as u16) % 256) as u8;
        let si = self.s[i2 as usize];
        let sj = self.s[j2 as usize];
        self.s[i2 as usize] = sj;
        self.s[j2 as usize] = si;
        self.i = i2;
        self.j = j2;
        let t: u8 = ((self.s[i2 as usize] as u16 + self.s[j2 as usize] as u16) % 256) as u8;
        self.s[t as usize]
    }

    /// Applies the keystream to `data`: the same call both seals and opens,
    /// since exclusive or undoes itself.
    pub fn process(&mut self, data: &[u8]) -> (out: Vec<u8>)
        requires
            old(self)@.wf(),
        ensures
            final(self)@ == spec_rc4_advance(old(self)@, data@.len()),
            out@ == xor_seq(data@, spec_rc4_keystream(old(self)@, data@.len())),
            final(self)@.wf(),
    {
        let ghost m0 = self@;
        let mut out: Vec<u8> = Vec::new();
        let mut idx: usize = 0;
        while idx < data.len()
            invariant
                idx <= data@.len(),
                self@ == spec_rc4_advance(m0, idx as nat),
                self@.wf(),
                out@ == xor_seq(data@.subrange(0, idx as int), spec_rc4_keystream(m0, idx as nat)),
            decreases data@.len() - idx,
        {
            let k = self.next_byte();
            out.push(data[idx] ^ k);
            idx = idx + 1;
            proof {
                lemma_rc4_stream_snoc(m0, (idx - 1) as nat);
                lemma_rc4_keystream_len(m0, (idx - 1) as nat);
                lemma_rc4_keystream_len(m0, idx as nat);
                assert(out@ =~= xor_seq(
                    data@.subrange(0, idx as int),
                    spec_rc4_keystream(m0, idx as nat),
                ));
            }
        }
        assert(data@.subrange(0, data@.len() as int) =~= data@);
        out
    }
}

/// The HMAC-MD5 of `data` under `key`: the key (hashed first if longer
/// than the 64-byte block) is padded to a block, folded with the inner and
/// outer pad bytes, and wrapped around two MD5 passes.
pub open spec fn spec_hmac_md5(key: Seq<u8>, data: Seq<u8>) -> Seq<u8> {
    let k = if key.len() > 64 {
        md5_of(key)
    } else {
        key
    };
    let ipad = Seq::new(
        64,
        |i: int|
            (if i < k.len() {
                k[i]
            } else {
                0
            }) ^ 0x36,
    );
    let opad = Seq::new(
        64,
        |i: int|
            (if i < k.len() {
                k[i]
            } else {
                0
            }) ^ 0x5C,
    );
    md5_of(opad + md5_of(ipad + data))
}

/// Computes the HMAC-MD5 of `data` under `key`.
pub fn hmac_md5(key: &[u8], data: &[u8]) -> (r: Vec<u8>)
    ensures
        r@ == spec_hmac_md5(key@, data@),
        r@.len() == HASH_SIZE,
{
    let k: Vec<u8> = if key.len() > 64 {
        compute_md5(key)
    } else {
        let mut v: Vec<u8> = Vec::new();
        crate::buffer::push_bytes(&mut v, key);
        v
    };
    let ghost kk = k@;
    let mut inner: Vec<u8> = Vec::new();
    let mut outer: Vec<u8> = Vec::new();
    let mut i: usize = 0;
    while i < 64
        invariant
            i <= 64,
            inner@.len() == i,
            outer@.len() == i,
            k@ == kk,
            forall|t: int|
                0 <= t < i ==> inner@[t] == (if t < kk.len() {
                    kk[t]
                } else {
                    0u8
                }) ^ 0x36,
            forall|t: int|
                0 <= t < i ==> outer@[t] == (if t < kk.len() {
                    kk[t]
                } else {
                    0u8
                }) ^ 0x5C,
        decreases 64 - i,
    {
        let b: u8 = if i < k.len() {
            k[i]
        } else {
            0
        };
        inner.push(b ^ 0x36);
        outer.push(b ^ 0x5C);
        i = i + 1;
    }
    crate::buffer::push_bytes(&mut inner, data);
    let inner_digest = compute_md5(inner.as_slice());
    crate::buffer::push_bytes(&mut outer, inner_digest.as_slice());
    let r = compute_md5(outer.as_slice());
    proof {
        let ipad = Seq::new(
            64,
            |t: int|
                (if t < kk.len() {
                    kk[t]
                } else {
                    0u8
                }) ^ 0x36,
        );
        let opad = Seq::new(
            64,
            |t: int|
                (if t < kk.len() {
                    kk[t]
                } else {
                    0u8
                }) ^ 0x5C,
        );
        assert(inner@ =~= ipad + data@);
        assert(outer@ =~= opad + md5_of(ipad + data@));
    }
    r
}

} // verus!
