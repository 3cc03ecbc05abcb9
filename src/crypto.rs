use aes::Aes128;
use cfb_mode::{BufDecryptor, BufEncryptor};
use cipher::KeyInit;
use std::num::NonZeroU32;
use vstd::prelude::*;
use vstd::string::StringSliceAdditionalSpecFns;

verus! {

/// Size in bytes of an AES block, of the derived key and of the IV.
pub const BLOCK_LEN: usize = 16;

/// Iteration count of the key derivation.
pub const PBKDF2_ITERATIONS: u32 = 64;

/// The salt of the key derivation: the ASCII bytes of "frp".
pub open spec fn salt_bytes() -> Seq<u8> {
    seq![0x66u8, 0x72u8, 0x70u8]
}

/// The key that PBKDF2-HMAC-SHA1 derives, as `dk_len` bytes.
pub uninterp spec fn pbkdf2_hmac_sha1(iterations: nat, salt: Seq<u8>, secret: Seq<u8>, dk_len: nat) -> Seq<u8>;

/// AES-128 applied to one 16-byte block under a 16-byte key.
pub uninterp spec fn aes128_encrypt_block(key: Seq<u8>, block: Seq<u8>) -> Seq<u8>;

/// AES-128 under a fixed key, as a function on blocks.
pub open spec fn aes128_under(key: Seq<u8>) -> spec_fn(Seq<u8>) -> Seq<u8> {
    |b: Seq<u8>| aes128_encrypt_block(key, b)
}

/// The 16-byte channel key derived from the UTF-8 bytes of a shared token.
pub open spec fn channel_key(token: Seq<u8>) -> Seq<u8> {
    pbkdf2_hmac_sha1(PBKDF2_ITERATIONS as nat, salt_bytes(), token, BLOCK_LEN as nat)
}

/// The position of a keystream cursor inside its current block.
///
/// `register[..pos]` holds the ciphertext bytes of the current block and
/// `register[pos..]` the keystream bytes not used yet. At `pos == 16` the
/// whole register is feedback that has still to go through the block cipher.
#[derive(Debug, Clone, Copy)]
pub struct CfbState {
    pub register: [u8; 16],
    pub pos: usize,
}

impl CfbState {
    pub open spec fn wf(&self) -> bool {
        self.pos <= BLOCK_LEN
    }
}

/// A cursor state as mathematical values: the register and the position.
pub open spec fn state_of(s: CfbState) -> (Seq<u8>, nat) {
    (s.register@, s.pos as nat)
}

/// Brings a cursor to a position inside a block: a used-up register is
/// encrypted to give the next block of keystream.
pub open spec fn settle(block: spec_fn(Seq<u8>) -> Seq<u8>, st: (Seq<u8>, nat)) -> (Seq<u8>, nat) {
    if st.1 >= BLOCK_LEN {
        (block(st.0), 0)
    } else {
        st
    }
}

/// Records the ciphertext byte `c` at the cursor of a settled state and
/// moves on; a completed block is fed back through the block cipher at once.
pub open spec fn feed(block: spec_fn(Seq<u8>) -> Seq<u8>, st: (Seq<u8>, nat), c: u8) -> (Seq<u8>, nat) {
    let reg = st.0.update(st.1 as int, c);
    if st.1 + 1 >= BLOCK_LEN {
        (block(reg), 0)
    } else {
        (reg, st.1 + 1)
    }
}

/// The keystream byte at the cursor of a settled state.
pub open spec fn keystream_byte(st: (Seq<u8>, nat)) -> u8 {
    st.0[st.1 as int]
}

/// CFB encryption of `data` from cursor state `st` with block cipher `block`: the ciphertext and the
/// state that follows it.
pub open spec fn cfb_encrypt_spec(block: spec_fn(Seq<u8>) -> Seq<u8>, st: (Seq<u8>, nat), data: Seq<u8>) -> (Seq<u8>, (Seq<u8>, nat))
    decreases data.len(),
{
    if data.len() == 0 {
        (Seq::empty(), settle(block, st))
    } else {
        let prev = cfb_encrypt_spec(block, st, data.drop_last());
        let c = data.last() ^ keystream_byte(prev.1);
        (prev.0.push(c), feed(block, prev.1, c))
    }
}

/// CFB decryption of `data` from cursor state `st` with block cipher `block`: the plaintext and the
/// state that follows it.
pub open spec fn cfb_decrypt_spec(block: spec_fn(Seq<u8>) -> Seq<u8>, st: (Seq<u8>, nat), data: Seq<u8>) -> (Seq<u8>, (Seq<u8>, nat))
    decreases data.len(),
{
    if data.len() == 0 {
        (Seq::empty(), settle(block, st))
    } else {
        let prev = cfb_decrypt_spec(block, st, data.drop_last());
        let c = data.last();
        (prev.0.push(c ^ keystream_byte(prev.1)), feed(block, prev.1, c))
    }
}

/// Relies on ring::pbkdf2::derive with PBKDF2_HMAC_SHA1: it fills the 16
/// output bytes with the key derived from `secret` and `salt`. It panics only
/// on a zero iteration count or on inputs too long for SHA-1.
#[verifier::external_body]
fn pbkdf2_sha1_derive(iterations: u32, salt: &[u8], secret: &[u8]) -> (r: [u8; 16])
    requires
        iterations >= 1,
        salt@.len() < 0x1000_0000_0000_0000,
        secret@.len() < 0x1000_0000_0000_0000,
    ensures
        r@ == pbkdf2_hmac_sha1(iterations as nat, salt@, secret@, 16),
{
    let mut out = [0u8; 16];
    let n = NonZeroU32::new(iterations).unwrap();
    ring::pbkdf2::derive(ring::pbkdf2::PBKDF2_HMAC_SHA1, n, salt, secret, &mut out);
    out
}

/// Relies on cfb_mode::BufEncryptor<Aes128>: resumed by `from_state` at
/// (`register`, `pos`), `encrypt` turns `buf` into CFB ciphertext in place,
/// and `get_state` gives the cursor where it stopped.
#[verifier::external_body]
fn cfb_encrypt(key: &[u8; 16], st: &CfbState, buf: &mut Vec<u8>) -> (r: CfbState)
    requires
        st.wf(),
    ensures
        final(buf)@ == cfb_encrypt_spec(|b: Seq<u8>| aes128_encrypt_block(key@, b), state_of(*st), old(buf)@).0,
        state_of(r) == cfb_encrypt_spec(|b: Seq<u8>| aes128_encrypt_block(key@, b), state_of(*st), old(buf)@).1,
{
    let block = Aes128::new(key.into());
    let mut enc = BufEncryptor::<Aes128>::from_state(block, (&st.register).into(), st.pos);
    enc.encrypt(buf.as_mut_slice());
    let (register, pos) = enc.get_state();
    CfbState { register: register.clone().into(), pos }
}

/// Relies on cfb_mode::BufDecryptor<Aes128>: resumed by `from_state` at
/// (`register`, `pos`), `decrypt` turns `buf` back into plaintext in place,
/// and `get_state` gives the cursor where it stopped.
#[verifier::external_body]
fn cfb_decrypt(key: &[u8; 16], st: &CfbState, buf: &mut Vec<u8>) -> (r: CfbState)
    requires
        st.wf(),
    ensures
        final(buf)@ == cfb_decrypt_spec(|b: Seq<u8>| aes128_encrypt_block(key@, b), state_of(*st), old(buf)@).0,
        state_of(r) == cfb_decrypt_spec(|b: Seq<u8>| aes128_encrypt_block(key@, b), state_of(*st), old(buf)@).1,
{
    let block = Aes128::new(key.into());
    let mut dec = BufDecryptor::<Aes128>::from_state(block, (&st.register).into(), st.pos);
    dec.decrypt(buf.as_mut_slice());
    let (register, pos) = dec.get_state();
    CfbState { register: register.clone().into(), pos }
}

/// The channel cipher of one connection: AES-128 in CFB mode under a key
/// derived from the shared token, with one keystream cursor for each
/// direction.
#[derive(Debug, Clone)]
pub struct FrpCoder {
    iv: [u8; 16],
    key: [u8; 16],
    enc: CfbState,
    dec: CfbState,
}

impl FrpCoder {
    pub closed spec fn key_bytes(&self) -> Seq<u8> {
        self.key@
    }

    pub closed spec fn iv_bytes(&self) -> Seq<u8> {
        self.iv@
    }

    /// The cursor of the outbound (encrypting) direction.
    pub closed spec fn enc_state(&self) -> (Seq<u8>, nat) {
        state_of(self.enc)
    }

    /// The cursor of the inbound (decrypting) direction.
    pub closed spec fn dec_state(&self) -> (Seq<u8>, nat) {
        state_of(self.dec)
    }

    pub closed spec fn wf(&self) -> bool {
        self.enc.wf() && self.dec.wf()
    }

    /// Derives the key from `token` and starts both cursors at `iv`, the
    /// first feedback block of each direction.
    pub fn new(token: &str, iv: [u8; 16]) -> (r: Self)
        requires
            token.spec_bytes().len() < 0x1000_0000_0000_0000,
        ensures
            r.wf(),
            r.key_bytes() == channel_key(token.spec_bytes()),
            r.iv_bytes() == iv@,
            r.enc_state() == (iv@, BLOCK_LEN as nat),
            r.dec_state() == (iv@, BLOCK_LEN as nat),
    {
        let salt: [u8; 3] = [0x66, 0x72, 0x70];
        assert(salt@ =~= salt_bytes());
        let key = pbkdf2_sha1_derive(PBKDF2_ITERATIONS, salt.as_slice(), token.as_bytes());
        FrpCoder {
            iv,
            key,
            enc: CfbState { register: iv, pos: BLOCK_LEN },
            dec: CfbState { register: iv, pos: BLOCK_LEN },
        }
    }

    pub fn key(&self) -> (r: &[u8; 16])
        ensures
            r@ == self.key_bytes(),
    {
        &self.key
    }

    pub fn iv(&self) -> (r: &[u8; 16])
        ensures
            r@ == self.iv_bytes(),
    {
        &self.iv
    }

    /// Encrypts `buf` in place, continuing the outbound keystream from where
    /// the previous call left it. The inbound cursor is not touched.
    pub fn encypt(&mut self, buf: &mut Vec<u8>)
        requires
            old(self).wf(),
        ensures
            final(self).wf(),
            final(self).key_bytes() == old(self).key_bytes(),
            final(self).iv_bytes() == old(self).iv_bytes(),
            final(self).dec_state() == old(self).dec_state(),
            (final(buf)@, final(self).enc_state()) == cfb_encrypt_spec(
                aes128_under(old(self).key_bytes()),
                old(self).enc_state(),
                old(buf)@,
            ),
    {
        let ghost block = aes128_under(self.key@);
        assert(block =~= (|b: Seq<u8>| aes128_encrypt_block(self.key@, b)));
        let next = cfb_encrypt(&self.key, &self.enc, buf);
        proof {
            lemma_settled_inside_block(block, state_of(self.enc), old(buf)@);
        }
        self.enc = next;
    }

    /// Decrypts `buf` in place, continuing the inbound keystream from where
    /// the previous call left it. The outbound cursor is not touched.
    pub fn decrypt(&mut self, buf: &mut Vec<u8>)
        requires
            old(self).wf(),
        ensures
            final(self).wf(),
            final(self).key_bytes() == old(self).key_bytes(),
            final(self).iv_bytes() == old(self).iv_bytes(),
            final(self).enc_state() == old(self).enc_state(),
            (final(buf)@, final(self).dec_state()) == cfb_decrypt_spec(
                aes128_under(old(self).key_bytes()),
                old(self).dec_state(),
                old(buf)@,
            ),
    {
        let ghost block = aes128_under(self.key@);
        assert(block =~= (|b: Seq<u8>| aes128_encrypt_block(self.key@, b)));
        let next = cfb_decrypt(&self.key, &self.dec, buf);
        proof {
            lemma_settled_inside_block(block, state_of(self.dec), old(buf)@);
        }
        self.dec = next;
    }
}

/// Key derivation is deterministic: two ciphers whose keys were derived from
/// the same token hold the same 16-byte key.
pub proof fn lemma_key_deterministic(a: FrpCoder, b: FrpCoder, token: Seq<u8>)
    requires
        a.key_bytes() == channel_key(token),
        b.key_bytes() == channel_key(token),
    ensures
        a.key_bytes() == b.key_bytes(),
        a.key_bytes().len() == BLOCK_LEN,
{
}

/// A settled cursor, and any cursor that encryption or decryption leaves,
/// sits inside a block.
pub proof fn lemma_settled_inside_block(block: spec_fn(Seq<u8>) -> Seq<u8>, st: (Seq<u8>, nat), data: Seq<u8>)
    ensures
        settle(block, st).1 < BLOCK_LEN,
        cfb_encrypt_spec(block, st, data).1.1 < BLOCK_LEN,
        cfb_decrypt_spec(block, st, data).1.1 < BLOCK_LEN,
    decreases data.len(),
{
    if data.len() > 0 {
        lemma_settled_inside_block(block, st, data.drop_last());
    }
}

/// Encrypting `a` and then `b` from where `a` left the cursor gives the same
/// ciphertext and the same cursor as encrypting `a + b` in one call: the
/// keystream does not depend on where buffers end.
pub proof fn lemma_encrypt_split(block: spec_fn(Seq<u8>) -> Seq<u8>, st: (Seq<u8>, nat), a: Seq<u8>, b: Seq<u8>)
    ensures
        cfb_encrypt_spec(block, st, a + b) == ({
            let first = cfb_encrypt_spec(block, st, a);
            let second = cfb_encrypt_spec(block, first.1, b);
            (first.0 + second.0, second.1)
        }),
    decreases b.len(),
{
    let first = cfb_encrypt_spec(block, st, a);
    if b.len() == 0 {
        lemma_settled_inside_block(block, st, a);
        assert(a + b =~= a);
        assert(first.0 + Seq::<u8>::empty() =~= first.0);
    } else {
        lemma_encrypt_split(block, st, a, b.drop_last());
        assert((a + b).drop_last() =~= a + b.drop_last());
        let second = cfb_encrypt_spec(block, first.1, b.drop_last());
        let c = b.last() ^ keystream_byte(second.1);
        assert(first.0 + second.0.push(c) =~= (first.0 + second.0).push(c));
    }
}

/// Decrypting `a` and then `b` from where `a` left the cursor gives the same
/// plaintext and the same cursor as decrypting `a + b` in one call.
pub proof fn lemma_decrypt_split(block: spec_fn(Seq<u8>) -> Seq<u8>, st: (Seq<u8>, nat), a: Seq<u8>, b: Seq<u8>)
    ensures
        cfb_decrypt_spec(block, st, a + b) == ({
            let first = cfb_decrypt_spec(block, st, a);
            let second = cfb_decrypt_spec(block, first.1, b);
            (first.0 + second.0, second.1)
        }),
    decreases b.len(),
{
    let first = cfb_decrypt_spec(block, st, a);
    if b.len() == 0 {
        lemma_settled_inside_block(block, st, a);
        assert(a + b =~= a);
        assert(first.0 + Seq::<u8>::empty() =~= first.0);
    } else {
        lemma_decrypt_split(block, st, a, b.drop_last());
        assert((a + b).drop_last() =~= a + b.drop_last());
        let second = cfb_decrypt_spec(block, first.1, b.drop_last());
        let p = b.last() ^ keystream_byte(second.1);
        assert(first.0 + second.0.push(p) =~= (first.0 + second.0).push(p));
    }
}

proof fn lemma_xor_twice(p: u8, k: u8)
    ensures
        (p ^ k) ^ k == p,
{
    assert((p ^ k) ^ k == p) by (bit_vector);
}

/// Decrypting the ciphertext of `data` from the same starting cursor gives
/// `data` back, and leaves the decrypting cursor where the encrypting one
/// stopped.
pub proof fn lemma_round_trip(block: spec_fn(Seq<u8>) -> Seq<u8>, st: (Seq<u8>, nat), data: Seq<u8>)
    ensures
        cfb_decrypt_spec(block, st, cfb_encrypt_spec(block, st, data).0) == (data, cfb_encrypt_spec(block, st, data).1),
    decreases data.len(),
{
    let enc = cfb_encrypt_spec(block, st, data);
    if data.len() == 0 {
        assert(enc.0 =~= Seq::<u8>::empty());
    } else {
        let prev = cfb_encrypt_spec(block, st, data.drop_last());
        lemma_round_trip(block, st, data.drop_last());
        let c = data.last() ^ keystream_byte(prev.1);
        assert(enc.0.drop_last() =~= prev.0);
        lemma_xor_twice(data.last(), keystream_byte(prev.1));
        assert(data.drop_last().push(data.last()) =~= data);
    }
}

/// Ciphertext and final cursor of a run of encrypt calls, one per buffer of
/// `chunks`, each starting where the one before stopped.
pub open spec fn encrypt_chunks(block: spec_fn(Seq<u8>) -> Seq<u8>, st: (Seq<u8>, nat), chunks: Seq<Seq<u8>>) -> (Seq<u8>, (Seq<u8>, nat))
    decreases chunks.len(),
{
    if chunks.len() == 0 {
        (Seq::empty(), settle(block, st))
    } else {
        let prev = encrypt_chunks(block, st, chunks.drop_last());
        let last = cfb_encrypt_spec(block, prev.1, chunks.last());
        (prev.0 + last.0, last.1)
    }
}

/// Plaintext and final cursor of a run of decrypt calls, one per buffer of
/// `chunks`, each starting where the one before stopped.
pub open spec fn decrypt_chunks(block: spec_fn(Seq<u8>) -> Seq<u8>, st: (Seq<u8>, nat), chunks: Seq<Seq<u8>>) -> (Seq<u8>, (Seq<u8>, nat))
    decreases chunks.len(),
{
    if chunks.len() == 0 {
        (Seq::empty(), settle(block, st))
    } else {
        let prev = decrypt_chunks(block, st, chunks.drop_last());
        let last = cfb_decrypt_spec(block, prev.1, chunks.last());
        (prev.0 + last.0, last.1)
    }
}

/// A run of encrypt calls over any split of a byte sequence gives what one
/// call over the whole sequence gives; likewise for decrypt calls.
pub proof fn lemma_chunking_invariant(block: spec_fn(Seq<u8>) -> Seq<u8>, st: (Seq<u8>, nat), chunks: Seq<Seq<u8>>)
    ensures
        encrypt_chunks(block, st, chunks) == cfb_encrypt_spec(block, st, chunks.flatten()),
        decrypt_chunks(block, st, chunks) == cfb_decrypt_spec(block, st, chunks.flatten()),
    decreases chunks.len(),
{
    if chunks.len() > 0 {
        lemma_chunking_invariant(block, st, chunks.drop_last());
        chunks.drop_last().lemma_flatten_push(chunks.last());
        assert(chunks.drop_last().push(chunks.last()) =~= chunks);
        lemma_encrypt_split(block, st, chunks.drop_last().flatten(), chunks.last());
        lemma_decrypt_split(block, st, chunks.drop_last().flatten(), chunks.last());
    }
}

/// Round trip across any buffer boundaries: encrypt `sent` buffer by buffer,
/// then decrypt the resulting ciphertext cut up in any other way, from the
/// same starting cursor; the plaintext that comes out is all of `sent`.
pub proof fn lemma_round_trip_chunked(
    block: spec_fn(Seq<u8>) -> Seq<u8>,
    st: (Seq<u8>, nat),
    sent: Seq<Seq<u8>>,
    received: Seq<Seq<u8>>,
)
    requires
        received.flatten() == encrypt_chunks(block, st, sent).0,
    ensures
        decrypt_chunks(block, st, received).0 == sent.flatten(),
{
    lemma_chunking_invariant(block, st, sent);
    lemma_chunking_invariant(block, st, received);
    lemma_round_trip(block, st, sent.flatten());
}

/// For one cipher: a run of encrypt calls over any split of a byte sequence
/// yields what one call over the whole sequence yields, and likewise for a
/// run of decrypt calls.
pub proof fn lemma_coder_chunking(coder: FrpCoder, chunks: Seq<Seq<u8>>)
    ensures
        encrypt_chunks(aes128_under(coder.key_bytes()), coder.enc_state(), chunks).0
            == cfb_encrypt_spec(aes128_under(coder.key_bytes()), coder.enc_state(), chunks.flatten()).0,
        decrypt_chunks(aes128_under(coder.key_bytes()), coder.dec_state(), chunks).0
            == cfb_decrypt_spec(aes128_under(coder.key_bytes()), coder.dec_state(), chunks.flatten()).0,
{
    lemma_chunking_invariant(aes128_under(coder.key_bytes()), coder.enc_state(), chunks);
    lemma_chunking_invariant(aes128_under(coder.key_bytes()), coder.dec_state(), chunks);
}

/// Round trip between two ciphers with the same key whose receiving cursor
/// stands where the sending one does (as for two ciphers made by `new` from
/// the same token and IV, or for one cipher just made): the sender encrypts
/// `sent` buffer by buffer, the receiver decrypts that ciphertext cut up in
/// any way, and gets all of `sent` back.
pub proof fn lemma_coder_round_trip(
    sender: FrpCoder,
    receiver: FrpCoder,
    sent: Seq<Seq<u8>>,
    received: Seq<Seq<u8>>,
)
    requires
        sender.key_bytes() == receiver.key_bytes(),
        sender.enc_state() == receiver.dec_state(),
        received.flatten() == encrypt_chunks(aes128_under(sender.key_bytes()), sender.enc_state(), sent).0,
    ensures
        decrypt_chunks(aes128_under(receiver.key_bytes()), receiver.dec_state(), received).0 == sent.flatten(),
{
    lemma_round_trip_chunked(aes128_under(sender.key_bytes()), sender.enc_state(), sent, received);
}

} // verus!
