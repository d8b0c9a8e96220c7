//! The secure-channel engine: per-PD session keys derived from a base
//! key through a three-message challenge/response handshake, and the
//! per-packet protection (counter-mode encryption and a truncated CMAC)
//! applied once the session is Active. The base key itself is never
//! transmitted; each side proves knowledge of it through a cryptogram
//! over both nonces. Any MAC failure on receipt invalidates the session,
//! forcing a fresh handshake.

use vstd::prelude::*;
use vstd::slice::slice_subrange;

use crate::codec::PacketHeader;
use crate::codec::addr_byte;
use crate::codec::ctrl_byte;
use crate::codec::spec_addr_byte;
use crate::codec::spec_ctrl_byte;
use crate::commands::push_bytes;
use crate::crypto::aes128_encrypt;
use crate::crypto::be32;
use crate::crypto::ctr_xor;
use crate::crypto::lemma_ctr_round_trip;
use crate::crypto::mac4;
use crate::crypto::spec_aes128;
use crate::crypto::spec_be32;
use crate::crypto::spec_ctr_xor;
use crate::crypto::spec_mac4;

verus! {

/// The tri-state life cycle of a secure-channel session.
#[derive(Clone, Copy, Debug, PartialEq, Eq, Structural)]
pub enum ScStatus {
    /// No session: traffic is plain.
    Inactive,
    /// The challenge/response handshake is under way.
    Handshaking,
    /// Session keys are agreed; traffic is encrypted and authenticated.
    Active,
}

/// The well-known default base key used for the single provisioning
/// handshake a PD in install mode permits.
pub open spec fn spec_default_scbk() -> Seq<u8> {
    seq![
        0x30u8,
        0x31u8,
        0x32u8,
        0x33u8,
        0x34u8,
        0x35u8,
        0x36u8,
        0x37u8,
        0x38u8,
        0x39u8,
        0x3au8,
        0x3bu8,
        0x3cu8,
        0x3du8,
        0x3eu8,
        0x3fu8,
    ]
}

/// Build the well-known default base key.
pub fn default_scbk() -> (r: Vec<u8>)
    ensures
        r@ =~= spec_default_scbk(),
        r@.len() == 16,
{
    let mut v: Vec<u8> = Vec::new();
    let mut i: u8 = 0x30;
    while i < 0x40
        invariant
            0x30 <= i <= 0x40,
            v@.len() == i - 0x30,
            forall|j: int| 0 <= j < v@.len() ==> v@[j] == (0x30 + j) as u8,
        decreases 0x40 - i,
    {
        v.push(i);
        i = i + 1;
    }
    proof {
        assert(v@ =~= spec_default_scbk());
    }
    v
}

/// The session encryption key derived from a base key and the two
/// handshake nonces.
pub open spec fn spec_derive_enc(base: Seq<u8>, cpn: Seq<u8>, pdn: Seq<u8>) -> Seq<u8> {
    spec_aes128(base, seq![0x01u8, 0x82u8] + cpn + pdn.subrange(0, 6))
}

/// The session MAC key derived from a base key and the two handshake
/// nonces.
pub open spec fn spec_derive_mac(base: Seq<u8>, cpn: Seq<u8>, pdn: Seq<u8>) -> Seq<u8> {
    spec_aes128(base, seq![0x02u8, 0x82u8] + cpn + pdn.subrange(0, 6))
}

/// The PD's keyed proof value: a function of the base key and both
/// nonces, transmitted instead of the key itself.
pub open spec fn spec_pd_cryptogram(base: Seq<u8>, cpn: Seq<u8>, pdn: Seq<u8>) -> Seq<u8> {
    spec_aes128(base, cpn + pdn)
}

/// The CP's keyed confirmation value, over the same nonces in the
/// opposite order.
pub open spec fn spec_cp_cryptogram(base: Seq<u8>, cpn: Seq<u8>, pdn: Seq<u8>) -> Seq<u8> {
    spec_aes128(base, pdn + cpn)
}

fn derive_block(tag: u8, cpn: &Vec<u8>, pdn: &Vec<u8>) -> (r: Vec<u8>)
    requires
        cpn@.len() == 8,
        pdn@.len() == 8,
    ensures
        r@ =~= seq![tag, 0x82u8] + cpn@ + pdn@.subrange(0, 6),
{
    let mut b: Vec<u8> = Vec::new();
    b.push(tag);
    b.push(0x82);
    push_bytes(&mut b, cpn.as_slice());
    push_bytes(&mut b, slice_subrange(pdn.as_slice(), 0, 6));
    b
}

/// Derive the session encryption key.
pub fn derive_enc_key(base: &Vec<u8>, cpn: &Vec<u8>, pdn: &Vec<u8>) -> (r: Vec<u8>)
    requires
        base@.len() == 16,
        cpn@.len() == 8,
        pdn@.len() == 8,
    ensures
        r@ =~= spec_derive_enc(base@, cpn@, pdn@),
        r@.len() == 16,
{
    let b = derive_block(0x01, cpn, pdn);
    aes128_encrypt(base, &b)
}

/// Derive the session MAC key.
pub fn derive_mac_key(base: &Vec<u8>, cpn: &Vec<u8>, pdn: &Vec<u8>) -> (r: Vec<u8>)
    requires
        base@.len() == 16,
        cpn@.len() == 8,
        pdn@.len() == 8,
    ensures
        r@ =~= spec_derive_mac(base@, cpn@, pdn@),
        r@.len() == 16,
{
    let b = derive_block(0x02, cpn, pdn);
    aes128_encrypt(base, &b)
}

fn concat_nonces(a: &Vec<u8>, b: &Vec<u8>) -> (r: Vec<u8>)
    requires
        a@.len() == 8,
        b@.len() == 8,
    ensures
        r@ =~= a@ + b@,
{
    let mut v: Vec<u8> = Vec::new();
    push_bytes(&mut v, a.as_slice());
    push_bytes(&mut v, b.as_slice());
    v
}

/// Compute the PD's proof value.
pub fn pd_cryptogram(base: &Vec<u8>, cpn: &Vec<u8>, pdn: &Vec<u8>) -> (r: Vec<u8>)
    requires
        base@.len() == 16,
        cpn@.len() == 8,
        pdn@.len() == 8,
    ensures
        r@ =~= spec_pd_cryptogram(base@, cpn@, pdn@),
        r@.len() == 16,
{
    let b = concat_nonces(cpn, pdn);
    aes128_encrypt(base, &b)
}

/// Compute the CP's confirmation value.
pub fn cp_cryptogram(base: &Vec<u8>, cpn: &Vec<u8>, pdn: &Vec<u8>) -> (r: Vec<u8>)
    requires
        base@.len() == 16,
        cpn@.len() == 8,
        pdn@.len() == 8,
    ensures
        r@ =~= spec_cp_cryptogram(base@, cpn@, pdn@),
        r@.len() == 16,
{
    let b = concat_nonces(pdn, cpn);
    aes128_encrypt(base, &b)
}

/// Per-PD secure-channel state: the base key, the nonces of the running
/// handshake, the derived session keys and the message counters.
#[derive(Clone, Debug)]
pub struct SecureChannelSession {
    /// Where the session stands.
    pub status: ScStatus,
    /// The 16-byte base key (the default key in install mode).
    pub base_key: Vec<u8>,
    /// The CP-generated handshake nonce.
    pub cp_nonce: Vec<u8>,
    /// The PD-generated handshake nonce.
    pub pd_nonce: Vec<u8>,
    /// The derived session encryption key.
    pub s_enc: Vec<u8>,
    /// The derived session MAC key.
    pub s_mac: Vec<u8>,
    /// Counter stamped on the next protected message we send.
    pub send_counter: u32,
    /// Lowest counter we accept on the next protected message received.
    pub recv_counter: u32,
}

impl SecureChannelSession {
    /// Structural well-formedness: all key material has its fixed size.
    pub open spec fn spec_wf(&self) -> bool {
        self.base_key@.len() == 16 && self.cp_nonce@.len() == 8 && self.pd_nonce@.len() == 8
            && self.s_enc@.len() == 16 && self.s_mac@.len() == 16
    }

    /// A fresh, inactive session over a configured base key, or over the
    /// default key when none is configured (install mode).
    pub fn new(key: Option<[u8; 16]>) -> (r: SecureChannelSession)
        ensures
            r.spec_wf(),
            r.status == ScStatus::Inactive,
            key matches Some(k) ==> r.base_key@ =~= k@,
            key is None ==> r.base_key@ =~= spec_default_scbk(),
    {
        let base_key = match key {
            Some(k) => {
                let mut v: Vec<u8> = Vec::new();
                let mut i: usize = 0;
                while i < 16
                    invariant
                        i <= 16,
                        v@ =~= k@.take(i as int),
                    decreases 16 - i,
                {
                    v.push(k[i]);
                    i = i + 1;
                    proof {
                        assert(v@ =~= k@.take(i as int));
                    }
                }
                proof {
                    assert(k@.take(16) =~= k@);
                }
                v
            },
            None => default_scbk(),
        };
        let zero8 = {
            let mut z: Vec<u8> = Vec::new();
            let mut i: usize = 0;
            while i < 8
                invariant
                    i <= 8,
                    z@.len() == i,
                decreases 8 - i,
            {
                z.push(0);
                i = i + 1;
            }
            z
        };
        let zero8b = {
            let mut z: Vec<u8> = Vec::new();
            let mut i: usize = 0;
            while i < 8
                invariant
                    i <= 8,
                    z@.len() == i,
                decreases 8 - i,
            {
                z.push(0);
                i = i + 1;
            }
            z
        };
        let zero16 = {
            let mut z: Vec<u8> = Vec::new();
            let mut i: usize = 0;
            while i < 16
                invariant
                    i <= 16,
                    z@.len() == i,
                decreases 16 - i,
            {
                z.push(0);
                i = i + 1;
            }
            z
        };
        let zero16b = {
            let mut z: Vec<u8> = Vec::new();
            let mut i: usize = 0;
            while i < 16
                invariant
                    i <= 16,
                    z@.len() == i,
                decreases 16 - i,
            {
                z.push(0);
                i = i + 1;
            }
            z
        };
        SecureChannelSession {
            status: ScStatus::Inactive,
            base_key,
            cp_nonce: zero8,
            pd_nonce: zero8b,
            s_enc: zero16,
            s_mac: zero16b,
            send_counter: 0,
            recv_counter: 0,
        }
    }

    /// Drop the session back to Inactive, discarding the handshake
    /// progress. The base key survives so a new handshake can run.
    pub fn invalidate(&mut self)
        requires
            old(self).spec_wf(),
        ensures
            final(self).spec_wf(),
            final(self).status == ScStatus::Inactive,
            final(self).base_key@ == old(self).base_key@,
    {
        self.status = ScStatus::Inactive;
    }

    /// CP side: open the handshake with a fresh CP nonce. Returns the
    /// nonce to carry in the challenge message.
    pub fn cp_begin(&mut self, nonce: [u8; 8]) -> (r: Vec<u8>)
        requires
            old(self).spec_wf(),
        ensures
            final(self).spec_wf(),
            final(self).status == ScStatus::Handshaking,
            final(self).cp_nonce@ =~= nonce@,
            final(self).base_key@ == old(self).base_key@,
            r@ =~= nonce@,
    {
        let mut v: Vec<u8> = Vec::new();
        let mut i: usize = 0;
        while i < 8
            invariant
                i <= 8,
                v@ =~= nonce@.take(i as int),
            decreases 8 - i,
        {
            v.push(nonce[i]);
            i = i + 1;
            proof {
                assert(v@ =~= nonce@.take(i as int));
            }
        }
        proof {
            assert(nonce@.take(8) =~= nonce@);
        }
        let mut r: Vec<u8> = Vec::new();
        push_bytes(&mut r, v.as_slice());
        self.cp_nonce = v;
        self.status = ScStatus::Handshaking;
        r
    }

    /// PD side: answer a challenge. Stores both nonces, derives the
    /// session keys speculatively and returns the PD cryptogram proving
    /// knowledge of the base key.
    pub fn pd_on_chlng(&mut self, cp_nonce: &Vec<u8>, pd_nonce: [u8; 8]) -> (r: Vec<u8>)
        requires
            old(self).spec_wf(),
            cp_nonce@.len() == 8,
        ensures
            final(self).spec_wf(),
            final(self).status == ScStatus::Handshaking,
            final(self).base_key@ == old(self).base_key@,
            final(self).cp_nonce@ =~= cp_nonce@,
            final(self).pd_nonce@ =~= pd_nonce@,
            final(self).s_enc@ =~= spec_derive_enc(old(self).base_key@, cp_nonce@, pd_nonce@),
            final(self).s_mac@ =~= spec_derive_mac(old(self).base_key@, cp_nonce@, pd_nonce@),
            final(self).send_counter == 0 && final(self).recv_counter == 0,
            r@ =~= spec_pd_cryptogram(old(self).base_key@, cp_nonce@, pd_nonce@),
            r@.len() == 16,
    {
        let mut cpn: Vec<u8> = Vec::new();
        push_bytes(&mut cpn, cp_nonce.as_slice());
        let mut pdn: Vec<u8> = Vec::new();
        let mut i: usize = 0;
        while i < 8
            invariant
                i <= 8,
                pdn@ =~= pd_nonce@.take(i as int),
            decreases 8 - i,
        {
            pdn.push(pd_nonce[i]);
            i = i + 1;
            proof {
                assert(pdn@ =~= pd_nonce@.take(i as int));
            }
        }
        proof {
            assert(pd_nonce@.take(8) =~= pd_nonce@);
        }
        let s_enc = derive_enc_key(&self.base_key, &cpn, &pdn);
        let s_mac = derive_mac_key(&self.base_key, &cpn, &pdn);
        let proof_value = pd_cryptogram(&self.base_key, &cpn, &pdn);
        self.cp_nonce = cpn;
        self.pd_nonce = pdn;
        self.s_enc = s_enc;
        self.s_mac = s_mac;
        self.send_counter = 0;
        self.recv_counter = 0;
        self.status = ScStatus::Handshaking;
        proof_value
    }

    /// CP side: check the PD's response. On a matching proof value the
    /// CP derives the same session keys and returns its confirmation
    /// cryptogram; on a mismatch the handshake fails and the session
    /// reverts to Inactive (with no detail of why, to avoid key-recovery
    /// side channels).
    pub fn cp_on_ccrypt(&mut self, pd_nonce: &Vec<u8>, cryptogram: &Vec<u8>) -> (r: Option<Vec<u8>>)
        requires
            old(self).spec_wf(),
            old(self).status == ScStatus::Handshaking,
            pd_nonce@.len() == 8,
        ensures
            final(self).spec_wf(),
            final(self).base_key@ == old(self).base_key@,
            final(self).cp_nonce@ == old(self).cp_nonce@,
            cryptogram@ == spec_pd_cryptogram(
                old(self).base_key@,
                old(self).cp_nonce@,
                pd_nonce@,
            ) <==> r is Some,
            r matches Some(v) ==> {
                &&& final(self).status == ScStatus::Handshaking
                &&& final(self).pd_nonce@ =~= pd_nonce@
                &&& final(self).s_enc@ =~= spec_derive_enc(
                    old(self).base_key@,
                    old(self).cp_nonce@,
                    pd_nonce@,
                )
                &&& final(self).s_mac@ =~= spec_derive_mac(
                    old(self).base_key@,
                    old(self).cp_nonce@,
                    pd_nonce@,
                )
                &&& final(self).send_counter == 0 && final(self).recv_counter == 0
                &&& v@ =~= spec_cp_cryptogram(old(self).base_key@, old(self).cp_nonce@, pd_nonce@)
            },
            r is None ==> final(self).status == ScStatus::Inactive,
    {
        let mut pdn: Vec<u8> = Vec::new();
        push_bytes(&mut pdn, pd_nonce.as_slice());
        let expected = pd_cryptogram(&self.base_key, &self.cp_nonce, &pdn);
        if !bytes_eq(cryptogram.as_slice(), expected.as_slice()) {
            self.status = ScStatus::Inactive;
            return None;
        }
        let s_enc = derive_enc_key(&self.base_key, &self.cp_nonce, &pdn);
        let s_mac = derive_mac_key(&self.base_key, &self.cp_nonce, &pdn);
        let confirmation = cp_cryptogram(&self.base_key, &self.cp_nonce, &pdn);
        self.pd_nonce = pdn;
        self.s_enc = s_enc;
        self.s_mac = s_mac;
        self.send_counter = 0;
        self.recv_counter = 0;
        Some(confirmation)
    }

    /// PD side: check the CP's confirmation. On a match the session goes
    /// Active; on a mismatch it reverts to Inactive.
    pub fn pd_on_scrypt(&mut self, cryptogram: &Vec<u8>) -> (r: bool)
        requires
            old(self).spec_wf(),
            old(self).status == ScStatus::Handshaking,
        ensures
            final(self).spec_wf(),
            final(self).base_key@ == old(self).base_key@,
            final(self).s_enc@ == old(self).s_enc@,
            final(self).s_mac@ == old(self).s_mac@,
            final(self).cp_nonce@ == old(self).cp_nonce@,
            final(self).pd_nonce@ == old(self).pd_nonce@,
            final(self).send_counter == old(self).send_counter,
            final(self).recv_counter == old(self).recv_counter,
            r <==> cryptogram@ == spec_cp_cryptogram(
                old(self).base_key@,
                old(self).cp_nonce@,
                old(self).pd_nonce@,
            ),
            r ==> final(self).status == ScStatus::Active,
            !r ==> final(self).status == ScStatus::Inactive,
    {
        let expected = cp_cryptogram(&self.base_key, &self.cp_nonce, &self.pd_nonce);
        if bytes_eq(cryptogram.as_slice(), expected.as_slice()) {
            self.status = ScStatus::Active;
            true
        } else {
            self.status = ScStatus::Inactive;
            false
        }
    }

    /// CP side: complete the handshake once the PD's protected
    /// acknowledgement verified.
    pub fn cp_complete(&mut self)
        requires
            old(self).spec_wf(),
        ensures
            final(self).spec_wf(),
            *final(self) == (SecureChannelSession { status: ScStatus::Active, ..*old(self) }),
    {
        self.status = ScStatus::Active;
    }
}

/// Relies on rand::random: a fresh value drawn from the thread-local
/// cryptographically secure generator. Nothing can be promised of a
/// random value, so this carries no contract; every proof about the
/// handshake holds for every nonce value.
pub assume_specification<T>[ rand::random::<T> ]() -> (r: T)
    where
        rand::distr::StandardUniform: rand::distr::Distribution<T>,
;

/// Byte-wise equality of two slices.
pub(crate) fn bytes_eq(a: &[u8], b: &[u8]) -> (r: bool)
    ensures
        r == (a@ =~= b@),
{
    if a.len() != b.len() {
        return false;
    }
    let mut i: usize = 0;
    while i < a.len()
        invariant
            i <= a@.len(),
            a@.len() == b@.len(),
            forall|j: int| 0 <= j < i ==> a@[j] == b@[j],
        decreases a@.len() - i,
    {
        if a[i] != b[i] {
            return false;
        }
        i = i + 1;
    }
    true
}

/// The associated data a protected message's MAC covers: the frame
/// header bytes, the message counter and the ciphertext.
pub open spec fn spec_assoc(h: PacketHeader, counter: u32, ct: Seq<u8>) -> Seq<u8> {
    seq![spec_addr_byte(h), spec_ctrl_byte(h)] + spec_be32(counter) + ct
}

/// The protected (encrypted and authenticated) wire form of a message
/// under session keys: counter, ciphertext, truncated MAC.
pub open spec fn spec_wrap(
    s_enc: Seq<u8>,
    s_mac: Seq<u8>,
    cpn: Seq<u8>,
    counter: u32,
    h: PacketHeader,
    msg: Seq<u8>,
) -> Seq<u8> {
    let ct = spec_ctr_xor(s_enc, cpn, counter, msg);
    spec_be32(counter) + ct + spec_mac4(s_mac, spec_assoc(h, counter, ct))
}

/// What unwrapping an envelope yields: the plaintext when the counter is
/// fresh and the MAC over header and ciphertext verifies, nothing
/// otherwise.
pub open spec fn spec_unwrap(
    s_enc: Seq<u8>,
    s_mac: Seq<u8>,
    cpn: Seq<u8>,
    recv_counter: u32,
    h: PacketHeader,
    env: Seq<u8>,
) -> Option<Seq<u8>> {
    if env.len() < 8 {
        None
    } else {
        let counter = ((env[0] as u32) << 24 | (env[1] as u32) << 16 | (env[2] as u32) << 8 | (
        env[3] as u32));
        let ct = env.subrange(4, env.len() - 4);
        let mac = env.subrange(env.len() - 4, env.len() as int);
        if counter >= recv_counter && counter < 0xffffffff && mac == spec_mac4(
            s_mac,
            spec_assoc(h, counter, ct),
        ) {
            Some(spec_ctr_xor(s_enc, cpn, counter, ct))
        } else {
            None
        }
    }
}

impl SecureChannelSession {
    /// Protect a message for sending: encrypt it in counter mode and
    /// append the truncated MAC over header, counter and ciphertext.
    /// Advances the send counter.
    pub fn wrap_secure(&mut self, h: &PacketHeader, msg: &[u8]) -> (r: Vec<u8>)
        requires
            old(self).spec_wf(),
            msg@.len() < 0x10000,
            old(self).send_counter < 0xffffffff,
        ensures
            final(self).spec_wf(),
            r@ =~= spec_wrap(
                old(self).s_enc@,
                old(self).s_mac@,
                old(self).cp_nonce@,
                old(self).send_counter,
                *h,
                msg@,
            ),
            *final(self) == (SecureChannelSession {
                send_counter: (old(self).send_counter + 1) as u32,
                ..*old(self)
            }),
    {
        let counter = self.send_counter;
        let ct = ctr_xor(&self.s_enc, &self.cp_nonce, counter, msg);
        let mut assoc: Vec<u8> = Vec::new();
        assoc.push(addr_byte(h));
        assoc.push(ctrl_byte(h));
        let cb = be32(counter);
        push_bytes(&mut assoc, cb.as_slice());
        push_bytes(&mut assoc, ct.as_slice());
        proof {
            assert(assoc@ =~= spec_assoc(*h, counter, ct@));
        }
        let mac = mac4(&self.s_mac, assoc.as_slice());
        let mut out: Vec<u8> = Vec::new();
        push_bytes(&mut out, cb.as_slice());
        push_bytes(&mut out, ct.as_slice());
        push_bytes(&mut out, mac.as_slice());
        self.send_counter = counter + 1;
        proof {
            assert(out@ =~= spec_wrap(
                old(self).s_enc@,
                old(self).s_mac@,
                old(self).cp_nonce@,
                counter,
                *h,
                msg@,
            ));
        }
        out
    }

    /// Check and open a protected message. On a stale counter or a MAC
    /// that does not verify over the received header and ciphertext the
    /// session is invalidated (fatal per session, recoverable per bus by
    /// a new handshake) and nothing is returned; the corrupted payload is
    /// never handed on.
    pub fn unwrap_secure(&mut self, h: &PacketHeader, env: &[u8]) -> (r: Option<Vec<u8>>)
        requires
            old(self).spec_wf(),
            env@.len() < 0x10000,
        ensures
            final(self).spec_wf(),
            final(self).base_key@ == old(self).base_key@,
            r matches Some(p) ==> {
                &&& spec_unwrap(
                    old(self).s_enc@,
                    old(self).s_mac@,
                    old(self).cp_nonce@,
                    old(self).recv_counter,
                    *h,
                    env@,
                ) == Some(p@)
                &&& final(self).status == old(self).status
                &&& final(self).s_enc@ == old(self).s_enc@
                &&& final(self).s_mac@ == old(self).s_mac@
                &&& final(self).cp_nonce@ == old(self).cp_nonce@
                &&& final(self).pd_nonce@ == old(self).pd_nonce@
                &&& final(self).send_counter == old(self).send_counter
            },
            r is None ==> {
                &&& spec_unwrap(
                    old(self).s_enc@,
                    old(self).s_mac@,
                    old(self).cp_nonce@,
                    old(self).recv_counter,
                    *h,
                    env@,
                ) is None
                &&& final(self).status == ScStatus::Inactive
            },
    {
        if env.len() < 8 {
            self.status = ScStatus::Inactive;
            return None;
        }
        let counter: u32 = (env[0] as u32) << 24 | (env[1] as u32) << 16 | (env[2] as u32) << 8 | (
        env[3] as u32);
        let ct = slice_subrange(env, 4, env.len() - 4);
        let mac = slice_subrange(env, env.len() - 4, env.len());
        let mut assoc: Vec<u8> = Vec::new();
        assoc.push(addr_byte(h));
        assoc.push(ctrl_byte(h));
        let cb = be32(counter);
        push_bytes(&mut assoc, cb.as_slice());
        push_bytes(&mut assoc, ct);
        proof {
            assert(assoc@ =~= spec_assoc(*h, counter, ct@));
        }
        let expected = mac4(&self.s_mac, assoc.as_slice());
        if counter < self.recv_counter || counter == 0xffffffff || !bytes_eq(
            mac,
            expected.as_slice(),
        ) {
            self.status = ScStatus::Inactive;
            return None;
        }
        self.recv_counter = counter + 1;
        let pt = ctr_xor(&self.s_enc, &self.cp_nonce, counter, ct);
        Some(pt)
    }
}

/// Handshake convergence, at the message level. Both ends derive their
/// session keys by the same functions of the base key and the two
/// exchanged nonces (`pd_on_chlng` and `cp_on_ccrypt` state exactly
/// that), so key agreement is by construction; what remains to show is
/// that the keys work: a message one side protects under the derived
/// keys opens on the other side at the initial counters, which is how
/// the PD's protected acknowledgement proves the agreement to the CP
/// and completes the handshake. Driven over a lossless exchange, the
/// two state machines therefore reach Active with identical keys
/// within one challenge/response/confirmation round.
pub proof fn lemma_handshake_key_agreement(
    base: Seq<u8>,
    cpn: Seq<u8>,
    pdn: Seq<u8>,
    h: PacketHeader,
    msg: Seq<u8>,
)
    requires
        base.len() == 16,
        cpn.len() == 8,
        pdn.len() == 8,
    ensures
        spec_unwrap(
            spec_derive_enc(base, cpn, pdn),
            spec_derive_mac(base, cpn, pdn),
            cpn,
            0,
            h,
            spec_wrap(
                spec_derive_enc(base, cpn, pdn),
                spec_derive_mac(base, cpn, pdn),
                cpn,
                0,
                h,
                msg,
            ),
        ) == Some(msg),
{
    lemma_wrap_unwrap(
        spec_derive_enc(base, cpn, pdn),
        spec_derive_mac(base, cpn, pdn),
        cpn,
        0,
        0,
        h,
        msg,
    );
}

/// A message protected under matching session state always opens: the
/// counter is echoed, the MAC verifies, and decryption undoes the
/// encryption.
pub proof fn lemma_wrap_unwrap(
    s_enc: Seq<u8>,
    s_mac: Seq<u8>,
    cpn: Seq<u8>,
    counter: u32,
    recv_counter: u32,
    h: PacketHeader,
    msg: Seq<u8>,
)
    requires
        counter >= recv_counter,
        counter < 0xffffffff,
    ensures
        spec_unwrap(s_enc, s_mac, cpn, recv_counter, h, spec_wrap(
            s_enc,
            s_mac,
            cpn,
            counter,
            h,
            msg,
        )) == Some(msg),
{
    let ct = spec_ctr_xor(s_enc, cpn, counter, msg);
    let env = spec_wrap(s_enc, s_mac, cpn, counter, h, msg);
    assert(env.len() == 8 + msg.len());
    assert(env[0] == (counter >> 24) as u8 && env[1] == (counter >> 16) as u8 && env[2] == (counter
        >> 8) as u8 && env[3] == counter as u8);
    assert((((counter >> 24) as u8) as u32) << 24 | (((counter >> 16) as u8) as u32) << 16 | (((
    counter >> 8) as u8) as u32) << 8 | ((counter as u8) as u32) == counter) by (bit_vector);
    assert(env.subrange(4, env.len() - 4) =~= ct);
    assert(env.subrange(env.len() - 4, env.len() as int) =~= spec_mac4(
        s_mac,
        spec_assoc(h, counter, ct),
    ));
    lemma_ctr_round_trip(s_enc, cpn, counter, msg);
}

} // verus!
