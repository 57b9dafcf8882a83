//! Parking of the bot's state: what is stored, sealed under a key, and read
//! back. Storing and reading the sealed bytes is the caller's part.

use vstd::prelude::*;
use std::collections::hash_map::DefaultHasher;
use std::hash::Hasher;
use aes_gcm::aead::{Aead, KeyInit};
use rand::Rng;
use vstd::bytes::{spec_u64_to_le_bytes, u64_to_le_bytes};
use vstd::std_specs::hash::DefaultHasherAdditionalSpecFns;
use crate::base::amount::Amount;
use crate::base::bytes::push_all;
use crate::base::clock::now_ns;

verus! {

/// Why the state is parked.
#[derive(Debug, Clone, Copy, PartialEq, Eq, Structural)]
pub enum ParkingReason {
    NetworkLoss,
    CriticalError,
    ManualStop,
    SystemSleep,
    PowerFailure,
}

/// A position at the time of parking.
#[derive(Debug, Clone)]
pub struct ParkedPosition {
    pub symbol: String,
    /// "long" or "short".
    pub side: String,
    pub quantity: Amount,
    pub entry_price: Amount,
    pub unrealized_pnl: Amount,
}

/// An open order at the time of parking.
#[derive(Debug, Clone)]
pub struct ParkedOrder {
    pub order_id: String,
    pub symbol: String,
    pub side: String,
    pub quantity: Amount,
    pub price: Amount,
    pub order_type: String,
}

/// The state of the bot at the time of parking.
#[derive(Debug, Clone)]
pub struct ParkedState {
    pub timestamp_ns: u64,
    pub reason: ParkingReason,
    pub positions: Vec<ParkedPosition>,
    pub pending_orders: Vec<ParkedOrder>,
    pub strategy_state: Vec<u8>,
    pub checksum: u64,
}

/// Why a state cannot be parked or restored.
#[derive(Debug, Clone, Copy, PartialEq, Eq, Structural)]
pub enum ParkError {
    AlreadyParked,
    EncryptionFailed,
    TooShort,
    DecryptionFailed,
}

impl ParkError {
    /// The error in words.
    pub open spec fn text(self) -> Seq<char> {
        match self {
            ParkError::AlreadyParked => "State already parked"@,
            ParkError::EncryptionFailed => "Encryption failed: aead::Error"@,
            ParkError::TooShort => "Encrypted data too short"@,
            ParkError::DecryptionFailed => "Decryption failed: aead::Error"@,
        }
    }

    /// The error in words.
    pub fn to_string(&self) -> (s: String)
        ensures
            s@ == self.text(),
    {
        match self {
            ParkError::AlreadyParked => "State already parked".to_string(),
            ParkError::EncryptionFailed => "Encryption failed: aead::Error".to_string(),
            ParkError::TooShort => "Encrypted data too short".to_string(),
            ParkError::DecryptionFailed => "Decryption failed: aead::Error".to_string(),
        }
    }
}

/// Length of a nonce in bytes.
pub const NONCE_LEN: usize = 12;

/// The longest plaintext that is encrypted, in bytes.
pub const MAX_PLAINTEXT: u64 = 0x10_0000_0000;

/// `aes_gcm::Error`, which tells nothing but that a call failed.
#[verifier::external_type_specification]
#[verifier::external_body]
pub struct ExCipherError(aes_gcm::Error);

/// The AES-256-GCM encryption of a plaintext under a key and a nonce, followed
/// by its tag.
pub uninterp spec fn sealed(key: Seq<u8>, nonce: Seq<u8>, plaintext: Seq<u8>) -> Seq<u8>;

/// The plaintext of an AES-256-GCM ciphertext with its tag, where the tag is
/// right.
pub uninterp spec fn opened(key: Seq<u8>, nonce: Seq<u8>, ciphertext: Seq<u8>) -> Option<Seq<u8>>;

/// `encrypt` of `aes_gcm::Aes256Gcm`. It fails on a plaintext of more than
/// 2^36 bytes only. Its result is a function of key, nonce and plaintext,
/// sixteen bytes longer than the plaintext, and decrypts to the plaintext.
#[verifier::external_body]
pub(crate) fn encrypt(key: &[u8; 32], nonce: &[u8; 12], plaintext: &[u8]) -> (r: Result<
    Vec<u8>,
    aes_gcm::Error,
>)
    ensures
        r is Ok <==> plaintext@.len() <= MAX_PLAINTEXT,
        r is Ok ==> r->Ok_0@ == sealed(key@, nonce@, plaintext@),
        r is Ok ==> r->Ok_0@.len() == plaintext@.len() + 16,
        r is Ok ==> opened(key@, nonce@, r->Ok_0@) == Some(plaintext@),
{
    let cipher = aes_gcm::Aes256Gcm::new(aes_gcm::Key::<aes_gcm::Aes256Gcm>::from_slice(key));
    cipher.encrypt(aes_gcm::Nonce::from_slice(nonce), plaintext)
}

/// `decrypt` of `aes_gcm::Aes256Gcm`. Whether it fails, and its result, are a
/// function of key, nonce and ciphertext.
#[verifier::external_body]
pub(crate) fn decrypt(key: &[u8; 32], nonce: &[u8; 12], ciphertext: &[u8]) -> (r: Result<
    Vec<u8>,
    aes_gcm::Error,
>)
    ensures
        r is Ok ==> opened(key@, nonce@, ciphertext@) == Some(r->Ok_0@),
        r is Err ==> opened(key@, nonce@, ciphertext@) is None,
{
    let cipher = aes_gcm::Aes256Gcm::new(aes_gcm::Key::<aes_gcm::Aes256Gcm>::from_slice(key));
    cipher.decrypt(aes_gcm::Nonce::from_slice(nonce), ciphertext)
}

/// Twelve random bytes of `rand::Rng::fill` on the thread's generator. Nothing
/// is claimed of their values.
#[verifier::external_body]
pub(crate) fn random_nonce() -> (r: [u8; 12])
{
    let mut bytes = [0u8; 12];
    rand::thread_rng().fill(&mut bytes);
    bytes
}

/// Parks one state at a time.
#[derive(Debug, Clone, Copy)]
pub struct StateParker {
    pub encryption_key: [u8; 32],
    pub parked: bool,
}

impl StateParker {
    /// Bytes as stored: the nonce, then the ciphertext.
    pub open spec fn framed(&self, nonce: Seq<u8>, plaintext: Seq<u8>) -> Seq<u8> {
        nonce + sealed(self.encryption_key@, nonce, plaintext)
    }

    /// What stored bytes hold, where they were sealed under this key.
    pub open spec fn reads(&self, stored: Seq<u8>) -> Option<Seq<u8>> {
        if stored.len() < NONCE_LEN {
            None
        } else {
            opened(
                self.encryption_key@,
                stored.take(NONCE_LEN as int),
                stored.skip(NONCE_LEN as int),
            )
        }
    }

    /// A parker with nothing parked.
    pub fn new(encryption_key: &[u8; 32]) -> (p: Self)
        ensures
            p.encryption_key@ == encryption_key@,
            !p.parked,
    {
        StateParker { encryption_key: *encryption_key, parked: false }
    }

    /// Seals bytes under a nonce; they can be read back.
    pub fn encrypt_with(&self, nonce: &[u8; 12], plaintext: &[u8]) -> (r: Result<
        Vec<u8>,
        ParkError,
    >)
        ensures
            r is Ok <==> plaintext@.len() <= MAX_PLAINTEXT,
            r is Ok ==> r->Ok_0@ == self.framed(nonce@, plaintext@),
            r is Ok ==> self.reads(r->Ok_0@) == Some(plaintext@),
            r is Err ==> r->Err_0 == ParkError::EncryptionFailed,
    {
        match encrypt(&self.encryption_key, nonce, plaintext) {
            Ok(ciphertext) => {
                let mut out: Vec<u8> = Vec::new();
                push_all(&mut out, nonce.as_slice());
                push_all(&mut out, ciphertext.as_slice());
                assert(out@ =~= nonce@ + ciphertext@);
                assert(out@.take(NONCE_LEN as int) =~= nonce@);
                assert(out@.skip(NONCE_LEN as int) =~= ciphertext@);
                Ok(out)
            },
            Err(_) => Err(ParkError::EncryptionFailed),
        }
    }

    /// Seals bytes under a random nonce; they can be read back.
    pub fn encrypt_data(&self, plaintext: &[u8]) -> (r: Result<Vec<u8>, ParkError>)
        ensures
            r is Ok <==> plaintext@.len() <= MAX_PLAINTEXT,
            r is Ok ==> exists|nonce: [u8; 12]|
                r->Ok_0@ == #[trigger] self.framed(nonce@, plaintext@),
            r is Ok ==> self.reads(r->Ok_0@) == Some(plaintext@),
            r is Err ==> r->Err_0 == ParkError::EncryptionFailed,
    {
        let nonce: [u8; 12] = random_nonce();
        self.encrypt_with(&nonce, plaintext)
    }

    /// Reads sealed bytes.
    pub fn decrypt_data(&self, encrypted: &[u8]) -> (r: Result<Vec<u8>, ParkError>)
        ensures
            r is Ok ==> self.reads(encrypted@) == Some(r->Ok_0@),
            r is Err ==> self.reads(encrypted@) is None,
            r is Err ==> r->Err_0 == (if encrypted@.len() < NONCE_LEN {
                ParkError::TooShort
            } else {
                ParkError::DecryptionFailed
            }),
    {
        if encrypted.len() < NONCE_LEN {
            return Err(ParkError::TooShort);
        }
        let mut nonce: [u8; 12] = [0u8; 12];
        let mut i: usize = 0;
        while i < 12
            invariant
                i <= 12,
                encrypted@.len() >= 12,
                forall|k: int| 0 <= k < i ==> nonce@[k] == encrypted@[k],
            decreases 12 - i,
        {
            nonce[i] = encrypted[i];
            i += 1;
        }
        assert(nonce@ =~= encrypted@.take(NONCE_LEN as int));
        let mut ciphertext: Vec<u8> = Vec::new();
        let mut j: usize = NONCE_LEN;
        while j < encrypted.len()
            invariant
                NONCE_LEN <= j <= encrypted@.len(),
                ciphertext@ == encrypted@.subrange(NONCE_LEN as int, j as int),
            decreases encrypted@.len() - j,
        {
            ciphertext.push(encrypted[j]);
            assert(ciphertext@ =~= encrypted@.subrange(NONCE_LEN as int, j + 1));
            j += 1;
        }
        assert(ciphertext@ =~= encrypted@.skip(NONCE_LEN as int));
        match decrypt(&self.encryption_key, &nonce, ciphertext.as_slice()) {
            Ok(plaintext) => Ok(plaintext),
            Err(_) => Err(ParkError::DecryptionFailed),
        }
    }

    /// The bytes to store for a serialized state, unless one is parked. What is
    /// stored is what `restore` gives back.
    pub fn park_emergency(&self, serialized: &[u8]) -> (r: Result<Vec<u8>, ParkError>)
        ensures
            r is Ok <==> !self.parked && serialized@.len() <= MAX_PLAINTEXT,
            r is Ok ==> self.reads(r->Ok_0@) == Some(serialized@),
            r is Ok ==> exists|nonce: [u8; 12]|
                r->Ok_0@ == #[trigger] self.framed(nonce@, serialized@),
            r is Err ==> r->Err_0 == (if self.parked {
                ParkError::AlreadyParked
            } else {
                ParkError::EncryptionFailed
            }),
    {
        if self.parked {
            return Err(ParkError::AlreadyParked);
        }
        self.encrypt_data(serialized)
    }

    /// Notes that the sealed state was stored.
    pub fn confirm_parked(&mut self)
        ensures
            *final(self) == (StateParker { parked: true, ..*old(self) }),
    {
        self.parked = true;
    }

    /// The serialized state in stored bytes.
    pub fn restore(&self, encrypted: &[u8]) -> (r: Result<Vec<u8>, ParkError>)
        ensures
            r is Ok ==> self.reads(encrypted@) == Some(r->Ok_0@),
            r is Err ==> self.reads(encrypted@) is None,
            r is Err ==> r->Err_0 == (if encrypted@.len() < NONCE_LEN {
                ParkError::TooShort
            } else {
                ParkError::DecryptionFailed
            }),
    {
        self.decrypt_data(encrypted)
    }

    /// Notes that the state was restored: another may be parked.
    pub fn confirm_restored(&mut self)
        ensures
            *final(self) == (StateParker { parked: false, ..*old(self) }),
    {
        self.parked = false;
    }

    /// Whether a state is parked.
    pub fn is_parked(&self) -> (r: bool)
        ensures
            r == self.parked,
    {
        self.parked
    }

    /// The default hasher's result for a time and the numbers of positions and
    /// orders, each as eight bytes, lowest first.
    pub open spec fn checksum(timestamp_ns: u64, positions: nat, orders: nat) -> u64 {
        DefaultHasher::spec_finish(
            seq![
                spec_u64_to_le_bytes(timestamp_ns),
                spec_u64_to_le_bytes(positions as u64),
                spec_u64_to_le_bytes(orders as u64),
            ],
        )
    }

    /// The checksum of a state: over its time and the numbers of its positions
    /// and orders.
    pub fn calculate_checksum(state: &ParkedState) -> (r: u64)
        ensures
            r == Self::checksum(
                state.timestamp_ns,
                state.positions@.len(),
                state.pending_orders@.len(),
            ),
    {
        let mut hasher = DefaultHasher::new();
        let time: Vec<u8> = u64_to_le_bytes(state.timestamp_ns);
        hasher.write(time.as_slice());
        let positions: Vec<u8> = u64_to_le_bytes(state.positions.len() as u64);
        hasher.write(positions.as_slice());
        let orders: Vec<u8> = u64_to_le_bytes(state.pending_orders.len() as u64);
        hasher.write(orders.as_slice());
        assert(hasher@ =~= seq![time@, positions@, orders@]);
        hasher.finish()
    }
}

/// Collects a state to park.
#[derive(Debug, Clone)]
pub struct ParkedStateBuilder {
    pub positions: Vec<ParkedPosition>,
    pub pending_orders: Vec<ParkedOrder>,
    pub strategy_state: Vec<u8>,
}

impl ParkedStateBuilder {
    /// An empty state.
    pub fn new() -> (b: Self)
        ensures
            b.positions@.len() == 0,
            b.pending_orders@.len() == 0,
            b.strategy_state@.len() == 0,
    {
        ParkedStateBuilder {
            positions: Vec::new(),
            pending_orders: Vec::new(),
            strategy_state: Vec::new(),
        }
    }

    /// Adds a position.
    pub fn add_position(self, position: ParkedPosition) -> (b: Self)
        ensures
            b.positions@ == self.positions@.push(position),
            b.pending_orders == self.pending_orders,
            b.strategy_state == self.strategy_state,
    {
        let mut b = self;
        b.positions.push(position);
        b
    }

    /// Adds an order.
    pub fn add_order(self, order: ParkedOrder) -> (b: Self)
        ensures
            b.positions == self.positions,
            b.pending_orders@ == self.pending_orders@.push(order),
            b.strategy_state == self.strategy_state,
    {
        let mut b = self;
        b.pending_orders.push(order);
        b
    }

    /// Sets the strategy's own state.
    pub fn set_strategy_state(self, state: Vec<u8>) -> (b: Self)
        ensures
            b.positions == self.positions,
            b.pending_orders == self.pending_orders,
            b.strategy_state == state,
    {
        let mut b = self;
        b.strategy_state = state;
        b
    }

    /// The state as of `timestamp_ns`.
    pub fn build_at(self, reason: ParkingReason, timestamp_ns: u64) -> (s: ParkedState)
        ensures
            s == (ParkedState {
                timestamp_ns,
                reason,
                positions: self.positions,
                pending_orders: self.pending_orders,
                strategy_state: self.strategy_state,
                checksum: StateParker::checksum(
                    timestamp_ns,
                    self.positions@.len(),
                    self.pending_orders@.len(),
                ),
            }),
    {
        let mut state = ParkedState {
            timestamp_ns,
            reason,
            positions: self.positions,
            pending_orders: self.pending_orders,
            strategy_state: self.strategy_state,
            checksum: 0,
        };
        let checksum: u64 = StateParker::calculate_checksum(&state);
        state.checksum = checksum;
        state
    }

    /// The state as of now.
    pub fn build(self, reason: ParkingReason) -> (s: ParkedState)
        ensures
            s == (ParkedState {
                timestamp_ns: s.timestamp_ns,
                reason,
                positions: self.positions,
                pending_orders: self.pending_orders,
                strategy_state: self.strategy_state,
                checksum: StateParker::checksum(
                    s.timestamp_ns,
                    self.positions@.len(),
                    self.pending_orders@.len(),
                ),
            }),
    {
        let now: u64 = now_ns();
        self.build_at(reason, now)
    }
}

impl Default for ParkedStateBuilder {
    fn default() -> (b: Self)
        ensures
            b.positions@.len() == 0,
            b.pending_orders@.len() == 0,
            b.strategy_state@.len() == 0,
    {
        ParkedStateBuilder::new()
    }
}

/// What is stored starts with the nonce, and what is shorter than one is never
/// read.
pub proof fn law_nonce_leads(p: StateParker, nonce: Seq<u8>, plaintext: Seq<u8>, stored: Seq<u8>)
    requires
        nonce.len() == 12,
    ensures
        p.framed(nonce, plaintext).take(12) == nonce,
        p.framed(nonce, plaintext).skip(12) == sealed(p.encryption_key@, nonce, plaintext),
        p.reads(p.framed(nonce, plaintext)) == opened(
            p.encryption_key@,
            nonce,
            sealed(p.encryption_key@, nonce, plaintext),
        ),
        stored.len() < 12 ==> p.reads(stored) is None,
{
    let f = p.framed(nonce, plaintext);
    assert(f.take(12) =~= nonce);
    assert(f.skip(12) =~= sealed(p.encryption_key@, nonce, plaintext));
}

} // verus!
