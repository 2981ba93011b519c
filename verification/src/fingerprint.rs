//! Trust-on-first-use pinning of peer fingerprints.
//!
//! A fingerprint pins the hex SHA-256 digest that authenticates a peer.
//! The store maps each machine name to exactly one pinned fingerprint:
//! the first contact writes the pin, every later contact is held against
//! it, and a differing digest is reported and never overwrites the pin.
//! Reading the store from disk and writing it back as JSON is the
//! caller's concern; this module owns the pinning discipline itself.

use vstd::prelude::*;
use sha2::Digest;
use crate::text::str_eq;

verus! {

/// The SHA-256 digest of a byte string; it depends on the bytes alone.
pub uninterp spec fn sha256_of(data: Seq<u8>) -> Seq<u8>;

/// Relies on sha2's `Sha256`: returns the 32-byte SHA-256 digest of the
/// input, a function of the input bytes alone.
#[verifier::external_body]
fn sha256_digest(data: &[u8]) -> (r: Vec<u8>)
    ensures
        r@ == sha256_of(data@),
        r@.len() == 32,
{
    sha2::Sha256::digest(data).to_vec()
}

/// The lowercase hex digit for a value below sixteen.
pub open spec fn hex_digit(n: int) -> char {
    if n < 10 {
        (0x30 + n) as char
    } else {
        (0x57 + n) as char
    }
}

/// A byte string written as lowercase hex, two digits per byte, high
/// nibble first.
pub open spec fn hex_of(bytes: Seq<u8>) -> Seq<char> {
    Seq::new(
        bytes.len() * 2,
        |i: int|
            if i % 2 == 0 {
                hex_digit(bytes[i / 2] as int / 16)
            } else {
                hex_digit(bytes[i / 2] as int % 16)
            },
    )
}

/// Relies on `hex::encode`: writes each input byte as two lowercase hex
/// digits, high nibble first.
#[verifier::external_body]
fn hex_encode(data: &[u8]) -> (r: String)
    ensures
        r@ == hex_of(data@),
{
    hex::encode(data)
}

/// The hex form of a byte string's SHA-256 digest: what this library
/// pins for a peer and sends in the handshake.
pub open spec fn sha256_hex_of(data: Seq<u8>) -> Seq<char> {
    hex_of(sha256_of(data))
}

/// Relies on chrono's `Utc::now` and `to_rfc3339`: the current UTC time
/// written as an RFC 3339 string. The result depends on the clock, so
/// nothing more is promised of it than that it is not empty.
#[verifier::external_body]
fn utc_now_rfc3339() -> (r: String)
    ensures
        r@.len() > 0,
{
    chrono::Utc::now().to_rfc3339()
}

/// The hex SHA-256 digest of a byte string.
pub fn sha256_hex(data: &[u8]) -> (r: String)
    ensures
        r@ == sha256_hex_of(data@),
        r@.len() == 64,
{
    let digest = sha256_digest(data);
    hex_encode(digest.as_slice())
}

/// The model of a [`Fingerprint`].
pub struct FingerprintV {
    pub machine_name: Seq<char>,
    pub hash: Seq<char>,
    pub first_seen: Option<Seq<char>>,
    pub last_verified: Option<Seq<char>>,
}

/// A pinned peer identity: the machine's name, the hex digest pinned for
/// it, and when it was first seen and last verified.
#[derive(Debug, Clone)]
pub struct Fingerprint {
    machine_name: String,
    hash: String,
    first_seen: Option<String>,
    last_verified: Option<String>,
}

impl View for Fingerprint {
    type V = FingerprintV;

    closed spec fn view(&self) -> FingerprintV {
        FingerprintV {
            machine_name: self.machine_name@,
            hash: self.hash@,
            first_seen: match self.first_seen {
                Some(s) => Some(s@),
                None => None,
            },
            last_verified: match self.last_verified {
                Some(s) => Some(s@),
                None => None,
            },
        }
    }
}

impl PartialEq for Fingerprint {
    /// Two fingerprints are the same pin when name and digest agree;
    /// the timestamps are bookkeeping.
    fn eq(&self, other: &Self) -> (r: bool) {
        str_eq(self.machine_name.as_str(), other.machine_name.as_str()) && str_eq(
            self.hash.as_str(),
            other.hash.as_str(),
        )
    }
}

impl vstd::std_specs::cmp::PartialEqSpecImpl for Fingerprint {
    open spec fn obeys_eq_spec() -> bool {
        true
    }

    open spec fn eq_spec(&self, other: &Self) -> bool {
        self@.machine_name == other@.machine_name && self@.hash == other@.hash
    }
}

impl Eq for Fingerprint {}

impl Fingerprint {
    /// A fingerprint with a known digest; both timestamps are set to the
    /// present moment.
    pub fn new(machine_name: &str, hash: &str) -> (r: Fingerprint)
        ensures
            r@.machine_name == machine_name@,
            r@.hash == hash@,
            r@.first_seen is Some,
            r@.last_verified is Some,
    {
        let now = utc_now_rfc3339();
        Fingerprint {
            machine_name: machine_name.to_owned(),
            hash: hash.to_owned(),
            first_seen: Some(now.clone()),
            last_verified: Some(now),
        }
    }

    /// A fingerprint computed from raw certificate bytes: the pinned
    /// digest is their hex SHA-256.
    pub fn from_cert_data(machine_name: &str, cert_data: &[u8]) -> (r: Fingerprint)
        ensures
            r@.machine_name == machine_name@,
            r@.hash == sha256_hex_of(cert_data@),
            r@.hash.len() == 64,
            r@.first_seen is Some,
            r@.last_verified is Some,
    {
        let hash = sha256_hex(cert_data);
        Fingerprint::new(machine_name, hash.as_str())
    }

    /// The machine this fingerprint pins.
    pub fn machine_name(&self) -> (r: &str)
        ensures
            r@ == self@.machine_name,
    {
        self.machine_name.as_str()
    }

    /// The pinned hex digest.
    pub fn hash(&self) -> (r: &str)
        ensures
            r@ == self@.hash,
    {
        self.hash.as_str()
    }

    /// When this pin was first seen, as an RFC 3339 timestamp.
    pub fn first_seen(&self) -> (r: Option<&str>)
        ensures
            match r {
                Some(t) => self@.first_seen == Some(t@),
                None => self@.first_seen is None,
            },
    {
        match &self.first_seen {
            Some(t) => Some(t.as_str()),
            None => None,
        }
    }

    /// When this pin last passed verification, as an RFC 3339 timestamp.
    pub fn last_verified(&self) -> (r: Option<&str>)
        ensures
            match r {
                Some(t) => self@.last_verified == Some(t@),
                None => self@.last_verified is None,
            },
    {
        match &self.last_verified {
            Some(t) => Some(t.as_str()),
            None => None,
        }
    }

    /// Whether a presented digest matches the pinned one.
    pub fn verify(&self, cert_hash: &str) -> (r: bool)
        ensures
            r == (self@.hash == cert_hash@),
    {
        str_eq(self.hash.as_str(), cert_hash)
    }

    /// Records a successful verification at the present moment. Name,
    /// digest and first-seen time stay as they are.
    pub fn touch(&mut self)
        ensures
            final(self)@.machine_name == old(self)@.machine_name,
            final(self)@.hash == old(self)@.hash,
            final(self)@.first_seen == old(self)@.first_seen,
            final(self)@.last_verified is Some,
    {
        self.last_verified = Some(utc_now_rfc3339());
    }
}

/// What [`FingerprintStore::verify_or_save`] found.
#[derive(Debug, Clone, PartialEq, Eq)]
pub enum FingerprintVerification {
    /// The presented digest matches the pin: proceed.
    Verified,
    /// No pin existed; the presented digest is now pinned. Proceed, but
    /// the caller should log the first contact prominently.
    FirstConnection,
    /// The presented digest differs from the pin: a security event. The
    /// caller must abort the connection; the store was not touched.
    Mismatch { stored: String, received: String },
}

/// The in-memory store of pinned fingerprints: one pin per machine name.
///
/// Persistence is the caller's concern: it loads the entries once,
/// replays them with [`save`](FingerprintStore::save), and writes the
/// store back out after each mutation that succeeds.
#[derive(Debug)]
pub struct FingerprintStore {
    fingerprints: Vec<(String, Fingerprint)>,
}

impl FingerprintStore {
    /// The store's entries, keyed by machine name, in insertion order.
    pub closed spec fn entries(&self) -> Seq<(Seq<char>, FingerprintV)> {
        self.fingerprints@.map_values(|p: (String, Fingerprint)| (p.0@, p.1@))
    }

    /// Each machine name pins at most one fingerprint.
    pub open spec fn wf(&self) -> bool {
        forall|i: int, j: int|
            0 <= i < j < self.entries().len() ==> #[trigger] self.entries()[i].0
                != #[trigger] self.entries()[j].0
    }

    /// Whether a pin exists for the machine.
    pub open spec fn spec_contains(&self, m: Seq<char>) -> bool {
        exists|i: int| 0 <= i < self.entries().len() && #[trigger] self.entries()[i].0 == m
    }

    /// The pin for the machine, if one exists.
    pub open spec fn spec_lookup(&self, m: Seq<char>) -> Option<FingerprintV> {
        if self.spec_contains(m) {
            let i = choose|i: int|
                0 <= i < self.entries().len() && #[trigger] self.entries()[i].0 == m;
            Some(self.entries()[i].1)
        } else {
            None
        }
    }

    /// An empty store.
    pub fn new() -> (r: FingerprintStore)
        ensures
            r.wf(),
            r.entries() == Seq::<(Seq<char>, FingerprintV)>::empty(),
    {
        let r = FingerprintStore { fingerprints: Vec::new() };
        proof {
            assert(r.entries() =~= Seq::<(Seq<char>, FingerprintV)>::empty());
        }
        r
    }

    /// Pins a fingerprint for the machine, replacing any pin it had.
    pub fn save(&mut self, machine_name: &str, fingerprint: Fingerprint)
        requires
            old(self).wf(),
        ensures
            final(self).wf(),
            final(self).spec_lookup(machine_name@) == Some(fingerprint@),
            forall|m: Seq<char>|
                m != machine_name@ ==> #[trigger] final(self).spec_lookup(m) == old(
                    self,
                ).spec_lookup(m),
            final(self).entries().len() == if old(self).spec_contains(machine_name@) {
                old(self).entries().len() as int
            } else {
                old(self).entries().len() + 1 as int
            },
    {
        let n = self.fingerprints.len();
        let mut i: usize = 0;
        while i < n
            invariant
                i <= n,
                n == self.fingerprints@.len(),
                self == old(self),
                old(self).wf(),
                forall|j: int| 0 <= j < i ==> #[trigger] self.entries()[j].0 != machine_name@,
            decreases n - i,
        {
            if str_eq(self.fingerprints[i].0.as_str(), machine_name) {
                let entry = vstd::std_specs::vec::vec_index_mut(&mut self.fingerprints, i);
                *entry = (machine_name.to_owned(), fingerprint);
                proof {
                    let es = self.entries();
                    let oes = old(self).entries();
                    assert(oes[i as int].0 == machine_name@);
                    assert(es =~= oes.update(i as int, (machine_name@, fingerprint@)));
                    assert forall|k: int| 0 <= k < es.len() implies (#[trigger] es[k]).0
                        == oes[k].0 by {}
                    assert forall|a: int, b: int| 0 <= a < b < es.len() implies es[a].0
                        != es[b].0 by {
                        assert(oes[a].0 != oes[b].0);
                    }
                    lemma_store_lookup_at(self, i as int);
                    assert forall|m: Seq<char>| m != machine_name@ implies #[trigger] self
                        .spec_lookup(m) == old(self).spec_lookup(m) by {
                        lemma_store_lookup_agree(self, old(self), m);
                    }
                }
                return ;
            }
            i = i + 1;
        }
        self.fingerprints.push((machine_name.to_owned(), fingerprint));
        proof {
            let es = self.entries();
            let oes = old(self).entries();
            assert(es =~= oes.push((machine_name@, fingerprint@)));
            assert forall|k: int| 0 <= k < oes.len() implies (#[trigger] es[k]) == oes[k] by {}
            assert(es[n as int] == (machine_name@, fingerprint@));
            assert forall|a: int, b: int| 0 <= a < b < es.len() implies es[a].0 != es[b].0 by {
                if b < n as int {
                    assert(oes[a].0 != oes[b].0);
                } else {
                    assert(es[a] == oes[a]);
                    assert(oes[a].0 != machine_name@);
                }
            }
            lemma_store_lookup_at(self, n as int);
            assert forall|m: Seq<char>| m != machine_name@ implies #[trigger] self.spec_lookup(m)
                == old(self).spec_lookup(m) by {
                lemma_store_lookup_agree(self, old(self), m);
            }
        }
    }

    /// The pin for a machine, if one exists.
    pub fn get(&self, machine_name: &str) -> (r: Option<&Fingerprint>)
        requires
            self.wf(),
        ensures
            match r {
                Some(f) => self.spec_lookup(machine_name@) == Some(f@),
                None => self.spec_lookup(machine_name@) is None,
            },
    {
        let n = self.fingerprints.len();
        let mut i: usize = 0;
        while i < n
            invariant
                i <= n,
                n == self.fingerprints@.len(),
                self.wf(),
                forall|j: int| 0 <= j < i ==> #[trigger] self.entries()[j].0 != machine_name@,
            decreases n - i,
        {
            if str_eq(self.fingerprints[i].0.as_str(), machine_name) {
                proof {
                    lemma_store_lookup_at(self, i as int);
                }
                return Some(&self.fingerprints[i].1);
            }
            i = i + 1;
        }
        None
    }

    /// Removes the machine's pin, if it had one. The operator does this
    /// by hand when a peer's key legitimately rotated.
    pub fn remove(&mut self, machine_name: &str)
        requires
            old(self).wf(),
        ensures
            final(self).wf(),
            final(self).spec_lookup(machine_name@) is None,
            forall|m: Seq<char>|
                m != machine_name@ ==> #[trigger] final(self).spec_lookup(m) == old(
                    self,
                ).spec_lookup(m),
    {
        let n = self.fingerprints.len();
        let mut i: usize = 0;
        while i < n
            invariant
                i <= n,
                n == self.fingerprints@.len(),
                self == old(self),
                old(self).wf(),
                forall|j: int| 0 <= j < i ==> #[trigger] self.entries()[j].0 != machine_name@,
            decreases n - i,
        {
            if str_eq(self.fingerprints[i].0.as_str(), machine_name) {
                self.fingerprints.remove(i);
                proof {
                    let es = self.entries();
                    let oes = old(self).entries();
                    assert(es =~= oes.remove(i as int));
                    assert forall|k: int| 0 <= k < es.len() implies (#[trigger] es[k]) == (if k < i
                        as int {
                        oes[k]
                    } else {
                        oes[k + 1]
                    }) by {}
                    assert forall|a: int, b: int| 0 <= a < b < es.len() implies es[a].0
                        != es[b].0 by {
                        let a0 = if a < i as int { a } else { a + 1 };
                        let b0 = if b < i as int { b } else { b + 1 };
                        assert(oes[a0].0 != oes[b0].0);
                    }
                    assert forall|m: Seq<char>| m != machine_name@ implies #[trigger] self
                        .spec_lookup(m) == old(self).spec_lookup(m) by {
                        if self.spec_contains(m) {
                            let k = choose|k: int|
                                0 <= k < es.len() && #[trigger] es[k].0 == m;
                        }
                        if old(self).spec_contains(m) {
                            let k = choose|k: int|
                                0 <= k < oes.len() && #[trigger] oes[k].0 == m;
                            assert(k != i as int);
                            if k < i as int {
                                assert(es[k].0 == m);
                            } else {
                                assert(es[k - 1].0 == m);
                            }
                        }
                        lemma_store_lookup_agree_removed(self, old(self), m, i as int);
                    }
                    assert forall|k: int|
                        0 <= k < es.len() implies #[trigger] es[k].0 != machine_name@ by {
                        if k >= i as int {
                            assert(oes[k + 1].0 != machine_name@) by {
                                if oes[k + 1].0 == machine_name@ {
                                    assert(!(oes[i as int].0 == oes[k + 1].0));
                                }
                            }
                        }
                    }
                }
                return ;
            }
            i = i + 1;
        }
    }

    /// All pinned fingerprints, in the store's order.
    pub fn list_all(&self) -> (r: Vec<&Fingerprint>)
        ensures
            r@.len() == self.entries().len(),
            forall|i: int| 0 <= i < r@.len() ==> #[trigger] r@[i]@ == self.entries()[i].1,
    {
        let n = self.fingerprints.len();
        let mut out: Vec<&Fingerprint> = Vec::new();
        let mut i: usize = 0;
        while i < n
            invariant
                i <= n,
                n == self.fingerprints@.len(),
                out@.len() == i,
                forall|j: int| 0 <= j < i ==> #[trigger] out@[j]@ == self.entries()[j].1,
            decreases n - i,
        {
            out.push(&self.fingerprints[i].1);
            i = i + 1;
        }
        out
    }

    /// Trust on first use. On first contact the presented digest is
    /// pinned and `FirstConnection` comes back; a matching digest comes
    /// back `Verified`; a differing digest comes back `Mismatch`, with
    /// the pinned and presented digests, and the store stands untouched.
    /// After `Verified` or `FirstConnection`, the pin for the machine is
    /// exactly the presented digest.
    pub fn verify_or_save(&mut self, machine_name: &str, cert_hash: &str) -> (r:
        FingerprintVerification)
        requires
            old(self).wf(),
        ensures
            final(self).wf(),
            match r {
                FingerprintVerification::Verified => {
                    &&& old(self).spec_lookup(machine_name@) is Some
                    &&& old(self).spec_lookup(machine_name@)->Some_0.hash == cert_hash@
                    &&& final(self).entries() == old(self).entries()
                },
                FingerprintVerification::FirstConnection => {
                    &&& old(self).spec_lookup(machine_name@) is None
                    &&& final(self).spec_lookup(machine_name@) is Some
                    &&& final(self).spec_lookup(machine_name@)->Some_0.hash == cert_hash@
                    &&& final(self).spec_lookup(machine_name@)->Some_0.machine_name
                        == machine_name@
                    &&& forall|m: Seq<char>|
                        m != machine_name@ ==> #[trigger] final(self).spec_lookup(m) == old(
                            self,
                        ).spec_lookup(m)
                },
                FingerprintVerification::Mismatch { stored, received } => {
                    &&& old(self).spec_lookup(machine_name@) is Some
                    &&& old(self).spec_lookup(machine_name@)->Some_0.hash != cert_hash@
                    &&& stored@ == old(self).spec_lookup(machine_name@)->Some_0.hash
                    &&& received@ == cert_hash@
                    &&& final(self).entries() == old(self).entries()
                },
            },
    {
        let found = match self.get(machine_name) {
            Some(stored_fp) => {
                if stored_fp.verify(cert_hash) {
                    Some(FingerprintVerification::Verified)
                } else {
                    Some(
                        FingerprintVerification::Mismatch {
                            stored: stored_fp.hash().to_owned(),
                            received: cert_hash.to_owned(),
                        },
                    )
                }
            }
            None => None,
        };
        match found {
            Some(v) => v,
            None => {
                let fp = Fingerprint::new(machine_name, cert_hash);
                self.save(machine_name, fp);
                FingerprintVerification::FirstConnection
            }
        }
    }
}

/// With the invariant, the entry at a matching index is what the lookup
/// denotes.
proof fn lemma_store_lookup_at(s: &FingerprintStore, i: int)
    requires
        s.wf(),
        0 <= i < s.entries().len(),
    ensures
        s.spec_lookup(s.entries()[i].0) == Some(s.entries()[i].1),
{
    let es = s.entries();
    let m = es[i].0;
    assert(s.spec_contains(m));
    let k = choose|k: int| 0 <= k < s.entries().len() && #[trigger] s.entries()[k].0 == m;
    if k < i {
        assert(es[k].0 != es[i].0);
    } else if i < k {
        assert(es[i].0 != es[k].0);
    }
}

/// Two stores that agree on every entry keyed `m` denote the same pin
/// for `m`.
proof fn lemma_store_lookup_agree(a: &FingerprintStore, b: &FingerprintStore, m: Seq<char>)
    requires
        a.wf(),
        b.wf(),
        forall|k: int|
            0 <= k < a.entries().len() && (#[trigger] a.entries()[k]).0 == m ==> 0 <= k
                < b.entries().len() && b.entries()[k] == a.entries()[k],
        forall|k: int|
            0 <= k < b.entries().len() && (#[trigger] b.entries()[k]).0 == m ==> 0 <= k
                < a.entries().len() && a.entries()[k] == b.entries()[k],
    ensures
        a.spec_lookup(m) == b.spec_lookup(m),
{
    if a.spec_contains(m) {
        let ka = choose|k: int| 0 <= k < a.entries().len() && #[trigger] a.entries()[k].0 == m;
        assert(b.entries()[ka] == a.entries()[ka]);
        assert(b.spec_contains(m));
    }
    if b.spec_contains(m) {
        let kb = choose|k: int| 0 <= k < b.entries().len() && #[trigger] b.entries()[k].0 == m;
        assert(a.entries()[kb] == b.entries()[kb]);
        assert(a.spec_contains(m));
    }
    if a.spec_contains(m) && b.spec_contains(m) {
        let ka = choose|k: int| 0 <= k < a.entries().len() && #[trigger] a.entries()[k].0 == m;
        let kb = choose|k: int| 0 <= k < b.entries().len() && #[trigger] b.entries()[k].0 == m;
        assert(b.entries()[ka] == a.entries()[ka]);
        if ka < kb {
            assert(b.entries()[ka].0 != b.entries()[kb].0);
        } else if kb < ka {
            assert(b.entries()[kb].0 != b.entries()[ka].0);
        }
    }
}

/// A store with entry `i` removed denotes, for any other key, the same
/// pin as before.
proof fn lemma_store_lookup_agree_removed(
    a: &FingerprintStore,
    b: &FingerprintStore,
    m: Seq<char>,
    i: int,
)
    requires
        a.wf(),
        b.wf(),
        0 <= i < b.entries().len(),
        a.entries() == b.entries().remove(i),
        b.entries()[i].0 != m,
    ensures
        a.spec_lookup(m) == b.spec_lookup(m),
{
    let es = a.entries();
    let oes = b.entries();
    assert(es.len() == oes.len() - 1);
    assert forall|k: int| 0 <= k < es.len() implies (#[trigger] es[k]) == (if k < i {
        oes[k]
    } else {
        oes[k + 1]
    }) by {}
    if a.spec_contains(m) {
        let ka = choose|k: int| 0 <= k < a.entries().len() && #[trigger] a.entries()[k].0 == m;
        if ka < i {
            assert(oes[ka].0 == m);
        } else {
            assert(oes[ka + 1].0 == m);
        }
        assert(b.spec_contains(m));
    }
    if b.spec_contains(m) {
        let kb = choose|k: int| 0 <= k < b.entries().len() && #[trigger] b.entries()[k].0 == m;
        assert(kb != i);
        if kb < i {
            assert(es[kb].0 == m);
        } else {
            assert(es[kb - 1].0 == m);
        }
        assert(a.spec_contains(m));
    }
    if a.spec_contains(m) && b.spec_contains(m) {
        let ka = choose|k: int| 0 <= k < a.entries().len() && #[trigger] a.entries()[k].0 == m;
        let kb = choose|k: int| 0 <= k < b.entries().len() && #[trigger] b.entries()[k].0 == m;
        let ka0 = if ka < i {
            ka
        } else {
            ka + 1
        };
        assert(oes[ka0].0 == m);
        if ka0 < kb {
            assert(oes[ka0].0 != oes[kb].0);
        } else if kb < ka0 {
            assert(oes[kb].0 != oes[ka0].0);
        }
        assert(ka0 == kb);
        assert(es[ka].1 == oes[kb].1);
    }
}

} // verus!
