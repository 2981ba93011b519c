//! The peer directory that discovery fills.
//!
//! Announcing on the network and browsing it happen outside; what the
//! browser reports flows into the [`PeerRegistry`] here: a resolved
//! service inserts or refreshes a peer, a removal deletes it, and
//! anything bearing this machine's own name is filtered out at ingress.
//! The agent's bootstrap reads a snapshot and dials the first peer.

use vstd::prelude::*;
use vstd::utf8::encode_utf8;
use crate::text::str_eq;

verus! {

/// The service type announced and browsed, after RFC 6763 naming.
pub const SERVICE_TYPE: &'static str = "_multishiva._tcp.local.";

/// The model of a [`PeerInfo`].
pub struct PeerInfoV {
    pub name: Seq<char>,
    pub address: Seq<char>,
    pub port: int,
    pub psk_hash: Option<Seq<char>>,
    pub properties: Seq<(Seq<char>, Seq<char>)>,
}

/// One discovered peer: its name, where to reach it, and what it
/// announced about itself.
#[derive(Debug, Clone)]
pub struct PeerInfo {
    /// The peer's machine name, its instance label on the network.
    pub name: String,
    /// The address it resolves to, as text.
    pub address: String,
    /// The TCP port its service listens on.
    pub port: u16,
    /// The PSK digest it announced, if it announced one.
    pub psk_hash: Option<String>,
    /// Any further announced properties.
    pub properties: Vec<(String, String)>,
}

impl View for PeerInfo {
    type V = PeerInfoV;

    open spec fn view(&self) -> PeerInfoV {
        PeerInfoV {
            name: self.name@,
            address: self.address@,
            port: self.port as int,
            psk_hash: match self.psk_hash {
                Some(h) => Some(h@),
                None => None,
            },
            properties: self.properties@.map_values(|p: (String, String)| (p.0@, p.1@)),
        }
    }
}

impl PeerInfo {
    /// A peer with no announced digest and no properties.
    pub fn new(name: String, address: String, port: u16) -> (r: PeerInfo)
        ensures
            r@.name == name@,
            r@.address == address@,
            r@.port == port as int,
            r@.psk_hash is None,
            r@.properties =~= Seq::<(Seq<char>, Seq<char>)>::empty(),
    {
        PeerInfo { name, address, port, psk_hash: None, properties: Vec::new() }
    }

    /// The dialable form: the address, a colon, the decimal port.
    pub fn full_address(&self) -> (r: String)
        ensures
            r@ == self@.address + seq![':'] + spec_decimal(self@.port),
    {
        let mut out = self.address.clone();
        out.append(":");
        let port_str = u16_to_string(self.port);
        out.append(port_str.as_str());
        proof {
            reveal_strlit(":");
            assert(":"@ =~= seq![':']);
            assert(out@ =~= self@.address + seq![':'] + spec_decimal(self@.port));
        }
        out
    }
}

/// The decimal digits of a nonnegative number, most significant first.
pub open spec fn spec_decimal(n: int) -> Seq<char>
    decreases n,
{
    if n < 10 {
        seq![(0x30 + if n >= 0 { n } else { 0 }) as char]
    } else {
        spec_decimal(n / 10).push((0x30 + n % 10) as char)
    }
}

/// Writes a port number in decimal.
pub fn u16_to_string(n: u16) -> (r: String)
    ensures
        r@ == spec_decimal(n as int),
{
    let digits = decimal_bytes(n as u64);
    proof {
        lemma_decimal_ascii(n as int);
        vstd::utf8::is_ascii_chars_encode_utf8(spec_decimal(n as int));
        assert(digits@ =~= encode_utf8(spec_decimal(n as int)));
        broadcast use vstd::utf8::encode_utf8_valid_utf8;
        broadcast use vstd::utf8::encode_utf8_decode_utf8;

    }
    match crate::codec::string_from_utf8(digits) {
        Some(s) => s,
        None => {
            proof {
                assert(false);
            }
            String::new()
        }
    }
}

/// The decimal ASCII bytes of a number, most significant first.
fn decimal_bytes(n: u64) -> (r: Vec<u8>)
    ensures
        r@.len() == spec_decimal(n as int).len(),
        forall|i: int|
            0 <= i < r@.len() ==> #[trigger] r@[i] == (spec_decimal(n as int)[i] as u8),
    decreases n,
{
    if n < 10 {
        let mut out: Vec<u8> = Vec::new();
        out.push(0x30 + (n as u8));
        proof {
            assert(spec_decimal(n as int).len() == 1);
            assert(spec_decimal(n as int)[0] == (0x30 + n as int) as char);
        }
        out
    } else {
        let mut out = decimal_bytes(n / 10);
        out.push(0x30 + ((n % 10) as u8));
        proof {
            let s = spec_decimal(n as int);
            assert(s == spec_decimal(n as int / 10).push((0x30 + n as int % 10) as char));
            assert(s.len() == spec_decimal(n as int / 10).len() + 1);
        }
        out
    }
}

/// Decimal digit characters are ASCII.
proof fn lemma_decimal_ascii(n: int)
    ensures
        vstd::utf8::is_ascii_chars(spec_decimal(n)),
    decreases n,
{
    if n < 10 {
    } else {
        lemma_decimal_ascii(n / 10);
        let s = spec_decimal(n);
        let t = spec_decimal(n / 10);
        assert forall|i: int| 0 <= i < s.len() implies '\u{0}' <= #[trigger] s[i]
            <= '\u{7f}' by {
            if i < t.len() {
                assert(s[i] == t[i]);
            } else {
                assert(s[i] == (0x30 + n % 10) as char);
            }
        }
    }
}

/// The peers the browser has resolved, keyed by unique name, never
/// including this machine itself.
pub struct PeerRegistry {
    self_name: String,
    peers: Vec<PeerInfo>,
}

impl PeerRegistry {
    /// This machine's own name, filtered at ingress.
    pub closed spec fn spec_self_name(&self) -> Seq<char> {
        self.self_name@
    }

    /// The known peers, in discovery order.
    pub closed spec fn spec_peers(&self) -> Seq<PeerInfo> {
        self.peers@
    }

    /// Names are unique and none is this machine's own.
    pub open spec fn wf(&self) -> bool {
        &&& forall|i: int, j: int|
            0 <= i < j < self.spec_peers().len() ==> (#[trigger] self.spec_peers()[i])@.name != (
            #[trigger] self.spec_peers()[j])@.name
        &&& forall|i: int|
            0 <= i < self.spec_peers().len() ==> (#[trigger] self.spec_peers()[i])@.name
                != self.spec_self_name()
    }

    /// Whether a peer of this name is known.
    pub open spec fn spec_has_peer(&self, m: Seq<char>) -> bool {
        exists|i: int|
            0 <= i < self.spec_peers().len() && (#[trigger] self.spec_peers()[i])@.name == m
    }

    /// The peer of this name, if known.
    pub open spec fn spec_lookup(&self, m: Seq<char>) -> Option<PeerInfo> {
        if self.spec_has_peer(m) {
            let i = choose|i: int|
                0 <= i < self.spec_peers().len() && (#[trigger] self.spec_peers()[i])@.name == m;
            Some(self.spec_peers()[i])
        } else {
            None
        }
    }

    /// An empty registry for the named machine.
    pub fn new(self_name: String) -> (r: PeerRegistry)
        ensures
            r.wf(),
            r.spec_self_name() == self_name@,
            r.spec_peers() =~= Seq::<PeerInfo>::empty(),
    {
        PeerRegistry { self_name, peers: Vec::new() }
    }

    /// Takes one resolved announcement: a peer bearing this machine's
    /// own name is dropped, any other inserts or refreshes its entry.
    pub fn apply_resolved(&mut self, peer: PeerInfo)
        requires
            old(self).wf(),
        ensures
            final(self).wf(),
            final(self).spec_self_name() == old(self).spec_self_name(),
            peer@.name == old(self).spec_self_name() ==> final(self).spec_peers() == old(
                self,
            ).spec_peers(),
            peer@.name != old(self).spec_self_name() ==> {
                &&& final(self).spec_has_peer(peer@.name)
                &&& match final(self).spec_lookup(peer@.name) {
                    Some(p) => p@ == peer@,
                    None => false,
                }
                &&& forall|m: Seq<char>|
                    m != peer@.name ==> #[trigger] final(self).spec_lookup(m) == old(
                        self,
                    ).spec_lookup(m)
            },
    {
        if str_eq(peer.name.as_str(), self.self_name.as_str()) {
            return ;
        }
        let n = self.peers.len();
        let mut i: usize = 0;
        while i < n && !str_eq(self.peers[i].name.as_str(), peer.name.as_str())
            invariant
                i <= n,
                n == self.peers@.len(),
                self == old(self),
                old(self).wf(),
                forall|j: int| 0 <= j < i ==> (#[trigger] self.spec_peers()[j])@.name != peer@.name,
            decreases n - i,
        {
            i = i + 1;
        }
        if i < n {
            let entry = vstd::std_specs::vec::vec_index_mut(&mut self.peers, i);
            *entry = peer;
            proof {
                let ps = self.spec_peers();
                let ops = old(self).spec_peers();
                assert(ops[i as int]@.name == ps[i as int]@.name);
                assert(ps =~= ops.update(i as int, ps[i as int]));
                assert forall|a: int, b: int| 0 <= a < b < ps.len() implies (
                #[trigger] ps[a])@.name != (#[trigger] ps[b])@.name by {
                    assert(ops[a]@.name != ops[b]@.name);
                }
                assert forall|k: int|
                    0 <= k < ps.len() implies (#[trigger] ps[k])@.name
                    != self.spec_self_name() by {
                    if k != i as int {
                        assert(ps[k] == ops[k]);
                    }
                }
                lemma_peer_lookup_at(self, i as int);
                assert forall|m: Seq<char>| m != ps[i as int]@.name implies #[trigger] self
                    .spec_lookup(m) == old(self).spec_lookup(m) by {
                    lemma_peer_lookup_agree(self, old(self), m);
                }
            }
        } else {
            self.peers.push(peer);
            proof {
                let ps = self.spec_peers();
                let ops = old(self).spec_peers();
                assert(ps =~= ops.push(ps[n as int]));
                assert forall|a: int, b: int| 0 <= a < b < ps.len() implies (
                #[trigger] ps[a])@.name != (#[trigger] ps[b])@.name by {
                    if b < n as int {
                        assert(ops[a]@.name != ops[b]@.name);
                    } else {
                        assert(ps[a] == ops[a]);
                        assert(ops[a]@.name != ps[n as int]@.name);
                    }
                }
                assert forall|k: int|
                    0 <= k < ps.len() implies (#[trigger] ps[k])@.name
                    != self.spec_self_name() by {
                    if k < n as int {
                        assert(ps[k] == ops[k]);
                    }
                }
                lemma_peer_lookup_at(self, n as int);
                assert forall|m: Seq<char>| m != ps[n as int]@.name implies #[trigger] self
                    .spec_lookup(m) == old(self).spec_lookup(m) by {
                    lemma_peer_lookup_agree(self, old(self), m);
                }
            }
        }
    }

    /// Takes one removal notice: the peer of that name, if known, leaves.
    pub fn apply_removed(&mut self, name: &str)
        requires
            old(self).wf(),
        ensures
            final(self).wf(),
            final(self).spec_self_name() == old(self).spec_self_name(),
            !final(self).spec_has_peer(name@),
            forall|m: Seq<char>|
                m != name@ ==> #[trigger] final(self).spec_lookup(m) == old(self).spec_lookup(m),
    {
        let n = self.peers.len();
        let mut i: usize = 0;
        while i < n
            invariant
                i <= n,
                n == self.peers@.len(),
                self == old(self),
                old(self).wf(),
                forall|j: int| 0 <= j < i ==> (#[trigger] self.spec_peers()[j])@.name != name@,
            decreases n - i,
        {
            if str_eq(self.peers[i].name.as_str(), name) {
                self.peers.remove(i);
                proof {
                    let ps = self.spec_peers();
                    let ops = old(self).spec_peers();
                    assert(ps =~= ops.remove(i as int));
                    assert forall|k: int| 0 <= k < ps.len() implies (#[trigger] ps[k]) == (if k < i
                        as int {
                        ops[k]
                    } else {
                        ops[k + 1]
                    }) by {}
                    assert forall|a: int, b: int| 0 <= a < b < ps.len() implies (
                    #[trigger] ps[a])@.name != (#[trigger] ps[b])@.name by {
                        let a0 = if a < i as int {
                            a
                        } else {
                            a + 1
                        };
                        let b0 = if b < i as int {
                            b
                        } else {
                            b + 1
                        };
                        assert(ops[a0]@.name != ops[b0]@.name);
                    }
                    assert forall|k: int|
                        0 <= k < ps.len() implies (#[trigger] ps[k])@.name
                        != self.spec_self_name() by {
                        if k < i as int {
                            assert(ps[k] == ops[k]);
                        } else {
                            assert(ps[k] == ops[k + 1]);
                        }
                    }
                    assert forall|k: int| 0 <= k < ps.len() implies (#[trigger] ps[k])@.name
                        != name@ by {
                        if k >= i as int {
                            assert(ops[i as int]@.name != ops[k + 1]@.name);
                        }
                    }
                    assert forall|m: Seq<char>| m != name@ implies #[trigger] self.spec_lookup(m)
                        == old(self).spec_lookup(m) by {
                        lemma_peer_lookup_agree_removed(self, old(self), m, i as int);
                    }
                }
                return ;
            }
            i = i + 1;
        }
    }

    /// A snapshot of the known peers, in discovery order.
    pub fn get_peers(&self) -> (r: &Vec<PeerInfo>)
        ensures
            r@ == self.spec_peers(),
    {
        &self.peers
    }

    /// The peer of this name, if known.
    pub fn get_peer(&self, name: &str) -> (r: Option<&PeerInfo>)
        requires
            self.wf(),
        ensures
            match r {
                Some(p) => self.spec_lookup(name@) == Some(*p),
                None => self.spec_lookup(name@) is None,
            },
    {
        let n = self.peers.len();
        let mut i: usize = 0;
        while i < n
            invariant
                i <= n,
                n == self.peers@.len(),
                self.wf(),
                forall|j: int| 0 <= j < i ==> (#[trigger] self.spec_peers()[j])@.name != name@,
            decreases n - i,
        {
            if str_eq(self.peers[i].name.as_str(), name) {
                proof {
                    lemma_peer_lookup_at(self, i as int);
                }
                return Some(&self.peers[i]);
            }
            i = i + 1;
        }
        None
    }

    /// Whether a peer of this name is known.
    pub fn has_peer(&self, name: &str) -> (r: bool)
        requires
            self.wf(),
        ensures
            r == self.spec_has_peer(name@),
    {
        match self.get_peer(name) {
            Some(_) => true,
            None => false,
        }
    }

    /// Forgets every peer; the browser will rediscover live ones.
    pub fn clear_peers(&mut self)
        ensures
            final(self).wf(),
            final(self).spec_self_name() == old(self).spec_self_name(),
            final(self).spec_peers() =~= Seq::<PeerInfo>::empty(),
    {
        self.peers.clear();
    }

    /// The first known peer: what the agent's bootstrap dials. Every
    /// registered peer is another machine, so no self-filtering is left
    /// to do.
    pub fn first_peer(&self) -> (r: Option<&PeerInfo>)
        ensures
            match r {
                Some(p) => self.spec_peers().len() > 0 && *p == self.spec_peers()[0],
                None => self.spec_peers().len() == 0,
            },
    {
        if self.peers.len() > 0 {
            Some(&self.peers[0])
        } else {
            None
        }
    }
}

/// With the invariant, the entry at a matching index is what the lookup
/// denotes.
proof fn lemma_peer_lookup_at(s: &PeerRegistry, i: int)
    requires
        0 <= i < s.spec_peers().len(),
        forall|a: int, b: int|
            0 <= a < b < s.spec_peers().len() ==> (#[trigger] s.spec_peers()[a])@.name != (
            #[trigger] s.spec_peers()[b])@.name,
    ensures
        s.spec_lookup(s.spec_peers()[i]@.name) == Some(s.spec_peers()[i]),
{
    let ps = s.spec_peers();
    let m = ps[i]@.name;
    assert(s.spec_has_peer(m));
    let k = choose|k: int|
        0 <= k < s.spec_peers().len() && (#[trigger] s.spec_peers()[k])@.name == m;
    if k < i {
        assert(ps[k]@.name != ps[i]@.name);
    } else if i < k {
        assert(ps[i]@.name != ps[k]@.name);
    }
}

/// Two registries that agree on every entry named `m` denote the same
/// peer for `m`.
proof fn lemma_peer_lookup_agree(a: &PeerRegistry, b: &PeerRegistry, m: Seq<char>)
    requires
        forall|i: int, j: int|
            0 <= i < j < a.spec_peers().len() ==> (#[trigger] a.spec_peers()[i])@.name != (
            #[trigger] a.spec_peers()[j])@.name,
        forall|i: int, j: int|
            0 <= i < j < b.spec_peers().len() ==> (#[trigger] b.spec_peers()[i])@.name != (
            #[trigger] b.spec_peers()[j])@.name,
        forall|k: int|
            0 <= k < a.spec_peers().len() && (#[trigger] a.spec_peers()[k])@.name == m ==> 0 <= k
                < b.spec_peers().len() && b.spec_peers()[k] == a.spec_peers()[k],
        forall|k: int|
            0 <= k < b.spec_peers().len() && (#[trigger] b.spec_peers()[k])@.name == m ==> 0 <= k
                < a.spec_peers().len() && a.spec_peers()[k] == b.spec_peers()[k],
    ensures
        a.spec_lookup(m) == b.spec_lookup(m),
{
    if a.spec_has_peer(m) {
        let ka = choose|k: int|
            0 <= k < a.spec_peers().len() && (#[trigger] a.spec_peers()[k])@.name == m;
        assert(b.spec_peers()[ka] == a.spec_peers()[ka]);
        assert(b.spec_has_peer(m));
    }
    if b.spec_has_peer(m) {
        let kb = choose|k: int|
            0 <= k < b.spec_peers().len() && (#[trigger] b.spec_peers()[k])@.name == m;
        assert(a.spec_peers()[kb] == b.spec_peers()[kb]);
        assert(a.spec_has_peer(m));
    }
    if a.spec_has_peer(m) && b.spec_has_peer(m) {
        let ka = choose|k: int|
            0 <= k < a.spec_peers().len() && (#[trigger] a.spec_peers()[k])@.name == m;
        let kb = choose|k: int|
            0 <= k < b.spec_peers().len() && (#[trigger] b.spec_peers()[k])@.name == m;
        assert(b.spec_peers()[ka] == a.spec_peers()[ka]);
        assert(b.spec_peers()[ka]@.name == m);
        if ka < kb {
            assert(b.spec_peers()[ka]@.name != b.spec_peers()[kb]@.name);
        } else if kb < ka {
            assert(b.spec_peers()[kb]@.name != b.spec_peers()[ka]@.name);
        }
    }
}

/// A registry with entry `i` removed denotes, for any other name, the
/// same peer as before.
proof fn lemma_peer_lookup_agree_removed(
    a: &PeerRegistry,
    b: &PeerRegistry,
    m: Seq<char>,
    i: int,
)
    requires
        0 <= i < b.spec_peers().len(),
        a.spec_peers() == b.spec_peers().remove(i),
        b.spec_peers()[i]@.name != m,
        forall|x: int, j: int|
            0 <= x < j < a.spec_peers().len() ==> (#[trigger] a.spec_peers()[x])@.name != (
            #[trigger] a.spec_peers()[j])@.name,
        forall|x: int, j: int|
            0 <= x < j < b.spec_peers().len() ==> (#[trigger] b.spec_peers()[x])@.name != (
            #[trigger] b.spec_peers()[j])@.name,
    ensures
        a.spec_lookup(m) == b.spec_lookup(m),
{
    let ps = a.spec_peers();
    let ops = b.spec_peers();
    assert forall|k: int| 0 <= k < ps.len() implies (#[trigger] ps[k]) == (if k < i {
        ops[k]
    } else {
        ops[k + 1]
    }) by {}
    if a.spec_has_peer(m) {
        let ka = choose|k: int|
            0 <= k < a.spec_peers().len() && (#[trigger] a.spec_peers()[k])@.name == m;
        if ka < i {
            assert(ops[ka]@.name == m);
        } else {
            assert(ops[ka + 1]@.name == m);
        }
        assert(b.spec_has_peer(m));
    }
    if b.spec_has_peer(m) {
        let kb = choose|k: int|
            0 <= k < b.spec_peers().len() && (#[trigger] b.spec_peers()[k])@.name == m;
        assert(kb != i);
        if kb < i {
            assert(ps[kb]@.name == m);
        } else {
            assert(ps[kb - 1]@.name == m);
        }
        assert(a.spec_has_peer(m));
    }
    if a.spec_has_peer(m) && b.spec_has_peer(m) {
        let ka = choose|k: int|
            0 <= k < a.spec_peers().len() && (#[trigger] a.spec_peers()[k])@.name == m;
        let kb = choose|k: int|
            0 <= k < b.spec_peers().len() && (#[trigger] b.spec_peers()[k])@.name == m;
        let ka0 = if ka < i {
            ka
        } else {
            ka + 1
        };
        assert(ops[ka0]@.name == m);
        if ka0 < kb {
            assert(ops[ka0]@.name != ops[kb]@.name);
        } else if kb < ka0 {
            assert(ops[kb]@.name != ops[ka0]@.name);
        }
        assert(ka0 == kb);
        assert(ps[ka] == ops[kb]);
    }
}

} // verus!
