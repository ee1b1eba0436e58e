//! Shared pieces of every protocol layer: the header-type tags, the keyed
//! resource table each layer owns, and the metadata a decode step hands to
//! the next layer up.

use vstd::prelude::*;

verus! {

#[derive(Debug, Clone, Copy, PartialEq, Eq, Hash, Structural)]
pub enum ProtocolHeaderType {
    Unspecified,
    Socket,
    Ethernet,
    ARP,
    IPv4,
    IPv6,
    UDP,
    TCP,
    ICMPv4,
    ICMPv6,
}

impl ProtocolHeaderType {
    /// The wire code of this header type: the conventional EtherType or
    /// IP protocol number where one exists, a private code elsewhere.
    pub fn code(&self) -> (r: u16)
        ensures
            r == self.code_spec(),
    {
        match self {
            ProtocolHeaderType::Ethernet => 1,
            ProtocolHeaderType::ARP => 0xaa,
            ProtocolHeaderType::IPv4 => 0x0800,
            ProtocolHeaderType::IPv6 => 0x86DD,
            ProtocolHeaderType::UDP => 17,
            ProtocolHeaderType::TCP => 6,
            ProtocolHeaderType::ICMPv4 => 0xa4,
            ProtocolHeaderType::ICMPv6 => 0xa6,
            ProtocolHeaderType::Unspecified => 0,
            ProtocolHeaderType::Socket => 0,
        }
    }

    pub open spec fn code_spec(&self) -> u16 {
        match self {
            ProtocolHeaderType::Ethernet => 1,
            ProtocolHeaderType::ARP => 0xaa,
            ProtocolHeaderType::IPv4 => 0x0800,
            ProtocolHeaderType::IPv6 => 0x86DD,
            ProtocolHeaderType::UDP => 17,
            ProtocolHeaderType::TCP => 6,
            ProtocolHeaderType::ICMPv4 => 0xa4,
            ProtocolHeaderType::ICMPv6 => 0xa6,
            ProtocolHeaderType::Unspecified => 0,
            ProtocolHeaderType::Socket => 0,
        }
    }
}

/// A protocol result value: a header type together with an optional
/// payload.
#[derive(Debug, Clone, PartialEq, Eq)]
pub struct ProtocolResValue {
    pub t: ProtocolHeaderType,
    pub v: Option<Vec<u8>>,
}

impl Default for ProtocolResValue {
    /// The default value: no header type, no payload.
    fn default() -> (r: ProtocolResValue)
        ensures
            r.t == ProtocolHeaderType::Unspecified,
            r.v is None,
    {
        ProtocolResValue { t: ProtocolHeaderType::Unspecified, v: None }
    }
}

impl ProtocolResValue {
    /// Whether two values agree: same tag, and payloads that hold the
    /// same bytes.
    pub open spec fn matches_spec(&self, other: &ProtocolResValue) -> bool {
        &&& self.t == other.t
        &&& match (self.v, other.v) {
            (Option::None, Option::None) => true,
            (Option::Some(a), Option::Some(b)) => a@ == b@,
            _ => false,
        }
    }

    pub fn matches(&self, other: &ProtocolResValue) -> (r: bool)
        ensures
            r == self.matches_spec(other),
    {
        if !self.t.same_tag(&other.t) {
            return false;
        }
        match (&self.v, &other.v) {
            (Option::None, Option::None) => true,
            (Option::Some(a), Option::Some(b)) => bytes_eq(a.as_slice(), b.as_slice()),
            _ => false,
        }
    }
}

impl ProtocolHeaderType {
    /// Whether two tags are the same variant.
    pub fn same_tag(&self, other: &ProtocolHeaderType) -> (r: bool)
        ensures
            r == (*self == *other),
    {
        match (self, other) {
            (ProtocolHeaderType::Unspecified, ProtocolHeaderType::Unspecified) => true,
            (ProtocolHeaderType::Socket, ProtocolHeaderType::Socket) => true,
            (ProtocolHeaderType::Ethernet, ProtocolHeaderType::Ethernet) => true,
            (ProtocolHeaderType::ARP, ProtocolHeaderType::ARP) => true,
            (ProtocolHeaderType::IPv4, ProtocolHeaderType::IPv4) => true,
            (ProtocolHeaderType::IPv6, ProtocolHeaderType::IPv6) => true,
            (ProtocolHeaderType::UDP, ProtocolHeaderType::UDP) => true,
            (ProtocolHeaderType::TCP, ProtocolHeaderType::TCP) => true,
            (ProtocolHeaderType::ICMPv4, ProtocolHeaderType::ICMPv4) => true,
            (ProtocolHeaderType::ICMPv6, ProtocolHeaderType::ICMPv6) => true,
            _ => false,
        }
    }
}

/// Byte-for-byte equality of two slices.
pub fn bytes_eq(a: &[u8], b: &[u8]) -> (r: bool)
    ensures
        r == (a@ == b@),
{
    if a.len() != b.len() {
        return false;
    }
    let n = a.len();
    let mut i: usize = 0;
    while i < n
        invariant
            n == a@.len() == b@.len(),
            0 <= i <= n,
            forall|j: int| 0 <= j < i ==> a@[j] == b@[j],
        decreases n - i,
    {
        if a[i] != b[i] {
            return false;
        }
        i = i + 1;
    }
    proof {
        assert(a@ =~= b@);
    }
    true
}

/// A table key: a type with a decidable equality whose meaning the table's
/// contracts are stated over. The equality must be an equivalence, so a
/// table can promise that each key occurs at most once.
pub trait MapKey: Sized {
    spec fn eq_spec(&self, other: &Self) -> bool;

    proof fn lemma_eq_sym(&self, other: &Self)
        ensures
            self.eq_spec(other) == other.eq_spec(self),
    ;

    proof fn lemma_eq_trans(&self, b: &Self, c: &Self)
        requires
            self.eq_spec(b),
            b.eq_spec(c),
        ensures
            self.eq_spec(c),
    ;

    fn same_key(&self, other: &Self) -> (r: bool)
        ensures
            r == self.eq_spec(other),
    ;
}

impl MapKey for u64 {
    open spec fn eq_spec(&self, other: &u64) -> bool {
        self == other
    }

    proof fn lemma_eq_sym(&self, other: &u64) {
    }

    proof fn lemma_eq_trans(&self, b: &u64, c: &u64) {
    }

    fn same_key(&self, other: &u64) -> (r: bool) {
        *self == *other
    }
}

/// A protocol layer's resource table: an association of keys to
/// resources, each key present at most once, plus the layer's header
/// type.
pub struct NetworkProtocolMng<ProtocolKey, ProtocolRes> {
    header_type: ProtocolHeaderType,
    res_table: Vec<(ProtocolKey, ProtocolRes)>,
}

impl<K: MapKey, R> NetworkProtocolMng<K, R> {
    pub closed spec fn header_type_spec(&self) -> ProtocolHeaderType {
        self.header_type
    }

    pub closed spec fn entries(&self) -> Seq<(K, R)> {
        self.res_table@
    }

    pub open spec fn contains_key_spec(&self, k: &K) -> bool {
        exists|i: int| 0 <= i < self.entries().len()
            && (#[trigger] self.entries()[i]).0.eq_spec(k)
    }

    /// Each key occurs at most once.
    pub open spec fn wf(&self) -> bool {
        forall|i: int, j: int| 0 <= i < j < self.entries().len()
            ==> !(#[trigger] self.entries()[i]).0.eq_spec(
                &(#[trigger] self.entries()[j]).0,
            )
    }

    pub fn new(t: ProtocolHeaderType) -> (m: NetworkProtocolMng<K, R>)
        ensures
            m.wf(),
            m.header_type_spec() == t,
            m.entries() == Seq::<(K, R)>::empty(),
    {
        NetworkProtocolMng { header_type: t, res_table: Vec::new() }
    }

    pub fn contains_key(&self, k: &K) -> (r: bool)
        ensures
            r == self.contains_key_spec(k),
    {
        let n = self.res_table.len();
        let mut i: usize = 0;
        while i < n
            invariant
                n == self.entries().len(),
                0 <= i <= n,
                forall|j: int| 0 <= j < i
                    ==> !(#[trigger] self.entries()[j]).0.eq_spec(k),
            decreases n - i,
        {
            if self.res_table[i].0.same_key(k) {
                return true;
            }
            i = i + 1;
        }
        false
    }

    /// Inserts a binding if and only if the key is not yet bound.
    pub fn insert_vacant(&mut self, k: K, v: R) -> (r: Result<(), ()>)
        requires
            old(self).wf(),
        ensures
            final(self).wf(),
            final(self).header_type_spec() == old(self).header_type_spec(),
            match r {
                Ok(()) => !old(self).contains_key_spec(&k)
                    && final(self).entries() == old(self).entries().push((k, v)),
                Err(()) => old(self).contains_key_spec(&k)
                    && final(self).entries() == old(self).entries(),
            },
    {
        if self.contains_key(&k) {
            return Err(());
        }
        let ghost pre = *self;
        self.res_table.push((k, v));
        proof {
            assert forall|i: int, j: int|
                0 <= i < j < self.entries().len()
                implies !(#[trigger] self.entries()[i]).0.eq_spec(
                    &(#[trigger] self.entries()[j]).0,
                ) by {
                assert(self.entries()[i] == pre.entries()[i]);
                if j < self.entries().len() - 1 {
                    assert(self.entries()[j] == pre.entries()[j]);
                } else {
                    assert(self.entries()[j] == (k, v));
                    if pre.entries()[i].0.eq_spec(&k) {
                        assert(pre.contains_key_spec(&k));
                    }
                }
            }
        }
        Ok(())
    }

    /// Looks the key up; under `wf` at most one binding can match.
    pub fn lookup(&self, k: &K) -> (r: Option<&R>)
        ensures
            match r {
                Some(v) => exists|i: int|
                    0 <= i < self.entries().len()
                        && (#[trigger] self.entries()[i]).0.eq_spec(k)
                        && self.entries()[i].1 == *v,
                None => !self.contains_key_spec(k),
            },
    {
        let n = self.res_table.len();
        let mut i: usize = 0;
        while i < n
            invariant
                n == self.entries().len(),
                0 <= i <= n,
                forall|j: int| 0 <= j < i
                    ==> !(#[trigger] self.entries()[j]).0.eq_spec(k),
            decreases n - i,
        {
            if self.res_table[i].0.same_key(k) {
                return Some(&self.res_table[i].1);
            }
            i = i + 1;
        }
        None
    }
}

/// Law: a well-formed table binds a key at most once — any two entries
/// that both match one key are the same entry.
pub proof fn lemma_at_most_one_match<K: MapKey, R>(
    m: &NetworkProtocolMng<K, R>,
    k: &K,
    i: int,
    j: int,
)
    requires
        m.wf(),
        0 <= i < m.entries().len(),
        0 <= j < m.entries().len(),
        m.entries()[i].0.eq_spec(k),
        m.entries()[j].0.eq_spec(k),
    ensures
        i == j,
{
    if i != j {
        let a = m.entries()[i].0;
        let b = m.entries()[j].0;
        a.lemma_eq_sym(k);
        k.lemma_eq_trans(&a, k);
        b.lemma_eq_sym(k);
        a.lemma_eq_trans(k, &b);
        if i < j {
            assert(!m.entries()[i].0.eq_spec(&m.entries()[j].0));
        } else {
            b.lemma_eq_sym(&a);
            assert(!m.entries()[j].0.eq_spec(&m.entries()[i].0));
        }
    }
}

/// What a decode step hands to the layer above: which protocol the
/// remaining bytes belong to.
pub struct ProtocolMetaData {
    pt: ProtocolHeaderType,
}

impl ProtocolMetaData {
    pub closed spec fn pt_spec(&self) -> ProtocolHeaderType {
        self.pt
    }

    pub fn new() -> (m: ProtocolMetaData)
        ensures
            m.pt_spec() == ProtocolHeaderType::Unspecified,
    {
        ProtocolMetaData { pt: ProtocolHeaderType::Unspecified }
    }

    pub fn set_pt(&mut self, p: ProtocolHeaderType)
        ensures
            final(self).pt_spec() == p,
    {
        self.pt = p;
    }

    pub fn get_pt(&self) -> (r: ProtocolHeaderType)
        ensures
            r == self.pt_spec(),
    {
        self.pt
    }
}

} // verus!
