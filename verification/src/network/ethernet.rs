//! The Ethernet layer: MAC addresses, the L2 forwarding table, and the
//! layer's encode/decode steps.

use crate::network::module_traits::AsyncProtocolModule;
use crate::network::packet::NetworkPacket;
use crate::network::protocol::{
    bytes_eq, MapKey, NetworkProtocolMng, ProtocolHeaderType, ProtocolMetaData,
};
use crate::network::subres::SubInfo;
use vstd::prelude::*;

verus! {

#[derive(Clone, Copy, Debug, Eq, PartialEq)]
pub struct MacAddr {
    pub mac: [u8; 6],
}

/// Whether a byte is an ASCII hexadecimal digit.
pub open spec fn is_hex_digit(c: u8) -> bool {
    (48 <= c <= 57) || (97 <= c <= 102) || (65 <= c <= 70)
}

/// The value of one ASCII hexadecimal digit.
pub open spec fn hex_digit_val(c: u8) -> int {
    if 48 <= c <= 57 {
        c - 48
    } else if 97 <= c <= 102 {
        c - 87
    } else {
        c - 55
    }
}

/// The number the digit sequence denotes, most significant digit first.
pub open spec fn hex_num_val(s: Seq<u8>) -> int
    decreases s.len(),
{
    if s.len() == 0 {
        0
    } else {
        hex_num_val(s.drop_last()) * 16 + hex_digit_val(s.last())
    }
}

pub open spec fn all_hex(s: Seq<u8>) -> bool {
    forall|i: int| 0 <= i < s.len() ==> is_hex_digit(#[trigger] s[i])
}

/// What parsing one address part as a hexadecimal byte yields, as the
/// standard unsigned number parser reads it: an optional leading plus
/// sign, then at least one hexadecimal digit, with a value that fits a
/// byte.
pub open spec fn hex_byte_spec(s: Seq<u8>) -> Option<u8> {
    let body = if s.len() > 0 && s[0] == 43 {
        s.drop_first()
    } else {
        s
    };
    if body.len() > 0 && all_hex(body) && hex_num_val(body) <= 255 {
        Some(hex_num_val(body) as u8)
    } else {
        None
    }
}

proof fn lemma_hex_num_nonneg(s: Seq<u8>)
    requires
        all_hex(s),
    ensures
        hex_num_val(s) >= 0,
    decreases s.len(),
{
    if s.len() > 0 {
        assert forall|i: int| 0 <= i < s.drop_last().len()
            implies is_hex_digit(#[trigger] s.drop_last()[i]) by {
            assert(s.drop_last()[i] == s[i]);
        }
        lemma_hex_num_nonneg(s.drop_last());
    }
}

/// A digit sequence is worth at least any of its prefixes.
proof fn lemma_hex_num_prefix(s: Seq<u8>, k: int)
    requires
        all_hex(s),
        0 <= k <= s.len(),
    ensures
        hex_num_val(s.take(k)) <= hex_num_val(s),
    decreases s.len() - k,
{
    if k == s.len() {
        assert(s.take(k) =~= s);
    } else {
        assert forall|i: int| 0 <= i < s.drop_last().len()
            implies is_hex_digit(#[trigger] s.drop_last()[i]) by {
            assert(s.drop_last()[i] == s[i]);
        }
        assert(s.drop_last().take(k) =~= s.take(k));
        lemma_hex_num_prefix(s.drop_last(), k);
        lemma_hex_num_nonneg(s.drop_last());
    }
}

/// Reads one address part as a hexadecimal byte.
pub fn parse_hex_byte(s: &[u8]) -> (r: Option<u8>)
    ensures
        r == hex_byte_spec(s@),
{
    let n = s.len();
    let mut start: usize = 0;
    if n > 0 && s[0] == 43 {
        start = 1;
    }
    let ghost body = if s@.len() > 0 && s@[0] == 43 {
        s@.drop_first()
    } else {
        s@
    };
    proof {
        assert(body =~= s@.subrange(start as int, n as int));
    }
    if start == n {
        return None;
    }
    let mut val: u32 = 0;
    let mut i: usize = start;
    while i < n
        invariant
            start <= i <= n,
            n == s@.len(),
            body == s@.subrange(start as int, n as int),
            body == if s@.len() > 0 && s@[0] == 43 {
                s@.drop_first()
            } else {
                s@
            },
            all_hex(s@.subrange(start as int, i as int)),
            val == hex_num_val(s@.subrange(start as int, i as int)),
            val <= 255,
        decreases n - i,
    {
        let c = s[i];
        let d: u32 = if 48 <= c && c <= 57 {
            (c - 48) as u32
        } else if 97 <= c && c <= 102 {
            (c - 87) as u32
        } else if 65 <= c && c <= 70 {
            (c - 55) as u32
        } else {
            // A non-digit anywhere makes the whole part unreadable.
            proof {
                assert(body[i - start] == c);
                assert(!is_hex_digit(c));
                assert(!all_hex(body));
                assert(hex_byte_spec(s@) is None);
            }
            return None;
        };
        proof {
            assert(s@.subrange(start as int, i + 1).drop_last()
                =~= s@.subrange(start as int, i as int));
            assert forall|j: int| 0 <= j < s@.subrange(start as int, i + 1).len()
                implies is_hex_digit(
                    #[trigger] s@.subrange(start as int, i + 1)[j],
                ) by {
                if j < i - start {
                    assert(s@.subrange(start as int, i + 1)[j]
                        == s@.subrange(start as int, i as int)[j]);
                }
            }
        }
        val = val * 16 + d;
        if val > 255 {
            // The prefix already exceeds a byte, so the whole part does.
            proof {
                assert(body.take(i + 1 - start)
                    =~= s@.subrange(start as int, i + 1));
                assert(val == hex_num_val(s@.subrange(start as int, i + 1)));
                if all_hex(body) {
                    lemma_hex_num_prefix(body, i + 1 - start);
                    assert(hex_num_val(body) > 255);
                }
                assert(hex_byte_spec(s@) is None);
            }
            return None;
        }
        i = i + 1;
    }
    proof {
        assert(s@.subrange(start as int, i as int) =~= body);
    }
    Some(val as u8)
}

/// Whether a byte separates the parts of an address: a colon or a dash.
pub open spec fn is_sep(c: u8) -> bool {
    c == 58 || c == 45
}

/// The separator-delimited parts of the byte string, `cur` being the
/// part already read when the scan starts.
pub open spec fn split_acc(s: Seq<u8>, cur: Seq<u8>) -> Seq<Seq<u8>>
    decreases s.len(),
{
    if s.len() == 0 {
        seq![cur]
    } else if is_sep(s[0]) {
        seq![cur] + split_acc(s.drop_first(), Seq::empty())
    } else {
        split_acc(s.drop_first(), cur.push(s[0]))
    }
}

/// The separator-delimited parts of the byte string.
pub open spec fn split_parts(s: Seq<u8>) -> Seq<Seq<u8>> {
    split_acc(s, Seq::empty())
}

proof fn lemma_split_acc_len(s: Seq<u8>, cur: Seq<u8>)
    ensures
        split_acc(s, cur).len() >= 1,
    decreases s.len(),
{
    if s.len() > 0 && !is_sep(s[0]) {
        lemma_split_acc_len(s.drop_first(), cur.push(s[0]));
    }
}

/// What parsing a whole address yields: exactly six separator-delimited
/// parts, each a hexadecimal byte.
pub open spec fn mac_parse_spec(s: Seq<u8>) -> Option<Seq<u8>> {
    let parts = split_parts(s);
    if parts.len() == 6 && (forall|k: int| 0 <= k < 6
        ==> hex_byte_spec(#[trigger] parts[k]) is Some) {
        Some(Seq::new(6, |k: int| hex_byte_spec(parts[k]).unwrap()))
    } else {
        None
    }
}

impl MacAddr {
    /// Reads an address of six hexadecimal parts separated by colons or
    /// dashes, as in `00-10-00-00-aa-bb`.
    pub fn parse(s: &[u8]) -> (r: Option<MacAddr>)
        ensures
            match r {
                Some(m) => mac_parse_spec(s@) == Some(m.mac@),
                None => mac_parse_spec(s@) is None,
            },
    {
        let n = s.len();
        let mut vals: Vec<u8> = Vec::new();
        let ghost mut done: Seq<Seq<u8>> = Seq::empty();
        let mut start: usize = 0;
        let mut i: usize = 0;
        proof {
            assert(s@.subrange(0, n as int) =~= s@);
            assert(s@.subrange(0, 0) =~= Seq::<u8>::empty());
        }
        while i < n
            invariant
                0 <= start <= i <= n,
                n == s@.len(),
                vals@.len() == done.len(),
                vals@.len() <= 5,
                forall|k: int| 0 <= k < done.len()
                    ==> hex_byte_spec(#[trigger] done[k]) == Some(vals@[k]),
                split_parts(s@) == done + split_acc(
                    s@.subrange(i as int, n as int),
                    s@.subrange(start as int, i as int),
                ),
            decreases n - i,
        {
            let c = s[i];
            if c == 58 || c == 45 {
                let ghost part = s@.subrange(start as int, i as int);
                proof {
                    assert(s@.subrange(i as int, n as int)[0] == c);
                    assert(s@.subrange(i as int, n as int).drop_first()
                        =~= s@.subrange(i + 1, n as int));
                    assert(split_acc(s@.subrange(i as int, n as int), part)
                        == seq![part] + split_acc(
                        s@.subrange(i + 1, n as int),
                        Seq::<u8>::empty(),
                    ));
                }
                if vals.len() == 5 {
                    // This separator opens a seventh part: too many.
                    proof {
                        lemma_split_acc_len(
                            s@.subrange(i + 1, n as int),
                            Seq::<u8>::empty(),
                        );
                        assert(split_parts(s@).len() >= 7);
                    }
                    return None;
                }
                match parse_hex_byte(&s[start..i]) {
                    None => {
                        // This part is not a hexadecimal byte.
                        proof {
                            let parts = split_parts(s@);
                            assert(parts[done.len() as int] == part);
                        }
                        return None;
                    }
                    Some(v) => {
                        vals.push(v);
                        proof {
                            done = done.push(part);
                            assert(split_parts(s@) =~= done + split_acc(
                                s@.subrange(i + 1, n as int),
                                Seq::<u8>::empty(),
                            ));
                            assert(s@.subrange(i + 1, i + 1)
                                =~= Seq::<u8>::empty());
                        }
                        start = i + 1;
                    }
                }
            } else {
                proof {
                    assert(s@.subrange(i as int, n as int)[0] == c);
                    assert(s@.subrange(i as int, n as int).drop_first()
                        =~= s@.subrange(i + 1, n as int));
                    assert(s@.subrange(start as int, i as int).push(c)
                        =~= s@.subrange(start as int, i + 1));
                }
            }
            i = i + 1;
        }
        let ghost part = s@.subrange(start as int, n as int);
        proof {
            assert(s@.subrange(n as int, n as int).len() == 0);
            assert(split_acc(s@.subrange(n as int, n as int), part)
                == seq![part]);
        }
        if vals.len() != 5 {
            // Fewer than six parts in all.
            proof {
                assert(split_parts(s@).len() == done.len() + 1);
            }
            return None;
        }
        match parse_hex_byte(&s[start..n]) {
            None => {
                proof {
                    let parts = split_parts(s@);
                    assert(parts[done.len() as int] == part);
                }
                None
            }
            Some(v) => {
                vals.push(v);
                proof {
                    done = done.push(part);
                }
                let m = MacAddr {
                    mac: [vals[0], vals[1], vals[2], vals[3], vals[4], vals[5]],
                };
                proof {
                    let parts = split_parts(s@);
                    assert(parts =~= done);
                    assert forall|k: int| 0 <= k < 6
                        implies hex_byte_spec(#[trigger] parts[k]) is Some by {
                        assert(parts[k] == done[k]);
                    }
                    assert(m.mac@
                        =~= Seq::new(6, |k: int| hex_byte_spec(parts[k]).unwrap()));
                }
                Some(m)
            }
        }
    }
}

/// Primary dispatch key of the Ethernet table: a MAC address.
#[derive(Clone, Copy, Debug, Eq, PartialEq)]
pub struct EthKey {
    pub key: MacAddr,
}

impl EthKey {
    pub fn new(key_ref: &MacAddr) -> (k: EthKey)
        ensures
            k.key == *key_ref,
    {
        EthKey { key: *key_ref }
    }
}

impl MapKey for EthKey {
    open spec fn eq_spec(&self, other: &EthKey) -> bool {
        self.key.mac@ == other.key.mac@
    }

    proof fn lemma_eq_sym(&self, other: &EthKey) {
    }

    proof fn lemma_eq_trans(&self, b: &EthKey, c: &EthKey) {
    }

    fn same_key(&self, other: &EthKey) -> (r: bool) {
        bytes_eq(self.key.mac.as_slice(), other.key.mac.as_slice())
    }
}

/// An Ethernet table entry: the address, an optional VLAN, and a
/// sub-resource slot. The slot is created empty; the constructor takes a
/// sub-resource argument but, as a dispatch entry, stores none of it.
#[derive(Debug, Clone, Copy)]
pub struct EthEntry {
    mac: MacAddr,
    vlan: Option<u16>,
    sub: SubInfo,
}

impl EthEntry {
    pub closed spec fn mac_spec(&self) -> MacAddr {
        self.mac
    }

    pub closed spec fn vlan_spec(&self) -> Option<u16> {
        self.vlan
    }

    pub closed spec fn sub_spec(&self) -> SubInfo {
        self.sub
    }

    pub fn get_mac(&self) -> (r: MacAddr)
        ensures
            r == self.mac_spec(),
    {
        self.mac
    }

    pub fn new(mac: MacAddr, vlan: Option<u16>, sub: SubInfo) -> (e: EthEntry)
        ensures
            e.mac_spec() == mac,
            e.vlan_spec() == vlan,
            e.sub_spec() is Empty,
    {
        EthEntry { mac, vlan, sub: SubInfo::Empty }
    }
}

pub struct EthernetProtocol {
    pub common: NetworkProtocolMng<EthKey, EthEntry>,
    pub default_vlan: Option<u16>,
    pub enable_vlan: bool,
}

impl EthernetProtocol {
    pub open spec fn wf(&self) -> bool {
        self.common.wf()
    }

    pub fn new() -> (e: EthernetProtocol)
        ensures
            e.wf(),
            e.common.entries().len() == 0,
            e.common.header_type_spec() == ProtocolHeaderType::Ethernet,
            e.default_vlan is None,
            !e.enable_vlan,
    {
        EthernetProtocol {
            common: NetworkProtocolMng::new(ProtocolHeaderType::Ethernet),
            default_vlan: None,
            enable_vlan: false,
        }
    }

    /// Learns a MAC address: binds it in the table if and only if it is
    /// not yet known.
    pub fn add_mac(&mut self, mac: &MacAddr, sub: SubInfo) -> (r: Result<(), ()>)
        requires
            old(self).wf(),
        ensures
            final(self).wf(),
            match r {
                Ok(()) => {
                    &&& !old(self).common.contains_key_spec(&(EthKey { key: *mac }))
                    &&& final(self).common.entries().len()
                        == old(self).common.entries().len() + 1
                    &&& forall|i: int| 0 <= i < old(self).common.entries().len()
                        ==> final(self).common.entries()[i]
                            == old(self).common.entries()[i]
                    &&& final(self).common.entries().last().0 == (EthKey { key: *mac })
                    &&& final(self).common.entries().last().1.mac_spec() == *mac
                    &&& final(self).common.entries().last().1.vlan_spec() is None
                    &&& final(self).common.entries().last().1.sub_spec() is Empty
                },
                Err(()) => old(self).common.contains_key_spec(
                    &(EthKey { key: *mac }),
                ) && final(self).common.entries() == old(self).common.entries(),
            },
    {
        let ky = EthKey::new(mac);
        let ent = EthEntry::new(*mac, None, sub);
        self.common.insert_vacant(ky, ent)
    }

    /// Looks a MAC address up, returning a copy of its entry.
    pub fn search_mac(&self, mac: &MacAddr) -> (r: Result<EthEntry, ()>)
        ensures
            match r {
                Ok(e) => exists|i: int|
                    0 <= i < self.common.entries().len()
                        && (#[trigger] self.common.entries()[i]).0.eq_spec(
                        &(EthKey { key: *mac }),
                    ) && self.common.entries()[i].1 == e,
                Err(()) => !self.common.contains_key_spec(&(EthKey { key: *mac })),
            },
    {
        let key = EthKey::new(mac);
        match self.common.lookup(&key) {
            Some(e) => Ok(*e),
            None => Err(()),
        }
    }
}

impl AsyncProtocolModule<NetworkPacket> for EthernetProtocol {
    type EncodeResult = (NetworkPacket, Result<(), ()>);

    type DecodeResult = (NetworkPacket, Result<ProtocolMetaData, ()>);

    fn sync_encode(&self, p: NetworkPacket) -> (r: Self::EncodeResult)
        ensures
            r.0 == p,
            r.1 is Ok,
    {
        (p, Ok(()))
    }

    fn sync_decode(&self, p: NetworkPacket) -> (r: Self::DecodeResult)
        ensures
            r.0 == p,
            r.1 is Ok,
            r.1->Ok_0.pt_spec() == ProtocolHeaderType::IPv4,
    {
        let mut meta = ProtocolMetaData::new();
        meta.set_pt(ProtocolHeaderType::IPv4);
        (p, Ok(meta))
    }
}

} // verus!
