//! Packet storage: a fixed-size byte buffer with a write cursor, a
//! fragment that pairs one buffer with its parsed header positions, and a
//! packet made of fragments.

use crate::network::protocol::ProtocolHeaderType;
use vstd::prelude::*;

verus! {

/// The byte capacity of one packet fragment.
pub const FRAG_CAPACITY: usize = 1514;

/// A fixed-capacity byte buffer with a write cursor. A write lands at the
/// cursor; the cursor itself moves only when the buffer is reset, so
/// `data_len` reports the cursor, not the bytes written.
pub struct FixedPacketBuffer {
    w_idx: usize,
    buffer: Vec<u8>,
}

impl FixedPacketBuffer {
    pub closed spec fn w_idx_spec(&self) -> usize {
        self.w_idx
    }

    pub closed spec fn buffer_spec(&self) -> Seq<u8> {
        self.buffer@
    }

    pub open spec fn wf(&self) -> bool {
        self.w_idx_spec() <= self.buffer_spec().len()
    }

    /// A zeroed buffer of the given capacity, with the cursor at the
    /// start.
    pub fn new(sz: usize) -> (b: FixedPacketBuffer)
        ensures
            b.wf(),
            b.w_idx_spec() == 0,
            b.buffer_spec().len() == sz,
            forall|i: int| 0 <= i < sz ==> b.buffer_spec()[i] == 0u8,
    {
        let mut buffer: Vec<u8> = Vec::new();
        let mut k: usize = 0;
        while k < sz
            invariant
                0 <= k <= sz,
                buffer@.len() == k,
                forall|i: int| 0 <= i < k ==> buffer@[i] == 0u8,
            decreases sz - k,
        {
            buffer.push(0);
            k = k + 1;
        }
        FixedPacketBuffer { w_idx: 0, buffer }
    }

    pub fn reset(&mut self)
        ensures
            final(self).w_idx_spec() == 0,
            final(self).buffer_spec() == old(self).buffer_spec(),
    {
        self.w_idx = 0;
    }

    pub fn free_space(&self) -> (r: usize)
        requires
            self.wf(),
        ensures
            r == self.buffer_spec().len() - self.w_idx_spec(),
    {
        self.buffer.len() - self.w_idx
    }

    pub fn data_len(&self) -> (r: usize)
        ensures
            r == self.w_idx_spec(),
    {
        self.w_idx
    }

    /// Writes `data` at the cursor. Fails exactly when the cursor is at
    /// or past the end, or the data does not fit; the cursor does not
    /// move either way.
    pub fn push_data(&mut self, data: &[u8]) -> (r: Result<(), ()>)
        ensures
            final(self).w_idx_spec() == old(self).w_idx_spec(),
            final(self).buffer_spec().len() == old(self).buffer_spec().len(),
            match r {
                Ok(()) => {
                    &&& old(self).w_idx_spec() < old(self).buffer_spec().len()
                    &&& old(self).w_idx_spec() + data@.len()
                        <= old(self).buffer_spec().len()
                    &&& forall|i: int| 0 <= i < data@.len()
                        ==> final(self).buffer_spec()[old(self).w_idx_spec() + i]
                            == data@[i]
                    &&& forall|i: int|
                        0 <= i < old(self).buffer_spec().len()
                            && !(old(self).w_idx_spec() <= i
                                < old(self).w_idx_spec() + data@.len())
                        ==> final(self).buffer_spec()[i]
                            == old(self).buffer_spec()[i]
                },
                Err(()) => {
                    &&& (old(self).w_idx_spec() >= old(self).buffer_spec().len()
                        || old(self).w_idx_spec() + data@.len()
                            > old(self).buffer_spec().len())
                    &&& *final(self) == *old(self)
                },
            },
    {
        let buffer_len = self.buffer.len();
        let w_idx = self.w_idx;
        let data_len = data.len();
        if w_idx >= buffer_len || data_len > buffer_len - w_idx {
            return Err(());
        }
        let mut i: usize = 0;
        while i < data_len
            invariant
                0 <= i <= data_len,
                data_len == data@.len(),
                w_idx + data_len <= self.buffer@.len(),
                self.buffer@.len() <= usize::MAX,
                self.w_idx == w_idx,
                self.buffer@.len() == old(self).buffer_spec().len(),
                forall|j: int| 0 <= j < i
                    ==> self.buffer@[w_idx + j] == data@[j],
                forall|j: int| 0 <= j < self.buffer@.len()
                    && !(w_idx <= j < w_idx + i)
                    ==> self.buffer@[j] == old(self).buffer_spec()[j],
            decreases data_len - i,
        {
            let b = data[i];
            self.buffer[w_idx + i] = b;
            i = i + 1;
        }
        Ok(())
    }

    /// Borrows `len` bytes at `offset` of the written region; fails when
    /// the range reaches past the cursor.
    pub fn borrow_excerpt(&self, offset: usize, len: usize) -> (r: Result<&[u8], ()>)
        requires
            self.wf(),
        ensures
            match r {
                Ok(s) => offset + len <= self.w_idx_spec()
                    && s@ == self.buffer_spec().subrange(
                    offset as int,
                    offset + len,
                ),
                Err(()) => offset + len > self.w_idx_spec(),
            },
    {
        if offset > self.w_idx || len > self.w_idx - offset {
            return Err(());
        }
        let s = self.buffer.as_slice();
        Ok(&s[offset..offset + len])
    }
}

/// Where one protocol header sits inside a fragment.
pub struct PacketFragHeader {
    pub hdr_type: ProtocolHeaderType,
    pub hdr_offset: u32,
    pub hdr_len: u32,
}

impl PacketFragHeader {
    pub fn new(hdr_type: ProtocolHeaderType) -> (h: PacketFragHeader)
        ensures
            h.hdr_type == hdr_type,
            h.hdr_offset == 0,
            h.hdr_len == 0,
    {
        PacketFragHeader { hdr_type, hdr_offset: 0, hdr_len: 0 }
    }
}

/// One wire-sized fragment of a packet.
pub struct PacketFrag {
    hdrs: Vec<PacketFragHeader>,
    buffer: FixedPacketBuffer,
}

impl PacketFrag {
    pub closed spec fn buffer_view(&self) -> FixedPacketBuffer {
        self.buffer
    }

    pub open spec fn wf(&self) -> bool {
        self.buffer_view().wf()
    }

    pub open spec fn data_len_spec(&self) -> usize {
        self.buffer_view().w_idx_spec()
    }

    pub fn new(sz: usize) -> (f: PacketFrag)
        ensures
            f.wf(),
            f.data_len_spec() == 0,
            f.buffer_view().buffer_spec().len() == sz,
    {
        PacketFrag { hdrs: Vec::new(), buffer: FixedPacketBuffer::new(sz) }
    }

    pub fn push_data(&mut self, data: &[u8]) -> (r: Result<(), ()>)
        ensures
            final(self).data_len_spec() == old(self).data_len_spec(),
            final(self).buffer_view().buffer_spec().len()
                == old(self).buffer_view().buffer_spec().len(),
            r is Ok <==> (old(self).data_len_spec()
                < old(self).buffer_view().buffer_spec().len()
                && old(self).data_len_spec() + data@.len()
                    <= old(self).buffer_view().buffer_spec().len()),
            r is Err ==> *final(self) == *old(self),
    {
        let r = self.buffer.push_data(data);
        r
    }

    pub fn data_len(&self) -> (r: usize)
        ensures
            r == self.data_len_spec(),
    {
        self.buffer.data_len()
    }
}

/// A packet: a list of fragments with the owning application and socket.
pub struct NetworkPacket {
    app_id: usize,
    sock_id: usize,
    frags: Vec<PacketFrag>,
}

/// The sum of the fragments' data lengths, as a mathematical integer.
pub open spec fn frags_total_len(frags: Seq<PacketFrag>) -> int
    decreases frags.len(),
{
    if frags.len() == 0 {
        0
    } else {
        frags_total_len(frags.drop_last()) + frags.last().data_len_spec()
    }
}

impl NetworkPacket {
    pub closed spec fn app_id_spec(&self) -> usize {
        self.app_id
    }

    pub closed spec fn sock_id_spec(&self) -> usize {
        self.sock_id
    }

    pub closed spec fn frags_spec(&self) -> Seq<PacketFrag> {
        self.frags@
    }

    pub open spec fn wf(&self) -> bool {
        forall|i: int| 0 <= i < self.frags_spec().len()
            ==> (#[trigger] self.frags_spec()[i]).wf()
                && self.frags_spec()[i].buffer_view().buffer_spec().len()
                    == FRAG_CAPACITY
    }

    pub fn new() -> (p: NetworkPacket)
        ensures
            p.wf(),
            p.frags_spec().len() == 0,
            p.app_id_spec() == 0,
            p.sock_id_spec() == 0,
    {
        NetworkPacket { app_id: 0, sock_id: 0, frags: Vec::new() }
    }

    /// Starts a fresh wire-sized fragment and writes `data` into it.
    fn push_data_to_new_frag(&mut self, data: &[u8]) -> (r: Result<(), ()>)
        requires
            old(self).wf(),
        ensures
            final(self).wf(),
            match r {
                Ok(()) => data@.len() <= FRAG_CAPACITY
                    && final(self).frags_spec().len()
                        == old(self).frags_spec().len() + 1,
                Err(()) => data@.len() > FRAG_CAPACITY
                    && final(self).frags_spec() == old(self).frags_spec(),
            },
    {
        let mut frag = PacketFrag::new(FRAG_CAPACITY);
        let res = frag.push_data(data);
        match res {
            Ok(()) => {
                let ghost pre = *self;
                self.frags.push(frag);
                proof {
                    assert forall|i: int| 0 <= i < self.frags_spec().len()
                        implies (#[trigger] self.frags_spec()[i]).wf()
                            && self.frags_spec()[i].buffer_view().buffer_spec().len()
                                == FRAG_CAPACITY by {
                        if i < self.frags_spec().len() - 1 {
                            assert(self.frags_spec()[i] == pre.frags_spec()[i]);
                        } else {
                            assert(self.frags_spec()[i] == frag);
                        }
                    }
                }
                Ok(())
            }
            Err(()) => Err(()),
        }
    }

    /// Appends data to the last fragment, or to a fresh one when there is
    /// none or it has no room. Fails exactly when the data cannot fit a
    /// fragment at all.
    pub fn push_data(&mut self, data: &[u8]) -> (r: Result<(), ()>)
        requires
            old(self).wf(),
        ensures
            final(self).wf(),
            r is Ok <==> data@.len() <= FRAG_CAPACITY,
            r is Err ==> final(self).frags_spec() == old(self).frags_spec(),
    {
        let nfrags = self.frags.len();
        if nfrags > 0 {
            let ghost pre = *self;
            let last = &mut self.frags[nfrags - 1];
            let res = last.push_data(data);
            proof {
                assert(self.frags_spec() == pre.frags_spec().update(
                    nfrags - 1,
                    self.frags_spec()[nfrags - 1],
                ));
                assert forall|i: int| 0 <= i < self.frags_spec().len()
                    implies (#[trigger] self.frags_spec()[i]).wf()
                        && self.frags_spec()[i].buffer_view().buffer_spec().len()
                            == FRAG_CAPACITY by {
                    if i < self.frags_spec().len() - 1 {
                        assert(self.frags_spec()[i] == pre.frags_spec()[i]);
                    } else {
                        assert(pre.frags_spec()[i].wf());
                        assert(self.frags_spec()[i].data_len_spec()
                            == pre.frags_spec()[i].data_len_spec());
                        assert(self.frags_spec()[i].buffer_view().buffer_spec().len()
                            == pre.frags_spec()[i].buffer_view().buffer_spec().len());
                    }
                }
            }
            match res {
                Ok(()) => {
                    return Ok(());
                }
                Err(()) => {
                    proof {
                        assert(self.frags_spec() =~= pre.frags_spec());
                    }
                    return self.push_data_to_new_frag(data);
                }
            }
        }
        self.push_data_to_new_frag(data)
    }

    /// The packet's total data length: the fragments' lengths summed,
    /// saturating at the largest representable value.
    pub fn data_len(&self) -> (r: usize)
        ensures
            r == if frags_total_len(self.frags_spec()) <= usize::MAX {
                frags_total_len(self.frags_spec())
            } else {
                usize::MAX as int
            },
    {
        let n = self.frags.len();
        let mut sz: usize = 0;
        let mut i: usize = 0;
        while i < n
            invariant
                0 <= i <= n,
                n == self.frags_spec().len(),
                sz == if frags_total_len(self.frags_spec().take(i as int))
                    <= usize::MAX {
                    frags_total_len(self.frags_spec().take(i as int))
                } else {
                    usize::MAX as int
                },
            decreases n - i,
        {
            let l = self.frags[i].data_len();
            sz = sz.saturating_add(l);
            i = i + 1;
            proof {
                assert(self.frags_spec().take(i as int).drop_last()
                    =~= self.frags_spec().take(i - 1 as int));
                assert(self.frags_spec().take(i as int).last()
                    == self.frags_spec()[i - 1]);
            }
        }
        proof {
            assert(self.frags_spec().take(n as int) =~= self.frags_spec());
        }
        sz
    }
}

} // verus!
