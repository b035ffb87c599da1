//! A model of the process-wide runtime bridge that the emitted bindings
//! target: a single linear address space, a minimal manual allocator, the
//! two string-transfer helpers, and the host callback that writes the
//! current UTC calendar fields in a fixed binary layout.
//!
//! Address 0 is the null sentinel and is never handed out. The string
//! convention on the wire is a zero-terminated UTF-8 byte sequence at a
//! given address.

use vstd::prelude::*;
use vstd::utf8::{
    decode_utf8, encode_scalar, encode_utf8, encode_utf8_decode_utf8, encode_utf8_valid_utf8,
    has_width_1_encoding, has_width_2_encoding, has_width_3_encoding, valid_utf8,
};

verus! {

/// The bridge over one native module instance's linear memory, with a
/// bump allocator that never reuses released space.
pub struct Bridge {
    mem: Vec<u8>,
    next: usize,
}

/// No byte of the UTF-8 encoding of a scalar is zero, unless the scalar
/// itself is zero.
proof fn lemma_encode_scalar_no_zero(v: u32)
    requires
        v != 0,
    ensures
        forall|j: int| 0 <= j < encode_scalar(v).len() ==> encode_scalar(v)[j] != 0,
{
    if has_width_1_encoding(v) {
        assert((v & 0x7F) as u8 != 0) by (bit_vector)
            requires
                v != 0 && v <= 0x7F,
        ;
    } else if has_width_2_encoding(v) {
        assert(0xC0 | ((v >> 6) & 0x1F) as u8 != 0) by (bit_vector);
        assert(0x80 | (v & 0x3F) as u8 != 0) by (bit_vector);
    } else if has_width_3_encoding(v) {
        assert(0xE0 | ((v >> 12) & 0x0F) as u8 != 0) by (bit_vector);
        assert(0x80 | ((v >> 6) & 0x3F) as u8 != 0) by (bit_vector);
        assert(0x80 | (v & 0x3F) as u8 != 0) by (bit_vector);
    } else {
        assert(0xF0 | ((v >> 18) & 0x7) as u8 != 0) by (bit_vector);
        assert(0x80 | ((v >> 12) & 0x3F) as u8 != 0) by (bit_vector);
        assert(0x80 | ((v >> 6) & 0x3F) as u8 != 0) by (bit_vector);
        assert(0x80 | (v & 0x3F) as u8 != 0) by (bit_vector);
    }
}

/// The UTF-8 encoding of a text free of the NUL character contains no
/// zero byte.
pub proof fn lemma_encode_utf8_no_zero(chars: Seq<char>)
    requires
        forall|i: int| 0 <= i < chars.len() ==> chars[i] != '\0',
    ensures
        forall|j: int| 0 <= j < encode_utf8(chars).len() ==> encode_utf8(chars)[j] != 0,
    decreases chars.len(),
{
    if chars.len() > 0 {
        let c = chars[0];
        let v = c as u32;
        if v == 0 {
            vstd::utf8::char_u32_cast(c, v);
            assert(c == '\0');
        }
        lemma_encode_scalar_no_zero(v);
        assert(forall|i: int| 0 <= i < chars.drop_first().len() ==> chars.drop_first()[i] != '\0');
        lemma_encode_utf8_no_zero(chars.drop_first());
        assert forall|j: int| 0 <= j < encode_utf8(chars).len() implies encode_utf8(chars)[j]
            != 0 by {
            let head = encode_scalar(v);
            let tail = encode_utf8(chars.drop_first());
            assert(encode_utf8(chars) == head + tail);
            if j < head.len() {
                assert(encode_utf8(chars)[j] == head[j]);
            } else {
                assert(encode_utf8(chars)[j] == tail[j - head.len()]);
            }
        }
    }
}

/// The position of the first zero byte at or after `addr`, or the length
/// of the memory when there is none.
pub open spec fn zero_pos(mem: Seq<u8>, addr: int) -> int
    decreases mem.len() - addr,
{
    if !(0 <= addr < mem.len()) {
        mem.len() as int
    } else if mem[addr] == 0 {
        addr
    } else {
        zero_pos(mem, addr + 1)
    }
}

proof fn lemma_zero_pos_at(mem: Seq<u8>, addr: int, z: int)
    requires
        0 <= addr <= z < mem.len(),
        mem[z] == 0,
        forall|j: int| addr <= j < z ==> mem[j] != 0,
    ensures
        zero_pos(mem, addr) == z,
    decreases z - addr,
{
    if addr < z {
        lemma_zero_pos_at(mem, addr + 1, z);
    }
}

/// What reading a zero-terminated UTF-8 text at `addr` yields: the bytes
/// up to (not including) the first zero byte, decoded; absent when no
/// zero byte follows `addr` or the bytes are not valid UTF-8.
pub open spec fn read_str_at(mem: Seq<u8>, addr: int) -> Option<Seq<char>> {
    let z = zero_pos(mem, addr);
    if 0 <= addr && z < mem.len() && valid_utf8(mem.subrange(addr, z)) {
        Some(decode_utf8(mem.subrange(addr, z)))
    } else {
        None
    }
}

/// Relies on String::from_utf8: it accepts exactly the valid UTF-8 byte
/// sequences and decodes them to the characters they encode.
#[verifier::external_body]
fn string_from_utf8(bytes: Vec<u8>) -> (r: Option<String>)
    ensures
        r is Some <==> valid_utf8(bytes@),
        r matches Some(s) ==> s@ == decode_utf8(bytes@),
{
    String::from_utf8(bytes).ok()
}

/// The effect of a successful string transfer into the bridge: the text's
/// UTF-8 bytes stand at `a`, followed by one zero byte, the rest of the
/// memory is unchanged, and the allocation mark moved past the buffer.
pub open spec fn alloc_string_post(
    pre: Bridge,
    post: Bridge,
    s: Seq<char>,
    a: usize,
    sz: usize,
) -> bool {
    let bytes = encode_utf8(s);
    &&& sz == bytes.len() + 1
    &&& 1 <= a
    &&& a + sz <= post.mem_view().len()
    &&& post.mem_view().len() == pre.mem_view().len()
    &&& forall|i: int| a <= i < a + bytes.len() ==> post.mem_view()[i] == bytes[i - a]
    &&& post.mem_view()[a + bytes.len()] == 0
    &&& forall|i: int|
        (0 <= i < a || a + sz <= i < post.mem_view().len()) ==> post.mem_view()[i]
            == pre.mem_view()[i]
    &&& a as int == pre.heap_next()
    &&& post.heap_next() == a + sz
}

impl Bridge {
    /// The bytes of the linear memory.
    pub closed spec fn mem_view(self) -> Seq<u8> {
        self.mem@
    }

    /// The next address the allocator will hand out.
    pub closed spec fn heap_next(self) -> int {
        self.next as int
    }

    /// The bridge's invariant: the allocation mark stays inside the
    /// memory and past the reserved null address.
    pub closed spec fn wf(self) -> bool {
        1 <= self.next <= self.mem@.len()
    }

    /// Creates a bridge over a fresh zeroed linear memory of `size`
    /// bytes. Address 0 is reserved for the null sentinel.
    pub fn new(size: usize) -> (r: Bridge)
        requires
            size >= 1,
        ensures
            r.wf(),
            r.mem_view().len() == size,
            r.heap_next() == 1,
            forall|i: int| 0 <= i < size ==> r.mem_view()[i] == 0,
    {
        let mut mem: Vec<u8> = Vec::new();
        while mem.len() < size
            invariant
                mem@.len() <= size,
                forall|i: int| 0 <= i < mem@.len() ==> mem@[i] == 0,
            decreases size - mem@.len(),
        {
            mem.push(0);
        }
        Bridge { mem, next: 1 }
    }

    /// Hands out `size` fresh bytes, or nothing when the memory is
    /// exhausted. The returned address is never the null sentinel.
    pub fn allocate(&mut self, size: usize) -> (r: Option<usize>)
        requires
            old(self).wf(),
        ensures
            final(self).wf(),
            final(self).mem_view() == old(self).mem_view(),
            r is Some <==> size + old(self).heap_next() <= old(self).mem_view().len(),
            match r {
                Some(a) => {
                    &&& a as int == old(self).heap_next()
                    &&& 1 <= a
                    &&& a + size <= final(self).mem_view().len()
                    &&& final(self).heap_next() == a + size
                },
                None => *final(self) == *old(self),
            },
    {
        if size <= self.mem.len() - self.next {
            let a = self.next;
            self.next = self.next + size;
            Some(a)
        } else {
            None
        }
    }

    /// Releases a buffer. The module's own allocator reclaims the space;
    /// this bump model merely keeps the bridge state unchanged.
    pub fn dealloc(&mut self, addr: usize, size: usize)
        ensures
            *final(self) == *old(self),
    {
    }

    /// Copies `s` into a freshly allocated buffer as UTF-8 bytes followed
    /// by a single terminating zero byte, and reports the buffer's
    /// address and size for its later release; nothing happens when the
    /// memory is exhausted.
    pub fn alloc_string(&mut self, s: &str) -> (r: Option<(usize, usize)>)
        requires
            old(self).wf(),
        ensures
            final(self).wf(),
            r is Some <==> encode_utf8(s@).len() + old(self).heap_next() < old(
                self,
            ).mem_view().len(),
            match r {
                Some(p) => alloc_string_post(*old(self), *final(self), s@, p.0, p.1),
                None => *final(self) == *old(self),
            },
    {
        let bytes = s.as_bytes_vec();
        let n = bytes.len();
        if n < self.mem.len() - self.next {
            let a = self.next;
            self.next = self.next + n + 1;
            let mut i: usize = 0;
            while i < n
                invariant
                    0 <= i <= n,
                    n == bytes@.len(),
                    a + n < self.mem@.len(),
                    self.mem@.len() == old(self).mem@.len(),
                    self.next == a + n + 1,
                    forall|j: int| a <= j < a + i ==> self.mem@[j] == bytes@[j - a],
                    forall|j: int|
                        (0 <= j < a || a + i <= j < self.mem@.len()) ==> self.mem@[j] == old(
                            self,
                        ).mem@[j],
                decreases n - i,
            {
                self.mem[a + i] = bytes[i];
                i += 1;
            }
            self.mem[a + n] = 0;
            Some((a, n + 1))
        } else {
            None
        }
    }

    /// Reads the zero-terminated UTF-8 text at `addr` back into an owned
    /// string, as [`read_str_at`] describes.
    pub fn read_string(&self, addr: usize) -> (r: Option<String>)
        ensures
            match r {
                Some(s) => read_str_at(self.mem_view(), addr as int) == Some(s@),
                None => read_str_at(self.mem_view(), addr as int) is None,
            },
    {
        let mut collected: Vec<u8> = Vec::new();
        let n = self.mem.len();
        if addr >= n {
            return None;
        }
        let mut i: usize = addr;
        proof {
            assert(collected@ =~= self.mem@.subrange(addr as int, addr as int));
        }
        while i < n && *vstd::slice::slice_index_get(self.mem.as_slice(), i) != 0
            invariant
                addr <= i <= n,
                n == self.mem@.len(),
                collected@ == self.mem@.subrange(addr as int, i as int),
                forall|j: int| addr <= j < i ==> self.mem@[j] != 0,
        decreases n - i,
    {
            let b = self.mem[i];
            collected.push(b);
            proof {
                assert(collected@ =~= self.mem@.subrange(addr as int, i + 1));
            }
            i += 1;
        }
        if i == n {
            proof {
                lemma_zero_pos_none(self.mem@, addr as int);
            }
            return None;
        }
        proof {
            lemma_zero_pos_at(self.mem@, addr as int, i as int);
        }
        string_from_utf8(collected)
    }

    /// The raw memory view: the byte at `addr`, or nothing outside the
    /// linear memory.
    pub fn read_byte(&self, addr: usize) -> (r: Option<u8>)
        ensures
            addr < self.mem_view().len() ==> r == Some(self.mem_view()[addr as int]),
            addr >= self.mem_view().len() ==> r is None,
    {
        if addr < self.mem.len() {
            Some(self.mem[addr])
        } else {
            None
        }
    }

    /// Writes the UTC calendar fields at `addr` in the fixed
    /// cross-boundary layout: a 2-byte little-endian year, single bytes
    /// for month, day, hour, minute and second, then a 2-byte
    /// little-endian millisecond field, in that exact order.
    pub fn write_date(
        &mut self,
        addr: usize,
        year: u16,
        month: u8,
        day: u8,
        hour: u8,
        minute: u8,
        second: u8,
        millisecond: u16,
    )
        requires
            addr + 9 <= old(self).mem_view().len(),
        ensures
            final(self).mem_view().len() == old(self).mem_view().len(),
            final(self).heap_next() == old(self).heap_next(),
            final(self).wf() == old(self).wf(),
            final(self).mem_view()[addr as int] == (year & 0xff) as u8,
            final(self).mem_view()[addr + 1] == (year >> 8) as u8,
            final(self).mem_view()[addr + 2] == month,
            final(self).mem_view()[addr + 3] == day,
            final(self).mem_view()[addr + 4] == hour,
            final(self).mem_view()[addr + 5] == minute,
            final(self).mem_view()[addr + 6] == second,
            final(self).mem_view()[addr + 7] == (millisecond & 0xff) as u8,
            final(self).mem_view()[addr + 8] == (millisecond >> 8) as u8,
            forall|i: int|
                (0 <= i < addr || addr + 9 <= i < old(self).mem_view().len())
                    ==> final(self).mem_view()[i] == old(self).mem_view()[i],
    {
        let n = self.mem.len();
        assert(addr + 9 <= n);
        self.mem[addr] = (year & 0xff) as u8;
        self.mem[addr + 1] = (year >> 8) as u8;
        self.mem[addr + 2] = month;
        self.mem[addr + 3] = day;
        self.mem[addr + 4] = hour;
        self.mem[addr + 5] = minute;
        self.mem[addr + 6] = second;
        self.mem[addr + 7] = (millisecond & 0xff) as u8;
        self.mem[addr + 8] = (millisecond >> 8) as u8;
    }
}

proof fn lemma_zero_pos_none(mem: Seq<u8>, addr: int)
    requires
        0 <= addr,
        forall|j: int| addr <= j < mem.len() ==> mem[j] != 0,
    ensures
        zero_pos(mem, addr) == mem.len(),
    decreases mem.len() - addr,
{
    if addr < mem.len() {
        lemma_zero_pos_none(mem, addr + 1);
    }
}

/// Law: encoding a text into a native buffer and immediately decoding it
/// back (allocate, write the UTF-8 bytes and a zero terminator, read
/// until the zero terminator, decode) yields exactly the text, for every
/// text free of the NUL character, the empty text included.
pub proof fn lemma_text_round_trip(pre: Bridge, post: Bridge, s: Seq<char>, a: usize, sz: usize)
    requires
        alloc_string_post(pre, post, s, a, sz),
        forall|i: int| 0 <= i < s.len() ==> s[i] != '\0',
    ensures
        read_str_at(post.mem_view(), a as int) == Some(s),
{
    let mem = post.mem_view();
    let bytes = encode_utf8(s);
    let n = bytes.len() as int;
    lemma_encode_utf8_no_zero(s);
    assert(forall|j: int| a <= j < a + n ==> mem[j] != 0);
    lemma_zero_pos_at(mem, a as int, a + n);
    assert(mem.subrange(a as int, a + n) =~= bytes);
    encode_utf8_valid_utf8(s);
    encode_utf8_decode_utf8(s);
}

} // verus!
