//! Little-endian integers over a bounded reader and a bounded writer.

use vstd::prelude::*;

verus! {

/// The two bytes of `v`, least significant first.
pub open spec fn spec_u16_to_le(v: u16) -> Seq<u8> {
    seq![(v % 256) as u8, (v / 256) as u8]
}

/// The value whose little-endian form is the first two bytes of `b`.
pub open spec fn spec_u16_from_le(b: Seq<u8>) -> u16 {
    (b[0] as int + b[1] as int * 256) as u16
}

/// The three low bytes of `v`, least significant first.
pub open spec fn spec_u24_to_le(v: u32) -> Seq<u8> {
    seq![(v % 256) as u8, ((v / 256) % 256) as u8, ((v / 65536) % 256) as u8]
}

/// The value whose little-endian form is the first three bytes of `b`.
pub open spec fn spec_u24_from_le(b: Seq<u8>) -> u32 {
    (b[0] as int + b[1] as int * 256 + b[2] as int * 65536) as u32
}

/// The four bytes of `v`, least significant first.
pub open spec fn spec_u32_to_le(v: u32) -> Seq<u8> {
    seq![
        (v % 256) as u8,
        ((v / 256) % 256) as u8,
        ((v / 65536) % 256) as u8,
        (v / 16777216) as u8,
    ]
}

/// The value whose little-endian form is the first four bytes of `b`.
pub open spec fn spec_u32_from_le(b: Seq<u8>) -> u32 {
    (b[0] as int + b[1] as int * 256 + b[2] as int * 65536 + b[3] as int * 16777216) as u32
}

/// The eight bytes of `v`, least significant first.
pub open spec fn spec_u64_to_le(v: u64) -> Seq<u8> {
    seq![
        (v % 256) as u8,
        ((v / 0x100) % 256) as u8,
        ((v / 0x1_0000) % 256) as u8,
        ((v / 0x100_0000) % 256) as u8,
        ((v / 0x1_0000_0000) % 256) as u8,
        ((v / 0x100_0000_0000) % 256) as u8,
        ((v / 0x1_0000_0000_0000) % 256) as u8,
        (v / 0x100_0000_0000_0000) as u8,
    ]
}

/// The eight bytes of `v`, least significant first.
pub fn u64_to_le(v: u64) -> (r: [u8; 8])
    ensures
        r@ == spec_u64_to_le(v),
{
    let r: [u8; 8] = [
        (v % 256) as u8,
        ((v / 0x100) % 256) as u8,
        ((v / 0x1_0000) % 256) as u8,
        ((v / 0x100_0000) % 256) as u8,
        ((v / 0x1_0000_0000) % 256) as u8,
        ((v / 0x100_0000_0000) % 256) as u8,
        ((v / 0x1_0000_0000_0000) % 256) as u8,
        (v / 0x100_0000_0000_0000) as u8,
    ];
    assert(r@ =~= spec_u64_to_le(v));
    r
}

/// Reading back what was written gives the value, for each width.
pub proof fn lemma_le_value_roundtrip(a: u16, b: u32)
    ensures
        spec_u16_from_le(spec_u16_to_le(a)) == a,
        b < 0x100_0000 ==> spec_u24_from_le(spec_u24_to_le(b)) == b,
        spec_u32_from_le(spec_u32_to_le(b)) == b,
{
}

/// Writing the two-byte value that was read gives the bytes.
pub proof fn lemma_u16_bytes_roundtrip(b: Seq<u8>)
    requires
        b.len() == 2,
    ensures
        spec_u16_to_le(spec_u16_from_le(b)) == b,
{
    let v: int = b[0] as int + b[1] as int * 256;
    assert(v % 256 == b[0] as int && v / 256 == b[1] as int);
    assert(spec_u16_to_le(spec_u16_from_le(b)) =~= b);
}

/// Writing the three-byte value that was read gives the bytes.
pub proof fn lemma_u24_bytes_roundtrip(b: Seq<u8>)
    requires
        b.len() == 3,
    ensures
        spec_u24_from_le(b) < 0x100_0000,
        spec_u24_to_le(spec_u24_from_le(b)) == b,
{
    let v: int = b[0] as int + b[1] as int * 256 + b[2] as int * 65536;
    assert(v % 256 == b[0] as int);
    assert(v / 256 == b[1] as int + b[2] as int * 256);
    assert((v / 256) % 256 == b[1] as int);
    assert(v / 65536 == b[2] as int);
    assert(spec_u24_to_le(spec_u24_from_le(b)) =~= b);
}

/// Writing the four-byte value that was read gives the bytes.
pub proof fn lemma_u32_bytes_roundtrip(b: Seq<u8>)
    requires
        b.len() == 4,
    ensures
        spec_u32_to_le(spec_u32_from_le(b)) == b,
{
    let v: int = b[0] as int + b[1] as int * 256 + b[2] as int * 65536 + b[3] as int * 16777216;
    assert(v % 256 == b[0] as int);
    assert(v / 256 == b[1] as int + b[2] as int * 256 + b[3] as int * 65536);
    assert((v / 256) % 256 == b[1] as int);
    assert(v / 65536 == b[2] as int + b[3] as int * 256);
    assert((v / 65536) % 256 == b[2] as int);
    assert(v / 16777216 == b[3] as int);
    assert(spec_u32_to_le(spec_u32_from_le(b)) =~= b);
}

/// A cursor over received bytes. A read either yields a value and moves the cursor past it,
/// or finds too few bytes left and moves nothing.
pub struct Reader<'a> {
    buffer: &'a [u8],
    offset: usize,
}

impl<'a> Reader<'a> {
    #[verifier::type_invariant]
    spec fn inv(self) -> bool {
        self.offset <= self.buffer@.len()
    }

    /// All the bytes that the reader was made over.
    pub closed spec fn bytes(self) -> Seq<u8> {
        self.buffer@
    }

    /// How many bytes lie before the cursor.
    pub closed spec fn spec_used(self) -> nat {
        self.offset as nat
    }

    /// The bytes from the cursor on.
    pub open spec fn remaining(self) -> Seq<u8> {
        self.bytes().subrange(self.spec_used() as int, self.bytes().len() as int)
    }

    /// The reader has moved `n` bytes on from `before`, over the same bytes.
    pub open spec fn advanced_from(self, before: Self, n: nat) -> bool {
        &&& self.bytes() == before.bytes()
        &&& self.spec_used() == before.spec_used() + n
        &&& self.spec_used() <= self.bytes().len()
    }

    /// What is left after a move of `n` bytes is what was left before, less its first `n`.
    pub proof fn lemma_advanced(self, before: Self, n: nat)
        requires
            self.advanced_from(before, n),
        ensures
            n <= before.remaining().len(),
            self.remaining() == before.remaining().subrange(
                n as int,
                before.remaining().len() as int,
            ),
    {
        assert(self.remaining() =~= before.remaining().subrange(
            n as int,
            before.remaining().len() as int,
        ));
    }

    pub fn init(bytes: &'a [u8]) -> (r: Reader<'a>)
        ensures
            r.bytes() == bytes@,
            r.spec_used() == 0,
    {
        Reader { buffer: bytes, offset: 0 }
    }

    pub fn used(&self) -> (n: usize)
        ensures
            n == self.spec_used(),
            n <= self.bytes().len(),
    {
        proof {
            use_type_invariant(self);
        }
        self.offset
    }

    pub fn left(&self) -> (n: usize)
        ensures
            n == self.remaining().len(),
            n == self.bytes().len() - self.spec_used(),
    {
        proof {
            use_type_invariant(self);
        }
        self.buffer.len() - self.offset
    }

    pub fn any_left(&self) -> (b: bool)
        ensures
            b == (self.remaining().len() > 0),
    {
        self.left() > 0
    }

    /// The next `len` bytes, if there are that many.
    pub fn take(&mut self, len: usize) -> (r: Option<&'a [u8]>)
        ensures
            r is Some <==> len <= old(self).remaining().len(),
            r matches Some(s) ==> s@ == old(self).remaining().subrange(0, len as int)
                && final(self).advanced_from(*old(self), len as nat),
            r is None ==> *final(self) == *old(self),
    {
        proof {
            use_type_invariant(&*self);
        }
        if self.buffer.len() - self.offset < len {
            return None;
        }
        let start: usize = self.offset;
        let s = vstd::slice::slice_subrange(self.buffer, start, start + len);
        self.offset = start + len;
        assert(s@ =~= old(self).remaining().subrange(0, len as int));
        Some(s)
    }

    pub fn read_u8(&mut self) -> (r: Option<u8>)
        ensures
            r is Some <==> 1 <= old(self).remaining().len(),
            r matches Some(v) ==> v == old(self).remaining()[0]
                && final(self).advanced_from(*old(self), 1),
            r is None ==> *final(self) == *old(self),
    {
        match self.take(1) {
            Some(s) => Some(s[0]),
            None => None,
        }
    }

    pub fn read_u16(&mut self) -> (r: Option<u16>)
        ensures
            r is Some <==> 2 <= old(self).remaining().len(),
            r matches Some(v) ==> v == spec_u16_from_le(old(self).remaining())
                && final(self).advanced_from(*old(self), 2),
            r is None ==> *final(self) == *old(self),
    {
        match self.take(2) {
            Some(s) => {
                let lo: u16 = s[0] as u16;
                let hi: u16 = s[1] as u16;
                Some(lo + hi * 256)
            },
            None => None,
        }
    }

    pub fn read_u24(&mut self) -> (r: Option<u32>)
        ensures
            r is Some <==> 3 <= old(self).remaining().len(),
            r matches Some(v) ==> v == spec_u24_from_le(old(self).remaining())
                && v < 0x100_0000 && final(self).advanced_from(*old(self), 3),
            r is None ==> *final(self) == *old(self),
    {
        match self.take(3) {
            Some(s) => {
                let b0: u32 = s[0] as u32;
                let b1: u32 = s[1] as u32;
                let b2: u32 = s[2] as u32;
                Some(b0 + b1 * 256 + b2 * 65536)
            },
            None => None,
        }
    }

    pub fn read_u32(&mut self) -> (r: Option<u32>)
        ensures
            r is Some <==> 4 <= old(self).remaining().len(),
            r matches Some(v) ==> v == spec_u32_from_le(old(self).remaining())
                && final(self).advanced_from(*old(self), 4),
            r is None ==> *final(self) == *old(self),
    {
        match self.take(4) {
            Some(s) => {
                let b0: u32 = s[0] as u32;
                let b1: u32 = s[1] as u32;
                let b2: u32 = s[2] as u32;
                let b3: u32 = s[3] as u32;
                Some(b0 + b1 * 256 + b2 * 65536 + b3 * 16777216)
            },
            None => None,
        }
    }
}

/// A bounded output buffer. A write either appends all of its bytes, or finds too
/// little room and appends none.
pub struct Writer {
    buffer: Vec<u8>,
    capacity: usize,
}

impl View for Writer {
    type V = Seq<u8>;

    /// The bytes written so far.
    closed spec fn view(&self) -> Seq<u8> {
        self.buffer@
    }
}

impl Writer {
    #[verifier::type_invariant]
    spec fn inv(self) -> bool {
        self.buffer@.len() <= self.capacity
    }

    /// The number of bytes that the writer can hold in all.
    pub closed spec fn spec_capacity(self) -> nat {
        self.capacity as nat
    }

    /// The writer holds what `before` held and then `bytes`.
    pub open spec fn appended_to(self, before: Self, bytes: Seq<u8>) -> bool {
        &&& self@ == before@ + bytes
        &&& self.spec_capacity() == before.spec_capacity()
    }

    /// Whether `n` more bytes fit into the writer.
    pub open spec fn has_room(self, n: nat) -> bool {
        self@.len() + n <= self.spec_capacity()
    }

    pub fn init(capacity: usize) -> (w: Writer)
        ensures
            w@ == Seq::<u8>::empty(),
            w.spec_capacity() == capacity,
    {
        Writer { buffer: Vec::new(), capacity }
    }

    pub fn used(&self) -> (n: usize)
        ensures
            n == self@.len(),
            n <= self.spec_capacity(),
    {
        proof {
            use_type_invariant(self);
        }
        self.buffer.len()
    }

    pub fn left(&self) -> (n: usize)
        ensures
            n == self.spec_capacity() - self@.len(),
    {
        proof {
            use_type_invariant(self);
        }
        self.capacity - self.buffer.len()
    }

    pub fn used_slice(&self) -> (s: &[u8])
        ensures
            s@ == self@,
    {
        self.buffer.as_slice()
    }

    pub fn extend_from_slice(&mut self, data: &[u8]) -> (r: Option<usize>)
        ensures
            r is Some <==> old(self).has_room(data@.len()),
            r matches Some(n) ==> n == data@.len() && final(self).appended_to(*old(self), data@),
            r is None ==> *final(self) == *old(self),
    {
        proof {
            use_type_invariant(&*self);
        }
        if self.capacity - self.buffer.len() < data.len() {
            return None;
        }
        let mut bytes: Vec<u8> = Vec::new();
        core::mem::swap(&mut self.buffer, &mut bytes);
        bytes.extend_from_slice(data);
        core::mem::swap(&mut self.buffer, &mut bytes);
        assert(self.buffer@ =~= old(self).buffer@ + data@);
        Some(data.len())
    }

    pub fn push_u8(&mut self, v: u8) -> (r: Option<usize>)
        ensures
            r is Some <==> old(self).has_room(1),
            r matches Some(n) ==> n == 1 && final(self).appended_to(*old(self), seq![v]),
            r is None ==> *final(self) == *old(self),
    {
        proof {
            use_type_invariant(&*self);
        }
        if self.capacity - self.buffer.len() < 1 {
            return None;
        }
        let mut bytes: Vec<u8> = Vec::new();
        core::mem::swap(&mut self.buffer, &mut bytes);
        bytes.push(v);
        core::mem::swap(&mut self.buffer, &mut bytes);
        assert(self.buffer@ =~= old(self).buffer@ + seq![v]);
        Some(1)
    }

    pub fn push_u16(&mut self, v: u16) -> (r: Option<usize>)
        ensures
            r is Some <==> old(self).has_room(2),
            r matches Some(n) ==> n == 2 && final(self).appended_to(*old(self), spec_u16_to_le(v)),
            r is None ==> *final(self) == *old(self),
    {
        proof {
            use_type_invariant(&*self);
        }
        if self.capacity - self.buffer.len() < 2 {
            return None;
        }
        let mut bytes: Vec<u8> = Vec::new();
        core::mem::swap(&mut self.buffer, &mut bytes);
        bytes.push((v % 256) as u8);
        bytes.push((v / 256) as u8);
        core::mem::swap(&mut self.buffer, &mut bytes);
        assert(self.buffer@ =~= old(self).buffer@ + spec_u16_to_le(v));
        Some(2)
    }

    pub fn push_u24(&mut self, v: u32) -> (r: Option<usize>)
        ensures
            r is Some <==> old(self).has_room(3),
            r matches Some(n) ==> n == 3 && final(self).appended_to(*old(self), spec_u24_to_le(v)),
            r is None ==> *final(self) == *old(self),
    {
        proof {
            use_type_invariant(&*self);
        }
        if self.capacity - self.buffer.len() < 3 {
            return None;
        }
        let mut bytes: Vec<u8> = Vec::new();
        core::mem::swap(&mut self.buffer, &mut bytes);
        bytes.push((v % 256) as u8);
        bytes.push(((v / 256) % 256) as u8);
        bytes.push(((v / 65536) % 256) as u8);
        core::mem::swap(&mut self.buffer, &mut bytes);
        assert(self.buffer@ =~= old(self).buffer@ + spec_u24_to_le(v));
        Some(3)
    }

    pub fn push_u32(&mut self, v: u32) -> (r: Option<usize>)
        ensures
            r is Some <==> old(self).has_room(4),
            r matches Some(n) ==> n == 4 && final(self).appended_to(*old(self), spec_u32_to_le(v)),
            r is None ==> *final(self) == *old(self),
    {
        proof {
            use_type_invariant(&*self);
        }
        if self.capacity - self.buffer.len() < 4 {
            return None;
        }
        let mut bytes: Vec<u8> = Vec::new();
        core::mem::swap(&mut self.buffer, &mut bytes);
        bytes.push((v % 256) as u8);
        bytes.push(((v / 256) % 256) as u8);
        bytes.push(((v / 65536) % 256) as u8);
        bytes.push((v / 16777216) as u8);
        core::mem::swap(&mut self.buffer, &mut bytes);
        assert(self.buffer@ =~= old(self).buffer@ + spec_u32_to_le(v));
        Some(4)
    }
}

/// Whether every byte of `bytes` is zero.
pub open spec fn spec_all_zero(bytes: Seq<u8>) -> bool {
    forall|i: int| 0 <= i < bytes.len() ==> bytes[i] == 0
}

/// Whether two byte strings hold the same bytes.
pub fn bytes_equal(a: &[u8], b: &[u8]) -> (r: bool)
    ensures
        r == (a@ == b@),
{
    if a.len() != b.len() {
        return false;
    }
    let mut i: usize = 0;
    while i < a.len()
        invariant
            i <= a@.len(),
            a@.len() == b@.len(),
            forall|j: int| 0 <= j < i ==> a@[j] == b@[j],
        decreases a@.len() - i,
    {
        if a[i] != b[i] {
            return false;
        }
        i = i + 1;
    }
    assert(a@ =~= b@);
    true
}

/// The bytes of `b` from `from` up to `to`.
pub fn slice_range(b: &[u8], from: usize, to: usize) -> (r: &[u8])
    requires
        from <= to <= b@.len(),
    ensures
        r@ == b@.subrange(from as int, to as int),
{
    vstd::slice::slice_subrange(b, from, to)
}

/// Put `src` at the start of `dst` and leave the rest of `dst` as it is.
pub fn copy_to_front(dst: &mut [u8], src: &[u8])
    requires
        src@.len() <= old(dst)@.len(),
    ensures
        final(dst)@ == src@ + old(dst)@.subrange(src@.len() as int, old(dst)@.len() as int),
{
    let mut i: usize = 0;
    while i < src.len()
        invariant
            i <= src@.len(),
            src@.len() <= dst@.len(),
            dst@.len() == old(dst)@.len(),
            forall|j: int| 0 <= j < i ==> dst@[j] == src@[j],
            forall|j: int| i <= j < dst@.len() ==> dst@[j] == old(dst)@[j],
        decreases src@.len() - i,
    {
        dst[i] = src[i];
        i = i + 1;
    }
    assert(dst@ =~= src@ + old(dst)@.subrange(src@.len() as int, old(dst)@.len() as int));
}

/// Put `src` at the start of the array `dst` and leave the rest of `dst` as it is.
pub fn fill_array_front<const N: usize>(dst: &mut [u8; N], src: &[u8])
    requires
        src@.len() <= N,
    ensures
        final(dst)@.subrange(0, src@.len() as int) == src@,
        final(dst)@.subrange(src@.len() as int, N as int) == old(dst)@.subrange(
            src@.len() as int,
            N as int,
        ),
{
    let mut i: usize = 0;
    while i < src.len()
        invariant
            i <= src@.len() <= N,
            forall|j: int| 0 <= j < i ==> dst@[j] == src@[j],
            forall|j: int| i <= j < N ==> dst@[j] == old(dst)@[j],
        decreases src@.len() - i,
    {
        dst[i] = src[i];
        i = i + 1;
    }
    assert(dst@.subrange(0, src@.len() as int) =~= src@);
    assert(dst@.subrange(src@.len() as int, N as int) =~= old(dst)@.subrange(
        src@.len() as int,
        N as int,
    ));
}

} // verus!
