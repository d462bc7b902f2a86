//! Exponential-Golomb bit reader over an RBSP buffer.
use vstd::prelude::*;

verus! {

/// Errors of the bit reader.
#[derive(Clone, Copy, PartialEq, Eq, Structural, Debug)]
pub enum ExpGolombError {
    /// A word had to be loaded but no bytes were left.
    IllegalState,
    /// More than 32 bits were asked for at once.
    InvalidArgument,
}

/// Abstract state of the reader: the buffer, how many bytes have been loaded
/// into the current word, and how many bits of that word are still unread.
pub struct GolombState {
    pub buf: Seq<u8>,
    pub idx: nat,
    pub left: nat,
}

/// Bit offset of the next unread bit.
pub open spec fn pos(s: GolombState) -> int {
    8 * s.idx - s.left
}

pub open spec fn golomb_wf(s: GolombState) -> bool {
    &&& s.idx <= s.buf.len()
    &&& s.left <= 8 * s.idx
    &&& s.left <= 32
    &&& 8 * s.buf.len() <= usize::MAX
}

/// Bit `p` of `buf`, most significant bit of each byte first.
pub open spec fn bit_at(buf: Seq<u8>, p: int) -> u8 {
    (buf[p / 8] >> ((7 - p % 8) as u8)) & 1u8
}

/// The `k` bits from `p`, read as an unsigned big-endian number.
pub open spec fn bits_value(buf: Seq<u8>, p: int, k: nat) -> nat
    decreases k,
{
    if k == 0 {
        0
    } else {
        2 * bits_value(buf, p, (k - 1) as nat) + bit_at(buf, p + k - 1) as nat
    }
}

pub open spec fn two_pow(k: nat) -> nat
    decreases k,
{
    if k == 0 {
        1
    } else {
        2 * two_pow((k - 1) as nat)
    }
}

/// Number of 0 bits from `p` up to the next 1 bit; `None` when none is left.
pub open spec fn leading_zeros(buf: Seq<u8>, p: int) -> Option<nat>
    decreases 8 * buf.len() - p,
{
    if p < 0 || p >= 8 * buf.len() {
        None
    } else if bit_at(buf, p) == 1 {
        Some(0)
    } else {
        match leading_zeros(buf, p + 1) {
            Some(z) => Some(z + 1),
            None => None,
        }
    }
}

pub open spec fn min_nat(a: nat, b: nat) -> nat {
    if a <= b { a } else { b }
}

/// Bytes loaded after loading words of up to four bytes until bit `p` is loaded.
pub open spec fn loaded_until(len: nat, idx: nat, p: int) -> nat
    decreases len - idx,
{
    if p < 8 * idx || idx >= len {
        idx
    } else {
        loaded_until(len, idx + min_nat(4, (len - idx) as nat), p)
    }
}

/// `readBits(n)`: the next `n` bits; a read that needs a new word loads up to
/// four bytes, and near the end of the buffer yields only the bits that are left.
#[verifier::opaque]
pub open spec fn spec_read_bits(s: GolombState, n: nat) -> Result<(nat, GolombState), ExpGolombError> {
    if n > 32 {
        Err(ExpGolombError::InvalidArgument)
    } else if n <= s.left {
        Ok((bits_value(s.buf, pos(s), n), GolombState { left: (s.left - n) as nat, ..s }))
    } else if s.idx >= s.buf.len() {
        Err(ExpGolombError::IllegalState)
    } else {
        let k = min_nat(n, (8 * s.buf.len() - pos(s)) as nat);
        let idx2 = s.idx + min_nat(4, (s.buf.len() - s.idx) as nat);
        Ok((bits_value(s.buf, pos(s), k), GolombState {
            buf: s.buf,
            idx: idx2,
            left: (8 * idx2 - (pos(s) + k)) as nat,
        }))
    }
}

/// `_skipLeadingZero()`: consumes the 0 bits before the next 1 bit and counts them.
#[verifier::opaque]
pub open spec fn spec_skip_leading_zero(s: GolombState) -> Result<(nat, GolombState), ExpGolombError> {
    match leading_zeros(s.buf, pos(s)) {
        None => Err(ExpGolombError::IllegalState),
        Some(z) => {
            let p2 = pos(s) + z;
            let idx2 = loaded_until(s.buf.len(), s.idx, p2);
            Ok((z, GolombState { buf: s.buf, idx: idx2, left: (8 * idx2 - p2) as nat }))
        },
    }
}

/// `readUEG()`: unsigned Exp-Golomb code.
#[verifier::opaque]
pub open spec fn spec_read_ueg(s: GolombState) -> Result<(nat, GolombState), ExpGolombError> {
    match spec_skip_leading_zero(s) {
        Err(e) => Err(e),
        Ok((z, s1)) => match spec_read_bits(s1, z + 1) {
            Err(e) => Err(e),
            Ok((v, s2)) => Ok(((v - 1) as nat, s2)),
        },
    }
}

/// Signed value of an unsigned Exp-Golomb code number.
pub open spec fn seg_of(v: nat) -> int {
    if v % 2 == 1 {
        ((v + 1) / 2) as int
    } else {
        -((v / 2) as int)
    }
}

/// Signed Exp-Golomb values (H.264 9.1.1, Table 9-3): code numbers 1, 2, 3, 4, 5 ... map
/// to 1, -1, 2, -2, 3 ..., 0 to 0; each value comes from exactly one code number.
pub proof fn lemma_seg_of(v: nat)
    ensures
        seg_of(v) > 0 ==> v == 2 * seg_of(v) - 1,
        seg_of(v) <= 0 ==> v == -2 * seg_of(v),
{
}

/// `readSEG()`: signed Exp-Golomb code.
#[verifier::opaque]
pub open spec fn spec_read_seg(s: GolombState) -> Result<(int, GolombState), ExpGolombError> {
    match spec_read_ueg(s) {
        Err(e) => Err(e),
        Ok((v, s1)) => Ok((seg_of(v), s1)),
    }
}

proof fn lemma_bits_value_bound(buf: Seq<u8>, p: int, k: nat)
    ensures
        bits_value(buf, p, k) < two_pow(k),
    decreases k,
{
    if k > 0 {
        lemma_bits_value_bound(buf, p, (k - 1) as nat);
        let b = buf[(p + k - 1) / 8];
        let sh = (7 - (p + k - 1) % 8) as u8;
        assert((b >> sh) & 1u8 <= 1u8) by (bit_vector);
    }
}

proof fn lemma_two_pow_mono(a: nat, b: nat)
    requires
        a <= b,
    ensures
        two_pow(a) <= two_pow(b),
    decreases b,
{
    if a < b {
        lemma_two_pow_mono(a, (b - 1) as nat);
    }
}

proof fn lemma_two_pow_32()
    ensures
        two_pow(32) == 0x1_0000_0000,
{
    reveal_with_fuel(two_pow, 33);
}

proof fn lemma_bits_value_u32(buf: Seq<u8>, p: int, k: nat)
    requires
        k <= 32,
    ensures
        bits_value(buf, p, k) <= 0xFFFF_FFFF,
{
    lemma_bits_value_bound(buf, p, k);
    lemma_two_pow_mono(k, 32);
    lemma_two_pow_32();
}

proof fn lemma_bits_value_pos(buf: Seq<u8>, p: int, k: nat)
    requires
        k >= 1,
        bit_at(buf, p) == 1,
    ensures
        bits_value(buf, p, k) >= 1,
    decreases k,
{
    if k > 1 {
        lemma_bits_value_pos(buf, p, (k - 1) as nat);
    }
}

/// A one-bit read yields 0 or 1.
/// The eight bits of byte `j` read as a number are that byte.
pub proof fn lemma_aligned_byte(buf: Seq<u8>, j: int)
    requires
        0 <= j < buf.len(),
    ensures
        bits_value(buf, 8 * j, 8) == buf[j] as nat,
{
    reveal_with_fuel(bits_value, 9);
    let b = buf[j];
    assert forall|i: int| 0 <= i < 8 implies #[trigger] bit_at(buf, 8 * j + i) == (b >> ((7 - i) as u8)) & 1u8 by {
        assert((8 * j + i) / 8 == j);
        assert((8 * j + i) % 8 == i);
    }
    assert(bit_at(buf, 8 * j + 0) == (b >> 7u8) & 1u8);
    assert(bit_at(buf, 8 * j + 1) == (b >> 6u8) & 1u8);
    assert(bit_at(buf, 8 * j + 2) == (b >> 5u8) & 1u8);
    assert(bit_at(buf, 8 * j + 3) == (b >> 4u8) & 1u8);
    assert(bit_at(buf, 8 * j + 4) == (b >> 3u8) & 1u8);
    assert(bit_at(buf, 8 * j + 5) == (b >> 2u8) & 1u8);
    assert(bit_at(buf, 8 * j + 6) == (b >> 1u8) & 1u8);
    assert(bit_at(buf, 8 * j + 7) == (b >> 0u8) & 1u8);
    assert(((b >> 7u8) & 1u8) as int * 128 + ((b >> 6u8) & 1u8) as int * 64 + ((b >> 5u8) & 1u8) as int * 32
        + ((b >> 4u8) & 1u8) as int * 16 + ((b >> 3u8) & 1u8) as int * 8 + ((b >> 2u8) & 1u8) as int * 4
        + ((b >> 1u8) & 1u8) as int * 2 + ((b >> 0u8) & 1u8) as int == b as int) by (bit_vector);
}

pub proof fn lemma_one_bit(s: GolombState)
    ensures
        spec_read_bits(s, 1) matches Ok((v, _s1)) ==> v <= 1,
{
    reveal(spec_read_bits);
    reveal_with_fuel(bits_value, 2);
    let p = pos(s);
    if 8 * s.buf.len() - p >= 1 || 1 <= s.left {
        let b = s.buf[p / 8];
        let sh = (7 - p % 8) as u8;
        assert((b >> sh) & 1u8 <= 1u8) by (bit_vector);
    }
}

/// An eight-bit read yields at most 255.
pub proof fn lemma_byte_bound(s: GolombState)
    ensures
        spec_read_bits(s, 8) matches Ok((v, _s1)) ==> v <= 255,
{
    reveal(spec_read_bits);
    let p = pos(s);
    let k = if 8 <= s.left { 8 } else { min_nat(8, (8 * s.buf.len() - p) as nat) };
    lemma_bits_value_bound(s.buf, p, k);
    lemma_two_pow_mono(k, 8);
    reveal_with_fuel(two_pow, 9);
}

/// Exponential-Golomb buffer decoder.
pub struct ExpGolomb {
    _buffer: Vec<u8>,
    _buffer_index: usize,
    _current_word_bits_left: usize,
}

impl View for ExpGolomb {
    type V = GolombState;

    closed spec fn view(&self) -> GolombState {
        GolombState {
            buf: self._buffer@,
            idx: self._buffer_index as nat,
            left: self._current_word_bits_left as nat,
        }
    }
}

impl ExpGolomb {
    /// A reader positioned at the first bit of `uint8array`.
    pub fn new(uint8array: Vec<u8>) -> (r: ExpGolomb)
        requires
            8 * uint8array@.len() <= usize::MAX,
        ensures
            r@ == (GolombState { buf: uint8array@, idx: 0, left: 0 }),
            golomb_wf(r@),
    {
        ExpGolomb { _buffer: uint8array, _buffer_index: 0, _current_word_bits_left: 0 }
    }

    fn bit(&self, p: usize) -> (b: u8)
        requires
            golomb_wf(self@),
            p < 8 * self@.buf.len(),
        ensures
            b == bit_at(self@.buf, p as int),
    {
        let byte = self._buffer[p / 8];
        (byte >> ((7 - p % 8) as u8)) & 1u8
    }

    fn bits_at(&self, p: usize, k: usize) -> (v: u32)
        requires
            golomb_wf(self@),
            k <= 32,
            p + k <= 8 * self@.buf.len(),
        ensures
            v as nat == bits_value(self@.buf, p as int, k as nat),
    {
        let mut v: u64 = 0;
        let mut j: usize = 0;
        while j < k
            invariant
                golomb_wf(self@),
                j <= k,
                k <= 32,
                p + k <= 8 * self@.buf.len(),
                v as nat == bits_value(self@.buf, p as int, j as nat),
            decreases k - j,
        {
            proof {
                lemma_bits_value_u32(self@.buf, p as int, j as nat);
            }
            let b = self.bit(p + j);
            proof {
                let byte = self@.buf[(p + j) as int / 8];
                let sh = (7 - (p + j) as int % 8) as u8;
                assert((byte >> sh) & 1u8 <= 1u8) by (bit_vector);
            }
            v = 2 * v + b as u64;
            j = j + 1;
        }
        proof {
            lemma_bits_value_u32(self@.buf, p as int, k as nat);
        }
        v as u32
    }

    /// Reads the next `bits` bits.
    pub fn readBits(&mut self, bits: u32) -> (r: Result<u32, ExpGolombError>)
        requires
            golomb_wf(old(self)@),
            bits >= 1,
        ensures
            golomb_wf(final(self)@),
            final(self)@.buf == old(self)@.buf,
            match spec_read_bits(old(self)@, bits as nat) {
                Ok((v, s)) => r == Ok::<u32, ExpGolombError>(v as u32) && final(self)@ == s
                    && v <= 0xFFFF_FFFF,
                Err(e) => r == Err::<u32, ExpGolombError>(e),
            },
            bits > 32 ==> final(self)@ == old(self)@,
    {
        reveal(spec_read_bits);
        if bits > 32 {
            return Err(ExpGolombError::InvalidArgument);
        }
        let bits = bits as usize;
        let len = self._buffer.len();
        let pos = 8 * self._buffer_index - self._current_word_bits_left;
        if bits <= self._current_word_bits_left {
            let v = self.bits_at(pos, bits);
            self._current_word_bits_left = self._current_word_bits_left - bits;
            proof {
                lemma_bits_value_u32(old(self)@.buf, pos as int, bits as nat);
            }
            return Ok(v);
        }
        let remaining = 8 * len - pos;
        let k = if bits <= remaining { bits } else { remaining };
        proof {
            if self._buffer_index < len {
                lemma_bits_value_u32(old(self)@.buf, pos as int, k as nat);
            }
        }
        let left = self._current_word_bits_left;
        self._current_word_bits_left = 0;
        self._fillCurrentWord()?;
        let v = self.bits_at(pos, k);
        self._current_word_bits_left = self._current_word_bits_left - (k - left);
        Ok(v)
    }

    /// Loads the next word of up to four bytes once the current one is used up.
    fn _fillCurrentWord(&mut self) -> (r: Result<(), ExpGolombError>)
        requires
            golomb_wf(old(self)@),
            old(self)@.left == 0,
        ensures
            golomb_wf(final(self)@),
            final(self)@.buf == old(self)@.buf,
            old(self)@.idx >= old(self)@.buf.len() ==> r == Err::<(), ExpGolombError>(ExpGolombError::IllegalState)
                && final(self)@ == old(self)@,
            old(self)@.idx < old(self)@.buf.len() ==> r is Ok && final(self)@ == (GolombState {
                buf: old(self)@.buf,
                idx: old(self)@.idx + min_nat(4, (old(self)@.buf.len() - old(self)@.idx) as nat),
                left: 8 * min_nat(4, (old(self)@.buf.len() - old(self)@.idx) as nat),
            }),
    {
        let len = self._buffer.len();
        if self._buffer_index >= len {
            return Err(ExpGolombError::IllegalState);
        }
        let bytes_read = if len - self._buffer_index < 4 { len - self._buffer_index } else { 4 };
        self._buffer_index = self._buffer_index + bytes_read;
        self._current_word_bits_left = 8 * bytes_read;
        Ok(())
    }

    /// Reads one bit as a flag.
    pub fn readBool(&mut self) -> (r: Result<bool, ExpGolombError>)
        requires
            golomb_wf(old(self)@),
        ensures
            golomb_wf(final(self)@),
            final(self)@.buf == old(self)@.buf,
            match spec_read_bits(old(self)@, 1) {
                Ok((v, s)) => r == Ok::<bool, ExpGolombError>(v == 1) && final(self)@ == s,
                Err(e) => r == Err::<bool, ExpGolombError>(e),
            },
    {
        reveal(spec_read_bits);
        let v = self.readBits(1)?;
        Ok(v == 1)
    }

    /// Reads the next eight bits.
    pub fn readByte(&mut self) -> (r: Result<u32, ExpGolombError>)
        requires
            golomb_wf(old(self)@),
        ensures
            golomb_wf(final(self)@),
            final(self)@.buf == old(self)@.buf,
            match spec_read_bits(old(self)@, 8) {
                Ok((v, s)) => r == Ok::<u32, ExpGolombError>(v as u32) && final(self)@ == s,
                Err(e) => r == Err::<u32, ExpGolombError>(e),
            },
    {
        reveal(spec_read_bits);
        self.readBits(8)
    }

    /// Reads an unsigned Exp-Golomb code.
    pub fn readUEG(&mut self) -> (r: Result<u32, ExpGolombError>)
        requires
            golomb_wf(old(self)@),
        ensures
            golomb_wf(final(self)@),
            final(self)@.buf == old(self)@.buf,
            match spec_read_ueg(old(self)@) {
                Ok((v, s)) => r == Ok::<u32, ExpGolombError>(v as u32) && final(self)@ == s
                    && v <= 0xFFFF_FFFE,
                Err(e) => r == Err::<u32, ExpGolombError>(e),
            },
    {
        reveal(spec_read_ueg);
        reveal(spec_skip_leading_zero);
        reveal(spec_read_bits);
        let leading_zeros = self._skipLeadingZero()?;
        let ghost s1 = self@;
        if leading_zeros >= 32 {
            return Err(ExpGolombError::InvalidArgument);
        }
        proof {
            let n = (leading_zeros + 1) as nat;
            if n <= s1.left {
                lemma_bits_value_pos(s1.buf, pos(s1), n);
            } else if s1.idx < s1.buf.len() {
                let k = min_nat(n, (8 * s1.buf.len() - pos(s1)) as nat);
                lemma_bits_value_pos(s1.buf, pos(s1), k);
            }
        }
        let v = self.readBits((leading_zeros + 1) as u32)?;
        Ok(v - 1)
    }

    /// Reads a signed Exp-Golomb code.
    pub fn readSEG(&mut self) -> (r: Result<i32, ExpGolombError>)
        requires
            golomb_wf(old(self)@),
        ensures
            golomb_wf(final(self)@),
            final(self)@.buf == old(self)@.buf,
            match spec_read_seg(old(self)@) {
                Ok((v, s)) => r == Ok::<i32, ExpGolombError>(v as i32) && final(self)@ == s
                    && i32::MIN <= v <= i32::MAX,
                Err(e) => r == Err::<i32, ExpGolombError>(e),
            },
    {
        reveal(spec_read_seg);
        let value = self.readUEG()?;
        if value % 2 == 1 {
            Ok((value / 2 + 1) as i32)
        } else {
            Ok(-((value / 2) as i32))
        }
    }

    fn _skipLeadingZero(&mut self) -> (r: Result<usize, ExpGolombError>)
        requires
            golomb_wf(old(self)@),
        ensures
            golomb_wf(final(self)@),
            final(self)@.buf == old(self)@.buf,
            match spec_skip_leading_zero(old(self)@) {
                Ok((z, s)) => r == Ok::<usize, ExpGolombError>(z as usize) && final(self)@ == s
                    && z <= usize::MAX && final(self)@.left >= 1 && bit_at(s.buf, pos(s)) == 1,
                Err(e) => r == Err::<usize, ExpGolombError>(e),
            },
    {
        reveal(spec_skip_leading_zero);
        let len = self._buffer.len();
        let start = 8 * self._buffer_index - self._current_word_bits_left;
        let mut zero_count: usize = 0;
        loop
            invariant
                golomb_wf(self@),
                self@.buf == old(self)@.buf,
                len == self@.buf.len(),
                start == pos(old(self)@),
                pos(self@) == start + zero_count,
                leading_zeros(self@.buf, start as int) == match leading_zeros(self@.buf, pos(self@)) {
                    Some(z) => Some((z + zero_count) as nat),
                    None => None::<nat>,
                },
                forall|q: int|
                    #![trigger loaded_until(len as nat, old(self)@.idx, q)]
                    q >= pos(self@) ==> loaded_until(len as nat, old(self)@.idx, q)
                        == loaded_until(len as nat, self@.idx, q),
            decreases 8 * len - pos(self@), len - self@.idx,
        {
            if self._current_word_bits_left > 0 {
                let p = 8 * self._buffer_index - self._current_word_bits_left;
                let b = self.bit(p);
                if b == 1 {
                    proof { reveal(spec_skip_leading_zero); }
                    return Ok(zero_count);
                }
                proof {
                    let bb = self@.buf[p as int / 8];
                    let sh = (7 - p as int % 8) as u8;
                    assert((bb >> sh) & 1u8 <= 1u8) by (bit_vector);
                }
                self._current_word_bits_left = self._current_word_bits_left - 1;
                zero_count = zero_count + 1;
            } else {
                match self._fillCurrentWord() {
                    Ok(()) => {},
                    Err(e) => {
                        proof { reveal(spec_skip_leading_zero); }
                        return Err(e);
                    },
                }
            }
        }
    }
}

} // verus!
