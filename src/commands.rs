use vstd::prelude::*;
use vstd::math::min;

verus! {

/// The `len` low bits of `value`, most significant first: element `i` is bit
/// `len - 1 - i` of `value`.
pub open spec fn msb_bits(value: u32, len: nat) -> Seq<bool> {
    Seq::new(len, |i: int| (value >> ((len - 1 - i) as u32)) & 1 == 1)
}

/// A queue of up to 32 bits, read from the most significant end.
///
/// The remaining bits sit at the top of `value`, the next one in bit 31.
#[derive(Clone, Copy)]
pub struct FastBitQueue {
    value: u32,
    len: u8,
}

impl View for FastBitQueue {
    type V = Seq<bool>;

    /// The bits still to be popped, in the order `pop` returns them.
    closed spec fn view(&self) -> Seq<bool> {
        Seq::new(self.len as nat, |i: int| (self.value >> ((31 - i) as u32)) & 1 == 1)
    }
}

impl FastBitQueue {
    /// At most 32 bits are held.
    #[verifier::type_invariant]
    spec fn holds_at_most_32(self) -> bool {
        self.len <= 32
    }

    /// A queue of the `len` low bits of `value` (at most 32), most significant first.
    pub fn new(value: u32, len: usize) -> (q: Self)
        ensures
            q@ == msb_bits(value, if len <= 32 { len as nat } else { 32 }),
    {
        let n: u32 = if len <= 32 { len as u32 } else { 32 };
        let stored: u32 = if n == 0 { 0 } else { value << (32 - n) };
        let q = Self { value: stored, len: n as u8 };
        assert forall|i: int| 0 <= i < n implies #[trigger] q@[i] == msb_bits(value, n as nat)[i] by {
            let k: u32 = (31 - i) as u32;
            let j: u32 = (n - 1 - i) as u32;
            let sh: u32 = (32 - n) as u32;
            assert(((value << sh) >> k) & 1 == (value >> j) & 1) by (bit_vector)
                requires
                    sh < 32,
                    k == j + sh,
                    k < 32,
            ;
        }
        assert(q@ =~= msb_bits(value, n as nat));
        q
    }

    /// Removes and returns the next bit. Must not be called on an empty queue.
    pub fn pop(&mut self) -> (r: bool)
        requires
            old(self)@.len() > 0,
        ensures
            r == old(self)@[0],
            final(self)@ == old(self)@.drop_first(),
    {
        proof {
            use_type_invariant(&*self);
        }
        let v = self.value;
        let r = (v & 0x8000_0000) != 0;
        assert(((v & 0x8000_0000) != 0) == ((v >> 31u32) & 1 == 1)) by (bit_vector);
        self.len = self.len - 1;
        self.value = v << 1;
        assert forall|i: int| 0 <= i < self.len implies #[trigger] self@[i] == old(self)@.drop_first()[i] by {
            let k: u32 = (31 - i) as u32;
            assert(((v << 1u32) >> k) & 1 == (v >> (k - 1) as u32) & 1) by (bit_vector)
                requires
                    1 <= k <= 31,
            ;
        }
        assert(self@ =~= old(self)@.drop_first());
        r
    }

    /// The number of bits still to be popped.
    pub fn len(&self) -> (r: u8)
        ensures
            r as nat == self@.len(),
    {
        self.len
    }
}

/// The register after shifting in `bit` at the low end.
pub open spec fn push_bit(value: u8, bit: bool) -> u8 {
    ((value as int * 2 + if bit { 1int } else { 0int }) % 256) as u8
}

/// The register after shifting in each of `bits`, first to last.
pub open spec fn pushes(value: u8, bits: Seq<bool>) -> u8
    decreases bits.len(),
{
    if bits.len() == 0 {
        value
    } else {
        push_bit(pushes(value, bits.drop_last()), bits.last())
    }
}

/// The number that `bits` spell, most significant first.
pub open spec fn bits_value(bits: Seq<bool>) -> nat
    decreases bits.len(),
{
    if bits.len() == 0 {
        0
    } else {
        bits_value(bits.drop_last()) * 2 + if bits.last() { 1nat } else { 0nat }
    }
}

/// An 8-bit shift register that collects sampled bits.
pub struct FastBitStack {
    value: u8,
}

impl View for FastBitStack {
    type V = u8;

    closed spec fn view(&self) -> u8 {
        self.value
    }
}

impl FastBitStack {
    /// An empty register, holding zero.
    pub fn new() -> (s: Self)
        ensures
            s@ == 0,
    {
        Self { value: 0 }
    }

    /// Shifts the register left by one and puts `value` in the low bit.
    pub fn push(&mut self, value: bool)
        ensures
            final(self)@ == push_bit(old(self)@, value),
    {
        let v = self.value;
        let b: u8 = if value { 1 } else { 0 };
        self.value = (v << 1u8) | b;
        assert((v << 1u8) | b == ((v as int * 2 + b as int) % 256) as u8) by (bit_vector)
            requires
                b <= 1,
        ;
    }

    /// The register's content.
    pub fn value(&self) -> (r: u8)
        ensures
            r == self@,
    {
        self.value
    }

    /// Resets the register to zero.
    pub fn clean(&mut self)
        ensures
            final(self)@ == 0,
    {
        self.value = 0;
    }
}

/// Whatever the register held, after eight pushes it holds the eight pushed
/// bits, the first pushed as the most significant.
pub proof fn lemma_accumulator_keeps_last_byte(value: u8, bits: Seq<bool>)
    requires
        bits.len() == 8,
    ensures
        pushes(value, bits) as nat == bits_value(bits),
{
    lemma_pushes_mod(value, bits);
    lemma_bits_value_bound(bits);
    reveal_with_fuel(two_to, 9);
    assert(two_to(8) == 256);
    let v = value as int;
    let b = bits_value(bits) as int;
    assert((v * 256 + b) % 256 == b) by (nonlinear_arith)
        requires
            0 <= b < 256,
            0 <= v,
    {
        vstd::arithmetic::div_mod::lemma_mod_multiples_vanish(v, b, 256);
        vstd::arithmetic::div_mod::lemma_small_mod(b as nat, 256);
    }
}

/// From a cleared register, up to eight pushes leave exactly the number that
/// the pushed bits spell.
pub proof fn lemma_accumulator_from_zero(bits: Seq<bool>)
    requires
        bits.len() <= 8,
    ensures
        pushes(0, bits) as nat == bits_value(bits),
{
    lemma_pushes_mod(0, bits);
    lemma_bits_value_bound(bits);
    lemma_two_to_monotone(bits.len(), 8);
    reveal_with_fuel(two_to, 9);
    vstd::arithmetic::div_mod::lemma_small_mod(bits_value(bits), 256);
}

/// Two to the power `n`.
spec fn two_to(n: nat) -> int
    decreases n,
{
    if n == 0 {
        1
    } else {
        2 * two_to((n - 1) as nat)
    }
}

proof fn lemma_bits_value_bound(bits: Seq<bool>)
    ensures
        bits_value(bits) < two_to(bits.len()),
    decreases bits.len(),
{
    if bits.len() > 0 {
        lemma_bits_value_bound(bits.drop_last());
    }
}

/// Shifting in `n` bits multiplies the register by `2^n` and adds their value, modulo 256.
proof fn lemma_pushes_mod(value: u8, bits: Seq<bool>)
    ensures
        pushes(value, bits) as int == (value as int * two_to(bits.len()) + bits_value(bits)) % 256,
    decreases bits.len(),
{
    if bits.len() > 0 {
        let rest = bits.drop_last();
        lemma_pushes_mod(value, rest);
        let p = two_to(rest.len());
        let x = value as int * p + bits_value(rest);
        let c = if bits.last() { 1int } else { 0int };
        assert(value as int * two_to(bits.len()) + bits_value(bits) == x * 2 + c) by (nonlinear_arith)
            requires
                two_to(bits.len()) == 2 * p,
                bits_value(bits) == bits_value(rest) * 2 + c,
                x == value as int * p + bits_value(rest),
        ;
        assert(((x % 256) * 2 + c) % 256 == (x * 2 + c) % 256) by {
            vstd::arithmetic::div_mod::lemma_mul_mod_noop_left(x, 2, 256);
            vstd::arithmetic::div_mod::lemma_add_mod_noop((x % 256) * 2, c, 256);
            vstd::arithmetic::div_mod::lemma_add_mod_noop(x * 2, c, 256);
            vstd::arithmetic::div_mod::lemma_mod_twice(x * 2, 256);
        }
    }
}

/// One attack primitive.
#[derive(Clone, Copy)]
pub enum AttackCmd {
    /// Let `bits` bit periods pass.
    Wait { bits: usize },
    /// Force the bus line to each bit of `stream` in turn.
    Force { stream: FastBitQueue },
    /// Transmit each bit of `stream` in turn.
    Send { stream: FastBitQueue },
    /// Compare each sampled bit with the next bit of `stream`; stop the attack on a difference.
    Match { stream: FastBitQueue },
    /// Shift `len` sampled bits into the accumulator.
    Read { len: usize },
    /// Wait eight bit periods for each unit that the accumulator holds.
    WaitBuffered,
    /// End of the program; also fills the unused slots.
    End,
}

/// The mathematical content of an [`AttackCmd`].
pub enum CmdView {
    Wait { bits: nat },
    Force { stream: Seq<bool> },
    Send { stream: Seq<bool> },
    Match { stream: Seq<bool> },
    Read { len: nat },
    WaitBuffered,
    End,
}

impl View for AttackCmd {
    type V = CmdView;

    open spec fn view(&self) -> CmdView {
        match *self {
            AttackCmd::Wait { bits } => CmdView::Wait { bits: bits as nat },
            AttackCmd::Force { stream } => CmdView::Force { stream: stream@ },
            AttackCmd::Send { stream } => CmdView::Send { stream: stream@ },
            AttackCmd::Match { stream } => CmdView::Match { stream: stream@ },
            AttackCmd::Read { len } => CmdView::Read { len: len as nat },
            AttackCmd::WaitBuffered => CmdView::WaitBuffered,
            AttackCmd::End => CmdView::End,
        }
    }
}

/// A ring buffer of bits with room for `SIZE - 1` of them, one slot being kept
/// free to tell a full buffer from an empty one.
#[derive(Clone, Copy)]
pub struct BitStream<const SIZE: usize> {
    data: [bool; SIZE],
    start: usize,
    end: usize,
}

impl<const SIZE: usize> View for BitStream<SIZE> {
    type V = Seq<bool>;

    /// The bits held, from the oldest to the newest.
    closed spec fn view(&self) -> Seq<bool> {
        Seq::new(self.count(), |i: int| self.data@[self.slot(i)])
    }
}

impl<const SIZE: usize> BitStream<SIZE> {
    /// Both ends lie within the slots.
    #[verifier::type_invariant]
    spec fn ends_in_slots(self) -> bool {
        if SIZE == 0 {
            self.start == 0 && self.end == 0
        } else {
            self.start < SIZE && self.end < SIZE
        }
    }

    /// Where the `i`-th oldest bit lies.
    spec fn slot(&self, i: int) -> int {
        if self.start + i < SIZE {
            self.start + i
        } else {
            self.start + i - SIZE
        }
    }

    spec fn count(&self) -> nat {
        if self.end >= self.start {
            (self.end - self.start) as nat
        } else {
            (SIZE - self.start + self.end) as nat
        }
    }

    /// An empty buffer.
    pub fn new() -> (b: Self)
        ensures
            b@ == Seq::<bool>::empty(),
    {
        let b = Self { data: [false; SIZE], start: 0, end: 0 };
        assert(b@ =~= Seq::<bool>::empty());
        b
    }

    /// A buffer holding the low bits of `data`, most significant first: as
    /// many as `len` asks for, but no more than 32 nor than the buffer's room.
    pub fn from_u32(data: u32, len: usize) -> (b: Self)
        ensures
            b@ == msb_bits(
                data,
                if SIZE == 0 {
                    0
                } else {
                    min(min(len as int, 32), SIZE - 1) as nat
                },
            ),
    {
        let mut n: usize = if len < 32 { len } else { 32 };
        if SIZE == 0 {
            n = 0;
        } else if n > SIZE - 1 {
            n = SIZE - 1;
        }
        let mut bits = [false; SIZE];
        let mut index: usize = 0;
        while index < n
            invariant
                n <= 32,
                SIZE == 0 ==> n == 0,
                SIZE > 0 ==> n < SIZE,
                index <= n,
                bits@.len() == SIZE,
                forall|k: int|
                    n - index <= k < n ==> #[trigger] bits@[k] == ((data >> ((n - 1 - k) as u32)) & 1 == 1),
            decreases n - index,
        {
            let sh = index as u32;
            assert(((data >> sh) & 1 != 0) == ((data >> sh) & 1 == 1)) by (bit_vector);
            bits[n - index - 1] = (data >> sh) & 1 != 0;
            assert(((n - 1 - (n - index - 1)) as u32) == sh);
            index += 1;
        }
        let b = Self { data: bits, start: 0, end: n };
        assert(b@ =~= msb_bits(data, n as nat));
        b
    }

    /// The number of bits held.
    pub fn len(&self) -> (r: usize)
        ensures
            r == self@.len(),
    {
        proof {
            use_type_invariant(self);
        }
        if self.end >= self.start {
            self.end - self.start
        } else {
            SIZE - self.start + self.end
        }
    }

    /// Removes and returns the oldest bit; `Err` when the buffer is empty.
    pub fn pop(&mut self) -> (r: Result<bool, ()>)
        ensures
            old(self)@.len() == 0 ==> r is Err && final(self)@ == old(self)@,
            old(self)@.len() > 0 ==> r == Ok::<bool, ()>(old(self)@[0]) && final(self)@ == old(self)@.drop_first(),
    {
        proof {
            use_type_invariant(&*self);
        }
        if self.start == self.end {
            return Err(());
        }
        let res = self.data[self.start];
        self.start = if self.start + 1 == SIZE { 0 } else { self.start + 1 };
        assert(self@ =~= old(self)@.drop_first());
        Ok(res)
    }

    /// Appends `value` as the newest bit; `Err` when the buffer is full.
    pub fn push(&mut self, value: bool) -> (r: Result<(), ()>)
        ensures
            old(self)@.len() + 1 >= SIZE ==> r is Err && final(self)@ == old(self)@,
            old(self)@.len() + 1 < SIZE ==> r is Ok && final(self)@ == old(self)@.push(value),
    {
        proof {
            use_type_invariant(&*self);
        }
        if SIZE == 0 {
            return Err(());
        }
        let next_end = if self.end + 1 == SIZE { 0 } else { self.end + 1 };
        if next_end == self.start {
            return Err(());
        }
        let e = self.end;
        self.data[e] = value;
        self.end = next_end;
        assert(self@ =~= old(self)@.push(value));
        Ok(())
    }

    /// Drops every bit held.
    pub fn clean(&mut self)
        ensures
            final(self)@ == Seq::<bool>::empty(),
    {
        proof {
            use_type_invariant(&*self);
        }
        self.end = self.start;
        assert(self@ =~= Seq::<bool>::empty());
    }

    /// The number that the oldest (at most 32) bits spell, the oldest as the
    /// most significant.
    pub fn to_u32(&self) -> (r: u32)
        ensures
            r as nat == bits_value(self@.take(min(self@.len() as int, 32))),
    {
        proof {
            use_type_invariant(self);
        }
        let mut result: u32 = 0;
        let len = self.len();
        let max_bits: usize = if len < 32 { len } else { 32 };
        let mut i: usize = 0;
        while i < max_bits
            invariant
                max_bits <= 32,
                max_bits <= self@.len(),
                len == self@.len(),
                i <= max_bits,
                SIZE > 0 ==> self.start < SIZE,
                max_bits > 0 ==> SIZE > 0,
                self@.len() < SIZE || SIZE == 0,
                result as nat == bits_value(self@.take(i as int)),
            decreases max_bits - i,
        {
            proof {
                lemma_bits_value_bound(self@.take(i as int));
                reveal_with_fuel(two_to, 32);
                lemma_two_to_monotone(i as nat, 31);
            }
            assert(result < 0x8000_0000);
            let index = if i < SIZE - self.start { self.start + i } else { i - (SIZE - self.start) };
            let bit: u32 = if self.data[index] { 1 } else { 0 };
            proof {
                assert(self@.take(i + 1).drop_last() =~= self@.take(i as int));
            }
            result = result * 2 + bit;
            i += 1;
        }
        assert(self@.take(min(self@.len() as int, 32)) =~= self@.take(max_bits as int));
        result
    }
}

proof fn lemma_two_to_monotone(a: nat, b: nat)
    requires
        a <= b,
    ensures
        1 <= two_to(a) <= two_to(b),
    decreases b,
{
    if a < b {
        lemma_two_to_monotone(a, (b - 1) as nat);
    } else if a > 0 {
        lemma_two_to_monotone((a - 1) as nat, (a - 1) as nat);
    }
}

} // verus!
