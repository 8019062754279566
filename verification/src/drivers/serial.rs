//! Serial console output: text and numbers turned into the bytes to send.
//!
//! The port itself is written by the firmware: it drains what these methods
//! queue, byte by byte; a byte that a busy port refuses is skipped.

use vstd::prelude::*;
use vstd::string::*;

verus! {

/// The ASCII digit for `d` (below 16): `0`-`9`, then `A`-`F`.
pub open spec fn digit_byte(d: nat) -> u8 {
    if d < 10 {
        (48 + d) as u8
    } else {
        (55 + d) as u8
    }
}

/// The decimal digits of `n`, most significant first, without leading zeros.
pub open spec fn decimal_digits(n: nat) -> Seq<u8>
    decreases n,
{
    if n < 10 {
        seq![digit_byte(n)]
    } else {
        decimal_digits(n / 10).push(digit_byte(n % 10))
    }
}

/// The upper-case hexadecimal digits of `n`, most significant first, without
/// leading zeros.
pub open spec fn hex_digits(n: nat) -> Seq<u8>
    decreases n,
{
    if n < 16 {
        seq![digit_byte(n)]
    } else {
        hex_digits(n / 16).push(digit_byte(n % 16))
    }
}

/// The bytes of a line break, carriage return then line feed.
pub open spec fn line_break() -> Seq<u8> {
    seq![13u8, 10u8]
}

/// A serial transmitter: the port and the bytes queued for it.
pub struct SerialTx<T> {
    tx: T,
    pending: Vec<u8>,
}

/// Ten to the power `k`.
pub open spec fn pow10(k: nat) -> nat
    decreases k,
{
    if k == 0 {
        1
    } else {
        10 * pow10((k - 1) as nat)
    }
}

/// Sixteen to the power `k`.
pub open spec fn pow16(k: nat) -> nat
    decreases k,
{
    if k == 0 {
        1
    } else {
        16 * pow16((k - 1) as nat)
    }
}

proof fn lemma_decimal_digits_len(n: nat)
    ensures
        1 <= decimal_digits(n).len(),
        n < 10 ==> decimal_digits(n).len() == 1,
        n >= 10 ==> decimal_digits(n).len() == decimal_digits(n / 10).len() + 1,
    decreases n,
{
    if n >= 10 {
        lemma_decimal_digits_len(n / 10);
    }
}

proof fn lemma_decimal_digits_bound(n: nat, k: nat)
    requires
        k >= 1,
        n < pow10(k),
    ensures
        decimal_digits(n).len() <= k,
    decreases k,
{
    if n >= 10 {
        assert(k >= 2) by {
            if k == 1 {
                assert(pow10(1) == 10 * pow10(0));
            }
        }
        assert(n / 10 < pow10((k - 1) as nat));
        lemma_decimal_digits_bound(n / 10, (k - 1) as nat);
    }
}

proof fn lemma_u32_decimal_len(n: u32)
    ensures
        1 <= decimal_digits(n as nat).len() <= 10,
{
    reveal_with_fuel(pow10, 11);
    assert(pow10(10) == 10000000000);
    lemma_decimal_digits_len(n as nat);
    lemma_decimal_digits_bound(n as nat, 10);
}

proof fn lemma_hex_digits_bound(n: nat, k: nat)
    requires
        k >= 1,
        n < pow16(k),
    ensures
        1 <= hex_digits(n).len() <= k,
    decreases k,
{
    if n >= 16 {
        assert(k >= 2) by {
            if k == 1 {
                assert(pow16(1) == 16 * pow16(0));
            }
        }
        assert(n / 16 < pow16((k - 1) as nat));
        lemma_hex_digits_bound(n / 16, (k - 1) as nat);
    }
}

proof fn lemma_hex_step(n: nat, m: nat, low: Seq<u8>)
    requires
        m > 0,
        hex_digits(n) == hex_digits(m) + low.reverse(),
    ensures
        m >= 16 ==> hex_digits(n) == hex_digits(m / 16) + low.push(digit_byte(m % 16)).reverse(),
        m < 16 ==> hex_digits(n) == low.push(digit_byte(m % 16)).reverse(),
{
    let d = digit_byte(m % 16);
    assert(low.push(d).reverse() =~= seq![d] + low.reverse());
    if m >= 16 {
        assert(hex_digits(m) == hex_digits(m / 16).push(d));
        assert(hex_digits(n) =~= hex_digits(m / 16) + low.push(d).reverse());
    } else {
        assert(hex_digits(n) =~= low.push(d).reverse());
    }
}

impl<T> SerialTx<T> {
    /// The port the bytes go to.
    pub closed spec fn port(&self) -> T {
        self.tx
    }

    /// The bytes queued and not yet handed to the port.
    pub closed spec fn output(&self) -> Seq<u8> {
        self.pending@
    }

    /// A transmitter on `tx` with nothing queued.
    pub fn new(tx: T) -> (s: Self)
        ensures
            s.port() == tx,
            s.output() == Seq::<u8>::empty(),
    {
        Self { tx, pending: Vec::new() }
    }

    /// Queues one byte.
    pub fn write_byte(&mut self, byte: u8)
        ensures
            final(self).port() == old(self).port(),
            final(self).output() == old(self).output().push(byte),
    {
        self.pending.push(byte);
    }

    /// Queues the UTF-8 bytes of `s`.
    pub fn write_str(&mut self, s: &str)
        ensures
            final(self).port() == old(self).port(),
            final(self).output() == old(self).output() + s.spec_bytes(),
    {
        let bytes = s.as_bytes();
        let mut i: usize = 0;
        while i < bytes.len()
            invariant
                bytes@ == s.spec_bytes(),
                i <= bytes.len(),
                self.port() == old(self).port(),
                self.output() == old(self).output() + bytes@.subrange(0, i as int),
            decreases bytes.len() - i,
        {
            self.write_byte(bytes[i]);
            assert(bytes@.subrange(0, i + 1) == bytes@.subrange(0, i as int).push(bytes@[i as int]));
            i = i + 1;
        }
        assert(bytes@.subrange(0, bytes.len() as int) == bytes@);
    }

    /// Queues `n` in decimal, without leading zeros.
    pub fn write_num(&mut self, n: u32)
        ensures
            final(self).port() == old(self).port(),
            final(self).output() == old(self).output() + decimal_digits(n as nat),
    {
        let mut buf = [0u8; 12];
        let len: usize;
        if n == 0 {
            buf[0] = 48;
            len = 1;
            assert(buf@.subrange(0, 1) == decimal_digits(0));
        } else {
            // count the digits
            let mut temp = n;
            let mut count: usize = 0;
            proof {
                lemma_u32_decimal_len(n);
            }
            while temp > 0
                invariant
                    temp > 0 ==> count + decimal_digits(temp as nat).len() == decimal_digits(n as nat).len(),
                    temp == 0 ==> count == decimal_digits(n as nat).len(),
                    decimal_digits(n as nat).len() <= 10,
                decreases temp,
            {
                proof {
                    lemma_decimal_digits_len(temp as nat);
                    if temp >= 10 {
                        lemma_decimal_digits_len((temp / 10) as nat);
                    }
                }
                count = count + 1;
                temp = temp / 10;
            }
            // fill the digits from the least significant end
            let mut m = n;
            let mut i = count;
            while m > 0
                invariant
                    count == decimal_digits(n as nat).len(),
                    count <= 10,
                    i <= count,
                    m > 0 ==> decimal_digits(m as nat).len() == i,
                    m > 0 ==> decimal_digits(n as nat) == decimal_digits(m as nat) + buf@.subrange(i as int, count as int),
                    m == 0 ==> i == 0 && decimal_digits(n as nat) == buf@.subrange(0, count as int),
                    buf@.len() == 12,
                decreases m,
            {
                proof {
                    lemma_decimal_digits_len(m as nat);
                }
                let ghost old_buf = buf@;
                i = i - 1;
                let d = (m % 10) as u8;
                buf[i] = 48 + d;
                proof {
                    assert(buf@.subrange(i as int, count as int) == seq![digit_byte((m % 10) as nat)] + old_buf.subrange(i + 1, count as int));
                    if m >= 10 {
                        assert(decimal_digits(m as nat) == decimal_digits((m / 10) as nat).push(digit_byte((m % 10) as nat)));
                        assert(decimal_digits(n as nat) =~= decimal_digits((m / 10) as nat) + buf@.subrange(i as int, count as int));
                    } else {
                        assert(decimal_digits(n as nat) =~= buf@.subrange(i as int, count as int));
                    }
                }
                m = m / 10;
            }
            len = count;
        }
        let mut k: usize = 0;
        while k < len
            invariant
                len <= 12,
                buf@.subrange(0, len as int) == decimal_digits(n as nat),
                k <= len,
                self.port() == old(self).port(),
                self.output() == old(self).output() + buf@.subrange(0, k as int),
            decreases len - k,
        {
            self.write_byte(buf[k]);
            assert(buf@.subrange(0, k + 1) == buf@.subrange(0, k as int).push(buf@[k as int]));
            k = k + 1;
        }
    }

    /// Queues `n` in upper-case hexadecimal, without leading zeros.
    pub fn write_hex(&mut self, n: u32)
        ensures
            final(self).port() == old(self).port(),
            final(self).output() == old(self).output() + hex_digits(n as nat),
    {
        let hex_chars: [u8; 16] = [
            48, 49, 50, 51, 52, 53, 54, 55, 56, 57, 65, 66, 67, 68, 69, 70,
        ];
        assert forall|d: int| 0 <= d < 16 implies hex_chars@[d] == digit_byte(d as nat) by {}
        let mut buf = [0u8; 8];
        let mut i: usize = 0;
        let mut m = n;
        if m == 0 {
            buf[0] = 48;
            i = 1;
            assert(buf@.subrange(0, 1).reverse() =~= hex_digits(0));
        } else {
            proof {
                reveal_with_fuel(pow16, 9);
                assert(pow16(8) == 0x1_0000_0000);
                lemma_hex_digits_bound(n as nat, 8);
                assert(buf@.subrange(0, 0).reverse() =~= Seq::<u8>::empty());
                assert(hex_digits(n as nat) =~= hex_digits(n as nat) + buf@.subrange(0, 0).reverse());
            }
            while m > 0
                invariant
                    forall|d: int| 0 <= d < 16 ==> hex_chars@[d] == digit_byte(d as nat),
                    pow16(8) == 0x1_0000_0000,
                    buf@.len() == 8,
                    m > 0 ==> hex_digits(n as nat) == hex_digits(m as nat) + buf@.subrange(0, i as int).reverse(),
                    m > 0 ==> i + hex_digits(m as nat).len() <= 8,
                    m == 0 ==> hex_digits(n as nat) == buf@.subrange(0, i as int).reverse(),
                    i <= 8,
                decreases m,
            {
                proof {
                    lemma_hex_digits_bound(m as nat, 8);
                    if m >= 16 {
                        assert(hex_digits(m as nat) == hex_digits((m / 16) as nat).push(digit_byte((m % 16) as nat)));
                    }
                }
                let ghost low = buf@.subrange(0, i as int);
                let nib = m & 0xF;
                assert(m & 0xF == m % 16) by (bit_vector);
                buf[i] = hex_chars[nib as usize];
                proof {
                    assert(buf@.subrange(0, i + 1) =~= low.push(digit_byte((m % 16) as nat)));
                    lemma_hex_step(n as nat, m as nat, low);
                }
                assert(m >> 4 == m / 16) by (bit_vector);
                m = m >> 4;
                i = i + 1;
            }
        }
        // most significant digit first
        let mut j = i;
        while j > 0
            invariant
                i <= 8,
                j <= i,
                buf@.len() == 8,
                hex_digits(n as nat) == buf@.subrange(0, i as int).reverse(),
                self.port() == old(self).port(),
                self.output() == old(self).output() + buf@.subrange(j as int, i as int).reverse(),
            decreases j,
        {
            j = j - 1;
            self.write_byte(buf[j]);
            assert(buf@.subrange(j as int, i as int).reverse() =~= buf@.subrange(j + 1, i as int).reverse().push(buf@[j as int]));
        }
    }

    /// Queues the UTF-8 bytes of `s` followed by a line break.
    pub fn write_line(&mut self, s: &str)
        ensures
            final(self).port() == old(self).port(),
            final(self).output() == old(self).output() + s.spec_bytes() + line_break(),
    {
        self.write_str(s);
        self.write_byte(13);
        self.write_byte(10);
        assert(self.output() =~= old(self).output() + s.spec_bytes() + line_break());
    }

    /// Hands out the queued bytes, in order, and empties the queue.
    pub fn take_output(&mut self) -> (bytes: Vec<u8>)
        ensures
            bytes@ == old(self).output(),
            final(self).output() == Seq::<u8>::empty(),
            final(self).port() == old(self).port(),
    {
        let mut out = Vec::new();
        core::mem::swap(&mut out, &mut self.pending);
        out
    }

    /// The port, to be used directly.
    pub fn inner(&mut self) -> (r: &mut T)
        ensures
            *r == old(self).port(),
            final(self).port() == *final(r),
            final(self).output() == old(self).output(),
    {
        &mut self.tx
    }

    /// Gives the port back. Bytes still queued are not sent: hand them out
    /// with `take_output` first to keep them.
    pub fn release(self) -> (tx: T)
        ensures
            tx == self.port(),
    {
        self.tx
    }
}

/// The value of a digit byte: `0`-`9`, then `A`-`F`.
pub open spec fn digit_value(b: u8) -> int {
    if 48 <= b <= 57 {
        b - 48
    } else {
        b - 55
    }
}

/// The number that the digits `s` in base `radix` write, most significant
/// first.
pub open spec fn digits_value(s: Seq<u8>, radix: nat) -> int
    decreases s.len(),
{
    if s.len() == 0 {
        0
    } else {
        digits_value(s.drop_last(), radix) * radix + digit_value(s.last())
    }
}

/// Whether `b` is a digit of base `radix` (10 or 16), upper case.
pub open spec fn is_digit(b: u8, radix: nat) -> bool {
    (48 <= b <= 57 && b - 48 < radix) || (radix == 16 && 65 <= b <= 70)
}

/// What `write_num` writes reads back as the number: decimal digits only,
/// no leading zero but for 0 itself.
pub proof fn law_decimal_reads_back(n: nat)
    ensures
        digits_value(decimal_digits(n), 10) == n,
        forall|i: int| 0 <= i < decimal_digits(n).len() ==> is_digit(#[trigger] decimal_digits(n)[i], 10),
        decimal_digits(n)[0] == 48u8 ==> n == 0,
    decreases n,
{
    lemma_decimal_digits_len(n);
    if n >= 10 {
        law_decimal_reads_back(n / 10);
        lemma_decimal_digits_len(n / 10);
        let p = decimal_digits(n / 10);
        assert(decimal_digits(n).drop_last() =~= p);
        assert(decimal_digits(n).last() == digit_byte(n % 10));
        assert(decimal_digits(n)[0] == p[0]);
        assert(digits_value(decimal_digits(n), 10) == digits_value(p, 10) * 10 + digit_value(
            digit_byte(n % 10),
        ));
    } else {
        assert(decimal_digits(n).drop_last() =~= Seq::<u8>::empty());
        assert(digits_value(decimal_digits(n), 10) == digits_value(Seq::<u8>::empty(), 10) * 10
            + digit_value(digit_byte(n)));
    }
}

/// What `write_hex` writes reads back as the number: upper-case hexadecimal
/// digits only, no leading zero but for 0 itself.
pub proof fn law_hex_reads_back(n: nat)
    ensures
        digits_value(hex_digits(n), 16) == n,
        forall|i: int| 0 <= i < hex_digits(n).len() ==> is_digit(#[trigger] hex_digits(n)[i], 16),
        hex_digits(n)[0] == 48u8 ==> n == 0,
    decreases n,
{
    if n >= 16 {
        law_hex_reads_back(n / 16);
        let p = hex_digits(n / 16);
        assert(p.len() >= 1);
        assert(hex_digits(n).drop_last() =~= p);
        assert(hex_digits(n).last() == digit_byte(n % 16));
        assert(hex_digits(n)[0] == p[0]);
        assert(digits_value(hex_digits(n), 16) == digits_value(p, 16) * 16 + digit_value(
            digit_byte(n % 16),
        ));
    } else {
        assert(hex_digits(n).drop_last() =~= Seq::<u8>::empty());
        assert(digits_value(hex_digits(n), 16) == digits_value(Seq::<u8>::empty(), 16) * 16
            + digit_value(digit_byte(n)));
    }
}

} // verus!
