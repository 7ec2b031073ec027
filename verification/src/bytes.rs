//! Byte strings: searching, and numbers written in decimal.
use vstd::prelude::*;

verus! {

/// True of the ASCII digits.
pub open spec fn is_digit(b: u8) -> bool {
    48 <= b <= 57
}

/// True of a byte string made of ASCII digits only.
pub open spec fn all_digits(s: Seq<u8>) -> bool {
    forall|i: int| 0 <= i < s.len() ==> is_digit(#[trigger] s[i])
}

/// The number that a string of digits denotes in base ten; the empty string denotes zero.
pub open spec fn decimal_value(s: Seq<u8>) -> nat
    decreases s.len(),
{
    if s.len() == 0 {
        0
    } else {
        decimal_value(s.drop_last()) * 10 + (s.last() - 48) as nat
    }
}

/// A number written in base ten without leading zeros; zero is "0".
pub open spec fn decimal(n: nat) -> Seq<u8>
    decreases n,
{
    if n < 10 {
        seq![(48 + n) as u8]
    } else {
        decimal(n / 10).push((48 + n % 10) as u8)
    }
}

/// The first position at or after `start` that holds `byte`.
pub open spec fn first_index(s: Seq<u8>, start: int, byte: u8) -> Option<int>
    decreases s.len() - start,
{
    if start >= s.len() {
        None
    } else if s[start] == byte {
        Some(start)
    } else {
        first_index(s, start + 1, byte)
    }
}

/// The sum of the bytes of a string.
pub open spec fn byte_sum(s: Seq<u8>) -> nat
    decreases s.len(),
{
    if s.len() == 0 {
        0
    } else {
        byte_sum(s.drop_last()) + s.last() as nat
    }
}

/// A digit appended to a number multiplies it by ten and adds the digit.
pub proof fn lemma_decimal_value_push(s: Seq<u8>, b: u8)
    ensures
        decimal_value(s.push(b)) == decimal_value(s) * 10 + (b - 48) as nat,
{
    assert(s.push(b).drop_last() =~= s);
}

/// A number is no smaller than the number that a prefix of its digits denotes.
pub proof fn lemma_decimal_value_prefix(s: Seq<u8>, k: int)
    requires
        all_digits(s),
        0 <= k <= s.len(),
    ensures
        decimal_value(s.take(k)) <= decimal_value(s),
    decreases s.len(),
{
    if k == s.len() {
        assert(s.take(k) =~= s);
    } else {
        assert(is_digit(s.last()));
        assert(all_digits(s.drop_last())) by {
            assert forall|i: int| 0 <= i < s.drop_last().len() implies is_digit(
                #[trigger] s.drop_last()[i],
            ) by {
                assert(is_digit(s[i]));
            }
        }
        lemma_decimal_value_prefix(s.drop_last(), k);
        assert(s.drop_last().take(k) =~= s.take(k));
    }
}

/// Writing a number in decimal and reading it back gives the number.
pub proof fn lemma_decimal_roundtrip(n: nat)
    ensures
        all_digits(decimal(n)),
        decimal(n).len() >= 1,
        decimal_value(decimal(n)) == n,
    decreases n,
{
    if n < 10 {
        let s = decimal(n);
        assert(s.drop_last() =~= Seq::<u8>::empty());
        assert(decimal_value(s.drop_last()) == 0);
        assert(s.last() == (48 + n) as u8);
    } else {
        lemma_decimal_roundtrip(n / 10);
        let s = decimal(n / 10);
        let b = (48 + n % 10) as u8;
        lemma_decimal_value_push(s, b);
        assert forall|i: int| 0 <= i < s.push(b).len() implies is_digit(#[trigger] s.push(b)[i]) by {
            if i < s.len() {
                assert(is_digit(s[i]));
            }
        }
    }
}

/// No string of digits that denotes at least `n` is shorter than `n` in decimal.
pub proof fn lemma_decimal_shortest(s: Seq<u8>, n: nat)
    requires
        all_digits(s),
        s.len() >= 1,
        n <= decimal_value(s),
    ensures
        decimal(n).len() <= s.len(),
    decreases n,
{
    if n >= 10 {
        let t = s.drop_last();
        assert(is_digit(s.last()));
        assert(all_digits(t)) by {
            assert forall|i: int| 0 <= i < t.len() implies is_digit(#[trigger] t[i]) by {
                assert(is_digit(s[i]));
            }
        }
        if t.len() == 0 {
            assert(decimal_value(t) == 0);
        }
        lemma_decimal_shortest(t, n / 10);
    }
}

/// What `first_index` returns is the first match.
pub proof fn lemma_first_index(s: Seq<u8>, start: int, byte: u8)
    requires
        0 <= start,
    ensures
        match first_index(s, start, byte) {
            Some(i) => start <= i < s.len() && s[i] == byte && (forall|j: int|
                start <= j < i ==> s[j] != byte),
            None => forall|j: int| start <= j < s.len() ==> s[j] != byte,
        },
    decreases s.len() - start,
{
    if start < s.len() && s[start] != byte {
        lemma_first_index(s, start + 1, byte);
    }
}

/// A first match is what `first_index` returns.
pub proof fn lemma_first_index_is(s: Seq<u8>, start: int, byte: u8, at: int)
    requires
        0 <= start <= at < s.len(),
        s[at] == byte,
        forall|j: int| start <= j < at ==> s[j] != byte,
    ensures
        first_index(s, start, byte) == Some(at),
    decreases at - start,
{
    if start < at {
        lemma_first_index_is(s, start + 1, byte, at);
    }
}

/// Finds the first occurrence of a byte at or after an offset.
pub fn find_byte(buffer: &[u8], start: usize, byte: u8) -> (r: Option<usize>)
    ensures
        match r {
            Some(i) => first_index(buffer@, start as int, byte) == Some(i as int),
            None => first_index(buffer@, start as int, byte) is None,
        },
{
    let mut i: usize = start;
    while i < buffer.len()
        invariant
            start <= i,
            first_index(buffer@, start as int, byte) == first_index(buffer@, i as int, byte),
        decreases buffer.len() - i,
    {
        if buffer[i] == byte {
            return Some(i);
        }
        i = i + 1;
    }
    None
}

/// Writes `data` into `buffer` at an offset.
pub fn write_at(buffer: &mut [u8], at: usize, data: &[u8])
    requires
        at + data@.len() <= old(buffer)@.len(),
    ensures
        final(buffer)@ == old(buffer)@.take(at as int) + data@ + old(buffer)@.skip(
            at + data@.len(),
        ),
{
    let room: usize = buffer.len();
    let mut i: usize = 0;
    while i < data.len()
        invariant
            i <= data@.len(),
            room == old(buffer)@.len(),
            at + data@.len() <= old(buffer)@.len(),
            buffer@ =~= old(buffer)@.take(at as int) + data@.take(i as int) + old(buffer)@.skip(
                at + i,
            ),
        decreases data.len() - i,
    {
        buffer[at + i] = data[i];
        i = i + 1;
    }
    assert(data@.take(i as int) =~= data@);
}

/// The digits of a number, least significant first, as many as `k`.
pub open spec fn reversed(d: Seq<u8>, k: int) -> Seq<u8> {
    Seq::new(k as nat, |i: int| d[k - 1 - i])
}

/// Writes a number in decimal into `buffer` at an offset and returns how many digits it took, or
/// returns zero and writes nothing where they do not fit.
pub fn itoa_buffer(value: u32, buffer: &mut [u8], at: usize) -> (n: usize)
    requires
        at <= old(buffer)@.len(),
    ensures
        at + decimal(value as nat).len() <= old(buffer)@.len() ==> {
            &&& n == decimal(value as nat).len()
            &&& final(buffer)@ == old(buffer)@.take(at as int) + decimal(value as nat) + old(
                buffer,
            )@.skip(at + n)
        },
        at + decimal(value as nat).len() > old(buffer)@.len() ==> n == 0 && final(buffer)@ == old(
            buffer,
        )@,
{
    if value == 0 {
        if at < buffer.len() {
            buffer[at] = 48;
            assert(buffer@ =~= old(buffer)@.take(at as int) + seq![48u8] + old(buffer)@.skip(
                at + 1,
            ));
            return 1;
        }
        return 0;
    }
    let mut digits: [u8; 10] = [0u8; 10];
    let mut idx: usize = 0;
    let mut v: u32 = value;
    proof {
        lemma_pow10();
        assert(decimal(value as nat) =~= decimal(v as nat) + reversed(digits@, 0));
    }
    while v > 0 && idx < 10
        invariant
            idx <= 10,
            v < vstd::arithmetic::power::pow(10, (10 - idx) as nat),
            v > 0 ==> decimal(value as nat) == decimal(v as nat) + reversed(digits@, idx as int),
            v == 0 ==> decimal(value as nat) == reversed(digits@, idx as int),
        decreases v,
    {
        let ghost before = digits@;
        let ghost v0 = v as nat;
        proof {
            reveal(vstd::arithmetic::power::pow);
            assert(vstd::arithmetic::power::pow(10, (10 - idx) as nat)
                == 10 * vstd::arithmetic::power::pow(10, (10 - idx - 1) as nat));
        }
        digits[idx] = 48 + (v % 10) as u8;
        v = v / 10;
        idx = idx + 1;
        proof {
            let d = (48 + v0 % 10) as u8;
            assert(reversed(digits@, idx as int) =~= seq![d] + reversed(before, idx - 1));
            if v0 < 10 {
                assert(decimal(v0) =~= seq![d]);
                assert(decimal(v0) + reversed(before, idx - 1) =~= reversed(digits@, idx as int));
            } else {
                assert(decimal(v0) =~= decimal(v as nat).push(d));
                assert(decimal(v0) + reversed(before, idx - 1) =~= decimal(v as nat) + reversed(
                    digits@,
                    idx as int,
                ));
            }
        }
    }
    proof {
        if idx == 10 {
            reveal(vstd::arithmetic::power::pow);
            assert(vstd::arithmetic::power::pow(10, 0) == 1);
        }
    }
    assert(decimal(value as nat) == reversed(digits@, idx as int));
    let room: usize = buffer.len();
    if idx > room - at {
        return 0;
    }
    let mut i: usize = 0;
    while i < idx
        invariant
            room == old(buffer)@.len(),
            i <= idx <= 10,
            at + idx <= old(buffer)@.len(),
            buffer@ =~= old(buffer)@.take(at as int) + reversed(digits@, idx as int).take(i as int)
                + old(buffer)@.skip(at + i),
        decreases idx - i,
    {
        buffer[at + i] = digits[idx - 1 - i];
        i = i + 1;
    }
    assert(reversed(digits@, idx as int).take(i as int) =~= reversed(digits@, idx as int));
    idx
}

/// A number in decimal.
pub fn decimal_digits(value: u64) -> (r: Vec<u8>)
    ensures
        r@ == decimal(value as nat),
    decreases value,
{
    if value < 10 {
        let mut r: Vec<u8> = Vec::new();
        r.push(48 + value as u8);
        assert(r@ =~= seq![(48 + value) as u8]);
        r
    } else {
        let mut r = decimal_digits(value / 10);
        r.push(48 + (value % 10) as u8);
        r
    }
}

/// Ten to the tenth, which no `u32` reaches.
proof fn lemma_pow10()
    ensures
        vstd::arithmetic::power::pow(10, 10) == 10_000_000_000,
{
    reveal_with_fuel(vstd::arithmetic::power::pow, 11);
}

/// The number that bytes denote, least significant first.
pub open spec fn le_number(s: Seq<u8>) -> nat
    decreases s.len(),
{
    if s.len() == 0 {
        0
    } else {
        s[0] as nat + 256 * le_number(s.skip(1))
    }
}

/// A number as `width` bytes, least significant first.
pub open spec fn le_bytes(n: nat, width: nat) -> Seq<u8>
    decreases width,
{
    if width == 0 {
        Seq::empty()
    } else {
        seq![(n % 256) as u8] + le_bytes(n / 256, (width - 1) as nat)
    }
}

/// A number written as bytes and read back is the number, where the bytes are enough.
pub proof fn lemma_le_roundtrip(n: nat, width: nat)
    requires
        n < vstd::arithmetic::power::pow(256, width),
    ensures
        le_bytes(n, width).len() == width,
        le_number(le_bytes(n, width)) == n,
    decreases width,
{
    reveal(vstd::arithmetic::power::pow);
    if width > 0 {
        let rest = le_bytes(n / 256, (width - 1) as nat);
        assert(vstd::arithmetic::power::pow(256, width) == 256 * vstd::arithmetic::power::pow(
            256,
            (width - 1) as nat,
        ));
        assert(n / 256 < vstd::arithmetic::power::pow(256, (width - 1) as nat));
        lemma_le_roundtrip(n / 256, (width - 1) as nat);
        assert(le_bytes(n, width).skip(1) =~= rest);
    }
}

/// Bytes read as a number and written back are the bytes.
pub proof fn lemma_le_bytes_of_number(s: Seq<u8>)
    ensures
        le_bytes(le_number(s), s.len()) == s,
    decreases s.len(),
{
    if s.len() > 0 {
        lemma_le_bytes_of_number(s.skip(1));
        assert(le_number(s) % 256 == s[0]);
        assert(le_number(s) / 256 == le_number(s.skip(1)));
        assert(le_bytes(le_number(s), s.len()) =~= s);
    } else {
        assert(le_bytes(0, 0) =~= s);
    }
}

/// Eight bytes denote a `u64`.
pub proof fn lemma_le_number_bound(s: Seq<u8>)
    ensures
        s.len() == 2 ==> le_number(s) <= u16::MAX,
        s.len() == 4 ==> le_number(s) <= u32::MAX,
        s.len() == 8 ==> le_number(s) <= u64::MAX,
{
    reveal_with_fuel(le_number, 9);
}

/// Powers of 256 that bound the unsigned numbers.
pub proof fn lemma_pow256()
    ensures
        vstd::arithmetic::power::pow(256, 2) == 0x1_0000,
        vstd::arithmetic::power::pow(256, 4) == 0x1_0000_0000,
        vstd::arithmetic::power::pow(256, 8) == 0x1_0000_0000_0000_0000,
{
    reveal_with_fuel(vstd::arithmetic::power::pow, 9);
}

/// Reads a little-endian `u16`.
pub fn read_u16_le(data: &[u8], at: usize) -> (r: u16)
    requires
        at + 2 <= data@.len(),
    ensures
        r == le_number(data@.subrange(at as int, at + 2)),
{
    proof {
        reveal_with_fuel(le_number, 3);
    }
    data[at] as u16 + 256 * (data[at + 1] as u16)
}

/// Reads a little-endian `u64`.
pub fn read_u64_le(data: &[u8], at: usize) -> (r: u64)
    requires
        at + 8 <= data@.len(),
    ensures
        r == le_number(data@.subrange(at as int, at + 8)),
{
    let ghost word = data@.subrange(at as int, at + 8);
    let room: usize = data.len();
    let mut r: u64 = 0;
    let mut i: usize = 8;
    proof {
        lemma_le_number_bound(word);
        assert(word.skip(8) =~= Seq::<u8>::empty());
    }
    while i > 0
        invariant
            i <= 8,
            room == data@.len(),
            at + 8 <= data@.len(),
            word == data@.subrange(at as int, at + 8),
            r == le_number(word.skip(i as int)),
            le_number(word) <= u64::MAX,
        decreases i,
    {
        proof {
            assert(word.skip(i - 1).skip(1) =~= word.skip(i as int));
            lemma_le_number_suffix(word, i - 1);
        }
        r = r * 256 + data[at + i - 1] as u64;
        i = i - 1;
    }
    assert(word.skip(0) =~= word);
    r
}

/// The high bytes of a number denote no more than the number.
proof fn lemma_le_number_suffix(s: Seq<u8>, k: int)
    requires
        0 <= k <= s.len(),
    ensures
        le_number(s.skip(k)) <= le_number(s),
    decreases k,
{
    if k == 0 {
        assert(s.skip(0) =~= s);
    } else {
        lemma_le_number_suffix(s.skip(1), k - 1);
        assert(s.skip(1).skip(k - 1) =~= s.skip(k));
    }
}

/// Appends a `u64` as eight bytes, least significant first.
pub fn push_u64_le(out: &mut Vec<u8>, value: u64)
    ensures
        final(out)@ == old(out)@ + le_bytes(value as nat, 8),
{
    let ghost before = out@;
    let mut v: u64 = value;
    let mut i: usize = 0;
    assert(before + le_bytes(value as nat, 8) =~= out@ + le_bytes(v as nat, 8));
    while i < 8
        invariant
            i <= 8,
            before + le_bytes(value as nat, 8) == out@ + le_bytes(v as nat, (8 - i) as nat),
        decreases 8 - i,
    {
        let b = (v % 256) as u8;
        let ghost prefix = out@;
        out.push(b);
        proof {
            assert(le_bytes(v as nat, (8 - i) as nat) == seq![b] + le_bytes(
                (v / 256) as nat,
                (8 - i - 1) as nat,
            ));
            assert(prefix + (seq![b] + le_bytes((v / 256) as nat, (8 - i - 1) as nat)) =~= out@
                + le_bytes((v / 256) as nat, (8 - i - 1) as nat));
        }
        v = v / 256;
        i = i + 1;
    }
    assert(out@ + le_bytes(v as nat, 0) =~= out@);
}

/// Reads four bytes, the least significant first.
pub fn read_u32_le(data: &[u8], at: usize) -> (r: u32)
    requires
        at + 4 <= data@.len(),
    ensures
        r == le_number(data@.subrange(at as int, at + 4)),
{
    let ghost word = data@.subrange(at as int, at + 4);
    proof {
        lemma_le_number_bound(word);
        reveal_with_fuel(le_number, 5);
        assert(word.skip(1).skip(1) =~= word.skip(2));
        assert(word.skip(2).skip(1) =~= word.skip(3));
        assert(word.skip(3).skip(1) =~= Seq::<u8>::empty());
    }
    data[at] as u32 + 256 * (data[at + 1] as u32 + 256 * (data[at + 2] as u32 + 256 * (data[at
        + 3] as u32)))
}

/// Appends four bytes, the least significant first.
pub fn push_u32_le(out: &mut Vec<u8>, value: u32)
    ensures
        final(out)@ == old(out)@ + le_bytes(value as nat, 4),
{
    proof {
        reveal_with_fuel(le_bytes, 5);
    }
    out.push((value % 256) as u8);
    out.push((value / 256 % 256) as u8);
    out.push((value / 256 / 256 % 256) as u8);
    out.push((value / 256 / 256 / 256 % 256) as u8);
    assert(out@ =~= old(out)@ + le_bytes(value as nat, 4));
}

/// Calls `std::str::from_utf8`, which succeeds exactly on well-formed UTF-8 and then returns the
/// same bytes as a string slice.
#[verifier::external_body]
pub(crate) fn utf8_text(bytes: &[u8]) -> (r: Option<&str>)
    ensures
        match r {
            Some(s) => vstd::utf8::valid_utf8(bytes@) && vstd::utf8::encode_utf8(s@) == bytes@,
            None => !vstd::utf8::valid_utf8(bytes@),
        },
{
    std::str::from_utf8(bytes).ok()
}

/// What the last byte adds to a number.
proof fn lemma_le_number_last(s: Seq<u8>)
    requires
        s.len() > 0,
    ensures
        le_number(s) == le_number(s.drop_last()) + s.last() * vstd::arithmetic::power::pow(
            256,
            (s.len() - 1) as nat,
        ),
    decreases s.len(),
{
    reveal(vstd::arithmetic::power::pow);
    if s.len() == 1 {
        assert(s.skip(1) =~= Seq::<u8>::empty());
        assert(s.drop_last() =~= Seq::<u8>::empty());
        assert(vstd::arithmetic::power::pow(256, 0) == 1);
    } else {
        let t = s.skip(1);
        lemma_le_number_last(t);
        assert(s.drop_last().skip(1) =~= t.drop_last());
        assert(s.drop_last()[0] == s[0]);
        assert(t.last() == s.last());
        let p = vstd::arithmetic::power::pow(256, (s.len() - 2) as nat);
        let last = s.last() as int;
        assert(vstd::arithmetic::power::pow(256, (s.len() - 1) as nat) == 256 * p);
        assert(256 * (last * p) == last * (256 * p)) by (nonlinear_arith);
        assert(le_number(s) == s[0] + 256 * le_number(t));
        assert(le_number(s.drop_last()) == s[0] + 256 * le_number(t.drop_last()));
    }
}

/// The byte at a place counts 256 to the power of the place.
pub proof fn law_little_endian_number(s: Seq<u8>)
    ensures
        le_number(s) == crate::tally::sum(
            s.len(),
            |i: int| s[i] * vstd::arithmetic::power::pow(256, i as nat),
        ),
    decreases s.len(),
{
    if s.len() > 0 {
        let t = s.drop_last();
        lemma_le_number_last(s);
        law_little_endian_number(t);
        crate::tally::lemma_sum_same(
            t.len(),
            |i: int| t[i] * vstd::arithmetic::power::pow(256, i as nat),
            |i: int| s[i] * vstd::arithmetic::power::pow(256, i as nat),
        );
    }
}

/// A digit counts ten to the power of the number of digits behind it.
pub proof fn law_decimal_number(s: Seq<u8>)
    requires
        all_digits(s),
    ensures
        decimal_value(s) == crate::tally::sum(
            s.len(),
            |i: int| (s[i] - 48) * vstd::arithmetic::power::pow(10, (s.len() - 1 - i) as nat),
        ),
    decreases s.len(),
{
    reveal(vstd::arithmetic::power::pow);
    if s.len() > 0 {
        let t = s.drop_last();
        assert forall|i: int| 0 <= i < t.len() implies is_digit(#[trigger] t[i]) by {
            assert(is_digit(s[i]));
        }
        assert(is_digit(s.last()));
        law_decimal_number(t);
        let f = |i: int|
            (t[i] - 48) * vstd::arithmetic::power::pow(10, (t.len() - 1 - i) as nat);
        let g = |i: int|
            (s[i] - 48) * vstd::arithmetic::power::pow(10, (s.len() - 1 - i) as nat);
        assert forall|i: int| 0 <= i < t.len() implies 10 * f(i) == #[trigger] g(i) by {
            let p = vstd::arithmetic::power::pow(10, (t.len() - 1 - i) as nat);
            let d = t[i] - 48;
            assert(vstd::arithmetic::power::pow(10, (s.len() - 1 - i) as nat) == 10 * p);
            assert(10 * (d * p) == d * (10 * p)) by (nonlinear_arith);
        }
        lemma_sum_times_ten(t.len(), f, g);
        assert(vstd::arithmetic::power::pow(10, 0) == 1);
        assert(g(s.len() - 1) == s.last() - 48);
    }
}

proof fn lemma_sum_times_ten(n: nat, f: spec_fn(int) -> int, g: spec_fn(int) -> int)
    requires
        forall|i: int| 0 <= i < n ==> 10 * f(i) == #[trigger] g(i),
    ensures
        10 * crate::tally::sum(n, f) == crate::tally::sum(n, g),
    decreases n,
{
    if n > 0 {
        lemma_sum_times_ten((n - 1) as nat, f, g);
        assert(10 * f(n - 1) == g(n - 1));
    }
}

/// A number is written in digits that denote it, and starts with a zero only where it is zero.
pub proof fn law_decimal_denotes_its_number(n: nat)
    ensures
        all_digits(decimal(n)),
        decimal_value(decimal(n)) == n,
        decimal(n).len() > 0,
        n > 0 ==> decimal(n)[0] != 48,
        n == 0 ==> decimal(n) == seq![48u8],
    decreases n,
{
    lemma_decimal_roundtrip(n);
    if n >= 10 {
        law_decimal_denotes_its_number(n / 10);
        assert(decimal(n)[0] == decimal(n / 10)[0]);
    }
}

} // verus!
