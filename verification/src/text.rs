//! Text: splitting, trimming and reading numbers.
use vstd::prelude::*;

verus! {

/// True of the characters that Unicode calls white space.
pub open spec fn is_space(c: char) -> bool {
    let u = c as u32;
    ||| 0x09 <= u <= 0x0d
    ||| u == 0x20
    ||| u == 0x85
    ||| u == 0xa0
    ||| u == 0x1680
    ||| 0x2000 <= u <= 0x200a
    ||| u == 0x2028
    ||| u == 0x2029
    ||| u == 0x202f
    ||| u == 0x205f
    ||| u == 0x3000
}

/// The first position of a character.
pub open spec fn position(s: Seq<char>, c: char) -> Option<int>
    decreases s.len(),
{
    if s.len() == 0 {
        None
    } else if s[0] == c {
        Some(0)
    } else {
        match position(s.skip(1), c) {
            Some(i) => Some(i + 1),
            None => None,
        }
    }
}

/// The parts of a text between separators.
pub open spec fn split(s: Seq<char>, separator: char) -> Seq<Seq<char>>
    decreases s.len(),
{
    proof {
        lemma_position(s, separator);
    }
    match position(s, separator) {
        Some(i) => seq![s.take(i)] + split(s.skip(i + 1), separator),
        None => seq![s],
    }
}

/// A line without the carriage return before its line feed.
pub open spec fn strip_cr(s: Seq<char>) -> Seq<char> {
    if s.len() > 0 && s.last() == '\r' {
        s.drop_last()
    } else {
        s
    }
}

/// The lines of a text.
pub open spec fn lines(s: Seq<char>) -> Seq<Seq<char>>
    decreases s.len(),
{
    proof {
        lemma_position(s, '\n');
    }
    if s.len() == 0 {
        Seq::empty()
    } else {
        match position(s, '\n') {
            Some(i) => seq![strip_cr(s.take(i))] + lines(s.skip(i + 1)),
            None => seq![s],
        }
    }
}

/// The number of characters before the first white space.
pub open spec fn word_len(s: Seq<char>) -> nat
    decreases s.len(),
{
    if s.len() == 0 || is_space(s[0]) {
        0
    } else {
        1 + word_len(s.skip(1))
    }
}

/// The words of a text: what stands between white space.
pub open spec fn words(s: Seq<char>) -> Seq<Seq<char>>
    decreases s.len(),
{
    proof {
        lemma_word_len(s);
    }
    if s.len() == 0 {
        Seq::empty()
    } else if is_space(s[0]) {
        words(s.skip(1))
    } else {
        seq![s.take(word_len(s) as int)] + words(s.skip(word_len(s) as int))
    }
}

/// A text without the white space at its start.
pub open spec fn trim_start(s: Seq<char>) -> Seq<char>
    decreases s.len(),
{
    if s.len() > 0 && is_space(s[0]) {
        trim_start(s.skip(1))
    } else {
        s
    }
}

/// A text without the white space at its end.
pub open spec fn trim_end(s: Seq<char>) -> Seq<char>
    decreases s.len(),
{
    if s.len() > 0 && is_space(s.last()) {
        trim_end(s.drop_last())
    } else {
        s
    }
}

/// A text without the white space around it.
pub open spec fn trim(s: Seq<char>) -> Seq<char> {
    trim_end(trim_start(s))
}

/// True where a text starts with another.
pub open spec fn starts_with(s: Seq<char>, prefix: Seq<char>) -> bool {
    prefix.len() <= s.len() && s.take(prefix.len() as int) == prefix
}

/// True where a text holds another at `i`.
pub open spec fn holds_at(s: Seq<char>, part: Seq<char>, i: int) -> bool {
    0 <= i && i + part.len() <= s.len() && s.subrange(i, i + part.len()) == part
}

/// True where a text holds another.
pub open spec fn contains(s: Seq<char>, part: Seq<char>) -> bool {
    exists|i: int| #[trigger] holds_at(s, part, i)
}

/// True of the decimal digits.
pub open spec fn is_digit(c: char) -> bool {
    '0' <= c <= '9'
}

/// True of a text made of digits only.
pub open spec fn all_digits(s: Seq<char>) -> bool {
    forall|i: int| 0 <= i < s.len() ==> is_digit(#[trigger] s[i])
}

/// The number that digits denote.
pub open spec fn digits_value(s: Seq<char>) -> nat
    decreases s.len(),
{
    if s.len() == 0 {
        0
    } else {
        digits_value(s.drop_last()) * 10 + (s.last() as u32 - 48) as nat
    }
}

/// The unsigned number up to `max` that a text denotes: digits, after a plus sign if there is one.
pub open spec fn unsigned(s: Seq<char>, max: nat) -> Option<nat> {
    let digits = if s.len() > 0 && s[0] == '+' {
        s.skip(1)
    } else {
        s
    };
    if digits.len() > 0 && all_digits(digits) && digits_value(digits) <= max {
        Some(digits_value(digits))
    } else {
        None
    }
}

/// The signed number from `min` to `max` that a text denotes: digits, after a sign if there is one.
pub open spec fn signed(s: Seq<char>, min: int, max: int) -> Option<int> {
    let has_sign = s.len() > 0 && (s[0] == '+' || s[0] == '-');
    let digits = if has_sign {
        s.skip(1)
    } else {
        s
    };
    let value = if has_sign && s[0] == '-' {
        -digits_value(digits)
    } else {
        digits_value(digits) as int
    };
    if digits.len() > 0 && all_digits(digits) && min <= value <= max {
        Some(value)
    } else {
        None
    }
}

/// The texts of a vector of texts.
pub open spec fn texts(v: Seq<Vec<char>>) -> Seq<Seq<char>> {
    Seq::new(v.len(), |i: int| v[i]@)
}

/// What `position` returns is the first match.
pub proof fn lemma_position(s: Seq<char>, c: char)
    ensures
        match position(s, c) {
            Some(i) => 0 <= i < s.len() && s[i] == c && forall|j: int| 0 <= j < i ==> s[j] != c,
            None => forall|j: int| 0 <= j < s.len() ==> s[j] != c,
        },
    decreases s.len(),
{
    if s.len() > 0 && s[0] != c {
        lemma_position(s.skip(1), c);
        match position(s.skip(1), c) {
            Some(i) => {
                assert forall|j: int| 0 <= j < i + 1 implies s[j] != c by {
                    if j > 0 {
                        assert(s[j] == s.skip(1)[j - 1]);
                    }
                }
            },
            None => {
                assert forall|j: int| 0 <= j < s.len() implies s[j] != c by {
                    if j > 0 {
                        assert(s[j] == s.skip(1)[j - 1]);
                    }
                }
            },
        }
    }
}

/// A first match is what `position` returns.
pub proof fn lemma_position_is(s: Seq<char>, c: char, at: int)
    requires
        0 <= at < s.len(),
        s[at] == c,
        forall|j: int| 0 <= j < at ==> s[j] != c,
    ensures
        position(s, c) == Some(at),
{
    lemma_position(s, c);
}

/// A word is no longer than the text.
pub proof fn lemma_word_len(s: Seq<char>)
    ensures
        word_len(s) <= s.len(),
        forall|j: int| 0 <= j < word_len(s) ==> !is_space(#[trigger] s[j]),
        word_len(s) < s.len() ==> is_space(s[word_len(s) as int]),
    decreases s.len(),
{
    if s.len() > 0 && !is_space(s[0]) {
        lemma_word_len(s.skip(1));
        assert forall|j: int| 0 <= j < word_len(s) implies !is_space(#[trigger] s[j]) by {
            if j > 0 {
                assert(s[j] == s.skip(1)[j - 1]);
            }
        }
    }
}

/// A prefix of digits denotes no more than all of them.
proof fn lemma_digits_prefix(s: Seq<char>, k: int)
    requires
        all_digits(s),
        0 <= k <= s.len(),
    ensures
        digits_value(s.take(k)) <= digits_value(s),
    decreases s.len(),
{
    if k == s.len() {
        assert(s.take(k) =~= s);
    } else {
        assert(is_digit(s.last()));
        assert(all_digits(s.drop_last())) by {
            assert forall|i: int| 0 <= i < s.drop_last().len() implies is_digit(
                #[trigger] s.drop_last()[i],
            ) by {
                assert(is_digit(s[i]));
            }
        }
        lemma_digits_prefix(s.drop_last(), k);
        assert(s.drop_last().take(k) =~= s.take(k));
    }
}

/// The characters of a string.
pub fn chars_of(s: &str) -> (r: Vec<char>)
    ensures
        r@ == s@,
{
    let mut r: Vec<char> = Vec::new();
    for c in it: s.chars()
        invariant
            r@ == it.seq().take(it.index() as int),
            it.seq() == s@,
    {
        r.push(c);
    }
    assert(r@ =~= s@);
    r
}

/// True of white space.
pub fn space(c: char) -> (r: bool)
    ensures
        r == is_space(c),
{
    let u: u32 = c as u32;
    (0x09 <= u && u <= 0x0d) || u == 0x20 || u == 0x85 || u == 0xa0 || u == 0x1680 || (0x2000 <= u
        && u <= 0x200a) || u == 0x2028 || u == 0x2029 || u == 0x202f || u == 0x205f || u == 0x3000
}

/// A part of a text.
pub fn part(s: &[char], from: usize, to: usize) -> (r: Vec<char>)
    requires
        from <= to <= s@.len(),
    ensures
        r@ == s@.subrange(from as int, to as int),
{
    vstd::slice::slice_to_vec(vstd::slice::slice_subrange(s, from, to))
}

/// Splits a text at a separator.
pub fn split_on(s: &[char], separator: char) -> (r: Vec<Vec<char>>)
    ensures
        texts(r@) == split(s@, separator),
{
    let mut r: Vec<Vec<char>> = Vec::new();
    let mut start: usize = 0;
    let mut i: usize = 0;
    assert(s@.skip(0) =~= s@);
    assert(texts(r@) + split(s@.skip(0), separator) =~= split(s@, separator));
    while i < s.len()
        invariant
            start <= i <= s@.len(),
            split(s@, separator) == texts(r@) + split(s@.skip(start as int), separator),
            forall|j: int| start <= j < i ==> s@[j] != separator,
        decreases s.len() - i,
    {
        if s[i] == separator {
            let ghost rest = s@.skip(start as int);
            let ghost before = texts(r@);
            proof {
                lemma_position_is(rest, separator, i - start);
                assert(rest.take(i - start) =~= s@.subrange(start as int, i as int));
                assert(rest.skip(i - start + 1) =~= s@.skip(i + 1));
            }
            r.push(part(s, start, i));
            proof {
                assert(texts(r@) =~= before.push(s@.subrange(start as int, i as int)));
                assert(before + (seq![s@.subrange(start as int, i as int)] + split(
                    s@.skip(i + 1),
                    separator,
                )) =~= texts(r@) + split(s@.skip(i + 1), separator));
            }
            start = i + 1;
        }
        i = i + 1;
    }
    let ghost rest = s@.skip(start as int);
    let ghost before = texts(r@);
    proof {
        lemma_position(rest, separator);
        assert(position(rest, separator) is None);
        assert(rest =~= s@.subrange(start as int, s@.len() as int));
    }
    r.push(part(s, start, s.len()));
    assert(texts(r@) =~= before.push(rest));
    assert(before + seq![rest] =~= texts(r@));
    r
}

/// The lines of a text.
pub fn lines_of(s: &[char]) -> (r: Vec<Vec<char>>)
    ensures
        texts(r@) == lines(s@),
{
    let mut r: Vec<Vec<char>> = Vec::new();
    let mut start: usize = 0;
    let mut i: usize = 0;
    assert(s@.skip(0) =~= s@);
    assert(texts(r@) + lines(s@.skip(0)) =~= lines(s@));
    while i < s.len()
        invariant
            start <= i <= s@.len(),
            lines(s@) == texts(r@) + lines(s@.skip(start as int)),
            forall|j: int| start <= j < i ==> s@[j] != '\n',
        decreases s.len() - i,
    {
        if s[i] == '\n' {
            let ghost rest = s@.skip(start as int);
            let ghost before = texts(r@);
            let ghost line = strip_cr(s@.subrange(start as int, i as int));
            proof {
                lemma_position_is(rest, '\n', i - start);
                assert(rest.take(i - start) =~= s@.subrange(start as int, i as int));
                assert(rest.skip(i - start + 1) =~= s@.skip(i + 1));
            }
            let end: usize = if i > start && s[i - 1] == '\r' {
                i - 1
            } else {
                i
            };
            assert(s@.subrange(start as int, end as int) =~= line);
            r.push(part(s, start, end));
            proof {
                assert(texts(r@) =~= before.push(line));
                assert(before + (seq![line] + lines(s@.skip(i + 1))) =~= texts(r@) + lines(
                    s@.skip(i + 1),
                ));
            }
            start = i + 1;
        }
        i = i + 1;
    }
    let ghost rest = s@.skip(start as int);
    let ghost before = texts(r@);
    proof {
        lemma_position(rest, '\n');
        assert(rest =~= s@.subrange(start as int, s@.len() as int));
    }
    if start < s.len() {
        assert(position(rest, '\n') is None);
        r.push(part(s, start, s.len()));
        assert(texts(r@) =~= before.push(rest));
        assert(before + seq![rest] =~= texts(r@));
    } else {
        assert(before + Seq::<Seq<char>>::empty() =~= before);
    }
    r
}

/// The words of a text.
pub fn words_of(s: &[char]) -> (r: Vec<Vec<char>>)
    ensures
        texts(r@) == words(s@),
{
    let mut r: Vec<Vec<char>> = Vec::new();
    let mut i: usize = 0;
    assert(s@.skip(0) =~= s@);
    assert(texts(r@) + words(s@.skip(0)) =~= words(s@));
    while i < s.len()
        invariant
            i <= s@.len(),
            words(s@) == texts(r@) + words(s@.skip(i as int)),
        decreases s.len() - i,
    {
        let ghost rest = s@.skip(i as int);
        proof {
            lemma_word_len(rest);
            assert(rest[0] == s@[i as int]);
            assert(rest.skip(1) =~= s@.skip(i + 1));
        }
        if space(s[i]) {
            i = i + 1;
        } else {
            let ghost before = texts(r@);
            let start: usize = i;
            while i < s.len() && !space(s[i])
                invariant
                    start <= i <= s@.len(),
                    rest == s@.skip(start as int),
                    forall|j: int| start <= j < i ==> !is_space(#[trigger] s@[j]),
                    word_len(rest) <= rest.len(),
                    i - start <= word_len(rest),
                    forall|j: int| 0 <= j < word_len(rest) ==> !is_space(#[trigger] rest[j]),
                    word_len(rest) < rest.len() ==> is_space(rest[word_len(rest) as int]),
                decreases s.len() - i,
            {
                assert(rest[i - start] == s@[i as int]);
                i = i + 1;
            }
            proof {
                if i < s.len() {
                    assert(rest[i - start] == s@[i as int]);
                }
                assert(i - start == word_len(rest));
                assert(rest.take(word_len(rest) as int) =~= s@.subrange(start as int, i as int));
                assert(rest.skip(word_len(rest) as int) =~= s@.skip(i as int));
            }
            r.push(part(s, start, i));
            proof {
                let word = s@.subrange(start as int, i as int);
                assert(texts(r@) =~= before.push(word));
                assert(before + (seq![word] + words(s@.skip(i as int))) =~= texts(r@) + words(
                    s@.skip(i as int),
                ));
            }
        }
    }
    assert(s@.skip(i as int) =~= Seq::<char>::empty());
    assert(texts(r@) + words(s@.skip(i as int)) =~= texts(r@));
    r
}

/// A text without the white space around it.
pub fn trimmed(s: &[char]) -> (r: Vec<char>)
    ensures
        r@ == trim(s@),
{
    let mut from: usize = 0;
    assert(s@.skip(0) =~= s@);
    while from < s.len() && space(s[from])
        invariant
            from <= s@.len(),
            trim_start(s@) == trim_start(s@.skip(from as int)),
        decreases s.len() - from,
    {
        assert(s@.skip(from as int).skip(1) =~= s@.skip(from + 1));
        from = from + 1;
    }
    let mut to: usize = s.len();
    assert(s@.subrange(from as int, to as int) =~= s@.skip(from as int));
    while to > from && space(s[to - 1])
        invariant
            from <= to <= s@.len(),
            trim_start(s@) == s@.skip(from as int),
            trim(s@) == trim_end(s@.subrange(from as int, to as int)),
        decreases to,
    {
        assert(s@.subrange(from as int, to as int).drop_last() =~= s@.subrange(
            from as int,
            to - 1,
        ));
        to = to - 1;
    }
    part(s, from, to)
}

/// True where two texts are equal.
pub fn same(a: &[char], b: &[char]) -> (r: bool)
    ensures
        r == (a@ == b@),
{
    if a.len() != b.len() {
        return false;
    }
    let mut i: usize = 0;
    while i < a.len()
        invariant
            i <= a@.len(),
            a@.len() == b@.len(),
            forall|j: int| 0 <= j < i ==> a@[j] == b@[j],
        decreases a.len() - i,
    {
        if a[i] != b[i] {
            return false;
        }
        i = i + 1;
    }
    assert(a@ =~= b@);
    true
}

/// True where two strings are equal.
pub fn same_str(a: &str, b: &str) -> (r: bool)
    ensures
        r == (a@ == b@),
{
    same(chars_of(a).as_slice(), chars_of(b).as_slice())
}

/// True where a text starts with another.
pub fn begins_with(s: &[char], prefix: &[char]) -> (r: bool)
    ensures
        r == starts_with(s@, prefix@),
{
    if prefix.len() > s.len() {
        return false;
    }
    same(vstd::slice::slice_subrange(s, 0, prefix.len()), prefix)
}

/// True where a text holds another.
pub fn has_part(s: &[char], wanted: &[char]) -> (r: bool)
    ensures
        r == contains(s@, wanted@),
{
    if wanted.len() > s.len() {
        return false;
    }
    let room: usize = s.len();
    let width: usize = wanted.len();
    let mut i: usize = 0;
    while i < room - width
        invariant
            width == wanted@.len(),
            room == s@.len(),
            i + width <= room,
            forall|j: int| 0 <= j < i ==> !holds_at(s@, wanted@, j),
        decreases room - i,
    {
        if same(vstd::slice::slice_subrange(s, i, i + width), wanted) {
            assert(holds_at(s@, wanted@, i as int));
            return true;
        }
        i = i + 1;
    }
    let r = same(vstd::slice::slice_subrange(s, i, i + width), wanted);
    assert(r == holds_at(s@, wanted@, i as int));
    r
}

/// Reads digits as a number up to `max`.
fn digits(s: &[char], max: u64) -> (r: Option<u64>)
    ensures
        match r {
            Some(n) => s@.len() > 0 && all_digits(s@) && n == digits_value(s@) && n <= max,
            None => !(s@.len() > 0 && all_digits(s@) && digits_value(s@) <= max),
        },
{
    if s.len() == 0 {
        return None;
    }
    let mut n: u64 = 0;
    let mut i: usize = 0;
    assert(s@.take(0) =~= Seq::<char>::empty());
    while i < s.len()
        invariant
            i <= s@.len(),
            all_digits(s@.take(i as int)),
            n == digits_value(s@.take(i as int)),
        decreases s.len() - i,
    {
        let c = s[i];
        if c < '0' || c > '9' {
            assert(!is_digit(s@[i as int]));
            return None;
        }
        proof {
            assert(s@.take(i + 1).drop_last() =~= s@.take(i as int));
            if all_digits(s@) {
                lemma_digits_prefix(s@, i + 1);
            }
        }
        let d: u64 = (c as u32 - 48) as u64;
        n = match n.checked_mul(10) {
            Some(t) => match t.checked_add(d) {
                Some(u) => u,
                None => return None,
            },
            None => return None,
        };
        i = i + 1;
    }
    assert(s@.take(i as int) =~= s@);
    if n > max {
        None
    } else {
        Some(n)
    }
}

/// Reads an unsigned number up to `max`.
pub fn parse_unsigned(s: &[char], max: u64) -> (r: Option<u64>)
    ensures
        match r {
            Some(n) => unsigned(s@, max as nat) == Some(n as nat),
            None => unsigned(s@, max as nat) is None,
        },
{
    if s.len() > 0 && s[0] == '+' {
        assert(s@.subrange(1, s@.len() as int) =~= s@.skip(1));
        digits(vstd::slice::slice_subrange(s, 1, s.len()), max)
    } else {
        digits(s, max)
    }
}

/// Reads a signed number from `min` to `max`.
pub fn parse_signed(s: &[char], min: i64, max: i64) -> (r: Option<i64>)
    requires
        i64::MIN < min <= 0 <= max,
    ensures
        match r {
            Some(n) => signed(s@, min as int, max as int) == Some(n as int),
            None => signed(s@, min as int, max as int) is None,
        },
{
    if s.len() > 0 && s[0] == '-' {
        assert(s@.subrange(1, s@.len() as int) =~= s@.skip(1));
        match digits(vstd::slice::slice_subrange(s, 1, s.len()), (-min) as u64) {
            Some(n) => Some(-(n as i64)),
            None => None,
        }
    } else if s.len() > 0 && s[0] == '+' {
        assert(s@.subrange(1, s@.len() as int) =~= s@.skip(1));
        match digits(vstd::slice::slice_subrange(s, 1, s.len()), max as u64) {
            Some(n) => Some(n as i64),
            None => None,
        }
    } else {
        match digits(s, max as u64) {
            Some(n) => Some(n as i64),
            None => None,
        }
    }
}

/// ASCII bytes as characters.
pub open spec fn ascii(b: Seq<u8>) -> Seq<char> {
    Seq::new(b.len(), |i: int| b[i] as char)
}

/// A number in decimal.
pub open spec fn number(n: nat) -> Seq<char> {
    ascii(crate::bytes::decimal(n))
}

/// A string of ASCII bytes.
pub fn ascii_string(b: &[u8]) -> (r: String)
    requires
        forall|i: int| 0 <= i < b@.len() ==> #[trigger] b@[i] < 128,
    ensures
        r@ == ascii(b@),
{
    proof {
        let chars = ascii(b@);
        assert(vstd::utf8::is_ascii_chars(chars)) by {
            assert forall|i: int| 0 <= i < chars.len() implies '\0' <= #[trigger] chars[i]
                <= '\u{7f}' by {
                assert(b@[i] < 128);
            }
        }
        vstd::utf8::is_ascii_chars_encode_utf8(chars);
        assert(vstd::utf8::encode_utf8(chars) =~= b@) by {
            assert forall|i: int| 0 <= i < b@.len() implies vstd::utf8::encode_utf8(chars)[i]
                == b@[i] by {
                assert(b@[i] < 128);
                assert(chars[i] as u8 == vstd::utf8::encode_utf8(chars)[i]);
            }
        }
        vstd::utf8::encode_utf8_valid_utf8(chars);
        vstd::utf8::encode_utf8_decode_utf8(chars);
    }
    match crate::bytes::utf8_text(b) {
        Some(s) => {
            proof {
                vstd::utf8::encode_utf8_decode_utf8(s@);
            }
            s.to_owned()
        },
        None => String::new(),
    }
}

/// A number as a string.
pub fn number_string(n: u64) -> (r: String)
    ensures
        r@ == number(n as nat),
{
    let d = crate::bytes::decimal_digits(n);
    proof {
        crate::bytes::lemma_decimal_roundtrip(n as nat);
        assert forall|i: int| 0 <= i < d@.len() implies #[trigger] d@[i] < 128 by {
            assert(crate::bytes::is_digit(d@[i]));
        }
    }
    ascii_string(d.as_slice())
}

/// The sixteen hexadecimal digits of a number, from the most significant on.
pub open spec fn hex16(n: u64) -> Seq<char> {
    hex(n as nat, 16)
}

/// The last `width` hexadecimal digits of a number.
pub open spec fn hex(n: nat, width: nat) -> Seq<char>
    decreases width,
{
    if width == 0 {
        Seq::empty()
    } else {
        hex(n / 16, (width - 1) as nat).push(hex_digit(n % 16))
    }
}

/// A hexadecimal digit.
pub open spec fn hex_digit(d: nat) -> char {
    if d < 10 {
        (48 + d) as char
    } else {
        (87 + d) as char
    }
}

/// The value of a hexadecimal digit of either case.
pub open spec fn hex_digit_value(c: char) -> Option<nat> {
    if '0' <= c <= '9' {
        Some((c as u32 - 48) as nat)
    } else if 'a' <= c <= 'f' {
        Some((c as u32 - 87) as nat)
    } else if 'A' <= c <= 'F' {
        Some((c as u32 - 55) as nat)
    } else {
        None
    }
}

/// The number that hexadecimal digits denote.
pub open spec fn hex_value(s: Seq<char>) -> Option<nat>
    decreases s.len(),
{
    if s.len() == 0 {
        Some(0)
    } else {
        match (hex_value(s.drop_last()), hex_digit_value(s.last())) {
            (Some(high), Some(low)) => Some(high * 16 + low),
            _ => None,
        }
    }
}

/// The number that a text denotes in base sixteen: digits, after a plus sign if there is one.
pub open spec fn hex_number(s: Seq<char>) -> Option<nat> {
    let digits = if s.len() > 0 && s[0] == '+' {
        s.skip(1)
    } else {
        s
    };
    if digits.len() > 0 {
        hex_value(digits)
    } else {
        None
    }
}

/// Sixteen to the power of `k`.
pub open spec fn pow16(k: nat) -> nat
    decreases k,
{
    if k == 0 {
        1
    } else {
        16 * pow16((k - 1) as nat)
    }
}

/// As many digits as there are bound a number.
pub proof fn lemma_hex_value_bound(s: Seq<char>)
    ensures
        hex_value(s) matches Some(n) ==> n < pow16(s.len()),
    decreases s.len(),
{
    if s.len() > 0 {
        lemma_hex_value_bound(s.drop_last());
    }
}

/// Sixteen digits denote a `u64`.
pub proof fn lemma_pow16()
    ensures
        pow16(16) == 0x1_0000_0000_0000_0000,
{
    reveal_with_fuel(pow16, 17);
}

/// Fewer digits denote smaller numbers.
pub proof fn lemma_pow16_grows(a: nat, b: nat)
    requires
        a <= b,
    ensures
        pow16(a) <= pow16(b),
    decreases b,
{
    if a < b {
        lemma_pow16_grows(a, (b - 1) as nat);
    }
}

/// A number written in hexadecimal and read back is the number.
pub proof fn lemma_hex_roundtrip(n: nat, width: nat)
    requires
        n < pow16(width),
    ensures
        hex(n, width).len() == width,
        hex_value(hex(n, width)) == Some(n),
        forall|i: int|
            0 <= i < width ==> hex_digit_value(#[trigger] hex(n, width)[i]) is Some,
    decreases width,
{
    if width > 0 {
        let high = hex(n / 16, (width - 1) as nat);
        lemma_hex_roundtrip(n / 16, (width - 1) as nat);
        assert(hex(n, width).drop_last() =~= high);
        assert(hex_digit_value(hex_digit(n % 16)) == Some(n % 16));
        assert forall|i: int| 0 <= i < width implies hex_digit_value(
            #[trigger] hex(n, width)[i],
        ) is Some by {
            if i < width - 1 {
                assert(hex(n, width)[i] == high[i]);
            }
        }
    }
}

/// Reads a number of at most sixteen hexadecimal digits.
pub fn parse_hex(s: &[char]) -> (r: Option<u64>)
    requires
        s@.len() <= 16,
    ensures
        match r {
            Some(n) => hex_number(s@) == Some(n as nat),
            None => hex_number(s@) is None,
        },
{
    let start: usize = if s.len() > 0 && s[0] == '+' {
        1
    } else {
        0
    };
    if start == s.len() {
        return None;
    }
    let ghost digits = s@.skip(start as int);
    let mut n: u64 = 0;
    let mut i: usize = start;
    assert(s@.skip(0) =~= s@);
    assert(digits.take(0) =~= Seq::<char>::empty());
    assert(hex_number(s@) == hex_value(digits));
    while i < s.len()
        invariant
            s@.len() <= 16,
            hex_number(s@) == hex_value(digits),
            start <= 1,
            start <= i <= s@.len(),
            digits == s@.skip(start as int),
            hex_value(digits.take(i - start)) == Some(n as nat),
        decreases s.len() - i,
    {
        let c = s[i];
        let ghost so_far = digits.take(i - start);
        let d: u64 = if '0' <= c && c <= '9' {
            (c as u32 - 48) as u64
        } else if 'a' <= c && c <= 'f' {
            (c as u32 - 87) as u64
        } else if 'A' <= c && c <= 'F' {
            (c as u32 - 55) as u64
        } else {
            proof {
                assert(digits[i - start] == c);
                lemma_hex_bad_digit(digits, i - start);
            }
            return None;
        };
        proof {
            assert(digits.take(i - start + 1).drop_last() =~= so_far);
            assert(digits.take(i - start + 1).last() == c);
            lemma_hex_value_bound(so_far);
            lemma_pow16();
            lemma_pow16_grows(so_far.len(), 15);
            assert(pow16(16) == 16 * pow16(15));
        }
        n = n * 16 + d;
        i = i + 1;
    }
    assert(digits.take(i - start) =~= digits);
    Some(n)
}

/// What holds a character that is no digit denotes no number.
proof fn lemma_hex_bad_digit(s: Seq<char>, i: int)
    requires
        0 <= i < s.len(),
        hex_digit_value(s[i]) is None,
    ensures
        hex_value(s) is None,
    decreases s.len(),
{
    if i < s.len() - 1 {
        lemma_hex_bad_digit(s.drop_last(), i);
    }
}

/// Appends the sixteen hexadecimal digits of a number.
pub fn push_hex16(out: &mut Vec<u8>, n: u64)
    requires
        forall|i: int| 0 <= i < old(out)@.len() ==> #[trigger] old(out)@[i] < 128,
    ensures
        forall|i: int| 0 <= i < final(out)@.len() ==> #[trigger] final(out)@[i] < 128,
        ascii(final(out)@) == ascii(old(out)@) + hex16(n),
{
    let ghost before = out@;
    let mut digits: Vec<u8> = Vec::new();
    let mut v: u64 = n;
    let mut i: usize = 0;
    proof {
        lemma_pow16();
        assert(hex(n as nat, 16) =~= hex(v as nat, 16) + back(digits@));
    }
    while i < 16
        invariant
            i <= 16,
            digits@.len() == i,
            forall|j: int| 0 <= j < i ==> #[trigger] digits@[j] < 128,
            hex(n as nat, 16) == hex(v as nat, (16 - i) as nat) + back(digits@),
        decreases 16 - i,
    {
        let d: u8 = (v % 16) as u8;
        let ghost so_far = digits@;
        let c: u8 = if d < 10 {
            48 + d
        } else {
            87 + d
        };
        digits.push(c);
        proof {
            let w = (16 - i) as nat;
            assert(hex(v as nat, w) == hex((v / 16) as nat, (w - 1) as nat).push(
                hex_digit((v % 16) as nat),
            ));
            assert(back(digits@) =~= seq![c as char] + back(so_far));
            assert(hex(v as nat, w) + back(so_far) =~= hex((v / 16) as nat, (w - 1) as nat)
                + back(digits@));
        }
        v = v / 16;
        i = i + 1;
    }
    assert(hex(v as nat, 0) + back(digits@) =~= back(digits@));
    let mut k: usize = 16;
    assert(ascii(out@) =~= ascii(before) + back(digits@).take(0));
    while k > 0
        invariant
            k <= 16,
            digits@.len() == 16,
            forall|j: int| 0 <= j < 16 ==> #[trigger] digits@[j] < 128,
            forall|j: int| 0 <= j < out@.len() ==> #[trigger] out@[j] < 128,
            ascii(out@) == ascii(before) + back(digits@).take(16 - k),
        decreases k,
    {
        let ghost so_far = out@;
        out.push(digits[k - 1]);
        proof {
            assert(ascii(out@) =~= ascii(so_far).push(digits@[k - 1] as char));
            assert(back(digits@).take(16 - k + 1) =~= back(digits@).take(16 - k).push(
                digits@[k - 1] as char,
            ));
            assert(ascii(out@) =~= ascii(before) + back(digits@).take(16 - k + 1));
        }
        k = k - 1;
    }
    assert(back(digits@).take(16) =~= back(digits@));
}

/// ASCII bytes as characters, last byte first.
spec fn back(b: Seq<u8>) -> Seq<char> {
    Seq::new(b.len(), |i: int| b[b.len() - 1 - i] as char)
}

/// A text without the separator is its only part; the parts of a longer one are what stands before
/// the first separator and the parts of what stands behind it.
pub proof fn law_parts_stand_between_separators(a: Seq<char>, b: Seq<char>, separator: char)
    requires
        !a.contains(separator),
    ensures
        split(a, separator) == seq![a],
        split(a + seq![separator] + b, separator) == seq![a] + split(b, separator),
{
    lemma_position(a, separator);
    if let Some(i) = position(a, separator) {
        assert(a.contains(a[i]));
    }
    let s = a + seq![separator] + b;
    assert forall|j: int| 0 <= j < a.len() implies s[j] != separator by {
        assert(a.contains(a[j]));
        assert(s[j] == a[j]);
    }
    assert(s[a.len() as int] == separator);
    lemma_position_is(s, separator, a.len() as int);
    assert(s.take(a.len() as int) =~= a);
    assert(s.skip(a.len() as int + 1) =~= b);
}

/// A line ends with a line feed, before which a carriage return may stand; the last one may also end
/// with the text.
pub proof fn law_lines_end_with_line_feeds(a: Seq<char>, b: Seq<char>)
    requires
        !a.contains('\n'),
    ensures
        lines(Seq::empty()) == Seq::<Seq<char>>::empty(),
        a.len() > 0 ==> lines(a) == seq![a],
        a.len() == 0 || a.last() != '\r' ==> lines(a + seq!['\n'] + b) == seq![a] + lines(b),
        lines(a + seq!['\r', '\n'] + b) == seq![a] + lines(b),
{
    lemma_position(a, '\n');
    if let Some(i) = position(a, '\n') {
        assert(a.contains(a[i]));
    }
    let s = a + seq!['\n'] + b;
    assert forall|j: int| 0 <= j < a.len() implies s[j] != '\n' by {
        assert(a.contains(a[j]));
        assert(s[j] == a[j]);
    }
    assert(s[a.len() as int] == '\n');
    lemma_position_is(s, '\n', a.len() as int);
    assert(s.take(a.len() as int) =~= a);
    assert(s.skip(a.len() as int + 1) =~= b);
    let t = a + seq!['\r', '\n'] + b;
    assert forall|j: int| 0 <= j < a.len() + 1 implies t[j] != '\n' by {
        if j < a.len() {
            assert(a.contains(a[j]));
            assert(t[j] == a[j]);
        } else {
            assert(t[j] == '\r');
        }
    }
    assert(t[a.len() as int + 1] == '\n');
    lemma_position_is(t, '\n', a.len() as int + 1);
    assert(t.take(a.len() as int + 1) =~= a.push('\r'));
    assert(a.push('\r').drop_last() =~= a);
    assert(t.skip(a.len() as int + 2) =~= b);
}

/// True of a text without white space.
pub open spec fn no_space(s: Seq<char>) -> bool {
    forall|i: int| 0 <= i < s.len() ==> !is_space(#[trigger] s[i])
}

/// True of white space.
pub open spec fn only_space(s: Seq<char>) -> bool {
    forall|i: int| 0 <= i < s.len() ==> is_space(#[trigger] s[i])
}

/// White space before a word is passed over, and a word goes on to the next white space or to the end
/// of the text.
pub proof fn law_words_stand_between_white_space(gap: Seq<char>, word: Seq<char>, rest: Seq<char>)
    requires
        only_space(gap),
        no_space(word),
        word.len() > 0,
        rest.len() == 0 || is_space(rest[0]),
    ensures
        words(gap) == Seq::<Seq<char>>::empty(),
        words(gap + word + rest) == seq![word] + words(rest),
    decreases gap.len(),
{
    if gap.len() > 0 {
        assert(is_space(gap[0]));
        assert forall|i: int| 0 <= i < gap.skip(1).len() implies is_space(
            #[trigger] gap.skip(1)[i],
        ) by {
            assert(is_space(gap[i + 1]));
        }
        law_words_stand_between_white_space(gap.skip(1), word, rest);
        assert((gap + word + rest).skip(1) =~= gap.skip(1) + word + rest);
    } else {
        let s = gap + word + rest;
        assert(s =~= word + rest);
        lemma_word_len_is(word, rest);
        assert(s[0] == word[0]);
        assert(!is_space(word[0]));
        assert(s.take(word.len() as int) =~= word);
        assert(s.skip(word.len() as int) =~= rest);
    }
}

proof fn lemma_word_len_is(word: Seq<char>, rest: Seq<char>)
    requires
        no_space(word),
        rest.len() == 0 || is_space(rest[0]),
    ensures
        word_len(word + rest) == word.len(),
    decreases word.len(),
{
    let s = word + rest;
    if word.len() > 0 {
        assert(!is_space(word[0]));
        assert(s[0] == word[0]);
        assert forall|i: int| 0 <= i < word.skip(1).len() implies !is_space(
            #[trigger] word.skip(1)[i],
        ) by {
            assert(!is_space(word[i + 1]));
        }
        lemma_word_len_is(word.skip(1), rest);
        assert(s.skip(1) =~= word.skip(1) + rest);
    } else {
        assert(s =~= rest);
    }
}

/// White space around a text is cut off, and nothing else.
pub proof fn law_white_space_is_cut_off(before: Seq<char>, s: Seq<char>, after: Seq<char>)
    requires
        only_space(before),
        only_space(after),
        s.len() > 0,
        !is_space(s[0]),
        !is_space(s.last()),
    ensures
        trim(before + s + after) == s,
        trim(before) == Seq::<char>::empty(),
{
    lemma_start_is_cut_off(before, s + after);
    assert(before + (s + after) =~= before + s + after);
    assert((s + after)[0] == s[0]);
    lemma_end_is_cut_off(s, after);
    lemma_start_is_cut_off(before, Seq::empty());
    assert(before + Seq::<char>::empty() =~= before);
}

proof fn lemma_start_is_cut_off(before: Seq<char>, s: Seq<char>)
    requires
        only_space(before),
        s.len() == 0 || !is_space(s[0]),
    ensures
        trim_start(before + s) == s,
    decreases before.len(),
{
    if before.len() > 0 {
        assert(is_space(before[0]));
        assert forall|i: int| 0 <= i < before.skip(1).len() implies is_space(
            #[trigger] before.skip(1)[i],
        ) by {
            assert(is_space(before[i + 1]));
        }
        assert((before + s)[0] == before[0]);
        assert((before + s).skip(1) =~= before.skip(1) + s);
        lemma_start_is_cut_off(before.skip(1), s);
    } else {
        assert(before + s =~= s);
    }
}

proof fn lemma_end_is_cut_off(s: Seq<char>, after: Seq<char>)
    requires
        only_space(after),
        s.len() > 0,
        !is_space(s.last()),
    ensures
        trim_end(s + after) == s,
    decreases after.len(),
{
    if after.len() > 0 {
        assert(is_space(after.last()));
        assert forall|i: int| 0 <= i < after.drop_last().len() implies is_space(
            #[trigger] after.drop_last()[i],
        ) by {
            assert(is_space(after[i]));
        }
        assert((s + after).last() == after.last());
        assert((s + after).drop_last() =~= s + after.drop_last());
        lemma_end_is_cut_off(s, after.drop_last());
    } else {
        assert(s + after =~= s);
    }
}

/// White space is the tabulators, the line ends and the spaces; no letter, digit or mark of ASCII is.
pub proof fn law_white_space(c: char)
    ensures
        is_space(' ') && is_space('\t') && is_space('\n') && is_space('\r'),
        is_space('\u{b}') && is_space('\u{c}') && is_space('\u{85}') && is_space('\u{a0}'),
        is_space('\u{1680}') && is_space('\u{2028}') && is_space('\u{2029}'),
        is_space('\u{202f}') && is_space('\u{205f}') && is_space('\u{3000}'),
        '\u{2000}' <= c <= '\u{200a}' ==> is_space(c),
        '!' <= c <= '~' ==> !is_space(c),
        c < '\t' ==> !is_space(c),
{
}

/// A digit counts ten to the power of the number of digits behind it.
pub proof fn law_digits_count_by_their_places(s: Seq<char>)
    requires
        all_digits(s),
    ensures
        digits_value(s) == crate::tally::sum(
            s.len(),
            |i: int|
                (s[i] as u32 - '0' as u32) * vstd::arithmetic::power::pow(
                    10,
                    (s.len() - 1 - i) as nat,
                ),
        ),
{
    let b = Seq::new(s.len(), |i: int| s[i] as u8);
    assert forall|i: int| 0 <= i < b.len() implies crate::bytes::is_digit(#[trigger] b[i])
        && b[i] == s[i] as u32 by {
        assert(is_digit(s[i]));
    }
    lemma_digits_as_bytes(s, b);
    crate::bytes::law_decimal_number(b);
    crate::tally::lemma_sum_same(
        s.len(),
        |i: int| (b[i] - 48) * vstd::arithmetic::power::pow(10, (b.len() - 1 - i) as nat),
        |i: int|
            (s[i] as u32 - '0' as u32) * vstd::arithmetic::power::pow(
                10,
                (s.len() - 1 - i) as nat,
            ),
    );
}

proof fn lemma_digits_as_bytes(s: Seq<char>, b: Seq<u8>)
    requires
        b.len() == s.len(),
        forall|i: int| 0 <= i < b.len() ==> #[trigger] b[i] == s[i] as u32,
        forall|i: int| 0 <= i < b.len() ==> crate::bytes::is_digit(#[trigger] b[i]),
    ensures
        digits_value(s) == crate::bytes::decimal_value(b),
    decreases s.len(),
{
    if s.len() > 0 {
        lemma_digits_as_bytes(s.drop_last(), b.drop_last());
        assert(crate::bytes::is_digit(b[b.len() - 1]));
        assert(b.last() == s.last() as u32);
    }
}

/// A number that is written in decimal reads back, with a plus sign before it or without, where it is
/// no more than the largest one allowed.
pub proof fn law_number_reads_back(n: nat, max: nat)
    ensures
        unsigned(number(n), max) == if n <= max {
            Some(n)
        } else {
            None
        },
        unsigned(seq!['+'] + number(n), max) == if n <= max {
            Some(n)
        } else {
            None
        },
{
    lemma_number_digits(n);
    let d = number(n);
    assert(is_digit(d[0]));
    let s = seq!['+'] + d;
    assert(s[0] == '+');
    assert(s.skip(1) =~= d);
}

/// A number is written in digits that denote it.
pub proof fn lemma_number_digits(n: nat)
    ensures
        number(n).len() > 0,
        all_digits(number(n)),
        digits_value(number(n)) == n,
{
    crate::bytes::law_decimal_denotes_its_number(n);
    let b = crate::bytes::decimal(n);
    let d = number(n);
    assert forall|i: int| 0 <= i < d.len() implies is_digit(#[trigger] d[i]) && b[i]
        == d[i] as u32 by {
        assert(crate::bytes::is_digit(b[i]));
    }
    lemma_digits_as_bytes(d, b);
}

/// A signed number reads back, a minus sign before it where it is negative, if it lies in the range.
pub proof fn law_signed_number_reads_back(n: nat, min: int, max: int)
    ensures
        signed(number(n), min, max) == if min <= n <= max {
            Some(n as int)
        } else {
            None
        },
        signed(seq!['+'] + number(n), min, max) == if min <= n <= max {
            Some(n as int)
        } else {
            None
        },
        signed(seq!['-'] + number(n), min, max) == if min <= -n <= max {
            Some(-n)
        } else {
            None
        },
{
    lemma_number_digits(n);
    let d = number(n);
    assert(is_digit(d[0]));
    assert((seq!['+'] + d).skip(1) =~= d);
    assert((seq!['-'] + d).skip(1) =~= d);
}

/// A text with anything but digits behind its sign is no number, nor is a sign alone.
pub proof fn law_only_digits_make_numbers(s: Seq<char>, max: nat, low: int, high: int, i: int)
    requires
        0 < i < s.len(),
        !('0' <= s[i] <= '9'),
    ensures
        unsigned(s, max) is None,
        signed(s, low, high) is None,
        unsigned(Seq::empty(), max) is None,
        unsigned(seq!['+'], max) is None,
        unsigned(seq!['-'], max) is None,
        signed(Seq::empty(), low, high) is None,
        signed(seq!['+'], low, high) is None,
        signed(seq!['-'], low, high) is None,
{
    assert(!is_digit(s[i]));
    assert(s.skip(1)[i - 1] == s[i]);
    assert(!is_digit(seq!['-'][0]));
}

/// Hexadecimal digits are read in either case and written in lower case.
pub proof fn law_hexadecimal_digits(d: nat)
    requires
        d < 16,
    ensures
        hex_digit_value(hex_digit(d)) == Some(d),
        hex_digit(0) == '0' && hex_digit(9) == '9' && hex_digit(10) == 'a' && hex_digit(15)
            == 'f',
        hex_digit_value('A') == Some(10nat) && hex_digit_value('F') == Some(15nat),
        hex_digit_value('a') == Some(10nat) && hex_digit_value('f') == Some(15nat),
        hex_digit_value('g') is None && hex_digit_value('G') is None,
        hex_digit_value('/') is None && hex_digit_value(':') is None,
        hex_digit_value('@') is None && hex_digit_value('`') is None,
{
}

/// A digit behind a hexadecimal number makes it sixteen times as large and adds the digit.
pub proof fn law_hexadecimal_places(s: Seq<char>, t: Seq<char>)
    requires
        hex_value(s) is Some,
        hex_value(t) is Some,
    ensures
        hex_value(s + t) == Some((hex_value(s)->0 * pow16(t.len()) + hex_value(t)->0) as nat),
        pow16(t.len()) == vstd::arithmetic::power::pow(16, t.len()),
    decreases t.len(),
{
    reveal(vstd::arithmetic::power::pow);
    if t.len() == 0 {
        assert(s + t =~= s);
    } else {
        let u = t.drop_last();
        law_hexadecimal_places(s, u);
        assert((s + t).drop_last() =~= s + u);
        assert((s + t).last() == t.last());
        let (a, p, b, d) = (
            hex_value(s)->0 as int,
            pow16(u.len()) as int,
            hex_value(u)->0 as int,
            hex_digit_value(t.last())->0 as int,
        );
        assert((a * p + b) * 16 + d == a * (16 * p) + (b * 16 + d)) by (nonlinear_arith);
    }
}

} // verus!
