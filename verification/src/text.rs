//! Text as sequences of characters: the few operations that reading a
//! program needs, each with the mathematical function that it computes.

use vstd::prelude::*;

verus! {

/// Whether `c` is white space: a character with the Unicode property
/// `White_Space`.
pub open spec fn is_space(c: char) -> bool {
    let n = c as u32;
    (9 <= n <= 13) || n == 0x20 || n == 0x85 || n == 0xA0 || n == 0x1680 || (0x2000 <= n <= 0x200A)
        || n == 0x2028 || n == 0x2029 || n == 0x202F || n == 0x205F || n == 0x3000
}

/// The index of the first element of `s` that satisfies `p`, or the length
/// of `s` where none does.
pub open spec fn first(s: Seq<char>, p: spec_fn(char) -> bool) -> int
    decreases s.len(),
{
    if s.len() == 0 || p(s[0]) {
        0
    } else {
        1 + first(s.skip(1), p)
    }
}

/// The property of being the character `c`.
pub open spec fn being(c: char) -> spec_fn(char) -> bool {
    |x: char| x == c
}

/// The property of being white space.
pub open spec fn being_space() -> spec_fn(char) -> bool {
    |x: char| is_space(x)
}

/// The index of the first `c` in `s`, or the length of `s` where `s` holds
/// none.
pub open spec fn position(s: Seq<char>, c: char) -> int {
    first(s, being(c))
}

/// The pieces of `s` between the occurrences of `separator`; one piece more
/// than there are occurrences.
pub open spec fn split(s: Seq<char>, separator: char) -> Seq<Seq<char>>
    decreases s.len(),
{
    let i = position(s, separator);
    if 0 <= i < s.len() {
        seq![s.take(i)] + split(s.skip(i + 1), separator)
    } else {
        seq![s]
    }
}

/// `s` without the white space it begins with.
pub open spec fn trim_start(s: Seq<char>) -> Seq<char>
    decreases s.len(),
{
    if s.len() > 0 && is_space(s[0]) {
        trim_start(s.skip(1))
    } else {
        s
    }
}

/// `s` without the white space it ends with.
pub open spec fn trim_end(s: Seq<char>) -> Seq<char>
    decreases s.len(),
{
    if s.len() > 0 && is_space(s.last()) {
        trim_end(s.drop_last())
    } else {
        s
    }
}

/// `s` without the white space around it.
pub open spec fn trim(s: Seq<char>) -> Seq<char> {
    trim_end(trim_start(s))
}

/// `c` in lower case where it is one of the letters `A` to `Z`, else `c`.
pub open spec fn lower(c: char) -> char {
    if 'A' <= c <= 'Z' {
        ((c as u8) + 32) as char
    } else {
        c
    }
}

/// `s` with each of the letters `A` to `Z` in lower case.
pub open spec fn lowercase(s: Seq<char>) -> Seq<char> {
    Seq::new(s.len(), |i: int| lower(s[i]))
}

/// Whether `c` is one of the digits `0` to `9`.
pub open spec fn is_digit(c: char) -> bool {
    '0' <= c <= '9'
}

/// The number that the decimal digits `s` write.
pub open spec fn number(s: Seq<char>) -> int
    decreases s.len(),
{
    if s.len() == 0 {
        0
    } else {
        number(s.drop_last()) * 10 + (s.last() as u32 - '0' as u32)
    }
}

/// Whether `s` is one decimal digit or more.
pub open spec fn is_number(s: Seq<char>) -> bool {
    s.len() > 0 && forall|i: int| 0 <= i < s.len() ==> is_digit(#[trigger] s[i])
}

/// The signed 32-bit number that `s` writes in base ten: digits, with `-` or
/// `+` before them or neither. Nothing where `s` is not of that form or the
/// number does not fit.
pub open spec fn integer(s: Seq<char>) -> Option<i32> {
    let signed = s.len() > 0 && (s[0] == '-' || s[0] == '+');
    let digits = if signed {
        s.skip(1)
    } else {
        s
    };
    let value = if signed && s[0] == '-' {
        -number(digits)
    } else {
        number(digits)
    };
    if is_number(digits) && i32::MIN <= value <= i32::MAX {
        Some(value as i32)
    } else {
        None
    }
}

/// The texts that the vectors of `pieces` hold.
pub open spec fn texts(pieces: Seq<Vec<char>>) -> Seq<Seq<char>> {
    Seq::new(pieces.len(), |i: int| pieces[i]@)
}

/// The index that [`first`] names is the one before which nothing satisfies
/// `p` and at which something does, or the sequence ends.
pub proof fn lemma_first(s: Seq<char>, p: spec_fn(char) -> bool, i: int)
    requires
        0 <= i <= s.len(),
        forall|j: int| 0 <= j < i ==> !p(#[trigger] s[j]),
        i < s.len() ==> p(s[i]),
    ensures
        first(s, p) == i,
    decreases i,
{
    if i > 0 {
        assert(!p(s[0]));
        assert forall|j: int| 0 <= j < i - 1 implies !p(#[trigger] s.skip(1)[j]) by {
            assert(s.skip(1)[j] == s[j + 1]);
        }
        lemma_first(s.skip(1), p, i - 1);
    }
}

/// The digits written so far never write more than the whole number.
pub proof fn lemma_number_grows(s: Seq<char>, i: int)
    requires
        0 <= i <= s.len(),
        forall|j: int| 0 <= j < s.len() ==> is_digit(#[trigger] s[j]),
    ensures
        0 <= number(s.take(i)) <= number(s),
    decreases s.len() - i,
{
    if i == s.len() {
        assert(s.take(i) =~= s);
        lemma_number_positive(s);
    } else {
        lemma_number_grows(s, i + 1);
        assert(s.take(i + 1).drop_last() =~= s.take(i));
        assert(s.take(i + 1).last() == s[i]);
        assert(is_digit(s[i]));
        lemma_number_positive(s.take(i));
    }
}

proof fn lemma_number_positive(s: Seq<char>)
    requires
        forall|j: int| 0 <= j < s.len() ==> is_digit(#[trigger] s[j]),
    ensures
        0 <= number(s),
    decreases s.len(),
{
    if s.len() > 0 {
        assert(is_digit(s.last()));
        lemma_number_positive(s.drop_last());
    }
}

/// Whether `c` is white space.
pub fn space(c: char) -> (b: bool)
    ensures
        b == is_space(c),
{
    let n: u32 = c as u32;
    (9 <= n && n <= 13) || n == 0x20 || n == 0x85 || n == 0xA0 || n == 0x1680 || (0x2000 <= n && n
        <= 0x200A) || n == 0x2028 || n == 0x2029 || n == 0x202F || n == 0x205F || n == 0x3000
}

/// The characters of `s`.
pub fn chars_of(s: &str) -> (chars: Vec<char>)
    ensures
        chars@ == s@,
{
    let mut chars: Vec<char> = Vec::new();
    for c in it: s.chars()
        invariant
            it.seq() == s@,
            chars@ == it.seq().take(it.index() as int),
    {
        chars.push(c);
        assert(chars@ =~= it.seq().take(it.index() + 1));
    }
    assert(s@.take(s@.len() as int) =~= s@);
    chars
}

/// `String::from_iter` over the characters of `chars`: the string that
/// holds exactly these characters, in this order.
#[verifier::external_body]
pub(crate) fn string_of(chars: &Vec<char>) -> (s: String)
    ensures
        s@ == chars@,
{
    String::from_iter(chars.iter())
}

/// The elements of `s` from index `from` up to, not including, `to`.
pub fn slice(s: &Vec<char>, from: usize, to: usize) -> (piece: Vec<char>)
    requires
        from <= to <= s.len(),
    ensures
        piece@ == s@.subrange(from as int, to as int),
{
    let mut piece: Vec<char> = Vec::new();
    let mut i: usize = from;
    while i < to
        invariant
            from <= i <= to <= s.len(),
            piece@ == s@.subrange(from as int, i as int),
        decreases to - i,
    {
        piece.push(s[i]);
        i = i + 1;
        assert(piece@ =~= s@.subrange(from as int, i as int));
    }
    piece
}

/// Computes [`position`].
pub fn find(s: &Vec<char>, c: char) -> (i: usize)
    ensures
        i == position(s@, c),
        i <= s.len(),
        i < s.len() ==> s[i as int] == c,
{
    assert(s@.skip(0) =~= s@);
    find_from(s, 0, c)
}

/// The index of the first white space in `s`, or the length of `s` where it
/// holds none.
pub fn find_space(s: &Vec<char>) -> (i: usize)
    ensures
        i == first(s@, being_space()),
        i <= s.len(),
{
    let mut i: usize = 0;
    while i < s.len() && !space(s[i])
        invariant
            i <= s.len(),
            forall|j: int| 0 <= j < i ==> !is_space(s[j]),
        decreases s.len() - i,
    {
        i = i + 1;
    }
    proof {
        lemma_first(s@, being_space(), i as int);
    }
    i
}

/// The index of the first `c` in `s` at `from` or after it, or the length
/// of `s` where there is none.
pub fn find_from(s: &Vec<char>, from: usize, c: char) -> (i: usize)
    requires
        from <= s.len(),
    ensures
        i == from + position(s@.skip(from as int), c),
        from <= i <= s.len(),
        i < s.len() ==> s[i as int] == c,
{
    let mut i: usize = from;
    while i < s.len() && s[i] != c
        invariant
            from <= i <= s.len(),
            forall|j: int| from <= j < i ==> s[j] != c,
        decreases s.len() - i,
    {
        i = i + 1;
    }
    proof {
        lemma_first(s@.skip(from as int), being(c), i - from);
    }
    i
}

/// Computes [`split`].
pub fn split_at(s: &Vec<char>, separator: char) -> (pieces: Vec<Vec<char>>)
    ensures
        texts(pieces@) == split(s@, separator),
        pieces.len() >= 1,
{
    let mut pieces: Vec<Vec<char>> = Vec::new();
    let mut start: usize = 0;
    assert(s@.skip(0) =~= s@);
    assert(texts(pieces@) =~= Seq::<Seq<char>>::empty());
    loop
        invariant
            start <= s.len(),
            texts(pieces@) + split(s@.skip(start as int), separator) == split(s@, separator),
        decreases s.len() - start,
    {
        let ghost rest = s@.skip(start as int);
        let i: usize = find_from(s, start, separator);
        let piece: Vec<char> = slice(s, start, i);
        assert(piece@ =~= rest.take(i - start));
        let ghost before = pieces@;
        pieces.push(piece);
        assert(texts(pieces@) =~= texts(before) + seq![piece@]);
        if i == s.len() {
            assert(rest.take(i - start) =~= rest);
            return pieces;
        }
        assert(rest.skip(i - start + 1) =~= s@.skip(i + 1));
        start = i + 1;
    }
}

/// Computes [`trim`].
pub fn trimmed(s: &Vec<char>) -> (t: Vec<char>)
    ensures
        t@ == trim(s@),
{
    let mut from: usize = 0;
    assert(s@.skip(0) =~= s@);
    while from < s.len() && space(s[from])
        invariant
            from <= s.len(),
            trim_start(s@) == trim_start(s@.skip(from as int)),
        decreases s.len() - from,
    {
        assert(s@.skip(from as int).skip(1) =~= s@.skip(from + 1));
        from = from + 1;
    }
    let mut to: usize = s.len();
    assert(s@.subrange(from as int, to as int) =~= s@.skip(from as int));
    while to > from && space(s[to - 1])
        invariant
            from <= to <= s.len(),
            trim(s@) == trim_end(s@.subrange(from as int, to as int)),
        decreases to,
    {
        assert(s@.subrange(from as int, to as int).drop_last() =~= s@.subrange(
            from as int,
            to - 1,
        ));
        to = to - 1;
    }
    slice(s, from, to)
}

/// Computes [`lowercase`].
pub fn lowered(s: &Vec<char>) -> (t: Vec<char>)
    ensures
        t@ == lowercase(s@),
{
    let mut t: Vec<char> = Vec::new();
    let mut i: usize = 0;
    while i < s.len()
        invariant
            i <= s.len(),
            t@ == lowercase(s@.take(i as int)),
        decreases s.len() - i,
    {
        let c: char = s[i];
        let l: char = if 'A' <= c && c <= 'Z' {
            ((c as u8) + 32) as char
        } else {
            c
        };
        t.push(l);
        i = i + 1;
        assert(t@ =~= lowercase(s@.take(i as int)));
    }
    assert(s@.take(s.len() as int) =~= s@);
    t
}

/// Whether `s` is the text of `word`.
pub fn is_word(s: &Vec<char>, word: &str) -> (same: bool)
    ensures
        same == (s@ == word@),
{
    let n: usize = word.unicode_len();
    if s.len() != n {
        return false;
    }
    let mut i: usize = 0;
    while i < n
        invariant
            n == word@.len(),
            n == s.len(),
            i <= n,
            forall|j: int| 0 <= j < i ==> s[j] == word@[j],
        decreases n - i,
    {
        if s[i] != word.get_char(i) {
            return false;
        }
        i = i + 1;
    }
    assert(s@ =~= word@);
    true
}

/// Computes [`integer`].
pub fn parse_integer(s: &Vec<char>) -> (value: Option<i32>)
    ensures
        value == integer(s@),
{
    let signed: bool = s.len() > 0 && (s[0] == '-' || s[0] == '+');
    let negative: bool = signed && s[0] == '-';
    let from: usize = if signed {
        1
    } else {
        0
    };
    let digits: Vec<char> = slice(s, from, s.len());
    assert(digits@ =~= (if signed {
        s@.skip(1)
    } else {
        s@
    }));
    if digits.len() == 0 {
        return None;
    }
    let mut value: i64 = 0;
    let mut i: usize = 0;
    assert(digits@.take(0) =~= Seq::<char>::empty());
    while i < digits.len()
        invariant
            i <= digits.len(),
            signed == (s.len() > 0 && (s[0] == '-' || s[0] == '+')),
            digits@ == (if signed {
                s@.skip(1)
            } else {
                s@
            }),
            forall|j: int| 0 <= j < i ==> is_digit(#[trigger] digits[j]),
            value == number(digits@.take(i as int)),
            0 <= value <= 0x8000_0000,
        decreases digits.len() - i,
    {
        let c: char = digits[i];
        if !('0' <= c && c <= '9') {
            assert(!is_digit(digits@[i as int]));
            return None;
        }
        assert(digits@.take(i + 1).drop_last() =~= digits@.take(i as int));
        assert(digits@.take(i + 1).last() == c);
        value = value * 10 + (c as u32 - '0' as u32) as i64;
        i = i + 1;
        assert(value == number(digits@.take(i as int)));
        if value > 0x8000_0000 {
            proof {
                if is_number(digits@) {
                    lemma_number_grows(digits@, i as int);
                }
            }
            return None;
        }
    }
    assert(digits@.take(digits.len() as int) =~= digits@);
    if negative {
        Some((-value) as i32)
    } else if value <= 0x7fff_ffff {
        Some(value as i32)
    } else {
        None
    }
}

/// The digit that writes `d`, a number below ten.
pub open spec fn digit_of(d: nat) -> char {
    ('0' as u8 + d as u8) as char
}

/// The decimal digits that write `n`, without leading zeros.
pub open spec fn digits_of(n: nat) -> Seq<char>
    decreases n,
{
    if n < 10 {
        seq![digit_of(n)]
    } else {
        digits_of(n / 10).push(digit_of(n % 10))
    }
}

/// `n` written in base ten, with `-` before the digits of a negative number.
pub open spec fn decimal_of(n: int) -> Seq<char> {
    if n < 0 {
        seq!['-'] + digits_of((-n) as nat)
    } else {
        digits_of(n as nat)
    }
}

/// The digits that write a number write that number.
pub proof fn lemma_digits_number(n: nat)
    ensures
        is_number(digits_of(n)),
        number(digits_of(n)) == n,
    decreases n,
{
    if n < 10 {
        assert(digits_of(n).drop_last() =~= Seq::<char>::empty());
        assert(number(digits_of(n).drop_last()) == 0);
        assert(digits_of(n).last() == digit_of(n));
    } else {
        lemma_digits_number(n / 10);
        let d = digits_of(n / 10);
        assert(digits_of(n).drop_last() =~= d);
        assert(digits_of(n).last() == digit_of(n % 10));
        assert forall|i: int| 0 <= i < digits_of(n).len() implies is_digit(
            #[trigger] digits_of(n)[i],
        ) by {
            if i < d.len() {
                assert(digits_of(n)[i] == d[i]);
            }
        }
    }
}

/// A 32-bit number that is written and read again is the number: what
/// [`decimal_of`] writes, [`integer`] reads as the same number.
pub proof fn lemma_decimal_integer(n: i32)
    ensures
        integer(decimal_of(n as int)) == Some(n),
{
    if n < 0 {
        let digits = digits_of((-n) as nat);
        lemma_digits_number((-n) as nat);
        assert(decimal_of(n as int).skip(1) =~= digits);
        assert(decimal_of(n as int)[0] == '-');
    } else {
        lemma_digits_number(n as nat);
        let digits = digits_of(n as nat);
        assert(is_digit(digits[0]));
    }
}

/// Computes [`digits_of`].
pub fn digits(n: u64) -> (text: Vec<char>)
    ensures
        text@ == digits_of(n as nat),
    decreases n,
{
    if n < 10 {
        let mut text: Vec<char> = Vec::new();
        text.push((('0' as u8) + n as u8) as char);
        assert(text@ =~= digits_of(n as nat));
        text
    } else {
        let mut text: Vec<char> = digits(n / 10);
        text.push((('0' as u8) + (n % 10) as u8) as char);
        text
    }
}

/// Computes [`decimal_of`].
pub fn decimal(n: i64) -> (text: Vec<char>)
    ensures
        text@ == decimal_of(n as int),
{
    if n < 0 {
        let magnitude: u64 = (-(n as i128)) as u64;
        let mut text: Vec<char> = Vec::new();
        text.push('-');
        let mut rest: Vec<char> = digits(magnitude);
        text.append(&mut rest);
        assert(text@ =~= decimal_of(n as int));
        text
    } else {
        digits(n as u64)
    }
}

} // verus!
