//! Characters and texts: the tests and conversions that the rest of the
//! library reads and writes texts with.

use vstd::prelude::*;

verus! {

/// Appends one character to a string.
///
/// Wraps `String::push`; the standard library documents that it appends the
/// given `char` to the end of the string.
#[verifier::external_body]
pub(crate) fn push_char(s: &mut String, c: char)
    ensures
        final(s)@ == old(s)@.push(c),
{
    s.push(c);
}

/// The characters of a string slice, in order.
pub fn chars_of(s: &str) -> (out: Vec<char>)
    ensures
        out@ == s@,
{
    let mut out: Vec<char> = Vec::new();
    for c in it: s.chars()
        invariant
            out@ == it.seq().take(it.index() as int),
    {
        out.push(c);
    }
    out
}

/// A string holding exactly the given characters.
pub fn string_of(chars: &Vec<char>) -> (out: String)
    ensures
        out@ == chars@,
{
    let mut out = String::new();
    let mut i: usize = 0;
    while i < chars.len()
        invariant
            i <= chars.len(),
            out@ == chars@.take(i as int),
        decreases chars.len() - i,
    {
        push_char(&mut out, chars[i]);
        i += 1;
    }
    out
}

/// The characters of an optional string.
pub open spec fn text_option(t: Option<String>) -> Option<Seq<char>> {
    match t {
        Some(text) => Some(text@),
        None => None,
    }
}

/// Whether `c` is white space: the characters that carry the Unicode
/// `White_Space` property.
pub open spec fn is_whitespace(c: char) -> bool {
    let n = c as u32;
    ||| 0x09 <= n <= 0x0D
    ||| n == 0x20
    ||| n == 0x85
    ||| n == 0xA0
    ||| n == 0x1680
    ||| 0x2000 <= n <= 0x200A
    ||| n == 0x2028
    ||| n == 0x2029
    ||| n == 0x202F
    ||| n == 0x205F
    ||| n == 0x3000
}

/// Tests a character for white space.
pub fn char_is_whitespace(c: char) -> (b: bool)
    ensures
        b == is_whitespace(c),
{
    let n: u32 = c as u32;
    (0x09 <= n && n <= 0x0D) || n == 0x20 || n == 0x85 || n == 0xA0 || n == 0x1680 || (0x2000 <= n
        && n <= 0x200A) || n == 0x2028 || n == 0x2029 || n == 0x202F || n == 0x205F || n == 0x3000
}

/// Whether `c` is one of the ASCII digits `0` to `9`.
pub open spec fn is_digit(c: char) -> bool {
    0x30 <= c as u32 <= 0x39
}

/// Tests a character for an ASCII digit.
pub fn char_is_digit(c: char) -> (b: bool)
    ensures
        b == is_digit(c),
{
    let n: u32 = c as u32;
    0x30 <= n && n <= 0x39
}

/// The character of a decimal digit; `0` for a number that is no digit.
pub open spec fn digit_char(d: nat) -> char {
    if d == 1 {
        '1'
    } else if d == 2 {
        '2'
    } else if d == 3 {
        '3'
    } else if d == 4 {
        '4'
    } else if d == 5 {
        '5'
    } else if d == 6 {
        '6'
    } else if d == 7 {
        '7'
    } else if d == 8 {
        '8'
    } else if d == 9 {
        '9'
    } else {
        '0'
    }
}

/// A number in decimal digits, without leading zeros.
pub open spec fn decimal(n: nat) -> Seq<char>
    decreases n,
{
    if n < 10 {
        seq![digit_char(n)]
    } else {
        decimal(n / 10).push(digit_char(n % 10))
    }
}

/// The character of a decimal digit.
fn digit_of(d: u64) -> (c: char)
    requires
        d < 10,
    ensures
        c == digit_char(d as nat),
{
    if d == 1 {
        '1'
    } else if d == 2 {
        '2'
    } else if d == 3 {
        '3'
    } else if d == 4 {
        '4'
    } else if d == 5 {
        '5'
    } else if d == 6 {
        '6'
    } else if d == 7 {
        '7'
    } else if d == 8 {
        '8'
    } else if d == 9 {
        '9'
    } else {
        '0'
    }
}

/// Writes a number in decimal digits, without leading zeros.
pub fn decimal_text(n: u64) -> (text: String)
    ensures
        text@ == decimal(n as nat),
    decreases n,
{
    if n < 10 {
        let mut text = String::new();
        push_char(&mut text, digit_of(n));
        text
    } else {
        let mut text = decimal_text(n / 10);
        push_char(&mut text, digit_of(n % 10));
        text
    }
}

/// Whether `c` is alphabetic, as `char::is_alphabetic` says.
pub uninterp spec fn is_alphabetic(c: char) -> bool;

/// `char::is_alphabetic`: whether a character has the Unicode property
/// `Alphabetic`. The answer depends on the character alone.
#[verifier::external_body]
pub(crate) fn char_is_alphabetic(c: char) -> (b: bool)
    ensures
        b == is_alphabetic(c),
{
    c.is_alphabetic()
}

/// What is left of `s` without the white space at its start.
pub open spec fn trim_start(s: Seq<char>) -> Seq<char>
    decreases s.len(),
{
    if s.len() > 0 && is_whitespace(s[0]) {
        trim_start(s.drop_first())
    } else {
        s
    }
}

/// What is left of `s` without the white space at its end.
pub open spec fn trim_end(s: Seq<char>) -> Seq<char>
    decreases s.len(),
{
    if s.len() > 0 && is_whitespace(s.last()) {
        trim_end(s.drop_last())
    } else {
        s
    }
}

/// What is left of `s` without the white space at its ends.
pub open spec fn trim(s: Seq<char>) -> Seq<char> {
    trim_end(trim_start(s))
}

/// Copies the characters from `from` up to `to`.
pub fn slice_of(s: &Vec<char>, from: usize, to: usize) -> (out: Vec<char>)
    requires
        from <= to <= s.len(),
    ensures
        out@ == s@.subrange(from as int, to as int),
{
    let mut out: Vec<char> = Vec::new();
    let mut i = from;
    while i < to
        invariant
            from <= i <= to <= s.len(),
            out@ == s@.subrange(from as int, i as int),
        decreases to - i,
    {
        out.push(s[i]);
        assert(s@.subrange(from as int, i + 1) == s@.subrange(from as int, i as int).push(
            s@[i as int],
        ));
        i += 1;
    }
    out
}

/// Removes the white space at both ends.
pub fn trimmed(s: &Vec<char>) -> (out: Vec<char>)
    ensures
        out@ == trim(s@),
{
    let mut a: usize = 0;
    assert(s@.skip(0) == s@);
    while a < s.len() && char_is_whitespace(s[a])
        invariant
            a <= s.len(),
            trim_start(s@) == trim_start(s@.skip(a as int)),
        decreases s.len() - a,
    {
        assert(s@.skip(a as int).drop_first() == s@.skip(a + 1));
        a += 1;
    }
    let ghost rest = s@.skip(a as int);
    assert(trim_start(s@) == rest);
    let mut b: usize = s.len();
    assert(rest.take(rest.len() as int) == rest);
    while b > a && char_is_whitespace(s[b - 1])
        invariant
            a <= b <= s.len(),
            rest == s@.skip(a as int),
            trim_end(rest) == trim_end(rest.take(b - a)),
        decreases b,
    {
        assert(rest.take(b - a).last() == s@[b - 1]);
        assert(rest.take(b - a).drop_last() == rest.take(b - a - 1));
        b -= 1;
    }
    proof {
        if b > a {
            assert(rest.take(b - a).last() == s@[b - 1]);
        }
        assert(rest.take(b - a) == s@.subrange(a as int, b as int));
    }
    slice_of(s, a, b)
}

/// Whether `s` starts with `prefix`.
pub open spec fn starts_with(s: Seq<char>, prefix: Seq<char>) -> bool {
    prefix.len() <= s.len() && s.take(prefix.len() as int) == prefix
}

/// Whether `s` ends with `suffix`.
pub open spec fn ends_with(s: Seq<char>, suffix: Seq<char>) -> bool {
    suffix.len() <= s.len() && s.skip(s.len() - suffix.len()) == suffix
}

/// Whether `pattern` stands in `s` at position `i`.
pub open spec fn matches_at(s: Seq<char>, i: int, pattern: Seq<char>) -> bool {
    0 <= i && i + pattern.len() <= s.len() && s.subrange(i, i + pattern.len()) == pattern
}

/// Whether `pattern` stands somewhere in `s`.
pub open spec fn contains_text(s: Seq<char>, pattern: Seq<char>) -> bool {
    exists|i: int| matches_at(s, i, pattern)
}

/// Tests whether `pattern` stands in `s` at position `i`.
pub fn has_at(s: &Vec<char>, i: usize, pattern: &Vec<char>) -> (b: bool)
    ensures
        b == matches_at(s@, i as int, pattern@),
{
    if i > s.len() || pattern.len() > s.len() - i {
        return false;
    }
    let mut n: usize = 0;
    while n < pattern.len()
        invariant
            n <= pattern.len(),
            i + pattern.len() <= s.len(),
            s@.subrange(i as int, i + n) == pattern@.take(n as int),
        decreases pattern.len() - n,
    {
        if s[i + n] != pattern[n] {
            assert(s@.subrange(i as int, i + pattern.len())[n as int] != pattern@[n as int]);
            return false;
        }
        assert(s@.subrange(i as int, i + n + 1) == s@.subrange(i as int, i + n).push(s@[i + n]));
        assert(pattern@.take(n + 1) == pattern@.take(n as int).push(pattern@[n as int]));
        n += 1;
    }
    assert(pattern@.take(n as int) == pattern@);
    true
}

/// Tests whether `s` starts with `prefix`.
pub fn has_prefix(s: &Vec<char>, prefix: &Vec<char>) -> (b: bool)
    ensures
        b == starts_with(s@, prefix@),
{
    let b = has_at(s, 0, prefix);
    proof {
        if prefix@.len() <= s@.len() {
            assert(s@.take(prefix@.len() as int) == s@.subrange(0, 0 + prefix@.len() as int));
        }
    }
    b
}

/// Tests whether `s` ends with `suffix`.
pub fn has_suffix(s: &Vec<char>, suffix: &Vec<char>) -> (b: bool)
    ensures
        b == ends_with(s@, suffix@),
{
    if suffix.len() > s.len() {
        return false;
    }
    let start = s.len() - suffix.len();
    let b = has_at(s, start, suffix);
    proof {
        assert(s@.skip(start as int) == s@.subrange(start as int, start + suffix@.len() as int));
    }
    b
}

/// Tests whether `pattern` stands somewhere in `s`.
pub fn has_text(s: &Vec<char>, pattern: &Vec<char>) -> (b: bool)
    ensures
        b == contains_text(s@, pattern@),
{
    let mut i: usize = 0;
    while i < s.len()
        invariant
            i <= s.len(),
            forall|k: int| 0 <= k < i ==> !matches_at(s@, k, pattern@),
        decreases s.len() - i,
    {
        if has_at(s, i, pattern) {
            return true;
        }
        i += 1;
    }
    has_at(s, i, pattern)
}

/// `s` without each pair of neighbouring `c`, pairs taken from the left.
pub open spec fn remove_pairs(s: Seq<char>, c: char) -> Seq<char>
    decreases s.len(),
{
    if s.len() >= 2 && s[0] == c && s[1] == c {
        remove_pairs(s.skip(2), c)
    } else if s.len() > 0 {
        seq![s[0]] + remove_pairs(s.drop_first(), c)
    } else {
        Seq::empty()
    }
}

/// Removes each pair of neighbouring `c`, pairs taken from the left.
pub fn without_pairs(s: &Vec<char>, c: char) -> (out: Vec<char>)
    ensures
        out@ == remove_pairs(s@, c),
{
    let mut out: Vec<char> = Vec::new();
    let mut i: usize = 0;
    assert(s@.skip(0) == s@);
    while i < s.len()
        invariant
            i <= s.len(),
            remove_pairs(s@, c) == out@ + remove_pairs(s@.skip(i as int), c),
        decreases s.len() - i,
    {
        let ghost rest = s@.skip(i as int);
        assert(rest[0] == s@[i as int]);
        if i + 1 < s.len() && s[i] == c && s[i + 1] == c {
            assert(rest[1] == s@[i + 1]);
            assert(rest.skip(2) == s@.skip(i + 2));
            i += 2;
        } else {
            assert(rest.drop_first() == s@.skip(i + 1));
            let ghost before = out@;
            out.push(s[i]);
            assert(out@ + remove_pairs(s@.skip(i + 1), c) =~= before + (seq![s@[i as int]]
                + remove_pairs(s@.skip(i + 1), c)));
            i += 1;
        }
    }
    assert(out@ + Seq::<char>::empty() =~= out@);
    out
}

/// The bytes that `c` takes in UTF-8.
pub open spec fn char_width(c: char) -> nat {
    let n = c as u32;
    if n < 0x80 {
        1
    } else if n < 0x800 {
        2
    } else if n < 0x10000 {
        3
    } else {
        4
    }
}

/// The bytes that `s` takes in UTF-8.
pub open spec fn byte_len(s: Seq<char>) -> nat
    decreases s.len(),
{
    if s.len() == 0 {
        0
    } else {
        byte_len(s.drop_last()) + char_width(s.last())
    }
}

/// The bytes that the characters from `from` up to `to` take in UTF-8, or
/// `limit` where they take more than that.
pub fn byte_len_up_to(s: &Vec<char>, from: usize, to: usize, limit: usize) -> (n: usize)
    requires
        from <= to <= s.len(),
        limit <= usize::MAX - 4,
    ensures
        byte_len(s@.subrange(from as int, to as int)) <= limit ==> n == byte_len(
            s@.subrange(from as int, to as int),
        ),
        byte_len(s@.subrange(from as int, to as int)) > limit ==> n > limit,
{
    let mut n: usize = 0;
    let mut i = from;
    assert(s@.subrange(from as int, from as int) =~= Seq::<char>::empty());
    while i < to
        invariant
            from <= i <= to <= s.len(),
            limit <= usize::MAX - 4,
            n <= limit,
            n == byte_len(s@.subrange(from as int, i as int)),
        decreases to - i,
    {
        let c = s[i] as u32;
        let w: usize = if c < 0x80 {
            1
        } else if c < 0x800 {
            2
        } else if c < 0x10000 {
            3
        } else {
            4
        };
        assert(s@.subrange(from as int, i + 1).drop_last() == s@.subrange(from as int, i as int));
        assert(s@.subrange(from as int, i + 1).last() == s@[i as int]);
        n = n + w;
        i += 1;
        if n > limit {
            proof {
                lemma_byte_len_grows(s@.subrange(from as int, to as int), i - from);
                assert(s@.subrange(from as int, to as int).take(i - from) == s@.subrange(
                    from as int,
                    i as int,
                ));
            }
            return n;
        }
    }
    n
}

/// A text takes at least the bytes that a start of it takes.
pub proof fn lemma_byte_len_grows(s: Seq<char>, k: int)
    requires
        0 <= k <= s.len(),
    ensures
        byte_len(s.take(k)) <= byte_len(s),
    decreases s.len(),
{
    if k < s.len() {
        assert(s.drop_last().take(k) == s.take(k));
        lemma_byte_len_grows(s.drop_last(), k);
    } else {
        assert(s.take(k) == s);
    }
}

/// The position of the first line feed at or after `i`, or the length of `s`.
pub open spec fn line_end(s: Seq<char>, i: int) -> int
    decreases s.len() - i,
{
    if 0 <= i < s.len() && s[i] != '\n' {
        line_end(s, i + 1)
    } else {
        i
    }
}

/// A line without the carriage return at its end.
pub open spec fn strip_return(line: Seq<char>) -> Seq<char> {
    if line.len() > 0 && line.last() == '\r' {
        line.drop_last()
    } else {
        line
    }
}

/// The lines of a text. A line ends at a line feed, or at a carriage return
/// and a line feed, or with the text; line endings belong to no line, and no
/// empty line follows the last line ending.
pub open spec fn lines_from(s: Seq<char>, i: int) -> Seq<Seq<char>>
    decreases s.len() - i,
{
    if i < 0 || i >= s.len() {
        Seq::empty()
    } else {
        let e = line_end(s, i);
        proof {
            lemma_line_end(s, i);
        }
        if e >= s.len() {
            seq![s.subrange(i, s.len() as int)]
        } else {
            seq![strip_return(s.subrange(i, e))] + lines_from(s, e + 1)
        }
    }
}

/// The lines of a text.
pub open spec fn lines(s: Seq<char>) -> Seq<Seq<char>> {
    lines_from(s, 0)
}

/// A line never ends before it starts, and ends inside the text.
pub proof fn lemma_line_end(s: Seq<char>, i: int)
    ensures
        i <= line_end(s, i),
        0 <= i <= s.len() ==> line_end(s, i) <= s.len(),
    decreases s.len() - i,
{
    if 0 <= i < s.len() && s[i] != '\n' {
        lemma_line_end(s, i + 1);
    }
}

/// A text that is not empty has a first line.
pub proof fn lemma_lines_nonempty(s: Seq<char>)
    requires
        s.len() > 0,
    ensures
        lines(s).len() > 0,
{
}

/// Splits a text into its lines.
pub fn lines_of(s: &Vec<char>) -> (out: Vec<Vec<char>>)
    ensures
        out@.len() == lines(s@).len(),
        forall|k: int| 0 <= k < out@.len() ==> (#[trigger] out@[k])@ == lines(s@)[k],
{
    let mut out: Vec<Vec<char>> = Vec::new();
    let mut i: usize = 0;
    let ghost mut done: Seq<Seq<char>> = Seq::empty();
    assert(done + lines_from(s@, 0) =~= lines(s@));
    while i < s.len()
        invariant
            i <= s.len(),
            lines(s@) == done + lines_from(s@, i as int),
            out@.len() == done.len(),
            forall|k: int| 0 <= k < out@.len() ==> (#[trigger] out@[k])@ == done[k],
        decreases s.len() - i,
    {
        let mut e = i;
        while e < s.len() && s[e] != '\n'
            invariant
                i <= e <= s.len(),
                line_end(s@, i as int) == line_end(s@, e as int),
            decreases s.len() - e,
        {
            e += 1;
        }
        let ghost rest = lines_from(s@, e + 1);
        if e >= s.len() {
            let line = slice_of(s, i, s.len());
            proof {
                done = done.push(line@);
                assert(lines_from(s@, s@.len() as int) =~= Seq::<Seq<char>>::empty());
                assert(lines(s@) =~= done + lines_from(s@, s@.len() as int));
            }
            out.push(line);
            i = s.len();
        } else {
            let end = if e > i && s[e - 1] == '\r' {
                e - 1
            } else {
                e
            };
            let line = slice_of(s, i, end);
            proof {
                let whole = s@.subrange(i as int, e as int);
                if e > i {
                    assert(whole.last() == s@[e - 1]);
                }
                assert(strip_return(whole) =~= line@);
                assert(lines(s@) =~= done.push(line@) + rest);
                done = done.push(line@);
            }
            out.push(line);
            i = e + 1;
        }
    }
    proof {
        assert(lines_from(s@, i as int) =~= Seq::<Seq<char>>::empty());
        assert(done + Seq::<Seq<char>>::empty() =~= done);
    }
    out
}

/// `s` with each `from` turned into `to`.
pub open spec fn replace_char(s: Seq<char>, from: char, to: char) -> Seq<char> {
    Seq::new(
        s.len(),
        |i: int|
            if s[i] == from {
                to
            } else {
                s[i]
            },
    )
}

/// Turns each `from` into `to`.
pub fn with_char_replaced(s: &Vec<char>, from: char, to: char) -> (out: Vec<char>)
    ensures
        out@ == replace_char(s@, from, to),
{
    let mut out: Vec<char> = Vec::new();
    let mut i: usize = 0;
    while i < s.len()
        invariant
            i <= s.len(),
            out@ == replace_char(s@.take(i as int), from, to),
        decreases s.len() - i,
    {
        let c = s[i];
        out.push(
            if c == from {
                to
            } else {
                c
            },
        );
        assert(out@ =~= replace_char(s@.take(i + 1), from, to));
        i += 1;
    }
    assert(s@.take(i as int) == s@);
    out
}

/// `n` zeros.
pub open spec fn zeros(n: nat) -> Seq<char> {
    Seq::new(n, |i: int| '0')
}

/// A number in decimal digits, with zeros before it up to `width` digits.
pub open spec fn padded_decimal(n: nat, width: nat) -> Seq<char> {
    let digits = decimal(n);
    if digits.len() < width {
        zeros((width - digits.len()) as nat) + digits
    } else {
        digits
    }
}

/// Writes a number in decimal digits, with zeros before it up to `width`
/// digits.
pub fn padded_decimal_text(n: u64, width: usize) -> (text: String)
    ensures
        text@ == padded_decimal(n as nat, width as nat),
{
    let digits = decimal_text(n);
    let count = chars_of(digits.as_str()).len();
    let mut text = String::new();
    let mut i: usize = count;
    assert(text@ =~= zeros(0));
    while i < width
        invariant
            count <= i,
            count < width ==> i <= width,
            count >= width ==> i == count,
            text@ == zeros((i - count) as nat),
        decreases width - i,
    {
        push_char(&mut text, '0');
        assert(text@ =~= zeros((i + 1 - count) as nat));
        i += 1;
    }
    text.append(digits.as_str());
    proof {
        if count >= width {
            assert(zeros(0) =~= Seq::<char>::empty());
            assert(text@ =~= digits@);
        }
    }
    text
}

/// The first position at or after `i` that holds white space, or the length
/// of `s`.
pub open spec fn word_end(s: Seq<char>, i: int) -> int
    decreases s.len() - i,
{
    if 0 <= i < s.len() && !is_whitespace(s[i]) {
        word_end(s, i + 1)
    } else {
        i
    }
}

/// The first word of `s`: what stands between the white space at its start
/// and the next white space; `None` where `s` holds nothing but white space.
pub open spec fn first_word(s: Seq<char>) -> Option<Seq<char>> {
    let t = trim_start(s);
    if t.len() == 0 {
        None
    } else {
        Some(t.take(word_end(t, 0)))
    }
}

/// The first word of a text.
pub fn first_word_of(s: &Vec<char>) -> (r: Option<Vec<char>>)
    ensures
        match r {
            Some(w) => first_word(s@) == Some(w@),
            None => first_word(s@) is None,
        },
{
    let mut a: usize = 0;
    assert(s@.skip(0) == s@);
    while a < s.len() && char_is_whitespace(s[a])
        invariant
            a <= s.len(),
            trim_start(s@) == trim_start(s@.skip(a as int)),
        decreases s.len() - a,
    {
        assert(s@.skip(a as int).drop_first() == s@.skip(a + 1));
        a += 1;
    }
    let ghost t = s@.skip(a as int);
    assert(trim_start(s@) == t);
    if a >= s.len() {
        return None;
    }
    let mut b: usize = a;
    while b < s.len() && !char_is_whitespace(s[b])
        invariant
            a <= b <= s.len(),
            t == s@.skip(a as int),
            word_end(t, 0) == word_end(t, b - a),
        decreases s.len() - b,
    {
        assert(t[b - a] == s@[b as int]);
        b += 1;
    }
    proof {
        if b < s.len() {
            assert(t[b - a] == s@[b as int]);
        }
        assert(t.take(b - a) == s@.subrange(a as int, b as int));
    }
    Some(slice_of(s, a, b))
}

} // verus!
