//! Text as sequences of characters: white space, trimming, searching, lines
//! and decimal numbers.
use vstd::prelude::*;
use vstd::string::StringExecFns;

verus! {

/// Whether `c` is white space: the characters with the Unicode property
/// `White_Space`.
pub open spec fn is_space(c: char) -> bool {
    let u = c as u32;
    ||| 9 <= u <= 13
    ||| u == 0x20
    ||| u == 0x85
    ||| u == 0xA0
    ||| u == 0x1680
    ||| 0x2000 <= u <= 0x200A
    ||| u == 0x2028
    ||| u == 0x2029
    ||| u == 0x202F
    ||| u == 0x205F
    ||| u == 0x3000
}

/// `s` without the white space at its start.
pub open spec fn skip_spaces(s: Seq<char>) -> Seq<char>
    decreases s.len(),
{
    if s.len() > 0 && is_space(s[0]) {
        skip_spaces(s.drop_first())
    } else {
        s
    }
}

/// `s` without the white space at its end.
pub open spec fn drop_spaces(s: Seq<char>) -> Seq<char>
    decreases s.len(),
{
    if s.len() > 0 && is_space(s.last()) {
        drop_spaces(s.drop_last())
    } else {
        s
    }
}

/// `s` without the white space at both ends.
pub open spec fn trimmed(s: Seq<char>) -> Seq<char> {
    drop_spaces(skip_spaces(s))
}

/// Position of the first `c` in `s`; the length of `s` when there is none.
pub open spec fn index_of_char(s: Seq<char>, c: char) -> nat
    decreases s.len(),
{
    if s.len() == 0 {
        0
    } else if s[0] == c {
        0
    } else {
        1 + index_of_char(s.drop_first(), c)
    }
}

/// `s` without one carriage return at its end.
pub open spec fn strip_cr(s: Seq<char>) -> Seq<char> {
    if s.len() > 0 && s.last() == '\r' {
        s.drop_last()
    } else {
        s
    }
}

/// The lines of `s`. A line ends at a line feed, which is not part of it, nor
/// is a carriage return just before the line feed; the last line needs no
/// line feed, and an empty rest after the last line feed yields no line.
pub open spec fn lines_of(s: Seq<char>) -> Seq<Seq<char>>
    decreases s.len(),
{
    if s.len() == 0 {
        Seq::empty()
    } else {
        let p = index_of_char(s, '\n');
        if p >= s.len() {
            seq![s]
        } else {
            seq![strip_cr(s.take(p as int))] + lines_of(s.skip(p as int + 1))
        }
    }
}

/// Whether `c` is one of the digits `0` to `9`.
pub open spec fn is_digit(c: char) -> bool {
    48 <= c as u32 <= 57
}

/// The number that the digit `c` stands for.
pub open spec fn digit_value(c: char) -> nat {
    if is_digit(c) {
        (c as u32 - 48) as nat
    } else {
        0
    }
}

/// Every character of `s` is a digit.
pub open spec fn all_digits(s: Seq<char>) -> bool {
    forall|i: int| 0 <= i < s.len() ==> is_digit(#[trigger] s[i])
}

/// The number that the decimal digits `s` spell.
pub open spec fn digits_value(s: Seq<char>) -> nat
    decreases s.len(),
{
    if s.len() == 0 {
        0
    } else {
        digits_value(s.drop_last()) * 10 + digit_value(s.last())
    }
}

/// The number between 0 and 255 that `s` spells: decimal digits, at least
/// one, after an optional plus sign.
pub open spec fn parse_u8_spec(s: Seq<char>) -> Option<u8> {
    let body = if s.len() > 0 && s[0] == '+' {
        s.drop_first()
    } else {
        s
    };
    if body.len() == 0 || !all_digits(body) || digits_value(body) > 255 {
        None
    } else {
        Some(digits_value(body) as u8)
    }
}

/// The first position of `c` is the one before which `c` does not occur.
pub proof fn lemma_index_of_char(s: Seq<char>, c: char, i: int)
    requires
        0 <= i <= s.len(),
        forall|j: int| 0 <= j < i ==> #[trigger] s[j] != c,
        i < s.len() ==> s[i] == c,
    ensures
        index_of_char(s, c) == i,
    decreases s.len(),
{
    if s.len() > 0 && i > 0 {
        let t = s.drop_first();
        assert(s[0] != c);
        assert forall|j: int| 0 <= j < i - 1 implies #[trigger] t[j] != c by {
            assert(s[j + 1] != c);
        }
        lemma_index_of_char(t, c, i - 1);
    }
}

/// What the first position of `c` means.
pub proof fn lemma_index_of_char_found(s: Seq<char>, c: char)
    ensures
        index_of_char(s, c) <= s.len(),
        forall|j: int| 0 <= j < index_of_char(s, c) ==> #[trigger] s[j] != c,
        index_of_char(s, c) < s.len() ==> s[index_of_char(s, c) as int] == c,
    decreases s.len(),
{
    if s.len() > 0 && s[0] != c {
        let t = s.drop_first();
        lemma_index_of_char_found(t, c);
        assert forall|j: int| 0 <= j < index_of_char(s, c) implies #[trigger] s[j] != c by {
            if j > 0 {
                assert(t[j - 1] != c);
            }
        }
    }
}

/// More digits never spell a smaller number.
pub proof fn lemma_digits_grow(s: Seq<char>, k: int)
    requires
        0 <= k <= s.len(),
    ensures
        digits_value(s.take(k)) <= digits_value(s),
    decreases s.len() - k,
{
    if k < s.len() {
        lemma_digits_grow(s, k + 1);
        assert(s.take(k + 1).drop_last() =~= s.take(k));
    } else {
        assert(s.take(k) =~= s);
    }
}

/// Trimming leaves no white space at either end.
pub proof fn lemma_trimmed_ends(s: Seq<char>)
    ensures
        trimmed(s).len() > 0 ==> !is_space(trimmed(s)[0]) && !is_space(trimmed(s).last()),
        trimmed(s).len() <= s.len(),
{
    lemma_skip_spaces(s);
    lemma_drop_spaces(skip_spaces(s));
}

/// Trimming what is trimmed changes nothing.
pub proof fn lemma_trimmed_twice(s: Seq<char>)
    ensures
        trimmed(trimmed(s)) == trimmed(s),
{
    let t = trimmed(s);
    lemma_trimmed_ends(s);
    if t.len() > 0 {
        assert(skip_spaces(t) == t);
        assert(drop_spaces(t) == t);
    }
}

/// What remains after the leading white space starts with none.
pub proof fn lemma_skip_spaces(s: Seq<char>)
    ensures
        skip_spaces(s).len() <= s.len(),
        skip_spaces(s).len() > 0 ==> !is_space(skip_spaces(s)[0]),
        skip_spaces(s) == s.skip(s.len() - skip_spaces(s).len()),
    decreases s.len(),
{
    if s.len() > 0 && is_space(s[0]) {
        let t = s.drop_first();
        lemma_skip_spaces(t);
        assert(t.skip(t.len() - skip_spaces(t).len()) =~= s.skip(s.len() - skip_spaces(t).len()));
    } else {
        assert(s.skip(0) =~= s);
    }
}

/// What remains before the trailing white space ends with none, and keeps
/// its first character.
pub proof fn lemma_drop_spaces(s: Seq<char>)
    ensures
        drop_spaces(s).len() <= s.len(),
        drop_spaces(s).len() > 0 ==> !is_space(drop_spaces(s).last()) && drop_spaces(s)[0] == s[0],
        drop_spaces(s) == s.take(drop_spaces(s).len() as int),
    decreases s.len(),
{
    if s.len() > 0 && is_space(s.last()) {
        let t = s.drop_last();
        lemma_drop_spaces(t);
        assert(t.take(drop_spaces(t).len() as int) =~= s.take(drop_spaces(t).len() as int));
    } else {
        assert(s.take(s.len() as int) =~= s);
    }
}

/// The digit that stands for `d`.
pub open spec fn digit_char(d: nat) -> char {
    if d == 0 {
        '0'
    } else if d == 1 {
        '1'
    } else if d == 2 {
        '2'
    } else if d == 3 {
        '3'
    } else if d == 4 {
        '4'
    } else if d == 5 {
        '5'
    } else if d == 6 {
        '6'
    } else if d == 7 {
        '7'
    } else if d == 8 {
        '8'
    } else {
        '9'
    }
}

/// `n` in decimal digits, without leading zeros.
pub open spec fn decimal(n: nat) -> Seq<char>
    decreases n,
{
    if n < 10 {
        seq![digit_char(n)]
    } else {
        decimal(n / 10).push(digit_char(n % 10))
    }
}

/// The text of one decimal digit.
fn digit_text(d: usize) -> (t: &'static str)
    requires
        d < 10,
    ensures
        t@ == seq![digit_char(d as nat)],
{
    proof {
        reveal_strlit("0");
        reveal_strlit("1");
        reveal_strlit("2");
        reveal_strlit("3");
        reveal_strlit("4");
        reveal_strlit("5");
        reveal_strlit("6");
        reveal_strlit("7");
        reveal_strlit("8");
        reveal_strlit("9");
    }
    let t = if d == 0 {
        "0"
    } else if d == 1 {
        "1"
    } else if d == 2 {
        "2"
    } else if d == 3 {
        "3"
    } else if d == 4 {
        "4"
    } else if d == 5 {
        "5"
    } else if d == 6 {
        "6"
    } else if d == 7 {
        "7"
    } else if d == 8 {
        "8"
    } else {
        "9"
    };
    assert(t@ =~= seq![digit_char(d as nat)]);
    t
}

/// `n` written in decimal.
pub fn decimal_string(n: usize) -> (s: String)
    ensures
        s@ == decimal(n as nat),
    decreases n,
{
    if n < 10 {
        String::from_str(digit_text(n))
    } else {
        let mut s = decimal_string(n / 10);
        s.append(digit_text(n % 10));
        assert(s@ =~= decimal((n / 10) as nat).push(digit_char((n % 10) as nat)));
        s
    }
}

/// Whether `c` is white space.
pub fn char_is_space(c: char) -> (b: bool)
    ensures
        b == is_space(c),
{
    let u: u32 = c as u32;
    (9 <= u && u <= 13) || u == 0x20 || u == 0x85 || u == 0xA0 || u == 0x1680 || (0x2000 <= u && u
        <= 0x200A) || u == 0x2028 || u == 0x2029 || u == 0x202F || u == 0x205F || u == 0x3000
}

/// The number of a character in Unicode.
pub open spec fn code_of(c: char) -> u32 {
    c as u32
}

/// The number of a character in Unicode.
pub fn char_code(c: char) -> (u: u32)
    ensures
        u == code_of(c),
{
    c as u32
}

/// `c` in lower case, if it is an upper-case letter of the English alphabet.
pub open spec fn ascii_lower(c: char) -> char {
    if 'A' <= c <= 'Z' {
        ((c as u32 + 32) as u8) as char
    } else {
        c
    }
}

/// `c` in lower case, if it is an upper-case letter of the English alphabet.
pub fn to_ascii_lower(c: char) -> (l: char)
    ensures
        l == ascii_lower(c),
{
    let u: u32 = c as u32;
    if 65 <= u && u <= 90 {
        ((u + 32) as u8) as char
    } else {
        c
    }
}

/// How `a` stands to `b` when the case of English letters is ignored: -1
/// where `a` comes first, 1 where `b` does, 0 where neither does. The first
/// character in which the two differ decides; where there is none, the
/// shorter one comes first.
pub open spec fn folded_order(a: Seq<char>, b: Seq<char>) -> int
    decreases a.len(),
{
    if a.len() == 0 {
        if b.len() == 0 {
            0
        } else {
            -1
        }
    } else if b.len() == 0 {
        1
    } else {
        let x = code_of(ascii_lower(a[0]));
        let y = code_of(ascii_lower(b[0]));
        if x < y {
            -1
        } else if x > y {
            1
        } else {
            folded_order(a.drop_first(), b.drop_first())
        }
    }
}

/// Ignoring case, every text stands to itself as an equal.
pub proof fn lemma_folded_order_reflexive(a: Seq<char>)
    ensures
        folded_order(a, a) == 0,
    decreases a.len(),
{
    if a.len() > 0 {
        lemma_folded_order_reflexive(a.drop_first());
    }
}

/// Ignoring case, `a` comes before `b` exactly when `b` comes after `a`.
pub proof fn lemma_folded_order_antisymmetric(a: Seq<char>, b: Seq<char>)
    ensures
        folded_order(a, b) == -folded_order(b, a),
    decreases a.len(),
{
    if a.len() > 0 && b.len() > 0 {
        lemma_folded_order_antisymmetric(a.drop_first(), b.drop_first());
    }
}

/// Compares two strings without regard to the case of English letters.
pub fn folded_compare(a: &str, b: &str) -> (r: i8)
    ensures
        r == folded_order(a@, b@),
{
    let x = chars_of(a);
    let y = chars_of(b);
    let mut i: usize = 0;
    assert(x@.skip(0) =~= x@);
    assert(y@.skip(0) =~= y@);
    while i < x.len() && i < y.len()
        invariant
            i <= x.len(),
            i <= y.len(),
            x@ == a@,
            y@ == b@,
            folded_order(a@, b@) == folded_order(x@.skip(i as int), y@.skip(i as int)),
        decreases x.len() - i,
    {
        let p = char_code(to_ascii_lower(x[i]));
        let q = char_code(to_ascii_lower(y[i]));
        proof {
            assert(x@.skip(i as int).drop_first() =~= x@.skip(i + 1));
            assert(y@.skip(i as int).drop_first() =~= y@.skip(i + 1));
        }
        if p < q {
            return -1;
        }
        if p > q {
            return 1;
        }
        i = i + 1;
    }
    if i < y.len() {
        -1
    } else if i < x.len() {
        1
    } else {
        0
    }
}

/// Whether `c` is a decimal digit.
pub fn char_is_digit(c: char) -> (b: bool)
    ensures
        b == is_digit(c),
{
    let u: u32 = c as u32;
    48 <= u && u <= 57
}

/// The characters of `s`, in order.
pub fn chars_of(s: &str) -> (chars: Vec<char>)
    ensures
        chars@ == s@,
{
    let mut chars: Vec<char> = Vec::new();
    for c in it: s.chars()
        invariant
            it.seq() == s@,
            chars@ == s@.take(it.index() as int),
    {
        chars.push(c);
        assert(chars@ =~= s@.take(it.index() + 1));
    }
    assert(s@.take(s@.len() as int) =~= s@);
    chars
}

/// `String::push` of the standard library: appends the character `c` to the
/// end of the string and leaves the rest of it as it was.
#[verifier::external_body]
pub(crate) fn push_char(s: &mut String, c: char)
    ensures
        final(s)@ == old(s)@.push(c),
{
    s.push(c);
}

/// The characters `chars[lo..hi]` as a string.
pub fn string_of(chars: &Vec<char>, lo: usize, hi: usize) -> (s: String)
    requires
        lo <= hi <= chars.len(),
    ensures
        s@ == chars@.subrange(lo as int, hi as int),
{
    let mut s = String::new();
    let mut i: usize = lo;
    assert(s@ =~= chars@.subrange(lo as int, lo as int));
    while i < hi
        invariant
            lo <= i <= hi <= chars.len(),
            s@ == chars@.subrange(lo as int, i as int),
        decreases hi - i,
    {
        push_char(&mut s, chars[i]);
        assert(s@ =~= chars@.subrange(lo as int, i + 1));
        i = i + 1;
    }
    s
}

/// Whether two strings hold the same characters.
pub fn str_equal(a: &str, b: &str) -> (eq: bool)
    ensures
        eq == (a@ == b@),
{
    let x = a.to_owned();
    let y = b.to_owned();
    x == y
}

/// The part of `chars[lo..hi]` that remains when the white space at both ends
/// is taken away.
pub fn trim_range(chars: &Vec<char>, lo: usize, hi: usize) -> (r: (usize, usize))
    requires
        lo <= hi <= chars.len(),
    ensures
        lo <= r.0 <= r.1 <= hi,
        chars@.subrange(r.0 as int, r.1 as int) == trimmed(chars@.subrange(lo as int, hi as int)),
{
    let mut a: usize = lo;
    while a < hi && char_is_space(chars[a])
        invariant
            lo <= a <= hi <= chars.len(),
            skip_spaces(chars@.subrange(lo as int, hi as int)) == skip_spaces(
                chars@.subrange(a as int, hi as int),
            ),
        decreases hi - a,
    {
        assert(chars@.subrange(a as int, hi as int).drop_first() =~= chars@.subrange(
            a + 1,
            hi as int,
        ));
        a = a + 1;
    }
    let mut b: usize = hi;
    while b > a && char_is_space(chars[b - 1])
        invariant
            a <= b <= hi <= chars.len(),
            drop_spaces(chars@.subrange(a as int, hi as int)) == drop_spaces(
                chars@.subrange(a as int, b as int),
            ),
        decreases b - a,
    {
        assert(chars@.subrange(a as int, b as int).drop_last() =~= chars@.subrange(
            a as int,
            b - 1,
        ));
        b = b - 1;
    }
    (a, b)
}

/// Position of the first `c` in `chars[lo..hi]`, counted from the start of
/// `chars`.
pub fn find_char(chars: &Vec<char>, lo: usize, hi: usize, c: char) -> (r: Option<usize>)
    requires
        lo <= hi <= chars.len(),
    ensures
        match r {
            Some(p) => lo <= p < hi && index_of_char(chars@.subrange(lo as int, hi as int), c) == p
                - lo,
            None => index_of_char(chars@.subrange(lo as int, hi as int), c) == hi - lo,
        },
{
    let ghost s = chars@.subrange(lo as int, hi as int);
    let mut i: usize = lo;
    while i < hi
        invariant
            lo <= i <= hi <= chars.len(),
            s == chars@.subrange(lo as int, hi as int),
            forall|j: int| 0 <= j < i - lo ==> #[trigger] s[j] != c,
        decreases hi - i,
    {
        if chars[i] == c {
            proof {
                lemma_index_of_char(s, c, i - lo);
            }
            return Some(i);
        }
        i = i + 1;
    }
    proof {
        lemma_index_of_char(s, c, hi - lo);
    }
    None
}

/// The lines of `chars`, each as the range of positions that it occupies.
pub fn line_ranges(chars: &Vec<char>) -> (r: Vec<(usize, usize)>)
    ensures
        r.len() == lines_of(chars@).len(),
        forall|i: int|
            0 <= i < r.len() ==> (#[trigger] r[i]).0 <= r[i].1 <= chars.len() && chars@.subrange(
                r[i].0 as int,
                r[i].1 as int,
            ) == lines_of(chars@)[i],
{
    let n = chars.len();
    let mut r: Vec<(usize, usize)> = Vec::new();
    let mut pos: usize = 0;
    let ghost mut done: Seq<Seq<char>> = Seq::empty();
    assert(chars@.skip(0) =~= chars@);
    assert(done + lines_of(chars@) =~= lines_of(chars@));
    while pos < n
        invariant
            pos <= n,
            n == chars.len(),
            done.len() == r.len(),
            forall|i: int|
                0 <= i < r.len() ==> (#[trigger] r[i]).0 <= r[i].1 <= n && chars@.subrange(
                    r[i].0 as int,
                    r[i].1 as int,
                ) == done[i],
            lines_of(chars@) == done + lines_of(chars@.skip(pos as int)),
        decreases n - pos,
    {
        let ghost rest = chars@.skip(pos as int);
        assert(rest =~= chars@.subrange(pos as int, n as int));
        match find_char(chars, pos, n, '\n') {
            None => {
                r.push((pos, n));
                proof {
                    assert(lines_of(rest) == seq![rest]);
                    done = done.push(rest);
                    assert(chars@.skip(n as int) =~= Seq::<char>::empty());
                    assert(done + lines_of(chars@.skip(n as int)) =~= done);
                    assert(done =~= done.drop_last() + seq![rest]);
                }
                pos = n;
            },
            Some(p) => {
                let end = if p > pos && chars[p - 1] == '\r' {
                    p - 1
                } else {
                    p
                };
                r.push((pos, end));
                proof {
                    let line = strip_cr(rest.take(p - pos));
                    assert(rest.take(p - pos) =~= chars@.subrange(pos as int, p as int));
                    assert(chars@.subrange(pos as int, end as int) =~= line);
                    assert(rest.skip(p - pos + 1) =~= chars@.skip(p + 1));
                    assert(lines_of(rest) == seq![line] + lines_of(chars@.skip(p + 1)));
                    let before = done;
                    done = done.push(line);
                    assert(before + (seq![line] + lines_of(chars@.skip(p + 1))) =~= done + lines_of(
                        chars@.skip(p + 1),
                    ));
                }
                pos = p + 1;
            },
        }
    }
    proof {
        assert(chars@.skip(n as int) =~= Seq::<char>::empty());
        assert(done + lines_of(chars@.skip(n as int)) =~= done);
    }
    r
}

/// Reads `chars[lo..hi]` as a number between 0 and 255.
pub fn parse_u8(chars: &Vec<char>, lo: usize, hi: usize) -> (r: Option<u8>)
    requires
        lo <= hi <= chars.len(),
    ensures
        r == parse_u8_spec(chars@.subrange(lo as int, hi as int)),
{
    let ghost s = chars@.subrange(lo as int, hi as int);
    let start: usize = if lo < hi && chars[lo] == '+' {
        lo + 1
    } else {
        lo
    };
    let ghost body = chars@.subrange(start as int, hi as int);
    proof {
        if start > lo {
            assert(s.drop_first() =~= body);
        } else {
            assert(s =~= body);
        }
    }
    if start == hi {
        return None;
    }
    let mut value: u32 = 0;
    let mut i: usize = start;
    while i < hi
        invariant
            start <= i <= hi <= chars.len(),
            start < hi,
            lo <= start,
            s == chars@.subrange(lo as int, hi as int),
            body == chars@.subrange(start as int, hi as int),
            parse_u8_spec(s) == if !all_digits(body) || digits_value(body) > 255 {
                None
            } else {
                Some(digits_value(body) as u8)
            },
            value == digits_value(body.take(i - start)),
            value <= 255,
            forall|j: int| 0 <= j < i - start ==> is_digit(#[trigger] body[j]),
        decreases hi - i,
    {
        let c = chars[i];
        if !char_is_digit(c) {
            assert(!is_digit(body[i - start]));
            return None;
        }
        let d: u32 = c as u32 - 48;
        proof {
            assert(body.take(i - start + 1).drop_last() =~= body.take(i - start));
            assert(body.take(i - start + 1).last() == c);
        }
        value = value * 10 + d;
        if value > 255 {
            proof {
                lemma_digits_grow(body, i - start + 1);
            }
            return None;
        }
        i = i + 1;
    }
    proof {
        assert(body.take(hi - start) =~= body);
    }
    Some(value as u8)
}

} // verus!
