//! Small functions on strings.
use crate::text::{chars_of, push_char};
use vstd::prelude::*;
use vstd::string::StrSliceExecFns;

verus! {

/// The longer of two character sequences; the first when they are equally long.
pub open spec fn longer(a: Seq<char>, b: Seq<char>) -> Seq<char> {
    if a.len() >= b.len() {
        a
    } else {
        b
    }
}

/// The string with more characters; the first when both have as many.
pub fn longest<'a>(a: &'a str, b: &'a str) -> (r: &'a str)
    ensures
        r@ == longer(a@, b@),
{
    if a.unicode_len() >= b.unicode_len() {
        a
    } else {
        b
    }
}

/// `s` from its first character on that does not occur in `set`.
pub open spec fn without_leading(s: Seq<char>, set: Seq<char>) -> Seq<char>
    decreases s.len(),
{
    if s.len() > 0 && set.contains(s[0]) {
        without_leading(s.drop_first(), set)
    } else {
        s
    }
}

/// Whether `c` occurs in `set`.
fn occurs(set: &Vec<char>, c: char) -> (b: bool)
    ensures
        b == set@.contains(c),
{
    let mut i: usize = 0;
    while i < set.len()
        invariant
            i <= set.len(),
            forall|k: int| 0 <= k < i ==> set@[k] != c,
        decreases set.len() - i,
    {
        if set[i] == c {
            return true;
        }
        i = i + 1;
    }
    false
}

/// The part of `needle` that starts at its first character which does not
/// occur in `prefix`.
pub fn strip_prefix<'a>(needle: &'a str, prefix: &str) -> (r: &'a str)
    ensures
        r@ == without_leading(needle@, prefix@),
{
    let chars = chars_of(needle);
    let set = chars_of(prefix);
    let n = chars.len();
    let mut i: usize = 0;
    assert(chars@.subrange(0, n as int) =~= chars@);
    while i < n && occurs(&set, chars[i])
        invariant
            i <= n,
            n == chars.len(),
            chars@ == needle@,
            set@ == prefix@,
            without_leading(needle@, prefix@) == without_leading(
                chars@.subrange(i as int, n as int),
                prefix@,
            ),
        decreases n - i,
    {
        assert(chars@.subrange(i as int, n as int).drop_first() =~= chars@.subrange(
            i + 1,
            n as int,
        ));
        i = i + 1;
    }
    needle.substring_char(i, n)
}

/// The characters of `a` and `b` in turn, starting with `a`; what is left
/// of the longer one follows as it is.
pub open spec fn interleaved(a: Seq<char>, b: Seq<char>) -> Seq<char>
    decreases a.len(),
{
    if a.len() == 0 {
        b
    } else if b.len() == 0 {
        a
    } else {
        seq![a[0], b[0]] + interleaved(a.drop_first(), b.drop_first())
    }
}

/// The characters of `a` and `b` in turn.
pub fn interleave(a: &str, b: &str) -> (r: String)
    ensures
        r@ == interleaved(a@, b@),
{
    let x = chars_of(a);
    let y = chars_of(b);
    let mut r = String::new();
    let mut i: usize = 0;
    assert(x@.skip(0) =~= x@);
    assert(y@.skip(0) =~= y@);
    assert(r@ + interleaved(x@, y@) =~= interleaved(a@, b@));
    while i < x.len() && i < y.len()
        invariant
            i <= x.len(),
            i <= y.len(),
            x@ == a@,
            y@ == b@,
            r@ + interleaved(x@.skip(i as int), y@.skip(i as int)) == interleaved(a@, b@),
        decreases x.len() - i,
    {
        let ghost before = r@;
        let ghost xs = x@.skip(i as int);
        let ghost ys = y@.skip(i as int);
        push_char(&mut r, x[i]);
        push_char(&mut r, y[i]);
        proof {
            assert(xs.drop_first() =~= x@.skip(i + 1));
            assert(ys.drop_first() =~= y@.skip(i + 1));
            assert(r@ =~= before + seq![x@[i as int], y@[i as int]]);
            assert(before + (seq![xs[0], ys[0]] + interleaved(xs.drop_first(), ys.drop_first()))
                =~= r@ + interleaved(x@.skip(i + 1), y@.skip(i + 1)));
        }
        i = i + 1;
    }
    let mut j: usize = i;
    while j < x.len()
        invariant
            i <= j <= x.len(),
            i == y.len() || i == x.len(),
            r@ + x@.skip(j as int) + y@.skip(i as int) == interleaved(a@, b@),
            j > i ==> i == y.len(),
        decreases x.len() - j,
    {
        let ghost before = r@;
        push_char(&mut r, x[j]);
        proof {
            assert(before + x@.skip(j as int) =~= r@ + x@.skip(j + 1));
        }
        j = j + 1;
    }
    let mut k: usize = i;
    proof {
        assert(r@ + x@.skip(j as int) =~= r@);
    }
    while k < y.len()
        invariant
            i <= k <= y.len(),
            r@ + y@.skip(k as int) == interleaved(a@, b@),
        decreases y.len() - k,
    {
        let ghost before = r@;
        push_char(&mut r, y[k]);
        proof {
            assert(before + y@.skip(k as int) =~= r@ + y@.skip(k + 1));
        }
        k = k + 1;
    }
    proof {
        assert(r@ + y@.skip(k as int) =~= r@);
    }
    r
}

/// Whether `c` opens a pair of brackets.
pub open spec fn is_opening(c: char) -> bool {
    c == '(' || c == '[' || c == '{'
}

/// Whether `c` closes a pair of brackets.
pub open spec fn is_closing(c: char) -> bool {
    c == ')' || c == ']' || c == '}'
}

/// The bracket that closes what `c` opens.
pub open spec fn closing_of(c: char) -> char {
    if c == '(' {
        ')'
    } else if c == '[' {
        ']'
    } else {
        '}'
    }
}

/// Whether the brackets of `s` are matched, given the brackets in `open`
/// that were opened before `s` and are not closed yet, innermost last. Every
/// closing bracket must close the innermost open one, and none may stay open.
pub open spec fn brackets_match(s: Seq<char>, open: Seq<char>) -> bool
    decreases s.len(),
{
    if s.len() == 0 {
        open.len() == 0
    } else if is_opening(s[0]) {
        brackets_match(s.drop_first(), open.push(s[0]))
    } else if is_closing(s[0]) {
        open.len() > 0 && closing_of(open.last()) == s[0] && brackets_match(
            s.drop_first(),
            open.drop_last(),
        )
    } else {
        brackets_match(s.drop_first(), open)
    }
}

/// Whether all round, square and curly brackets in `input` are matched.
pub fn match_parentheses(input: &str) -> (ok: bool)
    ensures
        ok == brackets_match(input@, Seq::empty()),
{
    let chars = chars_of(input);
    let mut open: Vec<char> = Vec::new();
    let mut i: usize = 0;
    assert(chars@.skip(0) =~= chars@);
    while i < chars.len()
        invariant
            i <= chars.len(),
            chars@ == input@,
            brackets_match(input@, Seq::empty()) == brackets_match(chars@.skip(i as int), open@),
        decreases chars.len() - i,
    {
        let c = chars[i];
        proof {
            assert(chars@.skip(i as int).drop_first() =~= chars@.skip(i + 1));
        }
        if c == '(' || c == '[' || c == '{' {
            open.push(c);
        } else if c == ')' || c == ']' || c == '}' {
            match open.pop() {
                None => {
                    return false;
                },
                Some(o) => {
                    let expected = if o == '(' {
                        ')'
                    } else if o == '[' {
                        ']'
                    } else {
                        '}'
                    };
                    if expected != c {
                        return false;
                    }
                },
            }
        }
        i = i + 1;
    }
    open.len() == 0
}

} // verus!
