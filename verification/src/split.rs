//! Splitting a string at a delimiter, piece by piece.
use crate::text::{chars_of, find_char, index_of_char};
use vstd::prelude::*;
use vstd::string::StrSliceExecFns;

verus! {

/// The pieces of `s` between the delimiters `d`, empty pieces left out.
pub open spec fn pieces(s: Seq<char>, d: char) -> Seq<Seq<char>>
    decreases s.len(),
{
    if s.len() == 0 {
        Seq::empty()
    } else {
        let p = index_of_char(s, d);
        if p == 0 {
            pieces(s.drop_first(), d)
        } else if p >= s.len() {
            seq![s]
        } else {
            seq![s.take(p as int)] + pieces(s.skip(p as int + 1), d)
        }
    }
}

/// No piece is empty, and no piece holds the delimiter.
pub proof fn lemma_pieces(s: Seq<char>, d: char)
    ensures
        forall|i: int|
            0 <= i < pieces(s, d).len() ==> (#[trigger] pieces(s, d)[i]).len() > 0 && !pieces(
                s,
                d,
            )[i].contains(d),
    decreases s.len(),
{
    if s.len() > 0 {
        let p = index_of_char(s, d);
        crate::text::lemma_index_of_char_found(s, d);
        if p == 0 {
            lemma_pieces(s.drop_first(), d);
        } else if p >= s.len() {
            assert(pieces(s, d)[0] == s);
        } else {
            lemma_pieces(s.skip(p as int + 1), d);
            let head = s.take(p as int);
            assert forall|i: int| 0 <= i < pieces(s, d).len() implies (#[trigger] pieces(s, d)[i]).len()
                > 0 && !pieces(s, d)[i].contains(d) by {
                if i == 0 {
                    assert(pieces(s, d)[0] == head);
                    assert forall|k: int| 0 <= k < head.len() implies head[k] != d by {
                        assert(head[k] == s[k]);
                    }
                } else {
                    assert(pieces(s, d)[i] == pieces(s.skip(p as int + 1), d)[i - 1]);
                }
            }
        }
    }
}

/// Walks through the pieces of a string between delimiters; empty pieces
/// are passed over.
pub struct SplitItems<'a> {
    input: &'a str,
    chars: Vec<char>,
    delimiter: char,
    position: usize,
}

/// The same walker, under the name it has when the delimiter is a space.
pub type SplitSpaces<'a> = SplitItems<'a>;

impl<'a> SplitItems<'a> {
    /// What is left to be split.
    pub closed spec fn remaining(&self) -> Seq<char> {
        self.chars@.skip(self.position as int)
    }

    /// The delimiter.
    pub closed spec fn delimiter(&self) -> char {
        self.delimiter
    }

    /// The walker's invariant.
    pub closed spec fn wf(&self) -> bool {
        &&& self.chars@ == self.input@
        &&& self.position <= self.chars@.len()
    }

    /// A walker at the start of `input`.
    pub fn new(input: &'a str, delimiter: char) -> (s: SplitItems<'a>)
        ensures
            s.wf(),
            s.remaining() == input@,
            s.delimiter() == delimiter,
    {
        let chars = chars_of(input);
        assert(chars@.skip(0) =~= chars@);
        SplitItems { input, chars, delimiter, position: 0 }
    }

    /// The next piece that is not empty.
    pub fn next(&mut self) -> (r: Option<&'a str>)
        requires
            old(self).wf(),
        ensures
            final(self).wf(),
            final(self).delimiter() == old(self).delimiter(),
            match r {
                Some(piece) => pieces(old(self).remaining(), old(self).delimiter()) == seq![
                    piece@,
                ] + pieces(final(self).remaining(), old(self).delimiter()),
                None => pieces(old(self).remaining(), old(self).delimiter()).len() == 0
                    && final(self).remaining().len() == 0,
            },
    {
        let n = self.chars.len();
        let d = self.delimiter;
        let ghost start = self.remaining();
        while self.position < n && self.chars[self.position] == d
            invariant
                self.position <= n,
                n == self.chars.len(),
                d == self.delimiter,
                self.chars@ == self.input@,
                self.input == old(self).input,
                self.delimiter == old(self).delimiter,
                pieces(start, d) == pieces(self.chars@.skip(self.position as int), d),
            decreases n - self.position,
        {
            proof {
                let s = self.chars@.skip(self.position as int);
                assert(s.drop_first() =~= self.chars@.skip(self.position + 1));
            }
            self.position = self.position + 1;
        }
        if self.position >= n {
            assert(self.chars@.skip(n as int) =~= Seq::<char>::empty());
            return None;
        }
        let from = self.position;
        let ghost s = self.chars@.skip(from as int);
        assert(s =~= self.chars@.subrange(from as int, n as int));
        match find_char(&self.chars, from, n, d) {
            Some(e) => {
                self.position = e + 1;
                proof {
                    assert(s.take(e - from) =~= self.chars@.subrange(from as int, e as int));
                    assert(s.skip(e - from + 1) =~= self.chars@.skip(e + 1));
                }
                Some(self.input.substring_char(from, e))
            },
            None => {
                self.position = n;
                proof {
                    assert(self.chars@.skip(n as int) =~= Seq::<char>::empty());
                    assert(seq![s] + Seq::<Seq<char>>::empty() =~= seq![s]);
                }
                Some(self.input.substring_char(from, n))
            },
        }
    }
}

} // verus!
