//! Cinema tickets in the form `movie;day;visitor`, parsed without copying
//! the text.
use crate::text::{chars_of, find_char, index_of_char, push_char, str_equal};
use vstd::prelude::*;
use vstd::string::StrSliceExecFns;

verus! {

/// A day of the week.
#[derive(Debug, Clone, Copy, PartialEq, Eq, Structural)]
pub enum Day {
    Monday,
    Tuesday,
    Wednesday,
    Thursday,
    Friday,
    Saturday,
    Sunday,
}

/// A ticket; its texts are parts of the text it was parsed from.
#[derive(Debug, Clone, Copy, PartialEq, Eq)]
pub struct Ticket<'a> {
    /// The movie's name.
    pub movie: &'a str,
    /// The day of the show.
    pub day: Day,
    /// The visitor's name; `None` for an anonymous ticket.
    pub visitor: Option<&'a str>,
}

/// Mathematical value of a [`Ticket`].
pub struct TicketView {
    pub movie: Seq<char>,
    pub day: Day,
    pub visitor: Option<Seq<char>>,
}

impl<'a> View for Ticket<'a> {
    type V = TicketView;

    open spec fn view(&self) -> TicketView {
        TicketView {
            movie: self.movie@,
            day: self.day,
            visitor: match self.visitor {
                Some(v) => Some(v@),
                None => None,
            },
        }
    }
}

/// Whether `c` may stand in a name: a letter of the English alphabet, a
/// digit or a space.
pub open spec fn is_name_char(c: char) -> bool {
    ('a' <= c <= 'z') || ('A' <= c <= 'Z') || ('0' <= c <= '9') || c == ' '
}

/// Whether `s` is made of characters that may stand in a name.
pub open spec fn valid_name(s: Seq<char>) -> bool {
    forall|i: int| 0 <= i < s.len() ==> is_name_char(#[trigger] s[i])
}

/// `c` in lower case, if it is an upper-case letter of the English alphabet.
pub open spec fn lower(c: char) -> char {
    if 'A' <= c <= 'Z' {
        ((c as u32 + 32) as u8) as char
    } else {
        c
    }
}

/// `s` in lower case.
pub open spec fn lowered(s: Seq<char>) -> Seq<char> {
    Seq::new(s.len(), |i: int| lower(s[i]))
}

/// The day that `s` names, whatever the case of its letters.
pub open spec fn day_of(s: Seq<char>) -> Option<Day> {
    let l = lowered(s);
    if l == "monday"@ {
        Some(Day::Monday)
    } else if l == "tuesday"@ {
        Some(Day::Tuesday)
    } else if l == "wednesday"@ {
        Some(Day::Wednesday)
    } else if l == "thursday"@ {
        Some(Day::Thursday)
    } else if l == "friday"@ {
        Some(Day::Friday)
    } else if l == "saturday"@ {
        Some(Day::Saturday)
    } else if l == "sunday"@ {
        Some(Day::Sunday)
    } else {
        None
    }
}

/// The ticket that `s` spells. The movie's name ends at the first
/// semicolon and must not be empty; the day ends at the second semicolon or
/// at the end of the text; what follows the second semicolon is the visitor's
/// name, and where nothing follows, or no second semicolon stands, the
/// ticket is anonymous.
pub open spec fn ticket_spec(s: Seq<char>) -> Option<TicketView> {
    let p = index_of_char(s, ';');
    if p >= s.len() || p == 0 || !valid_name(s.take(p as int)) {
        None
    } else {
        let rest = s.skip(p as int + 1);
        let q = index_of_char(rest, ';');
        let day_text = if q >= rest.len() {
            rest
        } else {
            rest.take(q as int)
        };
        let visitor = if q >= rest.len() {
            Seq::empty()
        } else {
            rest.skip(q as int + 1)
        };
        match day_of(day_text) {
            None => None,
            Some(day) => if !valid_name(visitor) {
                None
            } else {
                Some(
                    TicketView {
                        movie: s.take(p as int),
                        day,
                        visitor: if visitor.len() == 0 {
                            None
                        } else {
                            Some(visitor)
                        },
                    },
                )
            },
        }
    }
}

/// Whether `c` may stand in a name.
fn name_char(c: char) -> (ok: bool)
    ensures
        ok == is_name_char(c),
{
    let u: u32 = c as u32;
    (97 <= u && u <= 122) || (65 <= u && u <= 90) || (48 <= u && u <= 57) || u == 32
}

/// `c` in lower case.
fn lower_char(c: char) -> (l: char)
    ensures
        l == lower(c),
{
    let u: u32 = c as u32;
    if 65 <= u && u <= 90 {
        ((u + 32) as u8) as char
    } else {
        c
    }
}

/// Whether `chars[lo..hi]` is made of characters that may stand in a name.
fn is_valid_name(chars: &Vec<char>, lo: usize, hi: usize) -> (ok: bool)
    requires
        lo <= hi <= chars.len(),
    ensures
        ok == valid_name(chars@.subrange(lo as int, hi as int)),
{
    let ghost s = chars@.subrange(lo as int, hi as int);
    let mut i: usize = lo;
    while i < hi
        invariant
            lo <= i <= hi <= chars.len(),
            s == chars@.subrange(lo as int, hi as int),
            forall|k: int| 0 <= k < i - lo ==> is_name_char(#[trigger] s[k]),
        decreases hi - i,
    {
        let ok = name_char(chars[i]);
        assert(s[i - lo] == chars@[i as int]);
        if !ok {
            assert(!is_name_char(s[i - lo]));
            return false;
        }
        i = i + 1;
    }
    true
}

/// The day that `chars[lo..hi]` names.
fn parse_day(chars: &Vec<char>, lo: usize, hi: usize) -> (day: Option<Day>)
    requires
        lo <= hi <= chars.len(),
    ensures
        day == day_of(chars@.subrange(lo as int, hi as int)),
{
    let ghost s = chars@.subrange(lo as int, hi as int);
    let mut low = String::new();
    let mut i: usize = lo;
    assert(low@ =~= lowered(s.take(0)));
    while i < hi
        invariant
            lo <= i <= hi <= chars.len(),
            s == chars@.subrange(lo as int, hi as int),
            low@ == lowered(s.take(i - lo)),
        decreases hi - i,
    {
        push_char(&mut low, lower_char(chars[i]));
        assert(low@ =~= lowered(s.take(i - lo + 1)));
        i = i + 1;
    }
    assert(s.take(hi - lo) =~= s);
    let text = low.as_str();
    if str_equal(text, "monday") {
        Some(Day::Monday)
    } else if str_equal(text, "tuesday") {
        Some(Day::Tuesday)
    } else if str_equal(text, "wednesday") {
        Some(Day::Wednesday)
    } else if str_equal(text, "thursday") {
        Some(Day::Thursday)
    } else if str_equal(text, "friday") {
        Some(Day::Friday)
    } else if str_equal(text, "saturday") {
        Some(Day::Saturday)
    } else if str_equal(text, "sunday") {
        Some(Day::Sunday)
    } else {
        None
    }
}

/// Parses a ticket; `None` for a text that is no ticket.
pub fn parse_ticket<'a>(input: &'a str) -> (res: Option<Ticket<'a>>)
    ensures
        match res {
            Some(t) => ticket_spec(input@) == Some(t@),
            None => ticket_spec(input@) is None,
        },
{
    let chars = chars_of(input);
    let n = chars.len();
    assert(chars@.subrange(0, n as int) =~= chars@);
    let p = match find_char(&chars, 0, n, ';') {
        Some(p) => p,
        None => {
            return None;
        },
    };
    assert(chars@.take(p as int) =~= chars@.subrange(0, p as int));
    if p == 0 || !is_valid_name(&chars, 0, p) {
        return None;
    }
    let ghost rest = chars@.skip(p + 1);
    assert(rest =~= chars@.subrange(p + 1, n as int));
    let q = match find_char(&chars, p + 1, n, ';') {
        Some(q) => q,
        None => n,
    };
    proof {
        if q < n {
            assert(rest.take(q - p - 1) =~= chars@.subrange(p + 1, q as int));
            assert(rest.skip(q - p) =~= chars@.subrange(q + 1, n as int));
        } else {
            assert(chars@.subrange(n as int, n as int) =~= Seq::<char>::empty());
        }
    }
    let visitor_lo = if q < n {
        q + 1
    } else {
        n
    };
    let day = match parse_day(&chars, p + 1, q) {
        Some(day) => day,
        None => {
            return None;
        },
    };
    if !is_valid_name(&chars, visitor_lo, n) {
        return None;
    }
    let visitor = if visitor_lo < n {
        Some(input.substring_char(visitor_lo, n))
    } else {
        None
    };
    Some(Ticket { movie: input.substring_char(0, p), day, visitor })
}

} // verus!
