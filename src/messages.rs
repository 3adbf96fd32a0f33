use vstd::prelude::*;
use vstd::string::StrSliceExecFns;
use vstd::string::StringExecFns;

use crate::colors::Color;

verus! {

/// A line of text and its colour.
pub type Message = (String, Color);

// ------------------------------- Messages ----------------------------------

/// The message log: lines in the order they were written.
#[derive(Debug)]
pub struct Messages {
    messages: Vec<Message>,
}

impl View for Messages {
    type V = Seq<(Seq<char>, Color)>;

    closed spec fn view(&self) -> Seq<(Seq<char>, Color)> {
        self.messages@.map_values(|m: Message| (m.0@, m.1))
    }
}

impl Messages {
    pub fn empty() -> (r: Self)
        ensures
            r@ == Seq::<(Seq<char>, Color)>::empty(),
    {
        let r = Messages { messages: Vec::new() };
        proof {
            assert(r@ =~= Seq::<(Seq<char>, Color)>::empty());
        }
        r
    }

    pub fn new(message: String, color: Color) -> (r: Self)
        ensures
            r@ == seq![(message@, color)],
    {
        let mut r = Self::empty();
        r.add(message, color);
        proof {
            assert(r@ =~= seq![(message@, color)]);
        }
        r
    }

    pub fn add(&mut self, message: String, color: Color)
        ensures
            final(self)@ == old(self)@.push((message@, color)),
    {
        let ghost m = message@;
        self.messages.push((message, color));
        proof {
            assert(self@ =~= old(self)@.push((m, color)));
        }
    }

    pub fn append(&mut self, other: Self)
        ensures
            final(self)@ == old(self)@ + other@,
    {
        let mut other = other;
        let ghost start = self@;
        let ghost moved = other@;
        self.messages.append(&mut other.messages);
        proof {
            assert(self@ =~= start + moved);
        }
    }

    pub fn len(&self) -> (r: usize)
        ensures
            r == self@.len(),
    {
        self.messages.len()
    }

    /// The lines, oldest first.
    pub fn iter(&self) -> (r: &[Message])
        ensures
            r@.len() == self@.len(),
            forall|i: int| 0 <= i < r@.len() ==> (#[trigger] r@[i]).0@ == self@[i].0 && r@[i].1 == self@[i].1,
    {
        self.messages.as_slice()
    }
}

// --------------------------------- Text ------------------------------------

pub open spec fn direct_text(it: Seq<char>, upper: bool) -> Seq<char> {
    (if upper { "The "@ } else { "the "@ }) + it
}

pub open spec fn is_vowel(c: char) -> bool {
    c == 'a' || c == 'e' || c == 'i' || c == 'o' || c == 'u'
}

pub open spec fn indirect_text(it: Seq<char>, upper: bool) -> Seq<char> {
    let an = it.len() > 0 && is_vowel(it[0]);
    (if upper {
        if an { "An "@ } else { "A "@ }
    } else {
        if an { "an "@ } else { "a "@ }
    }) + it
}

/// The name with a definite article.
pub fn direct(it: &str, upper: bool) -> (r: String)
    ensures
        r@ == direct_text(it@, upper),
{
    let mut s = if upper { String::from_str("The ") } else { String::from_str("the ") };
    s.append(it);
    s
}

/// The name with an indefinite article, "an" before a vowel.
pub fn indirect(it: &str, upper: bool) -> (r: String)
    ensures
        r@ == indirect_text(it@, upper),
{
    let an = if it.unicode_len() > 0 {
        let c = it.get_char(0);
        c == 'a' || c == 'e' || c == 'i' || c == 'o' || c == 'u'
    } else {
        false
    };
    let mut s = if upper {
        if an { String::from_str("An ") } else { String::from_str("A ") }
    } else {
        if an { String::from_str("an ") } else { String::from_str("a ") }
    };
    s.append(it);
    s
}

/// A message in white.
pub(crate) fn say(text: &str) -> (r: Messages)
    ensures
        r@ == seq![(text@, Color::White)],
{
    Messages::new(String::from_str(text), Color::White)
}


// -------------------------------- Numbers ----------------------------------

pub open spec fn digit_char(d: nat) -> char {
    if d == 0 { '0' } else if d == 1 { '1' } else if d == 2 { '2' } else if d == 3 { '3' }
    else if d == 4 { '4' } else if d == 5 { '5' } else if d == 6 { '6' } else if d == 7 { '7' }
    else if d == 8 { '8' } else { '9' }
}

pub open spec fn digits(n: nat) -> Seq<char>
    decreases n,
{
    if n < 10 {
        seq![digit_char(n)]
    } else {
        digits(n / 10).push(digit_char(n % 10))
    }
}

/// An integer written in decimal, with a minus sign when negative.
pub open spec fn decimal_text(n: int) -> Seq<char> {
    if n < 0 {
        seq!['-'] + digits((-n) as nat)
    } else {
        digits(n as nat)
    }
}

/// One decimal digit as a string.
fn digit_string(d: u64) -> (r: String)
    requires
        d < 10,
    ensures
        r@ == seq![digit_char(d as nat)],
{
    if d == 0 {
        proof {
            reveal_strlit("0");
        }
        String::from_str("0")
    } else if d == 1 {
        proof {
            reveal_strlit("1");
        }
        String::from_str("1")
    } else if d == 2 {
        proof {
            reveal_strlit("2");
        }
        String::from_str("2")
    } else if d == 3 {
        proof {
            reveal_strlit("3");
        }
        String::from_str("3")
    } else if d == 4 {
        proof {
            reveal_strlit("4");
        }
        String::from_str("4")
    } else if d == 5 {
        proof {
            reveal_strlit("5");
        }
        String::from_str("5")
    } else if d == 6 {
        proof {
            reveal_strlit("6");
        }
        String::from_str("6")
    } else if d == 7 {
        proof {
            reveal_strlit("7");
        }
        String::from_str("7")
    } else if d == 8 {
        proof {
            reveal_strlit("8");
        }
        String::from_str("8")
    } else if d == 9 {
        proof {
            reveal_strlit("9");
        }
        String::from_str("9")
    } else {
        proof {
            reveal_strlit("9");
        }
        String::from_str("9")
    }
}

/// The digits of `n`, most significant first.
fn digits_string(n: u64) -> (r: String)
    ensures
        r@ == digits(n as nat),
    decreases n,
{
    if n < 10 {
        digit_string(n)
    } else {
        let mut s = digits_string(n / 10);
        let d = digit_string(n % 10);
        s.append(d.as_str());
        s
    }
}

/// The decimal form of the number, with a minus sign when negative.
pub(crate) fn decimal(n: i32) -> (r: String)
    ensures
        r@ == decimal_text(n as int),
{
    if n < 0 {
        let mut s = String::from_str("-");
        proof {
            reveal_strlit("-");
        }
        let t = digits_string((-(n as i64)) as u64);
        s.append(t.as_str());
        s
    } else {
        digits_string(n as u64)
    }
}

} // verus!
