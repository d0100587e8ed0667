//! The runtime HTML escaper that escaped value emissions call: `&`, `<`
//! and `>` become their character entities and every other character
//! passes through unchanged.

use vstd::prelude::*;
use crate::text::{chars_of, chars_to_string};

verus! {

/// The HTML-escaped form of `s` from index `i` on.
pub open spec fn html_escape_from(s: Seq<char>, i: int) -> Seq<char>
    decreases s.len() - i,
{
    if i < 0 || i >= s.len() {
        Seq::empty()
    } else if s[i] == '&' {
        "&amp;"@ + html_escape_from(s, i + 1)
    } else if s[i] == '<' {
        "&lt;"@ + html_escape_from(s, i + 1)
    } else if s[i] == '>' {
        "&gt;"@ + html_escape_from(s, i + 1)
    } else {
        seq![s[i]] + html_escape_from(s, i + 1)
    }
}

/// The decimal digits of `n`, most significant first.
pub open spec fn dec_digits(n: nat) -> Seq<char>
    decreases n,
{
    if n < 10 {
        seq![digit_char(n)]
    } else {
        dec_digits(n / 10).push(digit_char(n % 10))
    }
}

/// The character of one decimal digit.
pub open spec fn digit_char(d: nat) -> char {
    if d == 0 {
        '0'
    } else if d == 1 {
        '1'
    } else if d == 2 {
        '2'
    } else if d == 3 {
        '3'
    } else if d == 4 {
        '4'
    } else if d == 5 {
        '5'
    } else if d == 6 {
        '6'
    } else if d == 7 {
        '7'
    } else if d == 8 {
        '8'
    } else {
        '9'
    }
}

/// A value with a textual form that can be written HTML-escaped.
pub trait HtmlEscaped {
    /// The value's textual form.
    spec fn text(&self) -> Seq<char>;

    /// The value's text with `&`, `<` and `>` replaced by their
    /// character entities.
    fn escape(&self) -> (r: String)
        ensures
            r@ == html_escape_from(self.text(), 0),
    ;
}

/// The HTML-escaped form of a character buffer.
fn escape_chars(v: &Vec<char>) -> (r: Vec<char>)
    ensures
        r@ == html_escape_from(v@, 0),
{
    let n = v.len();
    let mut r: Vec<char> = Vec::new();
    let mut i: usize = 0;
    while i < n
        invariant
            0 <= i <= n,
            n == v@.len(),
            html_escape_from(v@, 0) == r@ + html_escape_from(v@, i as int),
        decreases n - i,
    {
        let c = v[i];
        if c == '&' {
            let mut amp = chars_of("&amp;");
            r.append(&mut amp);
        } else if c == '<' {
            let mut lt = chars_of("&lt;");
            r.append(&mut lt);
        } else if c == '>' {
            let mut gt = chars_of("&gt;");
            r.append(&mut gt);
        } else {
            r.push(c);
        }
        i += 1;
        proof {
            assert(html_escape_from(v@, 0) =~= r@ + html_escape_from(v@, i as int));
        }
    }
    proof {
        assert(html_escape_from(v@, i as int) =~= Seq::<char>::empty());
        assert(html_escape_from(v@, 0) =~= r@);
    }
    r
}

impl HtmlEscaped for String {
    open spec fn text(&self) -> Seq<char> {
        self@
    }

    fn escape(&self) -> (r: String) {
        let v = chars_of(self.as_str());
        let e = escape_chars(&v);
        chars_to_string(&e)
    }
}

/// The character of one decimal digit.
fn digit_of(d: u64) -> (c: char)
    requires
        d < 10,
    ensures
        c == digit_char(d as nat),
{
    if d == 0 {
        '0'
    } else if d == 1 {
        '1'
    } else if d == 2 {
        '2'
    } else if d == 3 {
        '3'
    } else if d == 4 {
        '4'
    } else if d == 5 {
        '5'
    } else if d == 6 {
        '6'
    } else if d == 7 {
        '7'
    } else if d == 8 {
        '8'
    } else {
        '9'
    }
}

/// Appends the decimal digits of `n`, most significant first.
fn push_digits(n: u64, out: &mut Vec<char>)
    ensures
        final(out)@ == old(out)@ + dec_digits(n as nat),
    decreases n,
{
    if n < 10 {
        out.push(digit_of(n));
        proof {
            assert(final(out)@ =~= old(out)@ + dec_digits(n as nat));
        }
    } else {
        push_digits(n / 10, out);
        out.push(digit_of(n % 10));
        proof {
            assert(dec_digits(n as nat) == dec_digits(n as nat / 10).push(
                digit_char(n as nat % 10),
            ));
            assert(final(out)@ =~= old(out)@ + dec_digits(n as nat));
        }
    }
}

impl HtmlEscaped for u64 {
    open spec fn text(&self) -> Seq<char> {
        dec_digits(*self as nat)
    }

    fn escape(&self) -> (r: String) {
        let mut v: Vec<char> = Vec::new();
        push_digits(*self, &mut v);
        let e = escape_chars(&v);
        chars_to_string(&e)
    }
}

/// Writes `item` HTML-escaped: `&`, `<` and `>` become `&amp;`, `&lt;`
/// and `&gt;`, and every other character passes through unchanged.
pub fn escape<T: HtmlEscaped>(item: &T) -> (r: String)
    ensures
        r@ == html_escape_from(item.text(), 0),
{
    item.escape()
}

} // verus!
