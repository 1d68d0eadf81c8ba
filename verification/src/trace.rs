//! Presentation of optional and fallible values for diagnostics, without
//! requiring the wrapped type to carry a formatter of its own: a value
//! renders through [`TraceValue`], and [`Trace`] wraps an `Option` or
//! `Result` around that.

use vstd::prelude::*;
use vstd::string::StringExecFns;

verus! {

/// The character for one decimal digit.
pub open spec fn digit_char(d: nat) -> char {
    if d == 0 { '0' } else if d == 1 { '1' } else if d == 2 { '2' }
    else if d == 3 { '3' } else if d == 4 { '4' } else if d == 5 { '5' }
    else if d == 6 { '6' } else if d == 7 { '7' } else if d == 8 { '8' }
    else { '9' }
}

/// The decimal rendering of a natural number, most significant digit first.
pub open spec fn dec_digits(n: nat) -> Seq<char>
    decreases n,
{
    if n < 10 {
        seq![digit_char(n)]
    } else {
        dec_digits(n / 10).push(digit_char(n % 10))
    }
}

fn digit_str(d: u64) -> (s: &'static str)
    requires
        d < 10,
    ensures
        s@ == seq![digit_char(d as nat)],
{
    let s: &'static str = match d {
        0 => "0", 1 => "1", 2 => "2", 3 => "3", 4 => "4",
        5 => "5", 6 => "6", 7 => "7", 8 => "8",
        _ => "9",
    };
    proof {
        reveal_strlit("0"); reveal_strlit("1"); reveal_strlit("2"); reveal_strlit("3");
        reveal_strlit("4"); reveal_strlit("5"); reveal_strlit("6"); reveal_strlit("7");
        reveal_strlit("8"); reveal_strlit("9");
        assert(s@ =~= seq![digit_char(d as nat)]);
    }
    s
}

/// Render `n` in decimal.
pub fn u64_digits(n: u64) -> (s: String)
    ensures
        s@ == dec_digits(n as nat),
    decreases n,
{
    if n < 10 {
        String::from_str(digit_str(n))
    } else {
        let mut s = u64_digits(n / 10);
        s.append(digit_str(n % 10));
        proof {
            assert(s@ =~= dec_digits(n as nat));
        }
        s
    }
}

/// A value that can present itself as text. This stands in for a formatter:
/// the rendering is a function of the value, stated by `text_spec`.
pub trait TraceValue {
    /// What this value renders as.
    spec fn text_spec(&self) -> Seq<char>;

    /// Render the value.
    fn text(&self) -> (r: String)
        ensures
            r@ == self.text_spec(),
    ;
}

impl TraceValue for u64 {
    open spec fn text_spec(&self) -> Seq<char> {
        dec_digits(*self as nat)
    }

    fn text(&self) -> (r: String) {
        u64_digits(*self)
    }
}

impl TraceValue for String {
    open spec fn text_spec(&self) -> Seq<char> {
        self@
    }

    fn text(&self) -> (r: String) {
        self.clone()
    }
}

/// Presents the wrapped `Option` or `Result` nicely in user-facing output:
/// inner values quoted, `None` spelled out, errors marked `Err(..)`.
pub struct Trace<T>(T);

/// The entry point to [`Trace`]: everything that can be wrapped.
pub trait TraceExt {
    /// Wrap this value for presentation.
    fn trace<'a>(&'a self) -> Trace<&'a Self>;
}

impl<T, E> TraceExt for Result<T, E> {
    fn trace<'a>(&'a self) -> Trace<&'a Self> {
        Trace(self)
    }
}

impl<T> TraceExt for Option<T> {
    fn trace<'a>(&'a self) -> Trace<&'a Self> {
        Trace(self)
    }
}

impl<'a, T: TraceValue, E: TraceValue> Trace<&'a Result<T, E>> {
    /// What this wrapper prints.
    pub closed spec fn text_spec(&self) -> Seq<char> {
        match *self.0 {
            Ok(v) => seq!['"'] + v.text_spec() + seq!['"'],
            Err(e) => "Err(\""@ + e.text_spec() + "\")"@,
        }
    }

    /// Render: `"value"` for success, `Err("error")` for failure.
    pub fn to_text(&self) -> (r: String)
        ensures
            r@ == self.text_spec(),
    {
        match self.0 {
            Ok(v) => {
                let mut s = String::from_str("\"");
                s.append(v.text().as_str());
                s.append("\"");
                proof {
                    reveal_strlit("\"");
                    assert(s@ =~= self.text_spec());
                }
                s
            },
            Err(e) => {
                let mut s = String::from_str("Err(\"");
                s.append(e.text().as_str());
                s.append("\")");
                s
            },
        }
    }
}

impl<'a, T: TraceValue> Trace<&'a Option<T>> {
    /// What this wrapper prints.
    pub closed spec fn text_spec(&self) -> Seq<char> {
        match *self.0 {
            Some(v) => seq!['"'] + v.text_spec() + seq!['"'],
            None => "None"@,
        }
    }

    /// Render: `"value"` when present, `None` otherwise.
    pub fn to_text(&self) -> (r: String)
        ensures
            r@ == self.text_spec(),
    {
        match self.0 {
            Some(v) => {
                let mut s = String::from_str("\"");
                s.append(v.text().as_str());
                s.append("\"");
                proof {
                    reveal_strlit("\"");
                    assert(s@ =~= self.text_spec());
                }
                s
            },
            None => String::from_str("None"),
        }
    }
}

} // verus!
