//! A presentation extension for [`Result`]: quoted contents, errors marked
//! `Err(..)`.

use vstd::prelude::*;
use vstd::string::StringExecFns;

use crate::trace::TraceValue;

verus! {

/// Wraps an `&Result<T, E>` for presentation.
pub struct ResultTrace<'a, T, E>(&'a Result<T, E>);

/// The entry point to [`ResultTrace`].
pub trait ResultExt {
    /// What success holds.
    type T;

    /// What failure holds.
    type E;

    /// Wrap this result for presentation.
    fn trace<'a>(&'a self) -> ResultTrace<'a, Self::T, Self::E>;
}

impl<T, E> ResultExt for Result<T, E> {
    type T = T;

    type E = E;

    fn trace<'a>(&'a self) -> ResultTrace<'a, T, E> {
        ResultTrace(self)
    }
}

impl<'a, T: TraceValue, E: TraceValue> ResultTrace<'a, T, E> {
    /// What this wrapper prints.
    pub closed spec fn text_spec(&self) -> Seq<char> {
        match *self.0 {
            Ok(v) => seq!['"'] + v.text_spec() + seq!['"'],
            Err(e) => "Err("@ + e.text_spec() + ")"@,
        }
    }

    /// Render: `"value"` for success, `Err(error)` for failure.
    pub fn to_text(&self) -> (r: String)
        ensures
            r@ == self.text_spec(),
    {
        match self.0 {
            Ok(v) => {
                let mut s = String::from_str("\"");
                s.append(v.text().as_str());
                s.append("\"");
                proof {
                    reveal_strlit("\"");
                    assert(s@ =~= self.text_spec());
                }
                s
            },
            Err(e) => {
                let mut s = String::from_str("Err(");
                s.append(e.text().as_str());
                s.append(")");
                s
            },
        }
    }
}

} // verus!
