//! A presentation extension for [`Option`]: quoted contents, `None` spelled
//! out.

use vstd::prelude::*;
use vstd::string::StringExecFns;

use crate::trace::TraceValue;

verus! {

/// Wraps an `&Option<T>` for presentation.
pub struct OptionTrace<'a, T>(&'a Option<T>);

/// The entry point to [`OptionTrace`].
pub trait OptionExt {
    /// What the option holds.
    type T;

    /// Wrap this option for presentation.
    fn trace<'a>(&'a self) -> OptionTrace<'a, Self::T>;
}

impl<T> OptionExt for Option<T> {
    type T = T;

    fn trace<'a>(&'a self) -> OptionTrace<'a, T> {
        OptionTrace(self)
    }
}

impl<'a, T: TraceValue> OptionTrace<'a, T> {
    /// What this wrapper prints.
    pub closed spec fn text_spec(&self) -> Seq<char> {
        match *self.0 {
            Some(v) => seq!['"'] + v.text_spec() + seq!['"'],
            None => "None"@,
        }
    }

    /// Render: `"value"` when present, `None` otherwise.
    pub fn to_text(&self) -> (r: String)
        ensures
            r@ == self.text_spec(),
    {
        match self.0 {
            Some(v) => {
                let mut s = String::from_str("\"");
                s.append(v.text().as_str());
                s.append("\"");
                proof {
                    reveal_strlit("\"");
                    assert(s@ =~= self.text_spec());
                }
                s
            },
            None => String::from_str("None"),
        }
    }
}

} // verus!
