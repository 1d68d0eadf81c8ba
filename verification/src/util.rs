//! Diagnostic plumbing: log lines for the pipeline's error types, and plain
//! (unquoted) presentation wrappers for `Option` and `Result`.

use vstd::prelude::*;
use vstd::string::StringExecFns;

use crate::file::PackError;
use crate::remote::LyricsError;
use crate::remote::NOT_FOUND_STATUS;
use crate::trace::TraceValue;

verus! {

/// A type with a log line of its own. The unverified binary prints this
/// where the pipeline reports a non-fatal failure.
pub trait TraceLog {
    /// The log line for this value.
    fn trace_log(&self) -> String;
}

/// Carry a result through while exposing its error's log line: the value is
/// returned unchanged.
pub trait TraceErr {
    /// Hand the value back unchanged; the caller logs the error's line.
    fn trace_err(self) -> (r: Self)
        ensures
            r == self,
    ;
}

impl<T, E: TraceLog> TraceErr for Result<T, E> {
    fn trace_err(self) -> (r: Self) {
        self
    }
}

/// What a recovered-or-missing tag prints as in diagnostics.
pub open spec fn opt_text_spec(o: Option<String>) -> Seq<char> {
    match o {
        Some(s) => seq!['"'] + s@ + seq!['"'],
        None => "None"@,
    }
}

fn opt_text(o: &Option<String>) -> (r: String)
    ensures
        r@ == opt_text_spec(*o),
{
    match o {
        Some(v) => {
            let mut s = String::from_str("\"");
            s.append(v.as_str());
            s.append("\"");
            proof {
                reveal_strlit("\"");
                assert(s@ =~= opt_text_spec(Some(*v)));
            }
            s
        },
        None => String::from_str("None"),
    }
}

/// The log line of each request-preparation failure.
pub open spec fn pack_error_line(e: PackError) -> Seq<char> {
    match e {
        PackError::Lofty { path, message } => "underlying tagging error at "@ + path@ + ": "@
            + message@,
        PackError::Io(m) => m@,
        PackError::RequestPrepare { artist, title } => "failed to prepare a request. artist is "@
            + opt_text_spec(artist) + ", title is "@ + opt_text_spec(title),
        PackError::Ignore(m) => m@,
    }
}

impl TraceLog for PackError {
    fn trace_log(&self) -> (r: String)
        ensures
            r@ == pack_error_line(*self),
    {
        match self {
            PackError::Lofty { path, message } => {
                let mut s = String::from_str("underlying tagging error at ");
                s.append(path.as_str());
                s.append(": ");
                s.append(message.as_str());
                s
            },
            PackError::Io(m) => m.clone(),
            PackError::RequestPrepare { artist, title } => {
                let mut s = String::from_str("failed to prepare a request. artist is ");
                s.append(opt_text(artist).as_str());
                s.append(", title is ");
                s.append(opt_text(title).as_str());
                s
            },
            PackError::Ignore(m) => m.clone(),
        }
    }
}

/// The log line of each remote failure; the not-found answer is reported
/// calmly, since it only drives the absence-marking branch.
pub open spec fn lyrics_error_line(e: LyricsError) -> Seq<char> {
    match e {
        LyricsError::InvalidRequest(m) =>
            "built an invalid request, this is bad, please report this to the developer: "@ + m@,
        LyricsError::Misc(m) => "misc request error: "@ + m@,
        LyricsError::InvalidStatusCode { status, url } => if status == NOT_FOUND_STATUS {
            "lyrics not found at "@ + url@
        } else {
            "received http error from "@ + url@
        },
    }
}

impl TraceLog for LyricsError {
    fn trace_log(&self) -> (r: String)
        ensures
            r@ == lyrics_error_line(*self),
    {
        match self {
            LyricsError::InvalidRequest(m) => {
                let mut s = String::from_str(
                    "built an invalid request, this is bad, please report this to the developer: ",
                );
                s.append(m.as_str());
                s
            },
            LyricsError::Misc(m) => {
                let mut s = String::from_str("misc request error: ");
                s.append(m.as_str());
                s
            },
            LyricsError::InvalidStatusCode { status, url } => {
                if *status == NOT_FOUND_STATUS {
                    let mut s = String::from_str("lyrics not found at ");
                    s.append(url.as_str());
                    s
                } else {
                    let mut s = String::from_str("received http error from ");
                    s.append(url.as_str());
                    s
                }
            },
        }
    }
}

/// Wraps an `&Option<T>` for plain presentation: the bare value, or `None`.
pub struct OptionTrace<'a, T>(&'a Option<T>);

/// The entry point to [`OptionTrace`].
pub trait OptionExt {
    /// What the option holds.
    type Value;

    /// Wrap this option for presentation.
    fn trace<'a>(&'a self) -> OptionTrace<'a, Self::Value>;
}

impl<T> OptionExt for Option<T> {
    type Value = T;

    fn trace<'a>(&'a self) -> OptionTrace<'a, T> {
        OptionTrace(self)
    }
}

impl<'a, T: TraceValue> OptionTrace<'a, T> {
    /// What this wrapper prints.
    pub closed spec fn text_spec(&self) -> Seq<char> {
        match *self.0 {
            Some(v) => v.text_spec(),
            None => "None"@,
        }
    }

    /// Render the bare value, or `None`.
    pub fn to_text(&self) -> (r: String)
        ensures
            r@ == self.text_spec(),
    {
        match self.0 {
            Some(v) => v.text(),
            None => String::from_str("None"),
        }
    }
}

/// Wraps an `&Result<T, E>` for plain presentation: the bare value, or
/// `Err(error)`.
pub struct ResultTrace<'a, T, E>(&'a Result<T, E>);

/// The entry point to [`ResultTrace`].
pub trait ResultExt {
    /// What success holds.
    type T;

    /// What failure holds.
    type E;

    /// Wrap this result for presentation.
    fn trace<'a>(&'a self) -> ResultTrace<'a, Self::T, Self::E>;
}

impl<T, E> ResultExt for Result<T, E> {
    type T = T;

    type E = E;

    fn trace<'a>(&'a self) -> ResultTrace<'a, T, E> {
        ResultTrace(self)
    }
}

impl<'a, T: TraceValue, E: TraceValue> ResultTrace<'a, T, E> {
    /// What this wrapper prints.
    pub closed spec fn text_spec(&self) -> Seq<char> {
        match *self.0 {
            Ok(v) => v.text_spec(),
            Err(e) => "Err("@ + e.text_spec() + ")"@,
        }
    }

    /// Render the bare value, or `Err(error)`.
    pub fn to_text(&self) -> (r: String)
        ensures
            r@ == self.text_spec(),
    {
        match self.0 {
            Ok(v) => v.text(),
            Err(e) => {
                let mut s = String::from_str("Err(");
                s.append(e.text().as_str());
                s.append(")");
                s
            },
        }
    }
}

} // verus!
