//! A scripted stand-in for the remote lyrics service: it answers each fetch
//! from a fixed list of outcomes, then from an optional repeated fallback,
//! and counts how often it was called.

use vstd::prelude::*;
use vstd::string::StringExecFns;

use crate::remote::LyricsError;
use crate::remote::LyricsRequest;
use crate::remote::LyricsResponse;
use crate::remote::Remote;

verus! {

fn clone_outcome(o: &Result<LyricsResponse, LyricsError>) -> (r: Result<
    LyricsResponse,
    LyricsError,
>)
    ensures
        r == *o,
{
    match o {
        Ok(v) => Ok(v.clone()),
        Err(e) => Err(e.clone()),
    }
}

/// A [`Remote`] whose answers are scripted: the entries of `script` in
/// order, then `fallback` repeated forever. When the script is exhausted and
/// no fallback was given, fetches fail with a transport-style error.
pub struct TestRemoteImpl {
    script: Vec<Result<LyricsResponse, LyricsError>>,
    cursor: usize,
    fallback: Option<Result<LyricsResponse, LyricsError>>,
    answered: Ghost<nat>,
    counted: usize,
}

impl TestRemoteImpl {
    /// A remote that always answers with `value`, however often it is asked.
    pub fn new_from_value(value: Result<LyricsResponse, LyricsError>) -> (r: Self)
        ensures
            r.calls() == 0,
    {
        TestRemoteImpl {
            script: Vec::new(),
            cursor: 0,
            fallback: Some(value),
            answered: Ghost(0),
            counted: 0,
        }
    }

    /// A remote that answers with the entries of `script` in order, and
    /// fails once they run out.
    pub fn new_from_script(script: Vec<Result<LyricsResponse, LyricsError>>) -> (r: Self)
        ensures
            r.calls() == 0,
    {
        TestRemoteImpl { script, cursor: 0, fallback: None, answered: Ghost(0), counted: 0 }
    }

    /// How many fetches this remote has answered, as observed at run time;
    /// the tally saturates rather than overflow. The ghost count behind
    /// [`Remote::calls`] is what the orchestrator's contracts speak of.
    pub fn call_count(&self) -> usize {
        self.counted
    }
}

impl Remote for TestRemoteImpl {
    closed spec fn calls(&self) -> nat {
        self.answered@
    }

    fn get_lyrics(&mut self, req: &LyricsRequest) -> (r: Result<LyricsResponse, LyricsError>) {
        self.answered = Ghost(self.answered@ + 1);
        if self.counted < usize::MAX {
            self.counted += 1;
        }
        if self.cursor < self.script.len() {
            let r = clone_outcome(&self.script[self.cursor]);
            self.cursor += 1;
            r
        } else {
            match &self.fallback {
                Some(o) => clone_outcome(o),
                None => Err(
                    LyricsError::Misc(String::from_str("scripted remote has no answers left")),
                ),
            }
        }
    }
}

} // verus!
