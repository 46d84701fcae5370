use vstd::prelude::*;

verus! {

/// A unit of clipboard content: UTF-8 text plus the moment of its creation,
/// in milliseconds since the Unix epoch.
#[derive(Debug)]
pub struct Clip {
    pub text: String,
    pub timestamp: u128,
}

/// Relies on `std::time::SystemTime::now` and `duration_since(UNIX_EPOCH)`:
/// the wall clock as milliseconds since the Unix epoch, converted to a plain
/// integer; a clock that reads before the epoch yields 0. Nothing can be
/// promised of the value.
#[verifier::external_body]
fn now_millis() -> u128 {
    match std::time::SystemTime::now().duration_since(std::time::UNIX_EPOCH) {
        Ok(d) => d.as_millis(),
        Err(_) => 0,
    }
}

impl Clip {
    /// The relation that drives deduplication in both directions: a clip
    /// supersedes another iff its timestamp is strictly greater and its text
    /// differs.
    pub open spec fn spec_newer_than(self, other: Clip) -> bool {
        self.timestamp > other.timestamp && self.text@ != other.text@
    }

    /// Stamps the given text with the current wall clock.
    pub fn new(text: &str) -> (r: Clip)
        ensures
            r.text@ == text@,
    {
        Clip { text: text.to_owned(), timestamp: now_millis() }
    }

    /// Builds a clip with an explicit timestamp.
    pub fn with_timestamp(text: &str, timestamp: u128) -> (r: Clip)
        ensures
            r.text@ == text@,
            r.timestamp == timestamp,
    {
        Clip { text: text.to_owned(), timestamp }
    }

    pub fn newer_than(&self, other: &Clip) -> (r: bool)
        ensures
            r == self.spec_newer_than(*other),
    {
        self.timestamp > other.timestamp && !(self.text == other.text)
    }
}

impl Clone for Clip {
    fn clone(&self) -> (r: Self)
        ensures
            r == *self,
    {
        let r = Clip { text: self.text.clone(), timestamp: self.timestamp };
        proof {
            assert(*self == Clip { text: self.text, timestamp: self.timestamp });
        }
        r
    }
}

impl PartialEq for Clip {
    fn eq(&self, other: &Clip) -> (r: bool) {
        self.text == other.text && self.timestamp == other.timestamp
    }
}

impl vstd::std_specs::cmp::PartialEqSpecImpl for Clip {
    open spec fn obeys_eq_spec() -> bool {
        true
    }

    open spec fn eq_spec(&self, other: &Clip) -> bool {
        self.text@ == other.text@ && self.timestamp == other.timestamp
    }
}

} // verus!
