use vstd::prelude::*;

verus! {

/// A change in the life of a watched file.
#[derive(Debug)]
pub enum Event {
    /// The file was already there when watching began.
    Initiate(String),
    /// The file was created while watching.
    New(String),
    /// The file was deleted or moved away.
    Delete(String),
    /// The file was written to.
    Write(String),
}

/// What std's `Debug` makes of a string: the text in double quotes, with
/// quotes, backslashes and control characters escaped.
pub uninterp spec fn debug_quoted(s: Seq<char>) -> Seq<char>;

/// Relies on `<str as Debug>::fmt`: the quoted, escaped form of `s`, which
/// depends on `s` alone.
#[verifier::external_body]
fn quote(s: &str) -> (r: String)
    ensures
        r@ == debug_quoted(s@),
{
    format!("{:?}", s)
}

impl Event {
    pub open spec fn path_view(&self) -> Seq<char> {
        match self {
            Event::Initiate(p) => p@,
            Event::New(p) => p@,
            Event::Delete(p) => p@,
            Event::Write(p) => p@,
        }
    }

    /// The path the event is about.
    pub fn path(&self) -> (r: &String)
        ensures
            r@ == self.path_view(),
    {
        match self {
            Event::Initiate(p) => p,
            Event::New(p) => p,
            Event::Delete(p) => p,
            Event::Write(p) => p,
        }
    }

    pub open spec fn tag(&self) -> Seq<char> {
        match self {
            Event::Initiate(_) => "INITIATE "@,
            Event::New(_) => "NEW "@,
            Event::Delete(_) => "DELETE "@,
            Event::Write(_) => "WRITE "@,
        }
    }

    /// A one-line description: the kind in capitals, then the quoted path.
    pub fn to_string(&self) -> (r: String)
        ensures
            r@ == self.tag() + debug_quoted(self.path_view()),
    {
        let mut r = match self {
            Event::Initiate(_) => String::from_str("INITIATE "),
            Event::New(_) => String::from_str("NEW "),
            Event::Delete(_) => String::from_str("DELETE "),
            Event::Write(_) => String::from_str("WRITE "),
        };
        let q = quote(self.path().as_str());
        r.append(q.as_str());
        r
    }
}

} // verus!
