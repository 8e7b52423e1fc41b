use vstd::prelude::*;

verus! {

/// One line of a tailed file, as handed to the ingest client.
#[derive(Debug, PartialEq, Eq)]
pub struct LineRecord {
    /// The path of the file the line came from.
    pub file: String,
    /// The text of the line, without its trailing newline.
    pub line: String,
}

impl View for LineRecord {
    type V = (Seq<char>, Seq<char>);

    open spec fn view(&self) -> (Seq<char>, Seq<char>) {
        (self.file@, self.line@)
    }
}

impl Clone for LineRecord {
    fn clone(&self) -> (r: LineRecord)
        ensures
            r == *self,
    {
        LineRecord { file: self.file.clone(), line: self.line.clone() }
    }
}

impl LineRecord {
    pub fn new(file: String, line: String) -> (r: LineRecord)
        ensures
            r.file == file,
            r.line == line,
    {
        LineRecord { file, line }
    }
}

/// A non-empty, ordered batch of line records: the unit that is sent to the
/// ingest service and parked in the retry spool.
#[derive(Debug)]
pub struct IngestBody {
    lines: Vec<LineRecord>,
}

impl Clone for IngestBody {
    fn clone(&self) -> (r: IngestBody)
        ensures
            r.view() == self.view(),
    {
        proof {
            use_type_invariant(self);
        }
        let lines = self.lines.clone();
        proof {
            assert forall|i: int| 0 <= i < lines@.len() implies lines@[i] == self.lines@[i] by {
                assert(cloned::<LineRecord>(self.lines[i], lines[i]));
            }
            assert(lines@ =~= self.lines@);
        }
        IngestBody { lines }
    }
}

impl IngestBody {
    #[verifier::type_invariant]
    spec fn non_empty(&self) -> bool {
        self.lines@.len() > 0
    }

    pub closed spec fn view(&self) -> Seq<LineRecord> {
        self.lines@
    }

    /// Builds a body from `lines`; `None` when there is no line.
    pub fn new(lines: Vec<LineRecord>) -> (r: Option<IngestBody>)
        ensures
            r is None <==> lines@.len() == 0,
            r matches Some(b) ==> b.view() == lines@,
    {
        if lines.len() == 0 {
            None
        } else {
            Some(IngestBody { lines })
        }
    }

    pub fn lines(&self) -> (r: &Vec<LineRecord>)
        ensures
            r@ == self.view(),
            r@.len() > 0,
    {
        proof {
            use_type_invariant(self);
        }
        &self.lines
    }

    pub fn into_lines(self) -> (r: Vec<LineRecord>)
        ensures
            r@ == self.view(),
            r@.len() > 0,
    {
        proof {
            use_type_invariant(&self);
        }
        self.lines
    }
}

} // verus!
