use vstd::prelude::*;
use crate::event::Event;
use crate::record::LineRecord;

verus! {

/// The byte that ends a line.
pub const NEWLINE: u8 = 10;

/// Index of the first newline in `d` at or after `i`, or `d.len()` when none follows.
pub open spec fn next_newline(d: Seq<u8>, i: int) -> int
    decreases d.len() - i,
{
    if i >= d.len() {
        d.len() as int
    } else if d[i] == NEWLINE {
        i
    } else {
        next_newline(d, i + 1)
    }
}

/// The complete (newline-terminated) lines of `d` that start at `i` or later,
/// each without its newline. Bytes after the last newline form no line.
pub open spec fn lines_from(d: Seq<u8>, i: int) -> Seq<Seq<u8>>
    decreases d.len() - i,
    when 0 <= i
    via lines_from_decreases
{
    if i >= d.len() {
        Seq::empty()
    } else {
        let n = next_newline(d, i);
        if n >= d.len() {
            Seq::empty()
        } else {
            seq![d.subrange(i, n)] + lines_from(d, n + 1)
        }
    }
}

#[via_fn]
proof fn lines_from_decreases(d: Seq<u8>, i: int) {
    if i < d.len() {
        lemma_next_newline_bounds(d, i);
    }
}

/// The complete lines of `d`, in order.
pub open spec fn complete_lines(d: Seq<u8>) -> Seq<Seq<u8>> {
    lines_from(d, 0)
}

/// Bytes taken up by `ls` in the file: each line and its newline.
pub open spec fn line_costs(ls: Seq<Seq<u8>>) -> nat
    decreases ls.len(),
{
    if ls.len() == 0 {
        0
    } else {
        line_costs(ls.drop_last()) + ls.last().len() + 1
    }
}

pub proof fn lemma_next_newline_bounds(d: Seq<u8>, i: int)
    requires
        0 <= i <= d.len(),
    ensures
        i <= next_newline(d, i) <= d.len(),
        next_newline(d, i) < d.len() ==> d[next_newline(d, i)] == NEWLINE,
        forall|k: int| i <= k < next_newline(d, i) ==> d[k] != NEWLINE,
    decreases d.len() - i,
{
    if i < d.len() && d[i] != NEWLINE {
        lemma_next_newline_bounds(d, i + 1);
    }
}

/// Skipping bytes that are not newlines does not move the next newline.
proof fn lemma_next_newline_skip(d: Seq<u8>, i: int, j: int)
    requires
        0 <= i <= j <= d.len(),
        forall|k: int| i <= k < j ==> d[k] != NEWLINE,
    ensures
        next_newline(d, i) == next_newline(d, j),
    decreases j - i,
{
    if i < j {
        lemma_next_newline_skip(d, i + 1, j);
    }
}

proof fn lemma_line_costs_push(ls: Seq<Seq<u8>>, l: Seq<u8>)
    ensures
        line_costs(ls.push(l)) == line_costs(ls) + l.len() + 1,
{
    assert(ls.push(l).drop_last() =~= ls);
}

/// `l` stands in `d` from `b` on and is followed there by a newline, and
/// holds no newline itself.
pub open spec fn is_terminated_range(d: Seq<u8>, b: int, l: Seq<u8>) -> bool {
    &&& 0 <= b
    &&& b + l.len() < d.len()
    &&& d.subrange(b, b + l.len()) == l
    &&& d[b + l.len()] == NEWLINE
    &&& !l.contains(NEWLINE)
}

/// Each complete line of `d` from `s` on is the contiguous range that starts
/// where the previous lines end, holds no newline, and is followed by one.
proof fn lemma_lines_from_ranges(d: Seq<u8>, s: int)
    requires
        0 <= s <= d.len(),
    ensures
        s + line_costs(lines_from(d, s)) <= d.len(),
        forall|k: int|
            0 <= k < lines_from(d, s).len() ==> is_terminated_range(
                d,
                s + line_costs(lines_from(d, s).take(k)),
                #[trigger] lines_from(d, s)[k],
            ),
    decreases d.len() - s,
{
    if s < d.len() {
        let n = next_newline(d, s);
        lemma_next_newline_bounds(d, s);
        if n < d.len() {
            let head = d.subrange(s, n);
            let ls = lines_from(d, s);
            let rest = lines_from(d, n + 1);
            lemma_lines_from_ranges(d, n + 1);
            assert(ls == seq![head] + rest);
            lemma_costs_prepend(head, rest);
            lemma_first_line_range(d, s);
            assert forall|k: int| 0 <= k < ls.len() implies is_terminated_range(
                d,
                s + line_costs(ls.take(k)),
                #[trigger] ls[k],
            ) by {
                if k == 0 {
                    assert(ls.take(0) =~= Seq::<Seq<u8>>::empty());
                    assert(line_costs(ls.take(0)) == 0);
                } else {
                    assert(ls.take(k) =~= seq![head] + rest.take(k - 1));
                    lemma_costs_prepend(head, rest.take(k - 1));
                    assert(ls[k] == rest[k - 1]);
                }
            }
        }
    }
}

proof fn lemma_first_line_range(d: Seq<u8>, s: int)
    requires
        0 <= s < d.len(),
        next_newline(d, s) < d.len(),
    ensures
        is_terminated_range(d, s, d.subrange(s, next_newline(d, s))),
{
    let n = next_newline(d, s);
    let head = d.subrange(s, n);
    lemma_next_newline_bounds(d, s);
    assert(d.subrange(s, s + head.len()) =~= head);
    if head.contains(NEWLINE) {
        let m = choose|m: int| 0 <= m < head.len() && head[m] == NEWLINE;
        assert(d[s + m] == NEWLINE);
    }
}

proof fn lemma_costs_prepend(h: Seq<u8>, ls: Seq<Seq<u8>>)
    ensures
        line_costs(seq![h] + ls) == h.len() + 1 + line_costs(ls),
    decreases ls.len(),
{
    let hl = seq![h] + ls;
    if ls.len() == 0 {
        assert(hl.drop_last() =~= Seq::<Seq<u8>>::empty());
        assert(hl.last() == h);
        assert(line_costs(hl.drop_last()) == 0);
    } else {
        lemma_costs_prepend(h, ls.drop_last());
        assert(hl.drop_last() =~= seq![h] + ls.drop_last());
        assert(hl.last() == ls.last());
        assert(line_costs(hl) == line_costs(hl.drop_last()) + hl.last().len() + 1);
    }
}

/// Every complete line of `d` is a contiguous run of bytes of `d` with no
/// newline in it, followed by a newline, and the lines follow one another
/// from the start of `d`: line `k` starts where the bytes of lines `0..k`
/// and their newlines end. Together the lines and their newlines take up no
/// more than `d`.
pub proof fn law_lines_are_terminated_ranges(d: Seq<u8>)
    ensures
        line_costs(complete_lines(d)) <= d.len(),
        forall|k: int|
            0 <= k < complete_lines(d).len() ==> is_terminated_range(
                d,
                line_costs(complete_lines(d).take(k)) as int,
                #[trigger] complete_lines(d)[k],
            ),
{
    lemma_lines_from_ranges(d, 0);
}

/// What `String::from_utf8_lossy` makes of a run of bytes.
pub uninterp spec fn lossy_utf8(b: Seq<u8>) -> Seq<char>;

/// Relies on `String::from_utf8_lossy`: it decodes UTF-8 and puts U+FFFD in
/// place of each invalid sequence, so the result depends on the bytes alone,
/// and a newline comes out only where a newline byte went in.
#[verifier::external_body]
fn decode_lossy(b: &[u8]) -> (r: String)
    ensures
        r@ == lossy_utf8(b@),
        !b@.contains(NEWLINE) ==> !r@.contains('\n'),
{
    String::from_utf8_lossy(b).into_owned()
}

/// The record of line `raw` of file `file`.
pub open spec fn record_of(file: Seq<char>, raw: Seq<u8>) -> (Seq<char>, Seq<char>) {
    (file, lossy_utf8(raw))
}

/// Cuts `data` into its complete lines and makes a record of each, tagged
/// with `file`; also returns how many bytes those lines and their newlines
/// take up. Bytes after the last newline are left for a later read.
pub fn read_lines(file: &String, data: &[u8]) -> (r: (Vec<LineRecord>, usize))
    ensures
        r.0@.len() == complete_lines(data@).len(),
        forall|k: int|
            0 <= k < r.0@.len() ==> #[trigger] r.0@[k]@ == record_of(file@, complete_lines(data@)[k]),
        forall|k: int| 0 <= k < r.0@.len() ==> !(#[trigger] r.0@[k]).line@.contains('\n'),
        r.1 == line_costs(complete_lines(data@)),
{
    let ghost d = data@;
    let mut out: Vec<LineRecord> = Vec::new();
    let ghost mut raw: Seq<Seq<u8>> = Seq::empty();
    let mut line: Vec<u8> = Vec::new();
    let mut pos: usize = 0;
    let mut i: usize = 0;
    proof {
        lemma_line_costs_empty();
    }
    while i < data.len()
        invariant
            d == data@,
            pos <= i <= d.len(),
            line@ == d.subrange(pos as int, i as int),
            forall|k: int| pos <= k < i ==> d[k] != NEWLINE,
            complete_lines(d) == raw + lines_from(d, pos as int),
            pos == line_costs(raw),
            out@.len() == raw.len(),
            forall|k: int| 0 <= k < out@.len() ==> #[trigger] out@[k]@ == record_of(file@, raw[k]),
            forall|k: int| 0 <= k < out@.len() ==> !(#[trigger] out@[k]).line@.contains('\n'),
        decreases d.len() - i,
    {
        if data[i] == NEWLINE {
            proof {
                lemma_next_newline_skip(d, pos as int, i as int);
                lemma_first_line_range(d, pos as int);
                assert(lines_from(d, pos as int) == seq![line@] + lines_from(d, i + 1));
                assert(raw + lines_from(d, pos as int) =~= raw.push(line@) + lines_from(d, i + 1));
                lemma_line_costs_push(raw, line@);
            }
            let text = decode_lossy(line.as_slice());
            out.push(LineRecord::new(file.clone(), text));
            proof {
                raw = raw.push(line@);
            }
            line = Vec::new();
            pos = i + 1;
            proof {
                assert(line@ =~= d.subrange(pos as int, (i + 1) as int));
            }
        } else {
            line.push(data[i]);
            proof {
                assert(line@ =~= d.subrange(pos as int, (i + 1) as int));
            }
        }
        i = i + 1;
    }
    proof {
        lemma_next_newline_skip(d, pos as int, i as int);
        assert(raw + lines_from(d, pos as int) =~= raw);
    }
    (out, pos)
}

proof fn lemma_line_costs_empty()
    ensures
        line_costs(Seq::<Seq<u8>>::empty()) == 0,
{
}

/// One row of the offset table.
struct OffsetEntry {
    path: String,
    offset: u64,
}

/// Byte offsets of the files being tailed, keyed by path: how far each file
/// has been read and shipped.
pub struct OffsetTable {
    entries: Vec<OffsetEntry>,
    map: Ghost<Map<Seq<char>, u64>>,
}

impl View for OffsetTable {
    type V = Map<Seq<char>, u64>;

    closed spec fn view(&self) -> Map<Seq<char>, u64> {
        self.map@
    }
}

impl OffsetTable {
    /// The rows hold each path once, and hold exactly the table's map.
    pub closed spec fn wf(&self) -> bool {
        &&& forall|i: int, j: int|
            0 <= i < j < self.entries@.len() ==> (#[trigger] self.entries@[i]).path@
                != (#[trigger] self.entries@[j]).path@
        &&& forall|i: int|
            0 <= i < self.entries@.len() ==> self.map@.contains_key(
                (#[trigger] self.entries@[i]).path@,
            ) && self.map@[self.entries@[i].path@] == self.entries@[i].offset
        &&& forall|k: Seq<char>| #[trigger]
            self.map@.contains_key(k) ==> exists|i: int|
                0 <= i < self.entries@.len() && (#[trigger] self.entries@[i]).path@ == k
    }

    pub fn new() -> (r: OffsetTable)
        ensures
            r.wf(),
            r@ == Map::<Seq<char>, u64>::empty(),
    {
        OffsetTable { entries: Vec::new(), map: Ghost(Map::empty()) }
    }

    fn find(&self, path: &String) -> (r: Option<usize>)
        requires
            self.wf(),
        ensures
            r is None <==> !self@.contains_key(path@),
            r matches Some(i) ==> i < self.entries@.len() && self.entries@[i as int].path@
                == path@,
    {
        let mut i: usize = 0;
        while i < self.entries.len()
            invariant
                self.wf(),
                i <= self.entries@.len(),
                forall|k: int| 0 <= k < i ==> (#[trigger] self.entries@[k]).path@ != path@,
            decreases self.entries@.len() - i,
        {
            if self.entries[i].path == *path {
                proof {
                    assert(self.map@.contains_key(self.entries@[i as int].path@));
                }
                return Some(i);
            }
            i = i + 1;
        }
        None
    }

    /// The offset recorded for `path`, if any.
    pub fn get(&self, path: &String) -> (r: Option<u64>)
        requires
            self.wf(),
        ensures
            r == self@.get(path@),
    {
        match self.find(path) {
            Some(i) => Some(self.entries[i].offset),
            None => None,
        }
    }

    /// Records `offset` for `path`, replacing what was there.
    pub fn set(&mut self, path: &String, offset: u64)
        requires
            old(self).wf(),
        ensures
            final(self).wf(),
            final(self)@ == old(self)@.insert(path@, offset),
    {
        let ghost m = self.map@;
        let ghost mut at: int = 0;
        match self.find(path) {
            Some(i) => {
                self.entries.set(i, OffsetEntry { path: path.clone(), offset });
                proof {
                    at = i as int;
                }
            },
            None => {
                self.entries.push(OffsetEntry { path: path.clone(), offset });
                proof {
                    at = self.entries@.len() - 1;
                }
            },
        }
        self.map = Ghost(m.insert(path@, offset));
        proof {
            let es = self.entries@;
            assert forall|k: Seq<char>| #[trigger] self.map@.contains_key(k) implies exists|i: int|
                0 <= i < es.len() && (#[trigger] es[i]).path@ == k by {
                if k != path@ {
                    let i = choose|i: int| 0 <= i < old(self).entries@.len() && (#[trigger] old(self).entries@[i]).path@ == k;
                    assert(es[i].path@ == k);
                } else {
                    assert(es[at].path@ == path@);
                }
            }
        }
    }

    /// Drops the row of `path`, if there is one.
    pub fn remove(&mut self, path: &String)
        requires
            old(self).wf(),
        ensures
            final(self).wf(),
            final(self)@ == old(self)@.remove(path@),
    {
        let ghost m = self.map@;
        match self.find(path) {
            Some(i) => {
                self.entries.remove(i);
                self.map = Ghost(m.remove(path@));
                proof {
                    let es = self.entries@;
                    let os = old(self).entries@;
                    assert forall|j: int| 0 <= j < es.len() implies self.map@.contains_key(
                        (#[trigger] es[j]).path@,
                    ) && self.map@[es[j].path@] == es[j].offset by {
                        if j < i {
                            assert(es[j] == os[j]);
                        } else {
                            assert(es[j] == os[j + 1]);
                        }
                    }
                    assert forall|k: Seq<char>| #[trigger] self.map@.contains_key(k) implies exists|j: int|
                        0 <= j < es.len() && (#[trigger] es[j]).path@ == k by {
                        let j = choose|j: int| 0 <= j < os.len() && (#[trigger] os[j]).path@ == k;
                        if j < i {
                            assert(es[j] == os[j]);
                        } else {
                            assert(es[j - 1] == os[j]);
                        }
                    }
                    assert forall|a: int, b: int| 0 <= a < b < es.len() implies (#[trigger] es[a]).path@
                        != (#[trigger] es[b]).path@ by {
                        let a0 = if a < i { a } else { a + 1 };
                        let b0 = if b < i { b } else { b + 1 };
                        assert(es[a] == os[a0]);
                        assert(es[b] == os[b0]);
                    }
                }
            },
            None => {
                proof {
                    assert(m.remove(path@) =~= m);
                }
            },
        }
    }
}

/// What the tailer asks of its caller after an event.
#[derive(Debug, PartialEq, Eq, Structural)]
pub enum TailStart {
    /// Nothing to read.
    Idle,
    /// The file is shorter than its offset: it was truncated, and its offset
    /// was set back to its length. Nothing is read.
    Truncated { from: u64, to: u64 },
    /// Read the file from this offset to its end and hand the bytes to
    /// [`Tailer::tail_finish`].
    ReadFrom(u64),
}

/// The first steps of tailing `path`, whose length is `len` (`None` when it
/// could not be read): the new offsets and what to do next.
pub open spec fn start_of(offsets: Map<Seq<char>, u64>, path: Seq<char>, len: Option<u64>) -> (
    Map<Seq<char>, u64>,
    TailStart,
) {
    match (offsets.get(path), len) {
        (Some(o), Some(l)) => if o > l {
            (offsets.insert(path, l), TailStart::Truncated { from: o, to: l })
        } else if o == l {
            (offsets, TailStart::Idle)
        } else {
            (offsets, TailStart::ReadFrom(o))
        },
        _ => (offsets, TailStart::Idle),
    }
}

/// The offsets and next step after `event`, the file's length being `len`.
pub open spec fn on_event_of(offsets: Map<Seq<char>, u64>, event: Event, len: Option<u64>) -> (
    Map<Seq<char>, u64>,
    TailStart,
) {
    match event {
        Event::Initiate(p) => (
            offsets.insert(
                p@,
                match len {
                    Some(l) => l,
                    None => 0,
                },
            ),
            TailStart::Idle,
        ),
        Event::New(p) => start_of(offsets.insert(p@, 0), p@, len),
        Event::Delete(p) => (offsets.remove(p@), TailStart::Idle),
        Event::Write(p) => start_of(offsets, p@, len),
    }
}

/// The offsets after the bytes `data`, read from offset `start` of `path`,
/// were taken in: the offset moves past the complete lines, and only if it
/// still stands at `start`.
pub open spec fn finish_of(offsets: Map<Seq<char>, u64>, path: Seq<char>, start: u64, data: Seq<u8>)
    -> Map<Seq<char>, u64> {
    if offsets.get(path) == Some(start) {
        offsets.insert(path, (start + line_costs(complete_lines(data))) as u64)
    } else {
        offsets
    }
}

/// Follows files as they grow and turns what is appended to them into line
/// records, keeping a byte offset for each file.
pub struct Tailer {
    offsets: OffsetTable,
}

impl View for Tailer {
    type V = Map<Seq<char>, u64>;

    closed spec fn view(&self) -> Map<Seq<char>, u64> {
        self.offsets@
    }
}

impl Tailer {
    pub closed spec fn wf(&self) -> bool {
        self.offsets.wf()
    }

    pub fn new() -> (r: Tailer)
        ensures
            r.wf(),
            r@ == Map::<Seq<char>, u64>::empty(),
    {
        Tailer { offsets: OffsetTable::new() }
    }

    /// The offset recorded for `path`, if the file is being tailed.
    pub fn offset(&self, path: &String) -> (r: Option<u64>)
        requires
            self.wf(),
        ensures
            r == self@.get(path@),
    {
        self.offsets.get(path)
    }

    /// Takes in a file event. `len` is the file's current length, `None`
    /// when it could not be read.
    pub fn on_event(&mut self, event: &Event, len: Option<u64>) -> (r: TailStart)
        requires
            old(self).wf(),
        ensures
            final(self).wf(),
            (final(self)@, r) == on_event_of(old(self)@, *event, len),
    {
        match event {
            Event::Initiate(p) => {
                let l = match len {
                    Some(l) => l,
                    None => 0,
                };
                self.offsets.set(p, l);
                TailStart::Idle
            },
            Event::New(p) => {
                self.offsets.set(p, 0);
                self.tail_start(p, len)
            },
            Event::Delete(p) => {
                self.offsets.remove(p);
                TailStart::Idle
            },
            Event::Write(p) => self.tail_start(p, len),
        }
    }

    /// The first steps of tailing `path`, whose current length is `len`:
    /// an unknown path or length asks for nothing; an offset past the end is
    /// a truncation and is set back to the length; an offset at the end asks
    /// for nothing; otherwise the caller is to read from the offset.
    pub fn tail_start(&mut self, path: &String, len: Option<u64>) -> (r: TailStart)
        requires
            old(self).wf(),
        ensures
            final(self).wf(),
            (final(self)@, r) == start_of(old(self)@, path@, len),
    {
        let offset = match self.offsets.get(path) {
            Some(o) => o,
            None => return TailStart::Idle,
        };
        let l = match len {
            Some(l) => l,
            None => return TailStart::Idle,
        };
        if offset > l {
            self.offsets.set(path, l);
            TailStart::Truncated { from: offset, to: l }
        } else if offset == l {
            TailStart::Idle
        } else {
            TailStart::ReadFrom(offset)
        }
    }

    /// Takes in `data`, the bytes of `path` read from offset `start`: makes a
    /// record of each complete line, in order, and moves the offset past
    /// them. A partial last line is left for the next read. Nothing happens
    /// unless the offset of `path` is still `start`.
    pub fn tail_finish(&mut self, path: &String, start: u64, data: &[u8]) -> (r: Vec<LineRecord>)
        requires
            old(self).wf(),
            start + data@.len() <= u64::MAX,
        ensures
            final(self).wf(),
            final(self)@ == finish_of(old(self)@, path@, start, data@),
            old(self)@.get(path@) == Some(start) ==> {
                &&& r@.len() == complete_lines(data@).len()
                &&& forall|k: int|
                    0 <= k < r@.len() ==> #[trigger] r@[k]@ == record_of(
                        path@,
                        complete_lines(data@)[k],
                    )
                &&& forall|k: int| 0 <= k < r@.len() ==> !(#[trigger] r@[k]).line@.contains('\n')
            },
            old(self)@.get(path@) != Some(start) ==> r@.len() == 0,
    {
        match self.offsets.get(path) {
            Some(o) => {
                if o != start {
                    return Vec::new();
                }
            },
            None => return Vec::new(),
        }
        let (records, used) = read_lines(path, data);
        proof {
            law_lines_are_terminated_ranges(data@);
        }
        self.offsets.set(path, start + used as u64);
        records
    }
}

/// The offsets after a series of reads of `path`, each read starting at the
/// offset the previous ones left and taken in by [`Tailer::tail_finish`].
pub open spec fn after_reads(offsets: Map<Seq<char>, u64>, path: Seq<char>, reads: Seq<Seq<u8>>) -> Map<
    Seq<char>,
    u64,
>
    decreases reads.len(),
{
    if reads.len() == 0 {
        offsets
    } else {
        let m = after_reads(offsets, path, reads.drop_last());
        finish_of(m, path, m[path], reads.last())
    }
}

/// The lines emitted by a series of reads, in order.
pub open spec fn emitted(reads: Seq<Seq<u8>>) -> Seq<Seq<u8>>
    decreases reads.len(),
{
    if reads.len() == 0 {
        Seq::empty()
    } else {
        emitted(reads.drop_last()) + complete_lines(reads.last())
    }
}

/// The bytes of a series of reads.
pub open spec fn total_read(reads: Seq<Seq<u8>>) -> nat
    decreases reads.len(),
{
    if reads.len() == 0 {
        0
    } else {
        total_read(reads.drop_last()) + reads.last().len()
    }
}

proof fn lemma_line_costs_concat(a: Seq<Seq<u8>>, b: Seq<Seq<u8>>)
    ensures
        line_costs(a + b) == line_costs(a) + line_costs(b),
    decreases b.len(),
{
    if b.len() == 0 {
        assert(a + b =~= a);
    } else {
        lemma_line_costs_concat(a, b.drop_last());
        assert((a + b).drop_last() =~= a + b.drop_last());
        assert((a + b).last() == b.last());
    }
}

/// Offsets count shipped bytes: over any series of reads of a tailed file
/// with no truncation between them, the offset moves from where it was by
/// the length of each emitted line plus its newline, summed; so it never
/// goes back. For a file tailed from its creation (offset 0) the offset is
/// exactly that sum.
pub proof fn law_offset_counts_emitted_lines(offsets: Map<Seq<char>, u64>, path: Seq<char>, reads: Seq<Seq<u8>>)
    requires
        offsets.contains_key(path),
        offsets[path] + total_read(reads) <= u64::MAX,
    ensures
        after_reads(offsets, path, reads).contains_key(path),
        after_reads(offsets, path, reads)[path] == offsets[path] + line_costs(emitted(reads)),
        after_reads(offsets, path, reads)[path] >= offsets[path],
        after_reads(offsets, path, reads).remove(path) == offsets.remove(path),
        line_costs(emitted(reads)) <= total_read(reads),
    decreases reads.len(),
{
    if reads.len() == 0 {
        assert(line_costs(Seq::<Seq<u8>>::empty()) == 0);
    } else {
        let init = reads.drop_last();
        law_offset_counts_emitted_lines(offsets, path, init);
        let m = after_reads(offsets, path, init);
        law_lines_are_terminated_ranges(reads.last());
        lemma_line_costs_concat(emitted(init), complete_lines(reads.last()));
        assert(m.insert(path, (m[path] + line_costs(complete_lines(reads.last()))) as u64).remove(
            path,
        ) =~= m.remove(path));
    }
}

/// A truncation is never read across: when a file is found shorter (`len`)
/// than its offset, nothing is read, the offset drops to `len`, and the next
/// read of the file, whatever its length by then, starts at `len`.
pub proof fn law_truncation_reads_nothing(offsets: Map<Seq<char>, u64>, path: Seq<char>, len: u64)
    requires
        offsets.contains_key(path),
        offsets[path] > len,
    ensures
        start_of(offsets, path, Some(len)).1 == (TailStart::Truncated { from: offsets[path], to: len }),
        start_of(offsets, path, Some(len)).0 == offsets.insert(path, len),
        forall|later: u64|
            #[trigger] start_of(start_of(offsets, path, Some(len)).0, path, Some(later)).1 matches TailStart::ReadFrom(o)
                ==> o == len,
{
}

/// A file found at startup ships nothing of what it already holds: its
/// `Initiate` sets the offset to its length and asks for no read, and a
/// write event while the length is unchanged asks for none either.
pub proof fn law_initiate_ships_nothing(offsets: Map<Seq<char>, u64>, path: String, len: u64)
    ensures
        on_event_of(offsets, Event::Initiate(path), Some(len)) == (offsets.insert(path@, len), TailStart::Idle),
        start_of(offsets.insert(path@, len), path@, Some(len)).1 == TailStart::Idle,
        on_event_of(offsets.insert(path@, len), Event::Write(path), Some(len)).1 == TailStart::Idle,
{
}

} // verus!
