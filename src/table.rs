use vstd::prelude::*;

verus! {

broadcast use vstd::seq_lib::group_filter_ensures;

/// A watched path and the kernel's id for its watch.
#[derive(Debug)]
pub struct WatchEntry {
    pub wd: i32,
    pub path: String,
    pub is_dir: bool,
}

/// An entry as its values: watch id, path, whether it is a directory.
pub type EntryView = (i32, Seq<char>, bool);

impl View for WatchEntry {
    type V = EntryView;

    open spec fn view(&self) -> EntryView {
        (self.wd, self.path@, self.is_dir)
    }
}

impl WatchEntry {
    fn duplicate(&self) -> (r: WatchEntry)
        ensures
            r@ == self@,
    {
        WatchEntry { wd: self.wd, path: self.path.clone(), is_dir: self.is_dir }
    }
}

/// No watch id and no path stands twice in `s`.
pub open spec fn one_to_one(s: Seq<EntryView>) -> bool {
    forall|i: int, j: int|
        0 <= i < j < s.len() ==> (#[trigger] s[i]).0 != (#[trigger] s[j]).0 && s[i].1 != s[j].1
}

/// `p` lies inside directory `d`: it starts with `d` and a separator.
pub open spec fn is_under(d: Seq<char>, p: Seq<char>) -> bool {
    ||| (d.len() > 0 && d.last() == '/' && p.len() > d.len() && p.subrange(0, d.len() as int) == d)
    ||| (p.len() > d.len() + 1 && p.subrange(0, d.len() as int) == d && p[d.len() as int] == '/')
}

/// Which entries a sweep of the table takes out.
#[derive(Debug)]
pub enum Sweep {
    /// The entry of this watch id.
    Watch(i32),
    /// The entries of this watch id or of this path.
    WatchOrPath(i32, String),
    /// The entry of this directory's watch id, and the files under the path.
    Subtree(i32, String),
}

/// Whether `sweep` takes out entry `e`.
pub open spec fn swept(sweep: Sweep, e: EntryView) -> bool {
    match sweep {
        Sweep::Watch(wd) => e.0 == wd,
        Sweep::WatchOrPath(wd, p) => e.0 == wd || e.1 == p@,
        Sweep::Subtree(wd, d) => e.0 == wd || (!e.2 && is_under(d@, e.1)),
    }
}

fn starts_under(d: &str, p: &str) -> (r: bool)
    ensures
        r == is_under(d@, p@),
{
    let dl = d.unicode_len();
    let pl = p.unicode_len();
    if pl <= dl {
        return false;
    }
    let mut i: usize = 0;
    while i < dl
        invariant
            dl == d@.len(),
            pl == p@.len(),
            dl < pl,
            i <= dl,
            forall|k: int| 0 <= k < i ==> p@[k] == d@[k],
        decreases dl - i,
    {
        if d.get_char(i) != p.get_char(i) {
            proof {
                assert(p@.subrange(0, dl as int)[i as int] != d@[i as int]);
            }
            return false;
        }
        i = i + 1;
    }
    proof {
        assert(p@.subrange(0, dl as int) =~= d@);
    }
    if dl > 0 && d.get_char(dl - 1) == '/' {
        true
    } else {
        p.get_char(dl) == '/' && pl > dl + 1
    }
}

fn sweeps(sweep: &Sweep, e: &WatchEntry) -> (r: bool)
    ensures
        r == swept(*sweep, e@),
{
    match sweep {
        Sweep::Watch(wd) => e.wd == *wd,
        Sweep::WatchOrPath(wd, p) => e.wd == *wd || e.path == *p,
        Sweep::Subtree(wd, d) => e.wd == *wd || (!e.is_dir && starts_under(d.as_str(), e.path.as_str())),
    }
}

/// The kernel watches in force, each with its path: a one-to-one mapping
/// between watch ids and paths.
#[derive(Debug)]
pub struct WatchTable {
    entries: Vec<WatchEntry>,
}

impl View for WatchTable {
    type V = Seq<EntryView>;

    closed spec fn view(&self) -> Seq<EntryView> {
        self.entries@.map_values(|e: WatchEntry| e@)
    }
}

impl WatchTable {
    pub open spec fn wf(&self) -> bool {
        one_to_one(self@)
    }

    pub fn new() -> (r: WatchTable)
        ensures
            r.wf(),
            r@ == Seq::<EntryView>::empty(),
    {
        let r = WatchTable { entries: Vec::new() };
        proof {
            assert(r@ =~= Seq::<EntryView>::empty());
        }
        r
    }

    pub fn len(&self) -> (r: usize)
        ensures
            r == self@.len(),
    {
        self.entries.len()
    }

    /// The entry of watch id `wd`, if there is one.
    pub fn lookup(&self, wd: i32) -> (r: Option<&WatchEntry>)
        requires
            self.wf(),
        ensures
            r is None <==> forall|i: int| 0 <= i < self@.len() ==> (#[trigger] self@[i]).0 != wd,
            r matches Some(e) ==> e.wd == wd && self@.contains(e@),
    {
        let mut i: usize = 0;
        while i < self.entries.len()
            invariant
                i <= self@.len(),
                self@.len() == self.entries@.len(),
                forall|k: int| 0 <= k < self@.len() ==> #[trigger] self@[k] == self.entries@[k]@,
                forall|k: int| 0 <= k < i ==> (#[trigger] self@[k]).0 != wd,
            decreases self@.len() - i,
        {
            if self.entries[i].wd == wd {
                proof {
                    assert(self@[i as int] == self.entries@[i as int]@);
                }
                return Some(&self.entries[i]);
            }
            i = i + 1;
        }
        None
    }

    /// Takes out the entries that `sweep` names, keeping the others in
    /// order, and returns the entries taken out, in order.
    pub fn sweep(&mut self, sweep: &Sweep) -> (r: Vec<WatchEntry>)
        requires
            old(self).wf(),
        ensures
            final(self).wf(),
            final(self)@ == old(self)@.filter(|e: EntryView| !swept(*sweep, e)),
            r@.map_values(|e: WatchEntry| e@) == old(self)@.filter(|e: EntryView| swept(*sweep, e)),
    {
        let ghost v = self@;
        let ghost stays = |e: EntryView| !swept(*sweep, e);
        let ghost gone = |e: EntryView| swept(*sweep, e);
        let mut kept: Vec<WatchEntry> = Vec::new();
        let mut taken: Vec<WatchEntry> = Vec::new();
        let mut i: usize = 0;
        while i < self.entries.len()
            invariant
                v == self@,
                stays == (|e: EntryView| !swept(*sweep, e)),
                gone == (|e: EntryView| swept(*sweep, e)),
                one_to_one(v),
                i <= v.len(),
                v.len() == self.entries@.len(),
                forall|k: int| 0 <= k < v.len() ==> #[trigger] v[k] == self.entries@[k]@,
                kept@.map_values(|e: WatchEntry| e@) == v.take(i as int).filter(stays),
                taken@.map_values(|e: WatchEntry| e@) == v.take(i as int).filter(gone),
                one_to_one(v.take(i as int).filter(stays)),
            decreases v.len() - i,
        {
            let e = self.entries[i].duplicate();
            proof {
                assert(v.take(i + 1) =~= v.take(i as int).push(v[i as int]));
                v.take(i as int).lemma_filter_push(v[i as int], stays);
                v.take(i as int).lemma_filter_push(v[i as int], gone);
            }
            proof {
                assert(e@ == v[i as int]);
            }
            let hit = sweeps(sweep, &e);
            if hit {
                proof {
                    assert(swept(*sweep, v[i as int]));
                    assert(gone(v[i as int]));
                }
                taken.push(e);
                proof {
                    assert(v.take(i + 1).filter(stays) == v.take(i as int).filter(stays));
                    assert(v.take(i + 1).filter(gone) == v.take(i as int).filter(gone).push(v[i as int]));
                    assert(taken@.map_values(|e: WatchEntry| e@) =~= v.take(i as int).filter(gone).push(v[i as int]));
                }
            } else {
                proof {
                    let f = v.take(i as int).filter(stays);
                    let g = f.push(v[i as int]);
                    assert forall|a: int, b: int| 0 <= a < b < g.len() implies (#[trigger] g[a]).0
                        != (#[trigger] g[b]).0 && g[a].1 != g[b].1 by {
                        if b == g.len() - 1 {
                            assert(f.contains(f[a]));
                            v.take(i as int).lemma_filter_contains_rev(stays, f[a]);
                            let k = choose|k: int| 0 <= k < i && v.take(i as int)[k] == f[a];
                            assert(v[k] == f[a]);
                        }
                    }
                }
                kept.push(e);
                proof {
                    assert(!gone(v[i as int]));
                    assert(v.take(i as int).push(v[i as int]).filter(gone) == v.take(i as int).filter(gone));
                    assert(v.take(i + 1).filter(gone) == v.take(i as int).filter(gone));
                    assert(kept@.map_values(|e: WatchEntry| e@) =~= v.take(i as int).filter(stays).push(v[i as int]));
                }
            }
            i = i + 1;
        }
        proof {
            assert(v.take(v.len() as int) =~= v);
        }
        self.entries = kept;
        taken
    }

    /// Records that `path` is watched under id `wd`, replacing any entry of
    /// that id or that path.
    pub fn insert(&mut self, wd: i32, path: String, is_dir: bool)
        requires
            old(self).wf(),
        ensures
            final(self).wf(),
            final(self)@ == old(self)@.filter(|e: EntryView| !(e.0 == wd || e.1 == path@)).push(
                (wd, path@, is_dir),
            ),
    {
        let ghost p = path@;
        let sw = Sweep::WatchOrPath(wd, path.clone());
        self.sweep(&sw);
        let ghost f = self@;
        proof {
            let k1 = |e: EntryView| !swept(sw, e);
            let k2 = |e: EntryView| !(e.0 == wd || e.1 == path@);
            assert(k1 =~= k2);
            assert(f == old(self)@.filter(k2));
            assert forall|k: int| 0 <= k < f.len() implies (#[trigger] f[k]).0 != wd && f[k].1 != p by {
                assert(k1(f[k]));
            }
        }
        self.entries.push(WatchEntry { wd, path, is_dir });
        proof {
            assert(self@ =~= f.push((wd, p, is_dir)));
            assert(self@ == old(self)@.filter(|e: EntryView| !(e.0 == wd || e.1 == path@)).push((wd, path@, is_dir)));
        }
    }

    /// Drops every entry.
    pub fn clear(&mut self)
        ensures
            final(self).wf(),
            final(self)@ == Seq::<EntryView>::empty(),
    {
        self.entries = Vec::new();
        proof {
            assert(self@ =~= Seq::<EntryView>::empty());
        }
    }
}

} // verus!
