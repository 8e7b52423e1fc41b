use vstd::prelude::*;
use crate::event::Event;
use crate::rules::{verdict, Rule, Rules, Status};
use crate::table::{is_under, one_to_one, swept, EntryView, Sweep, WatchTable};

verus! {

/// Kernel event bits (inotify), as they arrive in an event's mask.
pub const IN_MODIFY: u32 = 0x2;
pub const IN_MOVED_FROM: u32 = 0x40;
pub const IN_MOVED_TO: u32 = 0x80;
pub const IN_CREATE: u32 = 0x100;
pub const IN_DELETE_SELF: u32 = 0x400;
pub const IN_MOVE_SELF: u32 = 0x800;
pub const IN_Q_OVERFLOW: u32 = 0x4000;
pub const IN_ISDIR: u32 = 0x4000_0000;

/// The events asked for on a watched file.
pub const FILE_MASK: u32 = 0xC02;
/// The events asked for on a watched directory.
pub const DIR_MASK: u32 = 0x5C0;

/// The default pause between two reads of the kernel queue, in milliseconds.
pub const DEFAULT_LOOP_INTERVAL_MS: u64 = 250;

/// The events to ask the kernel for on a file or on a directory.
pub fn watch_mask(is_file: bool) -> (r: u32)
    ensures
        r == if is_file { FILE_MASK } else { DIR_MASK },
        is_file ==> r == IN_MODIFY | IN_DELETE_SELF | IN_MOVE_SELF,
        !is_file ==> r == IN_CREATE | IN_DELETE_SELF | IN_MOVED_FROM | IN_MOVED_TO,
{
    proof {
        assert(IN_MODIFY | IN_DELETE_SELF | IN_MOVE_SELF == FILE_MASK) by (bit_vector);
        assert(IN_CREATE | IN_DELETE_SELF | IN_MOVED_FROM | IN_MOVED_TO == DIR_MASK) by (bit_vector);
    }
    if is_file {
        FILE_MASK
    } else {
        DIR_MASK
    }
}

/// Whether `mask` holds bit `flag`.
pub open spec fn has(mask: u32, flag: u32) -> bool {
    mask & flag != 0
}

/// One event as read from the kernel queue.
#[derive(Debug)]
pub struct RawEvent {
    /// The id of the watch it came through.
    pub wd: i32,
    /// Its bits.
    pub mask: u32,
    /// For an event on a directory entry, the entry's name.
    pub name: Option<String>,
}

/// What the caller is to do for the watcher.
#[derive(Debug)]
pub enum WatchAction {
    /// Hand this event downstream.
    Emit(Event),
    /// Watch this new directory and walk it, registering what is in it.
    WatchDir(String),
    /// Watch this new file and register it.
    WatchFile(String),
    /// Remove this kernel watch.
    Unwatch(i32),
    /// The kernel queue overflowed and the table was dropped: scan again
    /// from the initial directories.
    Rescan,
}

/// How a path came to be registered.
#[derive(Debug, Clone, Copy, PartialEq, Eq, Structural)]
pub enum Origin {
    /// Found by walking a directory.
    Scan,
    /// Created while watching.
    Created,
}

/// The path of entry `n` of directory `d`.
pub open spec fn join_path(d: Seq<char>, n: Seq<char>) -> Seq<char> {
    if d.len() > 0 && d.last() == '/' {
        d + n
    } else {
        d + seq!['/'] + n
    }
}

fn join(d: &String, n: &String) -> (r: String)
    ensures
        r@ == join_path(d@, n@),
{
    let dl = d.as_str().unicode_len();
    let mut r = d.clone();
    if dl > 0 && d.as_str().get_char(dl - 1) == '/' {
        r.append(n.as_str());
    } else {
        r.append("/");
        proof {
            reveal_strlit("/");
            assert("/"@ =~= seq!['/']);
        }
        r.append(n.as_str());
    }
    r
}

/// The entry of watch id `wd` in `t`, if there is one.
pub open spec fn entry_of(t: Seq<EntryView>, wd: i32) -> Option<EntryView> {
    if exists|i: int| 0 <= i < t.len() && (#[trigger] t[i]).0 == wd {
        Some(t[choose|i: int| 0 <= i < t.len() && (#[trigger] t[i]).0 == wd])
    } else {
        None
    }
}

proof fn lemma_entry_of(t: Seq<EntryView>, e: EntryView)
    requires
        one_to_one(t),
        t.contains(e),
    ensures
        entry_of(t, e.0) == Some(e),
{
    let i = choose|i: int| 0 <= i < t.len() && t[i] == e;
    assert(t[i].0 == e.0);
    let j = choose|j: int| 0 <= j < t.len() && (#[trigger] t[j]).0 == e.0;
    if i < j {
        assert(t[i].0 != t[j].0);
    } else if j < i {
        assert(t[j].0 != t[i].0);
    }
}

/// `a` emits the event `Delete(p)`.
pub open spec fn emits_delete(a: WatchAction, p: Seq<char>) -> bool {
    a matches WatchAction::Emit(Event::Delete(q)) && q@ == p
}

/// What the watcher does with kernel event `ev`: its table goes from `t` to
/// `t2` and it asks for the actions `r`, its rules being `inc` and `exc`.
///
/// An overflow drops the table and asks for a rescan. An event through an
/// unknown watch is ignored. A directory entry created in a watched
/// directory is to be watched and walked if it is a directory, and watched
/// if it is a file that passes the rules. A write to a watched file is
/// passed on. A watched file that is deleted or moved away leaves the table
/// and is passed on as deleted (its watch is removed when it moved). A
/// watched directory that is deleted leaves the table with the files under
/// it, and each of those is passed on as deleted.
pub open spec fn reacts_to(
    t: Seq<EntryView>,
    inc: Seq<Rule>,
    exc: Seq<Rule>,
    ev: RawEvent,
    t2: Seq<EntryView>,
    r: Seq<WatchAction>,
) -> bool {
    if has(ev.mask, IN_Q_OVERFLOW) {
        t2 == Seq::<EntryView>::empty() && r.len() == 1 && r[0] is Rescan
    } else {
        match entry_of(t, ev.wd) {
            None => t2 == t && r.len() == 0,
            Some(e) => {
                let (wd, path, is_dir) = e;
                if has(ev.mask, IN_CREATE) && is_dir && ev.name is Some {
                    let child = join_path(path, ev.name->Some_0@);
                    &&& t2 == t
                    &&& if has(ev.mask, IN_ISDIR) {
                        r.len() == 1 && (r[0] matches WatchAction::WatchDir(c) && c@ == child)
                    } else if verdict(inc, exc, child) == Status::Pass {
                        r.len() == 1 && (r[0] matches WatchAction::WatchFile(c) && c@ == child)
                    } else {
                        r.len() == 0
                    }
                } else if has(ev.mask, IN_MODIFY) && !is_dir {
                    t2 == t && r.len() == 1 && (r[0] matches WatchAction::Emit(Event::Write(p))
                        && p@ == path)
                } else if (has(ev.mask, IN_DELETE_SELF) || has(ev.mask, IN_MOVE_SELF)) && !is_dir {
                    &&& t2 == t.filter(|x: EntryView| x.0 != wd)
                    &&& if has(ev.mask, IN_MOVE_SELF) {
                        r.len() == 2 && (r[0] matches WatchAction::Unwatch(w) && w == wd)
                            && emits_delete(r[1], path)
                    } else {
                        r.len() == 1 && emits_delete(r[0], path)
                    }
                } else if has(ev.mask, IN_DELETE_SELF) && is_dir {
                    let gone = t.filter(|x: EntryView| x.0 == wd || (!x.2 && is_under(path, x.1)));
                    let files = gone.filter(|x: EntryView| x.0 != wd);
                    &&& t2 == t.filter(|x: EntryView| !(x.0 == wd || (!x.2 && is_under(path, x.1))))
                    &&& r.len() == files.len()
                    &&& forall|k: int| 0 <= k < r.len() ==> emits_delete(#[trigger] r[k], files[k].1)
                } else {
                    t2 == t && r.len() == 0
                }
            },
        }
    }
}

/// Watches directories and files and turns kernel events into file events,
/// under inclusion and exclusion rules. The caller owns the kernel side: it
/// adds and removes watches and reads events, and hands them to the watcher.
#[derive(Debug)]
pub struct Watcher {
    table: WatchTable,
    rules: Rules,
    initial_dirs: Vec<String>,
    loop_interval: u64,
}

/// Collects what a [`Watcher`] starts from.
#[derive(Debug)]
pub struct WatchBuilder {
    initial_dirs: Vec<String>,
    loop_interval: u64,
    rules: Rules,
}

impl WatchBuilder {
    pub closed spec fn dirs(&self) -> Seq<Seq<char>> {
        self.initial_dirs@.map_values(|s: String| s@)
    }

    pub closed spec fn interval(&self) -> u64 {
        self.loop_interval
    }

    pub closed spec fn inclusions(&self) -> Seq<Rule> {
        self.rules.inclusions()
    }

    pub closed spec fn exclusions(&self) -> Seq<Rule> {
        self.rules.exclusions()
    }

    /// Adds a directory to watch, recursively, from the start.
    pub fn add(self, path: &str) -> (r: WatchBuilder)
        ensures
            r.dirs() == self.dirs().push(path@),
            r.interval() == self.interval(),
            r.inclusions() == self.inclusions(),
            r.exclusions() == self.exclusions(),
    {
        let mut b = self;
        b.initial_dirs.push(String::from_str(path));
        proof {
            assert(b.dirs() =~= self.dirs().push(path@));
        }
        b
    }

    /// Adds several directories to watch from the start, in order.
    pub fn add_all(self, paths: &Vec<String>) -> (r: WatchBuilder)
        ensures
            r.dirs() == self.dirs() + paths@.map_values(|s: String| s@),
            r.interval() == self.interval(),
            r.inclusions() == self.inclusions(),
            r.exclusions() == self.exclusions(),
    {
        let mut b = self;
        let mut i: usize = 0;
        while i < paths.len()
            invariant
                i <= paths@.len(),
                b.dirs() == self.dirs() + paths@.take(i as int).map_values(|s: String| s@),
                b.interval() == self.interval(),
                b.inclusions() == self.inclusions(),
                b.exclusions() == self.exclusions(),
            decreases paths@.len() - i,
        {
            let ghost before = b.initial_dirs@;
            let item = paths[i].clone();
            b.initial_dirs.push(item);
            proof {
                assert(b.initial_dirs@.map_values(|s: String| s@) =~= before.map_values(
                    |s: String| s@,
                ).push(paths@[i as int]@));
                assert(paths@.take(i + 1).map_values(|s: String| s@) =~= paths@.take(
                    i as int,
                ).map_values(|s: String| s@).push(paths@[i as int]@));
                assert(b.dirs() =~= self.dirs() + paths@.take(i + 1).map_values(|s: String| s@));
            }
            i = i + 1;
        }
        proof {
            assert(paths@.take(paths@.len() as int) =~= paths@);
        }
        b
    }

    /// Sets the pause between two reads of the kernel queue, in milliseconds.
    pub fn loop_interval(self, millis: u64) -> (r: WatchBuilder)
        ensures
            r.dirs() == self.dirs(),
            r.interval() == millis,
            r.inclusions() == self.inclusions(),
            r.exclusions() == self.exclusions(),
    {
        let mut b = self;
        b.loop_interval = millis;
        b
    }

    /// Adds an inclusion rule.
    pub fn include_rule(self, rule: Rule) -> (r: WatchBuilder)
        ensures
            r.dirs() == self.dirs(),
            r.interval() == self.interval(),
            r.inclusions() == self.inclusions().push(rule),
            r.exclusions() == self.exclusions(),
    {
        let mut b = self;
        b.rules.add_inclusion(rule);
        b
    }

    /// Adds an exclusion rule.
    pub fn exclude(self, rule: Rule) -> (r: WatchBuilder)
        ensures
            r.dirs() == self.dirs(),
            r.interval() == self.interval(),
            r.inclusions() == self.inclusions(),
            r.exclusions() == self.exclusions().push(rule),
    {
        let mut b = self;
        b.rules.add_exclusion(rule);
        b
    }

    /// Adds all the rules of `rules` after those already here.
    pub fn append_all(self, rules: Rules) -> (r: WatchBuilder)
        ensures
            r.dirs() == self.dirs(),
            r.interval() == self.interval(),
            r.inclusions() == self.inclusions() + rules.inclusions(),
            r.exclusions() == self.exclusions() + rules.exclusions(),
    {
        let mut b = self;
        b.rules.add_all(rules);
        b
    }

    /// The watcher, with an empty watch table.
    pub fn build(self) -> (r: Watcher)
        ensures
            r.wf(),
            r.table() == Seq::<EntryView>::empty(),
            r.dirs() == self.dirs(),
            r.interval() == self.interval(),
            r.inclusions() == self.inclusions(),
            r.exclusions() == self.exclusions(),
    {
        Watcher {
            table: WatchTable::new(),
            rules: self.rules,
            initial_dirs: self.initial_dirs,
            loop_interval: self.loop_interval,
        }
    }
}

impl Watcher {
    /// A builder with no directory, no rule, and the default loop interval.
    pub fn builder() -> (r: WatchBuilder)
        ensures
            r.dirs() == Seq::<Seq<char>>::empty(),
            r.interval() == DEFAULT_LOOP_INTERVAL_MS,
            r.inclusions() == Seq::<Rule>::empty(),
            r.exclusions() == Seq::<Rule>::empty(),
    {
        let r = WatchBuilder {
            initial_dirs: Vec::new(),
            loop_interval: DEFAULT_LOOP_INTERVAL_MS,
            rules: Rules::new(),
        };
        proof {
            assert(r.dirs() =~= Seq::<Seq<char>>::empty());
            assert(r.inclusions() =~= Seq::<Rule>::empty());
            assert(r.exclusions() =~= Seq::<Rule>::empty());
        }
        r
    }

    pub closed spec fn wf(&self) -> bool {
        self.table.wf()
    }

    pub closed spec fn table(&self) -> Seq<EntryView> {
        self.table@
    }

    pub closed spec fn dirs(&self) -> Seq<Seq<char>> {
        self.initial_dirs@.map_values(|s: String| s@)
    }

    pub closed spec fn interval(&self) -> u64 {
        self.loop_interval
    }

    pub closed spec fn inclusions(&self) -> Seq<Rule> {
        self.rules.inclusions()
    }

    pub closed spec fn exclusions(&self) -> Seq<Rule> {
        self.rules.exclusions()
    }

    /// The directories to walk at startup.
    pub fn initial_dirs(&self) -> (r: &Vec<String>)
        ensures
            r@.map_values(|s: String| s@) == self.dirs(),
    {
        &self.initial_dirs
    }

    /// The pause between two reads of the kernel queue, in milliseconds.
    pub fn loop_interval(&self) -> (r: u64)
        ensures
            r == self.interval(),
    {
        self.loop_interval
    }

    /// Whether a path found on disk is to be watched: a directory always, a
    /// file when it passes the rules.
    pub fn admits(&self, path: &str, is_file: bool) -> (r: bool)
        ensures
            r == (!is_file || verdict(self.inclusions(), self.exclusions(), path@) == Status::Pass),
    {
        if is_file {
            match self.rules.passes(path) {
                Status::Pass => true,
                _ => false,
            }
        } else {
            true
        }
    }

    /// Records that the kernel watches `path` under id `wd`. For a file,
    /// returns the event to pass on: `Initiate` for a file found by a scan,
    /// `New` for one created while watching.
    pub fn register(&mut self, wd: i32, path: String, is_dir: bool, origin: Origin) -> (r: Option<Event>)
        requires
            old(self).wf(),
        ensures
            final(self).wf(),
            final(self).table() == old(self).table().filter(
                |e: EntryView| !(e.0 == wd || e.1 == path@),
            ).push((wd, path@, is_dir)),
            final(self).inclusions() == old(self).inclusions(),
            final(self).exclusions() == old(self).exclusions(),
            final(self).dirs() == old(self).dirs(),
            is_dir ==> r is None,
            !is_dir && origin == Origin::Scan ==> (r matches Some(Event::Initiate(p)) && p@ == path@),
            !is_dir && origin == Origin::Created ==> (r matches Some(Event::New(p)) && p@ == path@),
    {
        let event = if is_dir {
            None
        } else {
            match origin {
                Origin::Scan => Some(Event::Initiate(path.clone())),
                Origin::Created => Some(Event::New(path.clone())),
            }
        };
        self.table.insert(wd, path, is_dir);
        event
    }

    /// Takes in one kernel event; see [`reacts_to`].
    pub fn process(&mut self, ev: &RawEvent) -> (r: Vec<WatchAction>)
        requires
            old(self).wf(),
        ensures
            final(self).wf(),
            reacts_to(
                old(self).table(),
                old(self).inclusions(),
                old(self).exclusions(),
                *ev,
                final(self).table(),
                r@,
            ),
            final(self).inclusions() == old(self).inclusions(),
            final(self).exclusions() == old(self).exclusions(),
            final(self).dirs() == old(self).dirs(),
    {
        let mut r: Vec<WatchAction> = Vec::new();
        if ev.mask & IN_Q_OVERFLOW != 0 {
            self.table.clear();
            r.push(WatchAction::Rescan);
            return r;
        }
        let (wd, path, is_dir) = match self.table.lookup(ev.wd) {
            None => {
                proof {
                    assert(entry_of(self.table@, ev.wd) is None);
                }
                return r;
            },
            Some(e) => {
                proof {
                    lemma_entry_of(self.table@, e@);
                }
                (e.wd, e.path.clone(), e.is_dir)
            },
        };
        if ev.mask & IN_CREATE != 0 && is_dir && ev.name.is_some() {
            let name = match &ev.name {
                Some(n) => n,
                None => return r,
            };
            let child = join(&path, name);
            if ev.mask & IN_ISDIR != 0 {
                r.push(WatchAction::WatchDir(child));
            } else if self.admits(child.as_str(), true) {
                r.push(WatchAction::WatchFile(child));
            }
        } else if ev.mask & IN_MODIFY != 0 && !is_dir {
            r.push(WatchAction::Emit(Event::Write(path)));
        } else if (ev.mask & IN_DELETE_SELF != 0 || ev.mask & IN_MOVE_SELF != 0) && !is_dir {
            let ghost t = self.table@;
            self.table.sweep(&Sweep::Watch(wd));
            proof {
                let f1 = |x: EntryView| !swept(Sweep::Watch(wd), x);
                let f2 = |x: EntryView| x.0 != wd;
                assert(f1 =~= f2);
            }
            if ev.mask & IN_MOVE_SELF != 0 {
                r.push(WatchAction::Unwatch(wd));
            }
            r.push(WatchAction::Emit(Event::Delete(path)));
        } else if ev.mask & IN_DELETE_SELF != 0 && is_dir {
            let ghost t = self.table@;
            let sw = Sweep::Subtree(wd, path.clone());
            let gone = self.table.sweep(&sw);
            let ghost gv = gone@.map_values(|x: crate::table::WatchEntry| x@);
            proof {
                let f1 = |x: EntryView| !swept(sw, x);
                let f2 = |x: EntryView| !(x.0 == wd || (!x.2 && is_under(path@, x.1)));
                assert(f1 =~= f2);
                let g1 = |x: EntryView| swept(sw, x);
                let g2 = |x: EntryView| x.0 == wd || (!x.2 && is_under(path@, x.1));
                assert(g1 =~= g2);
                assert(gv == t.filter(g2));
            }
            let mut i: usize = 0;
            while i < gone.len()
                invariant
                    i <= gone@.len(),
                    gv == gone@.map_values(|x: crate::table::WatchEntry| x@),
                    r@.len() == gv.take(i as int).filter(|x: EntryView| x.0 != wd).len(),
                    forall|k: int|
                        0 <= k < r@.len() ==> emits_delete(
                            #[trigger] r@[k],
                            gv.take(i as int).filter(|x: EntryView| x.0 != wd)[k].1,
                        ),
                decreases gone@.len() - i,
            {
                proof {
                    assert(gv.take(i + 1) =~= gv.take(i as int).push(gv[i as int]));
                    gv.take(i as int).lemma_filter_push(gv[i as int], |x: EntryView| x.0 != wd);
                }
                if gone[i].wd != wd {
                    r.push(WatchAction::Emit(Event::Delete(gone[i].path.clone())));
                }
                i = i + 1;
            }
            proof {
                assert(gv.take(gv.len() as int) =~= gv);
            }
        }
        r
    }
}

/// `a` and `b` both pass on a write to the same file.
pub open spec fn same_write(a: WatchAction, b: WatchAction) -> bool {
    match (a, b) {
        (WatchAction::Emit(Event::Write(p)), WatchAction::Emit(Event::Write(q))) => p@ == q@,
        _ => false,
    }
}

/// `s` with each write event dropped that directly follows a write event
/// to the same file.
pub open spec fn coalesced(s: Seq<WatchAction>) -> Seq<WatchAction>
    decreases s.len(),
{
    if s.len() == 0 {
        s
    } else {
        let c = coalesced(s.drop_last());
        if c.len() > 0 && same_write(c.last(), s.last()) {
            c
        } else {
            c.push(s.last())
        }
    }
}

fn is_same_write(a: &WatchAction, b: &WatchAction) -> (r: bool)
    ensures
        r == same_write(*a, *b),
{
    match (a, b) {
        (WatchAction::Emit(Event::Write(p)), WatchAction::Emit(Event::Write(q))) => *p == *q,
        _ => false,
    }
}

/// Merges bursts of writes: of the actions gathered over one loop interval,
/// drops each write event that directly follows a write event to the same
/// file. The others keep their order.
pub fn coalesce_writes(acts: Vec<WatchAction>) -> (r: Vec<WatchAction>)
    ensures
        r@ == coalesced(acts@),
{
    let ghost orig = acts@;
    let mut rest = acts;
    let mut out: Vec<WatchAction> = Vec::new();
    let ghost mut k: int = 0;
    while rest.len() > 0
        invariant
            0 <= k,
            k + rest@.len() == orig.len(),
            rest@ == orig.skip(k),
            out@ == coalesced(orig.take(k)),
        decreases rest@.len(),
    {
        let a = rest.remove(0);
        proof {
            assert(orig.take(k + 1).drop_last() =~= orig.take(k));
            assert(orig.take(k + 1).last() == orig[k]);
            assert(rest@ =~= orig.skip(k + 1));
        }
        let n = out.len();
        if !(n > 0 && is_same_write(&out[n - 1], &a)) {
            out.push(a);
        }
        proof {
            k = k + 1;
        }
    }
    proof {
        assert(orig.take(k) =~= orig);
    }
    out
}

} // verus!
