use vstd::prelude::*;

use crate::text::views;

verus! {

/// `log` after accepting `command`: a command equal to the last entry is not recorded again.
pub open spec fn push_dedup(log: Seq<Seq<char>>, command: Seq<char>) -> Seq<Seq<char>> {
    if log.len() > 0 && log.last() == command {
        log
    } else {
        log.push(command)
    }
}

/// The log that a fresh store holds after accepting `commands` in order.
pub open spec fn dedup(commands: Seq<Seq<char>>) -> Seq<Seq<char>>
    decreases commands.len(),
{
    if commands.len() == 0 {
        Seq::empty()
    } else {
        push_dedup(dedup(commands.drop_last()), commands.last())
    }
}

/// The entries of `l`, separated by line feeds.
pub open spec fn join_lines(l: Seq<Seq<char>>) -> Seq<char>
    decreases l.len(),
{
    if l.len() == 0 {
        Seq::empty()
    } else if l.len() == 1 {
        l[0]
    } else {
        join_lines(l.drop_last()) + seq!['\n'] + l.last()
    }
}

/// What is appended to the backing file for `log`, given whether the file held no entry
/// when the session started; nothing for an empty log.
pub open spec fn payload(store_empty: bool, log: Seq<Seq<char>>) -> Option<Seq<char>> {
    if log.len() == 0 {
        None
    } else if store_empty {
        Some(join_lines(log))
    } else {
        Some(seq!['\n'] + join_lines(log))
    }
}

/// Reading `s` from the left: the lines ended so far, and the line being read.
pub open spec fn scan_lines(s: Seq<char>) -> (Seq<Seq<char>>, Seq<char>)
    decreases s.len(),
{
    if s.len() == 0 {
        (Seq::empty(), Seq::empty())
    } else {
        let (done, cur) = scan_lines(s.drop_last());
        if s.last() == '\n' {
            (done.push(cur), Seq::empty())
        } else {
            (done, cur.push(s.last()))
        }
    }
}

/// The lines of a history file: the text between line feeds, where a final line feed
/// ends the last line rather than starting an empty one.
pub open spec fn lines(s: Seq<char>) -> Seq<Seq<char>> {
    let (done, cur) = scan_lines(s);
    if cur.len() > 0 {
        done.push(cur)
    } else {
        done
    }
}

/// Reading text without a line feed only extends the line being read.
proof fn lemma_scan_lines_no_feed(x: Seq<char>, y: Seq<char>)
    requires
        !y.contains('\n'),
    ensures
        scan_lines(x + y) == (scan_lines(x).0, scan_lines(x).1 + y),
    decreases y.len(),
{
    if y.len() == 0 {
        assert(x + y =~= x);
        assert(scan_lines(x).1 + y =~= scan_lines(x).1);
    } else {
        let y0 = y.drop_last();
        assert(!y0.contains('\n')) by {
            if y0.contains('\n') {
                let k = choose|k: int| 0 <= k < y0.len() && y0[k] == '\n';
                assert(y[k] == '\n');
            }
        }
        lemma_scan_lines_no_feed(x, y0);
        assert((x + y).drop_last() =~= x + y0);
        assert(y.last() != '\n') by {
            assert(y[y.len() - 1] == y.last());
        }
        assert(scan_lines(x).1 + y0.push(y.last()) =~= scan_lines(x).1 + y);
        assert(y0.push(y.last()) =~= y);
    }
}

/// Reading the entries of `d` after a completed line.
proof fn lemma_scan_lines_join(x: Seq<char>, d: Seq<Seq<char>>)
    requires
        d.len() > 0,
        scan_lines(x).1.len() == 0,
        forall|i: int| 0 <= i < d.len() ==> !(#[trigger] d[i]).contains('\n'),
    ensures
        scan_lines(x + join_lines(d)) == (scan_lines(x).0 + d.drop_last(), d.last()),
    decreases d.len(),
{
    if d.len() == 1 {
        lemma_scan_lines_no_feed(x, d[0]);
        assert(scan_lines(x).1 + d[0] =~= d[0]);
        assert(scan_lines(x).0 + d.drop_last() =~= scan_lines(x).0);
    } else {
        let d0 = d.drop_last();
        let e = d.last();
        assert(forall|i: int| 0 <= i < d0.len() ==> d0[i] == d[i]);
        lemma_scan_lines_join(x, d0);
        let y = x + join_lines(d0);
        let yf = y.push('\n');
        assert(yf.drop_last() =~= y);
        assert(yf.last() == '\n');
        assert(scan_lines(yf) == (scan_lines(y).0.push(scan_lines(y).1), Seq::<char>::empty()));
        assert(scan_lines(yf).0 =~= scan_lines(x).0 + d0);
        assert(!e.contains('\n')) by {
            assert(e == d[d.len() - 1]);
        }
        lemma_scan_lines_no_feed(yf, e);
        assert(x + join_lines(d) =~= yf + e);
        assert(Seq::<char>::empty() + e =~= e);
    }
}

/// Every entry of `dedup(c)` is an entry of `c`.
proof fn lemma_dedup_from(c: Seq<Seq<char>>)
    ensures
        forall|i: int| 0 <= i < dedup(c).len() ==> c.contains(#[trigger] dedup(c)[i]),
    decreases c.len(),
{
    if c.len() > 0 {
        let c0 = c.drop_last();
        lemma_dedup_from(c0);
        assert forall|i: int| 0 <= i < dedup(c).len() implies c.contains(#[trigger] dedup(c)[i]) by {
            if i < dedup(c0).len() {
                assert(dedup(c)[i] == dedup(c0)[i]);
                let k = choose|k: int| 0 <= k < c0.len() && c0[k] == dedup(c0)[i];
                assert(c[k] == c0[k]);
            } else {
                assert(dedup(c)[i] == c.last());
                assert(c[c.len() - 1] == c.last());
            }
        }
    }
}

/// Consecutive duplicates: after accepting `c1` and then a different `c2`, the log ends
/// with `c1`, `c2`, after what it held before (less a last `c1`, which the first accept
/// keeps); accepting `c1` a second time in a row leaves the log as it was.
pub proof fn lemma_add_consecutive(log: Seq<Seq<char>>, c1: Seq<char>, c2: Seq<char>)
    ensures
        c1 != c2 ==> {
            let after = push_dedup(push_dedup(log, c1), c2);
            &&& after.len() >= 2
            &&& after[after.len() - 2] == c1
            &&& after.last() == c2
            &&& after.drop_last().drop_last() == (if log.len() > 0 && log.last() == c1 {
                log.drop_last()
            } else {
                log
            })
        },
        push_dedup(push_dedup(log, c1), c1) == push_dedup(log, c1),
        push_dedup(log, c1).last() == c1,
{
    if c1 != c2 {
        let once = push_dedup(log, c1);
        if log.len() > 0 && log.last() == c1 {
            assert(once.drop_last() =~= log.drop_last());
        } else {
            assert(once.drop_last() =~= log);
        }
        assert(push_dedup(once, c2).drop_last() =~= once);
    }
}

/// Round trip: starting from a file holding `before`, accepting `commands` in a session and
/// appending what the session writes, the file reads back as what it held, followed by
/// `commands` with consecutive duplicates suppressed.
pub proof fn lemma_history_round_trip(before: Seq<char>, commands: Seq<Seq<char>>)
    requires
        before.len() == 0 || before.last() != '\n',
        forall|i: int| 0 <= i < commands.len() ==> !(#[trigger] commands[i]).contains('\n'),
        dedup(commands).len() > 0 ==> dedup(commands).last().len() > 0,
    ensures
        ({
            let stored = lines(before);
            let after = match payload(stored.len() == 0, dedup(commands)) {
                Some(p) => before + p,
                None => before,
            };
            lines(after) == stored + dedup(commands)
        }),
{
    let d = dedup(commands);
    let stored = lines(before);
    if d.len() == 0 {
        assert(stored + d =~= stored);
    } else {
        lemma_dedup_from(commands);
        assert forall|i: int| 0 <= i < d.len() implies !(#[trigger] d[i]).contains('\n') by {
            let k = choose|k: int| 0 <= k < commands.len() && commands[k] == d[i];
        }
        if before.len() == 0 {
            assert(scan_lines(before) == (Seq::<Seq<char>>::empty(), Seq::<char>::empty()));
            assert(stored.len() == 0);
            lemma_scan_lines_join(before, d);
            assert(before + join_lines(d) =~= join_lines(d));
            assert(d.drop_last().push(d.last()) =~= d);
            assert(stored + d =~= d);
        } else {
            let x = before.push('\n');
            assert(x.drop_last() =~= before);
            assert(before[before.len() - 1] == before.last());
            assert(scan_lines(before).1.len() > 0);
            assert(stored == scan_lines(before).0.push(scan_lines(before).1));
            assert(scan_lines(x).0 == stored);
            lemma_scan_lines_join(x, d);
            assert(before + (seq!['\n'] + join_lines(d)) =~= x + join_lines(d));
            assert((stored + d.drop_last()).push(d.last()) =~= stored + d);
        }
    }
}

/// Splits the text of a history file into its entries.
pub fn parse_history(content: &str) -> (r: Vec<String>)
    ensures
        views(r@) == lines(content@),
{
    let mut done: Vec<String> = Vec::new();
    let mut cur = String::new();
    for c in it: content.chars()
        invariant
            it.seq() == content@,
            (views(done@), cur@) == scan_lines(content@.subrange(0, it.index() as int)),
    {
        let ghost prefix = content@.subrange(0, it.index() as int);
        assert(content@.subrange(0, it.index() + 1).drop_last() == prefix);
        if c == '\n' {
            let line = cur;
            cur = String::new();
            done.push(line);
        } else {
            cur.push(c);
        }
        assert(views(done@) =~= scan_lines(content@.subrange(0, it.index() + 1)).0);
    }
    assert(content@.subrange(0, content@.len() as int) == content@);
    if !cur.as_str().is_empty() {
        done.push(cur);
    }
    assert(views(done@) =~= lines(content@));
    done
}

/// The commands accepted in this session, with what the backing file held when it started.
pub struct History {
    fs_history: Option<Vec<String>>,
    history: Vec<String>,
    file: Option<String>,
}

impl History {
    /// The commands accepted so far in this session.
    pub closed spec fn log(&self) -> Seq<Seq<char>> {
        views(self.history@)
    }

    /// Whether the backing file held no entry when the session started. A file that could
    /// not be read counts as empty, so that no separator is written before the first entry.
    pub open spec fn store_empty(&self) -> bool {
        match self.stored() {
            Some(l) => l.len() == 0,
            None => true,
        }
    }

    /// The entries that the backing file held when the session started, if it could be read.
    pub closed spec fn stored(&self) -> Option<Seq<Seq<char>>> {
        match self.fs_history {
            Some(v) => Some(views(v@)),
            None => None,
        }
    }

    /// The path of the backing file, if there is one.
    pub closed spec fn path(&self) -> Option<Seq<char>> {
        match self.file {
            Some(f) => Some(f@),
            None => None,
        }
    }

    /// A store over `file` (none: no persistence), which held `fs_history` when read at
    /// start (none: it could not be read).
    pub fn init(file: Option<String>, fs_history: Option<Vec<String>>) -> (r: History)
        ensures
            r.log() == Seq::<Seq<char>>::empty(),
            r.path() == (match file {
                Some(f) => Some(f@),
                None => None::<Seq<char>>,
            }),
            r.stored() == (match fs_history {
                Some(v) => Some(views(v@)),
                None => None::<Seq<Seq<char>>>,
            }),
            r.store_empty() == (match fs_history {
                Some(v) => v@.len() == 0,
                None => true,
            }),
    {
        let r = History { fs_history, history: Vec::new(), file };
        assert(r.log() =~= Seq::<Seq<char>>::empty());
        r
    }

    /// Records `command` unless it equals the last recorded command.
    pub fn add(&mut self, command: &str)
        ensures
            final(self).log() == push_dedup(old(self).log(), command@),
            final(self).stored() == old(self).stored(),
            final(self).store_empty() == old(self).store_empty(),
            final(self).path() == old(self).path(),
    {
        let n = self.history.len();
        if n > 0 && same_line(&self.history[n - 1], command) {
            assert(views(self.history@).last() == self.history@[n - 1]@);
        } else {
            self.history.push(command.to_owned());
            assert(views(self.history@) =~= push_dedup(views(old(self).history@), command@));
        }
    }

    /// Whether the backing file held no entry when the session started (also when it could
    /// not be read).
    pub fn is_empty(&self) -> (r: bool)
        ensures
            r == self.store_empty(),
    {
        match &self.fs_history {
            Some(v) => v.len() == 0,
            None => true,
        }
    }

    /// The commands accepted so far in this session.
    pub fn entries(&self) -> (r: &Vec<String>)
        ensures
            views(r@) == self.log(),
    {
        &self.history
    }

    /// The path of the backing file, if there is one.
    pub fn file(&self) -> (r: Option<&String>)
        ensures
            self.path() == (match r {
                Some(f) => Some(f@),
                None => None::<Seq<char>>,
            }),
    {
        self.file.as_ref()
    }

    /// The text to append to the backing file at the end of the session: nothing without a
    /// file or without new commands.
    pub fn pending_write(&self) -> (r: Option<String>)
        ensures
            self.path() is None ==> r is None,
            self.path() is Some ==> (match r {
                Some(s) => payload(self.store_empty(), self.log()) == Some(s@),
                None => payload(self.store_empty(), self.log()) is None,
            }),
    {
        if self.file.is_none() || self.history.len() == 0 {
            return None;
        }
        let mut out = String::new();
        if !self.is_empty() {
            out.push('\n');
        }
        let ghost lead = out@;
        let n = self.history.len();
        let mut i: usize = 0;
        while i < n
            invariant
                n == self.history@.len(),
                0 <= i <= n,
                out@ == lead + join_lines(views(self.history@).subrange(0, i as int)),
            decreases n - i,
        {
            let ghost l = views(self.history@);
            assert(l.subrange(0, i + 1).drop_last() =~= l.subrange(0, i as int));
            if i > 0 {
                out.push('\n');
            }
            out.append(self.history[i].as_str());
            assert(out@ =~= lead + join_lines(l.subrange(0, i + 1)));
            i = i + 1;
        }
        assert(views(self.history@).subrange(0, n as int) =~= views(self.history@));
        Some(out)
    }
}

fn same_line(a: &String, b: &str) -> (r: bool)
    ensures
        r == (a@ == b@),
{
    *a == b.to_owned()
}

} // verus!
