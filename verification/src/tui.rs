//! The interactive session state machine.
//!
//! The session browses the task list with a cursor, dispatches the selected
//! task for execution, and keeps the output and error scrollback. Reading
//! keys and drawing the screen happen outside; this module decides what a
//! key does, how execution output is merged into the scrollback (split on
//! line boundaries, empty lines dropped), and which tail of the scrollback
//! a viewport shows.

use vstd::prelude::*;
use vstd::utf8::{decode_utf8, valid_utf8};

use crate::exec::strs_view;
use crate::log::{EntryV, LogEntry};
use crate::server::Server;

verus! {

/// Index of the first newline byte in `b`, or `b.len()` if there is none.
pub open spec fn first_break(b: Seq<u8>) -> int
    decreases b.len(),
{
    if b.len() == 0 {
        0
    } else if b[0] == 10u8 {
        0
    } else {
        1 + first_break(b.drop_first())
    }
}

pub proof fn lemma_first_break_bounds(s: Seq<u8>)
    ensures
        0 <= first_break(s) <= s.len(),
    decreases s.len(),
{
    if s.len() != 0 && s[0] != 10u8 {
        lemma_first_break_bounds(s.drop_first());
    }
}

/// Characterizes `first_break` by its defining property.
proof fn lemma_first_break_at(s: Seq<u8>, i: int)
    requires
        0 <= i <= s.len(),
        forall|j: int| 0 <= j < i ==> s[j] != 10u8,
        i < s.len() ==> s[i] == 10u8,
    ensures
        first_break(s) == i,
    decreases i,
{
    if s.len() != 0 && i > 0 {
        assert(s[0] != 10u8);
        assert(forall|j: int|
            0 <= j < i - 1 ==> s.drop_first()[j] == s[j + 1] && s[j + 1] != 10u8);
        lemma_first_break_at(s.drop_first(), i - 1);
    }
}

/// The non-empty lines of a byte buffer: split on newline bytes, with
/// empty segments dropped.
pub open spec fn lines_of(b: Seq<u8>) -> Seq<Seq<u8>>
    decreases b.len(),
    via lines_of_decreases
{
    if b.len() == 0 {
        Seq::empty()
    } else {
        let k = first_break(b);
        if k == b.len() {
            seq![b]
        } else {
            let rest = lines_of(b.skip(k + 1));
            if k == 0 {
                rest
            } else {
                seq![b.take(k)] + rest
            }
        }
    }
}

#[via_fn]
proof fn lines_of_decreases(b: Seq<u8>) {
    lemma_first_break_bounds(b);
}

/// What a line of raw bytes reads as. Relies on `String::from_utf8_lossy`:
/// the result is a function of the bytes alone.
pub uninterp spec fn lossy_of(b: Seq<u8>) -> Seq<char>;

/// Relies on String::from_utf8_lossy: on valid UTF-8 the result is exactly
/// the decoded text; otherwise it depends on the bytes alone (`lossy_of`).
#[verifier::external_body]
fn bytes_to_line(b: &Vec<u8>) -> (r: String)
    ensures
        r@ == lossy_of(b@),
        valid_utf8(b@) ==> r@ == decode_utf8(b@),
{
    String::from_utf8_lossy(b).into_owned()
}

/// The lines of a byte buffer, read as text.
pub open spec fn lines_strs(b: Seq<u8>) -> Seq<Seq<char>> {
    lines_of(b).map_values(|l: Seq<u8>| lossy_of(l))
}

/// The scrollback lines that a sequence of entries adds to the output log.
pub open spec fn out_lines(entries: Seq<EntryV>) -> Seq<Seq<char>>
    decreases entries.len(),
{
    if entries.len() == 0 {
        Seq::empty()
    } else {
        out_lines(entries.drop_last()) + lines_strs(entries.last().stdout)
    }
}

/// The scrollback lines that a sequence of entries adds to the error log.
pub open spec fn err_lines(entries: Seq<EntryV>) -> Seq<Seq<char>>
    decreases entries.len(),
{
    if entries.len() == 0 {
        Seq::empty()
    } else {
        err_lines(entries.drop_last()) + lines_strs(entries.last().stderr)
    }
}

pub open spec fn bufs_view(v: Seq<Vec<u8>>) -> Seq<Seq<u8>> {
    v.map_values(|l: Vec<u8>| l@)
}

/// The bytes of `b` from `from` (inclusive) to `to` (exclusive).
fn copy_range(b: &Vec<u8>, from: usize, to: usize) -> (r: Vec<u8>)
    requires
        from <= to <= b@.len(),
    ensures
        r@ == b@.subrange(from as int, to as int),
{
    let mut r: Vec<u8> = Vec::new();
    let mut j = from;
    while j < to
        invariant
            from <= j <= to <= b@.len(),
            r@ == b@.subrange(from as int, j as int),
        decreases to - j,
    {
        r.push(b[j]);
        proof {
            assert(r@ =~= b@.subrange(from as int, j + 1));
        }
        j = j + 1;
    }
    r
}

/// Split `b` on newline bytes, dropping empty segments.
fn split_lines(b: &Vec<u8>) -> (r: Vec<Vec<u8>>)
    ensures
        bufs_view(r@) == lines_of(b@),
{
    let n = b.len();
    let mut out: Vec<Vec<u8>> = Vec::new();
    let mut start: usize = 0;
    let mut i: usize = 0;
    proof {
        assert(b@.skip(0) =~= b@);
        assert(bufs_view(out@) =~= Seq::<Seq<u8>>::empty());
        assert(bufs_view(out@) + lines_of(b@) =~= lines_of(b@));
    }
    while i < n
        invariant
            0 <= start <= i <= n,
            n == b@.len(),
            forall|j: int| start <= j < i ==> b@[j] != 10u8,
            bufs_view(out@) + lines_of(b@.skip(start as int)) == lines_of(b@),
        decreases n - i,
    {
        if b[i] == 10u8 {
            let ghost suf = b@.skip(start as int);
            proof {
                assert(forall|j: int| 0 <= j < i - start ==> suf[j] == b@[start + j]);
                assert(suf[i - start] == b@[i as int]);
                lemma_first_break_at(suf, i - start);
                assert(suf.skip(i - start + 1) =~= b@.skip(i + 1));
            }
            if i > start {
                let line = copy_range(b, start, i);
                let ghost prev = bufs_view(out@);
                out.push(line);
                proof {
                    assert(suf.take(i - start) =~= line@);
                    assert(bufs_view(out@) =~= prev.push(line@));
                    assert(bufs_view(out@) + lines_of(b@.skip(i + 1)) =~= prev + lines_of(suf));
                }
            }
            start = i + 1;
        }
        i = i + 1;
    }
    if start < n {
        let ghost suf = b@.skip(start as int);
        proof {
            assert(forall|j: int| 0 <= j < n - start ==> suf[j] == b@[start + j]);
            lemma_first_break_at(suf, n - start);
            assert(lines_of(suf) == seq![suf]);
        }
        let line = copy_range(b, start, n);
        let ghost prev = bufs_view(out@);
        out.push(line);
        proof {
            assert(line@ =~= suf);
            assert(bufs_view(out@) =~= prev.push(line@));
            assert(bufs_view(out@) =~= prev + lines_of(suf));
        }
    } else {
        proof {
            assert(b@.skip(start as int) =~= Seq::<u8>::empty());
        }
    }
    proof {
        assert(bufs_view(out@) =~= lines_of(b@));
    }
    out
}

/// The keys the session distinguishes.
#[derive(Clone, Copy, Debug, PartialEq, Eq, Structural)]
pub enum Key {
    /// End the session.
    Quit,
    /// Move the cursor up.
    Up,
    /// Move the cursor down.
    Down,
    /// Execute the selected task.
    Select,
    /// Anything else: ignored.
    Other,
}

/// The session: the server, the two scrollback logs, the cursor, and
/// whether the operator asked to leave.
pub struct Tui {
    pub server: Server,
    pub outlog: Vec<String>,
    pub errlog: Vec<String>,
    pub selected: usize,
    pub exit: bool,
}

/// First visible line of a scrollback of `len` lines in a viewport of
/// `height` rows, one row of which holds the title: the tail that fits.
pub open spec fn visible_start_spec(len: int, height: int) -> int {
    let avail = if height > 0 {
        height - 1
    } else {
        0
    };
    if len > avail {
        len - avail
    } else {
        0
    }
}

impl Tui {
    /// The cursor stays inside the task list (or at zero when it is empty).
    pub open spec fn wf(self) -> bool {
        self.selected == 0 || self.selected < self.server.cfg.tasks@.len()
    }

    pub fn new(server: Server) -> (r: Tui)
        ensures
            r.server == server,
            r.outlog@.len() == 0,
            r.errlog@.len() == 0,
            r.selected == 0,
            !r.exit,
            r.wf(),
    {
        Tui { server, outlog: Vec::new(), errlog: Vec::new(), selected: 0, exit: false }
    }

    /// One key of the browsing state: quit ends the session, up and down
    /// move the cursor by one, clamped to the task list, and select asks
    /// the caller to execute the selected task and merge its output back.
    pub fn handle_key(&mut self, k: Key) -> (r: Option<usize>)
        requires
            old(self).wf(),
        ensures
            final(self).wf(),
            final(self).server == old(self).server,
            final(self).outlog == old(self).outlog,
            final(self).errlog == old(self).errlog,
            match k {
                Key::Quit => final(self).exit && final(self).selected == old(self).selected
                    && r is None,
                Key::Up => {
                    &&& final(self).exit == old(self).exit
                    &&& final(self).selected == if old(self).selected > 0 {
                        old(self).selected - 1
                    } else {
                        0
                    }
                    &&& r is None
                },
                Key::Down => {
                    &&& final(self).exit == old(self).exit
                    &&& final(self).selected == if old(self).selected + 1
                        < old(self).server.cfg.tasks@.len() {
                        old(self).selected + 1
                    } else {
                        old(self).selected as int
                    }
                    &&& r is None
                },
                Key::Select => final(self).exit == old(self).exit && final(self).selected
                    == old(self).selected && r == Option::Some(old(self).selected),
                Key::Other => final(self).exit == old(self).exit && final(self).selected
                    == old(self).selected && r is None,
            },
    {
        match k {
            Key::Quit => {
                self.exit = true;
                Option::None
            },
            Key::Up => {
                if self.selected > 0 {
                    self.selected = self.selected - 1;
                }
                Option::None
            },
            Key::Down => {
                let n = self.server.cfg.tasks.len();
                if self.selected < n && self.selected + 1 < n {
                    self.selected = self.selected + 1;
                }
                Option::None
            },
            Key::Select => Option::Some(self.selected),
            Key::Other => Option::None,
        }
    }

    /// Merge executed output into the scrollback: each entry's stdout and
    /// stderr bytes are split on line boundaries, empty lines are dropped,
    /// and the surviving lines go to the output and error logs.
    pub fn merge(&mut self, entries: &Vec<LogEntry>)
        ensures
            final(self).server == old(self).server,
            final(self).selected == old(self).selected,
            final(self).exit == old(self).exit,
            strs_view(final(self).outlog@) == strs_view(old(self).outlog@) + out_lines(
                crate::exec::log_view(entries@),
            ),
            strs_view(final(self).errlog@) == strs_view(old(self).errlog@) + err_lines(
                crate::exec::log_view(entries@),
            ),
    {
        let n = entries.len();
        let ghost ev = crate::exec::log_view(entries@);
        let mut i: usize = 0;
        while i < n
            invariant
                0 <= i <= n,
                n == entries@.len(),
                ev == crate::exec::log_view(entries@),
                self.server == old(self).server,
                self.selected == old(self).selected,
                self.exit == old(self).exit,
                strs_view(self.outlog@) == strs_view(old(self).outlog@) + out_lines(
                    ev.take(i as int),
                ),
                strs_view(self.errlog@) == strs_view(old(self).errlog@) + err_lines(
                    ev.take(i as int),
                ),
            decreases n - i,
        {
            let outs = split_lines(&entries[i].stdout);
            let errs = split_lines(&entries[i].stderr);
            proof {
                assert(ev[i as int] == entries@[i as int]@);
            }
            self.append_lines(true, &outs);
            self.append_lines(false, &errs);
            proof {
                assert(ev.take(i + 1).drop_last() =~= ev.take(i as int));
                assert(ev.take(i + 1).last() == ev[i as int]);
            }
            i = i + 1;
        }
        proof {
            assert(ev.take(n as int) =~= ev);
        }
    }

    /// Append the text of each line to the chosen scrollback.
    fn append_lines(&mut self, to_out: bool, lines: &Vec<Vec<u8>>)
        ensures
            final(self).server == old(self).server,
            final(self).selected == old(self).selected,
            final(self).exit == old(self).exit,
            to_out ==> {
                &&& strs_view(final(self).outlog@) == strs_view(old(self).outlog@)
                    + bufs_view(lines@).map_values(|l: Seq<u8>| lossy_of(l))
                &&& final(self).errlog == old(self).errlog
            },
            !to_out ==> {
                &&& strs_view(final(self).errlog@) == strs_view(old(self).errlog@)
                    + bufs_view(lines@).map_values(|l: Seq<u8>| lossy_of(l))
                &&& final(self).outlog == old(self).outlog
            },
    {
        let ghost mapped = bufs_view(lines@).map_values(|l: Seq<u8>| lossy_of(l));
        let n = lines.len();
        let mut j: usize = 0;
        while j < n
            invariant
                0 <= j <= n,
                n == lines@.len(),
                mapped == bufs_view(lines@).map_values(|l: Seq<u8>| lossy_of(l)),
                self.server == old(self).server,
                self.selected == old(self).selected,
                self.exit == old(self).exit,
                to_out ==> strs_view(self.outlog@) == strs_view(old(self).outlog@)
                    + mapped.take(j as int) && self.errlog == old(self).errlog,
                !to_out ==> strs_view(self.errlog@) == strs_view(old(self).errlog@)
                    + mapped.take(j as int) && self.outlog == old(self).outlog,
            decreases n - j,
        {
            let line = bytes_to_line(&lines[j]);
            let ghost lv = line@;
            let ghost prev_out = self.outlog@;
            let ghost prev_err = self.errlog@;
            if to_out {
                self.outlog.push(line);
            } else {
                self.errlog.push(line);
            }
            proof {
                assert(bufs_view(lines@)[j as int] == lines@[j as int]@);
                assert(mapped[j as int] == lossy_of(lines@[j as int]@));
                assert(mapped.take(j + 1) =~= mapped.take(j as int).push(mapped[j as int]));
                if to_out {
                    assert(strs_view(self.outlog@) =~= strs_view(prev_out).push(lv));
                    assert(strs_view(self.outlog@) =~= strs_view(old(self).outlog@)
                        + mapped.take(j + 1));
                } else {
                    assert(strs_view(self.errlog@) =~= strs_view(prev_err).push(lv));
                    assert(strs_view(self.errlog@) =~= strs_view(old(self).errlog@)
                        + mapped.take(j + 1));
                }
            }
            j = j + 1;
        }
        proof {
            assert(mapped.take(n as int) =~= mapped);
        }
    }
}

/// First visible line of a scrollback of `len` lines in a viewport of
/// `height` rows: the most recent lines that fit below the title row.
pub fn visible_start(len: usize, height: usize) -> (r: usize)
    ensures
        r == visible_start_spec(len as int, height as int),
{
    let avail: usize = if height > 0 {
        height - 1
    } else {
        0
    };
    if len > avail {
        len - avail
    } else {
        0
    }
}

} // verus!
