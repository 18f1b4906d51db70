//! The bounded line history.

use vstd::prelude::*;

verus! {

/// The accepted lines, oldest first, at most `max` of them; when
/// `ignore_dups` is set, a line equal to the one just before it is not
/// stored again.
pub struct History {
    entries: Vec<String>,
    max: usize,
    ignore_dups: bool,
}

/// Whether `line` is not stored after `h`: the history keeps no line, or
/// duplicates are suppressed and `line` repeats the newest entry.
pub open spec fn skips(h: Seq<Seq<char>>, line: Seq<char>, max: nat, ignore_dups: bool) -> bool {
    max == 0 || (ignore_dups && h.len() > 0 && h.last() == line)
}

/// The history after submitting `line` to `h`, which keeps at most `max`
/// lines: unchanged when the line is skipped, else `line` appended, the
/// oldest entry dropped when it would not fit.
pub open spec fn add_spec(h: Seq<Seq<char>>, line: Seq<char>, max: nat, ignore_dups: bool) -> Seq<Seq<char>> {
    if skips(h, line, max, ignore_dups) {
        h
    } else if h.len() < max {
        h.push(line)
    } else {
        h.push(line).skip(1)
    }
}

impl View for History {
    type V = Seq<Seq<char>>;

    closed spec fn view(&self) -> Seq<Seq<char>> {
        self.entries@.map_values(|s: String| s@)
    }
}

impl History {
    /// The largest number of lines kept.
    pub closed spec fn capacity(&self) -> nat {
        self.max as nat
    }

    /// Whether a line that repeats the newest entry is skipped.
    pub closed spec fn ignores_dups(&self) -> bool {
        self.ignore_dups
    }

    pub closed spec fn wf(&self) -> bool {
        self.entries.len() <= self.max
    }

    /// An empty history that keeps at most `max` lines, skipping repeats of
    /// the newest entry when `ignore_dups` is set.
    pub fn new(max: usize, ignore_dups: bool) -> (r: History)
        ensures
            r.wf(),
            r@ == Seq::<Seq<char>>::empty(),
            r.capacity() == max,
            r.ignores_dups() == ignore_dups,
    {
        let r = History { entries: Vec::new(), max, ignore_dups };
        assert(r@ =~= Seq::<Seq<char>>::empty());
        r
    }

    /// The number of lines held.
    pub fn len(&self) -> (r: usize)
        ensures
            r == self@.len(),
    {
        self.entries.len()
    }

    /// The line at `i`, counting from the oldest.
    pub fn get(&self, i: usize) -> (r: &String)
        requires
            i < self@.len(),
        ensures
            r@ == self@[i as int],
    {
        &self.entries[i]
    }

    /// The largest number of lines kept.
    pub fn max_len(&self) -> (r: usize)
        ensures
            r == self.capacity(),
    {
        self.max
    }

    /// Submits an accepted line; gives whether it was stored.
    pub fn add(&mut self, line: &str) -> (added: bool)
        requires
            old(self).wf(),
        ensures
            final(self).wf(),
            final(self).capacity() == old(self).capacity(),
            final(self).ignores_dups() == old(self).ignores_dups(),
            final(self)@ == add_spec(old(self)@, line@, old(self).capacity(), old(self).ignores_dups()),
            added == !skips(old(self)@, line@, old(self).capacity(), old(self).ignores_dups()),
    {
        let n = self.entries.len();
        if self.max == 0 {
            return false;
        }
        if self.ignore_dups && n > 0 {
            let copy = String::from_str(line);
            if self.entries[n - 1] == copy {
                return false;
            }
            assert(self@.last() == self.entries@[n - 1]@);
        }
        let ghost before = self@;
        self.entries.push(String::from_str(line));
        assert(self@ =~= before.push(line@));
        if n >= self.max {
            let ghost pushed = self@;
            self.entries.remove(0);
            assert(self@ =~= pushed.skip(1));
        }
        true
    }
}

/// With duplicates suppressed, submitting the same line twice in a row
/// stores it once.
pub proof fn lemma_repeat_stored_once(h: Seq<Seq<char>>, line: Seq<char>, max: nat)
    requires
        h.len() <= max,
    ensures
        add_spec(add_spec(h, line, max, true), line, max, true) == add_spec(h, line, max, true),
{
}

/// With a different line between them, a line submitted twice is stored
/// twice (in a history that has room for the three lines).
pub proof fn lemma_intervening_line_stores_twice(line: Seq<char>, other: Seq<char>, max: nat)
    requires
        line != other,
        max >= 3,
    ensures
        add_spec(add_spec(add_spec(Seq::empty(), line, max, true), other, max, true), line, max, true)
            == seq![line, other, line],
{
    assert(Seq::<Seq<char>>::empty().push(line).push(other).push(line) =~= seq![line, other, line]);
}

} // verus!
