//! The line being edited in the console, the lines entered before it, and the lines printed.

use vstd::prelude::*;
use std::collections::VecDeque;
use crate::util::{copy_chars, string_from_chars};

verus! {

/// The line of text being edited in the console, with a cursor.
pub struct ConsoleInput {
    text: Vec<char>,
    curs: usize,
}

impl ConsoleInput {
    /// The text.
    pub closed spec fn text(&self) -> Seq<char> {
        self.text@
    }

    /// The position of the cursor: the number of characters before it.
    pub closed spec fn cursor(&self) -> nat {
        self.curs as nat
    }

    /// The cursor is within the text.
    pub closed spec fn wf(&self) -> bool {
        self.curs <= self.text.len()
    }

    /// An empty line with the cursor at its start.
    pub fn new() -> (r: ConsoleInput)
        ensures
            r.wf(),
            r.text() == Seq::<char>::empty(),
            r.cursor() == 0,
    {
        ConsoleInput { text: Vec::new(), curs: 0 }
    }

    /// The text of the line.
    pub fn get_text(&self) -> (r: Vec<char>)
        ensures
            r@ == self.text(),
    {
        copy_chars(self.text.as_slice())
    }

    /// Replaces the text and moves the cursor to its end.
    pub fn set_text(&mut self, text: &Vec<char>)
        ensures
            final(self).wf(),
            final(self).text() == text@,
            final(self).cursor() == text@.len(),
    {
        self.text = copy_chars(text.as_slice());
        self.curs = self.text.len();
    }

    /// Inserts a character at the cursor and moves the cursor past it.
    pub fn insert(&mut self, c: char)
        requires
            old(self).wf(),
        ensures
            final(self).wf(),
            final(self).text() == old(self).text().insert(old(self).cursor() as int, c),
            final(self).cursor() == old(self).cursor() + 1,
    {
        self.text.insert(self.curs, c);
        self.cursor_right();
    }

    /// Moves the cursor one character to the right, unless it is at the end.
    pub fn cursor_right(&mut self)
        requires
            old(self).wf(),
        ensures
            final(self).wf(),
            final(self).text() == old(self).text(),
            final(self).cursor() == if old(self).cursor() < old(self).text().len() {
                old(self).cursor() + 1
            } else {
                old(self).cursor()
            },
    {
        if self.curs < self.text.len() {
            self.curs += 1;
        }
    }

    /// Moves the cursor one character to the left, unless it is at the start.
    pub fn cursor_left(&mut self)
        requires
            old(self).wf(),
        ensures
            final(self).wf(),
            final(self).text() == old(self).text(),
            final(self).cursor() == if old(self).cursor() > 0 {
                old(self).cursor() - 1
            } else {
                0
            },
    {
        if self.curs > 0 {
            self.curs -= 1;
        }
    }

    /// Deletes the character after the cursor, if there is one.
    pub fn delete(&mut self)
        requires
            old(self).wf(),
        ensures
            final(self).wf(),
            final(self).text() == if old(self).cursor() < old(self).text().len() {
                old(self).text().remove(old(self).cursor() as int)
            } else {
                old(self).text()
            },
            final(self).cursor() == old(self).cursor(),
    {
        if self.curs < self.text.len() {
            self.text.remove(self.curs);
        }
    }

    /// Deletes the character before the cursor, if there is one, and moves the cursor back.
    pub fn backspace(&mut self)
        requires
            old(self).wf(),
        ensures
            final(self).wf(),
            old(self).cursor() > 0 ==> final(self).text() == old(self).text().remove(
                old(self).cursor() - 1,
            ) && final(self).cursor() == old(self).cursor() - 1,
            old(self).cursor() == 0 ==> final(self).text() == old(self).text()
                && final(self).cursor() == 0,
    {
        if self.curs > 0 {
            self.text.remove(self.curs - 1);
            self.curs -= 1;
        }
    }

    /// Empties the line and moves the cursor to its start.
    pub fn clear(&mut self)
        ensures
            final(self).wf(),
            final(self).text() == Seq::<char>::empty(),
            final(self).cursor() == 0,
    {
        self.text.clear();
        self.curs = 0;
    }

    /// The position of the cursor.
    pub fn get_cursor(&self) -> (r: usize)
        ensures
            r == self.cursor(),
    {
        self.curs
    }

    /// The text with an underscore where the cursor is.
    pub fn debug_string(&self) -> (r: String)
        requires
            self.wf(),
        ensures
            r@ == self.text().take(self.cursor() as int) + seq!['_'] + self.text().skip(
                self.cursor() as int,
            ),
    {
        let mut chars: Vec<char> = copy_chars(&self.text.as_slice()[0..self.curs]);
        chars.push('_');
        let mut i = self.curs;
        while i < self.text.len()
            invariant
                self.curs <= i <= self.text.len(),
                chars@ == self.text@.take(self.curs as int) + seq!['_'] + self.text@.subrange(
                    self.curs as int,
                    i as int,
                ),
            decreases self.text.len() - i,
        {
            chars.push(self.text[i]);
            i = i + 1;
            assert(chars@ =~= self.text@.take(self.curs as int) + seq!['_'] + self.text@.subrange(
                self.curs as int,
                i as int,
            ));
        }
        assert(self.text@.subrange(self.curs as int, i as int) =~= self.text@.skip(
            self.curs as int,
        ));
        string_from_chars(chars.as_slice())
    }
}

/// The lines entered in the console, newest first, with a position for browsing them.
pub struct History {
    lines: VecDeque<Vec<char>>,
    curs: usize,
}

/// The characters of each line.
pub open spec fn lines_view(l: Seq<Vec<char>>) -> Seq<Seq<char>> {
    l.map_values(|v: Vec<char>| v@)
}

impl History {
    /// The lines, newest first.
    pub closed spec fn lines(&self) -> Seq<Seq<char>> {
        lines_view(self.lines@)
    }

    /// How many lines back the browsing position is; zero is the line being edited.
    pub closed spec fn position(&self) -> nat {
        self.curs as nat
    }

    /// The position is within the lines.
    pub closed spec fn wf(&self) -> bool {
        self.curs <= self.lines@.len()
    }

    /// An empty history.
    pub fn new() -> (r: History)
        ensures
            r.wf(),
            r.lines() == Seq::<Seq<char>>::empty(),
            r.position() == 0,
    {
        let r = History { lines: VecDeque::new(), curs: 0 };
        assert(r.lines() =~= Seq::<Seq<char>>::empty());
        r
    }

    /// Adds a line as the newest and resets the browsing position.
    pub fn add_line(&mut self, line: Vec<char>)
        ensures
            final(self).wf(),
            final(self).lines() == seq![line@] + old(self).lines(),
            final(self).position() == 0,
    {
        let ghost l = line@;
        self.lines.push_front(line);
        self.curs = 0;
        assert(self.lines() =~= seq![l] + old(self).lines());
    }

    /// Moves one line further back and gives that line, or `None` where there is no older one.
    pub fn line_up(&mut self) -> (r: Option<Vec<char>>)
        requires
            old(self).wf(),
        ensures
            final(self).wf(),
            final(self).lines() == old(self).lines(),
            old(self).position() < old(self).lines().len() ==> final(self).position()
                == old(self).position() + 1,
            old(self).position() < old(self).lines().len() ==> (r matches Some(l)
                && l@ == old(self).lines()[old(self).position() as int]),
            old(self).position() >= old(self).lines().len() ==> (final(self).position()
                == old(self).position() && r is None),
    {
        if self.lines.len() == 0 || self.curs >= self.lines.len() {
            None
        } else {
            self.curs += 1;
            Some(copy_chars(self.lines[self.curs - 1].as_slice()))
        }
    }

    /// Moves one line forward and gives that line, or an empty line where the position comes
    /// back to the line being edited.
    pub fn line_down(&mut self) -> (r: Option<Vec<char>>)
        requires
            old(self).wf(),
        ensures
            final(self).wf(),
            final(self).lines() == old(self).lines(),
            final(self).position() == if old(self).position() > 0 {
                old(self).position() - 1
            } else {
                0
            },
            final(self).position() > 0 ==> (r matches Some(l)
                && l@ == old(self).lines()[final(self).position() - 1]),
            final(self).position() == 0 ==> (r matches Some(l) && l@ == Seq::<char>::empty()),
    {
        if self.curs > 0 {
            self.curs -= 1;
        }
        if self.curs > 0 {
            Some(copy_chars(self.lines[self.curs - 1].as_slice()))
        } else {
            Some(Vec::new())
        }
    }
}

/// The lines printed to the console, newest first, each with the time it was printed at, in
/// seconds, if it is to be shown on the screen for a while.
pub struct ConsoleOutput {
    lines: VecDeque<(Vec<char>, Option<i64>)>,
}

/// The characters of each printed line.
pub open spec fn out_lines_view(l: Seq<(Vec<char>, Option<i64>)>) -> Seq<(Seq<char>, Option<i64>)> {
    l.map_values(|e: (Vec<char>, Option<i64>)| (e.0@, e.1))
}

/// The text of each line among `c` that was printed after `since`, in order.
pub open spec fn kept_after(c: Seq<(Seq<char>, Option<i64>)>, since: i64) -> Seq<Seq<char>>
    decreases c.len(),
{
    if c.len() == 0 {
        Seq::empty()
    } else {
        kept_after(c.drop_last(), since) + if c.last().1 matches Some(t) && t > since {
            seq![c.last().0]
        } else {
            Seq::empty()
        }
    }
}

/// The smaller of two integers.
pub open spec fn min(a: int, b: int) -> int {
    if a < b { a } else { b }
}

/// The lines among the newest `max_candidates` that were printed after `since`, oldest first,
/// at most `max_results` of them.
pub open spec fn recent(
    lines: Seq<(Seq<char>, Option<i64>)>,
    since: i64,
    max_candidates: nat,
    max_results: nat,
) -> Seq<Seq<char>> {
    let kept = kept_after(lines.take(min(max_candidates as int, lines.len() as int)).reverse(), since);
    kept.take(min(max_results as int, kept.len() as int))
}

/// The lines among the newest `max_candidates` that were printed in the `interval` seconds
/// before `now`, oldest first, at most `max_results` of them.
pub open spec fn recent_before(
    lines: Seq<(Seq<char>, Option<i64>)>,
    now: i64,
    interval: i64,
    max_candidates: nat,
    max_results: nat,
) -> Seq<Seq<char>> {
    recent(lines, (now - interval) as i64, max_candidates, max_results)
}

/// Whether the lines `r` hold the texts `e`.
pub open spec fn lines_are(r: Seq<Vec<char>>, e: Seq<Seq<char>>) -> bool {
    &&& r.len() == e.len()
    &&& forall|k: int| 0 <= k < r.len() ==> #[trigger] r[k]@ == e[k]
}

/// Keeping lines distributes over joining the lists.
pub proof fn lemma_kept_append(a: Seq<(Seq<char>, Option<i64>)>, b: Seq<(Seq<char>, Option<i64>)>, since: i64)
    ensures
        kept_after(a + b, since) == kept_after(a, since) + kept_after(b, since),
    decreases b.len(),
{
    if b.len() == 0 {
        assert(a + b =~= a);
        assert(kept_after(a, since) + kept_after(b, since) =~= kept_after(a, since));
    } else {
        lemma_kept_append(a, b.drop_last(), since);
        assert((a + b).drop_last() =~= a + b.drop_last());
        assert((a + b).last() == b.last());
        assert(kept_after(a + b, since) =~= kept_after(a, since) + kept_after(b, since));
    }
}

impl ConsoleOutput {
    /// The printed lines, newest first.
    pub closed spec fn lines_spec(&self) -> Seq<(Seq<char>, Option<i64>)> {
        out_lines_view(self.lines@)
    }

    /// No line printed yet.
    pub fn new() -> (r: ConsoleOutput)
        ensures
            r.lines_spec() == Seq::<(Seq<char>, Option<i64>)>::empty(),
    {
        let r = ConsoleOutput { lines: VecDeque::new() };
        assert(r.lines_spec() =~= Seq::<(Seq<char>, Option<i64>)>::empty());
        r
    }

    /// Adds a line as the newest.
    pub fn push(&mut self, chars: Vec<char>, timestamp: Option<i64>)
        ensures
            final(self).lines_spec() == seq![(chars@, timestamp)] + old(self).lines_spec(),
    {
        let ghost l = chars@;
        self.lines.push_front((chars, timestamp));
        assert(self.lines_spec() =~= seq![(l, timestamp)] + old(self).lines_spec());
    }

    /// The printed lines, newest first.
    pub fn lines(&self) -> (r: Vec<Vec<char>>)
        ensures
            r@.len() == self.lines_spec().len(),
            forall|k: int| 0 <= k < r@.len() ==> #[trigger] r@[k]@ == self.lines_spec()[k].0,
    {
        let mut r: Vec<Vec<char>> = Vec::new();
        let mut i: usize = 0;
        while i < self.lines.len()
            invariant
                i <= self.lines@.len(),
                r@.len() == i,
                forall|k: int| 0 <= k < i ==> #[trigger] r@[k]@ == self.lines@[k].0@,
            decreases self.lines@.len() - i,
        {
            let line = copy_chars(self.lines[i].0.as_slice());
            r.push(line);
            i = i + 1;
        }
        r
    }

    /// The lines among the newest `max_candidates` that were printed after the time `since`,
    /// in seconds, oldest first, at most `max_results` of them.
    pub fn recent_lines_since(&self, since: i64, max_candidates: usize, max_results: usize) -> (r: Vec<Vec<char>>)
        ensures
            r@.len() == recent(self.lines_spec(), since, max_candidates as nat, max_results as nat).len(),
            forall|k: int| 0 <= k < r@.len() ==> #[trigger] r@[k]@ == recent(
                self.lines_spec(),
                since,
                max_candidates as nat,
                max_results as nat,
            )[k],
    {
        let ghost lines = self.lines_spec();
        let k: usize = if max_candidates < self.lines.len() { max_candidates } else { self.lines.len() };
        let ghost cands = lines.take(k as int).reverse();
        let mut out: Vec<Vec<char>> = Vec::new();
        let ghost mut out_view: Seq<Seq<char>> = Seq::empty();
        let mut j: usize = 0;
        while j < k && out.len() < max_results
            invariant
                k <= self.lines@.len(),
                lines == self.lines_spec(),
                cands == lines.take(k as int).reverse(),
                j <= k,
                out@.len() == out_view.len(),
                forall|m: int| 0 <= m < out@.len() ==> #[trigger] out@[m]@ == out_view[m],
                out_view == kept_after(cands.take(j as int), since),
                out_view.len() <= max_results,
            decreases k - j,
        {
            let idx = k - 1 - j;
            let entry = &self.lines[idx];
            assert(cands[j as int] == lines[idx as int]);
            assert(cands.take(j + 1).drop_last() =~= cands.take(j as int));
            assert(cands.take(j + 1).last() == cands[j as int]);
            match entry.1 {
                Some(t) => {
                    if t > since {
                        out.push(copy_chars(entry.0.as_slice()));
                        proof {
                            out_view = out_view.push(lines[idx as int].0);
                        }
                    }
                },
                None => {},
            }
            j = j + 1;
            assert(out_view =~= kept_after(cands.take(j as int), since));
        }
        proof {
            assert(cands =~= cands.take(j as int) + cands.skip(j as int));
            lemma_kept_append(cands.take(j as int), cands.skip(j as int), since);
            let all = kept_after(cands, since);
            assert(min(k as int, lines.len() as int) == k);
            if j == k {
                assert(cands.take(j as int) =~= cands);
                assert(cands.skip(j as int) =~= Seq::<(Seq<char>, Option<i64>)>::empty());
                assert(all =~= out_view);
            } else {
                assert(out_view.len() == max_results);
                assert(all.take(max_results as int) =~= out_view);
            }
        }
        out
    }

    /// The lines among the newest `max_candidates` that were printed in the `interval_secs`
    /// seconds before the time `now`, in seconds, oldest first, at most `max_results` of them.
    /// The start of the interval must be a time that an `i64` holds.
    pub fn recent_lines(&self, interval_secs: i64, max_candidates: usize, max_results: usize, now: i64) -> (r: Vec<Vec<char>>)
        requires
            i64::MIN <= now - interval_secs <= i64::MAX,
        ensures
            lines_are(
                r@,
                recent_before(self.lines_spec(), now, interval_secs, max_candidates as nat, max_results as nat),
            ),
    {
        self.recent_lines_since(now - interval_secs, max_candidates, max_results)
    }
}


/// Typing a character and erasing it again gives the line back.
pub proof fn lemma_insert_then_backspace(text: Seq<char>, cursor: nat, c: char)
    requires
        cursor <= text.len(),
    ensures
        text.insert(cursor as int, c).remove(cursor as int) == text,
{
    assert(text.insert(cursor as int, c).remove(cursor as int) =~= text);
}

/// After a line is added to the history, going up gives that line back.
pub proof fn lemma_line_up_after_add(lines: Seq<Seq<char>>, line: Seq<char>)
    ensures
        0 < (seq![line] + lines).len(),
        (seq![line] + lines)[0] == line,
{
}

} // verus!
