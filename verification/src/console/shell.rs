//! The console as a whole: the line being edited, the history, the text waiting to be run, the
//! aliases and variables, and what is printed.
//!
//! Commands that the program registers are run by the caller: stepping through the waiting
//! commands hands each such command over, with its arguments, and the caller prints what it
//! returns.

use vstd::prelude::*;
use super::cvars::{with_val, CvarRegistry, CvarState};
use super::input::{ConsoleInput, ConsoleOutput, History};
use super::parse::{commands, spec_commands, strings_view};
use crate::util::{chars_of, copy_chars, string_from_chars};
use crate::wire::push_all;

verus! {

/// What the console holds.
pub struct ConsoleView {
    pub cvars: Map<Seq<char>, CvarState>,
    pub aliases: Seq<(Seq<char>, Seq<char>)>,
    pub text: Seq<char>,
    pub cursor: nat,
    pub hist: Seq<Seq<char>>,
    pub hist_pos: nat,
    pub buffer: Seq<char>,
    pub out_buffer: Seq<char>,
    pub output: Seq<(Seq<char>, Option<i64>)>,
    pub pending: Seq<Seq<Seq<char>>>,
}

/// The printed state after the characters `s` are printed with the time `ts`: each newline
/// ends the line being assembled, which is printed with that time.
pub open spec fn print_chars(
    ob: Seq<char>,
    out: Seq<(Seq<char>, Option<i64>)>,
    s: Seq<char>,
    ts: Option<i64>,
) -> (Seq<char>, Seq<(Seq<char>, Option<i64>)>)
    decreases s.len(),
{
    if s.len() == 0 {
        (ob, out)
    } else if s[0] == '\n' {
        print_chars(Seq::empty(), seq![(ob, ts)] + out, s.drop_first(), ts)
    } else {
        print_chars(ob.push(s[0]), out, s.drop_first(), ts)
    }
}

/// The index of the alias named `name`, if there is one.
pub open spec fn alias_index(a: Seq<(Seq<char>, Seq<char>)>, name: Seq<char>) -> Option<int>
    decreases a.len(),
{
    if a.len() == 0 {
        None
    } else if a.last().0 == name {
        Some(a.len() - 1)
    } else {
        alias_index(a.drop_last(), name)
    }
}

/// The aliases after `name` is made to stand for `script`.
pub open spec fn alias_set(a: Seq<(Seq<char>, Seq<char>)>, name: Seq<char>, script: Seq<char>) -> Seq<
    (Seq<char>, Seq<char>),
> {
    match alias_index(a, name) {
        Some(i) => a.update(i, (name, script)),
        None => a.push((name, script)),
    }
}

/// The text `"name" is "value"`.
pub open spec fn cvar_line(name: Seq<char>, value: Seq<char>) -> Seq<char> {
    seq!['"'] + name + seq!['"', ' ', 'i', 's', ' ', '"'] + value + seq!['"']
}

/// The text `Unrecognized command "name"`.
pub open spec fn unrecognized_line(name: Seq<char>) -> Seq<char> {
    seq!['U', 'n', 'r', 'e', 'c', 'o', 'g', 'n', 'i', 'z', 'e', 'd', ' ', 'c', 'o', 'm', 'm', 'a', 'n', 'd', ' ', '"']
        + name + seq!['"']
}

impl ConsoleView {
    /// The state after `s` is printed with the time `ts`.
    pub open spec fn printed(self, s: Seq<char>, ts: Option<i64>) -> ConsoleView {
        ConsoleView {
            out_buffer: print_chars(self.out_buffer, self.output, s, ts).0,
            output: print_chars(self.out_buffer, self.output, s, ts).1,
            ..self
        }
    }

    /// The state after the waiting text is parsed into commands, which are run before those
    /// already waiting.
    pub open spec fn executed(self) -> ConsoleView {
        ConsoleView {
            buffer: Seq::empty(),
            pending: spec_commands(self.buffer).0 + self.pending,
            ..self
        }
    }

    /// The state after `text` and a newline are added to the waiting text.
    pub open spec fn stuffed(self, text: Seq<char>) -> ConsoleView {
        ConsoleView { buffer: self.buffer + text + seq!['\n'], ..self }
    }

    /// The state after the first waiting command is taken.
    pub open spec fn popped(self) -> ConsoleView {
        ConsoleView { pending: self.pending.drop_first(), ..self }
    }
}

/// What to do next to run the waiting commands.
#[derive(Debug)]
pub enum ExecStep {
    /// Run the command the caller registered under this name with these arguments, and print
    /// its result.
    Run(String, Vec<String>),
    /// Show the aliases, each name with the text it stands for.
    ListAliases(Vec<(String, String)>),
    /// A variable that asks to be announced when it changes was set to this value: announce
    /// the change, then step again.
    Announce(String, String),
    /// A command was handled; step again.
    Continue,
    /// No command waits.
    Done,
}

/// The console.
pub struct Console {
    cvars: CvarRegistry,
    aliases: Vec<(String, String)>,
    input: ConsoleInput,
    hist: History,
    buffer: Vec<char>,
    out_buffer: Vec<char>,
    output: ConsoleOutput,
    pending: Vec<Vec<String>>,
}

/// The text of each alias.
pub open spec fn aliases_view(a: Seq<(String, String)>) -> Seq<(Seq<char>, Seq<char>)> {
    a.map_values(|e: (String, String)| (e.0@, e.1@))
}

/// The arguments of each waiting command.
pub open spec fn pending_view(p: Seq<Vec<String>>) -> Seq<Seq<Seq<char>>> {
    p.map_values(|c: Vec<String>| strings_view(c@))
}

impl View for Console {
    type V = ConsoleView;

    closed spec fn view(&self) -> ConsoleView {
        ConsoleView {
            cvars: self.cvars@,
            aliases: aliases_view(self.aliases@),
            text: self.input.text(),
            cursor: self.input.cursor(),
            hist: self.hist.lines(),
            hist_pos: self.hist.position(),
            buffer: self.buffer@,
            out_buffer: self.out_buffer@,
            output: self.output.lines_spec(),
            pending: pending_view(self.pending@),
        }
    }
}

impl Console {
    /// The parts are well formed: variables named once, the cursor in the line, the history's
    /// position among its lines.
    pub closed spec fn wf(&self) -> bool {
        &&& self.cvars.wf()
        &&& self.input.wf()
        &&& self.hist.wf()
    }

    /// A console with the given variables and nothing else.
    pub fn new(cvars: CvarRegistry) -> (r: Console)
        requires
            cvars.wf(),
        ensures
            r.wf(),
            r@ == (ConsoleView {
                cvars: cvars@,
                aliases: Seq::empty(),
                text: Seq::empty(),
                cursor: 0,
                hist: Seq::empty(),
                hist_pos: 0,
                buffer: Seq::empty(),
                out_buffer: Seq::empty(),
                output: Seq::empty(),
                pending: Seq::empty(),
            }),
    {
        let r = Console {
            cvars,
            aliases: Vec::new(),
            input: ConsoleInput::new(),
            hist: History::new(),
            buffer: Vec::new(),
            out_buffer: Vec::new(),
            output: ConsoleOutput::new(),
            pending: Vec::new(),
        };
        assert(aliases_view(r.aliases@) =~= Seq::<(Seq<char>, Seq<char>)>::empty());
        assert(pending_view(r.pending@) =~= Seq::<Seq<Seq<char>>>::empty());
        r
    }

    /// The variables.
    pub fn cvars(&self) -> (r: &CvarRegistry)
        requires
            self.wf(),
        ensures
            r.wf(),
            r@ == self@.cvars,
    {
        &self.cvars
    }

    /// Prints the characters `s` with the time `ts`.
    fn print_impl(&mut self, s: &[char], ts: Option<i64>)
        requires
            old(self).wf(),
        ensures
            final(self).wf(),
            final(self)@ == old(self)@.printed(s@, ts),
    {
        let mut i: usize = 0;
        assert(s@.skip(0) =~= s@);
        while i < s.len()
            invariant
                i <= s.len(),
                self.wf(),
                print_chars(self.out_buffer@, self.output.lines_spec(), s@.skip(i as int), ts)
                    == print_chars(old(self).out_buffer@, old(self).output.lines_spec(), s@, ts),
                self.cvars == old(self).cvars,
                self.aliases == old(self).aliases,
                self.input == old(self).input,
                self.hist == old(self).hist,
                self.buffer == old(self).buffer,
                self.pending == old(self).pending,
            decreases s.len() - i,
        {
            let c = s[i];
            assert(s@.skip(i as int).drop_first() =~= s@.skip(i + 1));
            if c == '\n' {
                let line = copy_chars(self.out_buffer.as_slice());
                self.output.push(line, ts);
                self.out_buffer.clear();
                assert(self.out_buffer@ =~= Seq::<char>::empty());
            } else {
                self.out_buffer.push(c);
            }
            i = i + 1;
        }
        assert(s@.skip(i as int) =~= Seq::<char>::empty());
    }

    /// Prints text.
    pub fn print(&mut self, s: &str)
        requires
            old(self).wf(),
        ensures
            final(self).wf(),
            final(self)@ == old(self)@.printed(s@, None),
    {
        let chars = chars_of(s);
        self.print_impl(chars.as_slice(), None);
    }

    /// Prints text and ends the line.
    pub fn println(&mut self, s: &str)
        requires
            old(self).wf(),
        ensures
            final(self).wf(),
            final(self)@ == old(self)@.printed(s@.push('\n'), None),
    {
        let mut chars = chars_of(s);
        chars.push('\n');
        self.print_impl(chars.as_slice(), None);
    }

    /// Prints text marked with the time `now`, in seconds, so that it shows on the screen for a
    /// while.
    pub fn print_alert(&mut self, s: &str, now: i64)
        requires
            old(self).wf(),
        ensures
            final(self).wf(),
            final(self)@ == old(self)@.printed(s@, Some(now)),
    {
        let chars = chars_of(s);
        self.print_impl(chars.as_slice(), Some(now));
    }

    /// Prints text marked with the time `now`, in seconds, and ends the line.
    pub fn println_alert(&mut self, s: &str, now: i64)
        requires
            old(self).wf(),
        ensures
            final(self).wf(),
            final(self)@ == old(self)@.printed(s@.push('\n'), Some(now)),
    {
        let mut chars = chars_of(s);
        chars.push('\n');
        self.print_impl(chars.as_slice(), Some(now));
    }

    /// Adds text and a newline to the text waiting to be run.
    pub fn stuff_text(&mut self, text: &str)
        ensures
            final(self)@ == old(self)@.stuffed(text@),
            old(self).wf() ==> final(self).wf(),
    {
        let chars = chars_of(text);
        push_all(&mut self.buffer, chars.as_slice());
        self.buffer.push('\n');
        assert(self.buffer@ =~= old(self).buffer@ + text@ + seq!['\n']);
        assert(self@ =~= old(self)@.stuffed(text@));
    }

    /// The line being edited.
    pub fn get_string(&self) -> (r: String)
        ensures
            r@ == self@.text,
    {
        let t = self.input.get_text();
        string_from_chars(t.as_slice())
    }

    /// The line being edited with an underscore at the cursor.
    pub fn debug_string(&self) -> (r: String)
        requires
            self.wf(),
        ensures
            r@ == self@.text.take(self@.cursor as int) + seq!['_'] + self@.text.skip(self@.cursor as int),
    {
        self.input.debug_string()
    }

    /// The position of the cursor.
    pub fn cursor(&self) -> (r: usize)
        ensures
            r == self@.cursor,
    {
        self.input.get_cursor()
    }

    /// Moves the cursor one character right, if it can.
    pub fn cursor_right(&mut self)
        requires
            old(self).wf(),
        ensures
            final(self).wf(),
            final(self)@ == (ConsoleView {
                cursor: if old(self)@.cursor < old(self)@.text.len() { old(self)@.cursor + 1 } else { old(self)@.cursor },
                ..old(self)@
            }),
    {
        self.input.cursor_right();
    }

    /// Moves the cursor one character left, if it can.
    pub fn cursor_left(&mut self)
        requires
            old(self).wf(),
        ensures
            final(self).wf(),
            final(self)@ == (ConsoleView {
                cursor: if old(self)@.cursor > 0 { (old(self)@.cursor - 1) as nat } else { 0 },
                ..old(self)@
            }),
    {
        self.input.cursor_left();
    }

    /// Replaces the line being edited with the next older line of the history, if there is one.
    pub fn history_up(&mut self)
        requires
            old(self).wf(),
        ensures
            final(self).wf(),
            old(self)@.hist_pos < old(self)@.hist.len() ==> final(self)@ == (ConsoleView {
                hist_pos: old(self)@.hist_pos + 1,
                text: old(self)@.hist[old(self)@.hist_pos as int],
                cursor: old(self)@.hist[old(self)@.hist_pos as int].len(),
                ..old(self)@
            }),
            old(self)@.hist_pos >= old(self)@.hist.len() ==> final(self)@ == old(self)@,
    {
        if let Some(line) = self.hist.line_up() {
            self.input.set_text(&line);
        }
    }

    /// Replaces the line being edited with the next newer line of the history, or with an empty
    /// line after the newest.
    pub fn history_down(&mut self)
        requires
            old(self).wf(),
        ensures
            final(self).wf(),
            ({
                let pos: nat = if old(self)@.hist_pos > 0 { (old(self)@.hist_pos - 1) as nat } else { 0 };
                let line = if pos > 0 { old(self)@.hist[pos - 1] } else { Seq::<char>::empty() };
                final(self)@ == (ConsoleView { hist_pos: pos, text: line, cursor: line.len(), ..old(self)@ })
            }),
    {
        if let Some(line) = self.hist.line_down() {
            self.input.set_text(&line);
        }
    }

    /// Takes a typed character: a carriage return enters the line (it waits to be run, joins
    /// the history and is echoed after a `]`), backspace and delete erase, the grave accent,
    /// escape and tab are ignored, and anything else is typed at the cursor.
    pub fn send_char(&mut self, c: char)
        requires
            old(self).wf(),
        ensures
            final(self).wf(),
            c == '`' || c == '\x1b' || c == '\t' ==> final(self)@ == old(self)@,
            c == '\r' ==> final(self)@ == (ConsoleView {
                buffer: old(self)@.buffer + old(self)@.text + seq!['\n'],
                hist: seq![old(self)@.text] + old(self)@.hist,
                hist_pos: 0,
                output: seq![(seq![']'] + old(self)@.text, None::<i64>)] + old(self)@.output,
                text: Seq::empty(),
                cursor: 0,
                ..old(self)@
            }),
            c == '\x08' ==> final(self)@ == (if old(self)@.cursor > 0 {
                ConsoleView {
                    text: old(self)@.text.remove(old(self)@.cursor - 1),
                    cursor: (old(self)@.cursor - 1) as nat,
                    ..old(self)@
                }
            } else {
                old(self)@
            }),
            c == '\x7f' ==> final(self)@ == (if old(self)@.cursor < old(self)@.text.len() {
                ConsoleView { text: old(self)@.text.remove(old(self)@.cursor as int), ..old(self)@ }
            } else {
                old(self)@
            }),
            c != '`' && c != '\x1b' && c != '\t' && c != '\r' && c != '\x08' && c != '\x7f'
                ==> final(self)@ == (ConsoleView {
                text: old(self)@.text.insert(old(self)@.cursor as int, c),
                cursor: old(self)@.cursor + 1,
                ..old(self)@
            }),
    {
        if c == '`' || c == '\x1b' || c == '\t' {
            return;
        }
        if c == '\r' {
            let text = self.input.get_text();
            push_all(&mut self.buffer, text.as_slice());
            self.buffer.push('\n');
            self.hist.add_line(copy_chars(text.as_slice()));
            let mut echo: Vec<char> = Vec::new();
            echo.push(']');
            push_all(&mut echo, text.as_slice());
            self.output.push(echo, None);
            self.input.clear();
            proof {
                assert(self.buffer@ =~= old(self)@.buffer + old(self)@.text + seq!['\n']);
                assert(echo@ =~= seq![']'] + old(self)@.text);
            }
            return;
        }
        if c == '\x08' {
            self.input.backspace();
        } else if c == '\x7f' {
            self.input.delete();
        } else {
            self.input.insert(c);
        }
    }

    /// The printed lines.
    pub fn output(&self) -> (r: &ConsoleOutput)
        ensures
            r.lines_spec() == self@.output,
    {
        &self.output
    }

    /// Parses the waiting text into commands, to be run before those already waiting; the
    /// waiting text is then empty.
    pub fn execute(&mut self)
        requires
            old(self).wf(),
        ensures
            final(self).wf(),
            final(self)@ == old(self)@.executed(),
    {
        let text = string_from_chars(self.buffer.as_slice());
        self.buffer = Vec::new();
        let parsed = match commands(text.as_str()) {
            Ok((_, cmds)) => cmds,
            Err(_) => Vec::new(),
        };
        let mut all: Vec<Vec<String>> = parsed;
        let ghost first = pending_view(all@);
        assert(first =~= spec_commands(old(self)@.buffer).0);
        let mut i: usize = 0;
        while i < self.pending.len()
            invariant
                i <= self.pending.len(),
                pending_view(all@) == first + pending_view(self.pending@).take(i as int),
            decreases self.pending.len() - i,
        {
            let c = clone_args(&self.pending[i]);
            let ghost before = all@;
            all.push(c);
            assert(strings_view(c@) == pending_view(self.pending@)[i as int]);
            assert(pending_view(all@) =~= pending_view(before).push(strings_view(c@)));
            assert(pending_view(all@) =~= first + pending_view(self.pending@).take(i + 1));
            i = i + 1;
        }
        assert(pending_view(self.pending@).take(i as int) =~= pending_view(self.pending@));
        self.pending = all;
        assert(self@ =~= old(self)@.executed());
    }
}

/// A copy of a list of arguments.
fn clone_args(a: &Vec<String>) -> (r: Vec<String>)
    ensures
        r@ == a@,
{
    let mut r: Vec<String> = Vec::new();
    let mut i: usize = 0;
    while i < a.len()
        invariant
            i <= a.len(),
            r@ == a@.take(i as int),
        decreases a.len() - i,
    {
        let s = a[i].clone();
        r.push(s);
        assert(r@ =~= a@.take(i + 1));
        i = i + 1;
    }
    assert(a@.take(i as int) =~= a@);
    r
}

/// What running one waiting command asks of the caller.
pub enum StepKind {
    Run(Seq<char>, Seq<Seq<char>>),
    ListAliases(Seq<(Seq<char>, Seq<char>)>),
    Announce(Seq<char>, Seq<char>),
    Continue,
    Done,
}

/// What a step asks of the caller.
pub open spec fn step_kind(s: ExecStep) -> StepKind {
    match s {
        ExecStep::Run(name, args) => StepKind::Run(name@, strings_view(args@)),
        ExecStep::ListAliases(a) => StepKind::ListAliases(aliases_view(a@)),
        ExecStep::Announce(n, val) => StepKind::Announce(n@, val@),
        ExecStep::Continue => StepKind::Continue,
        ExecStep::Done => StepKind::Done,
    }
}

/// The name of the command that prints its first argument.
pub open spec fn echo_name() -> Seq<char> {
    seq!['e', 'c', 'h', 'o']
}

/// The name of the command that defines or lists aliases.
pub open spec fn alias_name() -> Seq<char> {
    seq!['a', 'l', 'i', 'a', 's']
}

/// What running the first waiting command does, where `cmds` are the names of the commands
/// the caller registered: an alias has its text run first; `echo` prints its first argument;
/// `alias` with two arguments defines an alias and with none lists them; a registered command
/// goes to the caller; a variable is set by a second argument, the caller announcing the change
/// where the variable asks for that, or else its value is printed; anything else is reported as
/// unrecognized.
pub open spec fn step_spec(v: ConsoleView, cmds: Seq<Seq<char>>) -> (ConsoleView, StepKind) {
    if v.pending.len() == 0 {
        (v, StepKind::Done)
    } else {
        let c = v.pending[0];
        let w = v.popped();
        if c.len() == 0 {
            (w, StepKind::Continue)
        } else if alias_index(v.aliases, c[0]) is Some {
            (w.stuffed(v.aliases[alias_index(v.aliases, c[0])->0].1).executed(), StepKind::Continue)
        } else if c[0] == echo_name() {
            if c.len() > 1 && c[1].len() > 0 {
                (w.printed(c[1].push('\n'), None), StepKind::Continue)
            } else {
                (w, StepKind::Continue)
            }
        } else if c[0] == alias_name() {
            if c.len() == 1 {
                (w, StepKind::ListAliases(v.aliases))
            } else if c.len() == 3 {
                (ConsoleView { aliases: alias_set(v.aliases, c[1], c[2]), ..w }, StepKind::Continue)
            } else {
                (w, StepKind::Continue)
            }
        } else if cmds.contains(c[0]) {
            (w, StepKind::Run(c[0], c.drop_first()))
        } else if v.cvars.contains_key(c[0]) {
            if c.len() > 1 {
                (
                    ConsoleView { cvars: v.cvars.insert(c[0], with_val(v.cvars[c[0]], c[1])), ..w },
                    if v.cvars[c[0]].notify {
                        StepKind::Announce(c[0], c[1])
                    } else {
                        StepKind::Continue
                    },
                )
            } else {
                (w.printed(cvar_line(c[0], v.cvars[c[0]].val).push('\n'), None), StepKind::Continue)
            }
        } else {
            (w.printed(unrecognized_line(c[0]).push('\n'), None), StepKind::Continue)
        }
    }
}

/// Whether `a` reads `w`.
fn is_word(a: &String, w: &[char]) -> (r: bool)
    ensures
        r == (a@ == w@),
{
    let chars = chars_of(a.as_str());
    if chars.len() != w.len() {
        return false;
    }
    let mut i: usize = 0;
    while i < w.len()
        invariant
            chars@.len() == w@.len(),
            chars@ == a@,
            i <= w.len(),
            forall|k: int| 0 <= k < i ==> chars@[k] == w@[k],
        decreases w.len() - i,
    {
        if chars[i] != w[i] {
            return false;
        }
        i = i + 1;
    }
    assert(chars@ =~= w@);
    true
}

/// Whether `names` holds `name`.
fn names_contain(names: &Vec<String>, name: &String) -> (r: bool)
    ensures
        r == strings_view(names@).contains(name@),
{
    let mut i: usize = 0;
    while i < names.len()
        invariant
            i <= names.len(),
            forall|k: int| 0 <= k < i ==> names@[k]@ != name@,
        decreases names.len() - i,
    {
        if names[i] == *name {
            assert(strings_view(names@)[i as int] == name@);
            return true;
        }
        i = i + 1;
    }
    assert forall|k: int| 0 <= k < strings_view(names@).len() implies strings_view(names@)[k] != name@ by {
        assert(strings_view(names@)[k] == names@[k]@);
    }
    false
}

impl Console {
    /// The index of the alias named `name`, searching from the last.
    fn find_alias(&self, name: &String) -> (r: Option<usize>)
        ensures
            r matches Some(i) ==> alias_index(aliases_view(self.aliases@), name@) == Some(i as int),
            r is None ==> alias_index(aliases_view(self.aliases@), name@) is None,
            r matches Some(i) ==> i < self.aliases.len() && self.aliases@[i as int].0@ == name@,
    {
        let mut i: usize = self.aliases.len();
        let ghost a = aliases_view(self.aliases@);
        assert(a.take(a.len() as int) =~= a);
        while i > 0
            invariant
                i <= self.aliases.len(),
                a == aliases_view(self.aliases@),
                alias_index(a, name@) == alias_index(a.take(i as int), name@),
            decreases i,
        {
            assert(a.take(i as int).drop_last() =~= a.take(i - 1));
            assert(a.take(i as int).last() == a[i - 1]);
            if self.aliases[i - 1].0 == *name {
                return Some(i - 1);
            }
            i = i - 1;
        }
        assert(a.take(0) =~= Seq::<(Seq<char>, Seq<char>)>::empty());
        None
    }

    /// Runs the first waiting command, or says what the caller must do to run it, where `cmds`
    /// are the names of the commands the caller registered.
    pub fn execute_step(&mut self, cmds: &Vec<String>) -> (r: ExecStep)
        requires
            old(self).wf(),
        ensures
            final(self).wf(),
            final(self)@ == step_spec(old(self)@, strings_view(cmds@)).0,
            step_kind(r) == step_spec(old(self)@, strings_view(cmds@)).1,
    {
        if self.pending.len() == 0 {
            return ExecStep::Done;
        }
        let c = self.pending.remove(0);
        let ghost v = old(self)@;
        assert(strings_view(c@) == v.pending[0]);
        assert(pending_view(self.pending@) =~= v.pending.drop_first());
        assert(self@ == v.popped());
        if c.len() == 0 {
            return ExecStep::Continue;
        }
        let name = &c[0];
        assert(name@ == v.pending[0][0]);
        match self.find_alias(name) {
            Some(i) => {
                let script = self.aliases[i].1.clone();
                assert(aliases_view(self.aliases@) == v.aliases);
                assert(alias_index(v.aliases, v.pending[0][0]) == Some(i as int));
                assert(v.aliases[i as int] == (self.aliases@[i as int].0@, self.aliases@[i as int].1@));
                assert(script@ == v.aliases[alias_index(v.aliases, v.pending[0][0])->0].1);
                self.stuff_text(script.as_str());
                self.execute();
                return ExecStep::Continue;
            },
            None => {},
        }
        if is_word(name, &['e', 'c', 'h', 'o']) {
            assert(['e', 'c', 'h', 'o']@ =~= echo_name());
            if c.len() > 1 {
                assert(c[1]@ == v.pending[0][1]);
                let line = chars_of(c[1].as_str());
                if line.len() > 0 {
                    let mut out = line;
                    out.push('\n');
                    self.print_impl(out.as_slice(), None);
                }
            }
            return ExecStep::Continue;
        }
        assert(['e', 'c', 'h', 'o']@ =~= echo_name());
        if is_word(name, &['a', 'l', 'i', 'a', 's']) {
            assert(['a', 'l', 'i', 'a', 's']@ =~= alias_name());
            if c.len() == 1 {
                let mut list: Vec<(String, String)> = Vec::new();
                let mut k: usize = 0;
                while k < self.aliases.len()
                    invariant
                        k <= self.aliases.len(),
                        list@ == self.aliases@.take(k as int),
                    decreases self.aliases.len() - k,
                {
                    let e = (self.aliases[k].0.clone(), self.aliases[k].1.clone());
                    list.push(e);
                    assert(list@ =~= self.aliases@.take(k + 1));
                    k = k + 1;
                }
                assert(self.aliases@.take(k as int) =~= self.aliases@);
                return ExecStep::ListAliases(list);
            } else if c.len() == 3 {
                let key = c[1].clone();
                let script = c[2].clone();
                assert(key@ == v.pending[0][1] && script@ == v.pending[0][2]);
                let ghost a = aliases_view(self.aliases@);
                let ghost kv = key@;
                let ghost sv = script@;
                match self.find_alias(&key) {
                    Some(i) => {
                        assert(alias_index(a, kv) == Some(i as int));
                        self.aliases.set(i, (key, script));
                        assert(aliases_view(self.aliases@) =~= a.update(i as int, (kv, sv)));
                    },
                    None => {
                        assert(alias_index(a, kv) is None);
                        self.aliases.push((key, script));
                        assert(aliases_view(self.aliases@) =~= a.push((kv, sv)));
                    },
                }
                assert(aliases_view(self.aliases@) == alias_set(a, v.pending[0][1], v.pending[0][2]));
            }
            return ExecStep::Continue;
        }
        assert(['a', 'l', 'i', 'a', 's']@ =~= alias_name());
        if names_contain(cmds, name) {
            let n = name.clone();
            let mut args: Vec<String> = Vec::new();
            let mut k: usize = 1;
            while k < c.len()
                invariant
                    1 <= k <= c.len(),
                    args@ == c@.subrange(1, k as int),
                decreases c.len() - k,
            {
                let a = c[k].clone();
                args.push(a);
                assert(args@ =~= c@.subrange(1, k + 1));
                k = k + 1;
            }
            assert(strings_view(args@) =~= strings_view(c@).drop_first());
            return ExecStep::Run(n, args);
        }
        if self.cvars.contains(name.as_str()) {
            if c.len() > 1 {
                let announce = self.cvars.set(name.as_str(), c[1].as_str());
                assert(c[1]@ == v.pending[0][1]);
                if let Ok(true) = announce {
                    return ExecStep::Announce(name.clone(), c[1].clone());
                }
            } else {
                let value = match self.cvars.get(name.as_str()) {
                    Ok(x) => x,
                    Err(_) => String::new(),
                };
                let mut line: Vec<char> = Vec::new();
                line.push('"');
                push_all(&mut line, chars_of(name.as_str()).as_slice());
                push_all(&mut line, &['"', ' ', 'i', 's', ' ', '"']);
                push_all(&mut line, chars_of(value.as_str()).as_slice());
                line.push('"');
                line.push('\n');
                assert(line@ =~= cvar_line(name@, v.cvars[name@].val).push('\n'));
                self.print_impl(line.as_slice(), None);
            }
            return ExecStep::Continue;
        }
        let mut line: Vec<char> = Vec::new();
        push_all(
            &mut line,
            &['U', 'n', 'r', 'e', 'c', 'o', 'g', 'n', 'i', 'z', 'e', 'd', ' ', 'c', 'o', 'm', 'm', 'a', 'n', 'd', ' ', '"'],
        );
        push_all(&mut line, chars_of(name.as_str()).as_slice());
        line.push('"');
        line.push('\n');
        assert(line@ =~= unrecognized_line(name@).push('\n'));
        self.print_impl(line.as_slice(), None);
        ExecStep::Continue
    }
}

} // verus!
