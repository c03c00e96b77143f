//! The state behind the terminal front end: a list of log lines with one of
//! them selected, and what a key does to it.

use vstd::prelude::*;
use vstd::string::StringSliceAdditionalSpecFns;

verus! {

/// The keys that the front end tells apart.
#[derive(Debug, Clone, Copy, PartialEq, Eq, Structural)]
pub enum Key {
    Char(char),
    Up,
    Down,
    Other,
}

/// What the front end does after a key.
#[derive(Debug, Clone, Copy, PartialEq, Eq, Structural)]
pub enum Action {
    /// Leave the event loop.
    Quit,
    /// Draw again and wait for the next key.
    Continue,
}

/// How a log line is shown.
#[derive(Debug, Clone, Copy, PartialEq, Eq, Structural)]
pub enum LogLevel {
    Warning,
    Error,
    Info,
}

/// Whether `needle` occurs in `haystack` at `at`.
pub open spec fn spec_occurs_at(haystack: Seq<u8>, needle: Seq<u8>, at: int) -> bool {
    0 <= at && at + needle.len() <= haystack.len() && haystack.subrange(
        at,
        at + needle.len(),
    ) == needle
}

/// Whether `needle` occurs in `haystack`.
pub open spec fn spec_contains(haystack: Seq<u8>, needle: Seq<u8>) -> bool {
    exists|at: int| spec_occurs_at(haystack, needle, at)
}

/// The level of a log line: a warning where it names one, else an error
/// where it names one, else plain information.
pub open spec fn spec_log_level(line: Seq<u8>) -> LogLevel {
    if spec_contains(line, "WARN".spec_bytes()) {
        LogLevel::Warning
    } else if spec_contains(line, "ERROR".spec_bytes()) {
        LogLevel::Error
    } else {
        LogLevel::Info
    }
}

/// The selection after moving down: the next line, and the first after the
/// last or from no selection.
pub open spec fn spec_next(selected: Option<usize>, len: nat) -> Option<usize> {
    match selected {
        Some(i) => if i >= len - 1 {
            Some(0)
        } else {
            Some((i + 1) as usize)
        },
        None => Some(0),
    }
}

/// The selection after moving up: the previous line, the last before the
/// first, and the first from no selection.
pub open spec fn spec_previous(selected: Option<usize>, len: nat) -> Option<usize> {
    match selected {
        Some(i) => if i == 0 {
            Some((len - 1) as usize)
        } else {
            Some((i - 1) as usize)
        },
        None => Some(0),
    }
}

/// Whether `needle` occurs in `haystack` at `at`.
fn occurs_at(haystack: &[u8], needle: &[u8], at: usize) -> (r: bool)
    requires
        at + needle@.len() <= haystack@.len(),
    ensures
        r == spec_occurs_at(haystack@, needle@, at as int),
{
    let length = haystack.len();
    let mut k: usize = 0;
    while k < needle.len()
        invariant
            k <= needle@.len(),
            length == haystack@.len(),
            at + needle@.len() <= haystack@.len(),
            forall|j: int| 0 <= j < k ==> haystack@[at + j] == needle@[j],
        decreases needle@.len() - k,
    {
        if haystack[at + k] != needle[k] {
            assert(haystack@.subrange(at as int, at + needle@.len())[k as int] != needle@[
                k as int
            ]);
            return false;
        }
        k += 1;
    }
    assert(haystack@.subrange(at as int, at + needle@.len()) =~= needle@);
    true
}

/// Whether `needle` occurs in `haystack`.
pub fn contains(haystack: &[u8], needle: &[u8]) -> (r: bool)
    ensures
        r == spec_contains(haystack@, needle@),
{
    if needle.len() > haystack.len() {
        return false;
    }
    let last = haystack.len() - needle.len();
    let mut at: usize = 0;
    loop
        invariant
            at <= last,
            last == haystack@.len() - needle@.len(),
            forall|j: int| 0 <= j < at ==> !spec_occurs_at(haystack@, needle@, j),
        decreases last - at,
    {
        if occurs_at(haystack, needle, at) {
            return true;
        }
        if at == last {
            return false;
        }
        at += 1;
    }
}

/// The level of a log line.
pub fn log_level(line: &str) -> (r: LogLevel)
    ensures
        r == spec_log_level(line.spec_bytes()),
{
    let bytes = line.as_bytes();
    if contains(bytes, "WARN".as_bytes()) {
        LogLevel::Warning
    } else if contains(bytes, "ERROR".as_bytes()) {
        LogLevel::Error
    } else {
        LogLevel::Info
    }
}

/// A list of log lines, one of which may be selected.
#[derive(Debug)]
pub struct App {
    log_entries: Vec<&'static str>,
    selected: Option<usize>,
}

impl App {
    #[verifier::type_invariant]
    spec fn valid(&self) -> bool {
        self.log_entries@.len() > 0 && (self.selected is Some ==> self.selected->Some_0
            < self.log_entries@.len())
    }

    /// The log lines, oldest first.
    pub closed spec fn entries(&self) -> Seq<&'static str> {
        self.log_entries@
    }

    /// The index of the selected line.
    pub closed spec fn selection(&self) -> Option<usize> {
        self.selected
    }

    /// A view of the given lines with the last, the most recent, selected.
    pub fn new(log_entries: Vec<&'static str>) -> (app: App)
        requires
            log_entries@.len() > 0,
        ensures
            app.entries() == log_entries@,
            app.selection() == Some((log_entries@.len() - 1) as usize),
    {
        let last = log_entries.len() - 1;
        App { log_entries, selected: Some(last) }
    }

    /// The log lines, oldest first.
    pub fn log_entries(&self) -> (r: &Vec<&'static str>)
        ensures
            r@ == self.entries(),
            r@.len() > 0,
    {
        proof {
            use_type_invariant(self);
        }
        &self.log_entries
    }

    /// The index of the selected line, which is one of the lines.
    pub fn selected(&self) -> (r: Option<usize>)
        ensures
            r == self.selection(),
            r is Some ==> r->Some_0 < self.entries().len(),
    {
        proof {
            use_type_invariant(self);
        }
        self.selected
    }

    /// Selects the next line, or the first after the last.
    pub fn next_log(&mut self)
        ensures
            final(self).entries() == old(self).entries(),
            final(self).selection() == spec_next(
                old(self).selection(),
                old(self).entries().len(),
            ),
    {
        proof {
            use_type_invariant(&*self);
        }
        let i = match self.selected {
            Some(i) => {
                if i >= self.log_entries.len() - 1 {
                    0
                } else {
                    i + 1
                }
            },
            None => 0,
        };
        self.selected = Some(i);
    }

    /// Selects the previous line, or the last before the first.
    pub fn previous_log(&mut self)
        ensures
            final(self).entries() == old(self).entries(),
            final(self).selection() == spec_previous(
                old(self).selection(),
                old(self).entries().len(),
            ),
    {
        proof {
            use_type_invariant(&*self);
        }
        let i = match self.selected {
            Some(i) => {
                if i == 0 {
                    self.log_entries.len() - 1
                } else {
                    i - 1
                }
            },
            None => 0,
        };
        self.selected = Some(i);
    }

    /// Applies a key: `q` quits, the arrows move the selection, every other
    /// key does nothing.
    pub fn handle_key(&mut self, key: Key) -> (action: Action)
        ensures
            final(self).entries() == old(self).entries(),
            action == (if key == Key::Char('q') {
                Action::Quit
            } else {
                Action::Continue
            }),
            final(self).selection() == (match key {
                Key::Down => spec_next(old(self).selection(), old(self).entries().len()),
                Key::Up => spec_previous(old(self).selection(), old(self).entries().len()),
                _ => old(self).selection(),
            }),
    {
        match key {
            Key::Char(c) => {
                if c == 'q' {
                    Action::Quit
                } else {
                    Action::Continue
                }
            },
            Key::Down => {
                self.next_log();
                Action::Continue
            },
            Key::Up => {
                self.previous_log();
                Action::Continue
            },
            Key::Other => Action::Continue,
        }
    }
}

} // verus!
