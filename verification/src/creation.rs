//! Progress of the hooks that run while a session is created in the
//! background, as the session list shows it under the placeholder row.
use vstd::prelude::*;
use crate::text::names_of;

verus! {

/// Most hook output lines kept.
pub const HOOK_OUTPUT_CAP: usize = 1000;

/// How many of the oldest lines go when the cap is passed.
pub const HOOK_OUTPUT_DROP: usize = 500;

/// A progress report from a running creation hook.
pub enum HookProgress {
    /// A hook command started.
    Started(String),
    /// A hook printed a line.
    Output(String),
}

/// What the list shows of the hooks while a session is being created.
pub struct CreatingHookProgress {
    /// The latest lines the hooks printed, oldest first.
    pub hook_output: Vec<String>,
    /// The hook command running now.
    pub current_hook: Option<String>,
}

/// The lines kept after `line` was printed on top of `lines`: all of them,
/// or, once there are more than the cap, all but the oldest 500.
pub open spec fn kept_lines(lines: Seq<Seq<char>>, line: Seq<char>) -> Seq<Seq<char>> {
    let grown = lines.push(line);
    if grown.len() > HOOK_OUTPUT_CAP {
        grown.skip(HOOK_OUTPUT_DROP as int)
    } else {
        grown
    }
}

impl CreatingHookProgress {
    /// No output yet and no hook running.
    pub fn new() -> (r: Self)
        ensures
            r.hook_output@.len() == 0,
            r.current_hook is None,
    {
        CreatingHookProgress { hook_output: Vec::new(), current_hook: None }
    }

    /// Takes in one progress report: a started hook becomes the current one;
    /// a printed line is appended, and past the cap the oldest 500 lines
    /// are dropped.
    pub fn apply(&mut self, progress: HookProgress)
        ensures
            match progress {
                HookProgress::Started(cmd) => {
                    &&& final(self).current_hook matches Some(c) && c@ == cmd@
                    &&& names_of(final(self).hook_output@) == names_of(old(self).hook_output@)
                },
                HookProgress::Output(line) => {
                    &&& names_of(final(self).hook_output@) == kept_lines(names_of(old(self).hook_output@), line@)
                    &&& final(self).current_hook == old(self).current_hook
                },
            },
    {
        match progress {
            HookProgress::Started(cmd) => {
                self.current_hook = Some(cmd);
            },
            HookProgress::Output(line) => {
                let ghost before = self.hook_output@;
                self.hook_output.push(line);
                assert(names_of(self.hook_output@) =~= names_of(before).push(line@));
                if self.hook_output.len() > HOOK_OUTPUT_CAP {
                    let ghost grown = self.hook_output@;
                    let tail = self.hook_output.split_off(HOOK_OUTPUT_DROP);
                    self.hook_output = tail;
                    assert(names_of(self.hook_output@) =~= names_of(grown).skip(HOOK_OUTPUT_DROP as int));
                }
            },
        }
    }
}

/// The output buffer never holds more than the cap, and the newest line is
/// always its last.
pub proof fn law_hook_output_stays_bounded(lines: Seq<Seq<char>>, line: Seq<char>)
    requires
        lines.len() <= HOOK_OUTPUT_CAP,
    ensures
        kept_lines(lines, line).len() <= HOOK_OUTPUT_CAP,
        kept_lines(lines, line).last() == line,
{
}

} // verus!
