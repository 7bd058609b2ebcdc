use vstd::prelude::*;

use crate::commands::{accepted, Command, Outcome};
use crate::history::{push_dedup, History};
use crate::ps::{assigned, Ps, PsMut};
use crate::terminal::{key_step, Key, Processor, Step};
use crate::text::words;

verus! {

/// The prompt of an interactive session before a configuration script has changed it.
pub const DEFAULT_PS: &'static str = "pse-0.1.0$ ";

/// Settings of the script runtime.
pub struct VmConfig {
    pub sandbox: bool,
    pub jit: bool,
}

/// Settings of a session.
pub struct Config {
    /// Skip the configuration script.
    pub norc: bool,
    pub vm: VmConfig,
}

/// Why a script run failed.
pub enum ScriptError {
    /// Setting up the script's globals failed, with this message.
    Globals(String),
    /// The script failed to compile or raised an error while running, with this message.
    Runtime(String),
}

/// The prompt text after a script run that left `staged` as the prompt text: taken where the
/// run succeeded, dropped where it failed.
pub open spec fn concluded(
    before: Seq<char>,
    staged: Seq<char>,
    outcome: Result<(), ScriptError>,
) -> Seq<char> {
    match outcome {
        Ok(()) => staged,
        Err(_) => before,
    }
}

/// The diagnostics that a script run with `outcome` yields: its error, if any.
pub open spec fn diagnostics(outcome: Result<(), ScriptError>) -> Seq<ScriptError> {
    match outcome {
        Ok(()) => Seq::empty(),
        Err(e) => seq![e],
    }
}

/// The `_VERSION` global that scripts see: the runtime's own version, then this shell's
/// name and version.
pub open spec fn version_text(luau: Seq<char>, name: Seq<char>, version: Seq<char>) -> Seq<char> {
    luau + ", "@ + name + " "@ + version
}

/// Builds the `_VERSION` global from the runtime's version `luau`, and this shell's `name`
/// and `version`.
pub fn version_global(luau: &str, name: &str, version: &str) -> (r: String)
    ensures
        r@ == version_text(luau@, name@, version@),
{
    let mut out = luau.to_owned();
    out.append(", ");
    out.append(name);
    out.append(" ");
    out.append(version);
    out
}

/// An interactive session: its settings, the history store, the prompt and the input line.
pub struct Pse {
    pub config: Config,
    pub history: History,
    pub ps: Ps,
    pub input: Processor,
}

impl Pse {
    /// The session invariant: the input line never holds a line feed.
    pub open spec fn wf(&self) -> bool {
        self.input.wf()
    }

    /// A session with the settings `config` and the history store `history`, showing the
    /// default prompt, with an empty input line.
    pub fn create(config: Config, history: History) -> (r: Pse)
        ensures
            r.config == config,
            r.history == history,
            r.ps.text() == DEFAULT_PS@,
            r.input.buffer() == Seq::<char>::empty(),
            r.wf(),
    {
        Pse { config, history, ps: Ps::set(DEFAULT_PS.to_owned()), input: Processor::init() }
    }

    /// The prompt handed to a script run: a copy of the current one, which the script may
    /// change without touching the session's until the run has succeeded.
    pub fn stage_prompt(&self) -> (r: Ps)
        ensures
            r.text() == self.ps.text(),
    {
        Ps::set(self.ps.render())
    }

    /// Ends a script run that left `staged` as the prompt: the session's prompt becomes it
    /// where the run succeeded and stays as it was where it failed. Returns the diagnostic to
    /// report, if any.
    pub fn vm_exec_finished(&mut self, staged: Ps, outcome: Result<(), ScriptError>) -> (r:
        Option<ScriptError>)
        ensures
            final(self).ps.text() == concluded(old(self).ps.text(), staged.text(), outcome),
            diagnostics(outcome) == (match r {
                Some(e) => seq![e],
                None => Seq::<ScriptError>::empty(),
            }),
            final(self).history == old(self).history,
            final(self).input == old(self).input,
            final(self).config == old(self).config,
    {
        match outcome {
            Ok(()) => {
                self.ps = staged;
                None
            },
            Err(e) => Some(e),
        }
    }

    /// Takes one key event on the input line.
    pub fn key(&mut self, key: Key) -> (r: Step)
        ensures
            (final(self).input.buffer(), r@) == key_step(old(self).input.buffer(), key),
            old(self).wf() ==> final(self).wf(),
            final(self).history == old(self).history,
            final(self).ps == old(self).ps,
    {
        self.input.input_handler(key)
    }

    /// Records in the history the line `line`, carried out with `outcome`.
    pub fn finish_command(&mut self, line: &String, outcome: Outcome)
        ensures
            final(self).history.log() == (if accepted(outcome) && words(line@).len() > 0 {
                push_dedup(old(self).history.log(), line@)
            } else {
                old(self).history.log()
            }),
            final(self).history.stored() == old(self).history.stored(),
            final(self).history.store_empty() == old(self).history.store_empty(),
            final(self).history.path() == old(self).history.path(),
            final(self).input == old(self).input,
            final(self).ps == old(self).ps,
    {
        Command::new(line).exec(&mut self.history, outcome);
    }
}

/// A script run that sets the prompt text to `x` and succeeds leaves `x` as the prompt, which
/// is what the next render shows; a run that fails leaves the prompt as it was before the
/// run, whatever the script assigned, and yields exactly one diagnostic.
pub proof fn lemma_script_prompt(before: Seq<char>, x: Seq<char>, outcome: Result<(), ScriptError>)
    ensures
        outcome is Ok ==> concluded(before, assigned(before, "PROMPT"@, x), outcome) == x,
        outcome is Ok ==> diagnostics(outcome).len() == 0,
        forall|staged: Seq<char>|
            outcome is Err ==> #[trigger] concluded(before, staged, outcome) == before,
        outcome is Err ==> diagnostics(outcome).len() == 1,
{
}

} // verus!
