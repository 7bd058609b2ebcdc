use vstd::prelude::*;

use crate::ps::DEFAULT_PS;
use crate::text::{same_text, trim_text, trimmed};

verus! {

/// Settings of the line-mode shell.
pub struct Config {
    /// Skip the configuration script.
    pub norc: bool,
}

/// A line-mode shell: reads whole lines from standard input, without raw mode.
pub struct LambdaShell {
    ps1: String,
    config: Config,
    terminating: bool,
}

impl LambdaShell {
    /// The prompt shown before each line.
    pub closed spec fn prompt_text(&self) -> Seq<char> {
        self.ps1@
    }

    /// Whether the shell has been asked to stop.
    pub closed spec fn stopping(&self) -> bool {
        self.terminating
    }

    /// The settings the shell was made with.
    pub closed spec fn settings(&self) -> Config {
        self.config
    }

    /// A shell with the settings `config`, showing the default prompt, not stopping.
    pub fn create(config: Config) -> (r: Self)
        ensures
            r.prompt_text() == DEFAULT_PS@,
            !r.stopping(),
            r.settings() == config,
    {
        LambdaShell { ps1: DEFAULT_PS.to_owned(), terminating: false, config }
    }

    /// The prompt shown before each line.
    pub fn prompt(&self) -> (r: &str)
        ensures
            r@ == self.prompt_text(),
    {
        self.ps1.as_str()
    }

    /// Whether the shell has been asked to stop.
    pub fn terminating(&self) -> (r: bool)
        ensures
            r == self.stopping(),
    {
        self.terminating
    }

    /// Whether the configuration script is skipped.
    pub fn norc(&self) -> (r: bool)
        ensures
            r == self.settings().norc,
    {
        self.config.norc
    }

    /// Takes one line read from standard input, without its surrounding white space: `exit`
    /// stops the shell; any other line is handed back to be carried out.
    pub fn submit(&mut self, input: &str) -> (r: Option<String>)
        ensures
            trimmed(input@) == "exit"@ ==> r is None && final(self).stopping(),
            trimmed(input@) != "exit"@ ==> (r matches Some(l) && l@ == trimmed(input@))
                && final(self).stopping() == old(self).stopping(),
            final(self).prompt_text() == old(self).prompt_text(),
            final(self).settings() == old(self).settings(),
    {
        let line = trim_text(input);
        if same_text(line.as_str(), "exit") {
            self.terminating = true;
            None
        } else {
            Some(line)
        }
    }
}

} // verus!
