use vstd::prelude::*;

use crate::text::same_text;

verus! {

/// The prompt of the line-mode shell.
pub const DEFAULT_PS: &'static str = "pse-0.1.0 ";

/// Reading and replacing the prompt text.
pub trait PsMut {
    /// The prompt text.
    spec fn text(&self) -> Seq<char>;

    fn get(&self) -> (r: &str)
        ensures
            r@ == self.text(),
    ;

    fn modify(&mut self, prompt: String)
        ensures
            final(self).text() == prompt@,
    ;
}

/// The prompt text, shared by the shell, which shows it, and the configuration script, which
/// may replace it.
pub struct Ps(String);

impl PsMut for Ps {
    closed spec fn text(&self) -> Seq<char> {
        self.0@
    }

    fn get(&self) -> (r: &str) {
        self.0.as_str()
    }

    fn modify(&mut self, prompt: String) {
        self.0 = prompt;
    }
}

/// The prompt text after a script assigns `value` to the field `field` of the prompt object:
/// only the field `PROMPT` holds the prompt; others are ignored.
pub open spec fn assigned(text: Seq<char>, field: Seq<char>, value: Seq<char>) -> Seq<char> {
    if field == "PROMPT"@ {
        value
    } else {
        text
    }
}

impl Ps {
    /// A prompt holding `prompt`.
    pub fn set(prompt: String) -> (r: Ps)
        ensures
            r.text() == prompt@,
    {
        Ps(prompt)
    }

    /// What the shell shows as the prompt.
    pub fn render(&self) -> (r: String)
        ensures
            r@ == self.text(),
    {
        self.0.clone()
    }

    /// A script assigns `value` to the field `field` of the prompt object.
    pub fn script_assign(&mut self, field: &str, value: String)
        ensures
            final(self).text() == assigned(old(self).text(), field@, value@),
    {
        if same_text(field, "PROMPT") {
            self.0 = value;
        }
    }
}

} // verus!
