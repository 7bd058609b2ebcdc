use vstd::prelude::*;

use crate::text::same_text;

verus! {

/// A key event, as the input processor sees it.
pub enum Key {
    /// A character key without the control modifier.
    Char(char),
    /// A character key with the control modifier.
    Control(char),
    Enter,
    Backspace,
    Tab,
    Left,
    Right,
    Up,
    Down,
    /// Any other key.
    Other,
}

/// What the terminal is to do after a key event.
pub enum Step {
    /// Write this text after what is shown.
    Echo(String),
    /// Write the whole input line again.
    Repaint(String),
    /// Backspace on an empty line: signal it, change nothing.
    Bell,
    /// Hand this line to the command dispatcher; the input line is now empty.
    Dispatch(String),
    /// The line was `exit`: leave the read loop.
    Exit,
    /// A key whose feature the shell does not have: report it by this name.
    Unsupported(String),
    /// Nothing to do.
    Ignore,
}

/// A `Step`, as values.
pub enum StepView {
    Echo(Seq<char>),
    Repaint(Seq<char>),
    Bell,
    Dispatch(Seq<char>),
    Exit,
    Unsupported(Seq<char>),
    Ignore,
}

impl View for Step {
    type V = StepView;

    open spec fn view(&self) -> StepView {
        match self {
            Step::Echo(s) => StepView::Echo(s@),
            Step::Repaint(s) => StepView::Repaint(s@),
            Step::Bell => StepView::Bell,
            Step::Dispatch(s) => StepView::Dispatch(s@),
            Step::Exit => StepView::Exit,
            Step::Unsupported(s) => StepView::Unsupported(s@),
            Step::Ignore => StepView::Ignore,
        }
    }
}

/// Characters that are typed into the line: all but the control characters (C0, DEL and C1).
pub open spec fn printable(c: char) -> bool {
    !((c as u32) < 0x20 || (0x7f <= (c as u32) && (c as u32) <= 0x9f))
}

/// The input line and the step after the key `key` on the input line `buf`.
pub open spec fn key_step(buf: Seq<char>, key: Key) -> (Seq<char>, StepView) {
    match key {
        Key::Char(c) => if printable(c) {
            (buf.push(c), StepView::Echo(seq![c]))
        } else {
            (buf, StepView::Ignore)
        },
        Key::Control(c) => if c == 'c' {
            (buf, StepView::Echo("^C"@))
        } else {
            (buf, StepView::Ignore)
        },
        Key::Enter => if buf == "exit"@ {
            (buf, StepView::Exit)
        } else {
            (Seq::empty(), StepView::Dispatch(buf))
        },
        Key::Backspace => if buf.len() > 0 {
            (buf.drop_last(), StepView::Repaint(buf.drop_last()))
        } else {
            (buf, StepView::Bell)
        },
        Key::Tab => (buf, StepView::Unsupported("Tab"@)),
        Key::Left => (buf, StepView::Unsupported("Left"@)),
        Key::Right => (buf, StepView::Unsupported("Right"@)),
        Key::Up => (buf, StepView::Unsupported("Up"@)),
        Key::Down => (buf, StepView::Unsupported("Down"@)),
        Key::Other => (buf, StepView::Ignore),
    }
}

/// The raw-mode input processor: the line typed so far.
pub struct Processor(String);

impl Processor {
    /// The line typed so far.
    pub closed spec fn buffer(&self) -> Seq<char> {
        self.0@
    }

    /// The line never holds a line feed.
    pub open spec fn wf(&self) -> bool {
        !self.buffer().contains('\n')
    }

    /// An empty input line.
    pub fn init() -> (r: Self)
        ensures
            r.buffer() == Seq::<char>::empty(),
            r.wf(),
    {
        Processor(String::new())
    }

    /// The line typed so far.
    pub fn line(&self) -> (r: &str)
        ensures
            r@ == self.buffer(),
    {
        self.0.as_str()
    }

    /// Takes one key event: a printable character is appended and echoed; backspace removes
    /// the last character and repaints the line, or signals an empty line; enter hands the
    /// line to the dispatcher and empties it, except for the line `exit`, which ends the read
    /// loop; control-C shows `^C` and keeps the line; tab and the arrow keys are reported as
    /// not supported; anything else is ignored.
    pub fn input_handler(&mut self, key: Key) -> (r: Step)
        ensures
            (final(self).buffer(), r@) == key_step(old(self).buffer(), key),
            old(self).wf() ==> final(self).wf(),
    {
        proof {
            reveal_strlit("exit");
        }
        match key {
            Key::Char(c) => {
                let u = c as u32;
                if u < 0x20 || (0x7f <= u && u <= 0x9f) {
                    Step::Ignore
                } else {
                    self.0.push(c);
                    let mut echo = String::new();
                    echo.push(c);
                    assert(old(self).wf() ==> !self.0@.contains('\n')) by {
                        if old(self).wf() && self.0@.contains('\n') {
                            let k = choose|k: int| 0 <= k < self.0@.len() && self.0@[k] == '\n';
                            if k < self.0@.len() - 1 {
                                assert(old(self).0@[k] == '\n');
                            }
                        }
                    }
                    Step::Echo(echo)
                }
            },
            Key::Control(c) => {
                if c == 'c' {
                    Step::Echo("^C".to_owned())
                } else {
                    Step::Ignore
                }
            },
            Key::Enter => {
                if same_text(self.0.as_str(), "exit") {
                    Step::Exit
                } else {
                    let line = self.0.clone();
                    self.0.clear();
                    assert(!self.0@.contains('\n')) by {
                        assert(self.0@.len() == 0);
                    }
                    Step::Dispatch(line)
                }
            },
            Key::Backspace => {
                match self.0.pop() {
                    Some(_) => {
                        assert(old(self).wf() ==> !self.0@.contains('\n')) by {
                            if old(self).wf() && self.0@.contains('\n') {
                                let k = choose|k: int|
                                    0 <= k < self.0@.len() && self.0@[k] == '\n';
                                assert(old(self).0@[k] == '\n');
                            }
                        }
                        Step::Repaint(self.0.clone())
                    },
                    None => Step::Bell,
                }
            },
            Key::Tab => Step::Unsupported("Tab".to_owned()),
            Key::Left => Step::Unsupported("Left".to_owned()),
            Key::Right => Step::Unsupported("Right".to_owned()),
            Key::Up => Step::Unsupported("Up".to_owned()),
            Key::Down => Step::Unsupported("Down".to_owned()),
            Key::Other => Step::Ignore,
        }
    }
}

/// The exit sentinel: enter on the line `exit` ends the read loop and leaves the line as it
/// is, and no key ever hands the line `exit` to the dispatcher, so it never reaches the
/// history.
pub proof fn lemma_exit_not_dispatched(buf: Seq<char>, key: Key)
    ensures
        key_step("exit"@, Key::Enter) == ("exit"@, StepView::Exit),
        key_step(buf, key).1 matches StepView::Dispatch(l) ==> l != "exit"@,
{
}

} // verus!
