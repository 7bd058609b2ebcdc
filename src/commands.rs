use vstd::prelude::*;

use crate::history::{push_dedup, History};
use crate::rc::home_dir;
use crate::text::{same_text, split_words, views, words};
use crate::valid_pbuf::{push_path, pushed, IsValid, Probe, Validity};

verus! {

/// Where a `cd` is headed, as values.
pub enum CdTarget {
    Enter(Seq<char>),
    Probe(Seq<char>, Seq<char>),
    Literal(Seq<char>),
    Unsupported,
}

/// Where a `cd` is headed.
pub enum CdPlan {
    /// Change to this directory if it is one; otherwise report it.
    Enter(String),
    /// Change to `path` if it is a directory; where it is missing or of another kind, change
    /// to `fallback`.
    Probe { path: String, fallback: String },
    /// Change to this path if it is a directory; otherwise report it.
    Literal(String),
    /// `cd -`: no previous directory is kept, so this is reported as not supported.
    Unsupported,
}

impl View for CdPlan {
    type V = CdTarget;

    open spec fn view(&self) -> CdTarget {
        match self {
            CdPlan::Enter(p) => CdTarget::Enter(p@),
            CdPlan::Probe { path, fallback } => CdTarget::Probe(path@, fallback@),
            CdPlan::Literal(p) => CdTarget::Literal(p@),
            CdPlan::Unsupported => CdTarget::Unsupported,
        }
    }
}

/// What a `cd` comes to once its target has been looked at.
pub enum CdStep {
    /// Change the working directory to this path.
    Enter(String),
    /// Nothing exists at this path.
    Missing(String),
    /// This path exists but is not a directory.
    NotADirectory(String),
    /// Checking the path failed, with this message.
    Failed(String),
    /// `cd -` is not supported.
    Unsupported,
}

pub open spec fn opt_view(o: Option<String>) -> Option<Seq<char>> {
    match o {
        Some(s) => Some(s@),
        None => None,
    }
}

/// The caller's home directory, or the root where none is known.
pub open spec fn home_or_root(home: Option<Seq<char>>) -> Seq<char> {
    match home {
        Some(h) => h,
        None => "/"@,
    }
}

/// The pieces of `l`, one after another.
pub open spec fn concat_all(l: Seq<Seq<char>>) -> Seq<char>
    decreases l.len(),
{
    if l.len() == 0 {
        Seq::empty()
    } else {
        concat_all(l.drop_last()) + l.last()
    }
}

/// Where `cd ~name` leads, given the home directory and the names of the system's users.
pub open spec fn user_target(
    name: Seq<char>,
    home: Option<Seq<char>>,
    users: Seq<Seq<char>>,
) -> CdTarget {
    if name.len() == 0 {
        CdTarget::Enter(home_or_root(home))
    } else if name == "root"@ {
        CdTarget::Probe("/root"@, home_or_root(home))
    } else if users.contains(name) {
        CdTarget::Probe(pushed("/home"@, name), home_or_root(home))
    } else {
        CdTarget::Enter(home_or_root(home))
    }
}

/// Where `cd` with the arguments `args` leads.
pub open spec fn cd_target(
    args: Seq<Seq<char>>,
    home: Option<Seq<char>>,
    users: Seq<Seq<char>>,
) -> CdTarget {
    if args.len() == 0 {
        CdTarget::Enter(home_or_root(home))
    } else if args[0] == "/"@ {
        CdTarget::Enter("/"@)
    } else if args[0] == "-"@ {
        CdTarget::Unsupported
    } else if args[0].len() == 0 {
        CdTarget::Enter(home_or_root(home))
    } else if args[0][0] == '~' {
        user_target(args[0].drop_first(), home, users)
    } else {
        CdTarget::Literal(concat_all(args))
    }
}

/// What a `cd` with the plan `plan` comes to, given what a look at its path found.
pub open spec fn cd_outcome(plan: CdTarget, probe: Probe) -> Option<CdTarget> {
    match plan {
        CdTarget::Enter(p) => match probe.verdict() {
            Ok(()) => Some(CdTarget::Enter(p)),
            _ => None,
        },
        CdTarget::Unsupported => Some(CdTarget::Unsupported),
        CdTarget::Probe(p, f) => match probe.verdict() {
            Ok(()) => Some(CdTarget::Enter(p)),
            Err(crate::valid_pbuf::IsValidDirErr::TryExists(_)) => None,
            Err(_) => Some(CdTarget::Enter(f)),
        },
        CdTarget::Literal(p) => match probe.verdict() {
            Ok(()) => Some(CdTarget::Enter(p)),
            _ => None,
        },
    }
}

fn strip_first_char(s: &str) -> (r: String)
    requires
        s@.len() > 0,
    ensures
        r@ == s@.drop_first(),
{
    let mut out = String::new();
    let mut first = true;
    for c in it: s.chars()
        invariant
            it.seq() == s@,
            first <==> it.index() == 0,
            first ==> out@.len() == 0,
            it.index() > 0 ==> out@ == s@.subrange(1, it.index() as int),
    {
        assert(c == s@[it.index() as int]);
        if first {
            first = false;
            assert(out@ =~= s@.subrange(1, it.index() + 1));
        } else {
            out.push(c);
            assert(out@ =~= s@.subrange(1, it.index() + 1));
        }
    }
    assert(s@.subrange(1, s@.len() as int) =~= s@.drop_first());
    out
}

fn concat_args(args: &Vec<String>) -> (r: String)
    ensures
        r@ == concat_all(views(args@)),
{
    let mut out = String::new();
    let n = args.len();
    let mut i: usize = 0;
    while i < n
        invariant
            n == args@.len(),
            0 <= i <= n,
            out@ == concat_all(views(args@).subrange(0, i as int)),
        decreases n - i,
    {
        assert(views(args@).subrange(0, i + 1).drop_last() =~= views(args@).subrange(0, i as int));
        out.append(args[i].as_str());
        i = i + 1;
    }
    assert(views(args@).subrange(0, n as int) =~= views(args@));
    out
}

fn home_or_root_of(home: &Option<String>) -> (r: String)
    ensures
        r@ == home_or_root(opt_view(*home)),
{
    match home {
        Some(h) => h.clone(),
        None => "/".to_owned(),
    }
}

fn is_user(users: &Vec<String>, name: &str) -> (r: bool)
    ensures
        r == views(users@).contains(name@),
{
    let n = users.len();
    let mut i: usize = 0;
    while i < n
        invariant
            n == users@.len(),
            0 <= i <= n,
            forall|k: int| 0 <= k < i ==> users@[k]@ != name@,
        decreases n - i,
    {
        if same_text(users[i].as_str(), name) {
            assert(views(users@)[i as int] == name@);
            return true;
        }
        i = i + 1;
    }
    assert forall|k: int| 0 <= k < views(users@).len() implies views(users@)[k] != name@ by {
        assert(views(users@)[k] == users@[k]@);
    }
    false
}

/// Where `cd ~name` leads: the home directory for an empty name, `/root` for `root`, the
/// user's directory under `/home` for a name in `users`, each falling back to the caller's
/// home directory; the caller's home directory for any other name.
pub fn specific_user_dir(name: &str, home: &Option<String>, users: &Vec<String>) -> (r: CdPlan)
    ensures
        r@ == user_target(name@, opt_view(*home), views(users@)),
{
    let fallback = home_or_root_of(home);
    if name.is_empty() {
        CdPlan::Enter(fallback)
    } else if same_text(name, "root") {
        CdPlan::Probe { path: "/root".to_owned(), fallback }
    } else if is_user(users, name) {
        CdPlan::Probe { path: push_path("/home", name), fallback }
    } else {
        CdPlan::Enter(fallback)
    }
}

/// Where `cd` with the arguments `args` leads, given the caller's home directory `home` and
/// the names of the system's users: no argument or `~` leads home (the root where no home is
/// known), `/` to the root, `~name` to a user's directory, `-` is not supported, and anything
/// else names a path, made of all the arguments one after another.
pub fn cd_plan(args: &Vec<String>, home: &Option<String>, users: &Vec<String>) -> (r: CdPlan)
    ensures
        r@ == cd_target(views(args@), opt_view(*home), views(users@)),
{
    if args.len() == 0 {
        return CdPlan::Enter(home_or_root_of(home));
    }
    let first = args[0].as_str();
    assert(views(args@)[0] == first@);
    if same_text(first, "/") {
        CdPlan::Enter("/".to_owned())
    } else if same_text(first, "-") {
        CdPlan::Unsupported
    } else if first.is_empty() {
        CdPlan::Enter(home_or_root_of(home))
    } else if first.get_char(0) == '~' {
        let name = strip_first_char(first);
        specific_user_dir(name.as_str(), home, users)
    } else {
        CdPlan::Literal(concat_args(args))
    }
}

/// Where `cd` with the arguments `args` leads for the caller, whose home directory is looked
/// up here.
pub fn change_directory(args: &Vec<String>, users: &Vec<String>) -> (r: CdPlan)
    ensures
        exists|home: Option<Seq<char>>| r@ == cd_target(views(args@), home, views(users@)),
{
    let home = home_dir();
    cd_plan(args, &home, users)
}

/// Changing to `p`, given what a look at it found: only an existing directory is entered.
fn checked(p: &String, probe: &Probe) -> (r: CdStep)
    ensures
        match r {
            CdStep::Enter(q) => q@ == p@ && probe.verdict() is Ok,
            CdStep::Missing(q) => q@ == p@ && probe.exists == Ok::<bool, String>(false),
            CdStep::NotADirectory(q) => q@ == p@ && probe.exists == Ok::<bool, String>(true)
                && !probe.is_kind,
            CdStep::Failed(e) => probe.exists == Err::<bool, String>(e),
            CdStep::Unsupported => false,
        },
{
    match &probe.exists {
        Ok(true) => if probe.is_kind {
            CdStep::Enter(p.clone())
        } else {
            CdStep::NotADirectory(p.clone())
        },
        Ok(false) => CdStep::Missing(p.clone()),
        Err(e) => CdStep::Failed(e.clone()),
    }
}

impl CdPlan {
    /// The path that must be looked at before changing directory; none for `cd -`.
    pub fn target(&self) -> (r: Option<&String>)
        ensures
            r matches Some(p) ==> (self@ matches CdTarget::Probe(q, _) && p@ == q) || (
            self@ matches CdTarget::Literal(q) && p@ == q) || (self@ matches CdTarget::Enter(q)
                && p@ == q),
            r is None <==> self@ is Unsupported,
    {
        match self {
            CdPlan::Probe { path, .. } => Some(path),
            CdPlan::Literal(p) => Some(p),
            CdPlan::Enter(p) => Some(p),
            CdPlan::Unsupported => None,
        }
    }

    /// What this plan comes to, given what a look at its path found (ignored for `cd -`).
    pub fn resolve(&self, probe: &Probe) -> (r: CdStep)
        ensures
            match r {
                CdStep::Enter(p) => cd_outcome(self@, *probe) == Some(CdTarget::Enter(p@)),
                CdStep::Unsupported => self@ is Unsupported,
                CdStep::Failed(e) => cd_outcome(self@, *probe) is None && probe.exists == Err::<
                    bool,
                    String,
                >(e),
                CdStep::Missing(p) => (self@ == CdTarget::Literal(p@) || self@ == CdTarget::Enter(
                    p@,
                )) && probe.exists == Ok::<bool, String>(false),
                CdStep::NotADirectory(p) => (self@ == CdTarget::Literal(p@) || self@
                    == CdTarget::Enter(p@)) && probe.exists == Ok::<bool, String>(true)
                    && !probe.is_kind,
            },
    {
        match self {
            CdPlan::Enter(p) => checked(p, probe),
            CdPlan::Unsupported => CdStep::Unsupported,
            CdPlan::Probe { path, fallback } => match probe.is_valid_or() {
                Validity::Valid => CdStep::Enter(path.clone()),
                Validity::Fallback => CdStep::Enter(fallback.clone()),
                Validity::Abort(e) => CdStep::Failed(e),
            },
            CdPlan::Literal(p) => checked(p, probe),
        }
    }
}

/// How a command line is carried out.
pub enum Dispatch {
    /// A blank line: nothing to do.
    Nothing,
    /// The `cd` built-in, with its arguments.
    Cd(Vec<String>),
    /// An external program, with its arguments.
    Run { program: String, args: Vec<String> },
}

/// `d` is how the line whose words are `w` is carried out: nothing for no word, the `cd`
/// built-in where the first word is `cd`, else the program named by the first word; the
/// other words are the arguments.
pub open spec fn dispatch_of(d: Dispatch, w: Seq<Seq<char>>) -> bool {
    match d {
        Dispatch::Nothing => w.len() == 0,
        Dispatch::Cd(args) => w.len() > 0 && w[0] == "cd"@ && views(args@) == w.drop_first(),
        Dispatch::Run { program, args } => w.len() > 0 && w[0] != "cd"@ && program@ == w[0]
            && views(args@) == w.drop_first(),
    }
}

/// What carrying out a command line came to.
pub enum Outcome {
    /// `cd` changed the working directory.
    Changed,
    /// `cd` left the working directory as it was.
    Unchanged,
    /// The program was started, whatever its exit status.
    Spawned,
    /// The program could not be started: the command is unknown.
    Unknown,
}

/// Whether a command line with this outcome is recorded in the history.
pub open spec fn accepted(o: Outcome) -> bool {
    o is Changed || o is Spawned
}

/// One submitted command line.
pub struct Command<'a>(&'a String);

impl<'a> Command<'a> {
    pub closed spec fn line(&self) -> Seq<char> {
        self.0@
    }

    pub fn new(input: &'a String) -> (r: Self)
        ensures
            r.line() == input@,
    {
        Command(input)
    }

    /// How this line is carried out.
    pub fn dispatch(&self) -> (r: Dispatch)
        ensures
            dispatch_of(r, words(self.line())),
    {
        let mut w = split_words(self.0.as_str());
        if w.len() == 0 {
            return Dispatch::Nothing;
        }
        let ghost all = w@;
        let first = w.remove(0);
        assert(views(w@) =~= views(all).drop_first());
        assert(views(all)[0] == first@);
        if same_text(first.as_str(), "cd") {
            Dispatch::Cd(w)
        } else {
            Dispatch::Run { program: first, args: w }
        }
    }

    /// Records this line in `history` once it has been carried out with `outcome`: only a
    /// `cd` that changed directory, or a program that could be started, is recorded, and a
    /// blank line never is.
    pub fn exec(&self, history: &mut History, outcome: Outcome)
        ensures
            final(history).log() == (if accepted(outcome) && words(self.line()).len() > 0 {
                push_dedup(old(history).log(), self.line())
            } else {
                old(history).log()
            }),
            final(history).stored() == old(history).stored(),
            final(history).store_empty() == old(history).store_empty(),
            final(history).path() == old(history).path(),
    {
        let w = split_words(self.0.as_str());
        match outcome {
            Outcome::Changed | Outcome::Spawned => {
                if w.len() > 0 {
                    history.add(self.0.as_str());
                }
            },
            _ => {},
        }
    }
}

/// `cd` without arguments, where the home directory is known and a look finds it to be a
/// directory, changes to it.
pub proof fn lemma_cd_home(home: Seq<char>, users: Seq<Seq<char>>, probe: Probe)
    requires
        probe.verdict() is Ok,
    ensures
        cd_target(Seq::empty(), Some(home), users) == CdTarget::Enter(home),
        cd_outcome(cd_target(Seq::empty(), Some(home), users), probe) == Some(
            CdTarget::Enter(home),
        ),
{
}

/// `cd /` heads for the root whatever the home directory and the users, and changes to it
/// once a look finds it to be a directory, as the root always is.
pub proof fn lemma_cd_root(home: Option<Seq<char>>, users: Seq<Seq<char>>, probe: Probe)
    requires
        probe.verdict() is Ok,
    ensures
        cd_target(seq!["/"@], home, users) == CdTarget::Enter("/"@),
        cd_outcome(cd_target(seq!["/"@], home, users), probe) == Some(CdTarget::Enter("/"@)),
{
}

/// `cd ~name`, for a name that is neither `root` nor a user's, heads for the caller's home
/// directory (the root where none is known), and changes to it once a look finds it to be a
/// directory.
pub proof fn lemma_cd_unknown_user(
    name: Seq<char>,
    home: Option<Seq<char>>,
    users: Seq<Seq<char>>,
    probe: Probe,
)
    requires
        name != "root"@,
        !users.contains(name),
    ensures
        cd_target(seq![seq!['~'] + name], home, users) == CdTarget::Enter(home_or_root(home)),
        probe.verdict() is Ok ==> cd_outcome(cd_target(seq![seq!['~'] + name], home, users), probe)
            == Some(CdTarget::Enter(home_or_root(home))),
{
    reveal_strlit("/");
    reveal_strlit("-");
    let arg = seq!['~'] + name;
    assert(arg[0] == '~');
    assert(arg != "/"@);
    assert(arg != "-"@);
    assert(arg.drop_first() =~= name);
}

} // verus!
