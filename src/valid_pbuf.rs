use vstd::prelude::*;

verus! {

/// Why a path is not usable as it stands.
pub enum IsValidDirErr {
    /// Checking whether the path exists failed, with this message.
    TryExists(String),
    /// The path exists but is not of the wanted kind (a directory, or a regular file).
    NotAnEntry,
    /// Nothing exists at the path.
    Missing,
}

/// What a look at a path found: whether something exists there (or the error met while
/// checking), and whether it is of the wanted kind.
pub struct Probe {
    pub exists: Result<bool, String>,
    pub is_kind: bool,
}

/// What to do with a path after looking at it.
pub enum Validity {
    /// Use the path.
    Valid,
    /// The path is missing or of another kind: use the fallback.
    Fallback,
    /// The check itself failed, with this message: give up.
    Abort(String),
}

pub trait IsValid {
    /// The verdict on the path, as a value.
    spec fn verdict(&self) -> Result<(), IsValidDirErr>;

    /// `Ok` where the path exists and is of the wanted kind; otherwise why not.
    fn is_valid(&self) -> (r: Result<(), IsValidDirErr>)
        ensures
            r == self.verdict(),
    ;

    /// Whether the path exists and is of the wanted kind.
    fn is_valid_option(&self) -> (r: bool)
        ensures
            r == self.verdict() is Ok,
    ;

    /// Use the path where valid; fall back where it is missing or of another kind; give up
    /// where checking failed.
    fn is_valid_or(&self) -> (r: Validity)
        ensures
            r == (match self.verdict() {
                Ok(()) => Validity::Valid,
                Err(IsValidDirErr::TryExists(e)) => Validity::Abort(e),
                Err(_) => Validity::Fallback,
            }),
    ;
}

impl IsValid for Probe {
    open spec fn verdict(&self) -> Result<(), IsValidDirErr> {
        match self.exists {
            Ok(true) => if self.is_kind {
                Ok(())
            } else {
                Err(IsValidDirErr::NotAnEntry)
            },
            Ok(false) => Err(IsValidDirErr::Missing),
            Err(e) => Err(IsValidDirErr::TryExists(e)),
        }
    }

    fn is_valid(&self) -> (r: Result<(), IsValidDirErr>) {
        match &self.exists {
            Ok(true) => if self.is_kind {
                Ok(())
            } else {
                Err(IsValidDirErr::NotAnEntry)
            },
            Ok(false) => Err(IsValidDirErr::Missing),
            Err(e) => Err(IsValidDirErr::TryExists(e.clone())),
        }
    }

    fn is_valid_option(&self) -> (r: bool) {
        self.is_valid().is_ok()
    }

    fn is_valid_or(&self) -> (r: Validity) {
        match self.is_valid() {
            Ok(()) => Validity::Valid,
            Err(IsValidDirErr::TryExists(e)) => Validity::Abort(e),
            Err(_) => Validity::Fallback,
        }
    }
}

/// `base` extended by `name` as a path: an absolute `name` replaces `base`; otherwise a
/// separator is put between them unless `base` is empty or already ends with one.
pub open spec fn pushed(base: Seq<char>, name: Seq<char>) -> Seq<char> {
    if name.len() > 0 && name[0] == '/' {
        name
    } else if base.len() == 0 || base.last() == '/' {
        base + name
    } else {
        base + seq!['/'] + name
    }
}

/// Extends the path `base` by `name`.
pub fn push_path(base: &str, name: &str) -> (r: String)
    ensures
        r@ == pushed(base@, name@),
{
    let nlen = name.unicode_len();
    if nlen > 0 && name.get_char(0) == '/' {
        return name.to_owned();
    }
    let blen = base.unicode_len();
    let mut out = base.to_owned();
    if blen > 0 && base.get_char(blen - 1) != '/' {
        out.push('/');
    }
    out.append(name);
    out
}

} // verus!
