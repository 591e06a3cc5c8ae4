//! Classification of the system's failure codes, the failure record kept over
//! the candidates of one invocation, and the choice of one diagnostic from it.

use vstd::prelude::*;

verus! {

/// The system's codes for the failures that the arbiter tells apart.
#[derive(Clone, Copy, Debug)]
pub struct ErrnoCodes {
    pub not_found: i32,
    pub not_a_directory: i32,
    pub too_many_links: i32,
    pub access_denied: i32,
    pub not_permitted: i32,
}

/// Relies on libc's ENOENT, ENOTDIR, ELOOP, EACCES and EPERM constants: the
/// codes that the target reports for these failures.
#[verifier::external_body]
pub(crate) fn system_errno_codes() -> (r: ErrnoCodes) {
    ErrnoCodes {
        not_found: libc::ENOENT,
        not_a_directory: libc::ENOTDIR,
        too_many_links: libc::ELOOP,
        access_denied: libc::EACCES,
        not_permitted: libc::EPERM,
    }
}

/// Why one candidate could not be entered.
#[derive(Clone, Copy, Debug, PartialEq, Eq, Structural)]
pub enum Failure {
    NotFound,
    NotADirectory,
    TooManySymlinks,
    PermissionDenied,
    Other(i32),
}

pub open spec fn failure_of(code: i32, t: ErrnoCodes) -> Failure {
    if code == t.not_found {
        Failure::NotFound
    } else if code == t.not_a_directory {
        Failure::NotADirectory
    } else if code == t.too_many_links {
        Failure::TooManySymlinks
    } else if code == t.access_denied || code == t.not_permitted {
        Failure::PermissionDenied
    } else {
        Failure::Other(code)
    }
}

impl ErrnoCodes {
    /// The codes of the system this runs on.
    pub fn system() -> (r: ErrnoCodes) {
        system_errno_codes()
    }

    /// The kind of failure that `code` reports.
    pub fn classify(&self, code: i32) -> (r: Failure)
        ensures
            r == failure_of(code, *self),
    {
        if code == self.not_found {
            Failure::NotFound
        } else if code == self.not_a_directory {
            Failure::NotADirectory
        } else if code == self.too_many_links {
            Failure::TooManySymlinks
        } else if code == self.access_denied || code == self.not_permitted {
            Failure::PermissionDenied
        } else {
            Failure::Other(code)
        }
    }
}

/// Why a `cd` invocation failed.
#[derive(Debug)]
pub enum CdError {
    NoHomeDirectory,
    EmptyPathRejected,
    NoCandidateResolved,
    NotADirectory,
    BrokenSymlink { path: String, target: String },
    TooManySymlinks,
    NotFound,
    PermissionDenied,
    UnknownOsError(i32),
}

pub ghost enum CdErrorView {
    NoHomeDirectory,
    EmptyPathRejected,
    NoCandidateResolved,
    NotADirectory,
    BrokenSymlink { path: Seq<char>, target: Seq<char> },
    TooManySymlinks,
    NotFound,
    PermissionDenied,
    UnknownOsError(i32),
}

impl View for CdError {
    type V = CdErrorView;

    open spec fn view(&self) -> CdErrorView {
        match self {
            CdError::NoHomeDirectory => CdErrorView::NoHomeDirectory,
            CdError::EmptyPathRejected => CdErrorView::EmptyPathRejected,
            CdError::NoCandidateResolved => CdErrorView::NoCandidateResolved,
            CdError::NotADirectory => CdErrorView::NotADirectory,
            CdError::BrokenSymlink { path, target } => CdErrorView::BrokenSymlink {
                path: path@,
                target: target@,
            },
            CdError::TooManySymlinks => CdErrorView::TooManySymlinks,
            CdError::NotFound => CdErrorView::NotFound,
            CdError::PermissionDenied => CdErrorView::PermissionDenied,
            CdError::UnknownOsError(c) => CdErrorView::UnknownOsError(*c),
        }
    }
}

/// What the failed candidates of one invocation have shown so far.
pub struct FailureRecord {
    /// The failure chosen so far by the priority rule.
    pub best: Option<Failure>,
    /// The first broken symbolic link met, with its target.
    pub broken_symlink: Option<(String, String)>,
}

pub ghost struct RecordView {
    pub best: Option<Failure>,
    pub broken_symlink: Option<(Seq<char>, Seq<char>)>,
}

impl View for FailureRecord {
    type V = RecordView;

    open spec fn view(&self) -> RecordView {
        RecordView {
            best: self.best,
            broken_symlink: match self.broken_symlink {
                Some((p, t)) => Some((p@, t@)),
                None => None,
            },
        }
    }
}

pub open spec fn opt_view(o: Option<String>) -> Option<Seq<char>> {
    match o {
        Some(t) => Some(t@),
        None => None,
    }
}

pub open spec fn empty_record() -> RecordView {
    RecordView { best: None, broken_symlink: None }
}

/// Whether a failure `f` calls for a look at the path as a symbolic link.
pub open spec fn wants_link(r: RecordView, f: Failure) -> bool {
    f == Failure::NotFound && r.broken_symlink is None
}

/// The record after one more failed candidate, at normalized path `path`;
/// `link` is the path's link target where it is a symbolic link that was read.
/// A missing entry counts only where nothing else was seen, the first broken
/// link is kept, "not a directory" always takes over, and any other failure
/// counts only where nothing else was seen.
pub open spec fn absorb(r: RecordView, path: Seq<char>, f: Failure, link: Option<Seq<char>>) -> RecordView {
    match f {
        Failure::NotFound => if r.broken_symlink is None && link is Some {
            RecordView { broken_symlink: Some((path, link->0)), ..r }
        } else if r.best is None {
            RecordView { best: Some(Failure::NotFound), ..r }
        } else {
            r
        },
        Failure::NotADirectory => RecordView { best: Some(Failure::NotADirectory), ..r },
        _ => if r.best is None {
            RecordView { best: Some(f), ..r }
        } else {
            r
        },
    }
}

/// The one diagnostic that a record calls for, most specific first.
pub open spec fn diagnosis(r: RecordView) -> CdErrorView {
    if r.best == Some(Failure::NotADirectory) {
        CdErrorView::NotADirectory
    } else if let Some((path, target)) = r.broken_symlink {
        CdErrorView::BrokenSymlink { path, target }
    } else {
        match r.best {
            Some(Failure::TooManySymlinks) => CdErrorView::TooManySymlinks,
            None | Some(Failure::NotFound) => CdErrorView::NotFound,
            Some(Failure::PermissionDenied) => CdErrorView::PermissionDenied,
            Some(Failure::Other(c)) => CdErrorView::UnknownOsError(c),
            Some(Failure::NotADirectory) => CdErrorView::NotADirectory,
        }
    }
}

impl FailureRecord {
    pub fn new() -> (r: FailureRecord)
        ensures
            r@ == empty_record(),
    {
        FailureRecord { best: None, broken_symlink: None }
    }

    /// Whether a failure `f` calls for reading the path as a symbolic link.
    pub fn wants_link(&self, f: Failure) -> (r: bool)
        ensures
            r == wants_link(self@, f),
    {
        f == Failure::NotFound && self.broken_symlink.is_none()
    }

    /// Takes one more failed candidate into the record.
    pub fn absorb(&mut self, path: String, f: Failure, link: Option<String>)
        ensures
            final(self)@ == absorb(old(self)@, path@, f, opt_view(link)),
    {
        match f {
            Failure::NotFound => {
                if self.broken_symlink.is_none() && link.is_some() {
                    match link {
                        Some(t) => {
                            self.broken_symlink = Some((path, t));
                        },
                        None => {},
                    }
                } else if self.best.is_none() {
                    self.best = Some(Failure::NotFound);
                }
            },
            Failure::NotADirectory => {
                self.best = Some(Failure::NotADirectory);
            },
            _ => {
                if self.best.is_none() {
                    self.best = Some(f);
                }
            },
        }
    }

    /// The diagnostic to report once every candidate has failed.
    pub fn diagnosis(&self) -> (r: CdError)
        ensures
            r@ == diagnosis(self@),
    {
        if self.best == Some(Failure::NotADirectory) {
            return CdError::NotADirectory;
        }
        match &self.broken_symlink {
            Some((p, t)) => {
                return CdError::BrokenSymlink { path: p.clone(), target: t.clone() };
            },
            None => {},
        }
        match self.best {
            Some(Failure::TooManySymlinks) => CdError::TooManySymlinks,
            None | Some(Failure::NotFound) => CdError::NotFound,
            Some(Failure::PermissionDenied) => CdError::PermissionDenied,
            Some(Failure::Other(c)) => CdError::UnknownOsError(c),
            Some(Failure::NotADirectory) => CdError::NotADirectory,
        }
    }
}

} // verus!
