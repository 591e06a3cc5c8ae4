//! The session state that `cd` reads and changes: the home directory it falls
//! back on and the working-directory variable it publishes.

use vstd::prelude::*;
use crate::cdpath::{candidates_of, cdpath_candidates};
use crate::failure::{empty_record, CdError, CdErrorView, ErrnoCodes};
use crate::path::views;
use crate::resolve::{Attempt, Resolver, Step};

verus! {

pub struct Session {
    /// The home-directory variable, where it is set.
    pub home: Option<String>,
    /// The working-directory variable.
    pub pwd: String,
}

pub ghost struct SessionView {
    pub home: Option<Seq<char>>,
    pub pwd: Seq<char>,
}

impl View for Session {
    type V = SessionView;

    open spec fn view(&self) -> SessionView {
        SessionView {
            home: match self.home {
                Some(h) => Some(h@),
                None => None,
            },
            pwd: self.pwd@,
        }
    }
}

/// The directory to look for: the argument where one is given, else the home
/// directory where it is set and not empty; an empty argument is refused.
pub open spec fn target_of(arg: Option<Seq<char>>, home: Option<Seq<char>>) -> Result<Seq<char>, CdErrorView> {
    match arg {
        Some(a) => if a.len() == 0 {
            Err(CdErrorView::EmptyPathRejected)
        } else {
            Ok(a)
        },
        None => match home {
            Some(h) => if h.len() == 0 {
                Err(CdErrorView::NoHomeDirectory)
            } else {
                Ok(h)
            },
            None => Err(CdErrorView::NoHomeDirectory),
        },
    }
}

pub open spec fn result_view(r: Result<String, CdError>) -> Result<Seq<char>, CdErrorView> {
    match r {
        Ok(s) => Ok(s@),
        Err(e) => Err(e@),
    }
}

/// The session once `path` is committed as the working directory.
pub open spec fn after_commit(s: SessionView, path: Seq<char>) -> SessionView {
    SessionView { pwd: path, ..s }
}

impl Session {
    /// The directory that `cd` is to look for, given its argument `arg`, if
    /// any. A refusal comes before anything is looked up or changed.
    pub fn cd_target(&self, arg: Option<String>) -> (r: Result<String, CdError>)
        ensures
            result_view(r) == target_of(
                match arg {
                    Some(a) => Some(a@),
                    None => None,
                },
                self@.home,
            ),
    {
        match arg {
            Some(a) => {
                if a.as_str().unicode_len() == 0 {
                    Err(CdError::EmptyPathRejected)
                } else {
                    Ok(a)
                }
            },
            None => match &self.home {
                Some(h) => {
                    if h.as_str().unicode_len() == 0 {
                        Err(CdError::NoHomeDirectory)
                    } else {
                        Ok(h.clone())
                    }
                },
                None => Err(CdError::NoHomeDirectory),
            },
        }
    }

    /// Publishes `path`, the normalized path of the directory just entered,
    /// as the working-directory variable.
    pub fn commit(&mut self, path: String)
        ensures
            final(self)@ == after_commit(old(self)@, path@),
    {
        self.pwd = path;
    }
}

/// Begins `cd` with argument `arg`, if any: checks it, lists the candidates
/// for it along the search path `cdpath`, and starts the protocol over them.
/// The directory looked for, the resolver and its first step come back; a
/// refused argument comes back before any candidate is listed, so nothing is
/// looked up and nothing changes.
pub fn cd(session: &Session, arg: Option<String>, cdpath: &Vec<String>, codes: ErrnoCodes) -> (r: Result<
    (String, Resolver, Step),
    CdError,
>)
    ensures
        match target_of(
            match arg {
                Some(a) => Some(a@),
                None => None,
            },
            session@.home,
        ) {
            Err(e) => r matches Err(f) && f@ == e,
            Ok(t) => r matches Ok((input, res, step)) && {
                &&& input@ == t
                &&& res.wf()
                &&& res.reports(step)
                &&& res.cands() == candidates_of(t, session@.pwd, views(cdpath@))
                &&& res.codes == codes
                &&& res.history@ == Seq::<Attempt>::empty()
                &&& res.record@ == empty_record()
                &&& res.pending is None
                &&& step is Enter
            },
        },
{
    let input = match session.cd_target(arg) {
        Ok(t) => t,
        Err(e) => {
            return Err(e);
        },
    };
    let candidates = cdpath_candidates(input.as_str(), session.pwd.as_str(), cdpath);
    proof {
        assert(candidates@.len() > 0) by {
            assert(views(candidates@).len() == candidates@.len());
        }
    }
    let (res, step) = Resolver::new(candidates, codes);
    Ok((input, res, step))
}

/// Committing the same path a second time leaves the session as the first
/// commit left it.
pub proof fn law_commit_is_idempotent(s: SessionView, path: Seq<char>)
    ensures
        after_commit(after_commit(s, path), path) == after_commit(s, path),
{
}

/// An empty argument is refused, whatever the home directory.
pub proof fn law_empty_argument_refused(home: Option<Seq<char>>)
    ensures
        target_of(Some(Seq::empty()), home) == Err::<Seq<char>, CdErrorView>(CdErrorView::EmptyPathRejected),
{
}

/// With no argument and no home directory, `cd` has nowhere to go.
pub proof fn law_no_home_refused()
    ensures
        target_of(None, None) == Err::<Seq<char>, CdErrorView>(CdErrorView::NoHomeDirectory),
{
}

} // verus!
