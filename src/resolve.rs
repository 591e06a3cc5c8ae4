//! The resolve-and-commit protocol over a list of candidates, as a state
//! machine: the caller performs each step that it returns (enter a directory,
//! read a symbolic link) and reports the outcome back.

use vstd::prelude::*;
use crate::failure::{
    absorb, diagnosis, empty_record, failure_of, opt_view, wants_link, CdError, CdErrorView, ErrnoCodes,
    Failure, FailureRecord, RecordView,
};
use crate::path::{normalize_path, normalized, views};

verus! {

/// What happened when one candidate was tried.
pub ghost enum Attempt {
    /// The directory was opened and made the working directory.
    Entered,
    /// It failed with a system code; `link` is the path's link target where it
    /// was read as a symbolic link.
    Failed { code: i32, link: Option<Seq<char>> },
}

pub ghost enum RunOutcome {
    Committed(Seq<char>),
    Failed(CdErrorView),
}

/// The outcome of trying candidates from index `i` on, with `rec` the record
/// of the failures before it.
pub open spec fn run_from(
    cands: Seq<Seq<char>>,
    atts: Seq<Attempt>,
    codes: ErrnoCodes,
    i: int,
    rec: RecordView,
) -> RunOutcome
    decreases cands.len() - i,
{
    if i >= cands.len() {
        if cands.len() == 0 {
            RunOutcome::Failed(CdErrorView::NoCandidateResolved)
        } else {
            RunOutcome::Failed(diagnosis(rec))
        }
    } else {
        match atts[i] {
            Attempt::Entered => RunOutcome::Committed(normalized(cands[i])),
            Attempt::Failed { code, link } => run_from(
                cands,
                atts,
                codes,
                i + 1,
                absorb(rec, normalized(cands[i]), failure_of(code, codes), link),
            ),
        }
    }
}

/// The outcome of one invocation over candidates `cands`, where trying the
/// i-th one goes as `atts[i]` says.
pub open spec fn run(cands: Seq<Seq<char>>, atts: Seq<Attempt>, codes: ErrnoCodes) -> RunOutcome {
    run_from(cands, atts, codes, 0, empty_record())
}

/// `atts` is a full list of attempts over `n` candidates that begins with `h`.
pub open spec fn extends(atts: Seq<Attempt>, h: Seq<Attempt>, n: nat) -> bool {
    atts.len() == n && h.len() <= n && atts.subrange(0, h.len() as int) == h
}

/// What the caller does next.
#[derive(Debug)]
pub enum Step {
    /// Open this directory and make it the working directory; report with
    /// `entered` or `open_failed`.
    Enter(String),
    /// Read this path as a symbolic link; report with `link_read`.
    ReadLink(String),
    /// The directory entered last is the result: keep its handle and publish
    /// this path as the working directory.
    Commit(String),
    /// Every candidate failed, or there was none.
    Fail(CdError),
}

/// One invocation of the protocol: the candidates, the record of their
/// failures so far, and where the search stands.
pub struct Resolver {
    pub candidates: Vec<String>,
    pub codes: ErrnoCodes,
    /// The index of the candidate being tried.
    pub next: usize,
    /// The normalized form of that candidate.
    pub current: String,
    pub record: FailureRecord,
    /// The code of a missing entry, while its path is being read as a link.
    pub pending: Option<i32>,
    pub done: bool,
    /// The attempts so far, one for each candidate tried.
    pub history: Ghost<Seq<Attempt>>,
}

impl Resolver {
    pub open spec fn cands(&self) -> Seq<Seq<char>> {
        views(self.candidates@)
    }

    /// Until the search ends, every candidate before the current one has
    /// failed, and the record carries what they showed: finishing from here
    /// gives what a run from the start gives.
    pub open spec fn wf(&self) -> bool {
        let h = self.history@;
        &&& !self.done ==> {
            &&& h.len() == self.next
            &&& forall|j: int| 0 <= j < h.len() ==> #[trigger] h[j] is Failed
            &&& self.next < self.candidates@.len()
            &&& self.current@ == normalized(self.cands()[self.next as int])
            &&& forall|atts: Seq<Attempt>|
                #[trigger] extends(atts, h, self.cands().len()) ==> run(self.cands(), atts, self.codes)
                    == run_from(self.cands(), atts, self.codes, self.next as int, self.record@)
        }
        &&& self.pending matches Some(code) ==> {
            &&& !self.done
            &&& failure_of(code, self.codes) == Failure::NotFound
            &&& wants_link(self.record@, Failure::NotFound)
        }
    }

    /// What `s` tells the caller is true of this state.
    pub open spec fn reports(&self, s: Step) -> bool {
        let h = self.history@;
        match s {
            Step::Enter(p) => !self.done && self.pending is None && p@ == self.current@,
            Step::ReadLink(p) => !self.done && self.pending is Some && p@ == self.current@,
            Step::Commit(p) => {
                &&& self.done
                &&& h.len() > 0
                &&& h.last() == Attempt::Entered
                &&& forall|j: int| 0 <= j < h.len() - 1 ==> #[trigger] h[j] is Failed
                &&& p@ == normalized(self.cands()[h.len() - 1])
                &&& forall|atts: Seq<Attempt>|
                    #[trigger] extends(atts, h, self.cands().len()) ==> run(self.cands(), atts, self.codes)
                        == RunOutcome::Committed(p@)
            },
            Step::Fail(e) => {
                &&& self.done
                &&& h.len() == self.cands().len()
                &&& run(self.cands(), h, self.codes) == RunOutcome::Failed(e@)
            },
        }
    }

    /// Starts an invocation over `candidates`, in order of preference.
    pub fn new(candidates: Vec<String>, codes: ErrnoCodes) -> (r: (Resolver, Step))
        ensures
            r.0.wf(),
            r.0.reports(r.1),
            r.0.candidates@ == candidates@,
            r.0.codes == codes,
            r.0.history@ == Seq::<Attempt>::empty(),
            r.0.record@ == empty_record(),
            r.0.pending is None,
            candidates@.len() == 0 <==> r.1 is Fail,
            candidates@.len() > 0 <==> r.1 is Enter,
    {
        if candidates.len() == 0 {
            let r = Resolver {
                candidates,
                codes,
                next: 0,
                current: String::new(),
                record: FailureRecord::new(),
                pending: None,
                done: true,
                history: Ghost(Seq::empty()),
            };
            return (r, Step::Fail(CdError::NoCandidateResolved));
        }
        let current = normalize_path(candidates[0].as_str());
        let r = Resolver {
            candidates,
            codes,
            next: 0,
            current,
            record: FailureRecord::new(),
            pending: None,
            done: false,
            history: Ghost(Seq::empty()),
        };
        proof {
            assert forall|atts: Seq<Attempt>| #[trigger]
                extends(atts, r.history@, r.cands().len()) implies run(r.cands(), atts, r.codes)
                == run_from(r.cands(), atts, r.codes, 0, r.record@) by {}
        }
        let s = Step::Enter(r.current.clone());
        (r, s)
    }

    /// The current candidate was entered: it is the result.
    pub fn entered(&mut self) -> (s: Step)
        requires
            old(self).wf(),
            !old(self).done,
            old(self).pending is None,
        ensures
            final(self).wf(),
            final(self).reports(s),
            s == Step::Commit(old(self).current),
            final(self).history@ == old(self).history@.push(Attempt::Entered),
            final(self).candidates@ == old(self).candidates@,
            final(self).codes == old(self).codes,
    {
        let ghost h = self.history@;
        let ghost n = self.cands().len();
        self.history = Ghost(self.history@.push(Attempt::Entered));
        self.done = true;
        proof {
            assert forall|atts: Seq<Attempt>| #[trigger]
                extends(atts, self.history@, n) implies run(self.cands(), atts, self.codes)
                == RunOutcome::Committed(self.current@) by {
                assert(atts.subrange(0, h.len() as int) =~= atts.subrange(0, h.len() as int + 1).drop_last());
                assert(self.history@.drop_last() =~= h);
                assert(extends(atts, h, n));
                assert(atts[h.len() as int] == atts.subrange(0, h.len() as int + 1)[h.len() as int]);
            }
        }
        Step::Commit(self.current.clone())
    }

    /// The current candidate failed with system code `code`.
    pub fn open_failed(&mut self, code: i32) -> (s: Step)
        requires
            old(self).wf(),
            !old(self).done,
            old(self).pending is None,
        ensures
            final(self).wf(),
            final(self).reports(s),
            s is ReadLink <==> wants_link(old(self).record@, failure_of(code, old(self).codes)),
            s is ReadLink ==> final(self).history@ == old(self).history@,
            s is ReadLink ==> final(self).record@ == old(self).record@,
            !(s is ReadLink) ==> final(self).record@ == absorb(
                old(self).record@,
                old(self).current@,
                failure_of(code, old(self).codes),
                None,
            ),
            !(s is ReadLink) ==> final(self).history@ == old(self).history@.push(
                Attempt::Failed { code, link: None },
            ),
            !(s is Commit),
            final(self).candidates@ == old(self).candidates@,
            final(self).codes == old(self).codes,
    {
        let f = self.codes.classify(code);
        if self.record.wants_link(f) {
            self.pending = Some(code);
            return Step::ReadLink(self.current.clone());
        }
        self.advance(code, None)
    }

    /// The current candidate, a missing entry, was read as a symbolic link:
    /// `target` is its target where it is one.
    pub fn link_read(&mut self, target: Option<String>) -> (s: Step)
        requires
            old(self).wf(),
            old(self).pending is Some,
        ensures
            final(self).wf(),
            final(self).reports(s),
            final(self).history@ == old(self).history@.push(
                Attempt::Failed {
                    code: old(self).pending->0,
                    link: opt_view(target),
                },
            ),
            final(self).record@ == absorb(old(self).record@, old(self).current@, Failure::NotFound, opt_view(target)),
            !(s is Commit),
            !(s is ReadLink),
            final(self).candidates@ == old(self).candidates@,
            final(self).codes == old(self).codes,
    {
        let code = match self.pending {
            Some(c) => c,
            None => 0,
        };
        self.pending = None;
        self.advance(code, target)
    }

    /// Records the failure of the current candidate and moves to the next one,
    /// or to the diagnostic where none is left.
    fn advance(&mut self, code: i32, link: Option<String>) -> (s: Step)
        requires
            old(self).wf(),
            !old(self).done,
            old(self).pending is None,
            link is Some ==> wants_link(old(self).record@, failure_of(code, old(self).codes)),
        ensures
            final(self).wf(),
            final(self).reports(s),
            final(self).history@ == old(self).history@.push(
                Attempt::Failed {
                    code,
                    link: opt_view(link),
                },
            ),
            final(self).record@ == absorb(
                old(self).record@,
                old(self).current@,
                failure_of(code, old(self).codes),
                opt_view(link),
            ),
            s is Enter || s is Fail,
            final(self).candidates@ == old(self).candidates@,
            final(self).codes == old(self).codes,
    {
        let ghost h = self.history@;
        let ghost n = self.cands().len();
        let ghost rec = self.record@;
        let ghost lv = opt_view(link);
        let ghost att = Attempt::Failed { code, link: lv };
        let len = self.candidates.len();
        assert(self.next < len);
        let f = self.codes.classify(code);
        let path = self.current.clone();
        self.record.absorb(path, f, link);
        self.history = Ghost(h.push(att));
        assert(self.next < len);
        self.next = self.next + 1;
        proof {
            assert forall|atts: Seq<Attempt>| #[trigger]
                extends(atts, self.history@, n) implies run(self.cands(), atts, self.codes)
                == run_from(self.cands(), atts, self.codes, self.next as int, self.record@) by {
                assert(atts.subrange(0, h.len() as int) =~= atts.subrange(0, h.len() as int + 1).drop_last());
                assert(self.history@.drop_last() =~= h);
                assert(extends(atts, h, n));
                assert(atts[h.len() as int] == atts.subrange(0, h.len() as int + 1)[h.len() as int]);
            }
        }
        if self.next == self.candidates.len() {
            self.done = true;
            proof {
                assert(self.history@.subrange(0, n as int) =~= self.history@);
                assert(extends(self.history@, self.history@, n));
            }
            return Step::Fail(self.record.diagnosis());
        }
        self.current = normalize_path(self.candidates[self.next].as_str());
        Step::Enter(self.current.clone())
    }
}

proof fn lemma_run_reaches_entered(
    cands: Seq<Seq<char>>,
    atts: Seq<Attempt>,
    codes: ErrnoCodes,
    k: int,
    rec: RecordView,
    i: int,
)
    requires
        0 <= k <= i < cands.len(),
        atts[i] == Attempt::Entered,
        forall|j: int| k <= j < i ==> #[trigger] atts[j] is Failed,
    ensures
        run_from(cands, atts, codes, k, rec) == RunOutcome::Committed(normalized(cands[i])),
    decreases i - k,
{
    if k < i {
        match atts[k] {
            Attempt::Failed { code, link } => {
                lemma_run_reaches_entered(
                    cands,
                    atts,
                    codes,
                    k + 1,
                    absorb(rec, normalized(cands[k]), failure_of(code, codes), link),
                    i,
                );
            },
            Attempt::Entered => {},
        }
    }
}

/// The committed result of a run is the normalized form of the first candidate
/// that was entered, and what would have happened to the candidates after it
/// plays no part.
pub proof fn law_first_entered_is_committed(
    cands: Seq<Seq<char>>,
    atts: Seq<Attempt>,
    other: Seq<Attempt>,
    codes: ErrnoCodes,
    i: int,
)
    requires
        atts.len() == cands.len(),
        other.len() == cands.len(),
        0 <= i < cands.len(),
        atts[i] == Attempt::Entered,
        forall|j: int| 0 <= j < i ==> #[trigger] atts[j] is Failed,
        forall|j: int| 0 <= j <= i ==> #[trigger] other[j] == atts[j],
    ensures
        run(cands, atts, codes) == RunOutcome::Committed(normalized(cands[i])),
        run(cands, other, codes) == run(cands, atts, codes),
{
    lemma_run_reaches_entered(cands, atts, codes, 0, empty_record(), i);
    assert forall|j: int| 0 <= j < i implies #[trigger] other[j] is Failed by {
        assert(other[j] == atts[j]);
    }
    lemma_run_reaches_entered(cands, other, codes, 0, empty_record(), i);
}

/// Two invocations over the same candidates in which the same candidate is the
/// first to be entered commit the same path.
pub proof fn law_repeated_success_commits_same_path(
    cands: Seq<Seq<char>>,
    first: Seq<Attempt>,
    second: Seq<Attempt>,
    codes: ErrnoCodes,
    i: int,
)
    requires
        first.len() == cands.len(),
        second.len() == cands.len(),
        0 <= i < cands.len(),
        first[i] == Attempt::Entered,
        second[i] == Attempt::Entered,
        forall|j: int| 0 <= j < i ==> #[trigger] first[j] is Failed,
        forall|j: int| 0 <= j < i ==> #[trigger] second[j] is Failed,
    ensures
        run(cands, first, codes) == run(cands, second, codes),
        run(cands, first, codes) == RunOutcome::Committed(normalized(cands[i])),
{
    lemma_run_reaches_entered(cands, first, codes, 0, empty_record(), i);
    lemma_run_reaches_entered(cands, second, codes, 0, empty_record(), i);
}

proof fn lemma_not_a_directory_kept(
    cands: Seq<Seq<char>>,
    atts: Seq<Attempt>,
    codes: ErrnoCodes,
    k: int,
    rec: RecordView,
    d: int,
)
    requires
        atts.len() == cands.len(),
        0 <= k <= cands.len(),
        0 <= d < cands.len(),
        forall|j: int| 0 <= j < cands.len() ==> #[trigger] atts[j] is Failed,
        atts[d] matches Attempt::Failed { code, .. } && failure_of(code, codes) == Failure::NotADirectory,
        k <= d || rec.best == Some(Failure::NotADirectory),
    ensures
        run_from(cands, atts, codes, k, rec) == RunOutcome::Failed(CdErrorView::NotADirectory),
    decreases cands.len() - k,
{
    if k < cands.len() {
        match atts[k] {
            Attempt::Failed { code, link } => {
                lemma_not_a_directory_kept(
                    cands,
                    atts,
                    codes,
                    k + 1,
                    absorb(rec, normalized(cands[k]), failure_of(code, codes), link),
                    d,
                );
            },
            Attempt::Entered => {},
        }
    }
}

/// Where every candidate fails and one of them is not a directory, "not a
/// directory" is reported, wherever that candidate stands in the list.
pub proof fn law_not_a_directory_wins(cands: Seq<Seq<char>>, atts: Seq<Attempt>, codes: ErrnoCodes, d: int)
    requires
        atts.len() == cands.len(),
        0 <= d < cands.len(),
        forall|j: int| 0 <= j < cands.len() ==> #[trigger] atts[j] is Failed,
        atts[d] matches Attempt::Failed { code, .. } && failure_of(code, codes) == Failure::NotADirectory,
    ensures
        run(cands, atts, codes) == RunOutcome::Failed(CdErrorView::NotADirectory),
{
    lemma_not_a_directory_kept(cands, atts, codes, 0, empty_record(), d);
}

/// Attempt `j` found nothing, and the path was no symbolic link.
pub open spec fn plain_missing(atts: Seq<Attempt>, codes: ErrnoCodes, j: int) -> bool {
    atts[j] matches Attempt::Failed { code, link: None } && failure_of(code, codes) == Failure::NotFound
}

/// Attempt `j` found nothing, and the path was a symbolic link to `target`.
pub open spec fn broken_link(atts: Seq<Attempt>, codes: ErrnoCodes, j: int, target: Seq<char>) -> bool {
    atts[j] matches Attempt::Failed { code, link: Some(t) } && failure_of(code, codes)
        == Failure::NotFound && t == target
}

proof fn lemma_broken_link_kept(
    cands: Seq<Seq<char>>,
    atts: Seq<Attempt>,
    codes: ErrnoCodes,
    k: int,
    rec: RecordView,
    b: int,
    target: Seq<char>,
)
    requires
        atts.len() == cands.len(),
        0 <= k <= cands.len(),
        0 <= b < cands.len(),
        broken_link(atts, codes, b, target),
        forall|j: int| 0 <= j < cands.len() && j != b ==> #[trigger] plain_missing(atts, codes, j),
        rec.best is None || rec.best == Some(Failure::NotFound),
        k <= b ==> rec.broken_symlink is None,
        k > b ==> rec.broken_symlink == Some((normalized(cands[b]), target)),
    ensures
        run_from(cands, atts, codes, k, rec) == RunOutcome::Failed(
            CdErrorView::BrokenSymlink { path: normalized(cands[b]), target },
        ),
    decreases cands.len() - k,
{
    if k < cands.len() {
        if k != b {
            assert(plain_missing(atts, codes, k));
        }
        match atts[k] {
            Attempt::Failed { code, link } => {
                lemma_broken_link_kept(
                    cands,
                    atts,
                    codes,
                    k + 1,
                    absorb(rec, normalized(cands[k]), failure_of(code, codes), link),
                    b,
                    target,
                );
            },
            Attempt::Entered => {},
        }
    }
}

/// Where every candidate is missing and exactly one of them is a broken
/// symbolic link, that link and its target are reported, wherever it stands
/// in the list.
pub proof fn law_broken_symlink_reported(
    cands: Seq<Seq<char>>,
    atts: Seq<Attempt>,
    codes: ErrnoCodes,
    b: int,
    target: Seq<char>,
)
    requires
        atts.len() == cands.len(),
        0 <= b < cands.len(),
        broken_link(atts, codes, b, target),
        forall|j: int| 0 <= j < cands.len() && j != b ==> #[trigger] plain_missing(atts, codes, j),
    ensures
        run(cands, atts, codes) == RunOutcome::Failed(
            CdErrorView::BrokenSymlink { path: normalized(cands[b]), target },
        ),
{
    lemma_broken_link_kept(cands, atts, codes, 0, empty_record(), b, target);
}

} // verus!
