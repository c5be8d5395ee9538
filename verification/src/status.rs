//! The lifecycle of one page download.

use vstd::prelude::*;

verus! {

/// Where a page stands in its download.
///
/// A record stores the state as an integer, see [`DownloadStatus::code`].
#[derive(Clone, Copy, Debug, PartialEq, Eq, Structural)]
pub enum DownloadStatus {
    /// The page is known, nothing has been fetched yet.
    NotStarted,
    /// A fetch is under way.
    Downloading,
    /// The image is stored; its dimensions and format are known.
    Done,
    /// The last fetch ended in an error; the next run may retry.
    Failed,
}

impl DownloadStatus {
    /// The integer under which the state is stored.
    pub open spec fn spec_code(self) -> int {
        match self {
            DownloadStatus::NotStarted => 0,
            DownloadStatus::Downloading => 1,
            DownloadStatus::Done => 2,
            DownloadStatus::Failed => 3,
        }
    }

    /// The state that a stored integer stands for, if any.
    pub open spec fn spec_from_code(code: int) -> Option<DownloadStatus> {
        if code == 0 {
            Some(DownloadStatus::NotStarted)
        } else if code == 1 {
            Some(DownloadStatus::Downloading)
        } else if code == 2 {
            Some(DownloadStatus::Done)
        } else if code == 3 {
            Some(DownloadStatus::Failed)
        } else {
            None
        }
    }

    /// Whether a download in state `self` may move to `next`:
    /// a fetch begins, ends well, ends badly, or is retried.
    /// `Done` is final, and no state follows itself.
    pub open spec fn spec_can_become(self, next: DownloadStatus) -> bool {
        ||| self == DownloadStatus::NotStarted && next == DownloadStatus::Downloading
        ||| self == DownloadStatus::Downloading && next == DownloadStatus::Done
        ||| self == DownloadStatus::Downloading && next == DownloadStatus::Failed
        ||| self == DownloadStatus::Failed && next == DownloadStatus::Downloading
    }

    /// The integer under which the state is stored.
    pub fn code(self) -> (c: i64)
        ensures
            c == self.spec_code(),
    {
        match self {
            DownloadStatus::NotStarted => 0,
            DownloadStatus::Downloading => 1,
            DownloadStatus::Done => 2,
            DownloadStatus::Failed => 3,
        }
    }

    /// Reads a stored integer back; `None` for an integer that names no state.
    pub fn from_code(code: i64) -> (s: Option<DownloadStatus>)
        ensures
            s == Self::spec_from_code(code as int),
    {
        if code == 0 {
            Some(DownloadStatus::NotStarted)
        } else if code == 1 {
            Some(DownloadStatus::Downloading)
        } else if code == 2 {
            Some(DownloadStatus::Done)
        } else if code == 3 {
            Some(DownloadStatus::Failed)
        } else {
            None
        }
    }

    /// Decides whether a download in state `self` may move to `next`.
    pub fn can_become(self, next: DownloadStatus) -> (b: bool)
        ensures
            b == self.spec_can_become(next),
    {
        match self {
            DownloadStatus::NotStarted => next == DownloadStatus::Downloading,
            DownloadStatus::Downloading => next == DownloadStatus::Done
                || next == DownloadStatus::Failed,
            DownloadStatus::Done => false,
            DownloadStatus::Failed => next == DownloadStatus::Downloading,
        }
    }
}

/// Reading back what `code` wrote gives the state again, and only the four
/// codes of the states are read back as a state.
pub proof fn lemma_code_round_trip(s: DownloadStatus, code: int)
    ensures
        DownloadStatus::spec_from_code(s.spec_code()) == Some(s),
        DownloadStatus::spec_from_code(code) matches Some(t) ==> t.spec_code() == code,
        DownloadStatus::spec_from_code(code) is Some <==> 0 <= code <= 3,
{
}

/// `Done` is final: nothing follows it, and no move leads back to
/// `NotStarted`.
pub proof fn lemma_done_is_final(from: DownloadStatus, next: DownloadStatus)
    ensures
        !DownloadStatus::Done.spec_can_become(next),
        !from.spec_can_become(DownloadStatus::NotStarted),
        !from.spec_can_become(from),
{
}

} // verus!
