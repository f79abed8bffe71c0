//! The decisions of a backfill run over its candidates. For each candidate in
//! order the caller fetches the artifact into a scratch directory, reports
//! whether the expected file is there, uploads it to the sink and reports
//! that. A failed fetch or upload ends the run at once; what was uploaded
//! before stays uploaded.
use crate::errors::JobErr;
use crate::keys::{key_views, CrateKey};
use crate::text::{push_str, string_of};
use vstd::prelude::*;
use vstd::string::*;

verus! {

/// Where a backfill run stands.
#[derive(Debug, Clone, Copy, PartialEq, Eq, Structural)]
pub enum BackfillPhase {
    /// The current candidate is to be fetched.
    Fetching,
    /// The current candidate was fetched and is to be uploaded.
    Uploading,
    /// Every candidate was uploaded.
    Done,
    /// A fetch left no file behind; the run stopped.
    Failed,
}

/// What the caller does next.
#[derive(Debug, PartialEq, Eq)]
pub enum BackfillAction {
    /// Fetch this artifact into the scratch directory.
    Fetch(CrateKey),
    /// Upload this artifact from the scratch directory, then remove the
    /// scratch copy, ignoring a failure to remove it.
    Upload(CrateKey),
    /// Nothing is left to do.
    Finished,
}

/// One backfill run: the candidates in order, how many of them were
/// uploaded, and the phase.
pub struct BackfillRun {
    candidates: Vec<CrateKey>,
    position: usize,
    phase: BackfillPhase,
}

/// The error of a fetch that left no file: it names the artifact as
/// `name-version`.
pub open spec fn missing_download_message(k: (Seq<char>, Seq<char>)) -> Seq<char> {
    "upstream source failed to download `"@ + k.0 + "-"@ + k.1 + "`"@
}

impl BackfillRun {
    /// The candidates of the run.
    pub closed spec fn candidates(&self) -> Seq<(Seq<char>, Seq<char>)> {
        key_views(self.candidates@)
    }

    /// How many candidates were uploaded: the first ones, in order.
    pub closed spec fn uploaded_count(&self) -> nat {
        self.position as nat
    }

    /// The phase of the run.
    pub closed spec fn phase(&self) -> BackfillPhase {
        self.phase
    }

    /// The run's own consistency.
    pub closed spec fn well_formed(&self) -> bool {
        &&& self.position <= self.candidates.len()
        &&& (self.phase == BackfillPhase::Done <==> self.position == self.candidates.len())
    }

    /// A run over `candidates` that has done nothing yet.
    pub fn new(candidates: Vec<CrateKey>) -> (r: BackfillRun)
        ensures
            r.well_formed(),
            r.candidates() == key_views(candidates@),
            r.uploaded_count() == 0,
            r.phase() == (if candidates.len() == 0 {
                BackfillPhase::Done
            } else {
                BackfillPhase::Fetching
            }),
    {
        let phase = if candidates.len() == 0 {
            BackfillPhase::Done
        } else {
            BackfillPhase::Fetching
        };
        BackfillRun { candidates, position: 0, phase }
    }

    /// How many candidates were uploaded.
    pub fn uploaded(&self) -> (r: usize)
        ensures
            r == self.uploaded_count(),
    {
        self.position
    }

    /// What to do next: fetch or upload the current candidate, or nothing.
    pub fn next_action(&self) -> (r: BackfillAction)
        requires
            self.well_formed(),
        ensures
            self.phase() == BackfillPhase::Fetching ==> (r matches BackfillAction::Fetch(k) && k@
                == self.candidates()[self.uploaded_count() as int]),
            self.phase() == BackfillPhase::Uploading ==> (r matches BackfillAction::Upload(k) && k@
                == self.candidates()[self.uploaded_count() as int]),
            self.phase() == BackfillPhase::Done || self.phase() == BackfillPhase::Failed ==> r
                == BackfillAction::Finished,
    {
        match self.phase {
            BackfillPhase::Fetching => BackfillAction::Fetch(self.candidates[self.position].clone()),
            BackfillPhase::Uploading => BackfillAction::Upload(
                self.candidates[self.position].clone(),
            ),
            _ => BackfillAction::Finished,
        }
    }

    /// Records whether the fetch of the current candidate left the expected
    /// file in the scratch directory. Without it the run fails with an error
    /// that names the file.
    pub fn record_fetch(&mut self, file_present: bool) -> (r: Result<(), JobErr>)
        requires
            old(self).well_formed(),
            old(self).phase() == BackfillPhase::Fetching,
        ensures
            final(self).well_formed(),
            final(self).candidates() == old(self).candidates(),
            final(self).uploaded_count() == old(self).uploaded_count(),
            file_present ==> r is Ok && final(self).phase() == BackfillPhase::Uploading,
            !file_present ==> final(self).phase() == BackfillPhase::Failed,
            !file_present ==> (r matches Err(JobErr::OtherErr(m)) && m@ == missing_download_message(
                old(self).candidates()[old(self).uploaded_count() as int],
            )),
    {
        if file_present {
            self.phase = BackfillPhase::Uploading;
            Ok(())
        } else {
            let k = &self.candidates[self.position];
            proof {
                reveal_strlit("upstream source failed to download `");
                reveal_strlit("`");
                reveal_strlit("-");
            }
            let mut m = string_of("upstream source failed to download `");
            push_str(&mut m, k.name.as_str());
            push_str(&mut m, "-");
            push_str(&mut m, k.version.as_str());
            push_str(&mut m, "`");
            self.phase = BackfillPhase::Failed;
            Err(JobErr::OtherErr(m))
        }
    }

    /// Records that the current candidate was uploaded; the run moves on to
    /// the next one, or is done.
    pub fn record_upload(&mut self)
        requires
            old(self).well_formed(),
            old(self).phase() == BackfillPhase::Uploading,
        ensures
            final(self).well_formed(),
            final(self).candidates() == old(self).candidates(),
            final(self).uploaded_count() == old(self).uploaded_count() + 1,
            final(self).phase() == (if final(self).uploaded_count() == old(self).candidates().len() {
                BackfillPhase::Done
            } else {
                BackfillPhase::Fetching
            }),
    {
        self.position = self.position + 1;
        if self.position == self.candidates.len() {
            self.phase = BackfillPhase::Done;
        } else {
            self.phase = BackfillPhase::Fetching;
        }
    }

    /// Records that the fetch or upload of the current candidate failed: the
    /// run stops there, and what was uploaded before stays uploaded.
    pub fn record_failure(&mut self)
        requires
            old(self).well_formed(),
            old(self).phase() == BackfillPhase::Fetching || old(self).phase()
                == BackfillPhase::Uploading,
        ensures
            final(self).well_formed(),
            final(self).candidates() == old(self).candidates(),
            final(self).uploaded_count() == old(self).uploaded_count(),
            final(self).phase() == BackfillPhase::Failed,
    {
        self.phase = BackfillPhase::Failed;
    }
}

} // verus!
