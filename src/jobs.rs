//! The jobs that keep the local artifact store and the augmented index in
//! step with upstream, and their parameters.
use crate::errors::JobErr;
use crate::keys::CrateKey;
use crate::reconcile::BackfillParams;
use crate::text::string_of;
use vstd::prelude::*;
use vstd::string::*;

verus! {

/// A job that the job runner can start.
pub trait Job {
    /// Runs the job to its end.
    fn run(&mut self);
}

/// Something that can place an artifact's file into a directory.
pub trait UpstreamCrateSource {
    /// Places the artifact `key` into the directory `destination`.
    fn fetch_crate(&self, key: &CrateKey, destination: &str);
}

/// The upstream artifact store that crates.io keeps in object storage. It
/// fetches nothing: the store is reached through the HTTP mirror instead.
#[derive(Debug, Clone)]
pub struct S3UpstreamCrateSource {
    pub upstream_s3_prefix: String,
}

impl UpstreamCrateSource for S3UpstreamCrateSource {
    fn fetch_crate(&self, key: &CrateKey, destination: &str) {
    }
}

/// The credentials and endpoint of an object-storage client.
#[derive(Debug, Clone)]
pub struct SimpleS3ClientParams {
    pub api_url: String,
    pub access_key_id: String,
    pub secret_access_key: String,
}

/// An artifact and its bytes, for seeding a store in tests.
#[derive(Debug, Clone)]
pub struct TestingCrate {
    pub key: CrateKey,
    pub contents: Vec<u8>,
}

/// The upstream index that a job reads.
#[derive(Debug, Clone)]
pub struct UpstreamIndex {
}

/// Parameters of the artifact fetcher: how many artifacts one session
/// fetches at most.
#[derive(Debug, Clone, Copy, PartialEq, Eq)]
pub struct LcsFetcherParams {
    pub max_session_crates: u32,
}

impl LcsFetcherParams {
    /// The backfill bounds of a fetcher session: never forced, at most
    /// `max_session_crates` artifacts.
    pub fn backfill_params(&self) -> (r: BackfillParams)
        ensures
            r.max_batch_size == Some(self.max_session_crates as usize),
            !r.force_full_resync,
    {
        BackfillParams { max_batch_size: Some(self.max_session_crates as usize), force_full_resync: false }
    }
}

/// Parameters of the augmented-index backfill.
#[derive(Debug, Clone, Copy, PartialEq, Eq)]
pub struct AisBackfillerParams {
    /// At most this many entries per commit; `-1` for no bound.
    pub max_changes_per_commit: i32,
    pub force_backfill_all_keys: bool,
    pub should_write_changes: bool,
    pub should_commit_changes: bool,
}

/// The parameters are coherent: committing needs writing, a forced backfill
/// has no bound, and a bound is `-1` or not negative.
pub open spec fn ais_params_valid(p: AisBackfillerParams) -> bool {
    &&& (p.should_commit_changes ==> p.should_write_changes)
    &&& (p.force_backfill_all_keys ==> p.max_changes_per_commit == -1)
    &&& p.max_changes_per_commit >= -1
}

impl AisBackfillerParams {
    /// Checks the parameters: an incoherent set is a configuration error.
    pub fn new(
        max_changes_per_commit: i32,
        force_backfill_all_keys: bool,
        should_write_changes: bool,
        should_commit_changes: bool,
    ) -> (r: Result<AisBackfillerParams, JobErr>)
        ensures
            match r {
                Ok(p) => ais_params_valid(p) && p == (AisBackfillerParams {
                    max_changes_per_commit,
                    force_backfill_all_keys,
                    should_write_changes,
                    should_commit_changes,
                }),
                Err(e) => e is ConfigErr && !ais_params_valid(
                    AisBackfillerParams {
                        max_changes_per_commit,
                        force_backfill_all_keys,
                        should_write_changes,
                        should_commit_changes,
                    },
                ),
            },
    {
        if should_commit_changes && !should_write_changes {
            return Err(JobErr::ConfigErr(string_of("committing changes requires writing them")));
        }
        if force_backfill_all_keys && max_changes_per_commit != -1 {
            return Err(JobErr::ConfigErr(string_of("backfilling all keys requires no bound on changes (-1)")));
        }
        if max_changes_per_commit < -1 {
            return Err(JobErr::ConfigErr(string_of("the bound on changes must be -1 or at least 0")));
        }
        Ok(AisBackfillerParams {
            max_changes_per_commit,
            force_backfill_all_keys,
            should_write_changes,
            should_commit_changes,
        })
    }

    /// The backfill bounds these parameters give: `-1` is no bound.
    pub fn backfill_params(&self) -> (r: BackfillParams)
        requires
            ais_params_valid(*self),
        ensures
            r.force_full_resync == self.force_backfill_all_keys,
            self.max_changes_per_commit == -1 ==> r.max_batch_size is None,
            self.max_changes_per_commit >= 0 ==> r.max_batch_size == Some(
                self.max_changes_per_commit as usize,
            ),
    {
        let max_batch_size = if self.max_changes_per_commit == -1 {
            None
        } else {
            Some(self.max_changes_per_commit as usize)
        };
        BackfillParams { max_batch_size, force_full_resync: self.force_backfill_all_keys }
    }
}

/// Where the artifact fetcher puts what it fetches.
#[derive(Debug, Clone, Copy, PartialEq, Eq, Structural)]
pub enum FetchDestination {
    /// The object-storage bucket of the local store.
    S3,
    /// A local store in the working directory.
    Cwd,
}

/// Reads a fetch destination by name: `s3` or `cwd`.
pub fn fetch_destination_from_name(name: &str) -> (r: Result<FetchDestination, JobErr>)
    ensures
        name@ == "s3"@ ==> r == Ok::<FetchDestination, JobErr>(FetchDestination::S3),
        name@ == "cwd"@ ==> r == Ok::<FetchDestination, JobErr>(FetchDestination::Cwd),
        name@ != "s3"@ && name@ != "cwd"@ ==> (r matches Err(JobErr::ConfigErr(m)) && m@ == name@),
{
    proof {
        reveal_strlit("s3");
        reveal_strlit("cwd");
        assert("s3"@.len() != "cwd"@.len());
    }
    let s = string_of(name);
    let s3 = string_of("s3");
    let cwd = string_of("cwd");
    if s == s3 {
        Ok(FetchDestination::S3)
    } else if s == cwd {
        Ok(FetchDestination::Cwd)
    } else {
        Err(JobErr::ConfigErr(s))
    }
}

} // verus!
