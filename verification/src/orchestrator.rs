//! The decisions around a run: who is told to stop when a run starts or is
//! stopped, and whether the statistics of a run that has ended are stored.
//!
//! The caller owns the flags and the store of results. [`EngineModel`] says
//! what becomes of both when the caller does as the functions here tell it.

use std::path::PathBuf;
use vstd::prelude::*;
use crate::registry::{CancellationRegistry, Registered, RegistryModel};
use crate::scan::{RunModel, ScanError};
use crate::stats::{AnalysisModel, AnalysisResults};
use crate::value::CellModel;

verus! {

/// `std::path::PathBuf`, which the library carries and never reads.
#[verifier::external_type_specification]
#[verifier::external_body]
pub struct ExPathBuf(PathBuf);

/// What the application keeps between commands.
pub struct AppState {
    /// Where the list of databases and their stored statistics are kept.
    pub metadata_db_path: PathBuf,
    /// The runs in progress, by database.
    pub analysis_tasks: CancellationRegistry,
}

/// The register, the flags and the store of results together.
pub struct EngineModel {
    pub registry: RegistryModel,
    /// The tokens whose flags were signalled.
    pub signalled: Set<u64>,
    /// The statistics stored for each database that has some.
    pub store: Map<Seq<char>, AnalysisModel>,
}

/// The tokens signalled so far and one more, if there is one more.
pub open spec fn signal(signalled: Set<u64>, token: Option<u64>) -> Set<u64> {
    match token {
        Some(token) => signalled.insert(token),
        None => signalled,
    }
}

/// What is to be stored when a run has ended with `outcome`: its statistics
/// if it has some, and nothing if it was stopped.
pub open spec fn to_store(outcome: Result<AnalysisModel, ScanError>) -> Option<AnalysisModel> {
    match outcome {
        Ok(stats) => Some(stats),
        Err(_) => None,
    }
}

/// The store after `stats`, if there are any, were stored for `id` in place
/// of what was stored for it before.
pub open spec fn put(
    store: Map<Seq<char>, AnalysisModel>,
    id: Seq<char>,
    stats: Option<AnalysisModel>,
) -> Map<Seq<char>, AnalysisModel> {
    match stats {
        Some(stats) => store.insert(id, stats),
        None => store,
    }
}

impl EngineModel {
    /// After a run on `id` was started: the flag of the run that owned `id`
    /// is signalled, and the new run owns `id`.
    pub open spec fn start(self, id: Seq<char>) -> EngineModel {
        EngineModel {
            registry: self.registry.register(id),
            signalled: signal(self.signalled, self.registry.owner(id)),
            store: self.store,
        }
    }

    /// After the run on `id` was stopped: its flag is signalled and it owns
    /// `id` no more.
    pub open spec fn stop(self, id: Seq<char>) -> EngineModel {
        EngineModel {
            registry: self.registry.cancel(id),
            signalled: signal(self.signalled, self.registry.owner(id)),
            store: self.store,
        }
    }

    /// After the run on `id` with `token` has ended with `outcome`: it has
    /// left the register, and its statistics, if it has some, are stored.
    pub open spec fn finish(
        self,
        id: Seq<char>,
        token: u64,
        outcome: Result<AnalysisModel, ScanError>,
    ) -> EngineModel {
        EngineModel {
            registry: self.registry.unregister(id, token),
            signalled: self.signalled,
            store: put(self.store, id, to_store(outcome)),
        }
    }
}

/// The statistics of an outcome as mathematical values.
pub open spec fn outcome_model(outcome: Result<AnalysisResults, ScanError>) -> Result<
    AnalysisModel,
    ScanError,
> {
    match outcome {
        Ok(results) => Ok(results@),
        Err(reason) => Err(reason),
    }
}

/// What the caller is to store, as mathematical values.
pub open spec fn persist_model(persist: Option<AnalysisResults>) -> Option<AnalysisModel> {
    match persist {
        Some(results) => Some(results@),
        None => None,
    }
}

impl AppState {
    /// Whether the register of runs is well formed.
    pub open spec fn wf(&self) -> bool {
        self.analysis_tasks.wf()
    }

    /// The state of an application that keeps its list of databases at
    /// `metadata_db_path` and has no run in progress.
    pub fn new(metadata_db_path: PathBuf) -> (state: AppState)
        ensures
            state.wf(),
            state.metadata_db_path == metadata_db_path,
            state.analysis_tasks@.owners == Map::<Seq<char>, u64>::empty(),
            state.analysis_tasks@.next_token == 0,
    {
        AppState { metadata_db_path, analysis_tasks: CancellationRegistry::new() }
    }
}

/// Starts a run on the database `path`: registers it as the owner of `path`
/// and gives its token, together with the token of the run that owned
/// `path` before, which the caller is to signal. Where all tokens were
/// given out, no run starts and nothing changes.
pub fn start_db_analysis(state: &mut AppState, path: &str) -> (started: Option<Registered>)
    requires
        old(state).wf(),
    ensures
        final(state).wf(),
        final(state).metadata_db_path == old(state).metadata_db_path,
        match started {
            Some(started) => {
                &&& old(state).analysis_tasks@.has_token_left()
                &&& final(state).analysis_tasks@ == old(state).analysis_tasks@.register(path@)
                &&& started.token == old(state).analysis_tasks.next_token
                &&& started.superseded == old(state).analysis_tasks@.owner(path@)
            },
            None => {
                &&& !old(state).analysis_tasks@.has_token_left()
                &&& final(state).analysis_tasks == old(state).analysis_tasks
            },
        },
{
    state.analysis_tasks.register(path)
}

/// Stops the run on the database `path`: takes it out of the register and
/// gives its token, which the caller is to signal. Where no run owns
/// `path`, nothing changes.
pub fn stop_db_analysis(state: &mut AppState, path: &str) -> (signalled: Option<u64>)
    requires
        old(state).wf(),
    ensures
        final(state).wf(),
        final(state).metadata_db_path == old(state).metadata_db_path,
        final(state).analysis_tasks@ == old(state).analysis_tasks@.cancel(path@),
        signalled == old(state).analysis_tasks@.owner(path@),
{
    state.analysis_tasks.cancel(path)
}

/// Ends the run on the database `path` that was registered with `token`:
/// takes it out of the register if it still owns `path`, and gives the
/// statistics that the caller is to store, which are those of a run that
/// was not stopped. With them stored, register and store are what
/// [`EngineModel::finish`] makes of them.
pub fn finish_db_analysis(
    state: &mut AppState,
    path: &str,
    token: u64,
    outcome: Result<AnalysisResults, ScanError>,
) -> (persist: Option<AnalysisResults>)
    requires
        old(state).wf(),
    ensures
        final(state).wf(),
        final(state).metadata_db_path == old(state).metadata_db_path,
        final(state).analysis_tasks@ == old(state).analysis_tasks@.unregister(path@, token),
        match persist {
            Some(results) => outcome == Ok::<AnalysisResults, ScanError>(results),
            None => outcome is Err,
        },
        persist_model(persist) == to_store(outcome_model(outcome)),
{
    state.analysis_tasks.unregister(path, token);
    match outcome {
        Ok(results) => Some(results),
        Err(_) => None,
    }
}

/// A run that is cancelled stores nothing: when a run that has not ended
/// comes to a table or a row with its flag signalled, however few rows it
/// has processed, it ends without statistics, and when it has ended the store
/// is what it was before.
pub proof fn law_cancelled_run_leaves_store(
    engine: EngineModel,
    run: RunModel,
    table: Seq<char>,
    columns: Seq<Seq<char>>,
    row: Seq<CellModel>,
)
    requires
        run.stopped is None,
    ensures
        run.on_table(true).outcome() == Err::<AnalysisModel, ScanError>(ScanError::Cancelled),
        run.on_row(true, table, columns, row).outcome() == Err::<AnalysisModel, ScanError>(
            ScanError::Cancelled,
        ),
        engine.finish(run.target, run.token, run.on_table(true).outcome()).store == engine.store,
        engine.finish(
            run.target,
            run.token,
            run.on_row(true, table, columns, row).outcome(),
        ).store == engine.store,
{
}

/// A second start on a database takes over from the first: the first run's
/// flag is signalled, the two runs have different tokens, and the second
/// owns the database. If the first run then ends as cancelled and the second
/// with statistics, in either order, the statistics of the second are what
/// is stored for the database, nothing else in the store has changed, and no
/// run owns the database any more.
pub proof fn law_second_start_takes_over(
    engine: EngineModel,
    id: Seq<char>,
    first: Result<AnalysisModel, ScanError>,
    second: AnalysisModel,
)
    requires
        engine.registry.next_token + 1 < u64::MAX,
        first is Err,
    ensures
        ({
            let a = engine.registry.next_token as u64;
            let b = (engine.registry.next_token + 1) as u64;
            let started = engine.start(id).start(id);
            let first_then_second = started.finish(id, a, first).finish(
                id,
                b,
                Ok::<AnalysisModel, ScanError>(second),
            );
            let second_then_first = started.finish(
                id,
                b,
                Ok::<AnalysisModel, ScanError>(second),
            ).finish(id, a, first);
            &&& a != b
            &&& engine.start(id).registry.owner(id) == Some(a)
            &&& started.registry.owner(id) == Some(b)
            &&& started.signalled.contains(a)
            &&& first_then_second.store == engine.store.insert(id, second)
            &&& second_then_first.store == engine.store.insert(id, second)
            &&& first_then_second.registry.owner(id) is None
            &&& second_then_first.registry.owner(id) is None
        }),
{
}

/// Stopping signals the owner and frees the database; where no run owns
/// the database, stopping changes nothing.
pub proof fn law_stop_signals_owner(engine: EngineModel, id: Seq<char>)
    ensures
        engine.stop(id).registry.owner(id) is None,
        engine.stop(id).store == engine.store,
        engine.registry.owner(id) matches Some(token) ==> engine.stop(id).signalled.contains(token),
        engine.registry.owner(id) is None ==> engine.stop(id) == engine,
{
    if engine.registry.owner(id) is None {
        assert(engine.registry.owners.remove(id) =~= engine.registry.owners);
    }
}

} // verus!
