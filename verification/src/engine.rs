//! The sandbox engine edge: compiling a guest module once at session
//! open, minting fresh session tokens, and reading the wall clock. Each
//! of the three crosses into an outside crate behind a small trusted
//! wrapper; everything around them is verified.

use vstd::prelude::*;

use crate::session::{spec_find_session, wf, SessionRecord, SessionStore};
use crate::storage::Storage;
use crate::strfmt::{session_key, shard_key, spec_session_key, spec_shard_key};
use crate::value::LogLevel;
use crate::WorkerError;

verus! {

/// Relies on wasmtime: `Config` with epoch interruption switched on,
/// `Engine::new`, `Module::new` (validates and compiles the bytecode)
/// and `Module::serialize`. Malformed input comes back as the error
/// string; nothing is assumed about the artifact.
#[verifier::external_body]
fn compile_program(program: &Vec<u8>) -> (r: Result<Vec<u8>, String>) {
    let mut config = wasmtime::Config::default();
    config.epoch_interruption(true);
    let engine = wasmtime::Engine::new(&config).map_err(|e| e.to_string())?;
    let module = wasmtime::Module::new(&engine, program).map_err(|e| e.to_string())?;
    module.serialize().map_err(|e| e.to_string())
}

/// Relies on uuid::Uuid::new_v4 and its hyphenated rendering: a fresh
/// random token of 36 characters. Being random, nothing more is assumed.
#[verifier::external_body]
fn fresh_token() -> (r: String)
    ensures
        r@.len() == 36,
{
    uuid::Uuid::new_v4().to_string()
}

/// Relies on chrono::Local::now and timestamp_millis: the wall clock in
/// milliseconds. Nothing is assumed of what it returns.
#[verifier::external_body]
fn now_millis() -> (r: i64) {
    chrono::Local::now().timestamp_millis()
}

/// The clamped difference of two clock readings.
pub open spec fn spec_elapsed(start: int, end: int) -> int {
    if end - start > i64::MAX {
        i64::MAX as int
    } else if end - start < i64::MIN {
        i64::MIN as int
    } else {
        end - start
    }
}

/// The milliseconds between two clock readings, clamped at the ends.
pub fn elapsed_millis(start: i64, end: i64) -> (r: i64)
    ensures
        r == spec_elapsed(start as int, end as int),
{
    match end.checked_sub(start) {
        Option::Some(d) => d,
        Option::None => {
            if end >= 0 {
                i64::MAX
            } else {
                i64::MIN
            }
        },
    }
}

/// Opens a session: compiles the guest program once, mints a fresh
/// token, and writes the record at epoch 0, the starting point of the
/// session's version history. A program the engine rejects yields
/// `CompileError`; a token collision yields `BackendError` and writes
/// nothing.
pub fn open_session(
    store: &mut SessionStore,
    program: &Vec<u8>,
    space_name: &str,
    ex_timeout: u64,
    parallel: u64,
) -> (r: Result<String, WorkerError>)
    requires
        wf(*old(store)),
    ensures
        wf(*final(store)),
        match r {
            Result::Ok(token) => {
                &&& token@.len() == 36
                &&& spec_find_session(old(store).sessions@, token@) is None
                &&& spec_find_session(final(store).sessions@, token@) matches Option::Some(s)
                    && s.space_name@ == space_name@ && s.ex_timeout == ex_timeout && s.parallel
                    == parallel && s.epoch == 0
                &&& forall|t2: Seq<char>|
                    #![trigger spec_find_session(final(store).sessions@, t2)]
                    t2 != token@ ==> spec_find_session(final(store).sessions@, t2)
                        == spec_find_session(old(store).sessions@, t2)
                &&& final(store).shards == old(store).shards
            },
            Result::Err(e) => *final(store) == *old(store) && (e == WorkerError::CompileError || e
                == WorkerError::BackendError),
        },
{
    let module = match compile_program(program) {
        Result::Ok(m) => m,
        Result::Err(_) => {
            return Err(WorkerError::CompileError);
        },
    };
    let token = fresh_token();
    let rec = SessionRecord {
        token: token.clone(),
        space_name: String::from_str(space_name),
        module,
        ex_timeout,
        parallel,
        epoch: 0,
    };
    match store.insert_session(rec) {
        Result::Ok(u) => Ok(token),
        Result::Err(e) => Err(e),
    }
}

/// The per-stream view of one session: its coordinates and knobs, beside
/// the serialized module the caller instantiates sandboxes from.
#[derive(Debug)]
pub struct StorageManager {
    pub space_name: String,
    pub epoch: u64,
    pub token: String,
    pub ttl: u64,
    pub par: u64,
}

impl StorageManager {
    /// Loads a session's metadata and its compiled-module bytes, as the
    /// streaming path does once per stream before its first run.
    pub fn new(store: &SessionStore, token: &String) -> (r: Result<
        (StorageManager, Vec<u8>),
        WorkerError,
    >)
        ensures
            match r {
                Result::Ok(p) => spec_find_session(store.sessions@, token@)
                    matches Option::Some(s) && p.0.space_name@ == s.space_name@ && p.0.epoch
                    == s.epoch && p.0.token@ == s.token@ && p.0.ttl == s.ex_timeout && p.0.par
                    == s.parallel && p.1@ == s.module@,
                Result::Err(e) => e == WorkerError::BackendError && spec_find_session(
                    store.sessions@,
                    token@,
                ) is None,
            },
    {
        let rec = match store.load_session(token) {
            Result::Ok(rec) => rec,
            Result::Err(e) => {
                return Err(e);
            },
        };
        let manager = StorageManager {
            space_name: rec.space_name,
            epoch: rec.epoch,
            token: rec.token,
            ttl: rec.ex_timeout,
            par: rec.parallel,
        };
        Ok((manager, rec.module))
    }

    /// A fresh import context for one request of this stream, stamped
    /// with the wall clock at run start.
    pub fn get_sandbox_context(&self) -> (st: Storage)
        ensures
            st.space_name@ == self.space_name@,
            st.epoch == self.epoch,
            st.token@ == self.token@,
            st.return_tables@.len() == 0,
            st.logs@.len() == 0,
            st.counter == 0,
    {
        Storage::new(
            self.space_name.clone(),
            self.epoch,
            self.token.clone(),
            now_millis(),
            LogLevel::Info,
        )
    }

    /// The milliseconds a run has used so far, against the context's
    /// start stamp. What the clock returns now is not modeled; the
    /// clamped subtraction it feeds is [`elapsed_millis`].
    pub fn time_used(st: &Storage) -> (r: i64) {
        let end = now_millis();
        elapsed_millis(st.start_time_ms, end)
    }
}

/// One stream entry's answer: the guest's output tables in wire form,
/// its captured log lines, the wall-clock milliseconds the run used, and
/// the error description when the run failed.
#[derive(Debug)]
pub struct RunResponse {
    pub tables: Vec<crate::codec::DataFrame>,
    pub logs: Vec<crate::storage::LogLine>,
    pub time_used: i64,
    pub last_err: String,
}

/// Assembles one stream entry's answer from a finished import context:
/// every accumulated table encoded in order, the log lines as captured,
/// and an empty error description for a clean run.
pub fn build_run_response(st: Storage, time_used: i64, err: Option<WorkerError>) -> (r:
    RunResponse)
    ensures
        r.tables@.len() == st.return_tables@.len(),
        forall|i: int|
            #![trigger r.tables@[i]]
            0 <= i < r.tables@.len() ==> r.tables@[i]@.headers == crate::codec::spec_enc_headers(
                crate::codec::cols_view(st.return_tables@[i].cols@),
            ) && r.tables@[i]@.columns == crate::codec::spec_enc_columns(
                crate::codec::cols_view(st.return_tables@[i].cols@),
            ) && r.tables@[i]@.comment == st.return_tables@[i].name@,
        r.logs == st.logs,
        r.time_used == time_used,
        r.last_err@ == match err {
            Option::Some(e) => e.spec_message(),
            Option::None => Seq::<char>::empty(),
        },
{
    let tables = st.into_tables();
    let last_err = match err {
        Option::Some(e) => e.message(),
        Option::None => String::new(),
    };
    proof {
        if err is None {
            assert(last_err@ =~= Seq::<char>::empty());
        }
    }
    RunResponse { tables, logs: st.logs, time_used, last_err }
}

/// The exact backend keys a session close must delete: every per-epoch
/// shard from 0 through one past the stored epoch (the pending-write
/// shard included), then the session record itself; the range comes from
/// the epoch read in the same operation, so no shard can leak.
pub fn close_session_keys(store: &SessionStore, token: &String) -> (r: Result<
    Vec<String>,
    WorkerError,
>)
    requires
        spec_find_session(store.sessions@, token@) matches Option::Some(s) ==> s.epoch < u64::MAX
            - 2,
    ensures
        match r {
            Result::Ok(keys) => spec_find_session(store.sessions@, token@)
                matches Option::Some(s) && {
                &&& keys@.len() == s.epoch + 3
                &&& forall|i: int|
                    0 <= i <= s.epoch + 1 ==> #[trigger] keys@[i]@ == spec_shard_key(
                        token@,
                        i as nat,
                    )
                &&& keys@.last()@ == spec_session_key(token@)
            },
            Result::Err(e) => e == WorkerError::BackendError && spec_find_session(
                store.sessions@,
                token@,
            ) is None,
        },
{
    let epoch = match store.load_session(token) {
        Result::Ok(rec) => rec.epoch,
        Result::Err(e) => {
            return Err(e);
        },
    };
    let mut keys: Vec<String> = Vec::new();
    let mut ep: u64 = 0;
    while ep <= epoch + 1
        invariant
            epoch < u64::MAX - 2,
            ep <= epoch + 2,
            keys@.len() == ep,
            forall|i: int| 0 <= i < ep ==> #[trigger] keys@[i]@ == spec_shard_key(token@, i as nat),
        decreases epoch + 2 - ep,
    {
        keys.push(shard_key(token.as_str(), ep));
        ep = ep + 1;
    }
    keys.push(session_key(token.as_str()));
    Ok(keys)
}

} // verus!
