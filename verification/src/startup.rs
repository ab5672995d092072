//! Starting the server: which steps are taken in which order, what a failed one
//! ends the process with, what the server is wired with and which workers run.

use crate::text::{same_text, to_full_addr};
use vstd::prelude::*;
use vstd::string::*;

verus! {

/// The largest request body that the server takes.
pub const MAX_BODY_BYTES: usize = 2097152;

/// Seconds after which a request is given up.
pub const REQUEST_TIMEOUT_SECS: u64 = 30;

/// How many reports of changed documents wait for the reindex worker at most.
pub const DIRTY_CHANNEL_CAPACITY: usize = 4096;

/// The exit code of a process whose configuration cannot be loaded.
pub const EXIT_CONFIG: i32 = 2;

/// The exit code of an administrative command that failed.
pub const EXIT_ADMIN: i32 = 1;

/// What starting the server depends on.
#[derive(Debug)]
pub struct ServerConfig {
    pub addr: String,
    pub database_url: String,
    pub tracing_enabled: bool,
    pub otlp_endpoint: String,
    pub oidc_enabled: bool,
    pub session_key: String,
    pub base_url: String,
    pub cookie_secure: bool,
    pub blob_backend: String,
    pub s3_bucket: String,
}

/// A step of starting the server.
#[derive(Clone, Copy, Debug, PartialEq, Eq, Structural)]
pub enum Step {
    /// Sets up tracing with an exporter.
    TracingWithOtlp,
    /// Sets up logging alone.
    Logging,
    /// Starts the metrics exporter.
    Metrics,
    /// Discovers the identity provider.
    DiscoverOidc,
    /// Connects to the database.
    ConnectDatabase,
    /// Connects to the bus between replicas.
    ConnectBus,
    /// Opens the S3 store for blobs.
    OpenS3,
    /// Binds the listen address.
    Bind,
    /// Serves until told to stop.
    Serve,
}

/// What comes after a step.
#[derive(Clone, Copy, Debug, PartialEq, Eq, Structural)]
pub enum Next {
    /// This step.
    Do(Step),
    /// The process ends with this code.
    Exit(i32),
    /// The server has stopped in order.
    Done,
}

/// The step that a configuration starts with.
pub open spec fn opening(cfg: ServerConfig) -> Step {
    if cfg.tracing_enabled && cfg.otlp_endpoint@.len() > 0 {
        Step::TracingWithOtlp
    } else {
        Step::Logging
    }
}

/// The code that the process ends with where a step fails. Without metrics the
/// server starts all the same.
pub open spec fn failure_code(step: Step) -> Option<i32> {
    match step {
        Step::TracingWithOtlp => Some(2i32),
        Step::Logging => Some(2i32),
        Step::Metrics => None,
        Step::DiscoverOidc => Some(2i32),
        Step::ConnectDatabase => Some(3i32),
        Step::ConnectBus => Some(2i32),
        Step::OpenS3 => Some(2i32),
        Step::Bind => Some(4i32),
        Step::Serve => Some(5i32),
    }
}

/// What comes after a step that is done with. Without a database there is
/// neither a bus nor a store for blobs; a blob store in S3 needs a bucket.
pub open spec fn following(cfg: ServerConfig, step: Step) -> Next {
    let database = cfg.database_url@.len() > 0;
    match step {
        Step::TracingWithOtlp => Next::Do(Step::Metrics),
        Step::Logging => Next::Do(Step::Metrics),
        Step::Metrics => if cfg.oidc_enabled {
            Next::Do(Step::DiscoverOidc)
        } else if database {
            Next::Do(Step::ConnectDatabase)
        } else {
            Next::Do(Step::Bind)
        },
        Step::DiscoverOidc => if database {
            Next::Do(Step::ConnectDatabase)
        } else {
            Next::Do(Step::Bind)
        },
        Step::ConnectDatabase => Next::Do(Step::ConnectBus),
        Step::ConnectBus => if cfg.blob_backend@ != "s3"@ {
            Next::Do(Step::Bind)
        } else if cfg.s3_bucket@.len() == 0 {
            Next::Exit(2)
        } else {
            Next::Do(Step::OpenS3)
        },
        Step::OpenS3 => Next::Do(Step::Bind),
        Step::Bind => Next::Do(Step::Serve),
        Step::Serve => Next::Done,
    }
}

/// What comes after a step that was tried.
pub open spec fn next(cfg: ServerConfig, step: Step, succeeded: bool) -> Next {
    match failure_code(step) {
        Some(code) if !succeeded => Next::Exit(code),
        _ => following(cfg, step),
    }
}

fn is_blank(text: &String) -> (r: bool)
    ensures
        r == (text@.len() == 0),
{
    text.as_str().unicode_len() == 0
}

/// The step that a configuration starts with.
pub fn first_step(cfg: &ServerConfig) -> (r: Step)
    ensures
        r == opening(*cfg),
{
    if cfg.tracing_enabled && !is_blank(&cfg.otlp_endpoint) {
        Step::TracingWithOtlp
    } else {
        Step::Logging
    }
}

/// What comes after a step that was tried.
pub fn run_server(cfg: &ServerConfig, step: Step, succeeded: bool) -> (r: Next)
    ensures
        r == next(*cfg, step, succeeded),
{
    let database = !is_blank(&cfg.database_url);
    match step {
        Step::TracingWithOtlp => if succeeded {
            Next::Do(Step::Metrics)
        } else {
            Next::Exit(2)
        },
        Step::Logging => if succeeded {
            Next::Do(Step::Metrics)
        } else {
            Next::Exit(2)
        },
        Step::Metrics => if cfg.oidc_enabled {
            Next::Do(Step::DiscoverOidc)
        } else if database {
            Next::Do(Step::ConnectDatabase)
        } else {
            Next::Do(Step::Bind)
        },
        Step::DiscoverOidc => if !succeeded {
            Next::Exit(2)
        } else if database {
            Next::Do(Step::ConnectDatabase)
        } else {
            Next::Do(Step::Bind)
        },
        Step::ConnectDatabase => if succeeded {
            Next::Do(Step::ConnectBus)
        } else {
            Next::Exit(3)
        },
        Step::ConnectBus => if !succeeded {
            Next::Exit(2)
        } else if !same_text(cfg.blob_backend.as_str(), "s3") {
            Next::Do(Step::Bind)
        } else if is_blank(&cfg.s3_bucket) {
            Next::Exit(2)
        } else {
            Next::Do(Step::OpenS3)
        },
        Step::OpenS3 => if succeeded {
            Next::Do(Step::Bind)
        } else {
            Next::Exit(2)
        },
        Step::Bind => if succeeded {
            Next::Do(Step::Serve)
        } else {
            Next::Exit(4)
        },
        Step::Serve => if succeeded {
            Next::Done
        } else {
            Next::Exit(5)
        },
    }
}

/// The exit code of the migrate command, where it does not get to connect.
pub fn migrate_refusal(database_url: &str) -> (r: Option<i32>)
    ensures
        r == if database_url@.len() == 0 {
            Some(2i32)
        } else {
            None
        },
{
    if database_url.unicode_len() == 0 {
        Some(2)
    } else {
        None
    }
}

/// The exit code of the migrate command once it tried to connect.
pub fn migrate_code(connected: bool) -> (r: i32)
    ensures
        r == if connected {
            0int
        } else {
            1int
        },
{
    if connected {
        0
    } else {
        1
    }
}

/// A listen address in full (`:3000` stands for `0.0.0.0:3000`).
pub fn normalize_addr(addr: &str) -> (r: String)
    ensures
        r@ == crate::text::full_addr(addr@),
{
    to_full_addr(addr)
}

/// What the server is wired with: which of its parts are there, and the settings
/// that sessions depend on.
#[derive(Debug)]
pub struct AppState {
    pub pool: bool,
    pub users: bool,
    pub workspaces: bool,
    pub sessions: bool,
    pub docs: bool,
    pub grants: bool,
    pub acl: bool,
    pub markdown_cache: bool,
    pub search: bool,
    pub shares: bool,
    pub comments: bool,
    pub blob_store: bool,
    pub blob_meta: bool,
    pub snapshots: bool,
    pub rooms_v2: bool,
    pub bus: bool,
    pub boards: bool,
    pub board_rooms: bool,
    pub tasks: bool,
    pub notifications: bool,
    pub oidc: bool,
    pub session_key: Vec<u8>,
    pub base_url: String,
    pub cookie_secure: bool,
    pub oidc_enabled: bool,
}

impl AppState {
    /// Whether every part that rests on the database alone is there, or none.
    pub open spec fn stores_are(&self, there: bool) -> bool {
        &&& self.pool == there
        &&& self.users == there
        &&& self.workspaces == there
        &&& self.sessions == there
        &&& self.docs == there
        &&& self.grants == there
        &&& self.acl == there
        &&& self.markdown_cache == there
        &&& self.search == there
        &&& self.shares == there
        &&& self.comments == there
        &&& self.blob_store == there
        &&& self.blob_meta == there
        &&& self.snapshots == there
        &&& self.boards == there
        &&& self.tasks == there
        &&& self.notifications == there
    }

    /// Whether the parts that need the bus are there, or none.
    pub open spec fn rooms_are(&self, there: bool) -> bool {
        &&& self.rooms_v2 == there
        &&& self.bus == there
        &&& self.board_rooms == there
    }

    /// Whether the settings are those that a server has until they are set.
    pub open spec fn has_default_settings(&self) -> bool {
        &&& self.session_key@.len() == 0
        &&& self.base_url@ == "http://localhost:3000"@
        &&& self.cookie_secure
        &&& !self.oidc_enabled
        &&& !self.oidc
    }

    fn wired(there: bool) -> (r: AppState)
        ensures
            r.stores_are(there),
            r.rooms_are(false),
            r.has_default_settings(),
    {
        AppState {
            pool: there,
            users: there,
            workspaces: there,
            sessions: there,
            docs: there,
            grants: there,
            acl: there,
            markdown_cache: there,
            search: there,
            shares: there,
            comments: there,
            blob_store: there,
            blob_meta: there,
            snapshots: there,
            rooms_v2: false,
            bus: false,
            boards: there,
            board_rooms: false,
            tasks: there,
            notifications: there,
            oidc: false,
            session_key: Vec::new(),
            base_url: "http://localhost:3000".to_owned(),
            cookie_secure: true,
            oidc_enabled: false,
        }
    }

    /// A server without a database.
    pub fn in_memory() -> (r: AppState)
        ensures
            r.stores_are(false),
            r.rooms_are(false),
            r.has_default_settings(),
    {
        AppState::wired(false)
    }

    /// A server with a database. Rooms and settings are still to be set.
    pub fn with_pool() -> (r: AppState)
        ensures
            r.stores_are(true),
            r.rooms_are(false),
            r.has_default_settings(),
    {
        AppState::wired(true)
    }

    /// The server that a configuration makes once its steps have succeeded.
    /// Without a database the settings stay what they are by default.
    pub fn configured(cfg: &ServerConfig) -> (r: AppState)
        ensures
            cfg.database_url@.len() == 0 ==> r.stores_are(false) && r.rooms_are(false)
                && r.has_default_settings(),
            cfg.database_url@.len() > 0 ==> {
                &&& r.stores_are(true)
                &&& r.rooms_are(true)
                &&& r.session_key@ == vstd::utf8::encode_utf8(cfg.session_key@)
                &&& r.base_url@ == cfg.base_url@
                &&& r.cookie_secure == cfg.cookie_secure
                &&& r.oidc_enabled == cfg.oidc_enabled
                &&& r.oidc == cfg.oidc_enabled
            },
    {
        if is_blank(&cfg.database_url) {
            return AppState::in_memory();
        }
        let mut s = AppState::with_pool();
        s.session_key = cfg.session_key.as_str().as_bytes_vec();
        s.base_url = cfg.base_url.clone();
        s.cookie_secure = cfg.cookie_secure;
        s.oidc_enabled = cfg.oidc_enabled;
        s.oidc = cfg.oidc_enabled;
        s.bus = true;
        s.rooms_v2 = true;
        s.board_rooms = true;
        s
    }

    /// What loading sessions needs, where the server has it: the key that they
    /// are signed with.
    pub fn session_deps(&self) -> (r: Option<Vec<u8>>)
        ensures
            r is Some <==> self.sessions && self.workspaces,
            r is Some ==> r->0@ == self.session_key@,
    {
        if self.sessions && self.workspaces {
            let key = self.session_key.clone();
            assert(key@ =~= self.session_key@);
            Some(key)
        } else {
            None
        }
    }

    /// The workers that run beside the server.
    pub fn workers(&self) -> (r: Workers)
        ensures
            r.reindex == self.rooms_v2,
            r.acl_listener == (self.pool && self.acl && self.docs),
            r.comments_listener == (self.pool && self.rooms_v2),
            r.sweep == self.pool,
            r == workers_of(*self),
    {
        Workers {
            reindex: self.rooms_v2,
            acl_listener: self.pool && self.acl && self.docs,
            comments_listener: self.pool && self.rooms_v2,
            sweep: self.pool,
        }
    }
}

/// The workers that run beside the server.
#[derive(Clone, Copy, Debug, PartialEq, Eq, Structural)]
pub struct Workers {
    /// Refreshes the task index of changed documents.
    pub reindex: bool,
    /// Drops cached permissions that changed.
    pub acl_listener: bool,
    /// Tells rooms of changed comments.
    pub comments_listener: bool,
    /// Notifies overdue tasks and prunes the inbox.
    pub sweep: bool,
}

/// The workers that run beside a server with these parts.
pub open spec fn workers_of(state: AppState) -> Workers {
    Workers {
        reindex: state.rooms_v2,
        acl_listener: state.pool && state.acl && state.docs,
        comments_listener: state.pool && state.rooms_v2,
        sweep: state.pool,
    }
}

/// What the steps of a start lead to where each of them succeeds or fails as
/// `outcome` says, starting at `step`.
pub open spec fn leads_to(
    cfg: ServerConfig,
    step: Step,
    outcome: spec_fn(Step) -> bool,
    fuel: nat,
) -> Next
    decreases fuel,
{
    match next(cfg, step, outcome(step)) {
        Next::Do(then_step) if fuel > 0 => leads_to(cfg, then_step, outcome, (fuel - 1) as nat),
        n => n,
    }
}

/// A start that nothing stands in the way of ends in order, in nine steps at
/// most.
pub proof fn law_unhindered_start_serves(cfg: ServerConfig)
    requires
        cfg.blob_backend@ == "s3"@ && cfg.database_url@.len() > 0 ==> cfg.s3_bucket@.len() > 0,
    ensures
        leads_to(cfg, opening(cfg), |s: Step| true, 9) == Next::Done,
{
    reveal_with_fuel(leads_to, 10);
}

/// Where a database is configured nothing is served unless it and the bus were
/// connected.
pub proof fn law_nothing_is_served_without_the_database(
    cfg: ServerConfig,
    outcome: spec_fn(Step) -> bool,
)
    requires
        cfg.database_url@.len() > 0,
        !outcome(Step::ConnectDatabase) || !outcome(Step::ConnectBus),
    ensures
        leads_to(cfg, opening(cfg), outcome, 9) is Exit,
{
    reveal_with_fuel(leads_to, 10);
}

/// A server that fails to start metrics goes on as if it had not.
pub proof fn law_metrics_never_stop_the_start(cfg: ServerConfig)
    ensures
        next(cfg, Step::Metrics, false) == next(cfg, Step::Metrics, true),
        next(cfg, Step::Metrics, false) is Do,
{
}

/// What a failed step ends the process with: 3 where the database cannot be
/// reached, 4 where the address cannot be bound, 5 where serving fails, and 2 for all
/// that is set up before; metrics alone may fail. Blobs in S3 without a bucket end it
/// with 2 as well.
pub proof fn law_what_a_failed_start_ends_with(cfg: ServerConfig, step: Step)
    ensures
        next(cfg, Step::ConnectDatabase, false) == Next::Exit(3),
        next(cfg, Step::Bind, false) == Next::Exit(4),
        next(cfg, Step::Serve, false) == Next::Exit(5),
        step == Step::TracingWithOtlp || step == Step::Logging || step == Step::DiscoverOidc || step
            == Step::ConnectBus || step == Step::OpenS3 ==> next(cfg, step, false) == Next::Exit(2),
        step != Step::Metrics ==> next(cfg, step, false) is Exit,
        next(cfg, step, true) is Exit <==> step == Step::ConnectBus && cfg.blob_backend@ == "s3"@
            && cfg.s3_bucket@.len() == 0,
        next(cfg, step, true) is Exit ==> next(cfg, step, true) == Next::Exit(2),
{
    match step {
        Step::TracingWithOtlp => {},
        Step::Logging => {},
        Step::Metrics => {},
        Step::DiscoverOidc => {},
        Step::ConnectDatabase => {},
        Step::ConnectBus => {},
        Step::OpenS3 => {},
        Step::Bind => {},
        Step::Serve => {},
    }
}

/// The order in which a server starts: logging first, with an exporter exactly where
/// tracing is on and has an endpoint; then metrics; then the identity provider,
/// exactly where it is enabled; then the database and behind it the bus, exactly where
/// a database is configured; then S3, exactly where the database is there and blobs
/// are kept in S3; then the address is bound; and then it serves.
pub proof fn law_the_order_of_a_start(cfg: ServerConfig)
    ensures
        ({
            let database = cfg.database_url@.len() > 0;
            let s3 = cfg.blob_backend@ == "s3"@;
            &&& opening(cfg) == Step::TracingWithOtlp <==> cfg.tracing_enabled
                && cfg.otlp_endpoint@.len() > 0
            &&& opening(cfg) == Step::Logging <==> !(cfg.tracing_enabled
                && cfg.otlp_endpoint@.len() > 0)
            &&& next(cfg, opening(cfg), true) == Next::Do(Step::Metrics)
            &&& next(cfg, Step::Metrics, true) == Next::Do(Step::DiscoverOidc) <==> cfg.oidc_enabled
            &&& !cfg.oidc_enabled ==> next(cfg, Step::Metrics, true) == next(
                cfg,
                Step::DiscoverOidc,
                true,
            )
            &&& next(cfg, Step::DiscoverOidc, true) == Next::Do(Step::ConnectDatabase) <==> database
            &&& next(cfg, Step::DiscoverOidc, true) == Next::Do(Step::Bind) <==> !database
            &&& next(cfg, Step::ConnectDatabase, true) == Next::Do(Step::ConnectBus)
            &&& next(cfg, Step::ConnectBus, true) == Next::Do(Step::OpenS3) <==> s3
                && cfg.s3_bucket@.len() > 0
            &&& next(cfg, Step::ConnectBus, true) == Next::Do(Step::Bind) <==> !s3
            &&& next(cfg, Step::OpenS3, true) == Next::Do(Step::Bind)
            &&& next(cfg, Step::Bind, true) == Next::Do(Step::Serve)
            &&& next(cfg, Step::Serve, true) == Next::Done
        }),
{
}

/// A server with a database and rooms runs all workers and one with neither runs none;
/// with a database alone the inbox is swept and permissions are listened for, and with
/// rooms alone changed documents are reindexed.
pub proof fn law_workers_run_where_their_parts_are(state: AppState, stores: bool, rooms: bool)
    requires
        state.stores_are(stores),
        state.rooms_are(rooms),
    ensures
        workers_of(state).sweep <==> stores,
        workers_of(state).acl_listener <==> stores,
        workers_of(state).reindex <==> rooms,
        workers_of(state).comments_listener <==> stores && rooms,
{
}

} // verus!
