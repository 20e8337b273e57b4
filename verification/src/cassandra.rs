//! How a client comes about: the connection, the schema, the prepared statements,
//! and what happens when one of them fails.

use vstd::prelude::*;

use crate::config::{Config, Consistency};
use crate::metrics::{Counter, Metric};
use crate::state::{
    mark_cassandra_ready, set_unready_reason, ReasonChange, Runtime, RuntimeState,
    REASON_CONNECT_FAILED, REASON_PREPARE_FAILED, REASON_SCHEMA_CHECK_FAILED,
};

verus! {

/// The seconds before the second attempt to get a client.
pub const RECONNECT_INITIAL_BACKOFF: u64 = 1;

/// The most seconds between two attempts to get a client.
pub const RECONNECT_MAX_BACKOFF: u64 = 30;

/// The seconds between two looks at whether there still is a client.
pub const CONNECTED_POLL: u64 = 5;

/// Why there is no client.
#[derive(Debug)]
pub struct ClientInitError {
    /// What the program gives as the reason for not being ready.
    pub reason: &'static str,
    /// What went wrong.
    pub source: String,
}

/// What a `ClientInitError` says.
pub struct InitFault {
    pub reason: Seq<char>,
    pub source: Seq<char>,
}

impl View for ClientInitError {
    type V = InitFault;

    open spec fn view(&self) -> InitFault {
        InitFault { reason: self.reason@, source: self.source@ }
    }
}

/// The statement that creates the keyspace, with three replicas in the data center.
pub open spec fn create_keyspace_cql(keyspace: Seq<char>, local_dc: Seq<char>) -> Seq<char> {
    "CREATE KEYSPACE IF NOT EXISTS "@ + keyspace
        + " WITH replication = {'class': 'NetworkTopologyStrategy', '"@ + local_dc + "': 3}"@
}

/// The statement that creates the table.
pub open spec fn create_table_cql(keyspace: Seq<char>) -> Seq<char> {
    "CREATE TABLE IF NOT EXISTS "@ + keyspace
        + ".events (\n            bucket text,\n            id uuid,\n            created_at timestamp,\n            payload text,\n            writer_id text,\n            version int,\n            PRIMARY KEY ((bucket), id)\n        )"@
}

/// The statement that finds out whether the table is there.
pub open spec fn check_schema_cql(keyspace: Seq<char>) -> Seq<char> {
    "SELECT bucket, id FROM "@ + keyspace + ".events LIMIT 1"@
}

/// The statement of a write.
pub open spec fn insert_cql(keyspace: Seq<char>) -> Seq<char> {
    "INSERT INTO "@ + keyspace
        + ".events (bucket, id, created_at, payload, writer_id, version) VALUES (?, ?, ?, ?, ?, ?)"@
}

/// The statement of a read.
pub open spec fn select_cql(keyspace: Seq<char>) -> Seq<char> {
    "SELECT bucket, id, created_at, payload, writer_id, version FROM "@ + keyspace
        + ".events WHERE bucket = ? AND id = ?"@
}

/// How to connect.
#[derive(Debug)]
pub struct ConnectPlan {
    /// The data center that is preferred.
    pub datacenter: String,
    /// Whether a statement goes to a replica of its row.
    pub token_aware: bool,
    pub known_nodes: Vec<String>,
    /// User name and password.
    pub credentials: Option<(String, String)>,
}

/// What a `ConnectPlan` says.
pub struct Plan {
    pub datacenter: Seq<char>,
    pub token_aware: bool,
    pub known_nodes: Seq<Seq<char>>,
    pub credentials: Option<(Seq<char>, Seq<char>)>,
}

impl View for ConnectPlan {
    type V = Plan;

    open spec fn view(&self) -> Plan {
        Plan {
            datacenter: self.datacenter@,
            token_aware: self.token_aware,
            known_nodes: self.known_nodes.deep_view(),
            credentials: self.credentials.deep_view(),
        }
    }
}

/// How the settings say to connect: to all contact points, and with a name and a
/// password only where both are given.
pub open spec fn plan_of(config: Config) -> Plan {
    Plan {
        datacenter: config.local_dc@,
        token_aware: true,
        known_nodes: config.contact_points.deep_view(),
        credentials: match (config.username, config.password) {
            (Some(username), Some(password)) => Some((username@, password@)),
            _ => None,
        },
    }
}

/// How the settings say to connect.
pub fn connect_plan(config: &Config) -> (plan: ConnectPlan)
    ensures
        plan@ == plan_of(*config),
{
    let mut known_nodes: Vec<String> = Vec::new();
    let mut i: usize = 0;
    while i < config.contact_points.len()
        invariant
            i <= config.contact_points@.len(),
            known_nodes.deep_view() == config.contact_points.deep_view().take(i as int),
        decreases config.contact_points@.len() - i,
    {
        let ghost before = known_nodes.deep_view();
        let node: String = config.contact_points[i].clone();
        known_nodes.push(node);
        assert(known_nodes.deep_view() == before.push(node@));
        i = i + 1;
    }
    assert(config.contact_points.deep_view().take(i as int) == config.contact_points.deep_view());
    let credentials: Option<(String, String)> = match (&config.username, &config.password) {
        (Some(username), Some(password)) => Some((username.clone(), password.clone())),
        _ => None,
    };
    ConnectPlan { datacenter: config.local_dc.clone(), token_aware: true, known_nodes, credentials }
}

/// Where the making of a client stands.
#[derive(Clone, Copy, Debug, PartialEq, Eq, Structural)]
pub enum BuildPhase {
    Connect,
    CreateKeyspace,
    CreateTable,
    CheckSchema,
    PrepareInsert,
    PrepareSelect,
    Ready,
}

/// What is to be done in a phase.
#[derive(Debug)]
pub enum BuildAction {
    Connect(ConnectPlan),
    Query(String),
    Prepare { cql: String, consistency: Consistency },
    Finished,
}

/// What a `BuildAction` says.
pub enum Act {
    Connect(Plan),
    Query(Seq<char>),
    Prepare { cql: Seq<char>, consistency: Consistency },
    Finished,
}

impl View for BuildAction {
    type V = Act;

    open spec fn view(&self) -> Act {
        match self {
            BuildAction::Connect(plan) => Act::Connect(plan@),
            BuildAction::Query(cql) => Act::Query(cql@),
            BuildAction::Prepare { cql, consistency } => Act::Prepare {
                cql: cql@,
                consistency: *consistency,
            },
            BuildAction::Finished => Act::Finished,
        }
    }
}

/// What is to be done in a phase.
pub open spec fn act_of(phase: BuildPhase, config: Config) -> Act {
    match phase {
        BuildPhase::Connect => Act::Connect(plan_of(config)),
        BuildPhase::CreateKeyspace => Act::Query(
            create_keyspace_cql(config.keyspace@, config.local_dc@),
        ),
        BuildPhase::CreateTable => Act::Query(create_table_cql(config.keyspace@)),
        BuildPhase::CheckSchema => Act::Query(check_schema_cql(config.keyspace@)),
        BuildPhase::PrepareInsert => Act::Prepare {
            cql: insert_cql(config.keyspace@),
            consistency: config.consistency,
        },
        BuildPhase::PrepareSelect => Act::Prepare {
            cql: select_cql(config.keyspace@),
            consistency: config.consistency,
        },
        BuildPhase::Ready => Act::Finished,
    }
}

/// `first`, the keyspace, and `last`.
fn around(first: &str, keyspace: &String, last: &str) -> (cql: String)
    ensures
        cql@ == first@ + keyspace@ + last@,
{
    let mut cql: String = first.to_owned();
    cql.append(keyspace.as_str());
    cql.append(last);
    cql
}

/// The statements that make the schema: the keyspace's and the table's.
pub fn create_schema(config: &Config) -> (cql: (String, String))
    ensures
        cql.0@ == create_keyspace_cql(config.keyspace@, config.local_dc@),
        cql.1@ == create_table_cql(config.keyspace@),
{
    let mut create_keyspace: String = around(
        "CREATE KEYSPACE IF NOT EXISTS ",
        &config.keyspace,
        " WITH replication = {'class': 'NetworkTopologyStrategy', '",
    );
    create_keyspace.append(config.local_dc.as_str());
    create_keyspace.append("': 3}");
    let create_table: String = around(
        "CREATE TABLE IF NOT EXISTS ",
        &config.keyspace,
        ".events (\n            bucket text,\n            id uuid,\n            created_at timestamp,\n            payload text,\n            writer_id text,\n            version int,\n            PRIMARY KEY ((bucket), id)\n        )",
    );
    (create_keyspace, create_table)
}

/// The statement that finds out whether the table is there.
pub fn check_schema(config: &Config) -> (cql: String)
    ensures
        cql@ == check_schema_cql(config.keyspace@),
{
    around("SELECT bucket, id FROM ", &config.keyspace, ".events LIMIT 1")
}

/// The statements of the writes and of the reads.
pub fn prepare_statements(config: &Config) -> (cql: (String, String))
    ensures
        cql.0@ == insert_cql(config.keyspace@),
        cql.1@ == select_cql(config.keyspace@),
{
    let insert: String = around(
        "INSERT INTO ",
        &config.keyspace,
        ".events (bucket, id, created_at, payload, writer_id, version) VALUES (?, ?, ?, ?, ?, ?)",
    );
    let select: String = around(
        "SELECT bucket, id, created_at, payload, writer_id, version FROM ",
        &config.keyspace,
        ".events WHERE bucket = ? AND id = ?",
    );
    (insert, select)
}

/// What is to be done in a phase.
pub fn build_action(phase: BuildPhase, config: &Config) -> (action: BuildAction)
    ensures
        action@ == act_of(phase, *config),
{
    match phase {
        BuildPhase::Connect => BuildAction::Connect(connect_plan(config)),
        BuildPhase::CreateKeyspace => BuildAction::Query(create_schema(config).0),
        BuildPhase::CreateTable => BuildAction::Query(create_schema(config).1),
        BuildPhase::CheckSchema => BuildAction::Query(check_schema(config)),
        BuildPhase::PrepareInsert => BuildAction::Prepare {
            cql: prepare_statements(config).0,
            consistency: config.consistency,
        },
        BuildPhase::PrepareSelect => BuildAction::Prepare {
            cql: prepare_statements(config).1,
            consistency: config.consistency,
        },
        BuildPhase::Ready => BuildAction::Finished,
    }
}

/// Whether `part` occurs in `text`.
pub open spec fn holds_text(text: Seq<char>, part: Seq<char>) -> bool {
    exists|before: Seq<char>, after: Seq<char>| #[trigger] (before + part + after) == text
}

/// Whether `text` starts with `start` and ends with `end`, with `middle` and nothing
/// else between the two.
pub open spec fn is_around(
    text: Seq<char>,
    start: Seq<char>,
    middle: Seq<char>,
    end: Seq<char>,
) -> bool {
    &&& text.len() == start.len() + middle.len() + end.len()
    &&& text.take(start.len() as int) == start
    &&& text.subrange(start.len() as int, (start.len() + middle.len()) as int) == middle
    &&& text.skip((start.len() + middle.len()) as int) == end
}

/// Whatever is prepared, the insert and the select alike, is prepared at the
/// consistency of the settings; and the two are prepared, each in its phase.
pub proof fn law_prepared_at_the_consistency_of_the_settings(phase: BuildPhase, config: Config)
    ensures
        act_of(phase, config) matches Act::Prepare { consistency, .. } ==> consistency
            == config.consistency,
        act_of(phase, config) is Prepare <==> phase == BuildPhase::PrepareInsert || phase
            == BuildPhase::PrepareSelect,
        act_of(phase, config) is Query <==> phase == BuildPhase::CreateKeyspace || phase
            == BuildPhase::CreateTable || phase == BuildPhase::CheckSchema,
        act_of(phase, config) is Connect <==> phase == BuildPhase::Connect,
{
}

/// The action that `build_action` gives prepares at the consistency of the settings.
pub proof fn law_actions_prepare_at_the_consistency_of_the_settings(
    phase: BuildPhase,
    config: Config,
    action: BuildAction,
)
    requires
        call_ensures(build_action, (phase, &config), action),
    ensures
        action@ == act_of(phase, config),
        action is Prepare <==> phase == BuildPhase::PrepareInsert || phase
            == BuildPhase::PrepareSelect,
        action matches BuildAction::Prepare { cql, consistency } ==> {
            &&& consistency == config.consistency
            &&& cql@ == (if phase == BuildPhase::PrepareInsert {
                insert_cql(config.keyspace@)
            } else {
                select_cql(config.keyspace@)
            })
        },
{
}

/// Each statement but the one that makes the keyspace is about the table `events` of
/// the keyspace, and takes nothing else from the settings; the one that makes the
/// keyspace names the keyspace, and the data center with three replicas.
pub proof fn law_statements_are_about_the_keyspace(phase: BuildPhase, config: Config)
    ensures
        match (phase, act_of(phase, config)) {
            (BuildPhase::CreateKeyspace, Act::Query(cql)) => {
                &&& holds_text(cql, config.keyspace@)
                &&& holds_text(cql, "'"@ + config.local_dc@ + "': 3"@)
                &&& cql.len() == create_keyspace_cql(seq![], seq![]).len()
                    + config.keyspace@.len() + config.local_dc@.len()
            },
            (BuildPhase::CreateTable, Act::Query(cql)) => is_around(
                cql,
                "CREATE TABLE IF NOT EXISTS "@,
                config.keyspace@,
                ".events (\n            bucket text,\n            id uuid,\n            created_at timestamp,\n            payload text,\n            writer_id text,\n            version int,\n            PRIMARY KEY ((bucket), id)\n        )"@,
            ),
            (BuildPhase::CheckSchema, Act::Query(cql)) => is_around(
                cql,
                "SELECT bucket, id FROM "@,
                config.keyspace@,
                ".events LIMIT 1"@,
            ),
            (BuildPhase::PrepareInsert, Act::Prepare { cql, .. }) => is_around(
                cql,
                "INSERT INTO "@,
                config.keyspace@,
                ".events (bucket, id, created_at, payload, writer_id, version) VALUES (?, ?, ?, ?, ?, ?)"@,
            ),
            (BuildPhase::PrepareSelect, Act::Prepare { cql, .. }) => is_around(
                cql,
                "SELECT bucket, id, created_at, payload, writer_id, version FROM "@,
                config.keyspace@,
                ".events WHERE bucket = ? AND id = ?"@,
            ),
            (BuildPhase::Connect, Act::Connect(plan)) => plan == plan_of(config),
            (BuildPhase::Ready, Act::Finished) => true,
            _ => false,
        },
{
    match phase {
        BuildPhase::CreateKeyspace => {
            let start = "CREATE KEYSPACE IF NOT EXISTS "@;
            let class = " WITH replication = {'class': 'NetworkTopologyStrategy', '"@;
            let end = "': 3}"@;
            let cql = create_keyspace_cql(config.keyspace@, config.local_dc@);
            assert(cql =~= start + config.keyspace@ + (class + config.local_dc@ + end));
            reveal_strlit(" WITH replication = {'class': 'NetworkTopologyStrategy', '");
            reveal_strlit("'");
            reveal_strlit("': 3}");
            reveal_strlit("': 3");
            reveal_strlit("}");
            let quoted = "'"@ + config.local_dc@ + "': 3"@;
            assert(class =~= class.drop_last() + "'"@);
            assert(end =~= "': 3"@ + "}"@);
            assert(cql =~= (start + config.keyspace@ + class.drop_last()) + quoted + "}"@);
        },
        _ => {
            let cql = match act_of(phase, config) {
                Act::Query(cql) => cql,
                Act::Prepare { cql, .. } => cql,
                _ => seq![],
            };
            lemma_is_around(
                "CREATE TABLE IF NOT EXISTS "@,
                config.keyspace@,
                ".events (\n            bucket text,\n            id uuid,\n            created_at timestamp,\n            payload text,\n            writer_id text,\n            version int,\n            PRIMARY KEY ((bucket), id)\n        )"@,
            );
            lemma_is_around("SELECT bucket, id FROM "@, config.keyspace@, ".events LIMIT 1"@);
            lemma_is_around(
                "INSERT INTO "@,
                config.keyspace@,
                ".events (bucket, id, created_at, payload, writer_id, version) VALUES (?, ?, ?, ?, ?, ?)"@,
            );
            lemma_is_around(
                "SELECT bucket, id, created_at, payload, writer_id, version FROM "@,
                config.keyspace@,
                ".events WHERE bucket = ? AND id = ?"@,
            );
        },
    }
}

proof fn lemma_is_around(start: Seq<char>, middle: Seq<char>, end: Seq<char>)
    ensures
        is_around(start + middle + end, start, middle, end),
{
    let text = start + middle + end;
    assert(text.take(start.len() as int) =~= start);
    assert(text.subrange(start.len() as int, (start.len() + middle.len()) as int) =~= middle);
    assert(text.skip((start.len() + middle.len()) as int) =~= end);
}

/// The connection goes to all contact points, in order, prefers the data center of the
/// settings, and is made with the name and the password exactly where both are given.
pub proof fn law_connection_follows_the_settings(config: Config, plan: ConnectPlan)
    requires
        call_ensures(connect_plan, (&config,), plan),
    ensures
        plan.datacenter@ == config.local_dc@,
        plan.token_aware,
        plan.known_nodes@.len() == config.contact_points@.len(),
        forall|i: int|
            0 <= i < plan.known_nodes@.len() ==> (#[trigger] plan.known_nodes@[i])@
                == config.contact_points@[i]@,
        plan.credentials is Some <==> config.username is Some && config.password is Some,
        plan.credentials matches Some(credentials) ==> credentials.0@ == config.username->0@
            && credentials.1@ == config.password->0@,
{
    let nodes = plan.known_nodes.deep_view();
    let points = config.contact_points.deep_view();
    assert(plan@.known_nodes == nodes && nodes == points);
    assert(nodes.len() == plan.known_nodes@.len() && points.len() == config.contact_points@.len());
    assert forall|i: int| 0 <= i < plan.known_nodes@.len() implies (
    #[trigger] plan.known_nodes@[i])@ == config.contact_points@[i]@ by {
        assert(nodes[i] == plan.known_nodes@[i]@);
        assert(points[i] == config.contact_points@[i]@);
    }
    assert(plan@.credentials == plan.credentials.deep_view());
}

/// The phase after one that went well.
pub open spec fn phase_after(phase: BuildPhase, create_schema: bool) -> BuildPhase {
    match phase {
        BuildPhase::Connect => if create_schema {
            BuildPhase::CreateKeyspace
        } else {
            BuildPhase::CheckSchema
        },
        BuildPhase::CreateKeyspace => BuildPhase::CreateTable,
        BuildPhase::CreateTable => BuildPhase::PrepareInsert,
        BuildPhase::CheckSchema => BuildPhase::PrepareInsert,
        BuildPhase::PrepareInsert => BuildPhase::PrepareSelect,
        BuildPhase::PrepareSelect => BuildPhase::Ready,
        BuildPhase::Ready => BuildPhase::Ready,
    }
}

/// What is wrong where a phase failed.
pub open spec fn phase_fault(phase: BuildPhase, config: Config) -> InitFault {
    match phase {
        BuildPhase::Connect => InitFault {
            reason: REASON_CONNECT_FAILED@,
            source: "failed to connect to Cassandra at "@ + crate::text::join(
                config.contact_points.deep_view(),
                ","@,
            ),
        },
        BuildPhase::CreateKeyspace => InitFault {
            reason: REASON_SCHEMA_CHECK_FAILED@,
            source: "failed to create keyspace"@,
        },
        BuildPhase::CreateTable => InitFault {
            reason: REASON_SCHEMA_CHECK_FAILED@,
            source: "failed to create events table"@,
        },
        BuildPhase::CheckSchema => InitFault {
            reason: REASON_SCHEMA_CHECK_FAILED@,
            source: "schema check failed; apply keyspace/table separately or set APP_CREATE_SCHEMA=true"@,
        },
        BuildPhase::PrepareInsert => InitFault {
            reason: REASON_PREPARE_FAILED@,
            source: "failed to prepare insert"@,
        },
        _ => InitFault { reason: REASON_PREPARE_FAILED@, source: "failed to prepare select"@ },
    }
}

/// Goes on from a phase that is not the last: to the next one where it went well,
/// and else to the error.
pub fn next_phase(phase: BuildPhase, config: &Config, went_well: bool) -> (next: Result<
    BuildPhase,
    ClientInitError,
>)
    requires
        phase != BuildPhase::Ready,
    ensures
        match next {
            Ok(next) => went_well && next == phase_after(phase, config.create_schema),
            Err(error) => !went_well && error@ == phase_fault(phase, *config),
        },
{
    if went_well {
        Ok(
            match phase {
                BuildPhase::Connect => if config.create_schema {
                    BuildPhase::CreateKeyspace
                } else {
                    BuildPhase::CheckSchema
                },
                BuildPhase::CreateKeyspace => BuildPhase::CreateTable,
                BuildPhase::CreateTable => BuildPhase::PrepareInsert,
                BuildPhase::CheckSchema => BuildPhase::PrepareInsert,
                BuildPhase::PrepareInsert => BuildPhase::PrepareSelect,
                _ => BuildPhase::Ready,
            },
        )
    } else {
        Err(
            match phase {
                BuildPhase::Connect => ClientInitError {
                    reason: REASON_CONNECT_FAILED,
                    source: "failed to connect to Cassandra at ".to_owned().concat(
                        config.contact_points_text().as_str(),
                    ),
                },
                BuildPhase::CreateKeyspace => ClientInitError {
                    reason: REASON_SCHEMA_CHECK_FAILED,
                    source: "failed to create keyspace".to_owned(),
                },
                BuildPhase::CreateTable => ClientInitError {
                    reason: REASON_SCHEMA_CHECK_FAILED,
                    source: "failed to create events table".to_owned(),
                },
                BuildPhase::CheckSchema => ClientInitError {
                    reason: REASON_SCHEMA_CHECK_FAILED,
                    source: "schema check failed; apply keyspace/table separately or set APP_CREATE_SCHEMA=true".to_owned(),
                },
                BuildPhase::PrepareInsert => ClientInitError {
                    reason: REASON_PREPARE_FAILED,
                    source: "failed to prepare insert".to_owned(),
                },
                _ => ClientInitError {
                    reason: REASON_PREPARE_FAILED,
                    source: "failed to prepare select".to_owned(),
                },
            },
        )
    }
}

/// The phase after the first `n` went well.
pub open spec fn phase_at(n: nat, create_schema: bool) -> BuildPhase
    decreases n,
{
    if n == 0 {
        BuildPhase::Connect
    } else {
        phase_after(phase_at((n - 1) as nat, create_schema), create_schema)
    }
}

/// A client is ready after the connection, the schema's statements and the two
/// prepared statements, all of which have to go well.
pub proof fn law_phases_lead_to_a_client(create_schema: bool)
    ensures
        phase_at(0, create_schema) == BuildPhase::Connect,
        create_schema ==> {
            &&& phase_at(1, create_schema) == BuildPhase::CreateKeyspace
            &&& phase_at(2, create_schema) == BuildPhase::CreateTable
            &&& phase_at(3, create_schema) == BuildPhase::PrepareInsert
            &&& phase_at(4, create_schema) == BuildPhase::PrepareSelect
            &&& phase_at(5, create_schema) == BuildPhase::Ready
        },
        !create_schema ==> {
            &&& phase_at(1, create_schema) == BuildPhase::CheckSchema
            &&& phase_at(2, create_schema) == BuildPhase::PrepareInsert
            &&& phase_at(3, create_schema) == BuildPhase::PrepareSelect
            &&& phase_at(4, create_schema) == BuildPhase::Ready
        },
{
    reveal_with_fuel(phase_at, 6);
}

/// A phase that went well leads to the next one, and one that did not to the error with
/// its reason.
pub proof fn law_phases_fail_with_their_reason(
    phase: BuildPhase,
    config: Config,
    went_well: bool,
    next: Result<BuildPhase, ClientInitError>,
)
    requires
        phase != BuildPhase::Ready,
        call_ensures(next_phase, (phase, &config, went_well), next),
    ensures
        next is Ok <==> went_well,
        next matches Ok(next) ==> forall|n: nat|
            #[trigger] phase_at(n, config.create_schema) == phase ==> next == phase_at(
                n + 1,
                config.create_schema,
            ),
        next matches Err(error) ==> {
            &&& error.reason@ == (match phase {
                BuildPhase::Connect => "connect_failed"@,
                BuildPhase::PrepareInsert | BuildPhase::PrepareSelect => "prepare_failed"@,
                _ => "schema_check_failed"@,
            })
            &&& error.source@ == (match phase {
                BuildPhase::Connect => "failed to connect to Cassandra at "@ + crate::text::join(
                    config.contact_points.deep_view(),
                    ","@,
                ),
                BuildPhase::CreateKeyspace => "failed to create keyspace"@,
                BuildPhase::CreateTable => "failed to create events table"@,
                BuildPhase::CheckSchema =>
                    "schema check failed; apply keyspace/table separately or set APP_CREATE_SCHEMA=true"@,
                BuildPhase::PrepareInsert => "failed to prepare insert"@,
                _ => "failed to prepare select"@,
            })
        },
{
}

/// The schema is made only where the settings say so, and only looked at where they
/// do not.
pub proof fn law_schema_is_made_only_on_request(n: nat, create_schema: bool)
    ensures
        !create_schema ==> phase_at(n, create_schema) != BuildPhase::CreateKeyspace && phase_at(
            n,
            create_schema,
        ) != BuildPhase::CreateTable,
        create_schema ==> phase_at(n, create_schema) != BuildPhase::CheckSchema,
    decreases n,
{
    if n > 0 {
        law_schema_is_made_only_on_request((n - 1) as nat, create_schema);
    }
}

/// What the reconnect loop does next.
#[derive(Clone, Copy, Debug, PartialEq, Eq, Structural)]
pub enum ReconnectAction {
    /// Sleep so many seconds.
    Sleep(u64),
    /// Try to get a client.
    Connect,
}

/// The loop that gets a client wherever there is none.
#[derive(Debug)]
pub struct Reconnect {
    /// The seconds to wait after the next attempt that fails.
    backoff: u64,
}

impl View for Reconnect {
    type V = nat;

    closed spec fn view(&self) -> nat {
        self.backoff as nat
    }
}

/// The seconds to wait after the attempt that follows one after which it was
/// `backoff`: twice as long, up to the most.
pub open spec fn next_backoff(backoff: nat) -> nat {
    if backoff * 2 < RECONNECT_MAX_BACKOFF {
        backoff * 2
    } else {
        RECONNECT_MAX_BACKOFF as nat
    }
}

/// The seconds to wait after the attempt that follows `failures` failed ones.
pub open spec fn backoff_after(failures: nat) -> nat
    decreases failures,
{
    if failures == 0 {
        RECONNECT_INITIAL_BACKOFF as nat
    } else {
        next_backoff(backoff_after((failures - 1) as nat))
    }
}

/// The waits double from one second on, up to half a minute.
pub proof fn law_backoff_doubles(failures: nat)
    ensures
        backoff_after(failures) == (if failures < 5 {
            vstd::arithmetic::power2::pow2(failures)
        } else {
            30
        }),
    decreases failures,
{
    vstd::arithmetic::power2::lemma2_to64();
    if failures > 0 {
        law_backoff_doubles((failures - 1) as nat);
    }
}

/// What the reconnect loop does next.
pub open spec fn next_action(connected: bool) -> ReconnectAction {
    if connected {
        ReconnectAction::Sleep(CONNECTED_POLL)
    } else {
        ReconnectAction::Connect
    }
}

/// The metrics that change when the reconnect loop goes on.
pub open spec fn next_metrics(connected: bool) -> Seq<Metric> {
    if connected {
        seq![]
    } else {
        seq![Metric::Count(Counter::ConnectAttempts)]
    }
}

/// The metrics that an attempt that gave a client changes.
pub open spec fn connected_metrics() -> Seq<Metric> {
    seq![Metric::Count(Counter::Connects), Metric::CassandraReady(true)]
}

/// The metrics that an attempt that failed changes.
pub open spec fn failed_metrics() -> Seq<Metric> {
    seq![Metric::CassandraReady(false)]
}

/// The state after an attempt to get a client that failed with `fault`.
pub open spec fn after_failed_attempt<C>(state: Runtime<C>, fault: InitFault) -> Runtime<C> {
    Runtime { reason: fault.reason, ..state }
}

/// The loop looks again after five seconds while there is a client, and tries to get
/// one, and counts the attempt, where there is none.
pub proof fn law_attempts_are_made_without_a_client<C>(
    reconnect: Reconnect,
    state: RuntimeState<C>,
    metrics: &mut Vec<Metric>,
    action: ReconnectAction,
)
    requires
        call_ensures(Reconnect::next::<C>, (&reconnect, &state, metrics), action),
    ensures
        state.cassandra is Some ==> action == ReconnectAction::Sleep(5) && final(metrics)@
            == old(metrics)@,
        state.cassandra is None ==> action == ReconnectAction::Connect && final(metrics)@
            == old(metrics)@.push(Metric::Count(Counter::ConnectAttempts)),
{
    assert(old(metrics)@ + seq![] =~= old(metrics)@);
}

impl Reconnect {
    #[verifier::type_invariant]
    spec fn within_bounds(self) -> bool {
        1 <= self.backoff <= RECONNECT_MAX_BACKOFF
    }

    /// The loop before its first attempt.
    pub fn new() -> (reconnect: Self)
        ensures
            reconnect@ == backoff_after(0),
    {
        Reconnect { backoff: RECONNECT_INITIAL_BACKOFF }
    }

    /// What to do next: wait while there is a client, and try to get one where there
    /// is none.
    pub fn next<C>(&self, state: &RuntimeState<C>, metrics: &mut Vec<Metric>) -> (action:
        ReconnectAction)
        ensures
            action == next_action(state.cassandra is Some),
            final(metrics)@ == old(metrics)@ + next_metrics(state.cassandra is Some),
    {
        if state.cassandra.is_some() {
            ReconnectAction::Sleep(CONNECTED_POLL)
        } else {
            metrics.push(Metric::Count(Counter::ConnectAttempts));
            ReconnectAction::Connect
        }
    }

    /// Takes in an attempt that gave `client`.
    pub fn connected<C>(
        &mut self,
        state: &mut RuntimeState<C>,
        client: C,
        metrics: &mut Vec<Metric>,
    )
        ensures
            final(self)@ == backoff_after(0),
            final(state)@ == crate::state::with_client(old(state)@, client),
            final(metrics)@ == old(metrics)@ + connected_metrics(),
    {
        metrics.push(Metric::Count(Counter::Connects));
        mark_cassandra_ready(state, client, metrics);
        self.backoff = RECONNECT_INITIAL_BACKOFF;
    }

    /// Takes in an attempt that failed, and says how many seconds to wait.
    pub fn failed<C>(
        &mut self,
        state: &mut RuntimeState<C>,
        error: &ClientInitError,
        metrics: &mut Vec<Metric>,
    ) -> (r: (u64, Option<ReasonChange>))
        ensures
            r.0 == old(self)@,
            final(self)@ == next_backoff(old(self)@),
            final(state)@ == after_failed_attempt(old(state)@, error@),
            r.1.deep_view() == crate::state::reason_change(old(state)@.reason, error@.reason),
            final(metrics)@ == old(metrics)@ + failed_metrics(),
    {
        proof {
            use_type_invariant(&*self);
        }
        metrics.push(Metric::CassandraReady(false));
        let change: Option<ReasonChange> = set_unready_reason(state, error.reason);
        let backoff: u64 = self.backoff;
        self.backoff = if backoff * 2 < RECONNECT_MAX_BACKOFF {
            backoff * 2
        } else {
            RECONNECT_MAX_BACKOFF
        };
        (backoff, change)
    }
}

} // verus!
