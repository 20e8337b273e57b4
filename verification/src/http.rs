//! What the HTTP server answers.

use vstd::prelude::*;

use crate::state::{set_reason, ReasonChange, Runtime, RuntimeState, REASON_OPERATIONS_STALE};
use crate::workload::minus;

verus! {

/// An answer to a request.
#[derive(Debug)]
pub struct HttpResponse {
    pub status: u16,
    pub body: String,
}

/// What an `HttpResponse` says.
pub struct Reply {
    pub status: u16,
    pub body: Seq<char>,
}

impl View for HttpResponse {
    type V = Reply;

    open spec fn view(&self) -> Reply {
        Reply { status: self.status, body: self.body@ }
    }
}

/// The answer to the question whether the program runs.
pub fn healthz() -> (body: &'static str)
    ensures
        body@ == "ok\n"@,
{
    "ok\n"
}

/// Whether the last success is no more than `ready_max_age` seconds old at the time
/// `now`.
pub open spec fn is_fresh<C>(state: Runtime<C>, ready_max_age: u64, now: u64) -> bool {
    state.last_success > 0 && minus(now, state.last_success) <= ready_max_age
}

/// The answer to the question whether operations succeed: they do while there is a
/// client and the last success is fresh.
pub open spec fn ready_reply<C>(state: Runtime<C>, ready_max_age: u64, now: u64) -> Reply {
    if state.cassandra is None {
        Reply { status: 503, body: state.reason + "\n"@ }
    } else if is_fresh(state, ready_max_age, now) {
        Reply { status: 200, body: "ready\n"@ }
    } else {
        Reply { status: 503, body: "cassandra_operations_stale\n"@ }
    }
}

/// The reason that stands after the question.
pub open spec fn reason_after_ready<C>(
    state: Runtime<C>,
    ready_max_age: u64,
    now: u64,
) -> Seq<char> {
    if state.cassandra is Some && !is_fresh(state, ready_max_age, now) {
        REASON_OPERATIONS_STALE@
    } else {
        state.reason
    }
}

/// The state after the question: only the reason may have changed.
pub open spec fn after_readyz<C>(state: Runtime<C>, ready_max_age: u64, now: u64) -> Runtime<C> {
    Runtime { reason: reason_after_ready(state, ready_max_age, now), ..state }
}

/// Answers the question whether operations succeed.
pub fn readyz<C>(state: &mut RuntimeState<C>, ready_max_age: u64, now: u64) -> (r: (
    HttpResponse,
    Option<ReasonChange>,
))
    ensures
        r.0@ == ready_reply(old(state)@, ready_max_age, now),
        final(state)@ == after_readyz(old(state)@, ready_max_age, now),
        r.1.deep_view() == crate::state::reason_change(
            old(state)@.reason,
            reason_after_ready(old(state)@, ready_max_age, now),
        ),
{
    if state.cassandra.is_none() {
        let body: String = state.last_unready_reason.clone().concat("\n");
        return (HttpResponse { status: 503, body }, None);
    }
    let last_success: u64 = state.last_success_timestamp;
    if last_success > 0 && now.saturating_sub(last_success) <= ready_max_age {
        (HttpResponse { status: 200, body: "ready\n".to_owned() }, None)
    } else {
        let change: Option<ReasonChange> = set_reason(
            &mut state.last_unready_reason,
            REASON_OPERATIONS_STALE,
        );
        (HttpResponse { status: 503, body: "cassandra_operations_stale\n".to_owned() }, change)
    }
}

/// The answer says that the program is ready exactly where it has a client and a last
/// success that is no older than allowed. Else it gives the reason: the one that
/// stands where there is no client, and that the operations are stale where there is.
pub proof fn law_answers<C>(state: Runtime<C>, ready_max_age: u64, now: u64)
    ensures
        ({
            let reply = ready_reply(state, ready_max_age, now);
            let ready = state.cassandra is Some && state.last_success > 0 && now
                <= state.last_success + ready_max_age;
            &&& reply.status == (if ready {
                200
            } else {
                503int
            })
            &&& ready ==> reply.body == "ready"@ + "\n"@
            &&& state.cassandra is None ==> reply.body == state.reason + "\n"@
            &&& state.cassandra is Some && !ready ==> reply.body == "cassandra_operations_stale"@
                + "\n"@
        }),
{
    reveal_strlit("cassandra_operations_stale");
    reveal_strlit("cassandra_operations_stale\n");
    reveal_strlit("ready");
    reveal_strlit("ready\n");
    reveal_strlit("\n");
    assert("cassandra_operations_stale\n"@ =~= "cassandra_operations_stale"@ + "\n"@);
    assert("ready\n"@ =~= "ready"@ + "\n"@);
}

/// At the start the answer is that there is no client yet.
pub proof fn law_not_ready_at_the_start<C>(
    config: crate::config::Config,
    start: u64,
    ready_max_age: u64,
    now: u64,
)
    ensures
        ready_reply(crate::state::initial_runtime::<C>(config, start), ready_max_age, now) == (
        Reply { status: 503, body: "cassandra_client_not_ready"@ + "\n"@ }),
{
}

/// With a client, the answer after an operation that succeeded is that the program is
/// ready, for as many seconds as the settings say.
pub proof fn law_success_makes_ready<C>(
    state: Runtime<C>,
    config: crate::config::Config,
    step: crate::runs::Step<C>,
    now: u64,
)
    requires
        state.cassandra is Some,
        step.succeeded(),
        step.time() > 0,
        now <= step.time() + config.ready_max_age,
    ensures
        ready_reply(
            crate::runs::after_step(state, config, step),
            config.ready_max_age,
            now,
        ) == (Reply { status: 200, body: "ready\n"@ }),
{
}

/// Without a success the program stops being ready once the last one is too old.
pub proof fn law_stale_is_not_ready<C>(
    state: Runtime<C>,
    config: crate::config::Config,
    run: Seq<crate::runs::Step<C>>,
    now: u64,
)
    requires
        forall|i: int| 0 <= i < run.len() ==> !(#[trigger] run[i]).succeeded(),
        state.last_success + config.ready_max_age < now,
    ensures
        ready_reply(crate::runs::after_run(state, config, run), config.ready_max_age, now).status
            == 503,
{
    crate::runs::law_last_success_is_kept(state, config, run);
    lemma_no_success(run, state.last_success);
}

proof fn lemma_no_success<C>(run: Seq<crate::runs::Step<C>>, before: u64)
    requires
        forall|i: int| 0 <= i < run.len() ==> !(#[trigger] run[i]).succeeded(),
    ensures
        crate::runs::last_success_in(run, before) == before,
    decreases run.len(),
{
    if run.len() > 0 {
        assert(!run[run.len() - 1].succeeded());
        assert forall|i: int| 0 <= i < run.drop_last().len() implies !(
        #[trigger] run.drop_last()[i]).succeeded() by {
            assert(!run[i].succeeded());
        }
        lemma_no_success(run.drop_last(), before);
    }
}

/// The answer after the client was given up for too many failures says so.
pub proof fn law_given_up_is_reported<C>(
    state: Runtime<C>,
    config: crate::config::Config,
    step: crate::runs::Step<C>,
    now: u64,
)
    requires
        step.failed(),
        crate::workload::gives_up(state, config.reconnect_after_consecutive_errors),
    ensures
        ready_reply(
            crate::runs::after_step(state, config, step),
            config.ready_max_age,
            now,
        ) == (Reply { status: 503, body: "too_many_consecutive_errors"@ + "\n"@ }),
{
}

/// The answer after an attempt to get a client failed gives the reason of the phase
/// in which it did.
pub proof fn law_failed_attempt_is_reported<C>(
    state: Runtime<C>,
    config: crate::config::Config,
    phase: crate::cassandra::BuildPhase,
    now: u64,
)
    requires
        state.cassandra is None,
    ensures
        ready_reply(
            crate::runs::after_step(state, config, crate::runs::Step::ConnectFailed { phase }),
            config.ready_max_age,
            now,
        ) == (Reply {
            status: 503,
            body: crate::cassandra::phase_fault(phase, config).reason + "\n"@,
        }),
{
}

/// From the start on, the program is ready exactly while it has a client and its last
/// success is no older than the settings allow.
pub proof fn law_ready_while_the_last_success_is_fresh<C>(
    config: crate::config::Config,
    start: u64,
    run: Seq<crate::runs::Step<C>>,
    now: u64,
)
    ensures
        ({
            let state = crate::runs::after_run(
                crate::state::initial_runtime::<C>(config, start),
                config,
                run,
            );
            let last = crate::runs::last_success_in(run, 0);
            ready_reply(state, config.ready_max_age, now).status == 200 <==> state.cassandra is Some
                && last > 0 && now <= last + config.ready_max_age
        }),
{
    crate::runs::law_last_success_is_kept(
        crate::state::initial_runtime::<C>(config, start),
        config,
        run,
    );
}

/// From the start on, the program answers either that it is ready or one of the known
/// reasons why it is not.
pub proof fn law_refusal_gives_a_known_reason<C>(
    config: crate::config::Config,
    start: u64,
    run: Seq<crate::runs::Step<C>>,
    now: u64,
)
    ensures
        ({
            let state = crate::runs::after_run(
                crate::state::initial_runtime::<C>(config, start),
                config,
                run,
            );
            let reply = ready_reply(state, config.ready_max_age, now);
            ||| reply == (Reply { status: 200, body: "ready\n"@ })
            ||| reply.status == 503 && exists|reason: Seq<char>| #[trigger]
                crate::runs::is_known_reason(reason) && reply.body == reason + "\n"@
        }),
{
    crate::runs::law_reason_is_known::<C>(config, start, run);
    reveal_strlit("cassandra_operations_stale");
    reveal_strlit("cassandra_operations_stale\n");
    reveal_strlit("\n");
    assert("cassandra_operations_stale\n"@ =~= REASON_OPERATIONS_STALE@ + "\n"@);
    assert(crate::runs::is_known_reason(REASON_OPERATIONS_STALE@));
}

} // verus!
