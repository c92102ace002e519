//! How flows of an engine come and go, and how an engine is made.
use crate::config::path::FilePath;
use crate::ffi::accept::AcceptState;
use crate::ffi::engine;
use crate::ffi::engine::{EndpointPlan, FfiEngine, PathAddresses};
use crate::ffi::flows;
use crate::ffi::flows::{FlowSlot, FlowTable};
use crate::ffi::memory;
use crate::ffi::memory::{Pointer, RequestOutputs};
use crate::ffi::open;
use crate::ffi::open::{OpenOperation, OpenProgress, OpenState, ReplayInput};
use crate::ffi::types;
use crate::ffi::types::{FfiEngineConfig, FfiRole, FfiSecurity, FfiStatus};
use crate::config::transport::RecoveryMode;
use vstd::prelude::*;

verus! {

/// A flow that was put in under a new handle is the one that is taken out under it, once; flows
/// under other handles are not affected.
pub proof fn law_flow_is_taken_out_once<F>(
    inserting: &mut FlowTable<F>,
    handle: u64,
    flow: F,
    removing: &mut FlowTable<F>,
    taken: Option<F>,
    again: &mut FlowTable<F>,
    taken_then: Option<F>,
    other: u64,
)
    requires
        flows::distinct(old(inserting).slots@),
        flows::fresh(old(inserting).slots@, handle),
        other != handle,
        call_ensures(FlowTable::<F>::insert_flow, (inserting, handle, flow), ()),
        old(removing).slots@ == final(inserting).slots@,
        call_ensures(FlowTable::<F>::remove_flow, (removing, handle), taken),
        old(again).slots@ == final(removing).slots@,
        call_ensures(FlowTable::<F>::remove_flow, (again, handle), taken_then),
    ensures
        taken == Some(flow),
        taken_then is None,
        flows::flow_of(final(inserting).slots@, other) == flows::flow_of(old(inserting).slots@, other),
        flows::flow_of(final(removing).slots@, other) == flows::flow_of(old(inserting).slots@, other),
{
    flows::law_flow_handles_are_not_confused(old(inserting).slots@, handle, flow, other);
    flows::law_closed_flow_stays_closed(old(removing).slots@, handle, other);
}

/// A new table holds no flow.
pub proof fn law_new_table_is_empty<F>(table: FlowTable<F>, removing: &mut FlowTable<F>, handle: u64, taken: Option<F>)
    requires
        call_ensures(FlowTable::<F>::new, (), table),
        old(removing).slots@ == table.slots@,
        call_ensures(FlowTable::<F>::remove_flow, (removing, handle), taken),
    ensures
        taken is None,
{
}

/// An open or a request that could not even be started has failed: asked again, the caller is
/// told so, once.
pub proof fn law_what_was_not_started_has_failed<P>(
    opening: &mut OpenState,
    operation: OpenOperation,
    opened: FfiStatus,
    requesting: &mut AcceptState<P>,
    replay: bool,
    requested: FfiStatus,
    deciding: &mut AcceptState<P>,
    handle: u64,
    decided: FfiStatus,
)
    requires
        call_ensures(OpenState::open_not_started, (opening, operation), opened),
        call_ensures(AcceptState::<P>::request_not_started, (requesting, replay), requested),
        call_ensures(AcceptState::<P>::decision_not_started, (deciding, handle), decided),
    ensures
        opened is Failed && final(opening)@ == OpenProgress::Failed(operation@),
        requested is Failed && *final(requesting) == AcceptState::<P>::ReceiveFailed(replay),
        decided is Failed && *final(deciding) == AcceptState::<P>::ResolveFailed(handle),
{
}

/// An open is known again by its host, its port and its early data: token, number and bytes.
pub proof fn law_open_is_known_by_all_it_says(
    active: OpenOperation,
    host: &str,
    port: u16,
    replay: Option<ReplayInput>,
    same: bool,
    shared: OpenOperation,
)
    requires
        call_ensures(open::open_matches, (&active, host, port, replay), same),
        call_ensures(OpenOperation::share, (&active,), shared),
    ensures
        shared@ == active@,
        same ==> active.host@ == host@ && active.port == port && (active.replay is Some <==> replay is Some),
        same && active.replay is Some ==> active.replay->0.token@ == replay->0.token@ && active.replay->0.nonce
            == replay->0.nonce && crate::storage::contents(active.replay->0.initial) == replay->0.initial@,
        active.host@ == host@ && active.port == port && active.replay is None && replay is None ==> same,
        active.host@ == host@ && active.port == port && (active.replay is Some && replay is Some
            && active.replay->0.token@ == replay->0.token@ && active.replay->0.nonce == replay->0.nonce
            && crate::storage::contents(active.replay->0.initial) == replay->0.initial@) ==> same,
{
}

/// An engine is made from a configuration and, where it has one, TLS material, into a place of
/// its own: all of them valid, and none overlapping another.
pub proof fn law_engine_is_made_in_a_place_of_its_own(
    config: Pointer,
    tls: Pointer,
    output: Pointer,
    plain: bool,
    secured: bool,
    owner: Pointer,
    present: Pointer,
    elapsed: Pointer,
    timer: bool,
)
    requires
        config.align > 0 && tls.align > 0 && output.align > 0 && present.align > 0 && elapsed.align > 0,
        call_ensures(engine::check_create, (config, output), plain),
        call_ensures(engine::check_create_tls, (config, tls, output), secured),
        call_ensures(engine::check_timer_outputs, (owner, present, elapsed), timer),
    ensures
        plain <==> config.address != 0 && config.address % config.align == 0 && output.address != 0 && output.address
            % output.align == 0 && memory::apart(config.region(), output.region()),
        secured <==> plain && tls.address != 0 && tls.address % tls.align == 0 && memory::apart(
            config.region(),
            tls.region(),
        ) && memory::apart(tls.region(), output.region()),
        timer <==> present.address != 0 && present.address % present.align == 0 && elapsed.address != 0
            && elapsed.address
            % elapsed.align == 0 && memory::apart(owner.region(), present.region()) && memory::apart(
            owner.region(),
            elapsed.region(),
        ) && memory::apart(present.region(), elapsed.region()),
{
}

/// TLS material makes a client where it names a server, and a server where it names none; all
/// files are named by absolute paths, and any other role is refused.
pub proof fn law_tls_material_fits_the_role(
    role: u32,
    server_name: String,
    ca: FilePath,
    certificate: FilePath,
    key: FilePath,
    result: Result<FfiSecurity, FfiStatus>,
)
    requires
        call_ensures(types::ffi_security, (role, server_name, ca, certificate, key), result),
    ensures
        ({
            let absolute = ca.absolute && certificate.absolute && key.absolute;
            &&& result is Ok <==> absolute && (role == 1 && server_name@.len() > 0 || role == 2
                && server_name@.len() == 0)
            &&& result matches Ok(security) ==> (role == 1 ==> security is ClientTls) && (role == 2
                ==> security is ServerTls)
            &&& result matches Err(status) ==> status == FfiStatus::InvalidArgument
        }),
{
}

/// Security that belongs to the other role starts no endpoint; an insecure one is started as
/// insecure by choice, and a secured one never is.
pub proof fn law_endpoint_has_the_security_of_its_role(
    role: FfiRole,
    mode: RecoveryMode,
    security: FfiSecurity,
    paths: Vec<PathAddresses>,
    result: Result<EndpointPlan, FfiStatus>,
)
    requires
        call_ensures(engine::start, (role, mode, security, &paths), result),
    ensures
        role is Client && security is ServerTls ==> result is Err,
        role is Server && security is ClientTls ==> result is Err,
        result matches Ok(EndpointPlan::Client(config)) ==> role is Client && (config@.allow_insecure
            <==> security is Insecure) && config@.transport.recovery.mode == mode && config@.multipath.candidates.len()
            == paths@.len(),
        result matches Ok(EndpointPlan::Server(config)) ==> role is Server && (config@.allow_insecure
            <==> security is Insecure) && config@.transport.recovery.mode == mode && config@.listen_addrs.len()
            == paths@.len(),
        result matches Err(status) ==> status == FfiStatus::InvalidArgument,
{
}

/// An engine that was made is connecting, has one socket for each path between its addresses,
/// and no flow, open or request yet.
pub proof fn law_new_engine_is_connecting<F, P>(
    config: FfiEngineConfig,
    security: FfiSecurity,
    made: FfiEngine<F, P>,
    plan: EndpointPlan,
    index: int,
)
    requires
        call_ensures(
            FfiEngine::<F, P>::new,
            (&config, security),
            Ok::<(FfiEngine<F, P>, EndpointPlan), FfiStatus>((made, plan)),
        ),
        0 <= index < config.path_count,
    ensures
        made.connection is Connecting,
        made.sockets@.len() == config.path_count,
        made.sockets@[index]@.capacity == config.packet_capacity && made.sockets@[index]@.mtu == config.mtu,
        types::socket_of(config.paths@[index].local) == Some(made.sockets@[index]@.local),
        types::socket_of(config.paths@[index].peer) == Some(made.sockets@[index]@.peer),
        made.flows.slots@.len() == 0 && made.open@ == OpenProgress::Idle && made.accept == AcceptState::<P>::Idle,
        made.role is Client <==> config.role == 1,
{
    assert(engine::path_accepted(config.paths@[index]));
    let settings = choose|settings: engine::EngineSettings| #[trigger]
        engine::settings_of(config, settings) && engine::planned(
            settings.role,
            settings.recovery_mode,
            security,
            settings.paths@,
            Ok::<EndpointPlan, FfiStatus>(plan),
        ) && made.role == settings.role && engine::fresh_sockets(
            made.sockets@,
            settings.paths@,
            settings.capacity as int,
            settings.mtu as int,
        );
    assert(made.sockets@[index]@.local == settings.paths@[index].local);
}

/// What a request is told goes into six places of the caller's, each valid, none overlapping
/// another or the engine; a buffer of no length is not looked at.
pub proof fn law_request_is_told_into_places_of_its_own(
    outputs: RequestOutputs,
    owner: Pointer,
    valid: bool,
)
    requires
        outputs.wf(),
        call_ensures(RequestOutputs::check, (&outputs, owner), valid),
    ensures
        valid ==> {
            &&& outputs.request.address != 0 && outputs.host_length.address != 0 && outputs.port.address != 0
                && outputs.initial_length.address != 0
            &&& memory::apart(outputs.request.region(), outputs.port.region())
            &&& memory::apart(outputs.request.region(), outputs.host_length.region())
            &&& memory::apart(outputs.request.region(), outputs.initial_length.region())
            &&& memory::apart(outputs.host_length.region(), outputs.port.region())
            &&& memory::apart(outputs.host_length.region(), outputs.initial_length.region())
            &&& memory::apart(outputs.port.region(), outputs.initial_length.region())
            &&& memory::apart(owner.region(), outputs.request.region())
            &&& memory::apart(owner.region(), outputs.port.region())
            &&& outputs.host.length != 0 ==> outputs.host.address != 0 && memory::apart(
                owner.region(),
                outputs.host.region(),
            ) && memory::apart(outputs.request.region(), outputs.host.region())
            &&& outputs.initial.length != 0 ==> outputs.initial.address != 0 && memory::apart(
                owner.region(),
                outputs.initial.region(),
            ) && memory::apart(outputs.request.region(), outputs.initial.region())
            &&& outputs.host.length != 0 && outputs.initial.length != 0 ==> memory::apart(
                outputs.host.region(),
                outputs.initial.region(),
            )
        },
{
    if valid {
        let regions = outputs.regions(owner);
        assert(regions[0] == owner.region());
        assert(regions[1] == outputs.request.region());
        assert(regions[2] == outputs.host_length.region());
        assert(regions[3] == outputs.port.region());
        assert(regions[4] == outputs.initial_length.region());
        assert(memory::apart(regions[1], regions[3]) && memory::apart(regions[1], regions[2]) && memory::apart(
            regions[1],
            regions[4],
        ) && memory::apart(regions[2], regions[3]) && memory::apart(regions[2], regions[4]) && memory::apart(
            regions[3],
            regions[4],
        ) && memory::apart(regions[0], regions[1]) && memory::apart(regions[0], regions[3]));
        if outputs.host.length != 0 {
            assert(regions[5] == outputs.host.region());
            assert(memory::apart(regions[0], regions[5]) && memory::apart(regions[1], regions[5]));
            if outputs.initial.length != 0 {
                assert(regions[6] == outputs.initial.region());
                assert(memory::apart(regions[0], regions[6]) && memory::apart(regions[1], regions[6]) && memory::apart(
                    regions[5],
                    regions[6],
                ));
            }
        } else if outputs.initial.length != 0 {
            assert(regions[5] == outputs.initial.region());
            assert(memory::apart(regions[0], regions[5]) && memory::apart(regions[1], regions[5]));
        }
    }
}

/// The place of a flow that was closed is used again: a table with such a place does not grow
/// when a flow is put in.
pub proof fn law_places_of_closed_flows_are_used_again<F>(table: &mut FlowTable<F>, handle: u64, flow: F, free: int)
    requires
        0 <= free < old(table).slots@.len(),
        old(table).slots@[free].flow is None,
        call_ensures(FlowTable::<F>::insert_flow, (table, handle, flow), ()),
    ensures
        final(table).slots@.len() == old(table).slots@.len(),
{
    lemma_free_place(old(table).slots@, old(table).slots@.len() as int, free);
}

proof fn lemma_free_place<F>(slots: Seq<FlowSlot<F>>, end: int, free: int)
    requires
        0 <= free < end <= slots.len(),
        slots[free].flow is None,
    ensures
        flows::free_place(slots, end) matches Some(at) && 0 <= at < end,
    decreases end,
{
    if free < end - 1 {
        lemma_free_place(slots, end - 1, free);
    } else {
        lemma_free_place_lies_within(slots, end - 1);
    }
}

proof fn lemma_free_place_lies_within<F>(slots: Seq<FlowSlot<F>>, end: int)
    ensures
        flows::free_place(slots, end) matches Some(at) ==> 0 <= at < end,
    decreases end,
{
    if end > 0 {
        lemma_free_place_lies_within(slots, end - 1);
    }
}

} // verus!
