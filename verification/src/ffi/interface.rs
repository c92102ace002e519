//! What a caller of the interface can rely on, over one call and over several.
use crate::address::{IpAddress, SocketAddress};
use crate::config::transport::RecoveryMode;
use crate::endian;
use crate::ffi::accept;
use crate::ffi::accept::{AcceptState, DecisionStep, Offer, RequestStep};
use crate::ffi::engine;
use crate::ffi::engine::{DriveReport, EgressReport, EngineSettings, FfiEngine, FlowPoll};
use crate::ffi::flows;
use crate::ffi::flows::FlowTable;
use crate::ffi::memory;
use crate::ffi::memory::{Buffer, Pointer, Region};
use crate::ffi::open;
use crate::ffi::open::{OpenInput, OpenOperation, OpenProgress, OpenReply, OpenState, OpenStep};
use crate::ffi::state::ConnectionState;
use crate::ffi::types;
use crate::ffi::types::{FfiBytes, FfiEngineConfig, FfiRecoveryMode, FfiRole, FfiSocketAddress, FfiStatus};
use crate::host_carrier::Wakes;
use crate::host_runtime::{HostRuntime, HostRuntimeError};
use crate::host_schedule;
use vstd::prelude::*;

verus! {

// ---------------------------------------------------------------------------
// Values
// ---------------------------------------------------------------------------

/// Every status has a number of its own, from 0 for what is completed to 7 for a failure.
pub proof fn law_status_numbers_are_distinct(left: FfiStatus, right: FfiStatus, code: u32, other: u32)
    requires
        call_ensures(FfiStatus::code, (left,), code),
        call_ensures(FfiStatus::code, (right,), other),
    ensures
        code == other <==> left == right,
        code <= 7,
        code == 0 <==> left is Completed,
        code == 1 <==> left is WouldBlock,
        code == 2 <==> left is BufferTooSmall,
        code == 3 <==> left is InvalidArgument,
        code == 4 <==> left is NotReady,
        code == 5 <==> left is Closed,
        code == 6 <==> left is Panic,
        code == 7 <==> left is Failed,
{
}

/// Roles and recovery modes are numbered from 1, and no other number stands for one; a number
/// that was given reads back.
pub proof fn law_numbers_of_roles_and_modes_read_back(
    role: FfiRole,
    number: u32,
    read: Option<FfiRole>,
    code: u32,
    found: Option<FfiRole>,
    mode: Option<RecoveryMode>,
    adaptive: u32,
)
    requires
        call_ensures(FfiRole::code, (role,), number),
        call_ensures(FfiRole::from_code, (number,), read),
        call_ensures(FfiRole::from_code, (code,), found),
        call_ensures(types::recovery_from_code, (code,), mode),
        call_ensures(FfiRecoveryMode::code, (FfiRecoveryMode::Adaptive,), adaptive),
    ensures
        read == Some(role),
        number == 1 <==> role is Client,
        number == 2 <==> role is Server,
        found is Some <==> 1 <= code <= 2,
        mode is Some <==> 1 <= code <= 2,
        mode == Some(RecoveryMode::Adaptive) <==> code == 1,
        mode == Some(RecoveryMode::ReliableOnly) <==> code == 2,
        adaptive == 1,
{
}

/// An address is read where its port is not zero, its reserved field is, and its family is 4 or
/// 6; one of family 4 has its address in the first four bytes and zeros behind them.
pub proof fn law_socket_address_is_read_by_its_family(given: FfiSocketAddress, read: Option<SocketAddress>)
    requires
        call_ensures(FfiSocketAddress::get, (&given,), read),
    ensures
        given.port == 0 || given.reserved != 0 || given.family != 4 && given.family != 6 ==> read is None,
        given.port != 0 && given.reserved == 0 && given.family == 6 ==> (read matches Some(found) && found.port
            == given.port && found.ip == IpAddress::V6(endian::be128_at(given.address@, 0))),
        given.port != 0 && given.reserved == 0 && given.family == 4 ==> {
            if forall|at: int| 4 <= at < 16 ==> #[trigger] given.address@[at] == 0 {
                read matches Some(found) && found.port == given.port && found.ip == IpAddress::V4(
                    endian::be32_at(given.address@, 0),
                )
            } else {
                read is None
            }
        },
        read matches Some(found) ==> found.flow_info == 0 && found.scope_id == 0,
{
}

/// Text is read where it is UTF-8, not longer than 4096 bytes and not empty, unless it may be;
/// and the caller's memory is read for exactly that many bytes.
pub proof fn law_text_is_bounded(
    value: FfiBytes,
    bytes: &[u8],
    allow_empty: bool,
    result: Result<String, FfiStatus>,
    length: usize,
)
    requires
        call_ensures(types::readable_bytes, (value,), length),
        bytes@.len() == length,
        call_ensures(types::ffi_string, (value, bytes, allow_empty), result),
    ensures
        length <= 4096,
        value.data == 0 || value.length > 4096 ==> length == 0,
        value.data != 0 && value.length <= 4096 ==> length == value.length,
        value.length == 0 ==> (result is Ok <==> allow_empty),
        value.length > 0 ==> (result is Ok <==> value.data != 0 && value.length <= 4096
            && vstd::utf8::valid_utf8(bytes@)),
        result matches Err(status) ==> status == FfiStatus::InvalidArgument,
{
}

/// A configuration is accepted exactly where it has version 3, a role and a recovery mode, one
/// or two paths between addresses of one family, queues of 1 to 4096 packets of 1200 to 65527
/// bytes, and no more than 64 MiB for all queues together.
pub proof fn law_configuration_is_bounded(config: FfiEngineConfig, result: Result<EngineSettings, FfiStatus>)
    requires
        call_ensures(engine::read_config, (&config,), result),
    ensures
        result is Ok <==> {
            &&& config.abi_version == 3
            &&& 1 <= config.role <= 2
            &&& 1 <= config.recovery_mode <= 2
            &&& 1 <= config.path_count <= 2
            &&& 1 <= config.packet_capacity <= 4096
            &&& 1200 <= config.mtu <= 65527
            &&& config.path_count * 2 * config.packet_capacity * config.mtu <= 67_108_864
            &&& forall|at: int| 0 <= at < config.path_count ==> engine::path_accepted(#[trigger] config.paths@[at])
        },
        result matches Ok(settings) ==> {
            &&& settings.role is Client <==> config.role == 1
            &&& settings.recovery_mode is Adaptive <==> config.recovery_mode == 1
            &&& settings.capacity == config.packet_capacity
            &&& settings.mtu == config.mtu
            &&& settings.paths@.len() == config.path_count
        },
        result matches Err(status) ==> status == FfiStatus::InvalidArgument,
{
    assert(67_108_864 == 64 * 1024 * 1024);
}

// ---------------------------------------------------------------------------
// Memory
// ---------------------------------------------------------------------------

/// Two regions are told apart exactly where both end within the address space and no address
/// lies in both, for regions that are not empty.
pub proof fn law_regions_are_told_apart(left: Region, right: Region, apart: bool, address: int)
    requires
        left.size * left.count > 0,
        right.size * right.count > 0,
        call_ensures(memory::disjoint, (left, right), apart),
    ensures
        apart ==> !(left.address <= address < left.address + left.size * left.count && right.address <= address
            < right.address + right.size * right.count),
        apart ==> left.address + left.size * left.count <= usize::MAX && right.address + right.size * right.count
            <= usize::MAX,
        left.address + left.size * left.count <= right.address && right.address + right.size * right.count <= usize::MAX
            ==> apart,
        right.address + right.size * right.count <= left.address && left.address + left.size * left.count <= usize::MAX
            ==> apart,
{
}

/// A pointer is valid where it is not null and aligned; an output beside it must not overlap
/// the engine.
pub proof fn law_pointers_are_aligned(pointer: Pointer, valid: bool, owner: Pointer, usable: bool)
    requires
        pointer.align > 0,
        call_ensures(memory::valid_mut, (pointer,), valid),
        call_ensures(memory::valid_engine_output, (owner, pointer), usable),
    ensures
        valid <==> pointer.address != 0 && pointer.address % pointer.align == 0,
        usable ==> valid,
        usable <==> valid && memory::apart(owner.region(), pointer.region()),
{
}

/// A transfer takes a buffer that is neither null nor empty, and an output that is valid; the
/// engine, the buffer and the output must not overlap.
pub proof fn law_transfers_do_not_overlap(owner: Pointer, buffer: Buffer, output: Pointer, valid: bool, input: bool)
    requires
        output.align > 0,
        call_ensures(memory::valid_transfer, (owner, buffer, output), valid),
        call_ensures(engine::check_input, (owner, buffer), input),
    ensures
        valid <==> {
            &&& buffer.address != 0
            &&& buffer.length != 0
            &&& output.address != 0 && output.address % output.align == 0
            &&& memory::apart(owner.region(), output.region())
            &&& memory::apart(owner.region(), buffer.region())
            &&& memory::apart(output.region(), buffer.region())
        },
        input <==> buffer.address != 0 && buffer.length != 0 && memory::apart(owner.region(), buffer.region()),
{
    let regions = seq![owner.region(), output.region(), buffer.region()];
    assert(regions[0] == owner.region() && regions[1] == output.region() && regions[2] == buffer.region());
    if memory::apart(regions[0], regions[1]) && memory::apart(regions[0], regions[2]) && memory::apart(
        regions[1],
        regions[2],
    ) {
        assert(memory::all_apart(regions));
    }
}

/// An engine is closed through a valid owner; one that is closed already is told so, and one
/// that overlaps its owner is refused.
pub proof fn law_engine_is_closed_through_its_owner(owner: Pointer, held: Pointer, refusal: Option<FfiStatus>)
    requires
        owner.align > 0,
        held.align > 0,
        call_ensures(engine::check_close, (owner, held), refusal),
    ensures
        owner.address == 0 || owner.address % owner.align != 0 ==> refusal == Some(FfiStatus::InvalidArgument),
        owner.address != 0 && owner.address % owner.align == 0 && held.address == 0 ==> refusal == Some(
            FfiStatus::Closed,
        ),
        refusal is None <==> owner.address != 0 && owner.address % owner.align == 0 && held.address != 0 && held.address
            % held.align == 0 && memory::apart(owner.region(), held.region()),
{
}

// ---------------------------------------------------------------------------
// The engine
// ---------------------------------------------------------------------------

/// A drive that went well tells how many tasks it polled; a task that panicked fails the engine
/// for good, and closes a connection that was ready; a closed runtime is told as closed, and
/// every other error as the caller's.
pub proof fn law_drive_is_reported<F, P>(
    driven: &mut FfiEngine<F, P>,
    outcome: Result<usize, HostRuntimeError>,
    report: DriveReport,
    status: FfiStatus,
)
    requires
        call_ensures(FfiEngine::<F, P>::after_drive, (driven, outcome), report),
        call_ensures(FfiEngine::<F, P>::connection_state, (&*final(driven), false), status),
    ensures
        outcome matches Ok(count) ==> report.status is Completed && (count <= 0xffff_ffff ==> report.processed == Some(
            count as u32,
        )) && !report.close && final(driven).connection == old(driven).connection,
        outcome == Err::<usize, HostRuntimeError>(HostRuntimeError::TaskPanicked) ==> report.status is Failed && status
            is Failed && (report.close <==> old(driven).connection is Ready),
        outcome == Err::<usize, HostRuntimeError>(HostRuntimeError::Closed) ==> report.status is Closed
            && final(driven).connection == old(driven).connection,
        outcome is Err && outcome->Err_0 != HostRuntimeError::TaskPanicked && outcome->Err_0 != HostRuntimeError::Closed
            ==> report.status is InvalidArgument && final(driven).connection == old(driven).connection,
        outcome is Err ==> report.processed is None,
        final(driven).sockets == old(driven).sockets && final(driven).runtime == old(driven).runtime
            && final(driven).role == old(driven).role,
{
}

/// A connection is waited for, then ready or failed for good; a ready one whose peer is gone
/// is failed.
pub proof fn law_connection_is_reported<F, P>(
    connected: &mut FfiEngine<F, P>,
    established: bool,
    closed: bool,
    before: FfiStatus,
    status: FfiStatus,
)
    requires
        old(connected).connection is Connecting,
        call_ensures(FfiEngine::<F, P>::connection_state, (&*old(connected), closed), before),
        call_ensures(FfiEngine::<F, P>::finish_connect, (connected, established), ()),
        call_ensures(FfiEngine::<F, P>::connection_state, (&*final(connected), closed), status),
    ensures
        before is WouldBlock,
        status is Completed <==> established && !closed,
        status is Failed <==> !established || closed,
{
}

/// The next timer is told in nanoseconds, as far as they can be counted, with a flag that says
/// whether there is one.
pub proof fn law_next_timer_is_told_in_nanoseconds<F, P>(
    asked: &FfiEngine<F, P>,
    report: (u32, u64),
    next: Option<crate::config::duration::Duration>,
)
    requires
        call_ensures(FfiEngine::<F, P>::next_timer, (asked,), report),
        call_ensures(HostRuntime::next_timer, (&asked.runtime,), next),
    ensures
        next is None ==> report == (0u32, 0u64),
        next matches Some(deadline) ==> {
            let time = host_schedule::nanoseconds(deadline);
            &&& report.0 == 1
            &&& time <= 0xffff_ffff_ffff_ffff ==> report.1 == time
            &&& time > 0xffff_ffff_ffff_ffff ==> report.1 == 0xffff_ffff_ffff_ffff
        },
{
}

/// A datagram that comes in on a path goes to that path alone, and is what it will receive;
/// where the queue of the path is full the caller is asked to come again, and a path that does
/// not exist is the caller's mistake.
pub proof fn law_datagram_enters_its_path<F, P>(
    entered: &mut FfiEngine<F, P>,
    path: u32,
    packet: &[u8],
    report: (FfiStatus, bool),
    other: int,
)
    requires
        call_ensures(FfiEngine::<F, P>::ingress, (entered, path, packet), report),
    ensures
        path >= old(entered).sockets@.len() ==> report == (FfiStatus::InvalidArgument, false)
            && *final(entered) == *old(entered),
        path < old(entered).sockets@.len() ==> {
            let before = old(entered).sockets@[path as int]@;
            let after = final(entered).sockets@[path as int]@;
            &&& report.0 is Completed <==> !before.unavailable && 0 < packet@.len() <= before.mtu
                && before.ingress.len()
                < before.capacity
            &&& report.0 is Completed ==> after.ingress == before.ingress.push(packet@)
                && report.1 == before.receiver_waits
            &&& report.0 is WouldBlock <==> !before.unavailable && 0 < packet@.len() <= before.mtu
                && before.ingress.len() >= before.capacity
            &&& !(report.0 is Completed) ==> after == before && !report.1
            &&& report.0 is Completed || report.0 is WouldBlock || report.0 is InvalidArgument
        },
        0 <= other < old(entered).sockets@.len() && other != path
            ==> final(entered).sockets@[other] == old(entered).sockets@[other],
        final(entered).sockets@.len() == old(entered).sockets@.len(),
{
}

/// A datagram that leaves on a path is the oldest that waits there, whole; without one the
/// caller is asked to come again, and a buffer that is too small is told how much is needed.
pub proof fn law_datagram_leaves_its_path<F, P>(
    left: &mut FfiEngine<F, P>,
    path: u32,
    output: &mut [u8],
    report: EgressReport,
    other: int,
)
    requires
        path < old(left).sockets@.len(),
        call_ensures(FfiEngine::<F, P>::egress, (left, path, output), report),
    ensures
        ({
            let before = old(left).sockets@[path as int]@;
            let after = final(left).sockets@[path as int]@;
            &&& before.unavailable ==> report.status is Failed
            &&& !before.unavailable && before.egress.len() == 0 ==> report.status is WouldBlock && report.length is None
            &&& !before.unavailable && before.egress.len() > 0 ==> {
                let packet = before.egress[0];
                if packet.len() <= old(output)@.len() {
                    &&& report.status is Completed
                    &&& packet.len() <= 0xffff_ffff ==> report.length == Some(packet.len() as u32)
                    &&& final(output)@.take(packet.len() as int) == packet
                    &&& after.egress == before.egress.skip(1)
                    &&& report.wake == before.sender_waits
                } else {
                    &&& report.status is BufferTooSmall
                    &&& packet.len() <= 0xffff_ffff ==> report.length == Some(packet.len() as u32)
                    &&& after == before
                }
            }
        }),
        0 <= other < old(left).sockets@.len() && other != path
            ==> final(left).sockets@[other] == old(left).sockets@[other],
{
    assert(old(output).len() == old(output)@.len());
    let before = old(left).sockets@[path as int]@;
    if !before.unavailable && before.egress.len() > 0 && before.egress[0].len() <= old(output)@.len() {
        let packet = before.egress[0];
        assert((packet + old(output)@.skip(packet.len() as int)).take(packet.len() as int) =~= packet);
    }
}

/// A path that is withdrawn is down from then on, wakes whoever waits on it, and leaves the
/// other paths as they are.
pub proof fn law_withdrawn_path_is_down<F, P>(
    changed: &mut FfiEngine<F, P>,
    path: u32,
    report: (FfiStatus, Wakes),
    other: int,
)
    requires
        call_ensures(FfiEngine::<F, P>::path_unavailable, (changed, path), report),
    ensures
        report.0 is Completed <==> path < old(changed).sockets@.len(),
        path < old(changed).sockets@.len() ==> final(changed).sockets@[path as int]@.unavailable
            && (!old(changed).sockets@[path as int]@.unavailable
            ==> report.1.receiver == old(changed).sockets@[path as int]@.receiver_waits
            && report.1.sender == old(changed).sockets@[path as int]@.sender_waits),
        path >= old(changed).sockets@.len() ==> report.0 is InvalidArgument && *final(changed) == *old(changed),
        0 <= other < old(changed).sockets@.len() && other != path
            ==> final(changed).sockets@[other] == old(changed).sockets@[other],
{
}

/// Early data is admitted by a server alone, with a secret of 32 to 4096 bytes, once; a token
/// is handed out only then, and only on a connection that is ready.
pub proof fn law_early_data_is_admitted_once<F, P>(
    first: &mut FfiEngine<F, P>,
    accepted: bool,
    status: FfiStatus,
    second: &mut FfiEngine<F, P>,
    status_then: FfiStatus,
    owner: Pointer,
    secret: Buffer,
    usable: bool,
    output: Buffer,
    length: Pointer,
    refusal: Option<FfiStatus>,
)
    requires
        length.align > 0,
        call_ensures(FfiEngine::<F, P>::check_replay_secret, (&*old(first), owner, secret), usable),
        call_ensures(FfiEngine::<F, P>::configure_replay_admission, (first, accepted), status),
        *old(second) == *final(first),
        call_ensures(FfiEngine::<F, P>::configure_replay_admission, (second, true), status_then),
        call_ensures(FfiEngine::<F, P>::check_token, (&*final(first), owner, output, length), refusal),
    ensures
        usable ==> old(first).role is Server && 32 <= secret.length <= 4096 && secret.address != 0,
        old(first).role is Server && 32 <= secret.length <= 4096 && secret.address != 0 && memory::apart(
            owner.region(),
            secret.region(),
        ) ==> usable,
        status is Completed <==> accepted && !old(first).replay_admission,
        status is Completed ==> status_then is InvalidArgument,
        refusal is None ==> final(first).replay_admission && final(first).connection is Ready
            && final(first).role is Server,
        final(first).role is Client || !final(first).replay_admission ==> refusal == Some(FfiStatus::InvalidArgument),
        refusal == Some(FfiStatus::NotReady) ==> !(final(first).connection is Ready),
{
}

/// A token is copied where it fits, and its length is told either way.
pub proof fn law_token_is_copied_where_it_fits(token: &[u8], output: &mut [u8], report: (FfiStatus, Option<u32>))
    requires
        token@.len() <= 0xffff_ffff,
        call_ensures(engine::tell_token, (token, output), report),
    ensures
        report.1 == Some(token@.len() as u32),
        report.0 is Completed <==> token@.len() <= old(output)@.len(),
        report.0 is BufferTooSmall <==> token@.len() > old(output)@.len(),
        token@.len() <= old(output)@.len() ==> final(output)@.take(token@.len() as int) == token@,
        token@.len() > old(output)@.len() ==> final(output)@ == old(output)@,
{
    if token@.len() <= old(output)@.len() {
        assert((token@ + old(output)@.skip(token@.len() as int)).take(token@.len() as int) =~= token@);
    }
}

/// What a flow answered is told: how many bytes, that it failed, that the caller should come
/// again, or that there is no such flow.
pub proof fn law_flow_answers_are_told(
    answer: Option<FlowPoll>,
    report: (FfiStatus, Option<u32>),
    reset: Option<bool>,
    status: FfiStatus,
    length: usize,
    told: u32,
)
    requires
        call_ensures(engine::report_flow, (answer,), report),
        call_ensures(engine::report_close, (reset,), status),
        call_ensures(accept::tell_length, (length,), told),
    ensures
        answer is None ==> report.0 is Closed && report.1 is None,
        answer matches Some(FlowPoll::Ready(count)) ==> report.0 is Completed && (count <= 0xffff_ffff ==> report.1
            == Some(count as u32)),
        answer matches Some(FlowPoll::Failed) ==> report.0 is Failed && report.1 is None,
        answer matches Some(FlowPoll::Pending) ==> report.0 is WouldBlock && report.1 is None,
        status is Closed <==> reset is None,
        status is Completed <==> reset == Some(true),
        status is Failed <==> reset == Some(false),
        length <= 0xffff_ffff ==> told == length,
        length > 0xffff_ffff ==> told == 0xffff_ffff,
{
}

// ---------------------------------------------------------------------------
// Opening
// ---------------------------------------------------------------------------

/// An open that began is waited for, answered once with its own handle, and then forgotten; it
/// is known again by its host, its port and its early data, and by nothing less.
pub proof fn law_open_is_answered_once_with_its_handle<F>(
    beginning: &mut OpenState,
    connection: ConnectionState,
    input: OpenInput,
    canonical: Option<String>,
    token_accepted: bool,
    begun: OpenStep,
    waiting: &mut OpenState,
    waited: OpenStep,
    finishing: &mut OpenState,
    table: &mut FlowTable<F>,
    operation: OpenOperation,
    handle: u64,
    flow: F,
    asking: &mut OpenState,
    answered: OpenStep,
)
    requires
        old(beginning)@ == OpenProgress::Idle,
        canonical matches Some(host) && host@ == vstd::utf8::decode_utf8(input.host@),
        call_ensures(
            OpenState::poll_open,
            (beginning, FfiRole::Client, connection, input, false, canonical, token_accepted),
            begun,
        ),
        begun@ is Begin,
        begun@->Begin_0 == operation@,
        old(waiting)@ == final(beginning)@,
        call_ensures(
            OpenState::poll_open,
            (waiting, FfiRole::Client, connection, input, false, canonical, token_accepted),
            waited,
        ),
        old(finishing)@ == final(waiting)@,
        call_ensures(OpenState::finish_open::<F>, (finishing, table, operation, Some((handle, flow))), ()),
        old(asking)@ == final(finishing)@,
        call_ensures(
            OpenState::poll_open,
            (asking, FfiRole::Client, connection, input, false, canonical, token_accepted),
            answered,
        ),
    ensures
        connection is Ready,
        input.port != 0,
        waited@ == OpenReply::Answer(FfiStatus::WouldBlock),
        answered@ == OpenReply::Opened(handle),
        final(asking)@ == OpenProgress::Idle,
        input.replay is Some ==> token_accepted,
{
}

/// An open of something else while one is under way is the caller's mistake, and so is an open
/// by a server, of a port zero, or of a host that is no text; none of them changes anything.
pub proof fn law_other_opens_are_refused(
    asked: &mut OpenState,
    role: FfiRole,
    connection: ConnectionState,
    input: OpenInput,
    closed: bool,
    canonical: Option<String>,
    token_accepted: bool,
    step: OpenStep,
)
    requires
        call_ensures(
            OpenState::poll_open,
            (asked, role, connection, input, closed, canonical, token_accepted),
            step,
        ),
        ({
            ||| role is Server
            ||| input.port == 0
            ||| !vstd::utf8::valid_utf8(input.host@)
            ||| old(asked)@ matches OpenProgress::Pending(active) && active.port != input.port
            ||| old(asked)@ matches OpenProgress::Ready(active, _) && active.port != input.port
            ||| old(asked)@ matches OpenProgress::Pending(active) && active.host != vstd::utf8::decode_utf8(input.host@)
            ||| old(asked)@ matches OpenProgress::Ready(active, _)
                && active.host != vstd::utf8::decode_utf8(input.host@)
        }),
    ensures
        step@ == OpenReply::Answer(FfiStatus::InvalidArgument),
        final(asked)@ == old(asked)@,
{
}

/// An idle client opens only on a connection that is ready and not closed: before that it is
/// told that it is not ready, and afterwards that it failed.
pub proof fn law_open_needs_a_ready_connection(
    asked: &mut OpenState,
    connection: ConnectionState,
    input: OpenInput,
    closed: bool,
    canonical: Option<String>,
    token_accepted: bool,
    step: OpenStep,
)
    requires
        old(asked)@ == OpenProgress::Idle,
        input.port != 0,
        vstd::utf8::valid_utf8(input.host@),
        call_ensures(
            OpenState::poll_open,
            (asked, FfiRole::Client, connection, input, closed, canonical, token_accepted),
            step,
        ),
    ensures
        connection is Connecting ==> step@ == OpenReply::Answer(FfiStatus::NotReady),
        connection is Failed || connection is Ready && closed ==> step@ == OpenReply::Answer(FfiStatus::Failed),
        connection is Ready && !closed && canonical is Some && (input.replay is None || token_accepted)
            ==> step@ is Begin
            && step@->Begin_0.host == canonical->0@ && step@->Begin_0.port == input.port,
        connection is Ready && !closed && (canonical is None || input.replay is Some && !token_accepted) ==> step@
            == OpenReply::Answer(FfiStatus::InvalidArgument),
{
}

/// Early data at an opening has between one byte and 32 KiB.
pub proof fn law_early_bytes_are_bounded(
    owner: Pointer,
    token: Buffer,
    token_bytes: usize,
    host: Buffer,
    max_host: usize,
    initial: Buffer,
    flow: Pointer,
    valid: bool,
    plain: bool,
)
    requires
        flow.align > 0,
        call_ensures(open::check_replay_open, (owner, token, token_bytes, host, max_host, initial, flow), valid),
        call_ensures(open::check_open, (owner, host, max_host, flow), plain),
    ensures
        valid ==> plain && 1 <= initial.length <= 32768 && initial.address != 0 && token.length == token_bytes
            && token.address != 0,
        plain && token.address != 0 && token.length == token_bytes && initial.address != 0 && 1 <= initial.length
            <= 32768 && memory::apart(token.region(), flow.region()) && memory::apart(initial.region(), flow.region())
            ==> valid,
        plain ==> 1 <= host.length <= max_host && host.address != 0,
{
    assert(32768 == 32 * 1024);
}

// ---------------------------------------------------------------------------
// Accepting
// ---------------------------------------------------------------------------

/// A request that came is shown to whoever looks, as often as they look, with its own host,
/// port and early bytes, copied where both fit; the first decision on it is carried out.
pub proof fn law_request_is_shown_and_decided<P>(
    finishing: &mut AcceptState<P>,
    replay: bool,
    handle: u64,
    offer: Offer,
    pending: P,
    looking: &mut AcceptState<P>,
    connection: ConnectionState,
    closed: bool,
    host_output: &mut [u8],
    initial_output: &mut [u8],
    shown: RequestStep,
    deciding: &mut AcceptState<P>,
    accepting: bool,
    decided: DecisionStep<P>,
)
    requires
        handle != 0,
        offer.host@.len() <= 0xffff_ffff,
        offer.initial@.len() <= 0xffff_ffff,
        call_ensures(AcceptState::<P>::finish_request, (finishing, replay, Some((handle, offer, pending))), ()),
        *old(looking) == *final(finishing),
        call_ensures(
            AcceptState::<P>::poll_flow_request,
            (looking, FfiRole::Server, true, connection, replay, closed, host_output, initial_output),
            shown,
        ),
        *old(deciding) == *final(looking),
        call_ensures(AcceptState::<P>::poll_flow_decision, (deciding, FfiRole::Server, handle, accepting), decided),
    ensures
        shown matches RequestStep::Offered(report) && {
            &&& report.request == handle
            &&& report.port == offer.port
            &&& report.host_length == offer.host@.len()
            &&& report.initial_length == offer.initial@.len()
            &&& report.copied <==> offer.host@.len() <= old(host_output)@.len()
                && offer.initial@.len() <= old(initial_output)@.len()
            &&& report.copied ==> final(host_output)@.take(offer.host@.len() as int) == offer.host@
                && final(initial_output)@.take(offer.initial@.len() as int) == offer.initial@
        },
        *final(looking) == *old(looking),
        decided == DecisionStep::Begin(pending),
        *final(deciding) == (AcceptState::<P>::Resolving { handle, accept: accepting }),
{
    if shown matches RequestStep::Offered(report) && report.copied {
        assert(final(host_output)@.take(offer.host@.len() as int) =~= offer.host@);
        assert(final(initial_output)@.take(offer.initial@.len() as int) =~= offer.initial@);
    }
}

/// A decision that was carried out is answered once: an accepted flow with its handle, a
/// refusal as completed, and either as failed where it could not be carried out.
pub proof fn law_decision_is_answered_once<P, F>(
    accepting: &mut AcceptState<P>,
    table: &mut FlowTable<F>,
    handle: u64,
    flow_handle: u64,
    flow: F,
    asking: &mut AcceptState<P>,
    accepted: DecisionStep<P>,
    rejecting: &mut AcceptState<P>,
    sent: bool,
    asking_then: &mut AcceptState<P>,
    rejected: DecisionStep<P>,
)
    requires
        handle != 0,
        call_ensures(
            AcceptState::<P>::finish_accept::<F>,
            (accepting, table, handle, Some((flow_handle, flow))),
            (),
        ),
        *old(asking) == *final(accepting),
        call_ensures(AcceptState::<P>::poll_flow_decision, (asking, FfiRole::Server, handle, true), accepted),
        call_ensures(AcceptState::<P>::finish_reject, (rejecting, handle, sent), ()),
        *old(asking_then) == *final(rejecting),
        call_ensures(AcceptState::<P>::poll_flow_decision, (asking_then, FfiRole::Server, handle, false), rejected),
    ensures
        accepted == DecisionStep::<P>::Accepted(flow_handle),
        *final(asking) == AcceptState::<P>::Idle,
        final(table).slots@ == flows::with_flow(old(table).slots@, flow_handle, flow),
        rejected == DecisionStep::<P>::Answer(
            if sent {
                FfiStatus::Completed
            } else {
                FfiStatus::Failed
            },
        ),
        *final(asking_then) == AcceptState::<P>::Idle,
{
}

/// A server that is idle starts to wait for a request on a ready connection; a client never
/// does, and early requests are waited for only where they are admitted.
pub proof fn law_requests_are_waited_for_by_servers<P>(
    asked: &mut AcceptState<P>,
    role: FfiRole,
    admission: bool,
    connection: ConnectionState,
    replay: bool,
    closed: bool,
    host_output: &mut [u8],
    initial_output: &mut [u8],
    step: RequestStep,
)
    requires
        *old(asked) == AcceptState::<P>::Idle,
        call_ensures(
            AcceptState::<P>::poll_flow_request,
            (asked, role, admission, connection, replay, closed, host_output, initial_output),
            step,
        ),
    ensures
        role is Client || replay && !admission ==> step == RequestStep::Answer(FfiStatus::InvalidArgument),
        role is Server && (replay ==> admission) ==> {
            &&& connection is Ready && !closed ==> step is Begin && *final(asked) == AcceptState::<P>::Receiving(replay)
            &&& connection is Connecting ==> step == RequestStep::Answer(FfiStatus::NotReady)
            &&& connection is Failed || connection is Ready && closed ==> step == RequestStep::Answer(FfiStatus::Failed)
        },
        final(host_output)@ == old(host_output)@ && final(initial_output)@ == old(initial_output)@,
{
}

} // verus!
