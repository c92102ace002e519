//! The per-path carrier state.
use crate::faketcp::cookie;
use crate::endian;
use crate::faketcp::decode;
use crate::faketcp::decode::ViewModel;
use crate::faketcp::encode;
use crate::faketcp::encode::SegmentModel;
use crate::faketcp::error::CarrierError;
use crate::faketcp::flags;
use crate::faketcp::flags::TcpFlags;
use crate::faketcp::options;
use crate::faketcp::options::{DEFAULT_SYN_MSS, TcpOptions};
use crate::faketcp::packet;
use crate::faketcp::tuple;
use crate::faketcp::tuple::{CarrierDirection, FourTuple, SynDataMode};
use crate::storage;
use vstd::prelude::*;

verus! {

/// The largest datagram that fits in one carrier packet of either IP version.
pub const MAX_DATAGRAM_BYTES: usize = 65475;

/// The QUICP datagram returned by a carrier packet.
#[derive(Clone, Debug, PartialEq, Eq)]
pub struct DecodedDatagram {
    pub sequence: u32,
    pub was_syn: bool,
    pub payload: Vec<u8>,
}

/// A borrowed QUICP datagram returned while the input packet remains owned by the caller.
#[derive(Debug, PartialEq, Eq)]
pub struct BorrowedDecodedDatagram<'a> {
    pub sequence: u32,
    pub was_syn: bool,
    pub payload: &'a [u8],
}

impl DecodedDatagram {
    /// Returns the carrier sequence number used for diagnostics and ACK generation.
    pub fn sequence(&self) -> (sequence: u32)
        ensures
            sequence == self.sequence,
    {
        self.sequence
    }

    /// Returns whether the datagram arrived in a carrier SYN.
    pub fn was_syn(&self) -> (was_syn: bool)
        ensures
            was_syn == self.was_syn,
    {
        self.was_syn
    }

    /// Returns the owned QUICP datagram payload.
    pub fn payload(&self) -> (payload: &[u8])
        ensures
            payload@ == self.payload@,
    {
        self.payload.as_slice()
    }
}

impl<'a> BorrowedDecodedDatagram<'a> {
    /// Returns the carrier sequence number used for diagnostics and ACK generation.
    pub fn sequence(&self) -> (sequence: u32)
        ensures
            sequence == self.sequence,
    {
        self.sequence
    }

    /// Returns whether the datagram arrived in a carrier SYN.
    pub fn was_syn(&self) -> (was_syn: bool)
        ensures
            was_syn == self.was_syn,
    {
        self.was_syn
    }

    /// Returns the caller-owned QUICP datagram payload.
    pub fn payload(&self) -> (payload: &'a [u8])
        ensures
            payload@ == self.payload@,
    {
        self.payload
    }
}

/// One path's `FakeTCP` sequence state.
#[derive(Debug)]
pub struct FakeTcpCarrier {
    tuple: FourTuple,
    pseudo_header_prefix: u32,
    syn_data: SynDataMode,
    send_sequence: u32,
    acknowledgment: u32,
    sent_syn: bool,
    syn_mss: u16,
    outer_mtu: u16,
}

/// The content of a carrier.
pub struct CarrierModel {
    pub tuple: FourTuple,
    pub cookie: Option<Seq<u8>>,
    pub send_sequence: u32,
    pub acknowledgment: u32,
    pub sent_syn: bool,
    pub syn_mss: u16,
    pub outer_mtu: u16,
}

/// The cookie that a mode asks for.
pub open spec fn mode_cookie(mode: SynDataMode) -> Option<Seq<u8>> {
    match mode {
        SynDataMode::Disabled => None,
        SynDataMode::Cookie(bytes) => Some(bytes@),
    }
}

impl View for FakeTcpCarrier {
    type V = CarrierModel;

    closed spec fn view(&self) -> CarrierModel {
        CarrierModel {
            tuple: self.tuple,
            cookie: mode_cookie(self.syn_data),
            send_sequence: self.send_sequence,
            acknowledgment: self.acknowledgment,
            sent_syn: self.sent_syn,
            syn_mss: self.syn_mss,
            outer_mtu: self.outer_mtu,
        }
    }
}

/// A carrier that has sent and received nothing.
pub open spec fn fresh(
    given: FourTuple,
    mode: SynDataMode,
    sequence: u32,
    syn_mss: u16,
    outer_mtu: u16,
) -> CarrierModel {
    CarrierModel {
        tuple: given,
        cookie: mode_cookie(mode),
        send_sequence: sequence,
        acknowledgment: 0,
        sent_syn: false,
        syn_mss,
        outer_mtu,
    }
}

/// Why a path cannot have a carrier with this segment size and MTU, if it cannot.
pub open spec fn carrier_refusal(given: FourTuple, syn_mss: u16, outer_mtu: u16) -> Option<CarrierError> {
    let headers = encode::ip_header_length(given.source.ip) + 20;
    if !tuple::usable(given) {
        Some(CarrierError::InvalidTuple)
    } else if outer_mtu < headers {
        Some(CarrierError::InvalidOuterMtu(outer_mtu))
    } else if syn_mss == 0 || syn_mss > outer_mtu - headers {
        Some(CarrierError::InvalidMss { mss: syn_mss, maximum: (outer_mtu - headers) as u16 })
    } else {
        None
    }
}

/// What a datagram takes up in the sequence space: its bytes, and one for a SYN.
pub open spec fn consumed(bytes: int, syn: bool) -> u32 {
    (bytes + (if syn {
        1int
    } else {
        0
    })) as u32
}

/// The options that go with the flags: those of a SYN, or none.
pub open spec fn carrier_options(state: CarrierModel, bits: TcpFlags) -> options::OptionsModel {
    if bits.has(TcpFlags(TcpFlags::SYN)) {
        options::syn_options(state.syn_mss, state.cookie)
    } else {
        options::no_options()
    }
}

/// The segment that carries a datagram.
pub open spec fn carrier_segment(state: CarrierModel, bits: TcpFlags, datagram: Seq<u8>) -> SegmentModel {
    encode::segment_of(
        state.send_sequence,
        state.acknowledgment,
        bits,
        0xffff,
        carrier_options(state, bits),
        datagram,
    )
}

/// The packet that carries a datagram.
pub open spec fn carrier_packet(state: CarrierModel, bits: TcpFlags, datagram: Seq<u8>) -> Seq<u8> {
    encode::packet_bytes(
        state.tuple.source,
        state.tuple.destination,
        carrier_segment(state, bits, datagram),
        tuple::pseudo_sum(state.tuple.source.ip, state.tuple.destination.ip),
    )
}

/// The length of the packet that carries a datagram.
pub open spec fn carrier_length(state: CarrierModel, bits: TcpFlags, datagram: Seq<u8>) -> int {
    encode::packet_length(state.tuple.source, carrier_segment(state, bits, datagram))
}

/// The carrier after it sent a datagram.
pub open spec fn after_sending(state: CarrierModel, bits: TcpFlags, bytes: int) -> CarrierModel {
    CarrierModel {
        send_sequence: state.send_sequence.wrapping_add(consumed(bytes, bits.has(TcpFlags(TcpFlags::SYN)))),
        ..state
    }
}

/// The carrier after it sent its SYN.
pub open spec fn after_syn(state: CarrierModel) -> CarrierModel {
    CarrierModel { sent_syn: true, ..state }
}

/// Why a datagram cannot be sent in a packet of its own, if it cannot.
pub open spec fn send_refusal(state: CarrierModel, bits: TcpFlags, datagram: Seq<u8>) -> Option<CarrierError> {
    let length = carrier_length(state, bits, datagram);
    if length > 65535 {
        Some(CarrierError::PacketTooLarge)
    } else if datagram.len() > MAX_DATAGRAM_BYTES {
        Some(CarrierError::DatagramTooLarge)
    } else if length > state.outer_mtu {
        Some(CarrierError::PacketTooLarge)
    } else {
        None
    }
}

/// Why a datagram cannot be written into a buffer of `available` bytes, if it cannot.
pub open spec fn write_refusal(state: CarrierModel, bits: TcpFlags, datagram: Seq<u8>, available: int) -> Option<
    CarrierError,
> {
    let length = carrier_length(state, bits, datagram);
    if datagram.len() > MAX_DATAGRAM_BYTES {
        Some(CarrierError::DatagramTooLarge)
    } else if length > 65535 {
        Some(CarrierError::PacketTooLarge)
    } else if available < length {
        Some(CarrierError::OutputTooSmall { required: length as usize, available: available as usize })
    } else if length > state.outer_mtu {
        Some(CarrierError::PacketTooLarge)
    } else {
        None
    }
}

/// Why a SYN cannot be sent, if it cannot: it was sent before, or it may carry no data.
pub open spec fn syn_refusal(state: CarrierModel) -> Option<CarrierError> {
    if state.sent_syn {
        Some(CarrierError::InvalidState)
    } else if state.cookie is None {
        Some(CarrierError::SynDataDisabled)
    } else {
        None
    }
}

/// The acknowledgment number after a datagram that ends at `end` arrived: it moves
/// forward only, in the circular order of sequence numbers.
pub open spec fn acknowledged(previous: u32, end: u32) -> u32 {
    if previous == 0 || end.wrapping_sub(previous) < 0x8000_0000 {
        end
    } else {
        previous
    }
}

/// The datagram that a packet brings to a carrier, or why it is refused.
#[verifier::opaque]
pub open spec fn datagram_in(state: CarrierModel, input: Seq<u8>) -> Result<ViewModel, CarrierError> {
    if input.len() > state.outer_mtu {
        Err(CarrierError::PacketTooLarge)
    } else {
        match decode::packet_view(
            input,
            Some(tuple::pseudo_sum(state.tuple.source.ip, state.tuple.destination.ip)),
        ) {
            Err(error) => Err(error),
            Ok(view) => if view.source != state.tuple.destination || view.destination != state.tuple.source {
                Err(CarrierError::WrongTuple)
            } else if view.payload.len() == 0 {
                Err(CarrierError::EmptyPayload)
            } else if view.flags.has(TcpFlags(TcpFlags::SYN)) && state.cookie is None {
                Err(CarrierError::SynDataDisabled)
            } else if view.flags.has(TcpFlags(TcpFlags::SYN)) && view.cookie != state.cookie {
                Err(CarrierError::SynCookieRejected)
            } else {
                Ok(view)
            },
        }
    }
}

/// The carrier after a datagram arrived.
pub open spec fn after_receiving(state: CarrierModel, view: ViewModel) -> CarrierModel {
    CarrierModel {
        acknowledgment: acknowledged(
            state.acknowledgment,
            view.sequence.wrapping_add(
                consumed(view.payload.len() as int, view.flags.has(TcpFlags(TcpFlags::SYN))),
            ),
        ),
        ..state
    }
}

pub(crate) proof fn lemma_options_fit(state: CarrierModel, bits: TcpFlags)
    requires
        state.cookie matches Some(bytes) ==> bytes.len() == 16,
    ensures
        options::encodable(carrier_options(state, bits)),
        options::option_bytes(carrier_options(state, bits)).len() <= 40,
        options::option_bytes(carrier_options(state, bits)).len() % 4 == 0,
        options::cookie_in(options::option_bytes(carrier_options(state, bits)), None) == Ok::<
            Option<Seq<u8>>,
            CarrierError,
        >(
            if bits.has(TcpFlags(TcpFlags::SYN)) {
                state.cookie
            } else {
                None
            },
        ),
{
    let given = carrier_options(state, bits);
    options::law_syn_options_are_zero_filled(state.syn_mss, state.cookie);
    if let Some(bytes) = state.cookie {
        assert(options::kept_cookie(bytes).take(16) =~= bytes);
    }
    packet::lemma_option_bytes_size(given);
    options::law_options_round_trip(given);
}

impl FakeTcpCarrier {
    /// The path is usable, the cached checksum part is right, and a cookie has its size.
    pub closed spec fn wf(&self) -> bool {
        &&& tuple::usable(self.tuple)
        &&& self.pseudo_header_prefix == tuple::pseudo_sum(self.tuple.source.ip, self.tuple.destination.ip)
        &&& self.pseudo_header_prefix <= 0x10_0000
    }

    /// What well-formed means for the content.
    pub proof fn lemma_wf(&self)
        requires
            self.wf(),
        ensures
            tuple::usable(self@.tuple),
            self@.cookie matches Some(bytes) ==> bytes.len() == 16,
    {
    }

    fn from_parts(
        given: FourTuple,
        pseudo_header_prefix: u32,
        syn_data: SynDataMode,
        send_sequence: u32,
        syn_mss: u16,
        outer_mtu: u16,
    ) -> (carrier: Self)
        requires
            tuple::usable(given),
            pseudo_header_prefix == tuple::pseudo_sum(given.source.ip, given.destination.ip),
            pseudo_header_prefix <= 0x10_0000,
        ensures
            carrier.wf(),
            carrier@ == fresh(given, syn_data, send_sequence, syn_mss, outer_mtu),
    {
        FakeTcpCarrier {
            tuple: given,
            pseudo_header_prefix,
            syn_data,
            send_sequence,
            acknowledgment: 0,
            sent_syn: false,
            syn_mss,
            outer_mtu,
        }
    }

    /// Creates one independent carrier state. A changed four-tuple must create a new state.
    ///
    /// The initial sequence number is drawn at random.
    pub fn new(given: FourTuple, direction: CarrierDirection, syn_data: SynDataMode) -> (result: Result<
        Self,
        CarrierError,
    >)
        ensures
            created(given, direction, syn_data, DEFAULT_SYN_MSS, 0xffff, result),
    {
        Self::new_with_mtu(given, direction, syn_data, DEFAULT_SYN_MSS, 0xffff)
    }

    /// Creates one carrier with an explicit SYN MSS and complete outer packet MTU.
    ///
    /// The initial sequence number is drawn at random.
    pub fn new_with_mtu(
        given: FourTuple,
        direction: CarrierDirection,
        syn_data: SynDataMode,
        syn_mss: u16,
        outer_mtu: u16,
    ) -> (result: Result<Self, CarrierError>)
        ensures
            created(given, direction, syn_data, syn_mss, outer_mtu, result),
    {
        match Self::check(given, syn_mss, outer_mtu) {
            Ok(prefix) => match cookie::initial_sequence(given, direction) {
                Ok(sequence) => Ok(Self::from_parts(given, prefix, syn_data, sequence, syn_mss, outer_mtu)),
                Err(error) => Err(error),
            },
            Err(error) => Err(error),
        }
    }

    /// Creates the receiving and the sending carrier of one path.
    ///
    /// The sending one takes over what the receiving one acknowledges with
    /// [`FakeTcpCarrier::follow`].
    pub fn pair(given: FourTuple, direction: CarrierDirection, syn_data: SynDataMode) -> (result: Result<
        (Self, Self),
        CarrierError,
    >)
        ensures
            created_pair(given, direction, syn_data, DEFAULT_SYN_MSS, 0xffff, result),
    {
        Self::pair_with_mtu(given, direction, syn_data, DEFAULT_SYN_MSS, 0xffff)
    }

    /// Creates the receiving and the sending carrier of one path, with an explicit SYN MSS
    /// and complete outer packet MTU.
    pub fn pair_with_mtu(
        given: FourTuple,
        direction: CarrierDirection,
        syn_data: SynDataMode,
        syn_mss: u16,
        outer_mtu: u16,
    ) -> (result: Result<(Self, Self), CarrierError>)
        ensures
            created_pair(given, direction, syn_data, syn_mss, outer_mtu, result),
    {
        let inbound = match Self::new_with_mtu(given, direction, syn_data, syn_mss, outer_mtu) {
            Ok(carrier) => carrier,
            Err(error) => return Err(error),
        };
        match Self::new_with_mtu(given, direction, syn_data, syn_mss, outer_mtu) {
            Ok(outbound) => Ok((inbound, outbound)),
            Err(error) => Err(error),
        }
    }

    /// Takes over the number to acknowledge from the carrier that receives on the path.
    pub fn follow(&mut self, inbound: &FakeTcpCarrier)
        requires
            old(self).wf(),
        ensures
            final(self).wf(),
            final(self)@ == following(old(self)@, inbound@),
    {
        self.acknowledgment = inbound.acknowledgment;
    }

    /// Checks that a path can have a carrier, and computes its checksum part.
    fn check(given: FourTuple, syn_mss: u16, outer_mtu: u16) -> (result: Result<u32, CarrierError>)
        ensures
            match result {
                Ok(prefix) => carrier_refusal(given, syn_mss, outer_mtu) is None && prefix == tuple::pseudo_sum(
                    given.source.ip,
                    given.destination.ip,
                ) && prefix <= 0x10_0000,
                Err(error) => carrier_refusal(given, syn_mss, outer_mtu) == Some(error),
            },
    {
        let prefix: u32 = Self::validated_prefix(given)?;
        let headers: u16 = if given.source.ip.is_ipv4() {
            40
        } else {
            60
        };
        if outer_mtu < headers {
            return Err(CarrierError::InvalidOuterMtu(outer_mtu));
        }
        let maximum: u16 = outer_mtu - headers;
        if syn_mss == 0 || syn_mss > maximum {
            return Err(CarrierError::InvalidMss { mss: syn_mss, maximum });
        }
        Ok(prefix)
    }

    fn validated_prefix(given: FourTuple) -> (result: Result<u32, CarrierError>)
        ensures
            match result {
                Ok(prefix) => tuple::usable(given) && prefix == tuple::pseudo_sum(
                    given.source.ip,
                    given.destination.ip,
                ) && prefix <= 0x10_0000,
                Err(error) => !tuple::usable(given) && error == CarrierError::InvalidTuple,
            },
    {
        match given.validate() {
            Ok(_) => match tuple::tcp_pseudo_header_prefix(given.source.ip, given.destination.ip) {
                Some(prefix) => Ok(prefix),
                None => Err(CarrierError::InvalidTuple),
            },
            Err(error) => Err(error),
        }
    }

    /// Creates one carrier with caller-provided initial sequence entropy.
    ///
    /// Callers that own sequence-number policy can use this constructor without changing
    /// the packet codec.
    pub fn new_with_initial_sequence(given: FourTuple, syn_data: SynDataMode, initial_sequence: u32) -> (result: Result<
        Self,
        CarrierError,
    >)
        ensures
            match result {
                Ok(carrier) => tuple::usable(given) && carrier.wf() && carrier@ == fresh(
                    given,
                    syn_data,
                    initial_sequence,
                    DEFAULT_SYN_MSS,
                    0xffff,
                ),
                Err(error) => !tuple::usable(given) && error == CarrierError::InvalidTuple,
            },
    {
        match Self::validated_prefix(given) {
            Ok(prefix) => Ok(
                Self::from_parts(given, prefix, syn_data, initial_sequence, DEFAULT_SYN_MSS, 0xffff),
            ),
            Err(error) => Err(error),
        }
    }

    /// The number that the next packet acknowledges.
    pub fn acknowledgment(&self) -> (acknowledgment: u32)
        ensures
            acknowledgment == self@.acknowledgment,
    {
        self.acknowledgment
    }

    /// Whether the carrier has sent its SYN.
    pub fn sent_syn(&self) -> (sent: bool)
        ensures
            sent == self@.sent_syn,
    {
        self.sent_syn
    }

    /// The path of the carrier.
    pub fn tuple(&self) -> (given: FourTuple)
        ensures
            given == self@.tuple,
    {
        self.tuple
    }

    fn options_for(&self, bits: TcpFlags) -> (given: TcpOptions)
        ensures
            given@ == carrier_options(self@, bits),
    {
        if bits.is_syn() {
            match &self.syn_data {
                SynDataMode::Cookie(bytes) => TcpOptions::for_syn_with_mss(self.syn_mss, Some(bytes.as_slice())),
                SynDataMode::Disabled => TcpOptions::for_syn_with_mss(self.syn_mss, None),
            }
        } else {
            TcpOptions::default()
        }
    }

    /// Writes one datagram into caller-owned storage and moves the sequence on.
    ///
    /// A packet that is larger than the outer MTU is written and then refused; any other
    /// refusal leaves the storage as it was.
    fn encode_into(&mut self, datagram: &[u8], bits: TcpFlags, output: &mut [u8]) -> (result: Result<
        usize,
        CarrierError,
    >)
        requires
            old(self).wf(),
        ensures
            final(self).wf(),
            written(old(self)@, bits, datagram@, old(output)@, final(output)@, result),
            final(self)@ == (if result is Ok {
                after_sending(old(self)@, bits, datagram@.len() as int)
            } else {
                old(self)@
            }),
    {
        proof {
            lemma_options_fit(self@, bits);
        }
        assert(output.len() == output@.len());
        if datagram.len() > MAX_DATAGRAM_BYTES {
            return Err(CarrierError::DatagramTooLarge);
        }
        let given: TcpOptions = self.options_for(bits);
        let encoded: Result<usize, CarrierError> = encode::encode_packet_into(
            self.tuple.source,
            self.tuple.destination,
            self.send_sequence,
            self.acknowledgment,
            bits,
            0xffff,
            &given,
            datagram,
            output,
            self.pseudo_header_prefix,
        );
        let length: usize = match encoded {
            Ok(length) => length,
            Err(error) => {
                return Err(error);
            },
        };
        if length > self.outer_mtu as usize {
            return Err(CarrierError::PacketTooLarge);
        }
        let extent: u32 = if bits.is_syn() {
            datagram.len() as u32 + 1
        } else {
            datagram.len() as u32
        };
        self.send_sequence = self.send_sequence.wrapping_add(extent);
        Ok(length)
    }

    /// Encodes one datagram in a packet of its own and moves the sequence on.
    fn encode(&mut self, datagram: &[u8], bits: TcpFlags) -> (result: Result<Vec<u8>, CarrierError>)
        requires
            old(self).wf(),
        ensures
            final(self).wf(),
            sent(old(self)@, bits, datagram@, result),
            final(self)@ == (if result is Ok {
                after_sending(old(self)@, bits, datagram@.len() as int)
            } else {
                old(self)@
            }),
    {
        proof {
            lemma_options_fit(self@, bits);
        }
        let given: TcpOptions = self.options_for(bits);
        let option_bytes: Vec<u8> = match given.encode() {
            Ok(bytes) => bytes,
            Err(error) => {
                return Err(error);
            },
        };
        let header: usize = if self.tuple.source.ip.is_ipv4() {
            encode::IPV4_HEADER_BYTES
        } else {
            encode::IPV6_HEADER_BYTES
        };
        if datagram.len() > encode::MAX_PACKET_BYTES {
            return Err(CarrierError::PacketTooLarge);
        }
        let capacity: usize = header + encode::TCP_HEADER_BYTES + option_bytes.len() + datagram.len();
        if capacity > encode::MAX_PACKET_BYTES {
            return Err(CarrierError::PacketTooLarge);
        }
        let mut buffer: Vec<u8> = vec![0; capacity];
        match self.encode_into(datagram, bits, buffer.as_mut_slice()) {
            Ok(_) => {
                assert(buffer@ =~= carrier_packet(old(self)@, bits, datagram@));
                Ok(buffer)
            },
            Err(error) => Err(error),
        }
    }

    /// Encodes one ordinary QUICP datagram in one TCP-shaped packet.
    pub fn encode_datagram(&mut self, datagram: &[u8]) -> (result: Result<Vec<u8>, CarrierError>)
        requires
            old(self).wf(),
        ensures
            final(self).wf(),
            sent(old(self)@, TcpFlags(0x18), datagram@, result),
            final(self)@ == (if result is Ok {
                after_sending(old(self)@, TcpFlags(0x18), datagram@.len() as int)
            } else {
                old(self)@
            }),
    {
        proof {
            flags::lemma_carrier_flags();
        }
        self.encode(datagram, TcpFlags(TcpFlags::ACK) | TcpFlags(TcpFlags::PSH))
    }

    /// Encodes one ordinary QUICP datagram into caller-owned storage.
    pub fn encode_datagram_into(&mut self, datagram: &[u8], output: &mut [u8]) -> (result: Result<
        usize,
        CarrierError,
    >)
        requires
            old(self).wf(),
        ensures
            final(self).wf(),
            written(old(self)@, TcpFlags(0x18), datagram@, old(output)@, final(output)@, result),
            final(self)@ == (if result is Ok {
                after_sending(old(self)@, TcpFlags(0x18), datagram@.len() as int)
            } else {
                old(self)@
            }),
    {
        proof {
            flags::lemma_carrier_flags();
        }
        self.encode_into(datagram, TcpFlags(TcpFlags::ACK) | TcpFlags(TcpFlags::PSH), output)
    }

    fn check_syn(&self) -> (result: Result<(), CarrierError>)
        ensures
            result == (match syn_refusal(self@) {
                Some(error) => Err::<(), CarrierError>(error),
                None => Ok(()),
            }),
    {
        if self.sent_syn {
            return Err(CarrierError::InvalidState);
        }
        match self.syn_data {
            SynDataMode::Disabled => Err(CarrierError::SynDataDisabled),
            SynDataMode::Cookie(_) => Ok(()),
        }
    }

    /// Encodes a SYN with the given flags.
    fn encode_first(&mut self, datagram: &[u8], bits: TcpFlags) -> (result: Result<Vec<u8>, CarrierError>)
        requires
            old(self).wf(),
        ensures
            final(self).wf(),
            sent_first(old(self)@, final(self)@, bits, datagram@, result),
    {
        if let Err(error) = self.check_syn() {
            return Err(error);
        }
        match self.encode(datagram, bits) {
            Ok(buffer) => {
                self.sent_syn = true;
                Ok(buffer)
            },
            Err(error) => Err(error),
        }
    }

    /// Encodes a SYN with the given flags into caller-owned storage.
    fn encode_first_into(&mut self, datagram: &[u8], bits: TcpFlags, output: &mut [u8]) -> (result: Result<
        usize,
        CarrierError,
    >)
        requires
            old(self).wf(),
        ensures
            final(self).wf(),
            written_first(old(self)@, final(self)@, bits, datagram@, old(output)@, final(output)@, result),
    {
        if let Err(error) = self.check_syn() {
            return Err(error);
        }
        match self.encode_into(datagram, bits, output) {
            Ok(length) => {
                self.sent_syn = true;
                Ok(length)
            },
            Err(error) => Err(error),
        }
    }

    /// Encodes the first QUICP datagram in a TFO-style SYN packet.
    pub fn encode_syn(&mut self, datagram: &[u8]) -> (result: Result<Vec<u8>, CarrierError>)
        requires
            old(self).wf(),
        ensures
            final(self).wf(),
            sent_first(old(self)@, final(self)@, TcpFlags(0x02), datagram@, result),
    {
        self.encode_first(datagram, TcpFlags(TcpFlags::SYN))
    }

    /// Encodes the first client QUICP datagram into caller-owned storage.
    pub fn encode_syn_into(&mut self, datagram: &[u8], output: &mut [u8]) -> (result: Result<usize, CarrierError>)
        requires
            old(self).wf(),
        ensures
            final(self).wf(),
            written_first(
                old(self)@,
                final(self)@,
                TcpFlags(0x02),
                datagram@,
                old(output)@,
                final(output)@,
                result,
            ),
    {
        self.encode_first_into(datagram, TcpFlags(TcpFlags::SYN), output)
    }

    /// Encodes a server-side first response with SYN, ACK, and one QUICP datagram.
    pub fn encode_syn_ack(&mut self, datagram: &[u8]) -> (result: Result<Vec<u8>, CarrierError>)
        requires
            old(self).wf(),
        ensures
            final(self).wf(),
            sent_first(old(self)@, final(self)@, TcpFlags(0x12), datagram@, result),
    {
        proof {
            flags::lemma_carrier_flags();
        }
        self.encode_first(datagram, TcpFlags(TcpFlags::SYN) | TcpFlags(TcpFlags::ACK))
    }

    /// Encodes the first server QUICP datagram into caller-owned storage.
    pub fn encode_syn_ack_into(&mut self, datagram: &[u8], output: &mut [u8]) -> (result: Result<usize, CarrierError>)
        requires
            old(self).wf(),
        ensures
            final(self).wf(),
            written_first(
                old(self)@,
                final(self)@,
                TcpFlags(0x12),
                datagram@,
                old(output)@,
                final(output)@,
                result,
            ),
    {
        proof {
            flags::lemma_carrier_flags();
        }
        self.encode_first_into(datagram, TcpFlags(TcpFlags::SYN) | TcpFlags(TcpFlags::ACK), output)
    }

    /// Returns one packet's payload as a borrow of the caller's input buffer, even if its
    /// sequence has a gap.
    ///
    /// The input is not retained after the method returns. QUICP owns duplicate detection
    /// because the unauthenticated carrier sequence cannot safely drive replay state.
    pub fn decode_datagram_borrowed<'a>(&mut self, input: &'a [u8]) -> (result: Result<
        BorrowedDecodedDatagram<'a>,
        CarrierError,
    >)
        requires
            old(self).wf(),
        ensures
            final(self).wf(),
            match result {
                Ok(datagram) => {
                    let outcome = datagram_in(old(self)@, input@);
                    &&& outcome is Ok
                    &&& datagram.sequence == outcome->Ok_0.sequence
                    &&& datagram.was_syn == outcome->Ok_0.flags.has(TcpFlags(TcpFlags::SYN))
                    &&& datagram.payload@ == outcome->Ok_0.payload
                    &&& final(self)@ == after_receiving(old(self)@, outcome->Ok_0)
                    &&& 0 < datagram.payload@.len() <= input@.len()
                    &&& datagram.payload@ == input@.skip(input@.len() - datagram.payload@.len())
                },
                Err(error) => datagram_in(old(self)@, input@) == Err::<ViewModel, CarrierError>(error) && final(self)@
                    == old(self)@,
            },
    {
        reveal(datagram_in);
        if input.len() > self.outer_mtu as usize {
            return Err(CarrierError::PacketTooLarge);
        }
        let view = match decode::decode_packet_view(input, Some(self.pseudo_header_prefix)) {
            Ok(view) => view,
            Err(error) => {
                return Err(error);
            },
        };
        if view.source != self.tuple.destination || view.destination != self.tuple.source {
            return Err(CarrierError::WrongTuple);
        }
        if view.payload.len() == 0 {
            return Err(CarrierError::EmptyPayload);
        }
        let syn: bool = view.flags.is_syn();
        if syn {
            match &self.syn_data {
                SynDataMode::Disabled => {
                    return Err(CarrierError::SynDataDisabled);
                },
                SynDataMode::Cookie(expected) => match view.fast_open_cookie {
                    Some(given) => {
                        if !storage::equal(given, expected.as_slice()) {
                            return Err(CarrierError::SynCookieRejected);
                        }
                    },
                    None => {
                        return Err(CarrierError::SynCookieRejected);
                    },
                },
            }
        }
        proof {
            lemma_payload_is_tail(
                input@,
                Some(tuple::pseudo_sum(self.tuple.source.ip, self.tuple.destination.ip)),
            );
        }
        let extent: u32 = if syn {
            view.payload.len() as u32 + 1
        } else {
            view.payload.len() as u32
        };
        let end: u32 = view.sequence.wrapping_add(extent);
        if self.acknowledgment == 0 || end.wrapping_sub(self.acknowledgment) < 0x8000_0000 {
            self.acknowledgment = end;
        }
        Ok(BorrowedDecodedDatagram { sequence: view.sequence, was_syn: syn, payload: view.payload })
    }

    /// Returns one packet's payload immediately, even if its sequence has a gap.
    pub fn decode_datagram(&mut self, input: &[u8]) -> (result: Result<DecodedDatagram, CarrierError>)
        requires
            old(self).wf(),
        ensures
            final(self).wf(),
            match result {
                Ok(datagram) => {
                    let outcome = datagram_in(old(self)@, input@);
                    &&& outcome is Ok
                    &&& datagram.sequence == outcome->Ok_0.sequence
                    &&& datagram.was_syn == outcome->Ok_0.flags.has(TcpFlags(TcpFlags::SYN))
                    &&& datagram.payload@ == outcome->Ok_0.payload
                    &&& final(self)@ == after_receiving(old(self)@, outcome->Ok_0)
                },
                Err(error) => datagram_in(old(self)@, input@) == Err::<ViewModel, CarrierError>(error) && final(self)@
                    == old(self)@,
            },
    {
        match self.decode_datagram_borrowed(input) {
            Ok(datagram) => Ok(
                DecodedDatagram {
                    sequence: datagram.sequence,
                    was_syn: datagram.was_syn,
                    payload: vstd::slice::slice_to_vec(datagram.payload),
                },
            ),
            Err(error) => Err(error),
        }
    }
}

/// The payload of a packet is its last part.
pub(crate) proof fn lemma_payload_is_tail(input: Seq<u8>, prefix: Option<int>)
    ensures
        decode::packet_view(input, prefix) matches Ok(view) ==> view.payload.len() <= input.len() && view.payload
            == input.skip(input.len() - view.payload.len()) && input.len() <= 65535,
{
    if let Ok(view) = decode::packet_view(input, prefix) {
        if input[0] / 16 == 4 {
            let source = crate::address::IpAddress::V4(endian::be32_at(input, 12));
            let destination = crate::address::IpAddress::V4(endian::be32_at(input, 16));
            let at = input[0] % 16 * 4;
            assert(at <= input.len());
            lemma_segment_tail(source, destination, input.skip(at), prefix);
            assert(view.payload =~= input.skip(input.len() - view.payload.len()));
        } else {
            let source = crate::address::IpAddress::V6(endian::be128_at(input, 8));
            let destination = crate::address::IpAddress::V6(endian::be128_at(input, 24));
            lemma_segment_tail(source, destination, input.skip(40), prefix);
            assert(view.payload =~= input.skip(input.len() - view.payload.len()));
        }
    }
}

proof fn lemma_segment_tail(
    source: crate::address::IpAddress,
    destination: crate::address::IpAddress,
    input: Seq<u8>,
    prefix: Option<int>,
)
    ensures
        decode::segment_view(source, destination, input, prefix) matches Ok(view) ==> view.payload.len()
            <= input.len() && view.payload == input.skip(input.len() - view.payload.len()),
{
}

/// The packet that carries a datagram has the length that its parts add up to.
pub proof fn lemma_carrier_packet_length(state: CarrierModel, bits: TcpFlags, datagram: Seq<u8>)
    requires
        tuple::usable(state.tuple),
    ensures
        carrier_packet(state, bits, datagram).len() == carrier_length(state, bits, datagram),
{
    packet::lemma_packet_length(
        state.tuple.source,
        state.tuple.destination,
        carrier_segment(state, bits, datagram),
        tuple::pseudo_sum(state.tuple.source.ip, state.tuple.destination.ip),
    );
}

/// A datagram is no larger than its packet, and that no larger than the MTU.
pub proof fn lemma_datagram_size(state: CarrierModel, input: Seq<u8>)
    ensures
        datagram_in(state, input) matches Ok(view) ==> 0 < view.payload.len() <= input.len() <= state.outer_mtu
            && view.payload == input.skip(input.len() - view.payload.len()),
{
    reveal(datagram_in);
    lemma_payload_is_tail(input, Some(tuple::pseudo_sum(state.tuple.source.ip, state.tuple.destination.ip)));
}

/// What comes of creating a carrier: it is refused for its path, its segment size or its
/// MTU; the system has no random number; or it is fresh, with a random sequence number.
pub open spec fn created(
    given: FourTuple,
    direction: CarrierDirection,
    mode: SynDataMode,
    syn_mss: u16,
    outer_mtu: u16,
    result: Result<FakeTcpCarrier, CarrierError>,
) -> bool {
    match carrier_refusal(given, syn_mss, outer_mtu) {
        Some(error) => result == Err::<FakeTcpCarrier, CarrierError>(error),
        None => match result {
            Ok(carrier) => carrier.wf() && carrier@ == fresh(
                given,
                mode,
                carrier@.send_sequence,
                syn_mss,
                outer_mtu,
            ) && cookie::sequence_drawn(carrier@.send_sequence, given, direction),
            Err(error) => error == CarrierError::Randomness && cookie::drawn(None),
        },
    }
}

/// What comes of creating the two carriers of a path.
pub open spec fn created_pair(
    given: FourTuple,
    direction: CarrierDirection,
    mode: SynDataMode,
    syn_mss: u16,
    outer_mtu: u16,
    result: Result<(FakeTcpCarrier, FakeTcpCarrier), CarrierError>,
) -> bool {
    match result {
        Ok((inbound, outbound)) => created(
            given,
            direction,
            mode,
            syn_mss,
            outer_mtu,
            Ok::<FakeTcpCarrier, CarrierError>(inbound),
        ) && created(given, direction, mode, syn_mss, outer_mtu, Ok::<FakeTcpCarrier, CarrierError>(outbound)),
        Err(error) => created(
            given,
            direction,
            mode,
            syn_mss,
            outer_mtu,
            Err::<FakeTcpCarrier, CarrierError>(error),
        ),
    }
}

/// A sending carrier that acknowledges what the receiving one of its path does.
pub open spec fn following(outbound: CarrierModel, inbound: CarrierModel) -> CarrierModel {
    CarrierModel { acknowledgment: inbound.acknowledgment, ..outbound }
}

/// What comes of encoding a datagram.
pub open spec fn sent(
    state: CarrierModel,
    bits: TcpFlags,
    datagram: Seq<u8>,
    result: Result<Vec<u8>, CarrierError>,
) -> bool {
    match result {
        Ok(buffer) => send_refusal(state, bits, datagram) is None && buffer@ == carrier_packet(state, bits, datagram),
        Err(error) => send_refusal(state, bits, datagram) == Some(error),
    }
}

/// What comes of writing a datagram into caller-owned storage.
pub open spec fn written(
    state: CarrierModel,
    bits: TcpFlags,
    datagram: Seq<u8>,
    before: Seq<u8>,
    after: Seq<u8>,
    result: Result<usize, CarrierError>,
) -> bool {
    let length = carrier_length(state, bits, datagram);
    let refusal = write_refusal(state, bits, datagram, before.len() as int);
    &&& match result {
        Ok(written) => refusal is None && written == length,
        Err(error) => refusal == Some(error),
    }
    &&& after == (if datagram.len() <= MAX_DATAGRAM_BYTES && length <= 65535 && length <= before.len() {
        carrier_packet(state, bits, datagram) + before.skip(length)
    } else {
        before
    })
    &&& after.len() == before.len()
}

/// What comes of encoding a SYN.
pub open spec fn sent_first(
    state: CarrierModel,
    after: CarrierModel,
    bits: TcpFlags,
    datagram: Seq<u8>,
    result: Result<Vec<u8>, CarrierError>,
) -> bool {
    match syn_refusal(state) {
        Some(error) => result == Err::<Vec<u8>, CarrierError>(error) && after == state,
        None => sent(state, bits, datagram, result) && after == (if result is Ok {
            after_syn(after_sending(state, bits, datagram.len() as int))
        } else {
            state
        }),
    }
}

/// What comes of writing a SYN into caller-owned storage.
pub open spec fn written_first(
    state: CarrierModel,
    after: CarrierModel,
    bits: TcpFlags,
    datagram: Seq<u8>,
    before: Seq<u8>,
    output: Seq<u8>,
    result: Result<usize, CarrierError>,
) -> bool {
    match syn_refusal(state) {
        Some(error) => result == Err::<usize, CarrierError>(error) && after == state && output == before,
        None => written(state, bits, datagram, before, output, result) && after == (if result is Ok {
            after_syn(after_sending(state, bits, datagram.len() as int))
        } else {
            state
        }),
    }
}

}
