//! Path selection.
use crate::address::{IpAddress, SocketAddress};
use crate::config::error::ConfigError;
use vstd::prelude::*;

verus! {

/// Supported path-selection modes.
#[derive(Clone, Copy, Debug, PartialEq, Eq, Structural)]
pub enum MultipathMode {
    /// Use exactly one path.
    Off,
    /// Keep one primary and one backup path.
    Failover,
}

impl MultipathMode {
    /// How many paths the mode has.
    pub open spec fn limit(self) -> u8 {
        match self {
            MultipathMode::Off => 1,
            MultipathMode::Failover => 2,
        }
    }

    /// How many paths the mode has.
    pub fn path_limit(self) -> (limit: u8)
        ensures
            limit == self.limit(),
    {
        match self {
            MultipathMode::Off => 1,
            MultipathMode::Failover => 2,
        }
    }
}

/// One local-address to server-address path candidate.
#[derive(Clone, Copy, Debug, PartialEq, Eq, Hash, Structural)]
pub struct PathCandidate {
    pub(crate) local_ip: IpAddress,
    pub(crate) server_addr: SocketAddress,
}

impl PathCandidate {
    /// The local source IP address.
    pub closed spec fn local(self) -> IpAddress {
        self.local_ip
    }

    /// The remote server socket address.
    pub closed spec fn server(self) -> SocketAddress {
        self.server_addr
    }

    /// The candidate of two addresses.
    pub closed spec fn of(local_ip: IpAddress, server_addr: SocketAddress) -> PathCandidate {
        PathCandidate { local_ip, server_addr }
    }

    /// What the candidate of two addresses holds.
    pub proof fn lemma_of(local_ip: IpAddress, server_addr: SocketAddress)
        ensures
            PathCandidate::of(local_ip, server_addr).local() == local_ip,
            PathCandidate::of(local_ip, server_addr).server() == server_addr,
    {
    }

    /// A candidate is its two addresses.
    pub proof fn lemma_candidate(self, other: PathCandidate)
        ensures
            self == other <==> self.local() == other.local() && self.server() == other.server(),
    {
    }
}

/// Whether an address can be that of one end of a path.
pub open spec fn reachable(ip: IpAddress) -> bool {
    ip != IpAddress::V4(0) && ip != IpAddress::V6(0) && !ip.group()
}

/// Why a candidate is refused, if it is.
pub open spec fn candidate_refusal(local_ip: IpAddress, server_addr: SocketAddress) -> Option<ConfigError> {
    if (local_ip is V4) != (server_addr.ip is V4) {
        Some(ConfigError::AddressFamilyMismatch { local_ip, server_addr })
    } else if !reachable(local_ip) || !reachable(server_addr.ip) {
        Some(ConfigError::UnusableCandidateAddress { local_ip, server_addr })
    } else if server_addr.port == 0 {
        Some(ConfigError::ZeroPort)
    } else {
        None
    }
}

impl PathCandidate {
    /// Creates one validated local-to-server path candidate.
    pub fn new(local_ip: IpAddress, server_addr: SocketAddress) -> (result: Result<Self, ConfigError>)
        ensures
            match candidate_refusal(local_ip, server_addr) {
                Some(error) => result == Err::<Self, ConfigError>(error),
                None => result matches Ok(candidate) && candidate.local() == local_ip && candidate.server()
                    == server_addr,
            },
    {
        let candidate = PathCandidate { local_ip, server_addr };
        match validate_path_candidate(&candidate) {
            Ok(()) => Ok(candidate),
            Err(error) => Err(error),
        }
    }

    /// Takes a candidate as it was read. The configuration that holds it checks it.
    pub fn from_raw(local_ip: IpAddress, server_addr: SocketAddress) -> (candidate: Self)
        ensures
            candidate.local() == local_ip,
            candidate.server() == server_addr,
    {
        PathCandidate { local_ip, server_addr }
    }

    /// Returns the local source IP address.
    pub fn local_ip(&self) -> (ip: IpAddress)
        ensures
            ip == self.local(),
    {
        self.local_ip
    }

    /// Returns the remote server socket address.
    pub fn server_addr(&self) -> (address: SocketAddress)
        ensures
            address == self.server(),
    {
        self.server_addr
    }
}

fn validate_path_candidate(candidate: &PathCandidate) -> (result: Result<(), ConfigError>)
    ensures
        match candidate_refusal(candidate.local(), candidate.server()) {
            Some(error) => result == Err::<(), ConfigError>(error),
            None => result is Ok,
        },
{
    let local_ip: IpAddress = candidate.local_ip;
    let server_addr: SocketAddress = candidate.server_addr;
    if local_ip.is_ipv4() != server_addr.ip.is_ipv4() {
        return Err(ConfigError::AddressFamilyMismatch { local_ip, server_addr });
    }
    if local_ip.is_unspecified() || local_ip.is_multicast() || server_addr.ip.is_unspecified()
        || server_addr.ip.is_multicast() {
        return Err(ConfigError::UnusableCandidateAddress { local_ip, server_addr });
    }
    if server_addr.port == 0 {
        return Err(ConfigError::ZeroPort);
    }
    Ok(())
}

/// Validated single-path or primary/backup path selection.
#[derive(Clone, Debug, PartialEq, Eq)]
pub struct Multipath {
    pub(crate) mode: MultipathMode,
    pub(crate) candidates: Vec<PathCandidate>,
}

/// The content of a path selection.
#[verifier::ext_equal]
pub ghost struct MultipathModel {
    /// The mode.
    pub mode: MultipathMode,
    /// The candidates, the primary one first.
    pub candidates: Seq<PathCandidate>,
}

impl View for Multipath {
    type V = MultipathModel;

    closed spec fn view(&self) -> MultipathModel {
        MultipathModel { mode: self.mode, candidates: self.candidates@ }
    }
}

/// Why one of some candidates is refused, if one is: the first that is.
pub open spec fn candidates_refusal(candidates: Seq<PathCandidate>) -> Option<ConfigError>
    decreases candidates.len(),
{
    if candidates.len() == 0 {
        None
    } else {
        match candidate_refusal(candidates[0].local(), candidates[0].server()) {
            Some(error) => Some(error),
            None => candidates_refusal(candidates.skip(1)),
        }
    }
}

/// Why a path selection is refused, if it is.
pub open spec fn multipath_refusal(multipath: MultipathModel) -> Option<ConfigError> {
    let candidates = multipath.candidates;
    if candidates.len() != multipath.mode.limit() {
        Some(
            ConfigError::CandidateCount {
                mode: multipath.mode,
                expected: multipath.mode.limit() as usize,
                actual: candidates.len() as usize,
            },
        )
    } else {
        match candidates_refusal(candidates) {
            Some(error) => Some(error),
            None => if candidates.len() == 2 && candidates[0] == candidates[1] {
                Some(
                    ConfigError::DuplicateCandidateTuple {
                        local_ip: candidates[1].local(),
                        server_addr: candidates[1].server(),
                    },
                )
            } else {
                None
            },
        }
    }
}

/// An accepted path selection has one path, or two different ones, and each can be used.
pub proof fn law_accepted_paths_are_distinct_and_usable(multipath: MultipathModel)
    requires
        multipath_refusal(multipath) is None,
    ensures
        multipath.candidates.len() == multipath.mode.limit(),
        multipath.mode == MultipathMode::Failover ==> multipath.candidates[0] != multipath.candidates[1],
        forall|index: int|
            0 <= index < multipath.candidates.len() ==> candidate_refusal(
                (#[trigger] multipath.candidates[index]).local(),
                multipath.candidates[index].server(),
            ) is None,
{
    let candidates = multipath.candidates;
    reveal_with_fuel(candidates_refusal, 3);
    if candidates.len() == 2 {
        assert(candidates.skip(1)[0] == candidates[1]);
    }
}

/// Checks a path selection.
pub(crate) fn validate_multipath(multipath: &Multipath) -> (result: Result<(), ConfigError>)
    ensures
        match multipath_refusal(multipath@) {
            Some(error) => result == Err::<(), ConfigError>(error),
            None => result is Ok,
        },
{
    let expected: usize = multipath.mode.path_limit() as usize;
    let actual: usize = multipath.candidates.len();
    if actual != expected {
        return Err(ConfigError::CandidateCount { mode: multipath.mode, expected, actual });
    }
    let mut at: usize = 0;
    let ghost all = multipath.candidates@;
    assert(all.skip(0) =~= all);
    while at < multipath.candidates.len()
        invariant
            at <= all.len(),
            all == multipath.candidates@,
            all.len() == multipath.mode.limit(),
            candidates_refusal(all) == candidates_refusal(all.skip(at as int)),
        decreases all.len() - at,
    {
        assert(all.skip(at as int).skip(1) =~= all.skip(at + 1));
        if let Err(error) = validate_path_candidate(&multipath.candidates[at]) {
            return Err(error);
        }
        at = at + 1;
    }
    assert(all.skip(at as int).len() == 0);
    if multipath.candidates.len() == 2 {
        let primary: PathCandidate = multipath.candidates[0];
        let backup: PathCandidate = multipath.candidates[1];
        if primary.local_ip == backup.local_ip && primary.server_addr == backup.server_addr {
            return Err(
                ConfigError::DuplicateCandidateTuple { local_ip: backup.local_ip, server_addr: backup.server_addr },
            );
        }
    }
    Ok(())
}

impl Multipath {
    /// Creates a single-path configuration.
    pub fn single(primary: PathCandidate) -> (result: Result<Self, ConfigError>)
        ensures
            ({
                let given = MultipathModel { mode: MultipathMode::Off, candidates: seq![primary] };
                match multipath_refusal(given) {
                    Some(error) => result == Err::<Self, ConfigError>(error),
                    None => result matches Ok(multipath) && multipath@ == given,
                }
            }),
    {
        let multipath = Multipath { mode: MultipathMode::Off, candidates: vec![primary] };
        assert(multipath.candidates@ =~= seq![primary]);
        match validate_multipath(&multipath) {
            Ok(()) => Ok(multipath),
            Err(error) => Err(error),
        }
    }

    /// Creates a failover configuration ordered primary, then backup.
    pub fn failover(primary: PathCandidate, backup: PathCandidate) -> (result: Result<Self, ConfigError>)
        ensures
            ({
                let given = MultipathModel { mode: MultipathMode::Failover, candidates: seq![primary, backup] };
                match multipath_refusal(given) {
                    Some(error) => result == Err::<Self, ConfigError>(error),
                    None => result matches Ok(multipath) && multipath@ == given,
                }
            }),
    {
        let multipath = Multipath { mode: MultipathMode::Failover, candidates: vec![primary, backup] };
        assert(multipath.candidates@ =~= seq![primary, backup]);
        match validate_multipath(&multipath) {
            Ok(()) => Ok(multipath),
            Err(error) => Err(error),
        }
    }

    /// Takes a selection as it was read. The configuration that holds it checks it.
    pub fn from_raw(mode: MultipathMode, candidates: Vec<PathCandidate>) -> (multipath: Self)
        ensures
            multipath@ == (MultipathModel { mode, candidates: candidates@ }),
    {
        Multipath { mode, candidates }
    }

    /// Returns the configured path mode.
    pub fn mode(&self) -> (mode: MultipathMode)
        ensures
            mode == self@.mode,
    {
        self.mode
    }

    /// Returns candidates in primary-then-backup order.
    pub fn candidates(&self) -> (candidates: &[PathCandidate])
        ensures
            candidates@ == self@.candidates,
    {
        self.candidates.as_slice()
    }
}

}
