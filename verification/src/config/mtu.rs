//! MTU, MSS, and PMTU policy.
use crate::config::duration::Duration;
use crate::config::error::ConfigError;
use vstd::prelude::*;

verus! {

/// QUIC's minimum UDP payload size.
pub const MIN_QUIC_PAYLOAD: u16 = 1200;

/// QUIC's maximum UDP payload size.
pub const MAX_QUIC_PAYLOAD: u16 = 65_527;

const MIN_OUTER_IP_MTU: u16 = 1260;

const DEFAULT_OUTER_IP_MTU: u16 = 1500;

/// MSS advertisement policy for the TCP-shaped carrier.
#[derive(Clone, Copy, Debug, PartialEq, Eq, Structural)]
pub enum MssMode {
    /// Derive MSS from the configured outer IP MTU and path address family.
    Auto,
    /// Advertise a caller-selected MSS after validating it against the path envelope.
    Fixed(u16),
}

/// QUIC path MTU discovery policy.
#[derive(Clone, Copy, Debug, PartialEq, Eq, Structural)]
pub enum PmtuMode {
    /// Let the carrier capability decide whether backend discovery is enabled.
    Auto,
    /// Use the configured static payload and do not probe.
    Disabled,
    /// Require a non-fragmenting carrier so probing is meaningful.
    Required,
}

impl Default for MssMode {
    fn default() -> (mode: Self)
        ensures
            mode == MssMode::Auto,
    {
        MssMode::Auto
    }
}

impl Default for PmtuMode {
    fn default() -> (mode: Self)
        ensures
            mode == PmtuMode::Auto,
    {
        PmtuMode::Auto
    }
}

/// Explicit MTU, MSS, and PMTU units for one QUICP transport policy.
#[derive(Clone, Copy, Debug, PartialEq, Eq, Structural)]
pub struct MtuConfig {
    /// Complete outer IP packet MTU used by raw `FakeTCP`, in bytes.
    pub outer_ip_mtu: u16,
    /// Maximum QUIC payload, excluding outer IP and carrier headers, in bytes.
    pub max_quic_payload: Option<u16>,
    /// Initial QUIC payload used before path discovery, in bytes.
    pub initial_quic_payload: u16,
    /// Minimum QUIC payload after black-hole recovery, in bytes.
    pub min_quic_payload: u16,
    /// SYN MSS advertisement policy.
    pub mss: MssMode,
    /// QUIC path MTU discovery policy.
    pub pmtu: PmtuMode,
    /// Optional upper bound for discovered QUIC payload, in bytes.
    pub pmtu_upper_bound: Option<u16>,
    /// Time between PMTU discovery runs.
    pub pmtu_interval: Duration,
    /// Smallest payload change that is worth retaining.
    pub pmtu_minimum_change: u16,
    /// Delay before retrying after a PMTU black-hole event.
    pub pmtu_black_hole_cooldown: Duration,
}

/// The default policy.
pub open spec fn default_mtu() -> MtuConfig {
    MtuConfig {
        outer_ip_mtu: 1500,
        max_quic_payload: None,
        initial_quic_payload: MIN_QUIC_PAYLOAD,
        min_quic_payload: MIN_QUIC_PAYLOAD,
        mss: MssMode::Auto,
        pmtu: PmtuMode::Auto,
        pmtu_upper_bound: None,
        pmtu_interval: Duration { seconds: 600, nanoseconds: 0 },
        pmtu_minimum_change: 20,
        pmtu_black_hole_cooldown: Duration { seconds: 60, nanoseconds: 0 },
    }
}

impl Default for MtuConfig {
    fn default() -> (config: Self)
        ensures
            config == default_mtu(),
    {
        MtuConfig {
            outer_ip_mtu: DEFAULT_OUTER_IP_MTU,
            max_quic_payload: None,
            initial_quic_payload: MIN_QUIC_PAYLOAD,
            min_quic_payload: MIN_QUIC_PAYLOAD,
            mss: MssMode::Auto,
            pmtu: PmtuMode::Auto,
            pmtu_upper_bound: None,
            pmtu_interval: Duration::from_seconds(600),
            pmtu_minimum_change: 20,
            pmtu_black_hole_cooldown: Duration::from_seconds(60),
        }
    }
}

/// Whether a payload is one that QUIC allows.
pub open spec fn payload_allowed(value: u16) -> bool {
    MIN_QUIC_PAYLOAD <= value <= MAX_QUIC_PAYLOAD
}

/// Why an MTU policy is refused, if it is: the first rule that it breaks.
pub open spec fn mtu_refusal(config: MtuConfig) -> Option<ConfigError> {
    let minimum = config.min_quic_payload;
    let initial = config.initial_quic_payload;
    let maximum = config.max_quic_payload;
    let bound = config.pmtu_upper_bound;
    if config.outer_ip_mtu < 1260 {
        Some(ConfigError::InvalidOuterMtu(config.outer_ip_mtu))
    } else if !payload_allowed(minimum) {
        Some(ConfigError::InvalidPayload { name: "minimum QUIC payload", value: minimum })
    } else if !payload_allowed(initial) {
        Some(ConfigError::InvalidPayload { name: "initial QUIC payload", value: initial })
    } else if minimum > initial {
        Some(
            ConfigError::MtuOrdering {
                minimum,
                initial,
                upper: if bound is Some {
                    bound
                } else {
                    maximum
                },
            },
        )
    } else if maximum is Some && !payload_allowed(maximum->0) {
        Some(ConfigError::InvalidPayload { name: "maximum QUIC payload", value: maximum->0 })
    } else if maximum is Some && initial > maximum->0 {
        Some(ConfigError::MtuOrdering { minimum, initial, upper: maximum })
    } else if bound is Some && !payload_allowed(bound->0) {
        Some(ConfigError::InvalidPayload { name: "PMTU upper bound", value: bound->0 })
    } else if bound is Some && (bound->0 < initial || maximum is Some && bound->0 > maximum->0) {
        Some(ConfigError::MtuOrdering { minimum, initial, upper: bound })
    } else if config.pmtu_interval.length() == 0 || config.pmtu_black_hole_cooldown.length() == 0 {
        Some(ConfigError::ZeroPmtuDuration)
    } else if config.pmtu_minimum_change == 0 {
        Some(ConfigError::ZeroPmtuChange)
    } else {
        match config.mss {
            MssMode::Fixed(mss) if mss == 0 || mss > MAX_QUIC_PAYLOAD => Some(
                ConfigError::InvalidMss { mss, maximum: MAX_QUIC_PAYLOAD },
            ),
            _ => None,
        }
    }
}

/// What is asked of an MTU policy: an outer MTU that fits the smallest payload with every
/// header, payloads that QUIC allows and that do not decrease from the minimum over the
/// initial one to the bounds, timers and a step that are not zero, and an MSS that a
/// packet can have.
pub open spec fn sound_mtu(config: MtuConfig) -> bool {
    &&& config.outer_ip_mtu >= 1260
    &&& MIN_QUIC_PAYLOAD <= config.min_quic_payload <= config.initial_quic_payload <= MAX_QUIC_PAYLOAD
    &&& config.max_quic_payload matches Some(maximum) ==> config.initial_quic_payload <= maximum
        <= MAX_QUIC_PAYLOAD
    &&& config.pmtu_upper_bound matches Some(bound) ==> config.initial_quic_payload <= bound <= MAX_QUIC_PAYLOAD
        && (config.max_quic_payload matches Some(maximum) ==> bound <= maximum)
    &&& config.pmtu_interval.length() > 0
    &&& config.pmtu_black_hole_cooldown.length() > 0
    &&& config.pmtu_minimum_change > 0
    &&& config.mss matches MssMode::Fixed(mss) ==> 0 < mss <= MAX_QUIC_PAYLOAD
}

/// An MTU policy is accepted exactly where it is sound.
pub proof fn law_sound_mtu_is_accepted(config: MtuConfig)
    ensures
        mtu_refusal(config) is None <==> sound_mtu(config),
{
}

fn validate_payload(name: &'static str, value: u16) -> (result: Result<(), ConfigError>)
    ensures
        if payload_allowed(value) {
            result is Ok
        } else {
            result == Err::<(), ConfigError>(ConfigError::InvalidPayload { name, value })
        },
{
    if value < MIN_QUIC_PAYLOAD || value > MAX_QUIC_PAYLOAD {
        return Err(ConfigError::InvalidPayload { name, value });
    }
    Ok(())
}

/// The bytes in front of a payload: the IP and the TCP header.
pub open spec fn carrier_overhead(ipv4: bool) -> int {
    if ipv4 {
        40
    } else {
        60
    }
}

/// The smaller of two numbers.
pub open spec fn smaller(left: int, right: int) -> int {
    if left < right {
        left
    } else {
        right
    }
}

/// The larger of two payloads.
pub open spec fn larger(left: u16, right: u16) -> u16 {
    if left > right {
        left
    } else {
        right
    }
}

/// The payload that fits one packet of an address family, or why the policy cannot be
/// used there.
pub open spec fn family_payload(config: MtuConfig, ipv4: bool) -> Result<u16, ConfigError> {
    let safe = config.outer_ip_mtu - carrier_overhead(ipv4);
    let ceiling = match config.max_quic_payload {
        Some(configured) => smaller(configured as int, MAX_QUIC_PAYLOAD as int),
        None => MAX_QUIC_PAYLOAD as int,
    };
    let effective = smaller(safe, ceiling) as u16;
    if safe < 0 {
        Err(ConfigError::InvalidOuterMtu(config.outer_ip_mtu))
    } else if effective < config.initial_quic_payload || effective < config.min_quic_payload {
        Err(
            ConfigError::PayloadExceedsCarrier {
                payload: larger(config.initial_quic_payload, config.min_quic_payload),
                maximum: effective,
            },
        )
    } else {
        match config.mss {
            MssMode::Fixed(mss) if mss > safe => Err(ConfigError::InvalidMss { mss, maximum: safe as u16 }),
            _ => Ok(effective),
        }
    }
}

/// The payload that fits every address family of a list, and a bound.
pub open spec fn families_payload(config: MtuConfig, bound: u16, families: Seq<bool>) -> Result<u16, ConfigError>
    decreases families.len(),
{
    if families.len() == 0 {
        Ok(bound)
    } else {
        match families_payload(config, bound, families.drop_last()) {
            Err(error) => Err(error),
            Ok(ceiling) => match family_payload(config, families.last()) {
                Err(error) => Err(error),
                Ok(payload) => Ok(smaller(ceiling as int, payload as int) as u16),
            },
        }
    }
}

/// The largest payload of a policy without discovery, or why there is none.
pub open spec fn static_ceiling(config: MtuConfig, adapter_mtu: Option<u16>, families: Seq<bool>) -> Result<
    u16,
    ConfigError,
> {
    let configured = match config.max_quic_payload {
        Some(maximum) => maximum,
        None => MAX_QUIC_PAYLOAD,
    };
    let adapter = match adapter_mtu {
        Some(mtu) => smaller(configured as int, mtu as int) as u16,
        None => configured,
    };
    match families_payload(config, adapter, families) {
        Err(error) => Err(error),
        Ok(payload) => {
            let ceiling = match config.pmtu_upper_bound {
                Some(upper) => smaller(payload as int, upper as int) as u16,
                None => payload,
            };
            if ceiling < config.initial_quic_payload || ceiling < config.min_quic_payload {
                Err(
                    ConfigError::PayloadExceedsCarrier {
                        payload: larger(config.initial_quic_payload, config.min_quic_payload),
                        maximum: ceiling,
                    },
                )
            } else {
                Ok(ceiling)
            }
        },
    }
}

proof fn lemma_families_fail(config: MtuConfig, bound: u16, families: Seq<bool>, count: int)
    requires
        0 <= count <= families.len(),
        families_payload(config, bound, families.take(count)) is Err,
    ensures
        families_payload(config, bound, families) == families_payload(config, bound, families.take(count)),
    decreases families.len() - count,
{
    if count == families.len() {
        assert(families.take(count) =~= families);
    } else {
        assert(families.take(count + 1).drop_last() =~= families.take(count));
        lemma_families_fail(config, bound, families, count + 1);
    }
}

impl MtuConfig {
    /// Checks the policy.
    pub fn validate(&self) -> (result: Result<(), ConfigError>)
        ensures
            match mtu_refusal(*self) {
                Some(error) => result == Err::<(), ConfigError>(error),
                None => result is Ok,
            },
    {
        if self.outer_ip_mtu < MIN_OUTER_IP_MTU {
            return Err(ConfigError::InvalidOuterMtu(self.outer_ip_mtu));
        }
        if let Err(error) = validate_payload("minimum QUIC payload", self.min_quic_payload) {
            return Err(error);
        }
        if let Err(error) = validate_payload("initial QUIC payload", self.initial_quic_payload) {
            return Err(error);
        }
        if self.min_quic_payload > self.initial_quic_payload {
            return Err(
                ConfigError::MtuOrdering {
                    minimum: self.min_quic_payload,
                    initial: self.initial_quic_payload,
                    upper: match self.pmtu_upper_bound {
                        Some(bound) => Some(bound),
                        None => self.max_quic_payload,
                    },
                },
            );
        }
        if let Some(maximum) = self.max_quic_payload {
            if let Err(error) = validate_payload("maximum QUIC payload", maximum) {
                return Err(error);
            }
            if self.initial_quic_payload > maximum {
                return Err(
                    ConfigError::MtuOrdering {
                        minimum: self.min_quic_payload,
                        initial: self.initial_quic_payload,
                        upper: Some(maximum),
                    },
                );
            }
        }
        if let Some(upper) = self.pmtu_upper_bound {
            if let Err(error) = validate_payload("PMTU upper bound", upper) {
                return Err(error);
            }
            let exceeds: bool = match self.max_quic_payload {
                Some(maximum) => upper > maximum,
                None => false,
            };
            if upper < self.initial_quic_payload || exceeds {
                return Err(
                    ConfigError::MtuOrdering {
                        minimum: self.min_quic_payload,
                        initial: self.initial_quic_payload,
                        upper: Some(upper),
                    },
                );
            }
        }
        if self.pmtu_interval.is_zero() || self.pmtu_black_hole_cooldown.is_zero() {
            return Err(ConfigError::ZeroPmtuDuration);
        }
        if self.pmtu_minimum_change == 0 {
            return Err(ConfigError::ZeroPmtuChange);
        }
        if let MssMode::Fixed(mss) = self.mss {
            if mss == 0 || mss > MAX_QUIC_PAYLOAD {
                return Err(ConfigError::InvalidMss { mss, maximum: MAX_QUIC_PAYLOAD });
            }
        }
        Ok(())
    }

    /// The payload that fits one raw carrier packet of an address family.
    pub fn safe_payload_for_family(&self, ipv4: bool) -> (result: Result<u16, ConfigError>)
        ensures
            result == family_payload(*self, ipv4),
    {
        let overhead: u16 = if ipv4 {
            40
        } else {
            60
        };
        if self.outer_ip_mtu < overhead {
            return Err(ConfigError::InvalidOuterMtu(self.outer_ip_mtu));
        }
        let safe: u16 = self.outer_ip_mtu - overhead;
        let ceiling: u16 = match self.max_quic_payload {
            Some(configured) => if configured < MAX_QUIC_PAYLOAD {
                configured
            } else {
                MAX_QUIC_PAYLOAD
            },
            None => MAX_QUIC_PAYLOAD,
        };
        let effective: u16 = if safe < ceiling {
            safe
        } else {
            ceiling
        };
        if effective < self.initial_quic_payload || effective < self.min_quic_payload {
            return Err(
                ConfigError::PayloadExceedsCarrier { payload: self.largest_demand(), maximum: effective },
            );
        }
        if let MssMode::Fixed(mss) = self.mss {
            if mss > safe {
                return Err(ConfigError::InvalidMss { mss, maximum: safe });
            }
        }
        Ok(effective)
    }

    fn largest_demand(&self) -> (payload: u16)
        ensures
            payload == larger(self.initial_quic_payload, self.min_quic_payload),
    {
        if self.initial_quic_payload > self.min_quic_payload {
            self.initial_quic_payload
        } else {
            self.min_quic_payload
        }
    }

    /// The largest payload that the policy, the adapter and the raw carriers of the given
    /// families (IPv4 or not) all allow.
    pub fn static_payload_ceiling(&self, adapter_mtu: Option<u16>, raw_families: &[bool]) -> (result: Result<
        u16,
        ConfigError,
    >)
        ensures
            result == static_ceiling(*self, adapter_mtu, raw_families@),
    {
        let mut ceiling: u16 = match self.max_quic_payload {
            Some(maximum) => maximum,
            None => MAX_QUIC_PAYLOAD,
        };
        if let Some(mtu) = adapter_mtu {
            if mtu <= ceiling {
                ceiling = mtu;
            }
        }
        let ghost bound = ceiling;
        let mut at: usize = 0;
        assert(raw_families@.take(0) =~= Seq::empty());
        while at < raw_families.len()
            invariant
                at <= raw_families@.len(),
                families_payload(*self, bound, raw_families@.take(at as int)) == Ok::<u16, ConfigError>(ceiling),
                static_ceiling(*self, adapter_mtu, raw_families@) == (match families_payload(
                    *self,
                    bound,
                    raw_families@,
                ) {
                    Err(error) => Err(error),
                    Ok(payload) => {
                        let ceiling = match self.pmtu_upper_bound {
                            Some(upper) => smaller(payload as int, upper as int) as u16,
                            None => payload,
                        };
                        if ceiling < self.initial_quic_payload || ceiling < self.min_quic_payload {
                            Err(
                                ConfigError::PayloadExceedsCarrier {
                                    payload: larger(self.initial_quic_payload, self.min_quic_payload),
                                    maximum: ceiling,
                                },
                            )
                        } else {
                            Ok(ceiling)
                        }
                    },
                }),
            decreases raw_families@.len() - at,
        {
            assert(raw_families@.take(at + 1).drop_last() =~= raw_families@.take(at as int));
            assert(raw_families@.take(at + 1).last() == raw_families@[at as int]);
            match self.safe_payload_for_family(raw_families[at]) {
                Ok(payload) => {
                    if payload <= ceiling {
                        ceiling = payload;
                    }
                },
                Err(error) => {
                    proof {
                        lemma_families_fail(*self, bound, raw_families@, at + 1);
                    }
                    return Err(error);
                },
            }
            at = at + 1;
        }
        assert(raw_families@.take(at as int) =~= raw_families@);
        if let Some(upper) = self.pmtu_upper_bound {
            if upper <= ceiling {
                ceiling = upper;
            }
        }
        if ceiling < self.initial_quic_payload || ceiling < self.min_quic_payload {
            return Err(ConfigError::PayloadExceedsCarrier { payload: self.largest_demand(), maximum: ceiling });
        }
        Ok(ceiling)
    }
}

proof fn lemma_families_bound(config: MtuConfig, bound: u16, families: Seq<bool>)
    ensures
        families_payload(config, bound, families) matches Ok(payload) ==> payload <= bound && forall|index: int|
            0 <= index < families.len() ==> (family_payload(config, #[trigger] families[index]) matches Ok(each)
                && payload <= each),
    decreases families.len(),
{
    if families.len() > 0 {
        let front = families.drop_last();
        lemma_families_bound(config, bound, front);
        assert(forall|index: int| 0 <= index < front.len() ==> front[index] == #[trigger] families[index]);
    }
}

/// A payload within the ceiling fits every carrier that the ceiling was computed for: with
/// its headers it is no larger than the outer MTU, and it is no larger than the adapter
/// takes. The initial payload is within the ceiling.
pub proof fn law_static_ceiling_fits_every_carrier(
    config: MtuConfig,
    adapter_mtu: Option<u16>,
    families: Seq<bool>,
    payload: u16,
)
    requires
        static_ceiling(config, adapter_mtu, families) matches Ok(ceiling) && payload <= ceiling,
    ensures
        forall|index: int|
            0 <= index < families.len() ==> payload + carrier_overhead(#[trigger] families[index])
                <= config.outer_ip_mtu,
        adapter_mtu matches Some(mtu) ==> payload <= mtu,
        config.max_quic_payload matches Some(maximum) ==> payload <= maximum,
        config.pmtu_upper_bound matches Some(upper) ==> payload <= upper,
        config.initial_quic_payload <= static_ceiling(config, adapter_mtu, families)->Ok_0,
{
    let configured = match config.max_quic_payload {
        Some(maximum) => maximum,
        None => MAX_QUIC_PAYLOAD,
    };
    let adapter = match adapter_mtu {
        Some(mtu) => smaller(configured as int, mtu as int) as u16,
        None => configured,
    };
    lemma_families_bound(config, adapter, families);
}

}
