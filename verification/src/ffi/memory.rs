//! Where the caller's buffers stand, and that they do not overlap.
use vstd::prelude::*;

verus! {

/// A range of memory: `count` values of `size` bytes each.
#[derive(Clone, Copy, Debug, PartialEq, Eq, Structural)]
pub struct Region {
    /// Where it starts.
    pub address: usize,
    /// The bytes of one value.
    pub size: usize,
    /// How many values there are.
    pub count: usize,
}

/// A pointer to one value.
#[derive(Clone, Copy, Debug, PartialEq, Eq, Structural)]
pub struct Pointer {
    /// Where it points.
    pub address: usize,
    /// The bytes of the value.
    pub size: usize,
    /// What the address has to be a multiple of.
    pub align: usize,
}

impl Region {
    /// How many bytes the range has.
    pub open spec fn bytes(self) -> int {
        self.size * self.count
    }

    /// Whether an address is in the range.
    pub open spec fn covers(self, address: int) -> bool {
        self.address <= address < self.address + self.bytes()
    }

    /// Where the range ends. The bytes count at most as many as can be counted; a range that
    /// would end behind the last address has no end.
    pub open spec fn end(self) -> Option<int> {
        let bytes = if self.bytes() > usize::MAX {
            usize::MAX as int
        } else {
            self.bytes()
        };
        if self.address + bytes > usize::MAX {
            None
        } else {
            Some(self.address + bytes)
        }
    }
}

impl Pointer {
    /// The memory of the value.
    pub open spec fn region(self) -> Region {
        Region { address: self.address, size: self.size, count: 1 }
    }

    /// Whether the pointer may be written through, as far as its address tells.
    pub open spec fn valid(self) -> bool {
        self.address != 0 && self.address % self.align == 0
    }
}

/// Whether two ranges stand apart: both end, and one ends before the other starts.
pub open spec fn apart(left: Region, right: Region) -> bool {
    match (left.end(), right.end()) {
        (Some(left_end), Some(right_end)) => left_end <= right.address || right_end <= left.address,
        _ => false,
    }
}

/// Standing apart does not depend on the order.
pub proof fn law_apart_is_symmetric(left: Region, right: Region)
    ensures
        apart(left, right) == apart(right, left),
{
}

/// Ranges that stand apart share no byte.
pub proof fn law_apart_regions_share_no_byte(left: Region, right: Region, address: int)
    requires
        apart(left, right),
    ensures
        !(left.covers(address) && right.covers(address)),
{
    assert(left.bytes() >= 0) by (nonlinear_arith)
        requires left.bytes() == left.size * left.count;
    assert(right.bytes() >= 0) by (nonlinear_arith)
        requires right.bytes() == right.size * right.count;
}

fn region_end(region: Region) -> (end: Option<usize>)
    ensures
        match end {
            Some(address) => region.end() == Some(address as int),
            None => region.end() is None,
        },
{
    let bytes: usize = match region.size.checked_mul(region.count) {
        Some(bytes) => bytes,
        None => usize::MAX,
    };
    region.address.checked_add(bytes)
}

/// Whether two ranges stand apart.
pub fn disjoint(left: Region, right: Region) -> (distinct: bool)
    ensures
        distinct == apart(left, right),
{
    match (region_end(left), region_end(right)) {
        (Some(left_end), Some(right_end)) => left_end <= right.address || right_end <= left.address,
        _ => false,
    }
}

/// Whether a pointer is neither null nor misaligned.
pub fn valid_mut(pointer: Pointer) -> (valid: bool)
    requires
        pointer.align > 0,
    ensures
        valid == pointer.valid(),
{
    pointer.address != 0 && pointer.address % pointer.align == 0
}

/// The memory of the value that a pointer points to.
pub fn region_of(pointer: Pointer) -> (region: Region)
    ensures
        region == pointer.region(),
{
    Region { address: pointer.address, size: pointer.size, count: 1 }
}

/// Whether an output of an engine call may be written: it is valid, and not in the engine.
pub open spec fn output_valid(engine: Pointer, output: Pointer) -> bool {
    output.valid() && apart(engine.region(), output.region())
}

/// Whether an output of an engine call may be written.
pub fn valid_engine_output(engine: Pointer, output: Pointer) -> (valid: bool)
    requires
        output.align > 0,
    ensures
        valid == output_valid(engine, output),
{
    valid_mut(output) && disjoint(region_of(engine), region_of(output))
}

/// A caller's byte buffer.
#[derive(Clone, Copy, Debug, PartialEq, Eq, Structural)]
pub struct Buffer {
    /// Where it starts.
    pub address: usize,
    /// How many bytes it has.
    pub length: usize,
}

impl Buffer {
    /// The memory of the buffer.
    pub open spec fn region(self) -> Region {
        Region { address: self.address, size: 1, count: self.length }
    }
}

/// The memory of a buffer.
pub fn buffer_region(buffer: Buffer) -> (region: Region)
    ensures
        region == buffer.region(),
{
    Region { address: buffer.address, size: 1, count: buffer.length }
}

/// Whether the memory of every two ranges of a list stands apart.
pub open spec fn all_apart(regions: Seq<Region>) -> bool {
    forall|left: int, right: int|
        0 <= left < right < regions.len() ==> apart(#[trigger] regions[left], #[trigger] regions[right])
}

/// Whether a pair of an input or output buffer and one output value is acceptable to an
/// engine call: both are there, and neither overlaps the other or the engine.
pub open spec fn transfer_valid(engine: Pointer, buffer: Buffer, output: Pointer) -> bool {
    &&& buffer.address != 0
    &&& buffer.length != 0
    &&& output.valid()
    &&& all_apart(seq![engine.region(), output.region(), buffer.region()])
}

/// Checks the buffer and the output value of a call that moves bytes.
pub fn valid_transfer(engine: Pointer, buffer: Buffer, output: Pointer) -> (valid: bool)
    requires
        output.align > 0,
    ensures
        valid == transfer_valid(engine, buffer, output),
{
    let ghost regions = seq![engine.region(), output.region(), buffer.region()];
    let valid: bool = buffer.address != 0 && buffer.length != 0 && valid_engine_output(engine, output) && disjoint(
        region_of(engine),
        buffer_region(buffer),
    ) && disjoint(buffer_region(buffer), region_of(output));
    proof {
        law_apart_is_symmetric(buffer.region(), output.region());
        if transfer_valid(engine, buffer, output) {
            assert(apart(regions[0], regions[1]));
            assert(apart(regions[0], regions[2]));
            assert(apart(regions[1], regions[2]));
        }
    }
    valid
}

/// Where a call that looks at a pending request puts what it finds.
#[derive(Clone, Copy, Debug, PartialEq, Eq, Structural)]
pub struct RequestOutputs {
    /// The handle of the request.
    pub request: Pointer,
    /// The host.
    pub host: Buffer,
    /// The length of the host.
    pub host_length: Pointer,
    /// The port.
    pub port: Pointer,
    /// The initial data.
    pub initial: Buffer,
    /// The length of the initial data.
    pub initial_length: Pointer,
}

impl RequestOutputs {
    /// The values have an alignment.
    pub open spec fn wf(self) -> bool {
        self.request.align > 0 && self.host_length.align > 0 && self.port.align > 0 && self.initial_length.align > 0
    }

    /// The memory of the engine, of the output values and of the buffers that are not empty.
    pub open spec fn regions(self, engine: Pointer) -> Seq<Region> {
        let values = seq![
            engine.region(),
            self.request.region(),
            self.host_length.region(),
            self.port.region(),
            self.initial_length.region(),
        ];
        let with_host = if self.host.length == 0 {
            values
        } else {
            values.push(self.host.region())
        };
        if self.initial.length == 0 {
            with_host
        } else {
            with_host.push(self.initial.region())
        }
    }

    /// Whether the outputs may be written: every value is valid, a buffer that is not empty
    /// is there, and nothing overlaps anything else or the engine.
    pub open spec fn valid(self, engine: Pointer) -> bool {
        &&& self.request.valid()
        &&& self.host_length.valid()
        &&& self.port.valid()
        &&& self.initial_length.valid()
        &&& self.host.length != 0 ==> self.host.address != 0
        &&& self.initial.length != 0 ==> self.initial.address != 0
        &&& all_apart(self.regions(engine))
    }

    /// The four values are valid and stand apart from each other and the engine.
    spec fn values_valid(self, engine: Pointer) -> bool {
        &&& output_valid(engine, self.request)
        &&& output_valid(engine, self.host_length)
        &&& output_valid(engine, self.port)
        &&& output_valid(engine, self.initial_length)
        &&& apart(self.request.region(), self.host_length.region())
        &&& apart(self.request.region(), self.port.region())
        &&& apart(self.request.region(), self.initial_length.region())
        &&& apart(self.host_length.region(), self.port.region())
        &&& apart(self.host_length.region(), self.initial_length.region())
        &&& apart(self.port.region(), self.initial_length.region())
    }

    /// A buffer is empty, or is there and stands apart from the four values and the engine.
    spec fn buffer_valid(self, engine: Pointer, buffer: Buffer) -> bool {
        buffer.length == 0 || {
            &&& buffer.address != 0
            &&& apart(engine.region(), buffer.region())
            &&& apart(buffer.region(), self.request.region())
            &&& apart(buffer.region(), self.host_length.region())
            &&& apart(buffer.region(), self.port.region())
            &&& apart(buffer.region(), self.initial_length.region())
        }
    }

    fn check_values(&self, engine: Pointer) -> (valid: bool)
        requires
            self.wf(),
        ensures
            valid == self.values_valid(engine),
    {
        valid_engine_output(engine, self.request) && valid_engine_output(engine, self.host_length)
            && valid_engine_output(engine, self.port) && valid_engine_output(engine, self.initial_length) && disjoint(
            region_of(self.request),
            region_of(self.host_length),
        ) && disjoint(region_of(self.request), region_of(self.port)) && disjoint(
            region_of(self.request),
            region_of(self.initial_length),
        ) && disjoint(region_of(self.host_length), region_of(self.port)) && disjoint(
            region_of(self.host_length),
            region_of(self.initial_length),
        ) && disjoint(region_of(self.port), region_of(self.initial_length))
    }

    fn check_buffer(&self, engine: Pointer, buffer: Buffer) -> (valid: bool)
        ensures
            valid == self.buffer_valid(engine, buffer),
    {
        let region = buffer_region(buffer);
        buffer.length == 0 || (buffer.address != 0 && disjoint(region_of(engine), region) && disjoint(
            region,
            region_of(self.request),
        ) && disjoint(region, region_of(self.host_length)) && disjoint(region, region_of(self.port)) && disjoint(
            region,
            region_of(self.initial_length),
        ))
    }

    proof fn lemma_valid(self, engine: Pointer)
        ensures
            self.valid(engine) == (self.values_valid(engine) && self.buffer_valid(engine, self.host)
                && self.buffer_valid(engine, self.initial) && (self.host.length == 0 || self.initial.length == 0
                || apart(self.host.region(), self.initial.region()))),
    {
        let regions = self.regions(engine);
        let count = regions.len() as int;
        let host = 5int;
        let initial = if self.host.length == 0 {
            5int
        } else {
            6int
        };
        if all_apart(regions) {
            assert(apart(regions[0], regions[1]) && apart(regions[0], regions[2]) && apart(regions[0], regions[3])
                && apart(regions[0], regions[4]));
            assert(apart(regions[1], regions[2]) && apart(regions[1], regions[3]) && apart(regions[1], regions[4]));
            assert(apart(regions[2], regions[3]) && apart(regions[2], regions[4]) && apart(regions[3], regions[4]));
            if self.host.length != 0 {
                assert(apart(regions[0], regions[host]) && apart(regions[1], regions[host]) && apart(
                    regions[2],
                    regions[host],
                ) && apart(regions[3], regions[host]) && apart(regions[4], regions[host]));
            }
            if self.initial.length != 0 {
                assert(apart(regions[0], regions[initial]) && apart(regions[1], regions[initial]) && apart(
                    regions[2],
                    regions[initial],
                ) && apart(regions[3], regions[initial]) && apart(regions[4], regions[initial]));
                if self.host.length != 0 {
                    assert(apart(regions[host], regions[initial]));
                }
            }
        }
    }

    /// Checks the outputs.
    pub fn check(&self, engine: Pointer) -> (valid: bool)
        requires
            self.wf(),
        ensures
            valid == self.valid(engine),
    {
        proof {
            self.lemma_valid(engine);
        }
        self.check_values(engine) && self.check_buffer(engine, self.host) && self.check_buffer(engine, self.initial)
            && (self.host.length == 0 || self.initial.length == 0 || disjoint(
            buffer_region(self.host),
            buffer_region(self.initial),
        ))
    }
}

}
