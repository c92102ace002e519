//! The incremental decoder: a window of known sources and equations over missing ones.
use crate::fec::matrix;
use crate::fec::matrix::{FecError, Row, RowModel};
use crate::fec::room;
use crate::fec::room::{bounded_vec, extend_bytes, extend_terms};
use crate::fec::symbol;
use crate::fec::symbol::MAX_REPAIR_SPAN;
use crate::recovery::{RecoveryCharge, RecoveryMemoryBudget};
use crate::storage;
use bytes::{Bytes, BytesMut};
use std::collections::{HashSet, VecDeque};
use vstd::prelude::*;

verus! {

/// The largest number of records that one source symbol may hold.
pub const MAX_DECODED_SOURCE_RECORDS: usize = 32;

/// One record inside a source symbol.
#[derive(Clone, Copy, Debug)]
pub struct SourceRecord<'a> {
    pub flow_id: u64,
    pub offset: u64,
    pub fin: bool,
    pub data: &'a [u8],
}

/// A source symbol that the decoder keeps, with the memory that stands behind it.
#[derive(Debug)]
pub struct KnownSource {
    pub symbol_id: u32,
    pub bytes: Bytes,
    pub retained_bytes: usize,
}

/// Whether a source symbol was seen before.
#[derive(Clone, Copy, Debug, PartialEq, Eq, Structural)]
pub enum SourceStatus {
    New,
    Duplicate,
}

/// How the bytes of a recovered symbol read as a source symbol.
#[derive(Clone, Copy, Debug, PartialEq, Eq, Structural)]
pub enum DecodedSource {
    /// The bytes are no source symbol.
    Rejected,
    /// The record list holds more memory than it has records.
    Oversized,
    /// A source symbol of the given identifier stands in the first `consumed` bytes.
    Symbol { symbol_id: u32, consumed: usize },
}

/// A source symbol that the equations gave back.
#[derive(Debug)]
pub struct RecoveredSource {
    pub symbol_id: u32,
    pub bytes: Bytes,
    pub retained_bytes: usize,
}

/// The content of a kept source.
pub struct KnownModel {
    pub symbol_id: u32,
    pub bytes: Seq<u8>,
    pub retained: int,
}

impl View for KnownSource {
    type V = KnownModel;

    open spec fn view(&self) -> KnownModel {
        KnownModel {
            symbol_id: self.symbol_id,
            bytes: storage::contents(self.bytes),
            retained: self.retained_bytes as int,
        }
    }
}

/// The content of a decoder.
pub struct DecoderModel {
    pub known: Seq<KnownModel>,
    pub rows: Seq<RowModel>,
    pub max_symbols: int,
    pub max_rows: int,
    pub max_symbol_bytes: int,
    pub row_bytes: int,
}

/// The position of a known source among the first `end`.
pub open spec fn find_known(known: Seq<KnownModel>, id: u32, end: int) -> Option<int>
    decreases end,
{
    if end <= 0 {
        None
    } else {
        match find_known(known, id, end - 1) {
            Some(at) => Some(at),
            None => if known[end - 1].symbol_id == id {
                Some(end - 1)
            } else {
                None
            },
        }
    }
}

/// The bytes of a known source.
pub open spec fn known_bytes(known: Seq<KnownModel>, id: u32) -> Option<Seq<u8>> {
    match find_known(known, id, known.len() as int) {
        Some(at) => Some(known[at].bytes),
        None => None,
    }
}

/// The memory behind the known sources.
pub open spec fn retained_by(known: Seq<KnownModel>) -> int
    decreases known.len(),
{
    if known.len() == 0 {
        0
    } else {
        retained_by(known.drop_last()) + known.last().retained
    }
}

impl DecoderModel {
    /// The memory that the decoder holds.
    pub open spec fn held(self) -> int {
        retained_by(self.known) + self.row_bytes
    }

    /// The memory of the source that leaves when another one comes.
    pub open spec fn evicted_bytes(self) -> int {
        if self.known.len() >= self.max_symbols && self.known.len() > 0 {
            self.known[0].retained
        } else {
            0
        }
    }

    /// The window after `source` came: the oldest source leaves a full window.
    pub open spec fn known_with(self, source: KnownModel) -> Seq<KnownModel> {
        if self.known.len() >= self.max_symbols {
            self.known.push(source).skip(1)
        } else {
            self.known.push(source)
        }
    }
}

/// The sum of the lengths of the first `end` coefficient lists.
pub open spec fn coefficient_total(rows: Seq<RowModel>, end: int) -> int
    decreases end,
{
    if end <= 0 {
        0
    } else {
        coefficient_total(rows, end - 1) + rows[end - 1].coefficients.len()
    }
}

/// The sum of the sizes of the first `end` rows.
pub open spec fn clone_total(rows: Seq<RowModel>, end: int) -> int
    decreases end,
{
    if end <= 0 {
        0
    } else {
        clone_total(rows, end - 1) + matrix::row_cost(rows[end - 1])
    }
}

/// The number of coefficients in the rows, plus `additional`.
pub fn matrix_coefficient_count(rows: &Vec<Row>, additional: usize) -> (result: Result<usize, FecError>)
    ensures
        ({
            let total = additional + coefficient_total(matrix::models(rows@), rows@.len() as int);
            match result {
                Ok(count) => count == total,
                Err(error) => total > usize::MAX && error == FecError::MemoryCapacity,
            }
        }),
{
    let ghost rows_model = matrix::models(rows@);
    let mut count: usize = additional;
    let mut at: usize = 0;
    while at < rows.len()
        invariant
            at <= rows@.len(),
            rows_model == matrix::models(rows@),
            count == additional + coefficient_total(rows_model, at as int),
        decreases rows@.len() - at,
    {
        proof {
            lemma_totals_grow(rows_model, at + 1, rows@.len() as int);
        }
        match count.checked_add(rows[at].coefficients.len()) {
            Some(next) => {
                count = next;
            },
            None => {
                return Err(FecError::MemoryCapacity);
            },
        }
        at += 1;
    }
    Ok(count)
}

/// The steps that copying the rows costs.
pub fn matrix_clone_work(rows: &Vec<Row>) -> (result: Result<usize, FecError>)
    ensures
        ({
            let total = clone_total(matrix::models(rows@), rows@.len() as int);
            match result {
                Ok(work) => work == total,
                Err(error) => total > usize::MAX && error == FecError::WorkBudget,
            }
        }),
{
    let ghost rows_model = matrix::models(rows@);
    let mut work: usize = 0;
    let mut at: usize = 0;
    while at < rows.len()
        invariant
            at <= rows@.len(),
            rows_model == matrix::models(rows@),
            work == clone_total(rows_model, at as int),
        decreases rows@.len() - at,
    {
        proof {
            lemma_totals_grow(rows_model, at + 1, rows@.len() as int);
        }
        let with_terms: usize = match work.checked_add(rows[at].coefficients.len()) {
            Some(next) => next,
            None => {
                return Err(FecError::WorkBudget);
            },
        };
        match with_terms.checked_add(rows[at].data.len()) {
            Some(next) => {
                work = next;
            },
            None => {
                return Err(FecError::WorkBudget);
            },
        }
        at += 1;
    }
    Ok(work)
}

proof fn lemma_totals_grow(rows: Seq<RowModel>, part: int, end: int)
    requires
        0 <= part <= end,
    ensures
        0 <= coefficient_total(rows, part) <= coefficient_total(rows, end),
        0 <= clone_total(rows, part) <= clone_total(rows, end),
    decreases end,
{
    if part < end {
        lemma_totals_grow(rows, part, end - 1);
    } else if part > 0 {
        lemma_totals_grow(rows, part - 1, end - 1);
    }
}

/// Whether rows cannot be copied with room for more rows and coefficients: one of the counts
/// is too large, or room for the list, for the coefficients of a row or for its data was
/// refused.
pub open spec fn copy_refused(
    rows: Seq<RowModel>,
    additional_rows: int,
    additional_coefficients: int,
    max_symbol_bytes: int,
) -> bool {
    let row_capacity = rows.len() + additional_rows;
    let coefficient_capacity = additional_coefficients + coefficient_total(rows, rows.len() as int);
    ||| row_capacity > usize::MAX
    ||| coefficient_capacity > usize::MAX
    ||| room::room_refused::<Row>(row_capacity as usize)
    ||| room::room_refused::<(u32, u8)>(coefficient_capacity as usize)
    ||| room::room_refused::<u8>(max_symbol_bytes as usize)
}

/// Whether the allocator refused room for the sources that an operation hands out: for their
/// list, or for the bytes of one of them.
pub open spec fn batch_refused() -> bool {
    ||| exists|count: usize| #[trigger] room::room_refused::<RecoveredSource>(count)
    ||| exists|consumed: usize| #[trigger] room::room_refused::<u8>(consumed)
}

/// Whether an operation on these rows lacked room somewhere: for the copy of the rows and the
/// new equation, for their elimination, or for what it hands out.
pub open spec fn lacks_room(
    rows: Seq<RowModel>,
    additional_rows: int,
    additional_coefficients: int,
    max_symbol_bytes: int,
) -> bool {
    ||| copy_refused(rows, additional_rows, additional_coefficients, max_symbol_bytes)
    ||| matrix::elimination_refused(rows.len() + additional_rows, max_symbol_bytes)
    ||| batch_refused()
}

/// A copy of the rows, in vectors of bounded memory that leaves room for
/// `additional_rows` more rows and `additional_coefficients` more coefficients.
fn clone_rows_bounded(
    rows: &Vec<Row>,
    additional_rows: usize,
    additional_coefficients: usize,
    max_symbol_bytes: usize,
) -> (result: Result<Vec<Row>, FecError>)
    ensures
        match result {
            Ok(copy) => matrix::models(copy@) == matrix::models(rows@) && rows@.len() + additional_rows
                <= usize::MAX && additional_coefficients + coefficient_total(
                matrix::models(rows@),
                rows@.len() as int,
            ) <= usize::MAX,
            Err(error) => error == FecError::MemoryCapacity && copy_refused(
                matrix::models(rows@),
                additional_rows as int,
                additional_coefficients as int,
                max_symbol_bytes as int,
            ),
        },
{
    let coefficient_capacity: usize = matrix_coefficient_count(rows, additional_coefficients)?;
    let row_capacity: usize = match rows.len().checked_add(additional_rows) {
        Some(capacity) => capacity,
        None => {
            return Err(FecError::MemoryCapacity);
        },
    };
    let mut copy: Vec<Row> = bounded_vec::<Row>(row_capacity)?;
    let mut at: usize = 0;
    while at < rows.len()
        invariant
            at <= rows@.len(),
            copy@.len() == at,
            forall|i: int| 0 <= i < at ==> (#[trigger] copy@[i])@ == rows@[i]@,
            coefficient_capacity == additional_coefficients + coefficient_total(
                matrix::models(rows@),
                rows@.len() as int,
            ),
        decreases rows@.len() - at,
    {
        let mut coefficients: Vec<(u32, u8)> = bounded_vec::<(u32, u8)>(coefficient_capacity)?;
        extend_terms(&mut coefficients, &rows[at].coefficients);
        let mut data: Vec<u8> = bounded_vec::<u8>(max_symbol_bytes)?;
        extend_bytes(&mut data, rows[at].data.as_slice());
        copy.push(Row { coefficients, data });
        at += 1;
    }
    assert(matrix::models(copy@) =~= matrix::models(rows@));
    Ok(copy)
}

// ---------------------------------------------------------------------------
// The decoder
// ---------------------------------------------------------------------------

/// Incremental bounded repair decoder.
///
/// It keeps the last `max_symbols` sources and at most `max_rows` equations. What it
/// holds is counted in a [`RecoveryMemoryBudget`] that the caller hands to each
/// operation, so that one budget can serve many decoders.
#[derive(Debug)]
pub struct Decoder {
    known: VecDeque<KnownSource>,
    known_ids: HashSet<u32>,
    rows: Vec<Row>,
    max_symbols: usize,
    max_rows: usize,
    max_symbol_bytes: usize,
    row_bytes: usize,
}

/// The content of each kept source.
pub open spec fn known_models(known: Seq<KnownSource>) -> Seq<KnownModel> {
    known.map_values(|source: KnownSource| source@)
}

impl View for Decoder {
    type V = DecoderModel;

    closed spec fn view(&self) -> DecoderModel {
        DecoderModel {
            known: known_models(self.known@),
            rows: matrix::models(self.rows@),
            max_symbols: self.max_symbols as int,
            max_rows: self.max_rows as int,
            max_symbol_bytes: self.max_symbol_bytes as int,
            row_bytes: self.row_bytes as int,
        }
    }
}

impl DecoderModel {
    /// Sources are known once each, the window and the equations are within their
    /// bounds, and every equation is canonical.
    pub open spec fn valid(self) -> bool {
        &&& matrix::all_canonical(self.rows)
        &&& self.rows.len() <= self.max_rows <= usize::MAX
        &&& self.known.len() <= self.max_symbols <= usize::MAX
        &&& 0 <= self.max_symbol_bytes <= usize::MAX
        &&& 0 <= self.row_bytes
        &&& forall|i: int| 0 <= i < self.known.len() ==> 0 <= (#[trigger] self.known[i]).retained
        &&& forall|i: int, j: int|
            0 <= i < j < self.known.len() ==> (#[trigger] self.known[i]).symbol_id != (
            #[trigger] self.known[j]).symbol_id
    }
}

/// The scratch memory of one operation: the matrix with its new rows, one pivot row,
/// the symbols that every row may give back, and the source at hand.
pub open spec fn scratch_need(
    rows: Seq<RowModel>,
    max_symbol_bytes: int,
    additional_rows: int,
    additional_coefficients: int,
    source_bytes: int,
) -> int {
    let count = rows.len() + additional_rows;
    count * row_need(rows, max_symbol_bytes, additional_coefficients) + row_need(
        rows,
        max_symbol_bytes,
        additional_coefficients,
    ) + count * recovered_need(max_symbol_bytes) + source_bytes
}

/// The memory of one full row.
pub open spec fn row_need(rows: Seq<RowModel>, max_symbol_bytes: int, additional_coefficients: int) -> int {
    vstd::layout::size_of::<Row>() + max_symbol_bytes + (additional_coefficients + coefficient_total(
        rows,
        rows.len() as int,
    )) * vstd::layout::size_of::<(u32, u8)>()
}

/// The memory of one recovered symbol, twice over, with its list entries and records.
pub open spec fn recovered_need(max_symbol_bytes: int) -> int {
    max_symbol_bytes * 2 + vstd::layout::size_of::<(u32, Bytes)>() + vstd::layout::size_of::<RecoveredSource>()
        + 32 * vstd::layout::size_of::<SourceRecord<'static>>()
}

/// Whether that memory can be counted at all.
pub open spec fn scratch_fits(
    rows: Seq<RowModel>,
    max_symbol_bytes: int,
    additional_rows: int,
    additional_coefficients: int,
    source_bytes: int,
) -> bool {
    &&& rows.len() + additional_rows <= usize::MAX
    &&& additional_coefficients + coefficient_total(rows, rows.len() as int) <= usize::MAX
    &&& recovered_need(max_symbol_bytes) <= usize::MAX
    &&& scratch_need(rows, max_symbol_bytes, additional_rows, additional_coefficients, source_bytes) <= usize::MAX
}

pub(crate) proof fn lemma_find_known(known: Seq<KnownModel>, id: u32, end: int)
    requires
        0 <= end <= known.len(),
    ensures
        match find_known(known, id, end) {
            Some(at) => 0 <= at < end && known[at].symbol_id == id && forall|i: int|
                0 <= i < at ==> (#[trigger] known[i]).symbol_id != id,
            None => forall|i: int| 0 <= i < end ==> (#[trigger] known[i]).symbol_id != id,
        },
    decreases end,
{
    if end > 0 {
        lemma_find_known(known, id, end - 1);
    }
}

impl Decoder {
    /// The identifier index agrees with the window.
    closed spec fn indexed(&self) -> bool {
        forall|id: u32| #[trigger]
            self.known_ids@.contains(id) <==> exists|i: int|
                0 <= i < self.known@.len() && (#[trigger] self.known@[i]).symbol_id == id
    }

    /// The decoder is well formed.
    pub closed spec fn wf(&self) -> bool {
        self@.valid() && self.indexed()
    }

    /// An empty decoder.
    pub fn with_budget(max_symbols: usize, max_rows: usize, max_symbol_bytes: usize) -> (decoder: Self)
        ensures
            decoder.wf(),
            decoder@ == (DecoderModel {
                known: Seq::empty(),
                rows: Seq::empty(),
                max_symbols: max_symbols as int,
                max_rows: max_rows as int,
                max_symbol_bytes: max_symbol_bytes as int,
                row_bytes: 0,
            }),
    {
        broadcast use vstd::std_specs::hash::group_hash_axioms;
        let decoder = Decoder {
            known: VecDeque::with_capacity(max_symbols),
            known_ids: HashSet::with_capacity(max_symbols),
            rows: Vec::new(),
            max_symbols,
            max_rows,
            max_symbol_bytes,
            row_bytes: 0,
        };
        assert(decoder@.known =~= Seq::empty());
        assert(decoder@.rows =~= Seq::empty());
        decoder
    }

    /// What well-formed means for the content.
    pub proof fn lemma_wf(&self)
        requires
            self.wf(),
        ensures
            self@.valid(),
    {
    }

    /// How many sources and equations the decoder keeps.
    pub fn state_counts(&self) -> (counts: (usize, usize))
        ensures
            counts.0 == self@.known.len(),
            counts.1 == self@.rows.len(),
    {
        (self.known.len(), self.rows.len())
    }

    /// The position of a source in the window.
    fn known_position(&self, symbol_id: u32) -> (position: Option<usize>)
        ensures
            match position {
                Some(at) => find_known(self@.known, symbol_id, self@.known.len() as int) == Some(at as int) && at
                    < self.known@.len(),
                None => find_known(self@.known, symbol_id, self@.known.len() as int) is None,
            },
    {
        let mut at: usize = 0;
        while at < self.known.len()
            invariant
                at <= self.known@.len(),
                find_known(self@.known, symbol_id, at as int) is None,
            decreases self.known@.len() - at,
        {
            assert(self@.known[at as int] == self.known@[at as int]@);
            if self.known[at].symbol_id == symbol_id {
                proof {
                    lemma_find_stays(self@.known, symbol_id, at + 1, self@.known.len() as int);
                }
                return Some(at);
            }
            at += 1;
        }
        None
    }

    /// The bytes of a source in the window.
    pub fn known_source(&self, symbol_id: u32) -> (bytes: Option<&[u8]>)
        ensures
            match bytes {
                Some(slice) => known_bytes(self@.known, symbol_id) == Some(slice@),
                None => known_bytes(self@.known, symbol_id) is None,
            },
    {
        match self.known_position(symbol_id) {
            Some(at) => {
                assert(self@.known[at as int] == self.known@[at as int]@);
                Some(storage::as_slice(&self.known[at].bytes))
            },
            None => None,
        }
    }

    /// Tells a new source from one that is already known, and refuses one whose bytes
    /// differ from those known under its identifier.
    pub fn source_status(&self, symbol_id: u32, source: &[u8]) -> (result: Result<SourceStatus, FecError>)
        requires
            self.wf(),
        ensures
            result == (match known_bytes(self@.known, symbol_id) {
                None => Ok::<SourceStatus, FecError>(SourceStatus::New),
                Some(bytes) => if bytes == source@ {
                    Ok(SourceStatus::Duplicate)
                } else {
                    Err(FecError::ContradictoryRepair)
                },
            }),
    {
        broadcast use vstd::std_specs::hash::group_hash_axioms;
        proof {
            lemma_find_known(self@.known, symbol_id, self@.known.len() as int);
        }
        if !self.known_ids.contains(&symbol_id) {
            assert(find_known(self@.known, symbol_id, self@.known.len() as int) is None) by {
                if find_known(self@.known, symbol_id, self@.known.len() as int) is Some {
                    let at = find_known(self@.known, symbol_id, self@.known.len() as int)->0;
                    assert(self.known@[at].symbol_id == symbol_id);
                    assert(self.known_ids@.contains(symbol_id));
                }
            }
            return Ok(SourceStatus::New);
        }
        assert(find_known(self@.known, symbol_id, self@.known.len() as int) is Some) by {
            let at = choose|i: int| 0 <= i < self.known@.len() && (#[trigger] self.known@[i]).symbol_id == symbol_id;
            assert(self@.known[at].symbol_id == symbol_id);
        }
        match self.known_source(symbol_id) {
            Some(existing) => {
                if storage::equal(existing, source) {
                    Ok(SourceStatus::Duplicate)
                } else {
                    Err(FecError::ContradictoryRepair)
                }
            },
            None => Err(FecError::ContradictoryRepair),
        }
    }

    /// The memory of the source that leaves when another one comes.
    fn evicted_known_bytes(&self) -> (bytes: usize)
        ensures
            bytes == self@.evicted_bytes(),
    {
        if self.known.len() >= self.max_symbols && self.known.len() > 0 {
            assert(self@.known[0] == self.known@[0]@);
            self.known[0].retained_bytes
        } else {
            0
        }
    }

    /// What a source of `source_bytes` needs beyond the source that it displaces, and
    /// what that source gives back beyond it.
    fn known_memory_delta(&self, source_bytes: usize) -> (delta: (usize, usize))
        ensures
            delta.0 - delta.1 == source_bytes - self@.evicted_bytes(),
            delta.0 == 0 || delta.1 == 0,
    {
        let evicted: usize = self.evicted_known_bytes();
        (source_bytes.saturating_sub(evicted), evicted.saturating_sub(source_bytes))
    }

    /// The scratch memory of one operation.
    pub fn scratch_memory_bytes(
        &self,
        additional_rows: usize,
        additional_coefficients: usize,
        source_bytes: usize,
    ) -> (result: Result<usize, FecError>)
        ensures
            match result {
                Ok(bytes) => scratch_fits(
                    self@.rows,
                    self@.max_symbol_bytes,
                    additional_rows as int,
                    additional_coefficients as int,
                    source_bytes as int,
                ) && bytes == scratch_need(
                    self@.rows,
                    self@.max_symbol_bytes,
                    additional_rows as int,
                    additional_coefficients as int,
                    source_bytes as int,
                ),
                Err(error) => error == FecError::MemoryCapacity && !scratch_fits(
                    self@.rows,
                    self@.max_symbol_bytes,
                    additional_rows as int,
                    additional_coefficients as int,
                    source_bytes as int,
                ),
            },
    {
        let rows: usize = match self.rows.len().checked_add(additional_rows) {
            Some(rows) => rows,
            None => {
                return Err(FecError::MemoryCapacity);
            },
        };
        let columns: usize = matrix_coefficient_count(&self.rows, additional_coefficients)?;
        let term: usize = core::mem::size_of::<(u32, u8)>();
        let row: usize = core::mem::size_of::<Row>();
        let listed: usize = core::mem::size_of::<(u32, Bytes)>();
        let recovered: usize = core::mem::size_of::<RecoveredSource>();
        let record: usize = core::mem::size_of::<SourceRecord<'static>>();
        let ghost per_row = row_need(self@.rows, self@.max_symbol_bytes, additional_coefficients as int);
        let ghost per_recovered = recovered_need(self@.max_symbol_bytes);
        let ghost total = scratch_need(
            self@.rows,
            self@.max_symbol_bytes,
            additional_rows as int,
            additional_coefficients as int,
            source_bytes as int,
        );
        proof {
            assert(columns * term >= 0) by (nonlinear_arith);
            assert(per_row >= 0);
            assert(rows * per_row >= 0) by (nonlinear_arith)
                requires per_row >= 0;
            assert(rows * per_recovered >= 0) by (nonlinear_arith)
                requires per_recovered >= 0;
            assert(per_row == row + self.max_symbol_bytes + columns * term);
            assert(total == rows * per_row + per_row + rows * per_recovered + source_bytes);
        }
        let per_row_bytes: usize = match checked_sum3(columns.checked_mul(term), row, self.max_symbol_bytes) {
            Some(bytes) => bytes,
            None => {
                return Err(FecError::MemoryCapacity);
            },
        };
        let matrix_bytes: usize = match rows.checked_mul(per_row_bytes) {
            Some(bytes) => bytes,
            None => {
                return Err(FecError::MemoryCapacity);
            },
        };
        let records: usize = match MAX_DECODED_SOURCE_RECORDS.checked_mul(record) {
            Some(bytes) => bytes,
            None => {
                return Err(FecError::MemoryCapacity);
            },
        };
        let symbol_bytes: Option<usize> = checked_sum3(self.max_symbol_bytes.checked_mul(2), listed, recovered);
        let per_recovered_bytes: usize = match checked_sum3(symbol_bytes, records, 0) {
            Some(bytes) => bytes,
            None => {
                return Err(FecError::MemoryCapacity);
            },
        };
        assert(per_recovered_bytes == per_recovered);
        let recovered_bytes: Option<usize> = rows.checked_mul(per_recovered_bytes);
        match checked_sum3(checked_sum3(recovered_bytes, matrix_bytes, per_row_bytes), source_bytes, 0) {
            Some(bytes) => Ok(bytes),
            None => Err(FecError::MemoryCapacity),
        }
    }
}

/// The sum of three counts, where it and each of them fits.
fn checked_sum3(first: Option<usize>, second: usize, third: usize) -> (sum: Option<usize>)
    ensures
        sum == (match first {
            Some(value) => if value + second + third <= usize::MAX {
                Some((value + second + third) as usize)
            } else {
                None
            },
            None => None,
        }),
{
    match first {
        Some(value) => match value.checked_add(second) {
            Some(partial) => partial.checked_add(third),
            None => None,
        },
        None => None,
    }
}

proof fn lemma_find_stays(known: Seq<KnownModel>, id: u32, part: int, end: int)
    requires
        0 <= part <= end,
        find_known(known, id, part) is Some,
    ensures
        find_known(known, id, end) == find_known(known, id, part),
    decreases end - part,
{
    if part < end {
        lemma_find_stays(known, id, part, end - 1);
    }
}

// ---------------------------------------------------------------------------
// The window of known sources
// ---------------------------------------------------------------------------

proof fn lemma_retained_front(known: Seq<KnownModel>)
    requires
        known.len() > 0,
    ensures
        retained_by(known) == known[0].retained + retained_by(known.skip(1)),
    decreases known.len(),
{
    if known.len() == 1 {
        assert(known.drop_last().len() == 0);
        assert(known.skip(1).len() == 0);
        reveal_with_fuel(retained_by, 2);
    } else {
        lemma_retained_front(known.drop_last());
        assert(known.drop_last().skip(1) =~= known.skip(1).drop_last());
    }
}

proof fn lemma_retained_not_negative(known: Seq<KnownModel>)
    requires
        forall|i: int| 0 <= i < known.len() ==> 0 <= (#[trigger] known[i]).retained,
    ensures
        retained_by(known) >= 0,
        known.len() > 0 ==> known[0].retained <= retained_by(known),
    decreases known.len(),
{
    if known.len() > 0 {
        lemma_retained_front(known);
        let rest = known.skip(1);
        assert forall|i: int| 0 <= i < rest.len() implies 0 <= (#[trigger] rest[i]).retained by {
            assert(rest[i] == known[i + 1]);
        }
        lemma_retained_not_negative(rest);
    }
}

/// What the window holds after a source came.
pub(crate) proof fn lemma_known_with(state: DecoderModel, source: KnownModel)
    requires
        state.valid(),
        source.retained >= 0,
        state.max_symbols > 0,
    ensures
        retained_by(state.known_with(source)) == retained_by(state.known) + source.retained - state.evicted_bytes(),
        state.evicted_bytes() <= retained_by(state.known),
        retained_by(state.known) >= 0,
{
    lemma_retained_not_negative(state.known);
    let pushed = state.known.push(source);
    assert(pushed.drop_last() =~= state.known);
    if state.known.len() >= state.max_symbols {
        lemma_retained_front(pushed);
    }
}

/// Whether a buffer reported this capacity when it was asked.
pub closed spec fn reported(retained: int) -> bool {
    exists|buffer: BytesMut, capacity: usize| #[trigger]
        call_ensures(storage::capacity, (&buffer,), capacity) && retained == capacity
}

/// Whether this is the memory that a source takes in storage of its own: the capacity that
/// its storage reports where nobody shares it, and the length of a copy where somebody does.
pub closed spec fn own_storage(source: Bytes, retained: int) -> bool {
    ||| exists|buffer: BytesMut, capacity: usize|
        #[trigger] call_ensures(storage::try_into_mut, (source,), Ok::<BytesMut, Bytes>(buffer))
            && #[trigger] call_ensures(storage::capacity, (&buffer,), capacity) && retained == capacity
    ||| exists|shared: Bytes|
        #[trigger] call_ensures(storage::try_into_mut, (source,), Err::<BytesMut, Bytes>(shared)) && retained
            == storage::contents(source).len()
}

/// Gives a source storage of its own: storage that nobody shares is kept with all its
/// capacity, any other is copied.
fn normalize_source_storage(symbol_id: u32, source: Bytes) -> (known: KnownSource)
    ensures
        known@.symbol_id == symbol_id,
        known@.bytes == storage::contents(source),
        known@.retained >= storage::contents(source).len(),
        known@.retained == storage::contents(source).len() || reported(known@.retained),
        own_storage(source, known@.retained),
{
    match storage::try_into_mut(source) {
        Ok(storage) => {
            let retained_bytes: usize = storage::capacity(&storage);
            assert(call_ensures(storage::capacity, (&storage,), retained_bytes));
            KnownSource { symbol_id, bytes: storage::freeze(storage), retained_bytes }
        },
        Err(shared) => {
            let bytes: Bytes = storage::copy_from_slice(storage::as_slice(&shared));
            let retained_bytes: usize = storage::as_slice(&bytes).len();
            KnownSource { symbol_id, bytes, retained_bytes }
        },
    }
}

impl Decoder {
    /// Takes the oldest source out of the window.
    fn evict_oldest(&mut self) -> (oldest: KnownSource)
        requires
            old(self).wf(),
            old(self)@.known.len() > 0,
        ensures
            final(self).wf(),
            oldest@ == old(self)@.known[0],
            final(self)@ == (DecoderModel { known: old(self)@.known.skip(1), ..old(self)@ }),
    {
        broadcast use vstd::std_specs::hash::group_hash_axioms;
        let ghost window = self.known@;
        let ghost index = self.known_ids@;
        let ghost before = self@;
        assert(before.known[0] == window[0]@);
        let oldest: KnownSource = match self.known.pop_front() {
            Some(oldest) => oldest,
            None => {
                assert(false);
                return KnownSource { symbol_id: 0, bytes: storage::from_vec(Vec::new()), retained_bytes: 0 };
            },
        };
        self.known_ids.remove(&oldest.symbol_id);
        proof {
            let rest = self.known@;
            assert(rest =~= window.skip(1));
            assert(known_models(rest) =~= before.known.skip(1));
            assert forall|i: int, j: int| 0 <= i < j < window.len() implies (#[trigger] window[i]).symbol_id != (
            #[trigger] window[j]).symbol_id by {
                assert(before.known[i].symbol_id != before.known[j].symbol_id);
            }
            assert forall|other: u32| #[trigger] self.known_ids@.contains(other) <==> exists|i: int|
                0 <= i < rest.len() && (#[trigger] rest[i]).symbol_id == other by {
                if self.known_ids@.contains(other) {
                    assert(index.contains(other));
                    let i = choose|i: int| 0 <= i < window.len() && (#[trigger] window[i]).symbol_id == other;
                    assert(rest[i - 1] == window[i]);
                }
                if exists|i: int| 0 <= i < rest.len() && (#[trigger] rest[i]).symbol_id == other {
                    let i = choose|i: int| 0 <= i < rest.len() && (#[trigger] rest[i]).symbol_id == other;
                    assert(rest[i] == window[i + 1]);
                    assert(index.contains(other));
                }
            }
            let after = self@.known;
            assert forall|i: int, j: int| 0 <= i < j < after.len() implies (#[trigger] after[i]).symbol_id != (
            #[trigger] after[j]).symbol_id by {
                assert(after[i] == before.known[i + 1] && after[j] == before.known[j + 1]);
            }
            assert forall|i: int| 0 <= i < after.len() implies 0 <= (#[trigger] after[i]).retained by {
                assert(after[i] == before.known[i + 1]);
            }
        }
        oldest
    }

    /// Adds a source at the young end of a window with room, or at the old end.
    fn place_known(&mut self, source: KnownSource, oldest: bool)
        requires
            old(self).wf(),
            old(self)@.known.len() < old(self)@.max_symbols,
            known_bytes(old(self)@.known, source.symbol_id) is None,
        ensures
            final(self).wf(),
            final(self)@ == (DecoderModel {
                known: if oldest {
                    seq![source@] + old(self)@.known
                } else {
                    old(self)@.known.push(source@)
                },
                ..old(self)@
            }),
    {
        broadcast use vstd::std_specs::hash::group_hash_axioms;
        let ghost window = self.known@;
        let ghost index = self.known_ids@;
        let ghost before = self@;
        let ghost shift: int = if oldest { 1 } else { 0 };
        let ghost place: int = if oldest { 0 } else { window.len() as int };
        let id: u32 = source.symbol_id;
        self.known_ids.insert(id);
        if oldest {
            self.known.push_front(source);
            assert(known_models(self.known@) =~= seq![source@] + before.known);
        } else {
            self.known.push_back(source);
            assert(known_models(self.known@) =~= before.known.push(source@));
        }
        proof {
            let all = self.known@;
            lemma_find_known(before.known, id, before.known.len() as int);
            assert forall|i: int| 0 <= i < window.len() implies #[trigger] window[i] == all[i + shift]
                && window[i].symbol_id != id by {
                assert(before.known[i].symbol_id != id);
            }
            assert(all[place].symbol_id == id);
            assert forall|other: u32| #[trigger] self.known_ids@.contains(other) <==> exists|i: int|
                0 <= i < all.len() && (#[trigger] all[i]).symbol_id == other by {
                if self.known_ids@.contains(other) && other != id {
                    assert(index.contains(other));
                    let i = choose|i: int| 0 <= i < window.len() && (#[trigger] window[i]).symbol_id == other;
                    assert(all[i + shift].symbol_id == other);
                }
                if exists|i: int| 0 <= i < all.len() && (#[trigger] all[i]).symbol_id == other {
                    let i = choose|i: int| 0 <= i < all.len() && (#[trigger] all[i]).symbol_id == other;
                    if i != place {
                        assert(window[i - shift] == all[i]);
                        assert(index.contains(other));
                    }
                }
            }
            let after = self@.known;
            assert forall|i: int, j: int| 0 <= i < j < after.len() implies (#[trigger] after[i]).symbol_id != (
            #[trigger] after[j]).symbol_id by {
                if i == place {
                    assert(after[j] == before.known[j - shift]);
                } else if j == place {
                    assert(after[i] == before.known[i - shift]);
                } else {
                    assert(after[i] == before.known[i - shift] && after[j] == before.known[j - shift]);
                }
            }
            assert forall|i: int| 0 <= i < after.len() implies 0 <= (#[trigger] after[i]).retained by {
                if i != place {
                    assert(after[i] == before.known[i - shift]);
                }
            }
        }
    }

    /// Adds a source to the window; the oldest one leaves a full window.
    fn insert_known(&mut self, source: KnownSource)
        requires
            old(self).wf(),
            known_bytes(old(self)@.known, source.symbol_id) is None,
        ensures
            final(self).wf(),
            final(self)@ == (DecoderModel { known: old(self)@.known_with(source@), ..old(self)@ }),
    {
        let ghost before = self@;
        if self.max_symbols == 0 {
            assert(before.known_with(source@) =~= before.known);
            return;
        }
        if self.known.len() >= self.max_symbols {
            self.evict_oldest();
            proof {
                let rest = before.known.skip(1);
                lemma_find_known(before.known, source.symbol_id, before.known.len() as int);
                lemma_find_known(rest, source.symbol_id, rest.len() as int);
                if let Some(at) = find_known(rest, source.symbol_id, rest.len() as int) {
                    assert(rest[at] == before.known[at + 1]);
                }
                assert(rest.push(source@) =~= before.known.push(source@).skip(1));
            }
        }
        self.place_known(source, false);
    }

    /// Puts a source into the storage of the oldest one, where that storage is large
    /// enough and nobody else shares it. The oldest source leaves the window then.
    fn try_reuse_oldest_source(
        &mut self,
        budget: &mut RecoveryMemoryBudget,
        symbol_id: u32,
        source: &[u8],
    ) -> (reused: bool)
        requires
            old(self).wf(),
            known_bytes(old(self)@.known, symbol_id) is None,
            old(budget).used >= old(self)@.held(),
        ensures
            final(self).wf(),
            !reused ==> final(self)@ == old(self)@ && *final(budget) == *old(budget),
            reused ==> exists|kept: KnownModel|
                {
                    &&& #[trigger] stores(old(self)@, final(self)@, kept)
                    &&& kept.symbol_id == symbol_id
                    &&& kept.bytes == source@
                    &&& kept.retained >= source@.len()
                    &&& reported(kept.retained)
                    &&& kept.retained <= old(self)@.evicted_bytes()
                    &&& old(self)@.max_symbols > 0
                    &&& *final(budget) == old(budget).with_used(
                        old(budget).used - (old(self)@.evicted_bytes() - kept.retained),
                    )
                },
    {
        if self.known.len() < self.max_symbols || self.known.len() == 0 {
            return false;
        }
        let ghost before = self@;
        assert(before.known[0] == self.known@[0]@);
        if self.known[0].retained_bytes < source.len() {
            return false;
        }
        proof {
            lemma_retained_not_negative(before.known);
        }
        let oldest: KnownSource = self.evict_oldest();
        let ghost rest = before.known.skip(1);
        let oldest_id: u32 = oldest.symbol_id;
        let previous: usize = oldest.retained_bytes;
        proof {
            lemma_find_known(before.known, symbol_id, before.known.len() as int);
            lemma_find_known(rest, symbol_id, rest.len() as int);
            lemma_find_known(rest, oldest_id, rest.len() as int);
            if let Some(at) = find_known(rest, symbol_id, rest.len() as int) {
                assert(rest[at] == before.known[at + 1]);
            }
            if let Some(at) = find_known(rest, oldest_id, rest.len() as int) {
                assert(rest[at] == before.known[at + 1]);
                assert(before.known[0].symbol_id != before.known[at + 1].symbol_id);
            }
        }
        let restored: Bytes = match storage::try_into_mut(oldest.bytes) {
            Ok(storage) => {
                let mut storage = storage;
                let retained_bytes: usize = storage::capacity(&storage);
                if source.len() <= retained_bytes && retained_bytes <= previous {
                    storage::clear(&mut storage);
                    storage::extend_from_slice(&mut storage, source);
                    assert(storage::mut_contents(storage) =~= source@);
                    let kept = KnownSource { symbol_id, bytes: storage::freeze(storage), retained_bytes };
                    let ghost model = kept@;
                    assert(reported(model.retained));
                    self.place_known(kept, false);
                    budget.release(previous - retained_bytes);
                    assert(rest.push(model) =~= before.known.push(model).skip(1));
                    assert(stores(before, self@, model));
                    return true;
                }
                storage::freeze(storage)
            },
            Err(bytes) => bytes,
        };
        self.place_known(KnownSource { symbol_id: oldest_id, bytes: restored, retained_bytes: previous }, true);
        assert(self@.known =~= before.known);
        false
    }
}

/// Whether `after` is `before` with the source `kept` added to its window.
pub open spec fn stores(before: DecoderModel, after: DecoderModel, kept: KnownModel) -> bool {
    &&& after == (DecoderModel { known: before.known_with(kept), ..before })
    &&& kept.retained >= kept.bytes.len()
}

// ---------------------------------------------------------------------------
// Building equations
// ---------------------------------------------------------------------------

/// A repair equation in the making: the unknown symbols so far, what is left of the
/// right-hand side, and the work so far.
pub struct Gathered {
    pub coefficients: Seq<(u32, u8)>,
    pub data: Seq<u8>,
    pub work: int,
}

/// The equation after one more symbol of the span: a known one moves to the right-hand
/// side, an unknown one becomes a term.
pub open spec fn gather_step(known: Seq<KnownModel>, id: u32, value: u8, prior: Gathered, budget: int) -> Result<
    Gathered,
    FecError,
> {
    match known_bytes(known, id) {
        Some(bytes) => if bytes.len() > prior.data.len() {
            Err(FecError::InvalidSymbolSize)
        } else if matrix::exhausts(prior.work, bytes.len() as int, budget) {
            Err(FecError::WorkBudget)
        } else {
            Ok(
                Gathered {
                    coefficients: prior.coefficients,
                    data: matrix::xored(prior.data, bytes, value),
                    work: matrix::spent(prior.work, bytes.len() as int),
                },
            )
        },
        None => Ok(
            Gathered {
                coefficients: matrix::add_term(prior.coefficients, id, value),
                data: prior.data,
                work: prior.work,
            },
        ),
    }
}

/// The equation of a repair symbol over the first `count` symbols of its span, with
/// the known ones moved to the right-hand side.
pub open spec fn gathered(
    known: Seq<KnownModel>,
    first: u32,
    count: int,
    repair_id: u32,
    seed: u32,
    coded: Seq<u8>,
    work: int,
    budget: int,
) -> Result<Gathered, FecError>
    decreases count,
{
    if count <= 0 {
        Ok(Gathered { coefficients: Seq::empty(), data: coded, work })
    } else {
        match gathered(known, first, count - 1, repair_id, seed, coded, work, budget) {
            Err(error) => Err(error),
            Ok(prior) => {
                let id = symbol::symbol_at(first, count - 1);
                gather_step(known, id, symbol::coefficient_value(seed, repair_id, id), prior, budget)
            },
        }
    }
}

proof fn lemma_gathered_fails(
    known: Seq<KnownModel>,
    first: u32,
    part: int,
    end: int,
    repair_id: u32,
    seed: u32,
    coded: Seq<u8>,
    work: int,
    budget: int,
)
    requires
        0 <= part <= end,
        gathered(known, first, part, repair_id, seed, coded, work, budget) is Err,
    ensures
        gathered(known, first, end, repair_id, seed, coded, work, budget) == gathered(
            known,
            first,
            part,
            repair_id,
            seed,
            coded,
            work,
            budget,
        ),
    decreases end - part,
{
    if part < end {
        lemma_gathered_fails(known, first, part, end - 1, repair_id, seed, coded, work, budget);
    }
}

/// A row after the symbol `id` became known: its term moved to the right-hand side.
pub open spec fn with_symbol(row: RowModel, id: u32, bytes: Seq<u8>) -> RowModel {
    RowModel {
        coefficients: row.coefficients.remove(matrix::rank(row.coefficients, id)),
        data: matrix::xored(row.data, bytes, matrix::coefficient_of(row.coefficients, id)),
    }
}

/// The rows, and the work, after the symbol `id` became known in the first `count`.
pub open spec fn substituted(
    rows: Seq<RowModel>,
    count: int,
    id: u32,
    bytes: Seq<u8>,
    work: int,
    budget: int,
) -> Result<(Seq<RowModel>, int), FecError>
    decreases count,
{
    if count <= 0 {
        Ok((rows, work))
    } else {
        match substituted(rows, count - 1, id, bytes, work, budget) {
            Err(error) => Err(error),
            Ok((prior, spent)) => {
                let row = rows[count - 1];
                if !matrix::mentions(row.coefficients, id) {
                    Ok((prior, spent))
                } else if bytes.len() > row.data.len() {
                    Err(FecError::InvalidSymbolSize)
                } else if matrix::exhausts(spent, bytes.len() as int, budget) {
                    Err(FecError::WorkBudget)
                } else {
                    Ok(
                        (
                            prior.update(count - 1, with_symbol(row, id, bytes)),
                            matrix::spent(spent, bytes.len() as int),
                        ),
                    )
                }
            },
        }
    }
}

proof fn lemma_substituted_fails(
    rows: Seq<RowModel>,
    part: int,
    end: int,
    id: u32,
    bytes: Seq<u8>,
    work: int,
    budget: int,
)
    requires
        0 <= part <= end,
        substituted(rows, part, id, bytes, work, budget) is Err,
    ensures
        substituted(rows, end, id, bytes, work, budget) == substituted(rows, part, id, bytes, work, budget),
    decreases end - part,
{
    if part < end {
        lemma_substituted_fails(rows, part, end - 1, id, bytes, work, budget);
    }
}

/// Moves a symbol that became known to the right-hand side of every row.
///
/// On an error the rows are left part way through.
fn substitute(rows: &mut Vec<Row>, id: u32, bytes: &[u8], work: &mut usize, budget: usize) -> (result: Result<
    (),
    FecError,
>)
    requires
        matrix::all_canonical(matrix::models(old(rows)@)),
    ensures
        ({
            let before = matrix::models(old(rows)@);
            let outcome = substituted(before, before.len() as int, id, bytes@, *old(work) as int, budget as int);
            match result {
                Ok(_) => outcome == Ok::<(Seq<RowModel>, int), FecError>(
                    (matrix::models(final(rows)@), *final(work) as int),
                ) && matrix::all_canonical(matrix::models(final(rows)@)) && final(rows)@.len() == old(rows)@.len(),
                Err(error) => outcome == Err::<(Seq<RowModel>, int), FecError>(error),
            }
        }),
{
    let ghost before = matrix::models(rows@);
    let ghost started = *work as int;
    let mut at: usize = 0;
    assert(matrix::models(rows@) =~= before);
    while at < rows.len()
        invariant
            at <= rows@.len(),
            rows@.len() == before.len(),
            matrix::all_canonical(before),
            matrix::all_canonical(matrix::models(rows@)),
            started == *old(work),
            before == matrix::models(old(rows)@),
            substituted(before, at as int, id, bytes@, started, budget as int) == Ok::<(Seq<RowModel>, int), FecError>(
                (matrix::models(rows@), *work as int),
            ),
            forall|i: int| at <= i < before.len() ==> (#[trigger] rows@[i])@ == before[i],
        decreases rows@.len() - at,
    {
        let ghost current = matrix::models(rows@);
        assert(current[at as int] == before[at as int]);
        let index: usize = matrix::position(&rows[at].coefficients, id);
        if index < rows[at].coefficients.len() && rows[at].coefficients[index].0 == id {
            let removed: (u32, u8) = rows[at].coefficients.remove(index);
            let ghost row = before[at as int];
            let outcome: Result<(), FecError> = matrix::xor_scaled(
                &mut rows[at].data,
                bytes,
                removed.1,
                work,
                budget,
            );
            proof {
                if outcome is Err {
                    lemma_substituted_fails(
                        before,
                        at + 1,
                        before.len() as int,
                        id,
                        bytes@,
                        started,
                        budget as int,
                    );
                }
            }
            if let Err(error) = outcome {
                return Err(error);
            }
            assert(rows@[at as int]@ =~= with_symbol(row, id, bytes@));
            assert(matrix::models(rows@) =~= current.update(at as int, with_symbol(row, id, bytes@)));
            proof {
                matrix::lemma_rank(row.coefficients, id);
                assert(matrix::canonical(row.coefficients.remove(index as int)));
            }
        }
        at += 1;
    }
    Ok(())
}

// ---------------------------------------------------------------------------
// Admission
// ---------------------------------------------------------------------------

/// Leave to work on the matrix: scratch memory, and the work spent so far.
#[derive(Debug)]
pub struct Admission {
    pub scratch: RecoveryCharge,
    pub work: usize,
}

/// The work that a repair costs before its equation is built.
pub open spec fn repair_work(state: DecoderModel, span: u16, coded_bytes: int) -> int {
    clone_total(state.rows, state.rows.len() as int) + coded_bytes + span
}

/// Why a repair is refused before anything is built, if it is.
pub open spec fn repair_refusal(
    state: DecoderModel,
    memory: RecoveryMemoryBudget,
    span: u16,
    coded_bytes: int,
    work_budget: int,
) -> Option<FecError> {
    if span == 0 || span > MAX_REPAIR_SPAN {
        Some(FecError::InvalidSpan)
    } else if coded_bytes == 0 || coded_bytes > state.max_symbol_bytes {
        Some(FecError::InvalidSymbolSize)
    } else if state.rows.len() == state.max_rows {
        Some(FecError::RowCapacity)
    } else if repair_work(state, span, coded_bytes) > work_budget {
        Some(FecError::WorkBudget)
    } else if !scratch_fits(state.rows, state.max_symbol_bytes, 1, span as int, 0) || memory.used + scratch_need(
        state.rows,
        state.max_symbol_bytes,
        1,
        span as int,
        0,
    ) > memory.limit {
        Some(FecError::MemoryCapacity)
    } else {
        None
    }
}

/// Why a source that meets equations is refused before they are copied, if it is.
pub open spec fn source_refusal(
    state: DecoderModel,
    memory: RecoveryMemoryBudget,
    source_bytes: int,
    work_budget: int,
) -> Option<FecError> {
    if clone_total(state.rows, state.rows.len() as int) > work_budget {
        Some(FecError::WorkBudget)
    } else if !scratch_fits(state.rows, state.max_symbol_bytes, 0, 0, source_bytes) || memory.used + scratch_need(
        state.rows,
        state.max_symbol_bytes,
        0,
        0,
        source_bytes,
    ) > memory.limit {
        Some(FecError::MemoryCapacity)
    } else {
        None
    }
}

impl Decoder {
    /// Checks a repair against the bounds and takes the scratch memory for it.
    pub fn admit_repair(
        &self,
        budget: &mut RecoveryMemoryBudget,
        span: u16,
        coded_bytes: usize,
        work_budget: usize,
    ) -> (result: Result<Admission, FecError>)
        ensures
            match result {
                Err(error) => repair_refusal(
                    self@,
                    *old(budget),
                    span,
                    coded_bytes as int,
                    work_budget as int,
                ) == Some(error) && *final(budget) == *old(budget),
                Ok(admission) => {
                    let need = scratch_need(self@.rows, self@.max_symbol_bytes, 1, span as int, 0);
                    &&& repair_refusal(self@, *old(budget), span, coded_bytes as int, work_budget as int) is None
                    &&& admission.work == repair_work(self@, span, coded_bytes as int)
                    &&& admission.scratch == (RecoveryCharge { owner: old(budget).id, bytes: need as usize })
                    &&& admission.scratch.bytes == need
                    &&& *final(budget) == old(budget).with_used(old(budget).used + need)
                },
            },
    {
        if span == 0 || span > MAX_REPAIR_SPAN {
            return Err(FecError::InvalidSpan);
        }
        if coded_bytes == 0 || coded_bytes > self.max_symbol_bytes {
            return Err(FecError::InvalidSymbolSize);
        }
        if self.rows.len() == self.max_rows {
            return Err(FecError::RowCapacity);
        }
        proof {
            lemma_totals_grow(self@.rows, 0, self@.rows.len() as int);
        }
        let copying: usize = matrix_clone_work(&self.rows)?;
        let work: usize = match checked_sum3(Some(copying), coded_bytes, span as usize) {
            Some(work) => work,
            None => {
                return Err(FecError::WorkBudget);
            },
        };
        if work > work_budget {
            return Err(FecError::WorkBudget);
        }
        let need: usize = self.scratch_memory_bytes(1, span as usize, 0)?;
        match budget.reserve(need) {
            Some(scratch) => Ok(Admission { scratch, work }),
            None => Err(FecError::MemoryCapacity),
        }
    }

    /// Checks a source that meets equations and takes the scratch memory for it.
    pub fn admit_source(
        &self,
        budget: &mut RecoveryMemoryBudget,
        source_bytes: usize,
        work_budget: usize,
    ) -> (result: Result<Admission, FecError>)
        ensures
            match result {
                Err(error) => source_refusal(self@, *old(budget), source_bytes as int, work_budget as int) == Some(
                    error,
                ) && *final(budget) == *old(budget),
                Ok(admission) => {
                    let need = scratch_need(self@.rows, self@.max_symbol_bytes, 0, 0, source_bytes as int);
                    &&& source_refusal(self@, *old(budget), source_bytes as int, work_budget as int) is None
                    &&& admission.work == clone_total(self@.rows, self@.rows.len() as int)
                    &&& admission.scratch == (RecoveryCharge { owner: old(budget).id, bytes: need as usize })
                    &&& admission.scratch.bytes == need
                    &&& *final(budget) == old(budget).with_used(old(budget).used + need)
                },
            },
    {
        let work: usize = matrix_clone_work(&self.rows)?;
        if work > work_budget {
            return Err(FecError::WorkBudget);
        }
        let need: usize = self.scratch_memory_bytes(0, 0, source_bytes)?;
        match budget.reserve(need) {
            Some(scratch) => Ok(Admission { scratch, work }),
            None => Err(FecError::MemoryCapacity),
        }
    }
}

// ---------------------------------------------------------------------------
// Combination
// ---------------------------------------------------------------------------

/// The equations after elimination, and the symbols that they determine.
#[derive(Debug)]
pub struct Combined {
    pub rows: Vec<Row>,
    pub recovered: Vec<(u32, Vec<u8>)>,
}

/// What is left of a work budget.
pub open spec fn budget_left(budget: int, work: int) -> int {
    if work > budget {
        0
    } else {
        budget - work
    }
}

/// What a repair yields: its equation may say nothing new, contradict what is known,
/// or join the others and determine symbols.
pub open spec fn repair_outcome(
    state: DecoderModel,
    first: u32,
    span: u16,
    repair_id: u32,
    seed: u32,
    coded: Seq<u8>,
    work: int,
    budget: int,
) -> Result<Option<Seq<(u32, Seq<u8>)>>, FecError> {
    match gathered(state.known, first, span as int, repair_id, seed, coded, work, budget) {
        Err(error) => Err(error),
        Ok(equation) => {
            let row = RowModel { coefficients: equation.coefficients, data: equation.data };
            if row.coefficients.len() == 0 {
                if matrix::row_contradicts(row) {
                    Err(FecError::ContradictoryRepair)
                } else {
                    Ok(None)
                }
            } else {
                match matrix::reduction(state.rows.push(row), budget_left(budget, equation.work)) {
                    Err(error) => Err(error),
                    Ok(symbols) => Ok(Some(symbols)),
                }
            }
        },
    }
}

/// The equations after a repair joined them.
pub open spec fn repaired_rows(
    state: DecoderModel,
    first: u32,
    span: u16,
    repair_id: u32,
    seed: u32,
    coded: Seq<u8>,
    work: int,
    budget: int,
) -> Seq<RowModel> {
    let equation = gathered(state.known, first, span as int, repair_id, seed, coded, work, budget)->Ok_0;
    matrix::eliminated(
        state.rows.push(RowModel { coefficients: equation.coefficients, data: equation.data }),
        0,
    )
}

/// What a new source yields together with the equations that mention it.
pub open spec fn source_outcome(state: DecoderModel, id: u32, bytes: Seq<u8>, work: int, budget: int) -> Result<
    Seq<(u32, Seq<u8>)>,
    FecError,
> {
    match substituted(state.rows, state.rows.len() as int, id, bytes, work, budget) {
        Err(error) => Err(error),
        Ok((rows, spent)) => matrix::reduction(rows, budget_left(budget, spent)),
    }
}

/// The equations after a source became known.
pub open spec fn sourced_rows(state: DecoderModel, id: u32, bytes: Seq<u8>, work: int, budget: int) -> Seq<RowModel> {
    matrix::eliminated(substituted(state.rows, state.rows.len() as int, id, bytes, work, budget)->Ok_0.0, 0)
}

pub(crate) proof fn lemma_gathered_canonical(
    known: Seq<KnownModel>,
    first: u32,
    count: int,
    repair_id: u32,
    seed: u32,
    coded: Seq<u8>,
    work: int,
    budget: int,
)
    ensures
        gathered(known, first, count, repair_id, seed, coded, work, budget) matches Ok(equation) ==> matrix::canonical(
            equation.coefficients,
        ),
    decreases count,
{
    if count > 0 {
        lemma_gathered_canonical(known, first, count - 1, repair_id, seed, coded, work, budget);
        if let Ok(prior) = gathered(known, first, count - 1, repair_id, seed, coded, work, budget) {
            let id = symbol::symbol_at(first, count - 1);
            symbol::lemma_coefficient_value(seed, repair_id, id);
            matrix::lemma_add_term_canonical(
                prior.coefficients,
                id,
                symbol::coefficient_value(seed, repair_id, id),
            );
        }
    }
}

impl Decoder {
    /// Builds the equation of a repair symbol and eliminates it together with `rows`, a
    /// copy of the decoder's own. Nothing comes of an equation that holds already.
    pub fn combine_repair(
        &self,
        rows: Vec<Row>,
        first_symbol_id: u32,
        span: u16,
        repair_id: u32,
        seed: u32,
        coded: &[u8],
        coefficient_capacity: usize,
        work: usize,
        work_budget: usize,
    ) -> (result: Result<Option<Combined>, FecError>)
        requires
            self.wf(),
            matrix::models(rows@) == self@.rows,
            span <= MAX_REPAIR_SPAN,
            coefficient_capacity == span + coefficient_total(self@.rows, self@.rows.len() as int),
        ensures
            ({
                let outcome = repair_outcome(
                    self@,
                    first_symbol_id,
                    span,
                    repair_id,
                    seed,
                    coded@,
                    work as int,
                    work_budget as int,
                );
                match result {
                    Err(error) => {
                        ||| outcome == Err::<Option<Seq<(u32, Seq<u8>)>>, FecError>(error)
                        ||| error == FecError::MemoryCapacity && lacks_room(
                            self@.rows,
                            1,
                            span as int,
                            self@.max_symbol_bytes,
                        )
                    },
                    Ok(None) => outcome == Ok::<Option<Seq<(u32, Seq<u8>)>>, FecError>(None),
                    Ok(Some(combined)) => outcome == Ok::<Option<Seq<(u32, Seq<u8>)>>, FecError>(
                        Some(matrix::symbols_of(combined.recovered@)),
                    ) && matrix::models(combined.rows@) == repaired_rows(
                        self@,
                        first_symbol_id,
                        span,
                        repair_id,
                        seed,
                        coded@,
                        work as int,
                        work_budget as int,
                    ),
                }
            }),
    {
        let mut rows = rows;
        let mut work = work;
        let gathered_equation: Result<(Vec<(u32, u8)>, Vec<u8>), FecError> = self.gather(
            first_symbol_id,
            span,
            repair_id,
            seed,
            coded,
            coefficient_capacity,
            &mut work,
            work_budget,
        );
        let (coefficients, data): (Vec<(u32, u8)>, Vec<u8>) = match gathered_equation {
            Ok(equation) => equation,
            Err(error) => {
                return Err(error);
            },
        };
        let ghost equation = RowModel { coefficients: coefficients@, data: data@ };
        if coefficients.len() == 0 {
            if matrix::all_zero(data.as_slice()) {
                return Ok(None);
            }
            proof {
                let place = choose|i: int| 0 <= i < data@.len() && #[trigger] data@[i] != 0;
                assert(equation.data[place] != 0);
            }
            return Err(FecError::ContradictoryRepair);
        }
        rows.push(Row { coefficients, data });
        let ghost all = matrix::models(rows@);
        assert(all =~= self@.rows.push(equation));
        let left: usize = work_budget.saturating_sub(work);
        match matrix::reduce(&mut rows, self.max_symbol_bytes, left) {
            Ok(recovered) => Ok(Some(Combined { rows, recovered })),
            Err(error) => Err(error),
        }
    }

    /// Builds the equation of a repair symbol.
    fn gather(
        &self,
        first_symbol_id: u32,
        span: u16,
        repair_id: u32,
        seed: u32,
        coded: &[u8],
        coefficient_capacity: usize,
        work: &mut usize,
        work_budget: usize,
    ) -> (result: Result<(Vec<(u32, u8)>, Vec<u8>), FecError>)
        requires
            span <= MAX_REPAIR_SPAN,
        ensures
            ({
                let outcome = gathered(
                    self@.known,
                    first_symbol_id,
                    span as int,
                    repair_id,
                    seed,
                    coded@,
                    *old(work) as int,
                    work_budget as int,
                );
                match result {
                    Err(error) => {
                        ||| outcome == Err::<Gathered, FecError>(error)
                        ||| error == FecError::MemoryCapacity && (room::room_refused::<(u32, u8)>(
                            coefficient_capacity,
                        ) || room::room_refused::<u8>(self@.max_symbol_bytes as usize))
                    },
                    Ok(equation) => matrix::canonical(equation.0@) && outcome == Ok::<Gathered, FecError>(
                        Gathered { coefficients: equation.0@, data: equation.1@, work: *final(work) as int },
                    ),
                }
            }),
    {
        let ghost started = *work as int;
        let ghost limit = work_budget as int;
        let mut coefficients: Vec<(u32, u8)> = bounded_vec::<(u32, u8)>(coefficient_capacity)?;
        let mut data: Vec<u8> = bounded_vec::<u8>(self.max_symbol_bytes)?;
        extend_bytes(&mut data, coded);
        assert(data@ =~= coded@);
        let mut ordinal: u16 = 0;
        assert(coefficients@ =~= Seq::empty());
        while ordinal < span
            invariant
                ordinal <= span <= MAX_REPAIR_SPAN,
                limit == work_budget,
                started == *old(work),
                gathered(
                    self@.known,
                    first_symbol_id,
                    ordinal as int,
                    repair_id,
                    seed,
                    coded@,
                    started,
                    limit,
                ) == Ok::<Gathered, FecError>(
                    Gathered { coefficients: coefficients@, data: data@, work: *work as int },
                ),
                matrix::canonical(coefficients@),
            decreases span - ordinal,
        {
            let id: u32 = first_symbol_id.wrapping_add(ordinal as u32);
            assert(id == symbol::symbol_at(first_symbol_id, ordinal as int));
            let value: u8 = symbol::coefficient(seed, repair_id, id);
            proof {
                self.lemma_term_is_new(
                    first_symbol_id,
                    ordinal as int,
                    repair_id,
                    seed,
                    coded@,
                    started,
                    limit,
                );
            }
            let outcome: Result<(), FecError> = self.gather_symbol(
                id,
                value,
                &mut coefficients,
                &mut data,
                work,
                work_budget,
            );
            if let Err(error) = outcome {
                proof {
                    lemma_gathered_fails(
                        self@.known,
                        first_symbol_id,
                        ordinal + 1,
                        span as int,
                        repair_id,
                        seed,
                        coded@,
                        started,
                        limit,
                    );
                }
                return Err(error);
            }
            ordinal += 1;
        }
        Ok((coefficients, data))
    }

    /// Brings one more symbol of a span into an equation.
    fn gather_symbol(
        &self,
        id: u32,
        value: u8,
        coefficients: &mut Vec<(u32, u8)>,
        data: &mut Vec<u8>,
        work: &mut usize,
        budget: usize,
    ) -> (result: Result<(), FecError>)
        requires
            matrix::canonical(old(coefficients)@),
            !matrix::mentions(old(coefficients)@, id),
            value != 0,
        ensures
            ({
                let step = gather_step(
                    self@.known,
                    id,
                    value,
                    Gathered {
                        coefficients: old(coefficients)@,
                        data: old(data)@,
                        work: *old(work) as int,
                    },
                    budget as int,
                );
                match result {
                    Err(error) => step == Err::<Gathered, FecError>(error),
                    Ok(_) => matrix::canonical(final(coefficients)@) && step == Ok::<Gathered, FecError>(
                        Gathered {
                            coefficients: final(coefficients)@,
                            data: final(data)@,
                            work: *final(work) as int,
                        },
                    ),
                }
            }),
    {
        match self.known_source(id) {
            Some(bytes) => matrix::xor_scaled(data, bytes, value, work, budget),
            None => {
                let place: usize = matrix::position(coefficients, id);
                proof {
                    matrix::lemma_add_term_canonical(coefficients@, id, value);
                }
                coefficients.insert(place, (id, value));
                Ok(())
            },
        }
    }

    /// Within a span no identifier comes twice, so each new term is an insertion.
    proof fn lemma_term_is_new(
        &self,
        first: u32,
        count: int,
        repair_id: u32,
        seed: u32,
        coded: Seq<u8>,
        work: int,
        budget: int,
    )
        requires
            0 <= count < MAX_REPAIR_SPAN,
            gathered(self@.known, first, count, repair_id, seed, coded, work, budget) is Ok,
        ensures
            ({
                let terms = gathered(
                    self@.known,
                    first,
                    count,
                    repair_id,
                    seed,
                    coded,
                    work,
                    budget,
                )->Ok_0.coefficients;
                !matrix::mentions(terms, symbol::symbol_at(first, count))
            }),
    {
        self.lemma_terms_in_span(first, count, count, repair_id, seed, coded, work, budget);
    }

    proof fn lemma_terms_in_span(
        &self,
        first: u32,
        count: int,
        later: int,
        repair_id: u32,
        seed: u32,
        coded: Seq<u8>,
        work: int,
        budget: int,
    )
        requires
            0 <= count <= later < MAX_REPAIR_SPAN,
            gathered(self@.known, first, count, repair_id, seed, coded, work, budget) is Ok,
        ensures
            ({
                let terms = gathered(
                    self@.known,
                    first,
                    count,
                    repair_id,
                    seed,
                    coded,
                    work,
                    budget,
                )->Ok_0.coefficients;
                !matrix::mentions(terms, symbol::symbol_at(first, later))
            }),
        decreases count,
    {
        if count > 0 {
            self.lemma_terms_in_span(first, count - 1, later, repair_id, seed, coded, work, budget);
            let prior = gathered(self@.known, first, count - 1, repair_id, seed, coded, work, budget)->Ok_0;
            lemma_gathered_canonical(self@.known, first, count - 1, repair_id, seed, coded, work, budget);
            let id = symbol::symbol_at(first, count - 1);
            let value = symbol::coefficient_value(seed, repair_id, id);
            let other = symbol::symbol_at(first, later);
            symbol::lemma_coefficient_value(seed, repair_id, id);
            assert(id != other);
            matrix::lemma_add_term(prior.coefficients, id, value, other);
            matrix::lemma_mentions_iff(prior.coefficients, other);
            matrix::lemma_add_term_canonical(prior.coefficients, id, value);
            matrix::lemma_mentions_iff(matrix::add_term(prior.coefficients, id, value), other);
        }
    }

    /// Makes a source known in `rows`, a copy of the decoder's own, and eliminates them.
    pub fn combine_source(
        &self,
        rows: Vec<Row>,
        symbol_id: u32,
        source: &[u8],
        work: usize,
        work_budget: usize,
    ) -> (result: Result<Combined, FecError>)
        requires
            self.wf(),
            matrix::models(rows@) == self@.rows,
        ensures
            ({
                let outcome = source_outcome(self@, symbol_id, source@, work as int, work_budget as int);
                match result {
                    Err(error) => {
                        ||| outcome == Err::<Seq<(u32, Seq<u8>)>, FecError>(error)
                        ||| error == FecError::MemoryCapacity && lacks_room(
                            self@.rows,
                            0,
                            0,
                            self@.max_symbol_bytes,
                        )
                    },
                    Ok(combined) => outcome == Ok::<Seq<(u32, Seq<u8>)>, FecError>(
                        matrix::symbols_of(combined.recovered@),
                    ) && matrix::models(combined.rows@) == sourced_rows(
                        self@,
                        symbol_id,
                        source@,
                        work as int,
                        work_budget as int,
                    ),
                }
            }),
    {
        let mut rows = rows;
        let mut work = work;
        assert(matrix::models(rows@).len() == rows@.len());
        substitute(&mut rows, symbol_id, source, &mut work, work_budget)?;
        let left: usize = work_budget.saturating_sub(work);
        match matrix::reduce(&mut rows, self.max_symbol_bytes, left) {
            Ok(recovered) => Ok(Combined { rows, recovered }),
            Err(error) => Err(error),
        }
    }
}

// ---------------------------------------------------------------------------
// Completion
// ---------------------------------------------------------------------------

/// How the symbol at `at` reads; one that nobody read is no source symbol.
pub open spec fn decoded_at(decoded: Seq<DecodedSource>, at: int) -> DecodedSource {
    if 0 <= at < decoded.len() {
        decoded[at]
    } else {
        DecodedSource::Rejected
    }
}

/// One recovered symbol without its padding.
pub open spec fn canonical_item(symbol: (u32, Seq<u8>), decoded: DecodedSource) -> Result<(u32, Seq<u8>), FecError> {
    match decoded {
        DecodedSource::Rejected => Err(FecError::ContradictoryRepair),
        DecodedSource::Oversized => Err(FecError::MemoryCapacity),
        DecodedSource::Symbol { symbol_id, consumed } => if symbol_id != symbol.0 || consumed > symbol.1.len() {
            Err(FecError::ContradictoryRepair)
        } else {
            Ok((symbol.0, symbol.1.take(consumed as int)))
        },
    }
}

/// The first `end` recovered symbols without their padding, or the first reason why
/// one of them is none.
pub open spec fn canonical_items(symbols: Seq<(u32, Seq<u8>)>, decoded: Seq<DecodedSource>, end: int) -> Result<
    Seq<(u32, Seq<u8>)>,
    FecError,
>
    decreases end,
{
    if end <= 0 {
        Ok(Seq::empty())
    } else {
        match canonical_items(symbols, decoded, end - 1) {
            Err(error) => Err(error),
            Ok(prior) => match canonical_item(symbols[end - 1], decoded_at(decoded, end - 1)) {
                Err(error) => Err(error),
                Ok(item) => Ok(prior.push(item)),
            },
        }
    }
}

/// Some recovered symbol differs from the one that is known under its identifier.
pub open spec fn conflicts(known: Seq<KnownModel>, items: Seq<(u32, Seq<u8>)>) -> bool {
    exists|i: int| #![trigger items[i]]
        0 <= i < items.len() && known_bytes(known, items[i].0) is Some && known_bytes(known, items[i].0) != Some(
            items[i].1,
        )
}

/// The total length of the first `end` symbols.
pub open spec fn item_bytes(items: Seq<(u32, Seq<u8>)>, end: int) -> int
    decreases end,
{
    if end <= 0 {
        0
    } else {
        item_bytes(items, end - 1) + items[end - 1].1.len()
    }
}

/// The memory behind a list of recovered symbols.
pub open spec fn batch_bytes(items: Seq<(u32, Seq<u8>)>) -> int {
    items.len() * vstd::layout::size_of::<RecoveredSource>() + item_bytes(items, items.len() as int)
}

/// The rows among the first `end` that still mention more than one symbol.
pub open spec fn unsolved(rows: Seq<RowModel>, end: int) -> Seq<RowModel>
    decreases end,
{
    if end <= 0 {
        Seq::empty()
    } else {
        let prior = unsolved(rows, end - 1);
        if rows[end - 1].coefficients.len() > 1 {
            prior.push(rows[end - 1])
        } else {
            prior
        }
    }
}

/// The memory that is charged for `kept` rows: that of a list made with room for
/// `row_capacity` rows, and for each row kept that of vectors made with room for
/// `coefficient_capacity` coefficients and for a whole symbol.
pub open spec fn row_storage(row_capacity: int, kept: int, coefficient_capacity: int, max_symbol_bytes: int) -> int {
    row_capacity * vstd::layout::size_of::<Row>() + kept * (max_symbol_bytes + coefficient_capacity
        * vstd::layout::size_of::<(u32, u8)>())
}

/// How much larger `after` is.
pub open spec fn growth(before: int, after: int) -> int {
    if after > before {
        after - before
    } else {
        0
    }
}

/// The symbols that a batch holds.
pub open spec fn batch_items(items: Seq<RecoveredSource>) -> Seq<(u32, Seq<u8>)> {
    items.map_values(|item: RecoveredSource| (item.symbol_id, storage::contents(item.bytes)))
}

/// Recovered sources on their way to delivery, with the memory that they hold.
#[derive(Debug)]
pub struct RecoveredBatch {
    pub items: Vec<RecoveredSource>,
    pub retained_bytes: usize,
    pub charge: RecoveryCharge,
}

impl RecoveredBatch {
    /// The charge covers what the batch is said to hold.
    pub open spec fn wf(&self) -> bool {
        self.retained_bytes <= self.charge.bytes
    }

    /// A batch of nothing.
    fn empty(owner: u64) -> (batch: Self)
        ensures
            batch.wf(),
            batch.items@.len() == 0,
            batch.retained_bytes == 0,
            batch.charge == (RecoveryCharge { owner, bytes: 0 }),
    {
        RecoveredBatch { items: Vec::new(), retained_bytes: 0, charge: RecoveryCharge { owner, bytes: 0 } }
    }

    /// A batch of recovered sources that takes over the scratch memory of its operation. The
    /// scratch memory grows to what the batch and the state that is committed with it need,
    /// where the budget has room for that, and hands over what the state takes. Where there
    /// is no room, it goes back to the budget.
    pub fn new(
        items: Vec<RecoveredSource>,
        scratch: RecoveryCharge,
        committed_bytes: usize,
        budget: &mut RecoveryMemoryBudget,
    ) -> (result: Result<Self, FecError>)
        requires
            scratch.bytes <= old(budget).used,
            forall|i: int|
                0 <= i < items@.len() ==> (#[trigger] items@[i]).retained_bytes == storage::contents(
                    items@[i].bytes,
                ).len(),
        ensures
            ({
                let retained = batch_bytes(batch_items(items@));
                let required = retained + committed_bytes;
                if required > usize::MAX || required > scratch.bytes && old(budget).used + (required - scratch.bytes)
                    > old(budget).limit {
                    &&& result == Err::<Self, FecError>(FecError::MemoryCapacity)
                    &&& *final(budget) == old(budget).with_used(old(budget).used - scratch.bytes)
                } else {
                    let held = larger(required, scratch.bytes as int);
                    &&& result == Ok::<Self, FecError>(
                        RecoveredBatch {
                            items,
                            retained_bytes: retained as usize,
                            charge: RecoveryCharge { owner: scratch.owner, bytes: (held - committed_bytes) as usize },
                        },
                    )
                    &&& *final(budget) == old(budget).with_used(old(budget).used + (held - scratch.bytes))
                }
            }),
    {
        let mut charge = scratch;
        proof {
            lemma_batch_bytes(batch_items(items@));
        }
        let required: Option<(usize, usize)> = match batch_memory(&items) {
            Some(retained) => match retained.checked_add(committed_bytes) {
                Some(required) => Some((retained, required)),
                None => None,
            },
            None => None,
        };
        match required {
            Some((retained_bytes, required)) => {
                if !budget.grow(&mut charge, required) {
                    budget.discard(charge);
                    return Err(FecError::MemoryCapacity);
                }
                charge.transfer(committed_bytes);
                Ok(RecoveredBatch { items, retained_bytes, charge })
            },
            None => {
                budget.discard(charge);
                Err(FecError::MemoryCapacity)
            },
        }
    }

    /// Gives back what the batch does not need of its charge, once the state of its
    /// operation is replaced.
    pub fn shrink_after_state_transition(&mut self, budget: &mut RecoveryMemoryBudget)
        requires
            old(self).charge.bytes <= old(budget).used,
        ensures
            final(self).items@ == old(self).items@,
            final(self).retained_bytes == old(self).retained_bytes,
            ({
                let spare = growth(old(self).retained_bytes as int, old(self).charge.bytes as int);
                &&& final(self).charge == (RecoveryCharge {
                    owner: old(self).charge.owner,
                    bytes: (old(self).charge.bytes - spare) as usize,
                })
                &&& *final(budget) == old(budget).with_used(old(budget).used - spare)
            }),
    {
        budget.shrink(&mut self.charge, self.retained_bytes);
    }

    /// Whether nothing is left in the batch.
    pub fn is_empty(&self) -> (empty: bool)
        ensures
            empty == (self.items@.len() == 0),
    {
        self.items.len() == 0
    }

    /// Takes the last source out of the batch. Its memory stays charged to the batch.
    pub fn pop(&mut self) -> (source: Option<RecoveredSource>)
        ensures
            match source {
                Some(item) => old(self).items@.len() > 0 && item == old(self).items@.last() && final(self).items@
                    == old(self).items@.drop_last(),
                None => old(self).items@.len() == 0 && final(self).items@ == old(self).items@,
            },
            final(self).retained_bytes == old(self).retained_bytes,
            final(self).charge == old(self).charge,
    {
        self.items.pop()
    }

    /// Holds `bytes` more than the batch itself, for its delivery.
    pub fn reserve_dispatch(&mut self, budget: &mut RecoveryMemoryBudget, bytes: usize) -> (result: Result<
        (),
        FecError,
    >)
        ensures
            final(self).items@ == old(self).items@,
            final(self).retained_bytes == old(self).retained_bytes,
            ({
                let required = old(self).retained_bytes + bytes;
                let held = old(self).charge.bytes;
                let fits = required <= usize::MAX && (required <= held || old(budget).used + (required - held)
                    <= old(budget).limit);
                &&& result == (if fits {
                    Ok::<(), FecError>(())
                } else {
                    Err(FecError::MemoryCapacity)
                })
                &&& final(self).charge == (if fits && required > held {
                    RecoveryCharge { owner: old(self).charge.owner, bytes: required as usize }
                } else {
                    old(self).charge
                })
                &&& *final(budget) == (if fits && required > held {
                    old(budget).with_used(old(budget).used + (required - held))
                } else {
                    *old(budget)
                })
            }),
    {
        match self.retained_bytes.checked_add(bytes) {
            Some(required) => {
                if budget.grow(&mut self.charge, required) {
                    Ok(())
                } else {
                    Err(FecError::MemoryCapacity)
                }
            },
            None => Err(FecError::MemoryCapacity),
        }
    }

    /// Parts the memory of a source that left the batch from the batch's own.
    pub fn take_retained_charge(&mut self, bytes: usize) -> (result: Result<RecoveryCharge, FecError>)
        requires
            old(self).wf(),
        ensures
            final(self).wf(),
            final(self).items@ == old(self).items@,
            ({
                let fits = bytes <= old(self).retained_bytes;
                &&& result == (if fits {
                    Ok::<RecoveryCharge, FecError>(RecoveryCharge { owner: old(self).charge.owner, bytes })
                } else {
                    Err(FecError::MemoryCapacity)
                })
                &&& final(self).retained_bytes == old(self).retained_bytes - (if fits {
                    bytes as int
                } else {
                    0
                })
                &&& final(self).charge.bytes == old(self).charge.bytes - (if fits {
                    bytes as int
                } else {
                    0
                })
                &&& final(self).charge.owner == old(self).charge.owner
            }),
    {
        if bytes > self.retained_bytes {
            return Err(FecError::MemoryCapacity);
        }
        match self.charge.split(bytes) {
            Some(charge) => {
                self.retained_bytes = self.retained_bytes - bytes;
                Ok(charge)
            },
            None => Err(FecError::MemoryCapacity),
        }
    }

    /// Parts delivery memory from the batch's charge.
    pub fn take_dispatch_charge(&mut self, bytes: usize) -> (result: Result<RecoveryCharge, FecError>)
        ensures
            final(self).items@ == old(self).items@,
            final(self).retained_bytes == old(self).retained_bytes,
            result == (if bytes <= old(self).charge.bytes {
                Ok::<RecoveryCharge, FecError>(RecoveryCharge { owner: old(self).charge.owner, bytes })
            } else {
                Err(FecError::MemoryCapacity)
            }),
            final(self).charge == (RecoveryCharge {
                owner: old(self).charge.owner,
                bytes: (if bytes <= old(self).charge.bytes {
                    old(self).charge.bytes - bytes
                } else {
                    old(self).charge.bytes as int
                }) as usize,
            }),
    {
        match self.charge.split(bytes) {
            Some(charge) => Ok(charge),
            None => Err(FecError::MemoryCapacity),
        }
    }

    /// Gives the memory of a batch back.
    pub fn discard(self, budget: &mut RecoveryMemoryBudget)
        requires
            self.charge.bytes <= old(budget).used,
        ensures
            *final(budget) == old(budget).with_used(old(budget).used - self.charge.bytes),
    {
        budget.discard(self.charge);
    }
}

proof fn lemma_canonical_items_fail(
    symbols: Seq<(u32, Seq<u8>)>,
    decoded: Seq<DecodedSource>,
    part: int,
    end: int,
)
    requires
        0 <= part <= end,
        canonical_items(symbols, decoded, part) is Err,
    ensures
        canonical_items(symbols, decoded, end) == canonical_items(symbols, decoded, part),
    decreases end - part,
{
    if part < end {
        lemma_canonical_items_fail(symbols, decoded, part, end - 1);
    }
}

/// Cuts recovered symbols to the source symbols that they hold, in memory of their own.
pub fn canonical_recovered(recovered: &Vec<(u32, Vec<u8>)>, decoded: &Vec<DecodedSource>) -> (result: Result<
    Vec<RecoveredSource>,
    FecError,
>)
    ensures
        ({
            let symbols = matrix::symbols_of(recovered@);
            let outcome = canonical_items(symbols, decoded@, symbols.len() as int);
            match result {
                Err(error) => {
                    ||| outcome == Err::<Seq<(u32, Seq<u8>)>, FecError>(error)
                    ||| error == FecError::MemoryCapacity && batch_refused()
                },
                Ok(items) => outcome == Ok::<Seq<(u32, Seq<u8>)>, FecError>(batch_items(items@)) && forall|i: int|
                    0 <= i < items@.len() ==> (#[trigger] items@[i]).retained_bytes == storage::contents(
                        items@[i].bytes,
                    ).len(),
            }
        }),
{
    let ghost symbols = matrix::symbols_of(recovered@);
    let mut items: Vec<RecoveredSource> = bounded_vec::<RecoveredSource>(recovered.len())?;
    let mut at: usize = 0;
    assert(batch_items(items@) =~= Seq::empty());
    while at < recovered.len()
        invariant
            at <= recovered@.len(),
            symbols == matrix::symbols_of(recovered@),
            canonical_items(symbols, decoded@, at as int) == Ok::<Seq<(u32, Seq<u8>)>, FecError>(batch_items(items@)),
            forall|i: int|
                0 <= i < items@.len() ==> (#[trigger] items@[i]).retained_bytes == storage::contents(
                    items@[i].bytes,
                ).len(),
        decreases recovered@.len() - at,
    {
        let reading: DecodedSource = if at < decoded.len() {
            decoded[at]
        } else {
            DecodedSource::Rejected
        };
        let symbol_id: u32 = recovered[at].0;
        let bytes: &Vec<u8> = &recovered[at].1;
        assert(symbols[at as int] == (symbol_id, bytes@));
        let consumed: Result<usize, FecError> = match reading {
            DecodedSource::Rejected => Err(FecError::ContradictoryRepair),
            DecodedSource::Oversized => Err(FecError::MemoryCapacity),
            DecodedSource::Symbol { symbol_id: read, consumed } => if read != symbol_id || consumed > bytes.len() {
                Err(FecError::ContradictoryRepair)
            } else {
                Ok(consumed)
            },
        };
        let consumed: usize = match consumed {
            Ok(consumed) => consumed,
            Err(error) => {
                proof {
                    lemma_canonical_items_fail(symbols, decoded@, at + 1, symbols.len() as int);
                }
                return Err(error);
            },
        };
        let kept: &[u8] = vstd::slice::slice_subrange(bytes.as_slice(), 0, consumed);
        let mut storage: Vec<u8> = bounded_vec::<u8>(consumed)?;
        extend_bytes(&mut storage, kept);
        assert(storage@ =~= bytes@.take(consumed as int));
        let ghost prior = batch_items(items@);
        items.push(RecoveredSource { symbol_id, bytes: storage::from_vec(storage), retained_bytes: consumed });
        assert(batch_items(items@) =~= prior.push((symbol_id, bytes@.take(consumed as int))));
        at += 1;
    }
    Ok(items)
}

pub(crate) proof fn lemma_item_bytes_grow(items: Seq<(u32, Seq<u8>)>, part: int, end: int)
    requires
        0 <= part <= end,
    ensures
        0 <= item_bytes(items, part) <= item_bytes(items, end),
    decreases end,
{
    if part < end {
        lemma_item_bytes_grow(items, part, end - 1);
    } else if part > 0 {
        lemma_item_bytes_grow(items, part - 1, end - 1);
    }
}

proof fn lemma_batch_bytes(items: Seq<(u32, Seq<u8>)>)
    ensures
        batch_bytes(items) >= 0,
{
    lemma_item_bytes_grow(items, 0, items.len() as int);
    assert(items.len() * vstd::layout::size_of::<RecoveredSource>() >= 0) by (nonlinear_arith);
}

/// The memory behind recovered sources, where it can be counted.
fn batch_memory(items: &Vec<RecoveredSource>) -> (bytes: Option<usize>)
    requires
        forall|i: int|
            0 <= i < items@.len() ==> (#[trigger] items@[i]).retained_bytes == storage::contents(
                items@[i].bytes,
            ).len(),
    ensures
        match bytes {
            Some(bytes) => bytes == batch_bytes(batch_items(items@)),
            None => batch_bytes(batch_items(items@)) > usize::MAX,
        },
{
    let ghost list = batch_items(items@);
    let entry: usize = core::mem::size_of::<RecoveredSource>();
    let ghost entries = items@.len() * entry;
    proof {
        lemma_item_bytes_grow(list, 0, list.len() as int);
        assert(items@.len() * entry >= 0) by (nonlinear_arith);
    }
    let mut total: usize = match items.len().checked_mul(entry) {
        Some(total) => total,
        None => {
            return None;
        },
    };
    let mut at: usize = 0;
    while at < items.len()
        invariant
            at <= items@.len(),
            list == batch_items(items@),
            entries == items@.len() * entry,
            entry == vstd::layout::size_of::<RecoveredSource>(),
            forall|i: int|
                0 <= i < items@.len() ==> (#[trigger] items@[i]).retained_bytes == storage::contents(
                    items@[i].bytes,
                ).len(),
            total == entries + item_bytes(list, at as int),
        decreases items@.len() - at,
    {
        proof {
            lemma_item_bytes_grow(list, at + 1, list.len() as int);
            assert(list[at as int].1.len() == items@[at as int].retained_bytes);
        }
        match total.checked_add(items[at].retained_bytes) {
            Some(next) => {
                total = next;
            },
            None => {
                return None;
            },
        }
        at += 1;
    }
    Some(total)
}

/// The memory that is charged for rows, where it can be counted.
pub fn row_storage_bytes(
    row_capacity: usize,
    kept: usize,
    coefficient_capacity: usize,
    max_symbol_bytes: usize,
) -> (result: Result<usize, FecError>)
    ensures
        ({
            let total = row_storage(
                row_capacity as int,
                kept as int,
                coefficient_capacity as int,
                max_symbol_bytes as int,
            );
            match result {
                Ok(bytes) => bytes == total,
                Err(error) => error == FecError::MemoryCapacity && total > usize::MAX,
            }
        }),
{
    let row: usize = core::mem::size_of::<Row>();
    let term: usize = core::mem::size_of::<(u32, u8)>();
    let ghost terms = coefficient_capacity * term;
    let ghost each = max_symbol_bytes + terms;
    proof {
        assert(row_capacity * row >= 0) by (nonlinear_arith);
        assert(coefficient_capacity * term >= 0) by (nonlinear_arith);
        assert(kept > 0 ==> kept * each >= each) by (nonlinear_arith)
            requires each >= 0;
        assert(kept == 0 ==> kept * each == 0) by (nonlinear_arith);
    }
    let list: usize = match row_capacity.checked_mul(row) {
        Some(bytes) => bytes,
        None => {
            return Err(FecError::MemoryCapacity);
        },
    };
    if kept == 0 {
        return Ok(list);
    }
    let each_bytes: usize = match checked_sum3(coefficient_capacity.checked_mul(term), max_symbol_bytes, 0) {
        Some(bytes) => bytes,
        None => {
            return Err(FecError::MemoryCapacity);
        },
    };
    match checked_sum3(kept.checked_mul(each_bytes), list, 0) {
        Some(bytes) => Ok(bytes),
        None => Err(FecError::MemoryCapacity),
    }
}

proof fn lemma_unsolved(rows: Seq<RowModel>, end: int)
    requires
        matrix::all_canonical(rows),
        0 <= end <= rows.len(),
    ensures
        matrix::all_canonical(unsolved(rows, end)),
        unsolved(rows, end).len() <= end,
    decreases end,
{
    if end > 0 {
        lemma_unsolved(rows, end - 1);
    }
}

/// Drops the rows that mention one symbol or none.
fn retain_unsolved(rows: &mut Vec<Row>)
    ensures
        matrix::models(final(rows)@) == unsolved(matrix::models(old(rows)@), old(rows)@.len() as int),
{
    let ghost before = matrix::models(rows@);
    let ghost mut seen: int = 0;
    let mut at: usize = 0;
    assert(matrix::models(rows@) =~= unsolved(before, 0) + before.skip(0));
    while at < rows.len()
        invariant
            0 <= seen <= before.len(),
            at == unsolved(before, seen).len(),
            matrix::models(rows@) == unsolved(before, seen) + before.skip(seen),
        decreases before.len() - seen,
    {
        let ghost current = matrix::models(rows@);
        assert(current.len() == rows@.len());
        assert(current[at as int] == before[seen]);
        assert(rows@[at as int]@ == before[seen]);
        if rows[at].coefficients.len() > 1 {
            at += 1;
        } else {
            rows.remove(at);
            assert(matrix::models(rows@) =~= current.remove(at as int));
        }
        proof {
            seen = seen + 1;
        }
        assert(matrix::models(rows@) =~= unsolved(before, seen) + before.skip(seen));
    }
    proof {
        assert(matrix::models(rows@).len() == rows@.len());
        assert(seen == before.len());
        assert(matrix::models(rows@) =~= unsolved(before, seen));
    }
}

/// What completing an operation settles: the symbols that it gives back, the memory of
/// the new equations, and what has to be held for all of it.
pub struct Completion {
    pub items: Seq<(u32, Seq<u8>)>,
    pub row_bytes: int,
    pub required: int,
}

/// The content of a source, where there is one.
pub open spec fn kept_model(source: Option<KnownSource>) -> Option<KnownModel> {
    match source {
        Some(known) => Some(known@),
        None => None,
    }
}

/// The completion of an operation whose elimination left `rows` and gave back
/// `symbols`, or why there is none.
pub open spec fn completion(
    state: DecoderModel,
    memory: RecoveryMemoryBudget,
    scratch: int,
    rows: Seq<RowModel>,
    symbols: Seq<(u32, Seq<u8>)>,
    decoded: Seq<DecodedSource>,
    row_capacity: int,
    coefficient_capacity: int,
    source: Option<KnownModel>,
) -> Result<Completion, FecError> {
    match canonical_items(symbols, decoded, symbols.len() as int) {
        Err(error) => Err(error),
        Ok(items) => {
            let row_bytes = row_storage(
                row_capacity,
                unsolved(rows, rows.len() as int).len() as int,
                coefficient_capacity,
                state.max_symbol_bytes,
            );
            let source_growth = match source {
                Some(kept) => growth(state.evicted_bytes(), kept.retained),
                None => 0,
            };
            let committed = growth(state.row_bytes, row_bytes) + source_growth;
            let required = batch_bytes(items) + committed;
            if conflicts(state.known, items) {
                Err(FecError::ContradictoryRepair)
            } else if row_bytes > usize::MAX || required > usize::MAX || (required > scratch && memory.used + (required
                - scratch) > memory.limit) {
                Err(FecError::MemoryCapacity)
            } else {
                Ok(Completion { items, row_bytes, required })
            }
        },
    }
}

/// The decoder after a completed operation.
pub open spec fn completed(
    state: DecoderModel,
    rows: Seq<RowModel>,
    row_bytes: int,
    source: Option<KnownModel>,
) -> DecoderModel {
    DecoderModel {
        rows: unsolved(rows, rows.len() as int),
        row_bytes,
        known: match source {
            Some(kept) => state.known_with(kept),
            None => state.known,
        },
        ..state
    }
}

/// The bytes that a completed operation adds to what is in use, next to its scratch
/// memory, which it gives back.
pub open spec fn completion_cost(state: DecoderModel, done: Completion, source: Option<KnownModel>) -> int {
    batch_bytes(done.items) + (done.row_bytes - state.row_bytes) + (match source {
        Some(kept) => kept.retained - state.evicted_bytes(),
        None => 0,
    })
}

/// Refuses recovered sources that differ from known ones.
fn validate_recovered(decoder: &Decoder, items: &Vec<RecoveredSource>) -> (result: Result<(), FecError>)
    ensures
        result == (if conflicts(decoder@.known, batch_items(items@)) {
            Err::<(), FecError>(FecError::ContradictoryRepair)
        } else {
            Ok(())
        }),
{
    let ghost list = batch_items(items@);
    let mut at: usize = 0;
    while at < items.len()
        invariant
            at <= items@.len(),
            list == batch_items(items@),
            forall|i: int|
                0 <= i < at ==> known_bytes(decoder@.known, (#[trigger] list[i]).0) is None || known_bytes(
                    decoder@.known,
                    list[i].0,
                ) == Some(list[i].1),
        decreases items@.len() - at,
    {
        assert(list[at as int] == (items@[at as int].symbol_id, storage::contents(items@[at as int].bytes)));
        if let Some(existing) = decoder.known_source(items[at].symbol_id) {
            if !storage::equal(existing, storage::as_slice(&items[at].bytes)) {
                assert(conflicts(decoder@.known, list));
                return Err(FecError::ContradictoryRepair);
            }
        }
        at += 1;
    }
    assert(!conflicts(decoder@.known, list));
    Ok(())
}

pub(crate) proof fn lemma_valid_bytes(state: DecoderModel)
    requires
        state.valid(),
    ensures
        retained_by(state.known) >= 0,
        0 <= state.evicted_bytes() <= retained_by(state.known),
        state.held() >= 0,
{
    lemma_retained_not_negative(state.known);
}

impl Decoder {
    /// Takes over the outcome of an elimination: the equations that are still unsolved
    /// become the decoder's, `source` joins the window, and what was recovered is
    /// handed out. `decoded` says how each recovered symbol reads.
    ///
    /// Where the outcome is refused, the decoder stays as it was. Either way the scratch
    /// memory is settled.
    #[verifier::rlimit(60)]
    #[verifier::spinoff_prover]
    pub fn complete(
        &mut self,
        budget: &mut RecoveryMemoryBudget,
        combined: Combined,
        decoded: &Vec<DecodedSource>,
        scratch: RecoveryCharge,
        row_capacity: usize,
        coefficient_capacity: usize,
        source: Option<KnownSource>,
    ) -> (result: Result<RecoveredBatch, FecError>)
        requires
            old(self).wf(),
            old(budget).used >= old(self)@.held() + scratch.bytes,
            matrix::all_canonical(matrix::models(combined.rows@)),
            combined.rows@.len() <= old(self)@.max_rows,
            source is Some ==> known_bytes(old(self)@.known, source->0.symbol_id) is None,
        ensures
            final(self).wf(),
            ({
                let kept = kept_model(source);
                let rows = matrix::models(combined.rows@);
                let outcome = completion(
                    old(self)@,
                    *old(budget),
                    scratch.bytes as int,
                    rows,
                    matrix::symbols_of(combined.recovered@),
                    decoded@,
                    row_capacity as int,
                    coefficient_capacity as int,
                    kept,
                );
                match result {
                    Err(error) => {
                        &&& outcome == Err::<Completion, FecError>(error) || error == FecError::MemoryCapacity
                            && batch_refused()
                        &&& final(self)@ == old(self)@
                        &&& *final(budget) == old(budget).with_used(old(budget).used - scratch.bytes)
                    },
                    Ok(batch) => {
                        &&& outcome is Ok
                        &&& batch_items(batch.items@) == outcome->Ok_0.items
                        &&& final(self)@ == completed(old(self)@, rows, outcome->Ok_0.row_bytes, kept)
                        &&& batch.wf()
                        &&& batch.retained_bytes == batch_bytes(outcome->Ok_0.items)
                        &&& batch.charge == (RecoveryCharge { owner: scratch.owner, bytes: batch.retained_bytes })
                        &&& *final(budget) == old(budget).with_used(
                            old(budget).used - scratch.bytes + completion_cost(old(self)@, outcome->Ok_0, kept),
                        )
                    },
                }
            }),
    {
        let ghost before = self@;
        let ghost kept = kept_model(source);
        let charge = scratch;
        proof {
            lemma_valid_bytes(before);
        }
        let recovered: Result<Vec<RecoveredSource>, FecError> = canonical_recovered(&combined.recovered, decoded);
        let items: Vec<RecoveredSource> = match recovered {
            Ok(items) => items,
            Err(error) => {
                budget.discard(charge);
                return Err(error);
            },
        };
        let ghost list = batch_items(items@);
        if let Err(error) = validate_recovered(self, &items) {
            budget.discard(charge);
            return Err(error);
        }
        let mut rows: Vec<Row> = combined.rows;
        let ghost all = matrix::models(rows@);
        retain_unsolved(&mut rows);
        proof {
            lemma_unsolved(all, all.len() as int);
            lemma_item_bytes_grow(list, 0, list.len() as int);
            assert(list.len() * vstd::layout::size_of::<RecoveredSource>() >= 0) by (nonlinear_arith);
            assert(matrix::models(rows@).len() == rows@.len());
        }
        let counted: Result<usize, FecError> = row_storage_bytes(
            row_capacity,
            rows.len(),
            coefficient_capacity,
            self.max_symbol_bytes,
        );
        let next_row_bytes: usize = match counted {
            Ok(bytes) => bytes,
            Err(error) => {
                budget.discard(charge);
                return Err(error);
            },
        };
        let row_growth: usize = next_row_bytes.saturating_sub(self.row_bytes);
        let (source_growth, source_release): (usize, usize) = match &source {
            Some(known) => self.known_memory_delta(known.retained_bytes),
            None => (0, 0),
        };
        let reservation: usize = match source_growth.checked_add(row_growth) {
            Some(bytes) => bytes,
            None => {
                budget.discard(charge);
                return Err(FecError::MemoryCapacity);
            },
        };
        let mut batch: RecoveredBatch = match RecoveredBatch::new(items, charge, reservation, budget) {
            Ok(batch) => batch,
            Err(error) => {
                return Err(error);
            },
        };
        let released: usize = self.row_bytes.saturating_sub(next_row_bytes);
        self.rows = rows;
        self.row_bytes = next_row_bytes;
        budget.release(released);
        let ghost middle = self@;
        assert(middle == (DecoderModel {
            rows: unsolved(all, all.len() as int),
            row_bytes: next_row_bytes as int,
            ..before
        }));
        assert(self.wf());
        if let Some(known) = source {
            self.insert_known(known);
            assert(middle.known_with(known@) == before.known_with(known@));
        }
        budget.release(source_release);
        batch.shrink_after_state_transition(budget);
        Ok(batch)
    }
}

// ---------------------------------------------------------------------------
// Operations
// ---------------------------------------------------------------------------

/// Whether `decoded` is how `decode` reads each of the symbols.
pub open spec fn reads<D: Fn(&[u8]) -> DecodedSource>(
    decode: &D,
    symbols: Seq<(u32, Seq<u8>)>,
    decoded: Seq<DecodedSource>,
) -> bool {
    &&& decoded.len() == symbols.len()
    &&& forall|i: int| 0 <= i < symbols.len() ==> #[trigger] read_as(decode, symbols[i].1, decoded[i])
}

/// Whether `decode` may read these bytes as `reading`.
pub open spec fn read_as<D: Fn(&[u8]) -> DecodedSource>(decode: &D, content: Seq<u8>, reading: DecodedSource) -> bool {
    exists|bytes: &[u8]| bytes@ == content && #[trigger] call_ensures(decode, (bytes,), reading)
}

/// Reads every recovered symbol.
fn read_all<D: Fn(&[u8]) -> DecodedSource>(recovered: &Vec<(u32, Vec<u8>)>, decode: &D) -> (decoded: Vec<
    DecodedSource,
>)
    requires
        forall|bytes: &[u8]| #[trigger] call_requires(decode, (bytes,)),
    ensures
        reads(decode, matrix::symbols_of(recovered@), decoded@),
{
    let ghost symbols = matrix::symbols_of(recovered@);
    let mut decoded: Vec<DecodedSource> = Vec::with_capacity(recovered.len());
    let mut at: usize = 0;
    while at < recovered.len()
        invariant
            at <= recovered@.len(),
            symbols == matrix::symbols_of(recovered@),
            decoded@.len() == at,
            forall|bytes: &[u8]| #[trigger] call_requires(decode, (bytes,)),
            forall|i: int| 0 <= i < at ==> #[trigger] read_as(decode, symbols[i].1, decoded@[i]),
        decreases recovered@.len() - at,
    {
        let bytes: &[u8] = recovered[at].1.as_slice();
        assert(bytes@ == symbols[at as int].1);
        let reading: DecodedSource = decode(bytes);
        let ghost prior = decoded@;
        decoded.push(reading);
        assert(call_ensures(decode, (bytes,), reading));
        assert forall|i: int| 0 <= i < at + 1 implies #[trigger] read_as(decode, symbols[i].1, decoded@[i]) by {
            if i < at {
                assert(read_as(decode, symbols[i].1, prior[i]));
            }
        }
        at += 1;
    }
    decoded
}

/// A budget after scratch memory was taken from it.
pub open spec fn charged(memory: RecoveryMemoryBudget, bytes: int) -> RecoveryMemoryBudget {
    memory.with_used(memory.used + bytes)
}

/// Whether a decoder went from `before` to `after` and handed out `batch` by a
/// completion of the given elimination, with the symbols read as `decoded`.
pub open spec fn completes(
    before: DecoderModel,
    after: DecoderModel,
    memory: RecoveryMemoryBudget,
    memory_after: RecoveryMemoryBudget,
    scratch: int,
    rows: Seq<RowModel>,
    symbols: Seq<(u32, Seq<u8>)>,
    decoded: Seq<DecodedSource>,
    row_capacity: int,
    coefficient_capacity: int,
    source: Option<KnownModel>,
    result: Result<RecoveredBatch, FecError>,
) -> bool {
    let outcome = completion(
        before,
        charged(memory, scratch),
        scratch,
        rows,
        symbols,
        decoded,
        row_capacity,
        coefficient_capacity,
        source,
    );
    match result {
        Err(error) => outcome == Err::<Completion, FecError>(error) && after == before && memory_after == memory,
        Ok(batch) => {
            &&& outcome is Ok
            &&& batch_items(batch.items@) == outcome->Ok_0.items
            &&& after == completed(before, rows, outcome->Ok_0.row_bytes, source)
            &&& batch.wf()
            &&& batch.retained_bytes == batch_bytes(outcome->Ok_0.items)
            &&& batch.charge == (RecoveryCharge { owner: memory.id, bytes: batch.retained_bytes })
            &&& memory_after == memory.with_used(memory.used + completion_cost(before, outcome->Ok_0, source))
        },
    }
}

/// Whether nothing happened and nothing was handed out.
pub open spec fn nothing_new(
    before: DecoderModel,
    after: DecoderModel,
    memory: RecoveryMemoryBudget,
    memory_after: RecoveryMemoryBudget,
    result: Result<RecoveredBatch, FecError>,
) -> bool {
    &&& after == before
    &&& memory_after == memory
    &&& result matches Ok(batch) && batch.items@.len() == 0 && batch.retained_bytes == 0 && batch.charge == (
    RecoveryCharge { owner: memory.id, bytes: 0 })
}

/// Whether the operation was refused with `error` and changed nothing.
pub open spec fn refused(
    before: DecoderModel,
    after: DecoderModel,
    memory: RecoveryMemoryBudget,
    memory_after: RecoveryMemoryBudget,
    result: Result<RecoveredBatch, FecError>,
    error: FecError,
) -> bool {
    result == Err::<RecoveredBatch, FecError>(error) && after == before && memory_after == memory
}

/// A repair symbol and the span that it covers.
pub struct Repair {
    pub first: u32,
    pub span: u16,
    pub repair_id: u32,
    pub seed: u32,
    pub coded: Seq<u8>,
}

/// What a repair does to a decoder and a budget, and what comes of it.
///
/// A repair beyond the bounds is refused. Any other may lack room to work in, which is the
/// allocator's choice; where it does not, the equation is refused, says nothing new, or
/// completes with the symbols that the elimination determines.
pub open spec fn repairs<D: Fn(&[u8]) -> DecodedSource>(
    decode: &D,
    repair: Repair,
    work_budget: int,
    before: DecoderModel,
    after: DecoderModel,
    memory: RecoveryMemoryBudget,
    memory_after: RecoveryMemoryBudget,
    result: Result<RecoveredBatch, FecError>,
) -> bool {
    let coded_bytes = repair.coded.len() as int;
    match repair_refusal(before, memory, repair.span, coded_bytes, work_budget) {
        Some(error) => refused(before, after, memory, memory_after, result, error),
        None => {
            ||| lacks_room(before.rows, 1, repair.span as int, before.max_symbol_bytes) && refused(
                before,
                after,
                memory,
                memory_after,
                result,
                FecError::MemoryCapacity,
            )
            ||| match repair_outcome(
                before,
                repair.first,
                repair.span,
                repair.repair_id,
                repair.seed,
                repair.coded,
                repair_work(before, repair.span, coded_bytes),
                work_budget,
            ) {
                Err(error) => refused(before, after, memory, memory_after, result, error),
                Ok(None) => nothing_new(before, after, memory, memory_after, result),
                Ok(Some(symbols)) => repair_settles(
                    decode,
                    repair,
                    work_budget,
                    before,
                    after,
                    memory,
                    memory_after,
                    symbols,
                    result,
                ),
            }
        },
    }
}

/// Whether a repair completed with its symbols read by `decode`.
pub open spec fn repair_settles<D: Fn(&[u8]) -> DecodedSource>(
    decode: &D,
    repair: Repair,
    work_budget: int,
    before: DecoderModel,
    after: DecoderModel,
    memory: RecoveryMemoryBudget,
    memory_after: RecoveryMemoryBudget,
    symbols: Seq<(u32, Seq<u8>)>,
    result: Result<RecoveredBatch, FecError>,
) -> bool {
    exists|decoded: Seq<DecodedSource>| #[trigger]
        reads(decode, symbols, decoded) && repair_completes(
            repair,
            work_budget,
            before,
            after,
            memory,
            memory_after,
            symbols,
            decoded,
            result,
        )
}

/// Whether a repair completed with its symbols read as `decoded`.
pub open spec fn repair_completes(
    repair: Repair,
    work_budget: int,
    before: DecoderModel,
    after: DecoderModel,
    memory: RecoveryMemoryBudget,
    memory_after: RecoveryMemoryBudget,
    symbols: Seq<(u32, Seq<u8>)>,
    decoded: Seq<DecodedSource>,
    result: Result<RecoveredBatch, FecError>,
) -> bool {
    completes(
        before,
        after,
        memory,
        memory_after,
        scratch_need(before.rows, before.max_symbol_bytes, 1, repair.span as int, 0),
        repaired_rows(
            before,
            repair.first,
            repair.span,
            repair.repair_id,
            repair.seed,
            repair.coded,
            repair_work(before, repair.span, repair.coded.len() as int),
            work_budget,
        ),
        symbols,
        decoded,
        (before.rows.len() + 1) as int,
        repair.span + coefficient_total(before.rows, before.rows.len() as int),
        None,
        result,
    )
}

impl Decoder {
    /// Adds the equation of a repair symbol and hands out the sources that it recovers.
    ///
    /// `decode` reads a recovered symbol. An operation that is refused changes neither
    /// the decoder nor the budget. The allocator may refuse the room that the elimination
    /// works in: that is the one refusal that the arguments do not decide.
    #[verifier::rlimit(60)]
    #[verifier::spinoff_prover]
    pub fn add_repair<D: Fn(&[u8]) -> DecodedSource>(
        &mut self,
        budget: &mut RecoveryMemoryBudget,
        first_symbol_id: u32,
        span: u16,
        repair_id: u32,
        seed: u32,
        coded: &[u8],
        work_budget: usize,
        decode: &D,
    ) -> (result: Result<RecoveredBatch, FecError>)
        requires
            old(self).wf(),
            old(budget).used >= old(self)@.held(),
            forall|bytes: &[u8]| #[trigger] call_requires(decode, (bytes,)),
        ensures
            final(self).wf(),
            result is Err ==> final(self)@ == old(self)@ && *final(budget) == *old(budget),
            repairs(
                decode,
                Repair { first: first_symbol_id, span, repair_id, seed, coded: coded@ },
                work_budget as int,
                old(self)@,
                final(self)@,
                *old(budget),
                *final(budget),
                result,
            ),
    {
        let ghost before = self@;
        let ghost memory = *budget;
        let owner: u64 = budget.id;
        let admission: Admission = match self.admit_repair(budget, span, coded.len(), work_budget) {
            Ok(admission) => admission,
            Err(error) => {
                return Err(error);
            },
        };
        let copied: Result<Vec<Row>, FecError> = clone_rows_bounded(
            &self.rows,
            1,
            span as usize,
            self.max_symbol_bytes,
        );
        let rows: Vec<Row> = match copied {
            Ok(rows) => rows,
            Err(error) => {
                budget.discard(admission.scratch);
                return Err(error);
            },
        };
        let row_capacity: usize = self.rows.len() + 1;
        let counted: Result<usize, FecError> = matrix_coefficient_count(&self.rows, span as usize);
        let coefficient_capacity: usize = match counted {
            Ok(capacity) => capacity,
            Err(error) => {
                assert(false);
                budget.discard(admission.scratch);
                return Err(error);
            },
        };
        let combination: Result<Option<Combined>, FecError> = self.combine_repair(
            rows,
            first_symbol_id,
            span,
            repair_id,
            seed,
            coded,
            coefficient_capacity,
            admission.work,
            work_budget,
        );
        let combined: Combined = match combination {
            Err(error) => {
                budget.discard(admission.scratch);
                return Err(error);
            },
            Ok(None) => {
                budget.discard(admission.scratch);
                return Ok(RecoveredBatch::empty(owner));
            },
            Ok(Some(combined)) => combined,
        };
        let decoded: Vec<DecodedSource> = read_all(&combined.recovered, decode);
        proof {
            self.lemma_repaired_rows(
                first_symbol_id,
                span,
                repair_id,
                seed,
                coded@,
                admission.work as int,
                work_budget as int,
            );
            assert(combined.rows@.len() == matrix::models(combined.rows@).len());
        }
        let ghost symbols = matrix::symbols_of(combined.recovered@);
        let ghost eliminated_rows = matrix::models(combined.rows@);
        let result = self.complete(
            budget,
            combined,
            &decoded,
            admission.scratch,
            row_capacity,
            coefficient_capacity,
            None,
        );
        proof {
            let repair = Repair { first: first_symbol_id, span, repair_id, seed, coded: coded@ };
            let lacking = batch_refused() && result == Err::<RecoveredBatch, FecError>(FecError::MemoryCapacity);
            if lacking {
                assert(refused(before, self@, memory, *budget, result, FecError::MemoryCapacity));
            } else {
                assert(reads(decode, symbols, decoded@));
                assert(repair_completes(
                    repair,
                    work_budget as int,
                    before,
                    self@,
                    memory,
                    *budget,
                    symbols,
                    decoded@,
                    result,
                ));
                assert(repair_settles(
                    decode,
                    repair,
                    work_budget as int,
                    before,
                    self@,
                    memory,
                    *budget,
                    symbols,
                    result,
                ));
            }
        }
        result
    }

    proof fn lemma_repaired_rows(
        &self,
        first: u32,
        span: u16,
        repair_id: u32,
        seed: u32,
        coded: Seq<u8>,
        work: int,
        budget: int,
    )
        requires
            self.wf(),
            gathered(self@.known, first, span as int, repair_id, seed, coded, work, budget) is Ok,
        ensures
            matrix::all_canonical(repaired_rows(self@, first, span, repair_id, seed, coded, work, budget)),
            repaired_rows(self@, first, span, repair_id, seed, coded, work, budget).len() == self@.rows.len() + 1,
    {
        lemma_gathered_canonical(self@.known, first, span as int, repair_id, seed, coded, work, budget);
        let equation = gathered(self@.known, first, span as int, repair_id, seed, coded, work, budget)->Ok_0;
        let all = self@.rows.push(RowModel { coefficients: equation.coefficients, data: equation.data });
        assert(matrix::all_canonical(all));
        matrix::lemma_eliminated_canonical(all, 0);
    }
}

/// The larger of two counts.
pub open spec fn larger(left: int, right: int) -> int {
    if left > right {
        left
    } else {
        right
    }
}

/// Whether `kept` is the source symbol `id` with these bytes, in storage that is as large as
/// the bytes, or as large as a buffer reported.
pub open spec fn keeps(kept: KnownModel, id: u32, bytes: Seq<u8>) -> bool {
    &&& kept.symbol_id == id
    &&& kept.bytes == bytes
    &&& kept.retained >= bytes.len()
    &&& kept.retained == bytes.len() || reported(kept.retained)
}

/// Whether a source that meets no equations was stored as `kept`, or had no room.
pub open spec fn source_stored(
    id: u32,
    bytes: Seq<u8>,
    before: DecoderModel,
    after: DecoderModel,
    memory: RecoveryMemoryBudget,
    memory_after: RecoveryMemoryBudget,
    kept: KnownModel,
    result: Result<RecoveredBatch, FecError>,
) -> bool {
    let needed = larger(bytes.len() as int, growth(before.evicted_bytes(), kept.retained));
    &&& keeps(kept, id, bytes)
    &&& match result {
        Err(error) => error == FecError::MemoryCapacity && after == before && memory_after == memory && memory.used
            + needed > memory.limit,
        Ok(batch) => {
            &&& memory.used + needed <= memory.limit || kept.retained <= before.evicted_bytes()
            &&& batch.items@.len() == 0
            &&& batch.retained_bytes == 0
            &&& batch.charge == (RecoveryCharge { owner: memory.id, bytes: 0 })
            &&& stores(before, after, kept)
            &&& memory_after == memory.with_used(memory.used + kept.retained - before.evicted_bytes())
        },
    }
}

/// Whether a source that meets equations completed with `kept` in the window.
pub open spec fn source_completes<D: Fn(&[u8]) -> DecodedSource>(
    decode: &D,
    id: u32,
    bytes: Seq<u8>,
    work_budget: int,
    before: DecoderModel,
    after: DecoderModel,
    memory: RecoveryMemoryBudget,
    memory_after: RecoveryMemoryBudget,
    symbols: Seq<(u32, Seq<u8>)>,
    kept: KnownModel,
    result: Result<RecoveredBatch, FecError>,
) -> bool {
    exists|decoded: Seq<DecodedSource>| #[trigger]
        reads(decode, symbols, decoded) && completes(
            before,
            after,
            memory,
            memory_after,
            scratch_need(before.rows, before.max_symbol_bytes, 0, 0, bytes.len() as int),
            sourced_rows(before, id, bytes, clone_total(before.rows, before.rows.len() as int), work_budget),
            symbols,
            decoded,
            before.rows.len() as int,
            coefficient_total(before.rows, before.rows.len() as int),
            Some(kept),
            result,
        )
}

/// What a source does to a decoder and a budget, and what comes of it.
///
/// A source of a wrong size, or one that differs from what is known under its
/// identifier, is refused; one that is known already changes nothing. A decoder without
/// equations stores the source where the budget allows it. Otherwise the source is
/// moved to the right-hand side of every equation, and the elimination may recover more.
pub open spec fn sources<D: Fn(&[u8]) -> DecodedSource>(
    decode: &D,
    id: u32,
    bytes: Seq<u8>,
    work_budget: int,
    before: DecoderModel,
    after: DecoderModel,
    memory: RecoveryMemoryBudget,
    memory_after: RecoveryMemoryBudget,
    result: Result<RecoveredBatch, FecError>,
) -> bool {
    if bytes.len() == 0 || bytes.len() > before.max_symbol_bytes {
        refused(before, after, memory, memory_after, result, FecError::InvalidSymbolSize)
    } else if known_bytes(before.known, id) == Some(bytes) {
        nothing_new(before, after, memory, memory_after, result)
    } else if known_bytes(before.known, id) is Some {
        refused(before, after, memory, memory_after, result, FecError::ContradictoryRepair)
    } else if before.rows.len() == 0 {
        exists|kept: KnownModel| #[trigger]
            source_stored(id, bytes, before, after, memory, memory_after, kept, result)
    } else {
        match source_refusal(before, memory, bytes.len() as int, work_budget) {
            Some(error) => refused(before, after, memory, memory_after, result, error),
            None => {
                ||| lacks_room(before.rows, 0, 0, before.max_symbol_bytes) && refused(
                    before,
                    after,
                    memory,
                    memory_after,
                    result,
                    FecError::MemoryCapacity,
                )
                ||| match source_outcome(
                    before,
                    id,
                    bytes,
                    clone_total(before.rows, before.rows.len() as int),
                    work_budget,
                ) {
                    Err(error) => refused(before, after, memory, memory_after, result, error),
                    Ok(symbols) => exists|kept: KnownModel| #[trigger]
                        keeps(kept, id, bytes) && source_completes(
                            decode,
                            id,
                            bytes,
                            work_budget,
                            before,
                            after,
                            memory,
                            memory_after,
                            symbols,
                            kept,
                            result,
                        ),
                }
            },
        }
    }
}

pub(crate) proof fn lemma_substituted_canonical(
    rows: Seq<RowModel>,
    count: int,
    id: u32,
    bytes: Seq<u8>,
    work: int,
    budget: int,
)
    requires
        matrix::all_canonical(rows),
        0 <= count <= rows.len(),
    ensures
        substituted(rows, count, id, bytes, work, budget) matches Ok((after, _)) ==> matrix::all_canonical(after)
            && after.len() == rows.len(),
    decreases count,
{
    if count > 0 {
        lemma_substituted_canonical(rows, count - 1, id, bytes, work, budget);
        let row = rows[count - 1];
        matrix::lemma_rank(row.coefficients, id);
        if matrix::mentions(row.coefficients, id) {
            assert(matrix::canonical(row.coefficients.remove(matrix::rank(row.coefficients, id))));
        }
    }
}

impl Decoder {
    /// Stores a source in a window that meets no equations, where the budget has room
    /// for it next to the source that it displaces.
    pub fn store_known(&mut self, budget: &mut RecoveryMemoryBudget, source: KnownSource) -> (result: Result<
        (),
        FecError,
    >)
        requires
            old(self).wf(),
            old(budget).used >= old(self)@.held(),
            known_bytes(old(self)@.known, source.symbol_id) is None,
        ensures
            final(self).wf(),
            ({
                let needed = larger(
                    storage::contents(source.bytes).len() as int,
                    growth(old(self)@.evicted_bytes(), source.retained_bytes as int),
                );
                if old(budget).used + needed > old(budget).limit {
                    &&& result == Err::<(), FecError>(FecError::MemoryCapacity)
                    &&& final(self)@ == old(self)@
                    &&& *final(budget) == *old(budget)
                } else {
                    &&& result is Ok
                    &&& final(self)@ == (DecoderModel { known: old(self)@.known_with(source@), ..old(self)@ })
                    &&& *final(budget) == old(budget).with_used(
                        old(budget).used + source.retained_bytes - old(self)@.evicted_bytes(),
                    )
                }
            }),
    {
        proof {
            lemma_valid_bytes(self@);
        }
        let length: usize = storage::as_slice(&source.bytes).len();
        let mut scratch: RecoveryCharge = match budget.reserve(length) {
            Some(scratch) => scratch,
            None => {
                return Err(FecError::MemoryCapacity);
            },
        };
        let (reserved, released): (usize, usize) = self.known_memory_delta(source.retained_bytes);
        if !budget.grow(&mut scratch, reserved) {
            budget.discard(scratch);
            return Err(FecError::MemoryCapacity);
        }
        scratch.transfer(reserved);
        self.insert_known(source);
        budget.release(released);
        budget.discard(scratch);
        Ok(())
    }

    /// Adds a source symbol and hands out the sources that it helps to recover.
    ///
    /// `decode` reads a recovered symbol. An operation that is refused changes neither
    /// the decoder nor the budget. How much memory stands behind the source's buffer,
    /// and whether the allocator grants the room that the elimination works in, the
    /// arguments do not decide.
    #[verifier::rlimit(60)]
    #[verifier::spinoff_prover]
    pub fn add_source<D: Fn(&[u8]) -> DecodedSource>(
        &mut self,
        budget: &mut RecoveryMemoryBudget,
        symbol_id: u32,
        source: Bytes,
        work_budget: usize,
        decode: &D,
    ) -> (result: Result<RecoveredBatch, FecError>)
        requires
            old(self).wf(),
            old(budget).used >= old(self)@.held(),
            forall|bytes: &[u8]| #[trigger] call_requires(decode, (bytes,)),
        ensures
            final(self).wf(),
            result is Err ==> final(self)@ == old(self)@ && *final(budget) == *old(budget),
            sources(
                decode,
                symbol_id,
                storage::contents(source),
                work_budget as int,
                old(self)@,
                final(self)@,
                *old(budget),
                *final(budget),
                result,
            ),
    {
        let ghost before = self@;
        let ghost memory = *budget;
        let ghost bytes = storage::contents(source);
        let owner: u64 = budget.id;
        let length: usize = storage::as_slice(&source).len();
        if length == 0 || length > self.max_symbol_bytes {
            return Err(FecError::InvalidSymbolSize);
        }
        match self.source_status(symbol_id, storage::as_slice(&source)) {
            Err(error) => {
                return Err(error);
            },
            Ok(SourceStatus::Duplicate) => {
                return Ok(RecoveredBatch::empty(owner));
            },
            Ok(SourceStatus::New) => {},
        }
        if self.rows.len() == 0 {
            if !storage::is_unique(&source) && self.try_reuse_oldest_source(
                budget,
                symbol_id,
                storage::as_slice(&source),
            ) {
                let batch = RecoveredBatch::empty(owner);
                proof {
                    let kept = choose|kept: KnownModel|
                        {
                            &&& #[trigger] stores(before, self@, kept)
                            &&& kept.symbol_id == symbol_id
                            &&& kept.bytes == bytes
                            &&& kept.retained >= bytes.len()
                            &&& reported(kept.retained)
                            &&& kept.retained <= before.evicted_bytes()
                            &&& before.max_symbols > 0
                            &&& *budget == memory.with_used(memory.used - (before.evicted_bytes() - kept.retained))
                        };
                    assert(source_stored(
                        symbol_id,
                        bytes,
                        before,
                        self@,
                        memory,
                        *budget,
                        kept,
                        Ok(batch),
                    ));
                }
                return Ok(batch);
            }
            let known: KnownSource = normalize_source_storage(symbol_id, source);
            let ghost kept = known@;
            let stored: Result<(), FecError> = self.store_known(budget, known);
            let result: Result<RecoveredBatch, FecError> = match stored {
                Ok(_) => Ok(RecoveredBatch::empty(owner)),
                Err(error) => Err(error),
            };
            assert(source_stored(symbol_id, bytes, before, self@, memory, *budget, kept, result));
            return result;
        }
        let admission: Admission = match self.admit_source(budget, length, work_budget) {
            Ok(admission) => admission,
            Err(error) => {
                return Err(error);
            },
        };
        let copied: Result<Vec<Row>, FecError> = clone_rows_bounded(&self.rows, 0, 0, self.max_symbol_bytes);
        let rows: Vec<Row> = match copied {
            Ok(rows) => rows,
            Err(error) => {
                budget.discard(admission.scratch);
                return Err(error);
            },
        };
        let row_capacity: usize = self.rows.len();
        let counted: Result<usize, FecError> = matrix_coefficient_count(&self.rows, 0);
        let coefficient_capacity: usize = match counted {
            Ok(capacity) => capacity,
            Err(error) => {
                assert(false);
                budget.discard(admission.scratch);
                return Err(error);
            },
        };
        let combination: Result<Combined, FecError> = self.combine_source(
            rows,
            symbol_id,
            storage::as_slice(&source),
            admission.work,
            work_budget,
        );
        let combined: Combined = match combination {
            Err(error) => {
                budget.discard(admission.scratch);
                return Err(error);
            },
            Ok(combined) => combined,
        };
        let decoded: Vec<DecodedSource> = read_all(&combined.recovered, decode);
        let known: KnownSource = normalize_source_storage(symbol_id, source);
        let ghost kept = known@;
        let ghost symbols = matrix::symbols_of(combined.recovered@);
        proof {
            lemma_substituted_canonical(
                before.rows,
                before.rows.len() as int,
                symbol_id,
                bytes,
                admission.work as int,
                work_budget as int,
            );
            let changed = substituted(
                before.rows,
                before.rows.len() as int,
                symbol_id,
                bytes,
                admission.work as int,
                work_budget as int,
            )->Ok_0.0;
            matrix::lemma_eliminated_canonical(changed, 0);
            assert(combined.rows@.len() == matrix::models(combined.rows@).len());
        }
        let result = self.complete(
            budget,
            combined,
            &decoded,
            admission.scratch,
            row_capacity,
            coefficient_capacity,
            Some(known),
        );
        proof {
            let lacking = batch_refused() && result == Err::<RecoveredBatch, FecError>(FecError::MemoryCapacity);
            if lacking {
                assert(refused(before, self@, memory, *budget, result, FecError::MemoryCapacity));
            } else {
                assert(reads(decode, symbols, decoded@));
                assert(kept_model(Some(known)) == Some(kept));
                assert(keeps(kept, symbol_id, bytes));
                assert(source_completes(
                    decode,
                    symbol_id,
                    bytes,
                    work_budget as int,
                    before,
                    self@,
                    memory,
                    *budget,
                    symbols,
                    kept,
                    result,
                ));
            }
        }
        result
    }

    /// Adds a source whose memory was charged before to the window. The charge grows to what
    /// the source retains, where the budget has room for that; what the window does not need
    /// of it goes back to the budget.
    pub fn commit_known(
        &mut self,
        budget: &mut RecoveryMemoryBudget,
        known: KnownSource,
        charge: RecoveryCharge,
    ) -> (result: Result<(), FecError>)
        requires
            old(self).wf(),
            old(budget).used >= old(self)@.held() + charge.bytes,
            known_bytes(old(self)@.known, known.symbol_id) is None,
        ensures
            final(self).wf(),
            ({
                let returned = old(budget).with_used(old(budget).used - charge.bytes);
                if known.retained_bytes > charge.bytes && returned.used + known.retained_bytes > old(budget).limit {
                    &&& result == Err::<(), FecError>(FecError::MemoryCapacity)
                    &&& final(self)@ == old(self)@
                    &&& *final(budget) == returned
                } else {
                    &&& result is Ok
                    &&& final(self)@ == (DecoderModel { known: old(self)@.known_with(known@), ..old(self)@ })
                    &&& *final(budget) == returned.with_used(
                        returned.used + known.retained_bytes - old(self)@.evicted_bytes(),
                    )
                }
            }),
    {
        proof {
            lemma_valid_bytes(self@);
        }
        let mut charge = charge;
        let retained_bytes: usize = known.retained_bytes;
        if !budget.grow(&mut charge, retained_bytes) {
            budget.discard(charge);
            return Err(FecError::MemoryCapacity);
        }
        charge.transfer(retained_bytes);
        let released: usize = self.evicted_known_bytes();
        self.insert_known(known);
        budget.release(released);
        budget.discard(charge);
        Ok(())
    }

    /// Adds a recovered source to the window. Its memory was charged before; what the
    /// window does not need of the charge goes back to the budget.
    ///
    /// A charge of another budget is refused, and this budget stays as it is.
    pub fn commit_recovered_precharged(
        &mut self,
        budget: &mut RecoveryMemoryBudget,
        symbol_id: u32,
        source: Bytes,
        charge: RecoveryCharge,
    ) -> (result: Result<(), FecError>)
        requires
            old(self).wf(),
            old(budget).used >= old(self)@.held() + (if charge.owner == old(budget).id {
                charge.bytes as int
            } else {
                0
            }),
        ensures
            final(self).wf(),
            ({
                let before = old(self)@;
                let bytes = storage::contents(source);
                let returned = if charge.owner == old(budget).id {
                    old(budget).with_used(old(budget).used - charge.bytes)
                } else {
                    *old(budget)
                };
                if bytes.len() == 0 || bytes.len() > before.max_symbol_bytes {
                    &&& result == Err::<(), FecError>(FecError::InvalidSymbolSize)
                    &&& final(self)@ == before
                    &&& *final(budget) == returned
                } else if charge.owner != old(budget).id || charge.bytes < bytes.len() {
                    &&& result == Err::<(), FecError>(FecError::MemoryCapacity)
                    &&& final(self)@ == before
                    &&& *final(budget) == returned
                } else if known_bytes(before.known, symbol_id) is Some {
                    &&& result == (if known_bytes(before.known, symbol_id) == Some(bytes) {
                        Ok::<(), FecError>(())
                    } else {
                        Err(FecError::ContradictoryRepair)
                    })
                    &&& final(self)@ == before
                    &&& *final(budget) == returned
                } else {
                    exists|kept: KnownModel| #[trigger]
                        keeps(kept, symbol_id, bytes) && own_storage(source, kept.retained) && (if kept.retained
                            > charge.bytes && returned.used + kept.retained > old(budget).limit {
                            &&& result == Err::<(), FecError>(FecError::MemoryCapacity)
                            &&& final(self)@ == before
                            &&& *final(budget) == returned
                        } else {
                            &&& result is Ok
                            &&& stores(before, final(self)@, kept)
                            &&& *final(budget) == returned.with_used(
                                returned.used + kept.retained - before.evicted_bytes(),
                            )
                        })
                }
            }),
    {
        proof {
            lemma_valid_bytes(self@);
        }
        let length: usize = storage::as_slice(&source).len();
        let owned: bool = charge.owner == budget.id;
        if length == 0 || length > self.max_symbol_bytes {
            if owned {
                budget.discard(charge);
            }
            return Err(FecError::InvalidSymbolSize);
        }
        if !owned || charge.bytes < length {
            if owned {
                budget.discard(charge);
            }
            return Err(FecError::MemoryCapacity);
        }
        if let Some(existing) = self.known_source(symbol_id) {
            let same: bool = storage::equal(existing, storage::as_slice(&source));
            budget.discard(charge);
            return if same {
                Ok(())
            } else {
                Err(FecError::ContradictoryRepair)
            };
        }
        let known: KnownSource = normalize_source_storage(symbol_id, source);
        assert(keeps(known@, symbol_id, storage::contents(source)));
        self.commit_known(budget, known, charge)
    }

    /// The memory that the decoder holds, which its owner gives back with it.
    pub fn held_bytes(&self) -> (bytes: u128)
        requires
            self.wf(),
        ensures
            bytes == self@.held(),
    {
        let mut total: u128 = self.row_bytes as u128;
        let mut at: usize = 0;
        let ghost known = self@.known;
        assert(known.take(0).len() == 0);
        while at < self.known.len()
            invariant
                at <= self.known@.len(),
                known == self@.known,
                total == self@.row_bytes + retained_by(known.take(at as int)),
                total <= (at + 1) * usize::MAX,
            decreases self.known@.len() - at,
        {
            proof {
                assert(known.take(at + 1).drop_last() =~= known.take(at as int));
                assert(known.take(at + 1).last() == self.known@[at as int]@);
                assert((at + 2) * usize::MAX == (at + 1) * usize::MAX + usize::MAX) by (nonlinear_arith);
                assert((at + 2) * usize::MAX <= 0x1_0000_0000_0000_0001 * 0xffff_ffff_ffff_ffff) by (nonlinear_arith)
                    requires at < usize::MAX;
            }
            total = total + self.known[at].retained_bytes as u128;
            at += 1;
        }
        assert(known.take(at as int) =~= known);
        total
    }

    /// The equations that the decoder holds.
    pub fn rows(&self) -> (rows: &[Row])
        ensures
            matrix::models(rows@) == self@.rows,
    {
        self.rows.as_slice()
    }

    /// Gives back to the budget everything that the decoder holds.
    pub fn discard(self, budget: &mut RecoveryMemoryBudget)
        requires
            self.wf(),
            old(budget).used >= self@.held(),
        ensures
            *final(budget) == old(budget).with_used(old(budget).used - self@.held()),
    {
        proof {
            lemma_valid_bytes(self@);
        }
        let held: u128 = self.held_bytes();
        budget.used = budget.used - held as u64;
    }
}

}
