//! TCP options that are visible to middleboxes.
use crate::endian;
use crate::faketcp::error::CarrierError;
use crate::fec::room::extend_bytes;
use vstd::prelude::*;

verus! {

/// The largest number of option bytes that a TCP header has room for.
pub const MAX_TCP_OPTIONS_BYTES: usize = 40;

/// The kind of the fast open option, which carries the cookie.
pub const TFO_OPTION_KIND: u8 = 34;

/// The segment size that a SYN announces where nobody chose one.
pub const DEFAULT_SYN_MSS: u16 = 1460;

/// The window scale that a SYN announces.
pub const SYN_WINDOW_SCALE: u8 = 7;

/// A fast open cookie: its first sixteen bytes, zeros following, and its length.
#[derive(Clone, Copy, Debug, PartialEq, Eq)]
pub struct FastOpenCookie {
    pub bytes: [u8; 16],
    pub length: usize,
}

/// TCP options that are visible to middleboxes.
#[derive(Clone, Copy, Debug, PartialEq, Eq)]
pub struct TcpOptions {
    pub mss: Option<u16>,
    pub sack_permitted: bool,
    pub timestamps: Option<(u32, u32)>,
    pub window_scale: Option<u8>,
    pub fast_open_cookie: Option<FastOpenCookie>,
}

/// The content of [`TcpOptions`]. Of the cookie there are the sixteen bytes that are kept,
/// and the length that it was given with.
pub struct OptionsModel {
    pub mss: Option<u16>,
    pub sack_permitted: bool,
    pub timestamps: Option<(u32, u32)>,
    pub window_scale: Option<u8>,
    pub cookie: Option<(Seq<u8>, int)>,
}

/// What is kept of a cookie: its first sixteen bytes, with zeros behind a shorter one.
pub open spec fn kept_cookie(bytes: Seq<u8>) -> Seq<u8> {
    Seq::new(
        16,
        |i: int|
            if i < bytes.len() {
                bytes[i]
            } else {
                0u8
            },
    )
}

impl View for TcpOptions {
    type V = OptionsModel;

    open spec fn view(&self) -> OptionsModel {
        OptionsModel {
            mss: self.mss,
            sack_permitted: self.sack_permitted,
            timestamps: self.timestamps,
            window_scale: self.window_scale,
            cookie: match self.fast_open_cookie {
                Some(cookie) => Some((cookie.bytes@, cookie.length as int)),
                None => None,
            },
        }
    }
}

/// Options with the same content are the same options.
pub proof fn law_same_content_is_equal(left: TcpOptions, right: TcpOptions)
    requires
        left@ == right@,
    ensures
        left == right,
{
    match (left.fast_open_cookie, right.fast_open_cookie) {
        (Some(one), Some(other)) => {
            assert(one.bytes =~= other.bytes);
        },
        _ => {},
    }
}

/// No option at all.
pub open spec fn no_options() -> OptionsModel {
    OptionsModel { mss: None, sack_permitted: false, timestamps: None, window_scale: None, cookie: None }
}

// ---------------------------------------------------------------------------
// Encoding
// ---------------------------------------------------------------------------

/// The segment size option.
pub open spec fn mss_bytes(mss: Option<u16>) -> Seq<u8> {
    match mss {
        Some(value) => seq![2u8, 4u8] + endian::be16(value),
        None => Seq::empty(),
    }
}

/// The selective acknowledgment option.
pub open spec fn sack_bytes(permitted: bool) -> Seq<u8> {
    if permitted {
        seq![4u8, 2u8]
    } else {
        Seq::empty()
    }
}

/// The timestamps option, two bytes of padding before it.
pub open spec fn timestamp_bytes(timestamps: Option<(u32, u32)>) -> Seq<u8> {
    match timestamps {
        Some((value, echo)) => seq![1u8, 1u8, 8u8, 10u8] + endian::be32(value) + endian::be32(echo),
        None => Seq::empty(),
    }
}

/// The window scale option.
pub open spec fn scale_bytes(scale: Option<u8>) -> Seq<u8> {
    match scale {
        Some(value) => seq![3u8, 3u8, value],
        None => Seq::empty(),
    }
}

/// The fast open option.
pub open spec fn cookie_bytes(cookie: Option<(Seq<u8>, int)>) -> Seq<u8> {
    match cookie {
        Some((kept, length)) => seq![34u8, (2 + length) as u8] + kept.take(length),
        None => Seq::empty(),
    }
}

/// `bytes` followed by padding up to a multiple of four.
pub open spec fn padded(bytes: Seq<u8>) -> Seq<u8> {
    bytes + Seq::new(((4 - bytes.len() as int % 4) % 4) as nat, |i: int| 1u8)
}

/// The options before padding.
pub open spec fn unpadded_bytes(options: OptionsModel) -> Seq<u8> {
    mss_bytes(options.mss) + sack_bytes(options.sack_permitted) + timestamp_bytes(options.timestamps) + scale_bytes(
        options.window_scale,
    ) + cookie_bytes(options.cookie)
}

/// The options as they stand in a TCP header.
pub open spec fn option_bytes(options: OptionsModel) -> Seq<u8> {
    padded(unpadded_bytes(options))
}

/// Whether the options can be encoded: the cookie is no longer than sixteen bytes.
pub open spec fn encodable(options: OptionsModel) -> bool {
    options.cookie matches Some((kept, length)) ==> length <= 16
}

/// Whether nothing but zeros is kept behind the cookie.
pub open spec fn zero_filled(options: OptionsModel) -> bool {
    options.cookie matches Some((kept, length)) ==> 0 <= length && kept.len() == 16 && (length <= 16 ==> kept
        == kept_cookie(kept.take(length)))
}

/// Keeps a cookie.
fn keep_cookie(given: &[u8]) -> (cookie: FastOpenCookie)
    ensures
        cookie.bytes@ == kept_cookie(given@),
        cookie.length == given@.len(),
{
    let mut bytes: [u8; 16] = [0; 16];
    let mut at: usize = 0;
    while at < given.len() && at < 16
        invariant
            at <= given@.len(),
            at <= 16,
            forall|i: int| 0 <= i < at ==> bytes@[i] == given@[i],
            forall|i: int| at <= i < 16 ==> bytes@[i] == 0,
        decreases 16 - at,
    {
        bytes[at] = given[at];
        at += 1;
    }
    assert(bytes@ =~= kept_cookie(given@));
    FastOpenCookie { bytes, length: given.len() }
}

impl TcpOptions {
    /// The options of a SYN packet.
    pub fn for_syn(cookie: Option<&[u8]>) -> (options: Self)
        ensures
            options@ == syn_options(
                DEFAULT_SYN_MSS,
                match cookie {
                    Some(bytes) => Some(bytes@),
                    None => None,
                },
            ),
    {
        Self::for_syn_with_mss(DEFAULT_SYN_MSS, cookie)
    }

    /// The options of a SYN packet with an explicit segment size.
    pub fn for_syn_with_mss(mss: u16, cookie: Option<&[u8]>) -> (options: Self)
        ensures
            options@ == syn_options(
                mss,
                match cookie {
                    Some(bytes) => Some(bytes@),
                    None => None,
                },
            ),
    {
        let fast_open_cookie: Option<FastOpenCookie> = match cookie {
            Some(given) => Some(keep_cookie(given)),
            None => None,
        };
        TcpOptions {
            mss: Some(mss),
            sack_permitted: true,
            timestamps: None,
            window_scale: Some(SYN_WINDOW_SCALE),
            fast_open_cookie,
        }
    }

    /// The announced segment size.
    pub fn mss(&self) -> (mss: Option<u16>)
        ensures
            mss == self@.mss,
    {
        self.mss
    }

    /// Whether selective acknowledgments are permitted.
    pub fn sack_permitted(&self) -> (permitted: bool)
        ensures
            permitted == self@.sack_permitted,
    {
        self.sack_permitted
    }

    /// The timestamp value and its echo.
    pub fn timestamps(&self) -> (timestamps: Option<(u32, u32)>)
        ensures
            timestamps == self@.timestamps,
    {
        self.timestamps
    }

    /// The announced window scale.
    pub fn window_scale(&self) -> (scale: Option<u8>)
        ensures
            scale == self@.window_scale,
    {
        self.window_scale
    }

    /// The fast open cookie, where there is one of at most sixteen bytes.
    pub fn fast_open_cookie(&self) -> (cookie: Option<&[u8]>)
        ensures
            match cookie {
                Some(slice) => self@.cookie matches Some((kept, length)) && length <= 16 && slice@ == kept.take(length),
                None => self@.cookie matches Some((kept, length)) ==> length > 16,
            },
    {
        match &self.fast_open_cookie {
            Some(cookie) => {
                if cookie.length <= 16 {
                    let slice: &[u8] = vstd::slice::slice_subrange(cookie.bytes.as_slice(), 0, cookie.length);
                    assert(slice@ =~= cookie.bytes@.take(cookie.length as int));
                    Some(slice)
                } else {
                    None
                }
            },
            None => None,
        }
    }

    /// Whether there is no option.
    pub fn is_empty(&self) -> (empty: bool)
        ensures
            empty == (self@ == no_options()),
    {
        self.mss.is_none() && !self.sack_permitted && self.timestamps.is_none() && self.window_scale.is_none()
            && self.fast_open_cookie.is_none()
    }

    /// The options as they stand in a TCP header.
    pub fn encode(&self) -> (result: Result<Vec<u8>, CarrierError>)
        ensures
            match result {
                Ok(bytes) => encodable(self@) && bytes@ == option_bytes(self@) && bytes@.len() % 4 == 0
                    && bytes@.len() <= MAX_TCP_OPTIONS_BYTES,
                Err(error) => !encodable(self@) && error == CarrierError::InvalidTcpOption,
            },
    {
        if let Some(cookie) = &self.fast_open_cookie {
            if cookie.length > 16 {
                return Err(CarrierError::InvalidTcpOption);
            }
        }
        let mut bytes: Vec<u8> = Vec::with_capacity(MAX_TCP_OPTIONS_BYTES);
        append_mss(&mut bytes, self.mss);
        append_sack(&mut bytes, self.sack_permitted);
        append_timestamps(&mut bytes, self.timestamps);
        append_scale(&mut bytes, self.window_scale);
        append_cookie(&mut bytes, &self.fast_open_cookie);
        assert(Seq::<u8>::empty() + mss_bytes(self@.mss) =~= mss_bytes(self@.mss));
        assert(bytes@ == unpadded_bytes(self@));
        assert(bytes@.len() <= 39);
        pad_options(&mut bytes);
        Ok(bytes)
    }
}

impl Default for TcpOptions {
    fn default() -> (options: Self)
        ensures
            options@ == no_options(),
    {
        TcpOptions { mss: None, sack_permitted: false, timestamps: None, window_scale: None, fast_open_cookie: None }
    }
}

fn append_mss(bytes: &mut Vec<u8>, mss: Option<u16>)
    ensures
        final(bytes)@ == old(bytes)@ + mss_bytes(mss),
        mss_bytes(mss).len() <= 4,
{
    if let Some(value) = mss {
        bytes.push(2);
        bytes.push(4);
        extend_bytes(bytes, endian::to_be16(value).as_slice());
    }
    assert(bytes@ =~= old(bytes)@ + mss_bytes(mss));
}

fn append_sack(bytes: &mut Vec<u8>, permitted: bool)
    ensures
        final(bytes)@ == old(bytes)@ + sack_bytes(permitted),
        sack_bytes(permitted).len() <= 2,
{
    if permitted {
        bytes.push(4);
        bytes.push(2);
    }
    assert(bytes@ =~= old(bytes)@ + sack_bytes(permitted));
}

fn append_timestamps(bytes: &mut Vec<u8>, timestamps: Option<(u32, u32)>)
    ensures
        final(bytes)@ == old(bytes)@ + timestamp_bytes(timestamps),
        timestamp_bytes(timestamps).len() <= 12,
{
    if let Some((value, echo)) = timestamps {
        bytes.push(1);
        bytes.push(1);
        bytes.push(8);
        bytes.push(10);
        extend_bytes(bytes, endian::to_be32(value).as_slice());
        extend_bytes(bytes, endian::to_be32(echo).as_slice());
    }
    assert(bytes@ =~= old(bytes)@ + timestamp_bytes(timestamps));
}

fn append_scale(bytes: &mut Vec<u8>, scale: Option<u8>)
    ensures
        final(bytes)@ == old(bytes)@ + scale_bytes(scale),
        scale_bytes(scale).len() <= 3,
{
    if let Some(value) = scale {
        bytes.push(3);
        bytes.push(3);
        bytes.push(value);
    }
    assert(bytes@ =~= old(bytes)@ + scale_bytes(scale));
}

fn append_cookie(bytes: &mut Vec<u8>, given: &Option<FastOpenCookie>)
    requires
        given is Some ==> given->0.length <= 16,
    ensures
        ({
            let cookie = match *given {
                Some(cookie) => Some((cookie.bytes@, cookie.length as int)),
                None => None,
            };
            final(bytes)@ == old(bytes)@ + cookie_bytes(cookie) && cookie_bytes(cookie).len() <= 18
        }),
{
    if let Some(cookie) = given {
        bytes.push(TFO_OPTION_KIND);
        bytes.push((2 + cookie.length) as u8);
        extend_bytes(bytes, vstd::slice::slice_subrange(cookie.bytes.as_slice(), 0, cookie.length));
        assert(cookie.bytes@.subrange(0, cookie.length as int) =~= cookie.bytes@.take(cookie.length as int));
        assert(bytes@ =~= old(bytes)@ + cookie_bytes(Some((cookie.bytes@, cookie.length as int))));
    } else {
        assert(bytes@ =~= old(bytes)@ + Seq::<u8>::empty());
    }
}

fn pad_options(bytes: &mut Vec<u8>)
    requires
        old(bytes)@.len() <= 39,
    ensures
        final(bytes)@ == padded(old(bytes)@),
        final(bytes)@.len() % 4 == 0,
        final(bytes)@.len() <= 40,
{
    let ghost before = bytes@;
    let ghost fill = Seq::new(((4 - before.len() as int % 4) % 4) as nat, |i: int| 1u8);
    let ghost mut added: int = 0;
    assert(before + fill.take(0) =~= before);
    while bytes.len() % 4 != 0
        invariant
            before.len() <= 39,
            0 <= added <= fill.len(),
            fill == Seq::new(((4 - before.len() as int % 4) % 4) as nat, |i: int| 1u8),
            bytes@ == before + fill.take(added),
        decreases fill.len() - added,
    {
        bytes.push(1);
        proof {
            added = added + 1;
            assert(bytes@ =~= before + fill.take(added));
        }
    }
    assert(added == fill.len());
    assert(fill.take(added) =~= fill);
}

/// The content of the options of a SYN packet.
pub open spec fn syn_options(mss: u16, cookie: Option<Seq<u8>>) -> OptionsModel {
    OptionsModel {
        mss: Some(mss),
        sack_permitted: true,
        timestamps: None,
        window_scale: Some(7u8),
        cookie: match cookie {
            Some(bytes) => Some((kept_cookie(bytes), bytes.len() as int)),
            None => None,
        },
    }
}

// ---------------------------------------------------------------------------
// Decoding
// ---------------------------------------------------------------------------

/// The options after one more option of `kind` with this value; an unknown kind, or a
/// known one of another length, changes nothing.
pub open spec fn with_option(options: OptionsModel, kind: u8, value: Seq<u8>) -> OptionsModel {
    if kind == 2 && value.len() == 2 {
        OptionsModel { mss: Some(endian::be16_at(value, 0)), ..options }
    } else if kind == 3 && value.len() == 1 {
        OptionsModel { window_scale: Some(value[0]), ..options }
    } else if kind == 4 && value.len() == 0 {
        OptionsModel { sack_permitted: true, ..options }
    } else if kind == 8 && value.len() == 8 {
        OptionsModel { timestamps: Some((endian::be32_at(value, 0), endian::be32_at(value, 4))), ..options }
    } else if kind == 34 && value.len() <= 16 {
        OptionsModel { cookie: Some((kept_cookie(value), value.len() as int)), ..options }
    } else {
        options
    }
}

/// What option bytes say, on top of `options`: kind zero ends the list, kind one is
/// padding, and any other kind is followed by the length of the whole option.
pub open spec fn parsed(input: Seq<u8>, options: OptionsModel) -> Result<OptionsModel, CarrierError>
    decreases input.len(),
{
    if input.len() == 0 || input[0] == 0 {
        Ok(options)
    } else if input[0] == 1 {
        parsed(input.skip(1), options)
    } else if input.len() < 2 || input[1] < 2 || input[1] > input.len() {
        Err(CarrierError::InvalidTcpOption)
    } else {
        parsed(
            input.skip(input[1] as int),
            with_option(options, input[0], input.subrange(2, input[1] as int)),
        )
    }
}

impl TcpOptions {
    /// Adds one option.
    fn record(&mut self, kind: u8, value: &[u8])
        ensures
            final(self)@ == with_option(old(self)@, kind, value@),
    {
        if kind == 2 && value.len() == 2 {
            self.mss = Some(endian::read_be16_at(value, 0));
        } else if kind == 3 && value.len() == 1 {
            self.window_scale = Some(value[0]);
        } else if kind == 4 && value.len() == 0 {
            self.sack_permitted = true;
        } else if kind == 8 && value.len() == 8 {
            self.timestamps = Some((endian::read_be32_at(value, 0), endian::read_be32_at(value, 4)));
        } else if kind == TFO_OPTION_KIND && value.len() <= 16 {
            self.fast_open_cookie = Some(keep_cookie(value));
        }
    }

    /// Reads option bytes. Unknown options are skipped.
    pub fn decode(input: &[u8]) -> (result: Result<TcpOptions, CarrierError>)
        ensures
            match result {
                Ok(options) => parsed(input@, no_options()) == Ok::<OptionsModel, CarrierError>(options@),
                Err(error) => parsed(input@, no_options()) == Err::<OptionsModel, CarrierError>(error),
            },
    {
        let mut options: TcpOptions = TcpOptions::default();
        let mut at: usize = 0;
        assert(input@.skip(0) =~= input@);
        while at < input.len()
            invariant
                at <= input@.len(),
                parsed(input@, no_options()) == parsed(input@.skip(at as int), options@),
            decreases input@.len() - at,
        {
            let ghost rest = input@.skip(at as int);
            let kind: u8 = input[at];
            assert(rest[0] == kind);
            if kind == 0 {
                return Ok(options);
            }
            if kind == 1 {
                at += 1;
                assert(rest.skip(1) =~= input@.skip(at as int));
                continue;
            }
            if input.len() - at < 2 {
                return Err(CarrierError::InvalidTcpOption);
            }
            let length: usize = input[at + 1] as usize;
            assert(rest[1] == length);
            if length < 2 || length > input.len() - at {
                return Err(CarrierError::InvalidTcpOption);
            }
            let value: &[u8] = vstd::slice::slice_subrange(input, at + 2, at + length);
            assert(value@ =~= rest.subrange(2, length as int));
            options.record(kind, value);
            at += length;
            assert(rest.skip(length as int) =~= input@.skip(at as int));
        }
        Ok(options)
    }
}

/// The value of the last well-formed fast open option.
pub open spec fn cookie_in(input: Seq<u8>, found: Option<Seq<u8>>) -> Result<Option<Seq<u8>>, CarrierError>
    decreases input.len(),
{
    if input.len() == 0 || input[0] == 0 {
        Ok(found)
    } else if input[0] == 1 {
        cookie_in(input.skip(1), found)
    } else if input.len() < 2 || input[1] < 2 || input[1] > input.len() {
        Err(CarrierError::InvalidTcpOption)
    } else {
        cookie_in(
            input.skip(input[1] as int),
            if input[0] == 34 && input[1] <= 18 {
                Some(input.subrange(2, input[1] as int))
            } else {
                found
            },
        )
    }
}

/// The content of a slice, where there is one.
pub open spec fn slice_content(slice: Option<&[u8]>) -> Option<Seq<u8>> {
    match slice {
        Some(bytes) => Some(bytes@),
        None => None,
    }
}

/// Finds the cookie in option bytes without keeping the other options.
pub fn fast_open_cookie(input: &[u8]) -> (result: Result<Option<&[u8]>, CarrierError>)
    ensures
        match result {
            Ok(cookie) => cookie_in(input@, None) == Ok::<Option<Seq<u8>>, CarrierError>(slice_content(cookie)),
            Err(error) => cookie_in(input@, None) == Err::<Option<Seq<u8>>, CarrierError>(error),
        },
{
    let mut cookie: Option<&[u8]> = None;
    let mut at: usize = 0;
    assert(input@.skip(0) =~= input@);
    while at < input.len()
        invariant
            at <= input@.len(),
            cookie_in(input@, None) == cookie_in(input@.skip(at as int), slice_content(cookie)),
        decreases input@.len() - at,
    {
        let ghost rest = input@.skip(at as int);
        let kind: u8 = input[at];
        assert(rest[0] == kind);
        if kind == 0 {
            return Ok(cookie);
        }
        if kind == 1 {
            at += 1;
            assert(rest.skip(1) =~= input@.skip(at as int));
            continue;
        }
        if input.len() - at < 2 {
            return Err(CarrierError::InvalidTcpOption);
        }
        let length: usize = input[at + 1] as usize;
        assert(rest[1] == length);
        if length < 2 || length > input.len() - at {
            return Err(CarrierError::InvalidTcpOption);
        }
        if kind == TFO_OPTION_KIND && length <= 18 {
            let value: &[u8] = vstd::slice::slice_subrange(input, at + 2, at + length);
            assert(value@ =~= rest.subrange(2, length as int));
            cookie = Some(value);
        }
        at += length;
        assert(rest.skip(length as int) =~= input@.skip(at as int));
    }
    Ok(cookie)
}

// ---------------------------------------------------------------------------
// Round trip
// ---------------------------------------------------------------------------

proof fn lemma_option_read(kind: u8, value: Seq<u8>, rest: Seq<u8>, options: OptionsModel, found: Option<Seq<u8>>)
    requires
        kind > 1,
        value.len() <= 253,
    ensures
        ({
            let input = (seq![kind, (2 + value.len()) as u8] + value) + rest;
            &&& parsed(input, options) == parsed(rest, with_option(options, kind, value))
            &&& cookie_in(input, found) == cookie_in(
                rest,
                if kind == 34 && value.len() <= 16 {
                    Some(value)
                } else {
                    found
                },
            )
        }),
{
    let input = (seq![kind, (2 + value.len()) as u8] + value) + rest;
    assert(input[0] == kind);
    assert(input[1] == 2 + value.len());
    let end = 2 + value.len() as int;
    assert(input.subrange(2, end) =~= value);
    assert(input.skip(end) =~= rest);
}

proof fn lemma_padding_read(input: Seq<u8>, options: OptionsModel, found: Option<Seq<u8>>)
    requires
        forall|i: int| 0 <= i < input.len() ==> input[i] == 1,
    ensures
        parsed(input, options) == Ok::<OptionsModel, CarrierError>(options),
        cookie_in(input, found) == Ok::<Option<Seq<u8>>, CarrierError>(found),
    decreases input.len(),
{
    if input.len() > 0 {
        lemma_padding_read(input.skip(1), options, found);
    }
}

proof fn lemma_pad_byte_read(rest: Seq<u8>, options: OptionsModel, found: Option<Seq<u8>>)
    ensures
        parsed(seq![1u8] + rest, options) == parsed(rest, options),
        cookie_in(seq![1u8] + rest, found) == cookie_in(rest, found),
{
    let input = seq![1u8] + rest;
    assert(input[0] == 1);
    assert(input.skip(1) =~= rest);
}

proof fn lemma_mss_read(mss: Option<u16>, rest: Seq<u8>, options: OptionsModel)
    requires
        options.mss is None,
    ensures
        parsed(mss_bytes(mss) + rest, options) == parsed(rest, OptionsModel { mss, ..options }),
        cookie_in(mss_bytes(mss) + rest, None) == cookie_in(rest, None),
{
    match mss {
        Some(value) => {
            endian::lemma_be16(value);
            lemma_option_read(2, endian::be16(value), rest, options, None);
        },
        None => {
            assert(mss_bytes(mss) + rest =~= rest);
        },
    }
}

proof fn lemma_sack_read(permitted: bool, rest: Seq<u8>, options: OptionsModel)
    requires
        !options.sack_permitted,
    ensures
        parsed(sack_bytes(permitted) + rest, options) == parsed(
            rest,
            OptionsModel { sack_permitted: permitted, ..options },
        ),
        cookie_in(sack_bytes(permitted) + rest, None) == cookie_in(rest, None),
{
    if permitted {
        assert(seq![4u8, 2u8] + Seq::<u8>::empty() =~= seq![4u8, 2u8]);
        lemma_option_read(4, Seq::empty(), rest, options, None);
    } else {
        assert(sack_bytes(permitted) + rest =~= rest);
    }
}

proof fn lemma_timestamps_read(timestamps: Option<(u32, u32)>, rest: Seq<u8>, options: OptionsModel)
    requires
        options.timestamps is None,
    ensures
        parsed(timestamp_bytes(timestamps) + rest, options) == parsed(rest, OptionsModel { timestamps, ..options }),
        cookie_in(timestamp_bytes(timestamps) + rest, None) == cookie_in(rest, None),
{
    match timestamps {
        Some((value, echo)) => {
            let body = endian::be32(value) + endian::be32(echo);
            endian::lemma_be32(value);
            endian::lemma_be32(echo);
            assert(body[0] == endian::be32(value)[0] && body[1] == endian::be32(value)[1] && body[2] == endian::be32(
                value,
            )[2] && body[3] == endian::be32(value)[3]);
            assert(body[4] == endian::be32(echo)[0] && body[5] == endian::be32(echo)[1] && body[6] == endian::be32(
                echo,
            )[2] && body[7] == endian::be32(echo)[3]);
            assert(endian::be32_at(body, 0) == value && endian::be32_at(body, 4) == echo);
            let option = (seq![8u8, 10u8] + body) + rest;
            lemma_option_read(8, body, rest, options, None);
            lemma_pad_byte_read(option, options, None);
            lemma_pad_byte_read(seq![1u8] + option, options, None);
            assert(timestamp_bytes(timestamps) + rest =~= seq![1u8] + (seq![1u8] + option));
        },
        None => {
            assert(timestamp_bytes(timestamps) + rest =~= rest);
        },
    }
}

proof fn lemma_scale_read(scale: Option<u8>, rest: Seq<u8>, options: OptionsModel)
    requires
        options.window_scale is None,
    ensures
        parsed(scale_bytes(scale) + rest, options) == parsed(rest, OptionsModel { window_scale: scale, ..options }),
        cookie_in(scale_bytes(scale) + rest, None) == cookie_in(rest, None),
{
    match scale {
        Some(value) => {
            assert(seq![3u8, 3u8] + seq![value] =~= seq![3u8, 3u8, value]);
            lemma_option_read(3, seq![value], rest, options, None);
        },
        None => {
            assert(scale_bytes(scale) + rest =~= rest);
        },
    }
}

/// Options that can be written are whole words, and fit a TCP header.
proof fn lemma_option_bytes_fit(options: OptionsModel)
    requires
        encodable(options),
        zero_filled(options),
    ensures
        option_bytes(options).len() % 4 == 0,
        option_bytes(options).len() <= MAX_TCP_OPTIONS_BYTES,
{
    assert(mss_bytes(options.mss).len() <= 4);
    assert(sack_bytes(options.sack_permitted).len() <= 2);
    assert(timestamp_bytes(options.timestamps).len() <= 12);
    assert(scale_bytes(options.window_scale).len() <= 3);
    assert(cookie_bytes(options.cookie).len() <= 18);
    assert(unpadded_bytes(options).len() <= 39);
}

/// The cookie and the padding that were written read back as they were.
proof fn lemma_cookie_read(options: OptionsModel, before: OptionsModel, pad: Seq<u8>)
    requires
        encodable(options),
        zero_filled(options),
        before == (OptionsModel { cookie: None, ..options }),
        forall|i: int| 0 <= i < pad.len() ==> pad[i] == 1,
    ensures
        parsed(cookie_bytes(options.cookie) + pad, before) == Ok::<OptionsModel, CarrierError>(options),
        cookie_in(cookie_bytes(options.cookie) + pad, None) == Ok::<Option<Seq<u8>>, CarrierError>(
            match options.cookie {
                Some((kept, length)) => Some(kept.take(length)),
                None => None,
            },
        ),
{
    match options.cookie {
        Some((kept, length)) => {
            let value = kept.take(length);
            lemma_option_read(34, value, pad, before, None);
            assert(with_option(before, 34, value) == options);
            lemma_padding_read(pad, options, Some(value));
        },
        None => {
            assert(cookie_bytes(options.cookie) + pad =~= pad);
            lemma_padding_read(pad, options, None);
        },
    }
}

/// Options that were written read back as they were, and so does their cookie.
///
/// Options that the encoder refuses, those with a cookie of more than sixteen bytes, are
/// left out.
pub proof fn law_options_round_trip(options: OptionsModel)
    requires
        encodable(options),
        zero_filled(options),
    ensures
        option_bytes(options).len() % 4 == 0,
        option_bytes(options).len() <= MAX_TCP_OPTIONS_BYTES,
        parsed(option_bytes(options), no_options()) == Ok::<OptionsModel, CarrierError>(options),
        cookie_in(option_bytes(options), None) == Ok::<Option<Seq<u8>>, CarrierError>(
            match options.cookie {
                Some((kept, length)) => Some(kept.take(length)),
                None => None,
            },
        ),
{
    let plain = unpadded_bytes(options);
    let pad = Seq::new(((4 - plain.len() as int % 4) % 4) as nat, |i: int| 1u8);
    let r4 = cookie_bytes(options.cookie) + pad;
    let r3 = scale_bytes(options.window_scale) + r4;
    let r2 = timestamp_bytes(options.timestamps) + r3;
    let r1 = sack_bytes(options.sack_permitted) + r2;
    let all = mss_bytes(options.mss) + r1;
    assert(option_bytes(options) =~= all);
    let o0 = no_options();
    let o1 = OptionsModel { mss: options.mss, ..o0 };
    let o2 = OptionsModel { sack_permitted: options.sack_permitted, ..o1 };
    let o3 = OptionsModel { timestamps: options.timestamps, ..o2 };
    let o4 = OptionsModel { window_scale: options.window_scale, ..o3 };
    lemma_mss_read(options.mss, r1, o0);
    lemma_sack_read(options.sack_permitted, r2, o1);
    lemma_timestamps_read(options.timestamps, r3, o2);
    lemma_scale_read(options.window_scale, r4, o3);
    lemma_cookie_read(options, o4, pad);
    lemma_option_bytes_fit(options);
}

/// The options of a SYN keep nothing but zeros behind their cookie, and can be encoded where
/// the cookie has at most sixteen bytes.
pub proof fn law_syn_options_are_zero_filled(mss: u16, cookie: Option<Seq<u8>>)
    ensures
        zero_filled(syn_options(mss, cookie)),
        cookie matches Some(bytes) ==> (encodable(syn_options(mss, cookie)) <==> bytes.len() <= 16),
{
    if let Some(bytes) = cookie {
        if bytes.len() <= 16 {
            lemma_kept_cookie(bytes);
        }
    }
}

proof fn lemma_kept_cookie(bytes: Seq<u8>)
    requires
        bytes.len() <= 16,
    ensures
        kept_cookie(bytes).take(bytes.len() as int) == bytes,
{
    assert(kept_cookie(bytes).take(bytes.len() as int) =~= bytes);
}

proof fn lemma_parsed_is_zero_filled(input: Seq<u8>, options: OptionsModel)
    requires
        encodable(options),
        zero_filled(options),
    ensures
        parsed(input, options) matches Ok(read) ==> encodable(read) && zero_filled(read),
    decreases input.len(),
{
    if input.len() == 0 || input[0] == 0 {
    } else if input[0] == 1 {
        lemma_parsed_is_zero_filled(input.skip(1), options);
    } else if input.len() < 2 || input[1] < 2 || input[1] > input.len() {
    } else {
        let value = input.subrange(2, input[1] as int);
        if value.len() <= 16 {
            lemma_kept_cookie(value);
        }
        lemma_parsed_is_zero_filled(input.skip(input[1] as int), with_option(options, input[0], value));
    }
}

/// Options that were read keep nothing but zeros behind their cookie, and can be encoded.
pub proof fn law_read_options_are_zero_filled(input: Seq<u8>)
    ensures
        parsed(input, no_options()) matches Ok(options) ==> encodable(options) && zero_filled(options),
{
    lemma_parsed_is_zero_filled(input, no_options());
}

/// Options that were read can be written, in whole words that fit a TCP header, and read
/// back as they were.
pub proof fn law_read_options_round_trip(input: Seq<u8>)
    ensures
        parsed(input, no_options()) matches Ok(options) ==> encodable(options) && option_bytes(options).len() % 4 == 0
            && option_bytes(options).len() <= MAX_TCP_OPTIONS_BYTES && parsed(option_bytes(options), no_options())
            == Ok::<OptionsModel, CarrierError>(options),
{
    law_read_options_are_zero_filled(input);
    if let Ok(options) = parsed(input, no_options()) {
        law_options_round_trip(options);
    }
}

}
