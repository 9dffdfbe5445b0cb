//! URI-based configuration for serial ports.
//!
//! Two forms are supported: the port-name form (`serial:///dev/ttyUSB0?baud=9600`,
//! `serial://COM3?baud=115200`) and the USB form
//! (`serial://?vid=0x2341&pid=0x0043&serial=DFSZGL`), whose port is found by
//! scanning the available ports for matching USB identifiers.
//!
//! | Key      | Values                                       | Default |
//! |----------|----------------------------------------------|---------|
//! | `baud`   | integer baud rate (e.g. `9600`, `115200`)    | `9600`  |
//! | `parity` | `n` / `none`, `e` / `even`, `o` / `odd`      | `n`     |
//! | `data`   | `5`, `6`, `7`, `8`                           | `8`     |
//! | `stop`   | `1`, `2`                                     | `1`     |
//! | `flow`   | `none`, `hw` / `hardware`, `sw` / `software` | `none`  |
//! | `vid`    | USB vendor ID (hex, e.g. `0x2341`)           | —       |
//! | `pid`    | USB product ID (hex, e.g. `0x0043`)          | —       |
//! | `serial` | USB serial-number string                     | —       |

use crate::line::{DataBits, FlowControl, Parity, StopBits};
use crate::ports::{port_views, PortInfo, PortInfoView};
use crate::text::{
    concat2, concat3, decimal, find_char, lacks, first_index_of, hex_padded, join, join_strings,
    lemma_first_index_of, parse_unsigned, push_char, push_decimal, push_hex_padded, split_on,
    split_once, str_equals, string_of, unsigned_from_str,
};
use vstd::prelude::*;

verus! {

// ---------------------------------------------------------------------------
// Errors
// ---------------------------------------------------------------------------

/// Errors that can occur while parsing or resolving a serial URI.
#[derive(Debug)]
pub enum ParseUriError {
    /// The URI does not start with the `serial://` scheme.
    InvalidScheme,
    /// A query parameter has an unrecognised or malformed value.
    InvalidParam { key: String, reason: String },
    /// No matching serial port could be found.
    PortNotFound(String),
}

/// Mathematical model of a [`ParseUriError`].
pub enum ParseUriErrorView {
    InvalidScheme,
    InvalidParam { key: Seq<char>, reason: Seq<char> },
    PortNotFound(Seq<char>),
}

impl View for ParseUriError {
    type V = ParseUriErrorView;

    open spec fn view(&self) -> ParseUriErrorView {
        match self {
            ParseUriError::InvalidScheme => ParseUriErrorView::InvalidScheme,
            ParseUriError::InvalidParam { key, reason } => ParseUriErrorView::InvalidParam {
                key: key@,
                reason: reason@,
            },
            ParseUriError::PortNotFound(m) => ParseUriErrorView::PortNotFound(m@),
        }
    }
}

/// A result taken by the views of its two sides.
pub open spec fn result_view<T: View, E: View>(r: Result<T, E>) -> Result<T::V, E::V> {
    match r {
        Ok(t) => Ok(t@),
        Err(e) => Err(e@),
    }
}

// ---------------------------------------------------------------------------
// SerialUri
// ---------------------------------------------------------------------------

/// Parsed representation of a serial URI.
#[derive(Debug)]
pub struct SerialUri {
    /// Explicit port name from the URI path; `None` when the path is empty.
    pub port_name: Option<String>,
    /// Baud rate in bits per second.  Defaults to `9600`.
    pub baud_rate: u32,
    /// Parity setting.  Defaults to no parity.
    pub parity: Parity,
    /// Number of data bits.  Defaults to eight.
    pub data_bits: DataBits,
    /// Stop-bit configuration.  Defaults to one.
    pub stop_bits: StopBits,
    /// Flow-control mode.  Defaults to none.
    pub flow_control: FlowControl,
    /// USB vendor ID for device discovery.
    pub vid: Option<u16>,
    /// USB product ID for device discovery.
    pub pid: Option<u16>,
    /// USB serial-number string for device discovery.
    pub usb_serial: Option<String>,
}

/// Mathematical model of a [`SerialUri`]: strings become character sequences.
pub struct SerialUriView {
    pub port_name: Option<Seq<char>>,
    pub baud_rate: u32,
    pub parity: Parity,
    pub data_bits: DataBits,
    pub stop_bits: StopBits,
    pub flow_control: FlowControl,
    pub vid: Option<u16>,
    pub pid: Option<u16>,
    pub usb_serial: Option<Seq<char>>,
}

impl View for SerialUri {
    type V = SerialUriView;

    open spec fn view(&self) -> SerialUriView {
        SerialUriView {
            port_name: self.port_name.deep_view(),
            baud_rate: self.baud_rate,
            parity: self.parity,
            data_bits: self.data_bits,
            stop_bits: self.stop_bits,
            flow_control: self.flow_control,
            vid: self.vid,
            pid: self.pid,
            usb_serial: self.usb_serial.deep_view(),
        }
    }
}

/// A copy of an optional string.
fn clone_opt_string(o: &Option<String>) -> (res: Option<String>)
    ensures
        res.deep_view() == o.deep_view(),
{
    match o {
        Some(s) => Some(s.clone()),
        None => None,
    }
}

impl Clone for SerialUri {
    fn clone(&self) -> (res: SerialUri)
        ensures
            res@ == self@,
    {
        SerialUri {
            port_name: clone_opt_string(&self.port_name),
            baud_rate: self.baud_rate,
            parity: self.parity,
            data_bits: self.data_bits,
            stop_bits: self.stop_bits,
            flow_control: self.flow_control,
            vid: self.vid,
            pid: self.pid,
            usb_serial: clone_opt_string(&self.usb_serial),
        }
    }
}

// ---------------------------------------------------------------------------
// Specification of parsing
// ---------------------------------------------------------------------------

/// The mandatory prefix of every serial URI.
pub open spec fn scheme() -> Seq<char> {
    "serial://"@
}

/// The configuration a URI with the given port name and no parameters denotes.
pub open spec fn defaults(port_name: Option<Seq<char>>) -> SerialUriView {
    SerialUriView {
        port_name,
        baud_rate: 9600,
        parity: Parity::NoParity,
        data_bits: DataBits::Eight,
        stop_bits: StopBits::One,
        flow_control: FlowControl::NoFlowControl,
        vid: None,
        pid: None,
        usb_serial: None,
    }
}

/// ASCII lowercase code of a character (other characters keep their code).
pub open spec fn lower_code(c: char) -> int {
    if 'A' <= c && c <= 'Z' {
        c as int + 32
    } else {
        c as int
    }
}

/// `s` equals the lowercase word `lower` once lowercased.  For the words
/// this module compares against, this agrees with comparing
/// `str::to_lowercase`: no other character lowercases to one of their letters.
pub open spec fn eq_ignore_case(s: Seq<char>, lower: Seq<char>) -> bool {
    &&& s.len() == lower.len()
    &&& forall|i: int| 0 <= i < s.len() ==> lower_code(#[trigger] s[i]) == lower[i] as int
}

/// The reason text `"<value>"<tail>` of a rejected parameter value.
pub open spec fn quoted(value: Seq<char>, tail: Seq<char>) -> Seq<char> {
    "\""@ + value + tail
}

/// Parity named by a `parity` value.
pub open spec fn parity_of(s: Seq<char>) -> Result<Parity, Seq<char>> {
    if eq_ignore_case(s, "n"@) || eq_ignore_case(s, "none"@) {
        Ok(Parity::NoParity)
    } else if eq_ignore_case(s, "e"@) || eq_ignore_case(s, "even"@) {
        Ok(Parity::Even)
    } else if eq_ignore_case(s, "o"@) || eq_ignore_case(s, "odd"@) {
        Ok(Parity::Odd)
    } else {
        Err(quoted(s, "\" is not a valid parity (use n/none, e/even, o/odd)"@))
    }
}

/// Data-bit count named by a `data` value.
pub open spec fn data_bits_of(s: Seq<char>) -> Result<DataBits, Seq<char>> {
    if s == "5"@ {
        Ok(DataBits::Five)
    } else if s == "6"@ {
        Ok(DataBits::Six)
    } else if s == "7"@ {
        Ok(DataBits::Seven)
    } else if s == "8"@ {
        Ok(DataBits::Eight)
    } else {
        Err(quoted(s, "\" is not a valid data-bit count (use 5, 6, 7 or 8)"@))
    }
}

/// Stop-bit count named by a `stop` value.
pub open spec fn stop_bits_of(s: Seq<char>) -> Result<StopBits, Seq<char>> {
    if s == "1"@ {
        Ok(StopBits::One)
    } else if s == "2"@ {
        Ok(StopBits::Two)
    } else {
        Err(quoted(s, "\" is not a valid stop-bit count (use 1 or 2)"@))
    }
}

/// Flow-control mode named by a `flow` value.
pub open spec fn flow_control_of(s: Seq<char>) -> Result<FlowControl, Seq<char>> {
    if eq_ignore_case(s, "none"@) {
        Ok(FlowControl::NoFlowControl)
    } else if eq_ignore_case(s, "hw"@) || eq_ignore_case(s, "hardware"@) {
        Ok(FlowControl::Hardware)
    } else if eq_ignore_case(s, "sw"@) || eq_ignore_case(s, "software"@) {
        Ok(FlowControl::Software)
    } else {
        Err(
            quoted(
                s,
                "\" is not a valid flow-control mode (use none, hw/hardware, sw/software)"@,
            ),
        )
    }
}

/// `s` without a leading `0x` or `0X`.
pub open spec fn strip_hex_prefix(s: Seq<char>) -> Seq<char> {
    if s.len() >= 2 && s[0] == '0' && (s[1] == 'x' || s[1] == 'X') {
        s.skip(2)
    } else {
        s
    }
}

/// 16-bit value named by a hexadecimal `vid` / `pid` value.
pub open spec fn hex_u16_of(s: Seq<char>) -> Result<u16, Seq<char>> {
    match unsigned_from_str(strip_hex_prefix(s), 16, 0xffff) {
        Some(v) => Ok(v as u16),
        None => Err(quoted(s, "\" is not a valid 16-bit hex value"@)),
    }
}

/// An `InvalidParam` error.
pub open spec fn invalid_param(key: Seq<char>, reason: Seq<char>) -> ParseUriErrorView {
    ParseUriErrorView::InvalidParam { key, reason }
}

/// The key and the value of a query pair, split at the first `=`; a pair
/// without `=` is all key, with an empty value.
pub open spec fn key_value(pair: Seq<char>) -> (Seq<char>, Seq<char>) {
    match split_once(pair, '=') {
        Some(kv) => kv,
        None => (pair, Seq::<char>::empty()),
    }
}

/// The effect of one `key=value` query pair on the configuration parsed so far.
pub open spec fn apply_param(acc: SerialUriView, pair: Seq<char>) -> Result<
    SerialUriView,
    ParseUriErrorView,
> {
    apply_key_value(acc, key_value(pair).0, key_value(pair).1)
}

/// The effect of a key and its value on the configuration parsed so far;
/// unknown keys are ignored.
pub open spec fn apply_key_value(acc: SerialUriView, key: Seq<char>, value: Seq<char>) -> Result<
    SerialUriView,
    ParseUriErrorView,
> {
    if key == "baud"@ || key == "baud_rate"@ {
        match unsigned_from_str(value, 10, 0xffff_ffff) {
            Some(b) => Ok(SerialUriView { baud_rate: b as u32, ..acc }),
            None => Err(invalid_param(key, quoted(value, "\" is not a valid integer"@))),
        }
    } else if key == "parity"@ {
        match parity_of(value) {
            Ok(p) => Ok(SerialUriView { parity: p, ..acc }),
            Err(r) => Err(invalid_param(key, r)),
        }
    } else if key == "data"@ {
        match data_bits_of(value) {
            Ok(d) => Ok(SerialUriView { data_bits: d, ..acc }),
            Err(r) => Err(invalid_param(key, r)),
        }
    } else if key == "stop"@ {
        match stop_bits_of(value) {
            Ok(d) => Ok(SerialUriView { stop_bits: d, ..acc }),
            Err(r) => Err(invalid_param(key, r)),
        }
    } else if key == "flow"@ {
        match flow_control_of(value) {
            Ok(f) => Ok(SerialUriView { flow_control: f, ..acc }),
            Err(r) => Err(invalid_param(key, r)),
        }
    } else if key == "vid"@ {
        match hex_u16_of(value) {
            Ok(v) => Ok(SerialUriView { vid: Some(v), ..acc }),
            Err(r) => Err(invalid_param(key, r)),
        }
    } else if key == "pid"@ {
        match hex_u16_of(value) {
            Ok(v) => Ok(SerialUriView { pid: Some(v), ..acc }),
            Err(r) => Err(invalid_param(key, r)),
        }
    } else if key == "serial"@ {
        Ok(SerialUriView { usb_serial: Some(value), ..acc })
    } else {
        Ok(acc)
    }
}

/// The query pairs applied left to right, skipping empty ones; the first
/// rejected pair decides the error.
pub open spec fn apply_params(acc: SerialUriView, pairs: Seq<Seq<char>>) -> Result<
    SerialUriView,
    ParseUriErrorView,
>
    decreases pairs.len(),
{
    if pairs.len() == 0 {
        Ok(acc)
    } else if pairs[0].len() == 0 {
        apply_params(acc, pairs.drop_first())
    } else {
        match apply_param(acc, pairs[0]) {
            Ok(next) => apply_params(next, pairs.drop_first()),
            Err(e) => Err(e),
        }
    }
}

/// The meaning of a serial URI: `serial://`, then the port name up to the
/// first `?`, then `&`-separated `key=value` pairs.
pub open spec fn parse_spec(uri: Seq<char>) -> Result<SerialUriView, ParseUriErrorView> {
    if uri.len() >= scheme().len() && uri.take(scheme().len() as int) == scheme() {
        let rest = uri.skip(scheme().len() as int);
        let (path, query) = match split_once(rest, '?') {
            Some(pq) => pq,
            None => (rest, Seq::<char>::empty()),
        };
        let port_name = if path.len() == 0 {
            None
        } else {
            Some(path)
        };
        apply_params(defaults(port_name), split_on(query, '&'))
    } else {
        Err(ParseUriErrorView::InvalidScheme)
    }
}

/// Unfolds `apply_params` over a first pair and the rest.
pub proof fn lemma_apply_params_cons(acc: SerialUriView, p: Seq<char>, rest: Seq<Seq<char>>)
    ensures
        apply_params(acc, seq![p] + rest) == (if p.len() == 0 {
            apply_params(acc, rest)
        } else {
            match apply_param(acc, p) {
                Ok(next) => apply_params(next, rest),
                Err(e) => Err(e),
            }
        }),
{
    assert((seq![p] + rest).drop_first() =~= rest);
}

// ---------------------------------------------------------------------------
// Parsing
// ---------------------------------------------------------------------------

/// Compares `s` with a lowercase word, ignoring ASCII case.
fn eq_ignore_ascii_case(s: &str, lower: &str) -> (res: bool)
    ensures
        res == eq_ignore_case(s@, lower@),
{
    let n = s.unicode_len();
    if n != lower.unicode_len() {
        return false;
    }
    let mut i: usize = 0;
    while i < n
        invariant
            i <= n,
            n == s@.len(),
            n == lower@.len(),
            forall|j: int| 0 <= j < i ==> lower_code(#[trigger] s@[j]) == lower@[j] as int,
        decreases n - i,
    {
        let c = s.get_char(i);
        let l = lower.get_char(i);
        let code: u32 = if 'A' <= c && c <= 'Z' {
            (c as u32) + 32
        } else {
            c as u32
        };
        if code != l as u32 {
            return false;
        }
        i = i + 1;
    }
    true
}

/// `"<value>"<tail>` as a `String`.
fn quoted_string(value: &str, tail: &str) -> (res: String)
    ensures
        res@ == quoted(value@, tail@),
{
    concat3("\"", value, tail)
}

/// Parses a `parity` value (case-insensitive).
pub fn parse_parity(s: &str) -> (res: Result<Parity, String>)
    ensures
        match res {
            Ok(p) => parity_of(s@) == Ok::<Parity, Seq<char>>(p),
            Err(r) => parity_of(s@) == Err::<Parity, Seq<char>>(r@),
        },
{
    if eq_ignore_ascii_case(s, "n") || eq_ignore_ascii_case(s, "none") {
        Ok(Parity::NoParity)
    } else if eq_ignore_ascii_case(s, "e") || eq_ignore_ascii_case(s, "even") {
        Ok(Parity::Even)
    } else if eq_ignore_ascii_case(s, "o") || eq_ignore_ascii_case(s, "odd") {
        Ok(Parity::Odd)
    } else {
        Err(quoted_string(s, "\" is not a valid parity (use n/none, e/even, o/odd)"))
    }
}

/// Parses a `data` value.
pub fn parse_data_bits(s: &str) -> (res: Result<DataBits, String>)
    ensures
        match res {
            Ok(d) => data_bits_of(s@) == Ok::<DataBits, Seq<char>>(d),
            Err(r) => data_bits_of(s@) == Err::<DataBits, Seq<char>>(r@),
        },
{
    if str_equals(s, "5") {
        Ok(DataBits::Five)
    } else if str_equals(s, "6") {
        Ok(DataBits::Six)
    } else if str_equals(s, "7") {
        Ok(DataBits::Seven)
    } else if str_equals(s, "8") {
        Ok(DataBits::Eight)
    } else {
        Err(quoted_string(s, "\" is not a valid data-bit count (use 5, 6, 7 or 8)"))
    }
}

/// Parses a `stop` value.
pub fn parse_stop_bits(s: &str) -> (res: Result<StopBits, String>)
    ensures
        match res {
            Ok(d) => stop_bits_of(s@) == Ok::<StopBits, Seq<char>>(d),
            Err(r) => stop_bits_of(s@) == Err::<StopBits, Seq<char>>(r@),
        },
{
    if str_equals(s, "1") {
        Ok(StopBits::One)
    } else if str_equals(s, "2") {
        Ok(StopBits::Two)
    } else {
        Err(quoted_string(s, "\" is not a valid stop-bit count (use 1 or 2)"))
    }
}

/// Parses a `flow` value (case-insensitive).
pub fn parse_flow_control(s: &str) -> (res: Result<FlowControl, String>)
    ensures
        match res {
            Ok(f) => flow_control_of(s@) == Ok::<FlowControl, Seq<char>>(f),
            Err(r) => flow_control_of(s@) == Err::<FlowControl, Seq<char>>(r@),
        },
{
    if eq_ignore_ascii_case(s, "none") {
        Ok(FlowControl::NoFlowControl)
    } else if eq_ignore_ascii_case(s, "hw") || eq_ignore_ascii_case(s, "hardware") {
        Ok(FlowControl::Hardware)
    } else if eq_ignore_ascii_case(s, "sw") || eq_ignore_ascii_case(s, "software") {
        Ok(FlowControl::Software)
    } else {
        Err(
            quoted_string(
                s,
                "\" is not a valid flow-control mode (use none, hw/hardware, sw/software)",
            ),
        )
    }
}

/// Parses a 16-bit hexadecimal value, with or without a `0x` / `0X` prefix.
pub fn parse_u16_hex(s: &str) -> (res: Result<u16, String>)
    ensures
        match res {
            Ok(v) => hex_u16_of(s@) == Ok::<u16, Seq<char>>(v),
            Err(r) => hex_u16_of(s@) == Err::<u16, Seq<char>>(r@),
        },
{
    let n = s.unicode_len();
    let stripped = if n >= 2 && s.get_char(0) == '0' && (s.get_char(1) == 'x' || s.get_char(1)
        == 'X') {
        s.substring_char(2, n)
    } else {
        s
    };
    assert(stripped@ == strip_hex_prefix(s@));
    match parse_unsigned(stripped, 16, 0xffff) {
        Some(v) => Ok(v as u16),
        None => Err(quoted_string(s, "\" is not a valid 16-bit hex value")),
    }
}

/// Parses a baud rate: an unsigned 32-bit decimal integer.
fn parse_baud(s: &str) -> (res: Option<u32>)
    ensures
        match unsigned_from_str(s@, 10, 0xffff_ffff) {
            Some(v) => res == Some(v as u32),
            None => res is None,
        },
{
    parse_unsigned(s, 10, 0xffff_ffff)
}

/// Applies the query pair `uri[lo..hi]` to `acc`.
fn apply_pair(acc: SerialUri, uri: &str, lo: usize, hi: usize) -> (res: Result<
    SerialUri,
    ParseUriError,
>)
    requires
        lo <= hi <= uri@.len(),
    ensures
        result_view(res) == apply_param(acc@, uri@.subrange(lo as int, hi as int)),
{
    let ghost pair = uri@.subrange(lo as int, hi as int);
    proof {
        lemma_first_index_of(pair, '=');
    }
    let eq = find_char(uri, lo, hi, '=');
    let (key_end, value_start) = match eq {
        Some(k) => (k, k + 1),
        None => (hi, hi),
    };
    let key = uri.substring_char(lo, key_end);
    let value = uri.substring_char(value_start, hi);
    proof {
        match split_once(pair, '=') {
            Some(kv) => {
                assert(kv.0 =~= key@);
                assert(kv.1 =~= value@);
            },
            None => {
                assert(pair =~= key@);
                assert(value@ =~= Seq::<char>::empty());
            },
        }
    }
    let mut acc = acc;
    if str_equals(key, "baud") || str_equals(key, "baud_rate") {
        match parse_baud(value) {
            Some(b) => {
                acc.baud_rate = b;
                Ok(acc)
            },
            None => Err(
                ParseUriError::InvalidParam {
                    key: string_of(key),
                    reason: quoted_string(value, "\" is not a valid integer"),
                },
            ),
        }
    } else if str_equals(key, "parity") {
        match parse_parity(value) {
            Ok(p) => {
                acc.parity = p;
                Ok(acc)
            },
            Err(reason) => Err(ParseUriError::InvalidParam { key: string_of(key), reason }),
        }
    } else if str_equals(key, "data") {
        match parse_data_bits(value) {
            Ok(d) => {
                acc.data_bits = d;
                Ok(acc)
            },
            Err(reason) => Err(ParseUriError::InvalidParam { key: string_of(key), reason }),
        }
    } else if str_equals(key, "stop") {
        match parse_stop_bits(value) {
            Ok(d) => {
                acc.stop_bits = d;
                Ok(acc)
            },
            Err(reason) => Err(ParseUriError::InvalidParam { key: string_of(key), reason }),
        }
    } else if str_equals(key, "flow") {
        match parse_flow_control(value) {
            Ok(f) => {
                acc.flow_control = f;
                Ok(acc)
            },
            Err(reason) => Err(ParseUriError::InvalidParam { key: string_of(key), reason }),
        }
    } else if str_equals(key, "vid") {
        match parse_u16_hex(value) {
            Ok(v) => {
                acc.vid = Some(v);
                Ok(acc)
            },
            Err(reason) => Err(ParseUriError::InvalidParam { key: string_of(key), reason }),
        }
    } else if str_equals(key, "pid") {
        match parse_u16_hex(value) {
            Ok(v) => {
                acc.pid = Some(v);
                Ok(acc)
            },
            Err(reason) => Err(ParseUriError::InvalidParam { key: string_of(key), reason }),
        }
    } else if str_equals(key, "serial") {
        acc.usb_serial = Some(string_of(value));
        Ok(acc)
    } else {
        Ok(acc)
    }
}

impl SerialUri {
    /// Parses a serial URI string.
    ///
    /// Fails with `InvalidScheme` when the URI does not start with
    /// `serial://`, and with `InvalidParam` for the first query parameter
    /// whose value is not recognised.
    pub fn parse(uri: &str) -> (res: Result<SerialUri, ParseUriError>)
        ensures
            result_view(res) == parse_spec(uri@),
    {
        let n = uri.unicode_len();
        proof {
            reveal_strlit("serial://");
        }
        if n < 9 {
            return Err(ParseUriError::InvalidScheme);
        }
        if !str_equals(uri.substring_char(0, 9), "serial://") {
            return Err(ParseUriError::InvalidScheme);
        }
        let ghost rest = uri@.skip(9);
        let q = find_char(uri, 9, n, '?');
        assert(uri@.subrange(9, n as int) =~= rest);
        proof {
            lemma_first_index_of(rest, '?');
        }
        let (path_end, query_start) = match q {
            Some(i) => (i, i + 1),
            None => (n, n),
        };
        let ghost path = uri@.subrange(9, path_end as int);
        let ghost query = uri@.subrange(query_start as int, n as int);
        proof {
            match split_once(rest, '?') {
                Some(pq) => {
                    assert(pq.0 =~= path);
                    assert(pq.1 =~= query);
                },
                None => {
                    assert(rest =~= path);
                    assert(query =~= Seq::<char>::empty());
                },
            }
        }
        let port_name = if path_end == 9 {
            None
        } else {
            Some(string_of(uri.substring_char(9, path_end)))
        };
        let mut acc = SerialUri {
            port_name,
            baud_rate: 9600,
            parity: Parity::NoParity,
            data_bits: DataBits::Eight,
            stop_bits: StopBits::One,
            flow_control: FlowControl::NoFlowControl,
            vid: None,
            pid: None,
            usb_serial: None,
        };
        let ghost target = apply_params(acc@, split_on(query, '&'));
        assert(target == parse_spec(uri@));
        let mut pos = query_start;
        loop
            invariant
                query_start <= pos <= n,
                n == uri@.len(),
                target == parse_spec(uri@),
                apply_params(acc@, split_on(uri@.subrange(pos as int, n as int), '&')) == target,
            decreases n - pos,
        {
            let ghost sub = uri@.subrange(pos as int, n as int);
            proof {
                lemma_first_index_of(sub, '&');
            }
            let amp = find_char(uri, pos, n, '&');
            match amp {
                Some(j) => {
                    proof {
                        assert(sub.take(j - pos) =~= uri@.subrange(pos as int, j as int));
                        assert(sub.skip(j - pos + 1) =~= uri@.subrange(j + 1, n as int));
                        lemma_apply_params_cons(
                            acc@,
                            uri@.subrange(pos as int, j as int),
                            split_on(uri@.subrange(j + 1, n as int), '&'),
                        );
                    }
                    if j > pos {
                        acc = apply_pair(acc, uri, pos, j)?;
                    }
                    pos = j + 1;
                },
                None => {
                    proof {
                        lemma_apply_params_cons(acc@, sub, Seq::empty());
                        assert(split_on(sub, '&') =~= seq![sub] + Seq::<Seq<char>>::empty());
                    }
                    if n > pos {
                        acc = apply_pair(acc, uri, pos, n)?;
                    }
                    return Ok(acc);
                },
            }
        }
    }
}

// ---------------------------------------------------------------------------
// Writing URIs back
// ---------------------------------------------------------------------------

/// A list with the one element of `o`, or the empty list.
pub open spec fn opt_seq(o: Option<Seq<char>>) -> Seq<Seq<char>> {
    match o {
        Some(x) => seq![x],
        None => Seq::empty(),
    }
}

/// The `vid` parameter, when a vendor ID is set.
pub open spec fn vid_param(u: SerialUriView) -> Option<Seq<char>> {
    match u.vid {
        Some(v) => Some("vid=0x"@ + hex_padded(v as nat, 4)),
        None => None,
    }
}

/// The `pid` parameter, when a product ID is set.
pub open spec fn pid_param(u: SerialUriView) -> Option<Seq<char>> {
    match u.pid {
        Some(p) => Some("pid=0x"@ + hex_padded(p as nat, 4)),
        None => None,
    }
}

/// The `serial` parameter, when a USB serial number is set.
pub open spec fn serial_param(u: SerialUriView) -> Option<Seq<char>> {
    match u.usb_serial {
        Some(s) => Some("serial="@ + s),
        None => None,
    }
}

/// The `baud` parameter, when the baud rate is not 9600.
pub open spec fn baud_param(u: SerialUriView) -> Option<Seq<char>> {
    if u.baud_rate != 9600 {
        Some("baud="@ + decimal(u.baud_rate as nat))
    } else {
        None
    }
}

/// The `parity` parameter, when parity is on.
pub open spec fn parity_param(u: SerialUriView) -> Option<Seq<char>> {
    match u.parity {
        Parity::NoParity => None,
        Parity::Even => Some("parity=e"@),
        Parity::Odd => Some("parity=o"@),
    }
}

/// The `data` parameter, when there are fewer than eight data bits.
pub open spec fn data_param(u: SerialUriView) -> Option<Seq<char>> {
    match u.data_bits {
        DataBits::Five => Some("data=5"@),
        DataBits::Six => Some("data=6"@),
        DataBits::Seven => Some("data=7"@),
        DataBits::Eight => None,
    }
}

/// The `stop` parameter, when there are two stop bits.
pub open spec fn stop_param(u: SerialUriView) -> Option<Seq<char>> {
    match u.stop_bits {
        StopBits::One => None,
        StopBits::Two => Some("stop=2"@),
    }
}

/// The `flow` parameter, when flow control is on.
pub open spec fn flow_param(u: SerialUriView) -> Option<Seq<char>> {
    match u.flow_control {
        FlowControl::NoFlowControl => None,
        FlowControl::Hardware => Some("flow=hw"@),
        FlowControl::Software => Some("flow=sw"@),
    }
}

/// The USB identifier parameters, in the order `vid`, `pid`, `serial`.
pub open spec fn usb_params(u: SerialUriView) -> Seq<Seq<char>> {
    opt_seq(vid_param(u)) + opt_seq(pid_param(u)) + opt_seq(serial_param(u))
}

/// The line parameters that differ from their defaults, in the order
/// `baud`, `parity`, `data`, `stop`, `flow`.
pub open spec fn line_params(u: SerialUriView) -> Seq<Seq<char>> {
    opt_seq(baud_param(u)) + opt_seq(parity_param(u)) + opt_seq(data_param(u)) + opt_seq(
        stop_param(u),
    ) + opt_seq(flow_param(u))
}

/// All query parameters that `to_uri` writes.
pub open spec fn uri_params(u: SerialUriView) -> Seq<Seq<char>> {
    usb_params(u) + line_params(u)
}

/// The URI text of a configuration: scheme, port name, and the non-default
/// parameters after a `?` (no `?` when there are none).
pub open spec fn uri_text(u: SerialUriView) -> Seq<char> {
    let port = match u.port_name {
        Some(p) => p,
        None => Seq::empty(),
    };
    let params = uri_params(u);
    scheme() + port + (if params.len() > 0 {
        seq!['?'] + join(params, '&')
    } else {
        Seq::empty()
    })
}

/// The configurations that have a URI text which parses back to them: a
/// port name is non-empty and holds no `?`, and a USB serial number holds no `&`.
pub open spec fn is_canonical(u: SerialUriView) -> bool {
    &&& (u.port_name matches Some(p) ==> p.len() > 0 && lacks(p, '?'))
    &&& (u.usb_serial matches Some(sn) ==> lacks(sn, '&'))
}

/// The description of the USB identifiers used in `PortNotFound` errors.
pub open spec fn usb_description_spec(u: SerialUriView) -> Seq<char> {
    join(usb_params(u), ' ')
}

/// The views of a list of strings.
pub open spec fn string_views(v: Seq<String>) -> Seq<Seq<char>> {
    v.map_values(|s: String| s@)
}

/// `prefix` followed by the 4-digit lowercase hex form of `v`.
fn hex_param(prefix: &str, v: u16) -> (res: String)
    ensures
        res@ == prefix@ + hex_padded(v as nat, 4),
{
    let mut out = string_of(prefix);
    push_hex_padded(&mut out, v as u32, 4);
    out
}

/// Appends the parameter, if there is one.
fn push_param(params: &mut Vec<String>, p: Option<String>)
    ensures
        string_views(final(params)@) == string_views(old(params)@) + opt_seq(p.deep_view()),
{
    match p {
        Some(x) => {
            params.push(x);
            assert(string_views(params@) =~= string_views(old(params)@) + opt_seq(
                p.deep_view(),
            ));
        },
        None => {
            assert(string_views(params@) =~= string_views(old(params)@) + opt_seq(
                p.deep_view(),
            ));
        },
    }
}

impl SerialUri {
    fn vid_param(&self) -> (res: Option<String>)
        ensures
            res.deep_view() == vid_param(self@),
    {
        match self.vid {
            Some(v) => Some(hex_param("vid=0x", v)),
            None => None,
        }
    }

    fn pid_param(&self) -> (res: Option<String>)
        ensures
            res.deep_view() == pid_param(self@),
    {
        match self.pid {
            Some(p) => Some(hex_param("pid=0x", p)),
            None => None,
        }
    }

    fn serial_param(&self) -> (res: Option<String>)
        ensures
            res.deep_view() == serial_param(self@),
    {
        match &self.usb_serial {
            Some(s) => Some(concat2("serial=", s.as_str())),
            None => None,
        }
    }

    fn baud_param(&self) -> (res: Option<String>)
        ensures
            res.deep_view() == baud_param(self@),
    {
        if self.baud_rate != 9600 {
            let mut p = string_of("baud=");
            push_decimal(&mut p, self.baud_rate);
            Some(p)
        } else {
            None
        }
    }

    fn parity_param(&self) -> (res: Option<String>)
        ensures
            res.deep_view() == parity_param(self@),
    {
        match self.parity {
            Parity::NoParity => None,
            Parity::Even => Some(string_of("parity=e")),
            Parity::Odd => Some(string_of("parity=o")),
        }
    }

    fn data_param(&self) -> (res: Option<String>)
        ensures
            res.deep_view() == data_param(self@),
    {
        match self.data_bits {
            DataBits::Five => Some(string_of("data=5")),
            DataBits::Six => Some(string_of("data=6")),
            DataBits::Seven => Some(string_of("data=7")),
            DataBits::Eight => None,
        }
    }

    fn stop_param(&self) -> (res: Option<String>)
        ensures
            res.deep_view() == stop_param(self@),
    {
        match self.stop_bits {
            StopBits::One => None,
            StopBits::Two => Some(string_of("stop=2")),
        }
    }

    fn flow_param(&self) -> (res: Option<String>)
        ensures
            res.deep_view() == flow_param(self@),
    {
        match self.flow_control {
            FlowControl::NoFlowControl => None,
            FlowControl::Hardware => Some(string_of("flow=hw")),
            FlowControl::Software => Some(string_of("flow=sw")),
        }
    }

    /// Pushes the USB identifier parameters onto `params`.
    fn push_usb_params(&self, params: &mut Vec<String>)
        ensures
            string_views(final(params)@) == string_views(old(params)@) + usb_params(self@),
    {
        let ghost start = string_views(params@);
        push_param(params, self.vid_param());
        push_param(params, self.pid_param());
        push_param(params, self.serial_param());
        assert(string_views(params@) =~= start + usb_params(self@));
    }

    /// Pushes the non-default line parameters onto `params`.
    fn push_line_params(&self, params: &mut Vec<String>)
        ensures
            string_views(final(params)@) == string_views(old(params)@) + line_params(self@),
    {
        let ghost start = string_views(params@);
        push_param(params, self.baud_param());
        push_param(params, self.parity_param());
        push_param(params, self.data_param());
        push_param(params, self.stop_param());
        push_param(params, self.flow_param());
        assert(string_views(params@) =~= start + line_params(self@));
    }

    /// The URI string of this configuration; parameters at their default
    /// value are left out.  The result parses back to this configuration
    /// (see `lemma_to_uri_parses_back`).
    pub fn to_uri(&self) -> (res: String)
        ensures
            res@ == uri_text(self@),
    {
        let mut uri = string_of("serial://");
        if let Some(port) = &self.port_name {
            uri.append(port.as_str());
        }
        let ghost head = uri@;
        assert(head == scheme() + (match self@.port_name {
            Some(p) => p,
            None => Seq::<char>::empty(),
        }));
        let mut params: Vec<String> = Vec::new();
        assert(string_views(params@) =~= Seq::<Seq<char>>::empty());
        self.push_usb_params(&mut params);
        self.push_line_params(&mut params);
        assert(string_views(params@) =~= uri_params(self@));
        if params.len() > 0 {
            push_char(&mut uri, '?');
            let joined = join_strings(&params, '&');
            uri.append(joined.as_str());
            assert(uri@ =~= uri_text(self@));
        } else {
            assert(uri@ =~= uri_text(self@));
        }
        uri
    }

    /// Human-readable description of the USB identifiers, for error messages.
    pub fn usb_description(&self) -> (res: String)
        ensures
            res@ == usb_description_spec(self@),
    {
        let mut parts: Vec<String> = Vec::new();
        assert(string_views(parts@) =~= Seq::<Seq<char>>::empty());
        self.push_usb_params(&mut parts);
        assert(string_views(parts@) =~= usb_params(self@));
        join_strings(&parts, ' ')
    }
}

// ---------------------------------------------------------------------------
// Resolving the port
// ---------------------------------------------------------------------------

/// The port's USB identifiers match every identifier the URI sets.
pub open spec fn usb_matches(u: SerialUriView, port: PortInfoView) -> bool {
    match port.usb {
        Some(usb) => {
            &&& (u.vid matches Some(v) ==> v == usb.vid)
            &&& (u.pid matches Some(p) ==> p == usb.pid)
            &&& (u.usb_serial matches Some(s) ==> usb.serial_number == Some(s))
        },
        None => false,
    }
}

/// The name of the first port that matches, or `PortNotFound` with the
/// description of the USB identifiers.
pub open spec fn usb_search(u: SerialUriView, ports: Seq<PortInfoView>) -> Result<
    Seq<char>,
    ParseUriErrorView,
>
    decreases ports.len(),
{
    if ports.len() == 0 {
        Err(ParseUriErrorView::PortNotFound(usb_description_spec(u)))
    } else if usb_matches(u, ports[0]) {
        Ok(ports[0].port_name)
    } else {
        usb_search(u, ports.drop_first())
    }
}

/// What a port lookup by USB identifiers gives once the ports were scanned:
/// the search over the scanned list, or `PortNotFound` when the scan failed.
pub open spec fn scan_outcome(u: SerialUriView, scanned: Result<Vec<PortInfo>, String>) -> Result<
    Seq<char>,
    ParseUriErrorView,
> {
    match scanned {
        Ok(ports) => usb_search(u, port_views(ports@)),
        Err(text) => Err(ParseUriErrorView::PortNotFound("cannot enumerate ports: "@ + text@)),
    }
}

/// The message of the `PortNotFound` error for a URI with neither a port
/// name nor USB identifiers.
pub open spec fn no_port_message() -> Seq<char> {
    "no port name or USB identifiers provided"@
}

/// What `resolve_port` gives: with USB identifiers, the lookup over what
/// `scan_ports` returned; otherwise the port name, or `PortNotFound` when
/// there is none.
pub open spec fn resolve_outcome<F: FnOnce() -> Result<Vec<PortInfo>, String>>(
    u: SerialUriView,
    scan_ports: F,
    r: Result<Seq<char>, ParseUriErrorView>,
) -> bool {
    if u.vid is Some || u.pid is Some {
        exists|scanned: Result<Vec<PortInfo>, String>|
            call_ensures(scan_ports, (), scanned) && r == #[trigger] scan_outcome(u, scanned)
    } else {
        r == match u.port_name {
            Some(p) => Ok(p),
            None => Err(ParseUriErrorView::PortNotFound(no_port_message())),
        }
    }
}

impl SerialUri {
    /// The name of the first port in `ports` whose USB identifiers match
    /// those of this URI, or `PortNotFound` with a description of them.
    pub fn find_usb_port_in(&self, ports: &Vec<PortInfo>) -> (res: Result<String, ParseUriError>)
        ensures
            result_view(res) == usb_search(self@, port_views(ports@)),
    {
        let ghost views = port_views(ports@);
        let n = ports.len();
        let mut i: usize = 0;
        assert(views.skip(0) =~= views);
        while i < n
            invariant
                i <= n,
                n == ports@.len(),
                views == port_views(ports@),
                usb_search(self@, views.skip(i as int)) == usb_search(self@, views),
            decreases n - i,
        {
            let ghost tail = views.skip(i as int);
            assert(tail[0] == ports@[i as int]@);
            assert(tail.drop_first() =~= views.skip(i + 1));
            let info = &ports[i];
            if let Some(usb) = &info.usb {
                let vid_match = match self.vid {
                    Some(v) => v == usb.vid,
                    None => true,
                };
                let pid_match = match self.pid {
                    Some(p) => p == usb.pid,
                    None => true,
                };
                let serial_match = match (&self.usb_serial, &usb.serial_number) {
                    (Some(expected), Some(actual)) => str_equals(expected.as_str(), actual.as_str()),
                    (Some(_), None) => false,
                    (None, _) => true,
                };
                assert(tail[0].usb == Some(usb@));
                assert(serial_match == (self@.usb_serial matches Some(x) ==> usb@.serial_number
                    == Some(x)));
                assert((vid_match && pid_match && serial_match) == usb_matches(self@, tail[0]));
                if vid_match && pid_match && serial_match {
                    return Ok(info.port_name.clone());
                }
            } else {
                assert(!usb_matches(self@, tail[0]));
            }
            i = i + 1;
        }
        assert(views.skip(n as int) =~= Seq::<PortInfoView>::empty());
        Err(ParseUriError::PortNotFound(self.usb_description()))
    }

    /// The concrete port name to open.  USB identifiers take priority: when
    /// a vendor or product ID is set, `scan_ports` is called once to list the
    /// available ports and the first match is returned.  Otherwise the port
    /// name is returned without calling `scan_ports`, and `PortNotFound` when
    /// there is none.
    pub fn resolve_port<F: FnOnce() -> Result<Vec<PortInfo>, String>>(&self, scan_ports: F) -> (res:
        Result<String, ParseUriError>)
        requires
            self@.vid is Some || self@.pid is Some ==> call_requires(scan_ports, ()),
        ensures
            resolve_outcome(self@, scan_ports, result_view(res)),
    {
        if self.vid.is_some() || self.pid.is_some() {
            let scanned = scan_ports();
            let res = match &scanned {
                Ok(ports) => self.find_usb_port_in(ports),
                Err(text) => Err(
                    ParseUriError::PortNotFound(concat2("cannot enumerate ports: ", text.as_str())),
                ),
            };
            assert(result_view(res) == scan_outcome(self@, scanned));
            return res;
        }
        match &self.port_name {
            Some(p) => Ok(p.clone()),
            None => Err(
                ParseUriError::PortNotFound(
                    string_of("no port name or USB identifiers provided"),
                ),
            ),
        }
    }
}

/// Parses a serial URI string (same as [`SerialUri::parse`]).
pub fn parse_serial_uri(uri: &str) -> (res: Result<SerialUri, ParseUriError>)
    ensures
        result_view(res) == parse_spec(uri@),
{
    SerialUri::parse(uri)
}

} // verus!
