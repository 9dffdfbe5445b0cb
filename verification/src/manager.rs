//! The decisions of a serial-port manager: which port to open with which
//! line parameters, what to log to MQTT for each line received and each
//! write, and when waiting for a pattern ends.

use crate::error::Error;
use crate::line::{DataBits, FlowControl, Parity, StopBits};
use crate::mqtt::{lulu_topic, lulu_topic_spec};
use crate::ports::PortInfo;
use crate::text::string_of;
use crate::uri::{parse_spec, resolve_outcome, result_view, SerialUri, SerialUriView};
use vstd::prelude::*;
use vstd::utf8::{decode_utf8, valid_utf8};

verus! {

// ---------------------------------------------------------------------------
// SerialPortConfig
// ---------------------------------------------------------------------------

/// Configuration of a serial-port manager.
#[derive(Debug)]
pub struct SerialPortConfig {
    /// Serial port device path (e.g. `/dev/ttyUSB0` on Linux, `COM3` on Windows).
    pub port_name: String,
    /// Baud rate in bits per second.
    pub baud_rate: u32,
    /// Parity setting.
    pub parity: Parity,
    /// Number of data bits per frame.
    pub data_bits: DataBits,
    /// Stop-bit configuration.
    pub stop_bits: StopBits,
    /// Flow-control mode.
    pub flow_control: FlowControl,
    /// MQTT source of this device; topics have the form `lulu/{source}/{attribute}`.
    pub lulu_source: String,
    /// MQTT attribute name for received (RX) messages.
    pub lulu_rx_attribute: String,
    /// MQTT attribute name for transmitted (TX) messages.
    pub lulu_tx_attribute: String,
}

impl Default for SerialPortConfig {
    /// No port name, 9600 baud, 8N1 without flow control, empty source,
    /// attributes `rx` and `tx`.
    fn default() -> (res: SerialPortConfig)
        ensures
            res.port_name@ == Seq::<char>::empty(),
            res.baud_rate == 9600,
            res.parity == Parity::NoParity,
            res.data_bits == DataBits::Eight,
            res.stop_bits == StopBits::One,
            res.flow_control == FlowControl::NoFlowControl,
            res.lulu_source@ == Seq::<char>::empty(),
            res.lulu_rx_attribute@ == "rx"@,
            res.lulu_tx_attribute@ == "tx"@,
    {
        SerialPortConfig {
            port_name: String::new(),
            baud_rate: 9600,
            parity: Parity::NoParity,
            data_bits: DataBits::Eight,
            stop_bits: StopBits::One,
            flow_control: FlowControl::NoFlowControl,
            lulu_source: String::new(),
            lulu_rx_attribute: string_of("rx"),
            lulu_tx_attribute: string_of("tx"),
        }
    }
}

impl Clone for SerialPortConfig {
    fn clone(&self) -> (res: SerialPortConfig)
        ensures
            res.port_name@ == self.port_name@,
            res.baud_rate == self.baud_rate,
            res.parity == self.parity,
            res.data_bits == self.data_bits,
            res.stop_bits == self.stop_bits,
            res.flow_control == self.flow_control,
            res.lulu_source@ == self.lulu_source@,
            res.lulu_rx_attribute@ == self.lulu_rx_attribute@,
            res.lulu_tx_attribute@ == self.lulu_tx_attribute@,
    {
        SerialPortConfig {
            port_name: self.port_name.clone(),
            baud_rate: self.baud_rate,
            parity: self.parity,
            data_bits: self.data_bits,
            stop_bits: self.stop_bits,
            flow_control: self.flow_control,
            lulu_source: self.lulu_source.clone(),
            lulu_rx_attribute: self.lulu_rx_attribute.clone(),
            lulu_tx_attribute: self.lulu_tx_attribute.clone(),
        }
    }
}

/// The configuration has the line parameters of `u` and the given MQTT routing.
pub open spec fn config_matches(
    c: SerialPortConfig,
    u: SerialUriView,
    source: Seq<char>,
    rx: Seq<char>,
    tx: Seq<char>,
) -> bool {
    &&& c.baud_rate == u.baud_rate
    &&& c.parity == u.parity
    &&& c.data_bits == u.data_bits
    &&& c.stop_bits == u.stop_bits
    &&& c.flow_control == u.flow_control
    &&& c.lulu_source@ == source
    &&& c.lulu_rx_attribute@ == rx
    &&& c.lulu_tx_attribute@ == tx
}

impl SerialPortConfig {
    /// The configuration a serial URI describes, with the given MQTT routing:
    /// the URI is parsed, its port resolved (see [`SerialUri::resolve_port`],
    /// which calls `scan_ports` only for USB identifiers), and the line
    /// parameters taken from it.  Parse and resolve errors come back as
    /// [`Error::Uri`].
    pub fn from_uri<F: FnOnce() -> Result<Vec<PortInfo>, String>>(
        uri: &str,
        lulu_source: &str,
        lulu_rx_attribute: &str,
        lulu_tx_attribute: &str,
        scan_ports: F,
    ) -> (res: Result<SerialPortConfig, Error>)
        requires
            parse_spec(uri@) matches Ok(u) && (u.vid is Some || u.pid is Some) ==> call_requires(
                scan_ports,
                (),
            ),
        ensures
            match parse_spec(uri@) {
                Err(e) => res matches Err(Error::Uri(pe)) && pe@ == e,
                Ok(u) => match res {
                    Ok(c) => resolve_outcome(u, scan_ports, Ok(c.port_name@)) && config_matches(
                        c,
                        u,
                        lulu_source@,
                        lulu_rx_attribute@,
                        lulu_tx_attribute@,
                    ),
                    Err(Error::Uri(pe)) => resolve_outcome(u, scan_ports, Err(pe@)),
                    Err(_) => false,
                },
            },
    {
        let serial_uri = match SerialUri::parse(uri) {
            Ok(s) => s,
            Err(e) => return Err(Error::Uri(e)),
        };
        let port_name = match serial_uri.resolve_port(scan_ports) {
            Ok(p) => p,
            Err(e) => return Err(Error::Uri(e)),
        };
        Ok(
            SerialPortConfig {
                port_name,
                baud_rate: serial_uri.baud_rate,
                parity: serial_uri.parity,
                data_bits: serial_uri.data_bits,
                stop_bits: serial_uri.stop_bits,
                flow_control: serial_uri.flow_control,
                lulu_source: string_of(lulu_source),
                lulu_rx_attribute: string_of(lulu_rx_attribute),
                lulu_tx_attribute: string_of(lulu_tx_attribute),
            },
        )
    }
}

// ---------------------------------------------------------------------------
// Logging traffic
// ---------------------------------------------------------------------------

/// A message to publish on the MQTT broker.
#[derive(Debug)]
pub struct LogMessage {
    /// The topic, `lulu/{source}/{attribute}`.
    pub topic: String,
    /// The payload text.
    pub payload: String,
}

/// `line` without its trailing run of `\r` and `\n` characters.
pub open spec fn trim_line_end(line: Seq<char>) -> Seq<char>
    decreases line.len(),
{
    if line.len() > 0 && (line.last() == '\r' || line.last() == '\n') {
        trim_line_end(line.drop_last())
    } else {
        line
    }
}

/// A received line without its line terminator(s): every trailing `\r`
/// and `\n` is removed.
pub fn strip_line_terminator(line: &str) -> (res: String)
    ensures
        res@ == trim_line_end(line@),
{
    let mut end = line.unicode_len();
    assert(line@.take(end as int) =~= line@);
    while end > 0 && (line.get_char(end - 1) == '\r' || line.get_char(end - 1) == '\n')
        invariant
            end <= line@.len(),
            trim_line_end(line@.take(end as int)) == trim_line_end(line@),
        decreases end,
    {
        assert(line@.take(end as int).drop_last() =~= line@.take(end - 1));
        end = end - 1;
    }
    string_of(line.substring_char(0, end))
}

/// What `String::from_utf8_lossy` makes of a byte sequence.
pub uninterp spec fn utf8_lossy(bytes: Seq<u8>) -> Seq<char>;

/// `String::from_utf8_lossy`: decodes UTF-8, replacing each invalid sequence
/// with U+FFFD.  The result is named by `utf8_lossy`; its documentation also
/// states that valid UTF-8 is decoded unchanged, which the second clause says.
#[verifier::external_body]
fn decode_lossy(bytes: &[u8]) -> (res: String)
    ensures
        res@ == utf8_lossy(bytes@),
        valid_utf8(bytes@) ==> res@ == decode_utf8(bytes@),
{
    String::from_utf8_lossy(bytes).into_owned()
}

impl SerialPortConfig {
    /// The MQTT message for a line received from the port: published to
    /// `lulu/{source}/{rx attribute}`, with the line terminator stripped.
    pub fn rx_message(&self, line: &str) -> (res: LogMessage)
        ensures
            res.topic@ == lulu_topic_spec(self.lulu_source@, self.lulu_rx_attribute@),
            res.payload@ == trim_line_end(line@),
    {
        LogMessage {
            topic: lulu_topic(self.lulu_source.as_str(), self.lulu_rx_attribute.as_str()),
            payload: strip_line_terminator(line),
        }
    }

    /// The MQTT message for bytes written to the port: published to
    /// `lulu/{source}/{tx attribute}`, the bytes read as UTF-8 with invalid
    /// sequences replaced by U+FFFD.
    pub fn tx_message(&self, data: &[u8]) -> (res: LogMessage)
        ensures
            res.topic@ == lulu_topic_spec(self.lulu_source@, self.lulu_tx_attribute@),
            res.payload@ == utf8_lossy(data@),
            valid_utf8(data@) ==> res.payload@ == decode_utf8(data@),
    {
        LogMessage {
            topic: lulu_topic(self.lulu_source.as_str(), self.lulu_tx_attribute.as_str()),
            payload: decode_lossy(data),
        }
    }
}

// ---------------------------------------------------------------------------
// Waiting for a pattern
// ---------------------------------------------------------------------------

/// `needle` occurs in `haystack` (an empty needle occurs everywhere).
pub open spec fn contains(haystack: Seq<char>, needle: Seq<char>) -> bool {
    exists|i: int|
        0 <= i <= haystack.len() - needle.len() && #[trigger] haystack.subrange(
            i,
            i + needle.len(),
        ) == needle
}

/// The characters of `s`, in a vector.
fn chars_of(s: &str) -> (res: Vec<char>)
    ensures
        res@ == s@,
{
    let n = s.unicode_len();
    let mut out: Vec<char> = Vec::new();
    let mut i: usize = 0;
    while i < n
        invariant
            i <= n,
            n == s@.len(),
            out@ == s@.take(i as int),
        decreases n - i,
    {
        out.push(s.get_char(i));
        assert(s@.take(i + 1) =~= s@.take(i as int).push(s@[i as int]));
        i = i + 1;
    }
    assert(s@.take(n as int) =~= s@);
    out
}

/// `pattern` occurs in `line` (`str::contains`).
pub fn line_contains(line: &str, pattern: &str) -> (res: bool)
    ensures
        res == contains(line@, pattern@),
{
    let h = chars_of(line);
    let p = chars_of(pattern);
    let n = h.len();
    let m = p.len();
    if m > n {
        return false;
    }
    let mut i: usize = 0;
    while i <= n - m
        invariant
            n == h@.len(),
            m == p@.len(),
            h@ == line@,
            p@ == pattern@,
            m <= n,
            i <= n - m + 1,
            forall|k: int| 0 <= k < i ==> #[trigger] h@.subrange(k, k + m) != p@,
        decreases n - m + 1 - i,
    {
        let mut j: usize = 0;
        while j < m && h[i + j] == p[j]
            invariant
                j <= m,
                i + m <= n,
                n == h@.len(),
                m == p@.len(),
                forall|t: int| 0 <= t < j ==> h@[i + t] == p@[t],
            decreases m - j,
        {
            j = j + 1;
        }
        if j == m {
            assert(h@.subrange(i as int, i + m) =~= p@);
            return true;
        }
        assert(h@.subrange(i as int, i + m)[j as int] != p@[j as int]);
        i = i + 1;
    }
    false
}

/// What a waiter receives from the stream of lines.
pub enum WaitEvent {
    /// A complete line arrived.
    Line(String),
    /// Some lines were dropped because the waiter was too slow.
    Lagged,
    /// The line stream has ended.
    Closed,
}

/// One step of waiting for a line that contains `pattern`: a matching line
/// ends the wait with that line; a closed stream ends it with
/// [`Error::ChannelClosed`]; anything else keeps waiting (`None`).
pub fn wait_step(pattern: &str, event: WaitEvent) -> (res: Option<Result<String, Error>>)
    ensures
        match event {
            WaitEvent::Line(line) => if contains(line@, pattern@) {
                res matches Some(Ok(found)) && found@ == line@
            } else {
                res is None
            },
            WaitEvent::Lagged => res is None,
            WaitEvent::Closed => res matches Some(Err(Error::ChannelClosed)),
        },
{
    match event {
        WaitEvent::Line(line) => {
            if line_contains(line.as_str(), pattern) {
                Some(Ok(line))
            } else {
                None
            }
        },
        WaitEvent::Lagged => None,
        WaitEvent::Closed => Some(Err(Error::ChannelClosed)),
    }
}

/// Stripping the line terminator keeps the line up to its last character
/// that is neither `\r` nor `\n`: the result is a prefix of the line that
/// does not end in `\r` or `\n`, and everything after it is `\r` or `\n`.
pub proof fn lemma_trim_line_end(line: Seq<char>)
    ensures
        trim_line_end(line).len() <= line.len(),
        trim_line_end(line) == line.take(trim_line_end(line).len() as int),
        trim_line_end(line).len() > 0 ==> trim_line_end(line).last() != '\r' && trim_line_end(
            line,
        ).last() != '\n',
        forall|i: int|
            trim_line_end(line).len() <= i < line.len() ==> #[trigger] line[i] == '\r' || line[i]
                == '\n',
    decreases line.len(),
{
    if line.len() > 0 && (line.last() == '\r' || line.last() == '\n') {
        let pre = line.drop_last();
        lemma_trim_line_end(pre);
        assert(pre.take(trim_line_end(pre).len() as int) =~= line.take(
            trim_line_end(pre).len() as int,
        ));
        assert forall|i: int| trim_line_end(line).len() <= i < line.len() implies #[trigger] line[i]
            == '\r' || line[i] == '\n' by {
            if i < line.len() - 1 {
                assert(line[i] == pre[i]);
            }
        }
    } else {
        assert(line.take(line.len() as int) =~= line);
    }
}

} // verus!
