//! Laws of `SerialUri::parse`: which URIs it refuses and with what error,
//! how the query pairs decide each field of what it accepts, and how the
//! hexadecimal USB identifiers it reads are written.

use crate::line::{DataBits, FlowControl, Parity, StopBits};
use crate::text::{
    digits_value, hex, hex_padded, lacks, lemma_hex_padded_lacks_x, lemma_hex_padded_value,
    lemma_hex_value, pow16, split_on, split_once, unsigned_from_str,
};
use crate::uri::{
    apply_key_value, apply_param, apply_params, data_bits_of, defaults, eq_ignore_case,
    flow_control_of, hex_u16_of, key_value, lemma_apply_params_cons, lower_code, parity_of,
    parse_spec, scheme, stop_bits_of, strip_hex_prefix, ParseUriErrorView, SerialUriView,
};
use crate::uri_laws::lemma_apply_params_append;
use vstd::prelude::*;

verus! {

/// The parameters a URI query understands.
pub enum QueryKey {
    Baud,
    Parity,
    Data,
    Stop,
    Flow,
    Vid,
    Pid,
    Serial,
}

/// The parameter a query key names (`baud_rate` is another name of `baud`);
/// `None` for the keys that parsing ignores.
pub open spec fn query_key(k: Seq<char>) -> Option<QueryKey> {
    if k == "baud"@ || k == "baud_rate"@ {
        Some(QueryKey::Baud)
    } else if k == "parity"@ {
        Some(QueryKey::Parity)
    } else if k == "data"@ {
        Some(QueryKey::Data)
    } else if k == "stop"@ {
        Some(QueryKey::Stop)
    } else if k == "flow"@ {
        Some(QueryKey::Flow)
    } else if k == "vid"@ {
        Some(QueryKey::Vid)
    } else if k == "pid"@ {
        Some(QueryKey::Pid)
    } else if k == "serial"@ {
        Some(QueryKey::Serial)
    } else {
        None
    }
}

/// The URI starts with `serial://`.
pub open spec fn has_scheme(uri: Seq<char>) -> bool {
    uri.len() >= scheme().len() && uri.take(scheme().len() as int) == scheme()
}

/// The text after the scheme.
pub open spec fn after_scheme(uri: Seq<char>) -> Seq<char> {
    uri.skip(scheme().len() as int)
}

/// The port-name part: the text after the scheme up to the first `?`.
pub open spec fn path_part(uri: Seq<char>) -> Seq<char> {
    match split_once(after_scheme(uri), '?') {
        Some(pq) => pq.0,
        None => after_scheme(uri),
    }
}

/// The query: the text after the first `?`, empty when there is none.
pub open spec fn query_part(uri: Seq<char>) -> Seq<char> {
    match split_once(after_scheme(uri), '?') {
        Some(pq) => pq.1,
        None => Seq::<char>::empty(),
    }
}

/// The `&`-separated pairs of the query.
pub open spec fn query_pairs(uri: Seq<char>) -> Seq<Seq<char>> {
    split_on(query_part(uri), '&')
}

/// The port name a URI gives: its port-name part, or none when that is empty.
pub open spec fn port_name_of(uri: Seq<char>) -> Option<Seq<char>> {
    if path_part(uri).len() == 0 {
        None
    } else {
        Some(path_part(uri))
    }
}

/// `v` is a value that parsing accepts for the parameter `k`.
pub open spec fn value_accepted(k: QueryKey, v: Seq<char>) -> bool {
    match k {
        QueryKey::Baud => unsigned_from_str(v, 10, 0xffff_ffff) is Some,
        QueryKey::Parity => parity_of(v) is Ok,
        QueryKey::Data => data_bits_of(v) is Ok,
        QueryKey::Stop => stop_bits_of(v) is Ok,
        QueryKey::Flow => flow_control_of(v) is Ok,
        QueryKey::Vid => hex_u16_of(v) is Ok,
        QueryKey::Pid => hex_u16_of(v) is Ok,
        QueryKey::Serial => true,
    }
}

/// A query pair that parsing rejects: a non-empty pair whose key names a
/// parameter and whose value that parameter does not accept.
pub open spec fn pair_rejected(pair: Seq<char>) -> bool {
    &&& pair.len() > 0
    &&& match query_key(key_value(pair).0) {
        Some(k) => !value_accepted(k, key_value(pair).1),
        None => false,
    }
}

/// The key of the first rejected pair, if any.
pub open spec fn first_rejected_key(pairs: Seq<Seq<char>>) -> Option<Seq<char>>
    decreases pairs.len(),
{
    if pairs.len() == 0 {
        None
    } else if pair_rejected(pairs[0]) {
        Some(key_value(pairs[0]).0)
    } else {
        first_rejected_key(pairs.drop_first())
    }
}

/// One non-empty pair fails exactly when it is rejected, with its own key.
proof fn lemma_apply_param_rejection(acc: SerialUriView, pair: Seq<char>)
    requires
        pair.len() > 0,
    ensures
        match apply_param(acc, pair) {
            Ok(_) => !pair_rejected(pair),
            Err(e) => pair_rejected(pair) && (e matches ParseUriErrorView::InvalidParam { key, .. }
                && key == key_value(pair).0),
        },
{
}

/// Applying pairs fails exactly when one is rejected, with the key of the
/// first rejected one, whatever the configuration they start from.
proof fn lemma_apply_params_rejection(acc: SerialUriView, pairs: Seq<Seq<char>>)
    ensures
        match apply_params(acc, pairs) {
            Ok(_) => first_rejected_key(pairs) is None,
            Err(e) => e matches ParseUriErrorView::InvalidParam { key, .. } && first_rejected_key(
                pairs,
            ) == Some(key),
        },
    decreases pairs.len(),
{
    if pairs.len() > 0 {
        if pairs[0].len() == 0 {
            lemma_apply_params_rejection(acc, pairs.drop_first());
        } else {
            lemma_apply_param_rejection(acc, pairs[0]);
            match apply_param(acc, pairs[0]) {
                Ok(next) => lemma_apply_params_rejection(next, pairs.drop_first()),
                Err(_) => {},
            }
        }
    }
}

/// There is a first rejected pair exactly when some pair is rejected, and
/// its key names a parameter other than `serial`.
proof fn lemma_first_rejected_key(pairs: Seq<Seq<char>>)
    ensures
        first_rejected_key(pairs) is Some <==> exists|i: int|
            0 <= i < pairs.len() && #[trigger] pair_rejected(pairs[i]),
        first_rejected_key(pairs) matches Some(key) ==> query_key(key) matches Some(k) && !(k is Serial),
    decreases pairs.len(),
{
    if pairs.len() > 0 {
        let rest = pairs.drop_first();
        lemma_first_rejected_key(rest);
        if pair_rejected(pairs[0]) {
            assert(pair_rejected(pairs[0]));
        } else {
            assert forall|i: int| 0 <= i < pairs.len() && #[trigger] pair_rejected(pairs[i]) implies (
            exists|j: int| 0 <= j < rest.len() && #[trigger] pair_rejected(rest[j])) by {
                assert(i > 0);
                assert(rest[i - 1] == pairs[i]);
            }
            assert forall|j: int| 0 <= j < rest.len() && #[trigger] pair_rejected(rest[j]) implies (
            exists|i: int| 0 <= i < pairs.len() && #[trigger] pair_rejected(pairs[i])) by {
                assert(pairs[j + 1] == rest[j]);
            }
        }
    }
}

/// Which URIs `SerialUri::parse` refuses, and with what:
/// - `InvalidScheme` exactly when the URI does not start with `serial://`;
/// - otherwise an error exactly when some `&`-separated query pair `k=v`
///   (`v` empty when there is no `=`) has a key `k` among `baud`,
///   `baud_rate`, `parity`, `data`, `stop`, `flow`, `vid`, `pid` and a value
///   `v` that key does not accept; the error is then `InvalidParam` with the
///   key of the first such pair;
/// - never `PortNotFound`.
pub proof fn lemma_parse_errors(uri: Seq<char>)
    ensures
        (parse_spec(uri) == Err::<SerialUriView, ParseUriErrorView>(
            ParseUriErrorView::InvalidScheme,
        )) <==> !has_scheme(uri),
        !(parse_spec(uri) matches Err(ParseUriErrorView::PortNotFound(_))),
        parse_spec(uri) is Err <==> !has_scheme(uri) || exists|i: int|
            0 <= i < query_pairs(uri).len() && #[trigger] pair_rejected(query_pairs(uri)[i]),
        match parse_spec(uri) {
            Err(ParseUriErrorView::InvalidParam { key, .. }) => {
                &&& has_scheme(uri)
                &&& first_rejected_key(query_pairs(uri)) == Some(key)
                &&& query_key(key) matches Some(k) && !(k is Serial)
            },
            _ => !has_scheme(uri) || first_rejected_key(query_pairs(uri)) is None,
        },
{
    lemma_apply_params_rejection(defaults(port_name_of(uri)), query_pairs(uri));
    lemma_first_rejected_key(query_pairs(uri));
}

// ---------------------------------------------------------------------------
// Last pair wins
// ---------------------------------------------------------------------------

/// The value of the last non-empty pair whose key names the parameter `k`.
pub open spec fn last_value(pairs: Seq<Seq<char>>, k: QueryKey) -> Option<Seq<char>>
    decreases pairs.len(),
{
    if pairs.len() == 0 {
        None
    } else if pairs.last().len() > 0 && query_key(key_value(pairs.last()).0) == Some(k) {
        Some(key_value(pairs.last()).1)
    } else {
        last_value(pairs.drop_last(), k)
    }
}

/// Each field of `u` is given by the value of the last pair that names it,
/// and is that of `base` where no pair names it; the port name is that of `base`.
pub open spec fn fields_from_pairs(
    u: SerialUriView,
    base: SerialUriView,
    pairs: Seq<Seq<char>>,
) -> bool {
    &&& u.port_name == base.port_name
    &&& match last_value(pairs, QueryKey::Baud) {
        Some(v) => unsigned_from_str(v, 10, 0xffff_ffff) == Some(u.baud_rate as nat),
        None => u.baud_rate == base.baud_rate,
    }
    &&& match last_value(pairs, QueryKey::Parity) {
        Some(v) => parity_of(v) == Ok::<_, Seq<char>>(u.parity),
        None => u.parity == base.parity,
    }
    &&& match last_value(pairs, QueryKey::Data) {
        Some(v) => data_bits_of(v) == Ok::<_, Seq<char>>(u.data_bits),
        None => u.data_bits == base.data_bits,
    }
    &&& match last_value(pairs, QueryKey::Stop) {
        Some(v) => stop_bits_of(v) == Ok::<_, Seq<char>>(u.stop_bits),
        None => u.stop_bits == base.stop_bits,
    }
    &&& match last_value(pairs, QueryKey::Flow) {
        Some(v) => flow_control_of(v) == Ok::<_, Seq<char>>(u.flow_control),
        None => u.flow_control == base.flow_control,
    }
    &&& match last_value(pairs, QueryKey::Vid) {
        Some(v) => u.vid matches Some(x) && hex_u16_of(v) == Ok::<u16, Seq<char>>(x),
        None => u.vid == base.vid,
    }
    &&& match last_value(pairs, QueryKey::Pid) {
        Some(v) => u.pid matches Some(x) && hex_u16_of(v) == Ok::<u16, Seq<char>>(x),
        None => u.pid == base.pid,
    }
    &&& match last_value(pairs, QueryKey::Serial) {
        Some(v) => u.usb_serial == Some(v),
        None => u.usb_serial == base.usb_serial,
    }
}

/// The configuration an application of pairs gives, or `fallback` on error.
spec fn a_of(r: Result<SerialUriView, ParseUriErrorView>, fallback: SerialUriView) -> SerialUriView {
    match r {
        Ok(a) => a,
        Err(_) => fallback,
    }
}

/// Pairs that apply without error leave each field at the value of the
/// last pair naming it.
#[verifier::rlimit(40)]
proof fn lemma_apply_params_fields(acc: SerialUriView, pairs: Seq<Seq<char>>, u: SerialUriView)
    requires
        apply_params(acc, pairs) == Ok::<SerialUriView, ParseUriErrorView>(u),
    ensures
        fields_from_pairs(u, acc, pairs),
    decreases pairs.len(),
{
    if pairs.len() > 0 {
        let pre = pairs.drop_last();
        let p = pairs.last();
        assert(pairs =~= pre + seq![p]);
        lemma_apply_params_append(acc, pre, seq![p]);
        lemma_apply_params_cons(a_of(apply_params(acc, pre), acc), p, Seq::<Seq<char>>::empty());
        assert(seq![p] + Seq::<Seq<char>>::empty() =~= seq![p]);
        let a = a_of(apply_params(acc, pre), acc);
        assert(apply_params(acc, pre) is Ok);
        lemma_apply_params_fields(acc, pre, a);
        if p.len() > 0 {
            assert(apply_param(a, p) == Ok::<SerialUriView, ParseUriErrorView>(u));
            assert(apply_key_value(a, key_value(p).0, key_value(p).1) == Ok::<
                SerialUriView,
                ParseUriErrorView,
            >(u));
        } else {
            assert(u == a);
        }
    }
}

/// Last pair wins: when a URI parses, its port name is the text between the
/// scheme and the first `?` (none when that is empty), and each parameter
/// is given by the value of the last query pair with its key (`baud` or
/// `baud_rate`; `serial` for the USB serial number), or keeps its default
/// (9600 baud, no parity, 8 data bits, 1 stop bit, no flow control, no USB
/// identifiers) when no pair has that key.  Pairs with other keys change
/// nothing.
pub proof fn lemma_parse_last_pair_wins(uri: Seq<char>, u: SerialUriView)
    requires
        parse_spec(uri) == Ok::<SerialUriView, ParseUriErrorView>(u),
    ensures
        has_scheme(uri),
        fields_from_pairs(u, defaults(port_name_of(uri)), query_pairs(uri)),
{
    lemma_apply_params_fields(defaults(port_name_of(uri)), query_pairs(uri), u);
}

// ---------------------------------------------------------------------------
// Hexadecimal identifiers
// ---------------------------------------------------------------------------

/// Hexadecimal digits of a value that fits in 16 bits read back as it, with
/// a `0x` prefix, a `0X` prefix, or none.
proof fn lemma_hex_digits_u16(s: Seq<char>, v: nat)
    requires
        digits_value(s, 16) == Some(v),
        v <= 0xffff,
        s.len() >= 1,
        lacks(s, '+'),
        lacks(s, 'x'),
        lacks(s, 'X'),
    ensures
        hex_u16_of(s) == Ok::<u16, Seq<char>>(v as u16),
        hex_u16_of("0x"@ + s) == Ok::<u16, Seq<char>>(v as u16),
        hex_u16_of("0X"@ + s) == Ok::<u16, Seq<char>>(v as u16),
{
    reveal_strlit("0x");
    reveal_strlit("0X");
    assert(s[0] != '+');
    if s.len() >= 2 {
        assert(s[1] != 'x' && s[1] != 'X');
    }
    assert(strip_hex_prefix(s) == s);
    assert(strip_hex_prefix("0x"@ + s) =~= s);
    assert(strip_hex_prefix("0X"@ + s) =~= s);
}

/// A 16-bit value written in hexadecimal reads back as itself: zero-padded
/// to four lowercase digits (`{:04x}`), or without padding in lowercase
/// (`{:x}`) or uppercase (`{:X}`), each with a `0x` prefix, a `0X` prefix or
/// none.
pub proof fn lemma_hex_u16_round_trip(v: u16, upper: bool)
    ensures
        hex_u16_of(hex(v as nat, upper)) == Ok::<u16, Seq<char>>(v),
        hex_u16_of("0x"@ + hex(v as nat, upper)) == Ok::<u16, Seq<char>>(v),
        hex_u16_of("0X"@ + hex(v as nat, upper)) == Ok::<u16, Seq<char>>(v),
        hex_u16_of(hex_padded(v as nat, 4)) == Ok::<u16, Seq<char>>(v),
        hex_u16_of("0x"@ + hex_padded(v as nat, 4)) == Ok::<u16, Seq<char>>(v),
        hex_u16_of("0X"@ + hex_padded(v as nat, 4)) == Ok::<u16, Seq<char>>(v),
{
    lemma_hex_value(v as nat, upper);
    lemma_hex_digits_u16(hex(v as nat, upper), v as nat);
    assert(pow16(4) == 65536) by {
        reveal_with_fuel(pow16, 5);
    }
    lemma_hex_padded_value(v as nat, 4);
    lemma_hex_padded_lacks_x(v as nat, 4);
    lemma_hex_digits_u16(hex_padded(v as nat, 4), v as nat);
}

// ---------------------------------------------------------------------------
// Line-setting values
// ---------------------------------------------------------------------------

/// `c` is the letter written `lower` in lowercase and `upper` in uppercase.
pub open spec fn letter(c: char, lower: char, upper: char) -> bool {
    c == lower || c == upper
}

/// A comparison without regard to ASCII case holds exactly when each
/// character is the wanted lowercase letter or its uppercase form.
proof fn lemma_eq_ignore_case_letters(s: Seq<char>, lower: Seq<char>)
    requires
        forall|i: int| 0 <= i < lower.len() ==> 'a' <= #[trigger] lower[i] <= 'z',
    ensures
        eq_ignore_case(s, lower) <==> s.len() == lower.len() && forall|i: int|
            0 <= i < s.len() ==> letter(
                #[trigger] s[i],
                lower[i],
                ((lower[i] as int) - 32) as char,
            ),
{
    assert forall|i: int| 0 <= i < s.len() && i < lower.len() implies (lower_code(#[trigger] s[i])
        == lower[i] as int <==> letter(s[i], lower[i], ((lower[i] as int) - 32) as char)) by {
        assert('a' <= lower[i] <= 'z');
    }
}

/// Parity values are read without regard to ASCII case: `n` or `none` gives
/// no parity, `e` or `even` even parity, `o` or `odd` odd parity, in any mix
/// of upper and lower case; every other value is refused.
pub proof fn lemma_parity_words(s: Seq<char>)
    ensures
        parity_of(s) == Ok::<Parity, Seq<char>>(Parity::NoParity) <==> (s.len() == 1 && letter(
            s[0],
            'n',
            'N',
        )) || (s.len() == 4 && letter(s[0], 'n', 'N') && letter(s[1], 'o', 'O') && letter(
            s[2],
            'n',
            'N',
        ) && letter(s[3], 'e', 'E')),
        parity_of(s) == Ok::<Parity, Seq<char>>(Parity::Even) <==> (s.len() == 1 && letter(
            s[0],
            'e',
            'E',
        )) || (s.len() == 4 && letter(s[0], 'e', 'E') && letter(s[1], 'v', 'V') && letter(
            s[2],
            'e',
            'E',
        ) && letter(s[3], 'n', 'N')),
        parity_of(s) == Ok::<Parity, Seq<char>>(Parity::Odd) <==> (s.len() == 1 && letter(
            s[0],
            'o',
            'O',
        )) || (s.len() == 3 && letter(s[0], 'o', 'O') && letter(s[1], 'd', 'D') && letter(
            s[2],
            'd',
            'D',
        )),
{
    reveal_strlit("n");
    reveal_strlit("none");
    reveal_strlit("e");
    reveal_strlit("even");
    reveal_strlit("o");
    reveal_strlit("odd");
    lemma_eq_ignore_case_letters(s, "n"@);
    lemma_eq_ignore_case_letters(s, "none"@);
    lemma_eq_ignore_case_letters(s, "e"@);
    lemma_eq_ignore_case_letters(s, "even"@);
    lemma_eq_ignore_case_letters(s, "o"@);
    lemma_eq_ignore_case_letters(s, "odd"@);
}

/// Flow-control values are read without regard to ASCII case: `none` gives
/// no flow control, `hw` or `hardware` hardware flow control, `sw` or
/// `software` software flow control; every other value is refused.
pub proof fn lemma_flow_control_words(s: Seq<char>)
    ensures
        flow_control_of(s) == Ok::<FlowControl, Seq<char>>(FlowControl::NoFlowControl) <==> (
        s.len() == 4 && letter(s[0], 'n', 'N') && letter(s[1], 'o', 'O') && letter(
            s[2],
            'n',
            'N',
        ) && letter(s[3], 'e', 'E')),
        flow_control_of(s) == Ok::<FlowControl, Seq<char>>(FlowControl::Hardware) <==> (s.len()
            == 2 && letter(s[0], 'h', 'H') && letter(s[1], 'w', 'W')) || (s.len() == 8 && letter(
            s[0],
            'h',
            'H',
        ) && letter(s[1], 'a', 'A') && letter(s[2], 'r', 'R') && letter(s[3], 'd', 'D')
            && letter(s[4], 'w', 'W') && letter(s[5], 'a', 'A') && letter(s[6], 'r', 'R')
            && letter(s[7], 'e', 'E')),
        flow_control_of(s) == Ok::<FlowControl, Seq<char>>(FlowControl::Software) <==> (s.len()
            == 2 && letter(s[0], 's', 'S') && letter(s[1], 'w', 'W')) || (s.len() == 8 && letter(
            s[0],
            's',
            'S',
        ) && letter(s[1], 'o', 'O') && letter(s[2], 'f', 'F') && letter(s[3], 't', 'T')
            && letter(s[4], 'w', 'W') && letter(s[5], 'a', 'A') && letter(s[6], 'r', 'R')
            && letter(s[7], 'e', 'E')),
{
    reveal_strlit("none");
    reveal_strlit("hw");
    reveal_strlit("hardware");
    reveal_strlit("sw");
    reveal_strlit("software");
    lemma_eq_ignore_case_letters(s, "none"@);
    lemma_eq_ignore_case_letters(s, "hw"@);
    lemma_eq_ignore_case_letters(s, "hardware"@);
    lemma_eq_ignore_case_letters(s, "sw"@);
    lemma_eq_ignore_case_letters(s, "software"@);
}

/// Data-bit and stop-bit values are the single digits that name their
/// count, and nothing else.
pub proof fn lemma_bit_count_words(s: Seq<char>)
    ensures
        data_bits_of(s) == Ok::<DataBits, Seq<char>>(DataBits::Five) <==> s == seq!['5'],
        data_bits_of(s) == Ok::<DataBits, Seq<char>>(DataBits::Six) <==> s == seq!['6'],
        data_bits_of(s) == Ok::<DataBits, Seq<char>>(DataBits::Seven) <==> s == seq!['7'],
        data_bits_of(s) == Ok::<DataBits, Seq<char>>(DataBits::Eight) <==> s == seq!['8'],
        stop_bits_of(s) == Ok::<StopBits, Seq<char>>(StopBits::One) <==> s == seq!['1'],
        stop_bits_of(s) == Ok::<StopBits, Seq<char>>(StopBits::Two) <==> s == seq!['2'],
{
    reveal_strlit("5");
    reveal_strlit("6");
    reveal_strlit("7");
    reveal_strlit("8");
    reveal_strlit("1");
    reveal_strlit("2");
    assert("5"@ =~= seq!['5']);
    assert("6"@ =~= seq!['6']);
    assert("7"@ =~= seq!['7']);
    assert("8"@ =~= seq!['8']);
    assert("1"@ =~= seq!['1']);
    assert("2"@ =~= seq!['2']);
    if s.len() == 1 {
        assert(s =~= seq![s[0]]);
        assert(seq!['5'][0] == '5' && seq!['6'][0] == '6' && seq!['7'][0] == '7');
        assert(seq!['8'][0] == '8' && seq!['1'][0] == '1' && seq!['2'][0] == '2');
    }
}

} // verus!
