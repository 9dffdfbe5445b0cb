//! Laws relating `SerialUri::parse` and `SerialUri::to_uri`.

use crate::line::{DataBits, FlowControl, Parity, StopBits};
use crate::text::{
    all_lack, decimal, first_index_of, hex_padded, join, lacks, lemma_decimal_value,
    lemma_first_index_after, lemma_first_index_none, lemma_first_index_of, lemma_hex_padded_value,
    lemma_split_join, lemma_split_lacks, pow16, split_on, split_once, unsigned_from_str,
};
use crate::uri::{
    apply_key_value, apply_param, apply_params, baud_param, data_bits_of, data_param,
    eq_ignore_case, flow_control_of, flow_param, hex_u16_of, key_value, lower_code, opt_seq,
    parity_of, parity_param, pid_param, serial_param, stop_bits_of, stop_param, strip_hex_prefix,
    vid_param, defaults, is_canonical, line_params, parse_spec, scheme, uri_params, uri_text,
    usb_params, ParseUriErrorView, SerialUriView,
};
use vstd::prelude::*;

verus! {

/// A key without `=`, then `=`, then a value, splits back into the two.
proof fn lemma_key_value_of(key: Seq<char>, value: Seq<char>)
    requires
        lacks(key, '='),
    ensures
        key_value(key + seq!['='] + value) == (key, value),
{
    let pair = key + seq!['='] + value;
    lemma_first_index_after(key, '=', value);
    assert(pair.take(key.len() as int) =~= key);
    assert(pair.skip(key.len() as int + 1) =~= value);
}

/// Applying a concatenation of pair lists applies the first list, then the second.
pub(crate) proof fn lemma_apply_params_append(acc: SerialUriView, a: Seq<Seq<char>>, b: Seq<Seq<char>>)
    ensures
        apply_params(acc, a + b) == match apply_params(acc, a) {
            Ok(next) => apply_params(next, b),
            Err(e) => Err(e),
        },
    decreases a.len(),
{
    if a.len() == 0 {
        assert(a + b =~= b);
    } else {
        assert((a + b).drop_first() =~= a.drop_first() + b);
        assert((a + b)[0] == a[0]);
        if a[0].len() == 0 {
            lemma_apply_params_append(acc, a.drop_first(), b);
        } else {
            match apply_param(acc, a[0]) {
                Ok(next) => lemma_apply_params_append(next, a.drop_first(), b),
                Err(_) => {},
            }
        }
    }
}

/// A list of one non-empty pair applies that pair.
proof fn lemma_apply_single(acc: SerialUriView, p: Seq<char>)
    requires
        p.len() > 0,
    ensures
        apply_params(acc, seq![p]) == apply_param(acc, p),
{
    assert(seq![p].drop_first() =~= Seq::<Seq<char>>::empty());
    if let Ok(next) = apply_param(acc, p) {
        assert(apply_params(next, Seq::<Seq<char>>::empty()) == Ok::<
            SerialUriView,
            crate::uri::ParseUriErrorView,
        >(next));
    }
}

/// Four padded hex digits read back as the 16-bit value they were written from.
proof fn lemma_hex4_reads(v: u16)
    ensures
        hex_u16_of("0x"@ + hex_padded(v as nat, 4)) == Ok::<u16, Seq<char>>(v),
        lacks(hex_padded(v as nat, 4), '&'),
{
    reveal_with_fuel(pow16, 5);
    assert(pow16(4) == 65536);
    lemma_hex_padded_value(v as nat, 4);
    reveal_strlit("0x");
    let h = hex_padded(v as nat, 4);
    let value = "0x"@ + h;
    assert(value.skip(2) =~= h);
    assert(strip_hex_prefix(value) == h);
    assert(h[0] != '+');
    assert(unsigned_from_str(h, 16, 0xffff) == Some(v as nat));
}

/// The `vid` parameter that `to_uri` writes sets the vendor ID.
proof fn lemma_vid_piece(acc: SerialUriView, u: SerialUriView)
    requires
        acc.vid is None,
    ensures
        apply_params(acc, opt_seq(vid_param(u))) == Ok::<SerialUriView, crate::uri::ParseUriErrorView>(
            SerialUriView { vid: u.vid, ..acc },
        ),
{
    match u.vid {
        Some(v) => {
            reveal_strlit("vid=0x");
            reveal_strlit("vid");
            reveal_strlit("0x");
            reveal_strlit("baud");
            reveal_strlit("baud_rate");
            reveal_strlit("parity");
            reveal_strlit("data");
            reveal_strlit("stop");
            reveal_strlit("flow");
            let h = hex_padded(v as nat, 4);
            let pair = "vid=0x"@ + h;
            assert(pair =~= "vid"@ + seq!['='] + ("0x"@ + h));
            lemma_key_value_of("vid"@, "0x"@ + h);
            lemma_hex4_reads(v);
            lemma_apply_single(acc, pair);
            assert(apply_key_value(acc, "vid"@, "0x"@ + h) == Ok::<
                SerialUriView,
                crate::uri::ParseUriErrorView,
            >(SerialUriView { vid: Some(v), ..acc }));
        },
        None => {
            assert(opt_seq(vid_param(u)) =~= Seq::<Seq<char>>::empty());
        },
    }
}

/// The `pid` parameter that `to_uri` writes sets the product ID.
proof fn lemma_pid_piece(acc: SerialUriView, u: SerialUriView)
    requires
        acc.pid is None,
    ensures
        apply_params(acc, opt_seq(pid_param(u))) == Ok::<SerialUriView, ParseUriErrorView>(
            SerialUriView { pid: u.pid, ..acc },
        ),
{
    match u.pid {
        Some(v) => {
            reveal_strlit("pid=0x");
            reveal_strlit("pid");
            reveal_strlit("0x");
            reveal_strlit("baud");
            reveal_strlit("baud_rate");
            reveal_strlit("parity");
            reveal_strlit("data");
            reveal_strlit("stop");
            reveal_strlit("flow");
            reveal_strlit("vid");
            let h = hex_padded(v as nat, 4);
            let pair = "pid=0x"@ + h;
            assert(pair =~= "pid"@ + seq!['='] + ("0x"@ + h));
            lemma_key_value_of("pid"@, "0x"@ + h);
            lemma_hex4_reads(v);
            lemma_apply_single(acc, pair);
            assert(apply_key_value(acc, "pid"@, "0x"@ + h) == Ok::<
                SerialUriView,
                ParseUriErrorView,
            >(SerialUriView { pid: Some(v), ..acc }));
        },
        None => {
            assert(opt_seq(pid_param(u)) =~= Seq::<Seq<char>>::empty());
        },
    }
}

/// The `serial` parameter that `to_uri` writes sets the USB serial number.
proof fn lemma_serial_piece(acc: SerialUriView, u: SerialUriView)
    requires
        acc.usb_serial is None,
    ensures
        apply_params(acc, opt_seq(serial_param(u))) == Ok::<SerialUriView, ParseUriErrorView>(
            SerialUriView { usb_serial: u.usb_serial, ..acc },
        ),
{
    match u.usb_serial {
        Some(sn) => {
            reveal_strlit("serial=");
            reveal_strlit("serial");
            reveal_strlit("baud");
            reveal_strlit("baud_rate");
            reveal_strlit("parity");
            reveal_strlit("data");
            reveal_strlit("stop");
            reveal_strlit("flow");
            reveal_strlit("vid");
            reveal_strlit("pid");
            let pair = "serial="@ + sn;
            assert(pair =~= "serial"@ + seq!['='] + sn);
            lemma_key_value_of("serial"@, sn);
            lemma_apply_single(acc, pair);
            assert(apply_key_value(acc, "serial"@, sn) == Ok::<SerialUriView, ParseUriErrorView>(
                SerialUriView { usb_serial: Some(sn), ..acc },
            ));
        },
        None => {
            assert(opt_seq(serial_param(u)) =~= Seq::<Seq<char>>::empty());
        },
    }
}

/// Decimal notation of a 32-bit value reads back as that value.
proof fn lemma_decimal_reads(b: u32)
    ensures
        unsigned_from_str(decimal(b as nat), 10, 0xffff_ffff) == Some(b as nat),
        lacks(decimal(b as nat), '&'),
{
    lemma_decimal_value(b as nat);
    let d = decimal(b as nat);
    assert(d[0] != '+');
}

/// The `baud` parameter that `to_uri` writes sets the baud rate.
proof fn lemma_baud_piece(acc: SerialUriView, u: SerialUriView)
    requires
        acc.baud_rate == 9600,
    ensures
        apply_params(acc, opt_seq(baud_param(u))) == Ok::<SerialUriView, ParseUriErrorView>(
            SerialUriView { baud_rate: u.baud_rate, ..acc },
        ),
{
    if u.baud_rate != 9600 {
        reveal_strlit("baud=");
        reveal_strlit("baud");
        let d = decimal(u.baud_rate as nat);
        let pair = "baud="@ + d;
        assert(pair =~= "baud"@ + seq!['='] + d);
        lemma_key_value_of("baud"@, d);
        lemma_decimal_reads(u.baud_rate);
        lemma_apply_single(acc, pair);
        assert(apply_key_value(acc, "baud"@, d) == Ok::<SerialUriView, ParseUriErrorView>(
            SerialUriView { baud_rate: u.baud_rate, ..acc },
        ));
    } else {
        assert(opt_seq(baud_param(u)) =~= Seq::<Seq<char>>::empty());
    }
}

/// The `parity` parameter that `to_uri` writes sets the parity.
proof fn lemma_parity_piece(acc: SerialUriView, u: SerialUriView)
    requires
        acc.parity == Parity::NoParity,
    ensures
        apply_params(acc, opt_seq(parity_param(u))) == Ok::<SerialUriView, ParseUriErrorView>(
            SerialUriView { parity: u.parity, ..acc },
        ),
{
    reveal_strlit("parity=e");
    reveal_strlit("parity=o");
    reveal_strlit("parity");
    reveal_strlit("baud");
    reveal_strlit("baud_rate");
    reveal_strlit("e");
    reveal_strlit("o");
    reveal_strlit("n");
    reveal_strlit("none");
    reveal_strlit("even");
    match u.parity {
        Parity::NoParity => {
            assert(opt_seq(parity_param(u)) =~= Seq::<Seq<char>>::empty());
        },
        Parity::Even => {
            let pair = "parity=e"@;
            assert(pair =~= "parity"@ + seq!['='] + "e"@);
            lemma_key_value_of("parity"@, "e"@);
            lemma_apply_single(acc, pair);
            assert(lower_code("e"@[0]) != "n"@[0] as int);
            assert(!eq_ignore_case("e"@, "n"@));
            assert(!eq_ignore_case("e"@, "none"@));
            assert(eq_ignore_case("e"@, "e"@));
            assert(parity_of("e"@) == Ok::<Parity, Seq<char>>(Parity::Even));
        },
        Parity::Odd => {
            let pair = "parity=o"@;
            assert(pair =~= "parity"@ + seq!['='] + "o"@);
            lemma_key_value_of("parity"@, "o"@);
            lemma_apply_single(acc, pair);
            assert(lower_code("o"@[0]) != "n"@[0] as int);
            assert(lower_code("o"@[0]) != "e"@[0] as int);
            assert(!eq_ignore_case("o"@, "n"@));
            assert(!eq_ignore_case("o"@, "none"@));
            assert(!eq_ignore_case("o"@, "e"@));
            assert(!eq_ignore_case("o"@, "even"@));
            assert(eq_ignore_case("o"@, "o"@));
            assert(parity_of("o"@) == Ok::<Parity, Seq<char>>(Parity::Odd));
        },
    }
}

/// The `data` parameter that `to_uri` writes sets the data bits.
proof fn lemma_data_piece(acc: SerialUriView, u: SerialUriView)
    requires
        acc.data_bits == DataBits::Eight,
    ensures
        apply_params(acc, opt_seq(data_param(u))) == Ok::<SerialUriView, ParseUriErrorView>(
            SerialUriView { data_bits: u.data_bits, ..acc },
        ),
{
    reveal_strlit("data=5");
    reveal_strlit("data=6");
    reveal_strlit("data=7");
    reveal_strlit("data");
    reveal_strlit("baud");
    reveal_strlit("baud_rate");
    reveal_strlit("parity");
    reveal_strlit("5");
    reveal_strlit("6");
    reveal_strlit("7");
    match u.data_bits {
        DataBits::Eight => {
            assert(opt_seq(data_param(u)) =~= Seq::<Seq<char>>::empty());
        },
        DataBits::Five => {
            let pair = "data=5"@;
            assert(pair =~= "data"@ + seq!['='] + "5"@);
            lemma_key_value_of("data"@, "5"@);
            lemma_apply_single(acc, pair);
            assert(data_bits_of("5"@) == Ok::<DataBits, Seq<char>>(DataBits::Five));
        },
        DataBits::Six => {
            let pair = "data=6"@;
            assert(pair =~= "data"@ + seq!['='] + "6"@);
            lemma_key_value_of("data"@, "6"@);
            lemma_apply_single(acc, pair);
            assert("6"@[0] != "5"@[0]);
            assert(data_bits_of("6"@) == Ok::<DataBits, Seq<char>>(DataBits::Six));
        },
        DataBits::Seven => {
            let pair = "data=7"@;
            assert(pair =~= "data"@ + seq!['='] + "7"@);
            lemma_key_value_of("data"@, "7"@);
            lemma_apply_single(acc, pair);
            assert("7"@[0] != "5"@[0]);
            assert("7"@[0] != "6"@[0]);
            assert(data_bits_of("7"@) == Ok::<DataBits, Seq<char>>(DataBits::Seven));
        },
    }
}

/// The `stop` parameter that `to_uri` writes sets the stop bits.
proof fn lemma_stop_piece(acc: SerialUriView, u: SerialUriView)
    requires
        acc.stop_bits == StopBits::One,
    ensures
        apply_params(acc, opt_seq(stop_param(u))) == Ok::<SerialUriView, ParseUriErrorView>(
            SerialUriView { stop_bits: u.stop_bits, ..acc },
        ),
{
    reveal_strlit("stop=2");
    reveal_strlit("stop");
    reveal_strlit("baud");
    reveal_strlit("baud_rate");
    reveal_strlit("parity");
    reveal_strlit("data");
    reveal_strlit("1");
    reveal_strlit("2");
    match u.stop_bits {
        StopBits::One => {
            assert(opt_seq(stop_param(u)) =~= Seq::<Seq<char>>::empty());
        },
        StopBits::Two => {
            let pair = "stop=2"@;
            assert(pair =~= "stop"@ + seq!['='] + "2"@);
            lemma_key_value_of("stop"@, "2"@);
            lemma_apply_single(acc, pair);
            assert("2"@[0] != "1"@[0]);
            assert(stop_bits_of("2"@) == Ok::<StopBits, Seq<char>>(StopBits::Two));
        },
    }
}

/// The `flow` parameter that `to_uri` writes sets the flow control.
proof fn lemma_flow_piece(acc: SerialUriView, u: SerialUriView)
    requires
        acc.flow_control == FlowControl::NoFlowControl,
    ensures
        apply_params(acc, opt_seq(flow_param(u))) == Ok::<SerialUriView, ParseUriErrorView>(
            SerialUriView { flow_control: u.flow_control, ..acc },
        ),
{
    reveal_strlit("flow=hw");
    reveal_strlit("flow=sw");
    reveal_strlit("flow");
    reveal_strlit("baud");
    reveal_strlit("baud_rate");
    reveal_strlit("parity");
    reveal_strlit("data");
    reveal_strlit("stop");
    reveal_strlit("hw");
    reveal_strlit("sw");
    reveal_strlit("none");
    reveal_strlit("hardware");
    match u.flow_control {
        FlowControl::NoFlowControl => {
            assert(opt_seq(flow_param(u)) =~= Seq::<Seq<char>>::empty());
        },
        FlowControl::Hardware => {
            let pair = "flow=hw"@;
            assert(pair =~= "flow"@ + seq!['='] + "hw"@);
            lemma_key_value_of("flow"@, "hw"@);
            lemma_apply_single(acc, pair);
            assert(!eq_ignore_case("hw"@, "none"@));
            assert(lower_code("hw"@[0]) == "hw"@[0] as int);
            assert(lower_code("hw"@[1]) == "hw"@[1] as int);
            assert(eq_ignore_case("hw"@, "hw"@));
            assert(flow_control_of("hw"@) == Ok::<FlowControl, Seq<char>>(FlowControl::Hardware));
        },
        FlowControl::Software => {
            let pair = "flow=sw"@;
            assert(pair =~= "flow"@ + seq!['='] + "sw"@);
            lemma_key_value_of("flow"@, "sw"@);
            lemma_apply_single(acc, pair);
            assert(!eq_ignore_case("sw"@, "none"@));
            assert(lower_code("sw"@[0]) != "hw"@[0] as int);
            assert(!eq_ignore_case("sw"@, "hw"@));
            assert(!eq_ignore_case("sw"@, "hardware"@));
            assert(lower_code("sw"@[0]) == "sw"@[0] as int);
            assert(lower_code("sw"@[1]) == "sw"@[1] as int);
            assert(eq_ignore_case("sw"@, "sw"@));
            assert(flow_control_of("sw"@) == Ok::<FlowControl, Seq<char>>(FlowControl::Software));
        },
    }
}

/// Applying every parameter that `to_uri` writes to the defaults gives back
/// the configuration.
proof fn lemma_params_apply(u: SerialUriView)
    ensures
        apply_params(defaults(u.port_name), uri_params(u)) == Ok::<
            SerialUriView,
            ParseUriErrorView,
        >(u),
{
    let a0 = defaults(u.port_name);
    let v = opt_seq(vid_param(u));
    let p = opt_seq(pid_param(u));
    let sn = opt_seq(serial_param(u));
    let b = opt_seq(baud_param(u));
    let pa = opt_seq(parity_param(u));
    let d = opt_seq(data_param(u));
    let st = opt_seq(stop_param(u));
    let f = opt_seq(flow_param(u));
    lemma_apply_params_append(a0, usb_params(u), line_params(u));
    lemma_apply_params_append(a0, v + p, sn);
    lemma_apply_params_append(a0, v, p);
    lemma_vid_piece(a0, u);
    let a1 = SerialUriView { vid: u.vid, ..a0 };
    lemma_pid_piece(a1, u);
    let a2 = SerialUriView { pid: u.pid, ..a1 };
    lemma_serial_piece(a2, u);
    let a3 = SerialUriView { usb_serial: u.usb_serial, ..a2 };
    lemma_apply_params_append(a3, b + pa + d + st, f);
    lemma_apply_params_append(a3, b + pa + d, st);
    lemma_apply_params_append(a3, b + pa, d);
    lemma_apply_params_append(a3, b, pa);
    lemma_baud_piece(a3, u);
    let a4 = SerialUriView { baud_rate: u.baud_rate, ..a3 };
    lemma_parity_piece(a4, u);
    let a5 = SerialUriView { parity: u.parity, ..a4 };
    lemma_data_piece(a5, u);
    let a6 = SerialUriView { data_bits: u.data_bits, ..a5 };
    lemma_stop_piece(a6, u);
    let a7 = SerialUriView { stop_bits: u.stop_bits, ..a6 };
    lemma_flow_piece(a7, u);
    let a8 = SerialUriView { flow_control: u.flow_control, ..a7 };
    assert(a8 == u);
}

/// Concatenating two sequences without `c` gives one without `c`.
proof fn lemma_lacks_concat(a: Seq<char>, b: Seq<char>, c: char)
    requires
        lacks(a, c),
        lacks(b, c),
    ensures
        lacks(a + b, c),
{
    assert forall|i: int| 0 <= i < (a + b).len() implies (a + b)[i] != c by {
        if i >= a.len() {
            assert((a + b)[i] == b[i - a.len()]);
        }
    }
}

/// A parameter list made of optional parameters without `&` has none.
proof fn lemma_opt_lacks(o: Option<Seq<char>>, c: char)
    requires
        o matches Some(x) ==> lacks(x, c),
    ensures
        all_lack(opt_seq(o), c),
{
}

/// Joining two parameter lists without `c` keeps them without `c`.
proof fn lemma_all_lack_concat(a: Seq<Seq<char>>, b: Seq<Seq<char>>, c: char)
    requires
        all_lack(a, c),
        all_lack(b, c),
    ensures
        all_lack(a + b, c),
{
    assert forall|i: int| 0 <= i < (a + b).len() implies lacks(#[trigger] (a + b)[i], c) by {
        if i < a.len() {
            assert((a + b)[i] == a[i]);
        } else {
            assert((a + b)[i] == b[i - a.len()]);
        }
    }
}

/// No parameter that `to_uri` writes for a canonical configuration holds `&`.
proof fn lemma_params_lack_amp(u: SerialUriView)
    requires
        is_canonical(u),
    ensures
        all_lack(uri_params(u), '&'),
{
    reveal_strlit("vid=0x");
    reveal_strlit("pid=0x");
    reveal_strlit("serial=");
    reveal_strlit("baud=");
    reveal_strlit("parity=e");
    reveal_strlit("parity=o");
    reveal_strlit("data=5");
    reveal_strlit("data=6");
    reveal_strlit("data=7");
    reveal_strlit("stop=2");
    reveal_strlit("flow=hw");
    reveal_strlit("flow=sw");
    if let Some(v) = u.vid {
        lemma_hex4_reads(v);
        lemma_lacks_concat("vid=0x"@, hex_padded(v as nat, 4), '&');
    }
    if let Some(p) = u.pid {
        lemma_hex4_reads(p);
        lemma_lacks_concat("pid=0x"@, hex_padded(p as nat, 4), '&');
    }
    if let Some(sn) = u.usb_serial {
        lemma_lacks_concat("serial="@, sn, '&');
    }
    if u.baud_rate != 9600 {
        lemma_decimal_reads(u.baud_rate);
        lemma_lacks_concat("baud="@, decimal(u.baud_rate as nat), '&');
    }
    lemma_opt_lacks(vid_param(u), '&');
    lemma_opt_lacks(pid_param(u), '&');
    lemma_opt_lacks(serial_param(u), '&');
    lemma_opt_lacks(baud_param(u), '&');
    lemma_opt_lacks(parity_param(u), '&');
    lemma_opt_lacks(data_param(u), '&');
    lemma_opt_lacks(stop_param(u), '&');
    lemma_opt_lacks(flow_param(u), '&');
    let v = opt_seq(vid_param(u));
    let p = opt_seq(pid_param(u));
    let sn = opt_seq(serial_param(u));
    let b = opt_seq(baud_param(u));
    let pa = opt_seq(parity_param(u));
    let d = opt_seq(data_param(u));
    let st = opt_seq(stop_param(u));
    let f = opt_seq(flow_param(u));
    lemma_all_lack_concat(v, p, '&');
    lemma_all_lack_concat(v + p, sn, '&');
    lemma_all_lack_concat(b, pa, '&');
    lemma_all_lack_concat(b + pa, d, '&');
    lemma_all_lack_concat(b + pa + d, st, '&');
    lemma_all_lack_concat(b + pa + d + st, f, '&');
    lemma_all_lack_concat(usb_params(u), line_params(u), '&');
}

/// The URI text of a canonical configuration parses back to that
/// configuration: `to_uri` output can be passed back to `parse`.
pub proof fn lemma_to_uri_parses_back(u: SerialUriView)
    requires
        is_canonical(u),
    ensures
        parse_spec(uri_text(u)) == Ok::<SerialUriView, ParseUriErrorView>(u),
{
    reveal_strlit("serial://");
    let port = match u.port_name {
        Some(p) => p,
        None => Seq::<char>::empty(),
    };
    let params = uri_params(u);
    let t = uri_text(u);
    assert(t.take(9) =~= scheme());
    let rest = t.skip(9);
    lemma_params_apply(u);
    if params.len() > 0 {
        let joined = join(params, '&');
        assert(rest =~= port + seq!['?'] + joined);
        lemma_first_index_after(port, '?', joined);
        assert(rest.take(port.len() as int) =~= port);
        assert(rest.skip(port.len() as int + 1) =~= joined);
        assert(split_once(rest, '?') == Some((port, joined)));
        lemma_params_lack_amp(u);
        lemma_split_join(params, '&');
    } else {
        assert(rest =~= port);
        lemma_first_index_none(port, '?');
        let empty = Seq::<char>::empty();
        lemma_first_index_none(empty, '&');
        assert(split_on(empty, '&') =~= seq![empty]);
        assert(seq![empty].drop_first() =~= Seq::<Seq<char>>::empty());
        assert(params =~= Seq::<Seq<char>>::empty());
    }
}

/// Dropping a prefix of a sequence without `c` leaves one without `c`.
proof fn lemma_lacks_skip(s: Seq<char>, k: int, c: char)
    requires
        lacks(s, c),
        0 <= k <= s.len(),
    ensures
        lacks(s.skip(k), c),
{
    assert forall|i: int| 0 <= i < s.skip(k).len() implies s.skip(k)[i] != c by {
        assert(s.skip(k)[i] == s[i + k]);
    }
}

/// Query pairs leave the port name alone, and set a USB serial number only
/// to a piece of a pair.
proof fn lemma_apply_params_shape(acc: SerialUriView, pairs: Seq<Seq<char>>)
    requires
        all_lack(pairs, '&'),
        acc.usb_serial matches Some(sn) ==> lacks(sn, '&'),
    ensures
        apply_params(acc, pairs) matches Ok(r) ==> {
            &&& r.port_name == acc.port_name
            &&& (r.usb_serial matches Some(sn) ==> lacks(sn, '&'))
        },
    decreases pairs.len(),
{
    if pairs.len() > 0 {
        let rest = pairs.drop_first();
        assert(all_lack(rest, '&')) by {
            assert forall|i: int| 0 <= i < rest.len() implies lacks(#[trigger] rest[i], '&') by {
                assert(rest[i] == pairs[i + 1]);
            }
        }
        let pair = pairs[0];
        assert(lacks(pair, '&'));
        if pair.len() == 0 {
            lemma_apply_params_shape(acc, rest);
        } else {
            lemma_first_index_of(pair, '=');
            match first_index_of(pair, '=') {
                Some(i) => lemma_lacks_skip(pair, i + 1, '&'),
                None => {},
            }
            assert(lacks(key_value(pair).1, '&'));
            match apply_param(acc, pair) {
                Ok(next) => {
                    assert(next.port_name == acc.port_name);
                    lemma_apply_params_shape(next, rest);
                },
                Err(_) => {},
            }
        }
    }
}

/// Whatever `parse` accepts is canonical.
pub proof fn lemma_parse_gives_canonical(s: Seq<char>)
    ensures
        parse_spec(s) matches Ok(u) ==> is_canonical(u),
{
    if s.len() >= scheme().len() && s.take(scheme().len() as int) == scheme() {
        let rest = s.skip(scheme().len() as int);
        lemma_first_index_of(rest, '?');
        let (path, query) = match split_once(rest, '?') {
            Some(pq) => pq,
            None => (rest, Seq::<char>::empty()),
        };
        assert(lacks(path, '?'));
        let port_name = if path.len() == 0 {
            None
        } else {
            Some(path)
        };
        lemma_split_lacks(query, '&');
        lemma_apply_params_shape(defaults(port_name), split_on(query, '&'));
    }
}

/// `to_uri` gives a normal form: the URI text of anything `parse` accepted
/// parses back to the same configuration.
pub proof fn lemma_parse_to_uri_fixpoint(s: Seq<char>)
    ensures
        parse_spec(s) matches Ok(u) ==> parse_spec(uri_text(u)) == Ok::<
            SerialUriView,
            ParseUriErrorView,
        >(u),
{
    lemma_parse_gives_canonical(s);
    if let Ok(u) = parse_spec(s) {
        lemma_to_uri_parses_back(u);
    }
}

} // verus!
