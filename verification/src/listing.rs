//! The listing of the available serial ports and of their serial URIs.
//!
//! USB ports with complete identifiers (vendor ID, product ID and a
//! non-empty serial number) come first and get two URIs, one by port name
//! and one by USB identifiers; then the other USB ports; then the rest.

use crate::ports::{port_views, PortInfo, PortInfoView, UsbPortInfo, UsbPortInfoView};
use crate::text::{hex_padded, push_char, push_hex_padded, string_of};
use vstd::prelude::*;

verus! {

/// The USB port has a non-empty serial number (vendor and product IDs are
/// always present), so it can be written as a complete USB-identifier URI.
pub open spec fn complete_usb(usb: UsbPortInfoView) -> bool {
    usb.serial_number matches Some(sn) && sn.len() > 0
}

/// Whether the USB port has a vendor ID, a product ID and a non-empty serial
/// number.
pub fn has_complete_usb_info(usb: &UsbPortInfo) -> (res: bool)
    ensures
        res == complete_usb(usb@),
{
    match &usb.serial_number {
        Some(sn) => sn.as_str().unicode_len() > 0,
        None => false,
    }
}

/// Position of a port in the listing: complete USB ports (0), other USB
/// ports (1), other ports (2).
pub open spec fn listing_rank(port: PortInfoView) -> int {
    match port.usb {
        Some(usb) => if complete_usb(usb) {
            0
        } else {
            1
        },
        None => 2,
    }
}

/// The ports of the given rank, in their original order.
pub open spec fn with_rank(ports: Seq<PortInfoView>, rank: int) -> Seq<PortInfoView>
    decreases ports.len(),
{
    if ports.len() == 0 {
        ports
    } else if listing_rank(ports.last()) == rank {
        with_rank(ports.drop_last(), rank).push(ports.last())
    } else {
        with_rank(ports.drop_last(), rank)
    }
}

/// The ports in listing order: a stable sort by rank.
pub open spec fn listing_order(ports: Seq<PortInfoView>) -> Seq<PortInfoView> {
    with_rank(ports, 0) + with_rank(ports, 1) + with_rank(ports, 2)
}

/// The lines for one port: its name as a heading, its URI by name, its URI
/// by USB identifiers when they are complete, and an empty line.
pub open spec fn port_entry(port: PortInfoView) -> Seq<char> {
    let by_usb = match port.usb {
        Some(usb) => if complete_usb(usb) {
            "- serial://?vid=0x"@ + hex_padded(usb.vid as nat, 4) + "&pid=0x"@ + hex_padded(
                usb.pid as nat,
                4,
            ) + "&serial="@ + usb.serial_number->0 + "\n"@
        } else {
            Seq::empty()
        },
        None => Seq::empty(),
    };
    "# "@ + port.port_name + "\n"@ + "- serial://"@ + port.port_name + "\n"@ + by_usb + "\n"@
}

/// The entries of the ports, one after the other.
pub open spec fn entries(ports: Seq<PortInfoView>) -> Seq<char>
    decreases ports.len(),
{
    if ports.len() == 0 {
        Seq::empty()
    } else {
        entries(ports.drop_last()) + port_entry(ports.last())
    }
}

/// The text of the listing.
pub open spec fn listing_text(ports: Seq<PortInfoView>) -> Seq<char> {
    if ports.len() == 0 {
        "No serial ports found.\n"@
    } else {
        entries(listing_order(ports))
    }
}

/// Appends the entry of one port.
fn push_entry(out: &mut String, port: &PortInfo)
    ensures
        final(out)@ == old(out)@ + port_entry(port@),
{
    out.append("# ");
    out.append(port.port_name.as_str());
    out.append("\n- serial://");
    out.append(port.port_name.as_str());
    push_char(out, '\n');
    let ghost before_usb = out@;
    if let Some(usb) = &port.usb {
        if has_complete_usb_info(usb) {
            out.append("- serial://?vid=0x");
            push_hex_padded(out, usb.vid as u32, 4);
            out.append("&pid=0x");
            push_hex_padded(out, usb.pid as u32, 4);
            out.append("&serial=");
            match &usb.serial_number {
                Some(sn) => out.append(sn.as_str()),
                None => {},
            }
            push_char(out, '\n');
        }
    }
    push_char(out, '\n');
    proof {
        reveal_strlit("\n- serial://");
        reveal_strlit("- serial://");
        reveal_strlit("\n");
        assert("\n- serial://"@ =~= "\n"@ + "- serial://"@);
        assert(out@ =~= old(out)@ + port_entry(port@));
    }
}

/// Appends the entries of the ports of one rank, in their original order.
fn push_rank(out: &mut String, ports: &Vec<PortInfo>, rank: u8)
    requires
        rank <= 2,
    ensures
        final(out)@ == old(out)@ + entries(with_rank(port_views(ports@), rank as int)),
{
    let ghost views = port_views(ports@);
    let n = ports.len();
    let mut i: usize = 0;
    assert(views.take(0) =~= Seq::<PortInfoView>::empty());
    while i < n
        invariant
            i <= n,
            n == ports@.len(),
            views == port_views(ports@),
            rank <= 2,
            out@ == old(out)@ + entries(with_rank(views.take(i as int), rank as int)),
        decreases n - i,
    {
        let port = &ports[i];
        let ghost prefix = views.take(i + 1);
        assert(prefix.drop_last() =~= views.take(i as int));
        assert(prefix.last() == port@);
        let r: u8 = match &port.usb {
            Some(usb) => if has_complete_usb_info(usb) {
                0
            } else {
                1
            },
            None => 2,
        };
        assert(r as int == listing_rank(port@));
        if r == rank {
            push_entry(out, port);
            assert(with_rank(prefix, rank as int) == with_rank(views.take(i as int), rank as int).push(port@));
            let ghost w = with_rank(views.take(i as int), rank as int);
            assert(w.push(port@).drop_last() =~= w);
        }
        i = i + 1;
    }
    assert(views.take(n as int) =~= views);
}

/// `entries` of a concatenation is the concatenation of the entries.
proof fn lemma_entries_append(a: Seq<PortInfoView>, b: Seq<PortInfoView>)
    ensures
        entries(a + b) == entries(a) + entries(b),
    decreases b.len(),
{
    if b.len() == 0 {
        assert(a + b =~= a);
        assert(entries(a) + entries(b) =~= entries(a));
    } else {
        lemma_entries_append(a, b.drop_last());
        assert((a + b).drop_last() =~= a + b.drop_last());
        assert((a + b).last() == b.last());
        assert(entries(a + b) =~= entries(a) + entries(b));
    }
}

/// The listing of the ports: `No serial ports found.` when there are none,
/// otherwise the entries in listing order.
pub fn port_listing(ports: &Vec<PortInfo>) -> (res: String)
    ensures
        res@ == listing_text(port_views(ports@)),
{
    if ports.len() == 0 {
        return string_of("No serial ports found.\n");
    }
    let mut out = String::new();
    push_rank(&mut out, ports, 0);
    push_rank(&mut out, ports, 1);
    push_rank(&mut out, ports, 2);
    proof {
        let views = port_views(ports@);
        lemma_entries_append(with_rank(views, 0), with_rank(views, 1));
        lemma_entries_append(with_rank(views, 0) + with_rank(views, 1), with_rank(views, 2));
        assert(out@ =~= listing_text(views));
    }
    out
}

} // verus!
