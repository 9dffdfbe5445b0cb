//! Laws of finding the port a URI names, and of the order of the port listing.

use crate::listing::{listing_order, listing_rank, with_rank};
use crate::ports::{port_views, PortInfo, PortInfoView};
use crate::uri::{
    no_port_message, resolve_outcome, scan_outcome, usb_description_spec, usb_search,
    ParseUriErrorView, SerialUriView,
};
use vstd::prelude::*;

verus! {

/// The port answers to every USB identifier the URI sets: it is a USB port,
/// and its vendor ID, its product ID and its serial number are exactly the
/// ones the URI gives, for each that it gives.
pub open spec fn answers_to(u: SerialUriView, port: PortInfoView) -> bool {
    &&& port.usb is Some
    &&& (u.vid matches Some(v) ==> port.usb->0.vid == v)
    &&& (u.pid matches Some(p) ==> port.usb->0.pid == p)
    &&& (u.usb_serial matches Some(s) ==> port.usb->0.serial_number == Some(s))
}

/// The USB lookup finds the first port that answers to the URI's USB
/// identifiers: a found name is that of a port answering to all of them
/// (so a port reporting another serial number is never taken), and no
/// earlier port answers; the lookup fails, with `PortNotFound` and the
/// description of the identifiers, exactly when no port answers.
pub proof fn lemma_usb_search_first_match(u: SerialUriView, ports: Seq<PortInfoView>)
    ensures
        match usb_search(u, ports) {
            Ok(name) => exists|i: int|
                0 <= i < ports.len() && ports[i].port_name == name && #[trigger] answers_to(
                    u,
                    ports[i],
                ) && forall|j: int| 0 <= j < i ==> !#[trigger] answers_to(u, ports[j]),
            Err(e) => e == ParseUriErrorView::PortNotFound(usb_description_spec(u)) && forall|
                i: int,
            | 0 <= i < ports.len() ==> !#[trigger] answers_to(u, ports[i]),
        },
    decreases ports.len(),
{
    if ports.len() > 0 {
        let rest = ports.drop_first();
        lemma_usb_search_first_match(u, rest);
        if !answers_to(u, ports[0]) {
            match usb_search(u, rest) {
                Ok(name) => {
                    let k = choose|k: int|
                        0 <= k < rest.len() && rest[k].port_name == name && #[trigger] answers_to(
                            u,
                            rest[k],
                        ) && forall|j: int| 0 <= j < k ==> !#[trigger] answers_to(u, rest[j]);
                    assert(ports[k + 1] == rest[k]);
                    assert forall|j: int| 0 <= j < k + 1 implies !#[trigger] answers_to(
                        u,
                        ports[j],
                    ) by {
                        if j > 0 {
                            assert(ports[j] == rest[j - 1]);
                        }
                    }
                },
                Err(_) => {
                    assert forall|i: int| 0 <= i < ports.len() implies !#[trigger] answers_to(
                        u,
                        ports[i],
                    ) by {
                        if i > 0 {
                            assert(ports[i] == rest[i - 1]);
                        }
                    }
                },
            }
        }
    }
}

/// Resolving a URI that sets a vendor ID or a product ID (either one is
/// enough) scans the ports, and gives either the name of a scanned port that
/// answers to all its USB identifiers, whatever port name the URI also
/// gives, or `PortNotFound`.  Only with neither ID set is the port name
/// given back, without a scan, and `PortNotFound` with its fixed message
/// when there is none.
pub proof fn lemma_resolve_port<F: FnOnce() -> Result<Vec<PortInfo>, String>>(
    u: SerialUriView,
    scan_ports: F,
    r: Result<Seq<char>, ParseUriErrorView>,
)
    requires
        resolve_outcome(u, scan_ports, r),
    ensures
        u.vid is Some || u.pid is Some ==> exists|scanned: Result<Vec<PortInfo>, String>|
            #[trigger] call_ensures(scan_ports, (), scanned) && match r {
                Ok(name) => scanned matches Ok(ports) && exists|i: int|
                    0 <= i < ports.len() && ports[i]@.port_name == name && #[trigger] answers_to(
                        u,
                        ports[i]@,
                    ),
                Err(e) => e is PortNotFound,
            },
        u.vid is None && u.pid is None ==> r == match u.port_name {
            Some(p) => Ok(p),
            None => Err(ParseUriErrorView::PortNotFound("no port name or USB identifiers provided"@)),
        },
{
    reveal_strlit("no port name or USB identifiers provided");
    assert(no_port_message() == "no port name or USB identifiers provided"@);
    if u.vid is Some || u.pid is Some {
        let scanned = choose|scanned: Result<Vec<PortInfo>, String>|
            call_ensures(scan_ports, (), scanned) && r == #[trigger] scan_outcome(u, scanned);
        if let Ok(ports) = scanned {
            let views = port_views(ports@);
            lemma_usb_search_first_match(u, views);
            if let Ok(name) = r {
                let i = choose|i: int|
                    0 <= i < views.len() && views[i].port_name == name && #[trigger] answers_to(
                        u,
                        views[i],
                    ) && forall|j: int| 0 <= j < i ==> !#[trigger] answers_to(u, views[j]);
                assert(views[i] == ports@[i]@);
                assert(ports[i]@ == views[i]);
            }
        }
    }
}

/// The ports of listing rank `r`: complete USB ports (0), other USB ports
/// (1), other ports (2).
pub open spec fn rank_is(r: int) -> spec_fn(PortInfoView) -> bool {
    |p: PortInfoView| listing_rank(p) == r
}

/// The ports of one rank are those of the input with that rank, in input order.
proof fn lemma_with_rank_is_filter(ports: Seq<PortInfoView>, r: int)
    ensures
        with_rank(ports, r) == ports.filter(rank_is(r)),
    decreases ports.len(),
{
    reveal(Seq::filter);
    if ports.len() > 0 {
        lemma_with_rank_is_filter(ports.drop_last(), r);
    }
}

/// Filtering the ports of one rank for another keeps all or nothing.
proof fn lemma_filter_rank_again(ports: Seq<PortInfoView>, r: int, q: int)
    ensures
        ports.filter(rank_is(r)).filter(rank_is(q)) == (if r == q {
            ports.filter(rank_is(r))
        } else {
            Seq::<PortInfoView>::empty()
        }),
    decreases ports.len(),
{
    reveal(Seq::filter);
    if ports.len() > 0 {
        lemma_filter_rank_again(ports.drop_last(), r, q);
        let f = ports.drop_last().filter(rank_is(r));
        if listing_rank(ports.last()) == r {
            assert(f.push(ports.last()).drop_last() =~= f);
        }
    }
    if r != q {
        assert(ports.filter(rank_is(r)).filter(rank_is(q)) =~= Seq::<PortInfoView>::empty());
    }
}

/// The port is a USB port that reports a non-empty serial number.
pub open spec fn fully_identified(p: PortInfoView) -> bool {
    p.usb matches Some(usb) && usb.serial_number matches Some(sn) && sn.len() > 0
}

/// The listing order is a stable sort by rank: complete USB ports first,
/// then the other USB ports, then the rest (ranks never decrease along the
/// listing), and for each rank the ports of that rank appear exactly as
/// they do in the input, in input order.  So the listing is a reordering
/// of the input.  Ports with full USB identifiers (a non-empty serial
/// number) all come before the others, and ports that are not USB ports
/// after all USB ports.
pub proof fn lemma_listing_order_stable(ports: Seq<PortInfoView>)
    ensures
        forall|r: int|
            #![trigger listing_order(ports).filter(rank_is(r))]
            listing_order(ports).filter(rank_is(r)) == ports.filter(rank_is(r)),
        forall|i: int, j: int|
            0 <= i < j < listing_order(ports).len() ==> listing_rank(listing_order(ports)[i])
                <= listing_rank(listing_order(ports)[j]),
        listing_order(ports).to_multiset() == ports.to_multiset(),
        forall|i: int, j: int|
            0 <= i < j < listing_order(ports).len() && fully_identified(listing_order(ports)[j])
                ==> fully_identified(listing_order(ports)[i]),
        forall|i: int, j: int|
            0 <= i < j < listing_order(ports).len() && listing_order(ports)[i].usb is None
                ==> listing_order(ports)[j].usb is None,
{
    broadcast use vstd::seq_lib::group_filter_ensures;

    let w0 = with_rank(ports, 0);
    let w1 = with_rank(ports, 1);
    let w2 = with_rank(ports, 2);
    lemma_with_rank_is_filter(ports, 0);
    lemma_with_rank_is_filter(ports, 1);
    lemma_with_rank_is_filter(ports, 2);
    let order = listing_order(ports);
    assert forall|r: int|
        #![trigger listing_order(ports).filter(rank_is(r))]
        listing_order(ports).filter(rank_is(r)) == ports.filter(rank_is(r)) by {
        Seq::filter_distributes_over_add(w0 + w1, w2, rank_is(r));
        Seq::filter_distributes_over_add(w0, w1, rank_is(r));
        lemma_filter_rank_again(ports, 0, r);
        lemma_filter_rank_again(ports, 1, r);
        lemma_filter_rank_again(ports, 2, r);
        lemma_rank_range(ports, r);
        if r == 0 {
            assert(order.filter(rank_is(r)) =~= w0);
        } else if r == 1 {
            assert(order.filter(rank_is(r)) =~= w1);
        } else if r == 2 {
            assert(order.filter(rank_is(r)) =~= w2);
        } else {
            assert(order.filter(rank_is(r)) =~= Seq::<PortInfoView>::empty());
        }
    }
    assert forall|i: int| 0 <= i < w0.len() implies listing_rank(#[trigger] w0[i]) == 0 by {
        assert(rank_is(0)(w0[i]));
    }
    assert forall|i: int| 0 <= i < w1.len() implies listing_rank(#[trigger] w1[i]) == 1 by {
        assert(rank_is(1)(w1[i]));
    }
    assert forall|i: int| 0 <= i < w2.len() implies listing_rank(#[trigger] w2[i]) == 2 by {
        assert(rank_is(2)(w2[i]));
    }
    assert forall|i: int, j: int| 0 <= i < j < order.len() implies listing_rank(order[i])
        <= listing_rank(order[j]) by {
        if i < w0.len() {
            assert(order[i] == w0[i]);
        } else if i < w0.len() + w1.len() {
            assert(order[i] == w1[i - w0.len()]);
            assert(j >= w0.len());
            if j < w0.len() + w1.len() {
                assert(order[j] == w1[j - w0.len()]);
            } else {
                assert(order[j] == w2[j - w0.len() - w1.len()]);
            }
        } else {
            assert(order[i] == w2[i - w0.len() - w1.len()]);
            assert(order[j] == w2[j - w0.len() - w1.len()]);
        }
    }
    lemma_listing_multiset(ports);
}

/// Every port has rank 0, 1 or 2, so no other rank selects any port.
proof fn lemma_rank_range(ports: Seq<PortInfoView>, r: int)
    ensures
        !(0 <= r <= 2) ==> ports.filter(rank_is(r)) =~= Seq::<PortInfoView>::empty(),
    decreases ports.len(),
{
    reveal(Seq::filter);
    if ports.len() > 0 {
        lemma_rank_range(ports.drop_last(), r);
    }
}

/// The three ranks together hold every port once.
proof fn lemma_listing_multiset(ports: Seq<PortInfoView>)
    ensures
        listing_order(ports).to_multiset() == ports.to_multiset(),
    decreases ports.len(),
{
    broadcast use vstd::seq_lib::group_to_multiset_ensures;

    if ports.len() > 0 {
        let pre = ports.drop_last();
        let p = ports.last();
        lemma_listing_multiset(pre);
        let (a0, a1, a2) = (with_rank(pre, 0), with_rank(pre, 1), with_rank(pre, 2));
        vstd::seq_lib::lemma_multiset_commutative(a0 + a1, a2);
        vstd::seq_lib::lemma_multiset_commutative(a0, a1);
        let (b0, b1, b2) = (with_rank(ports, 0), with_rank(ports, 1), with_rank(ports, 2));
        vstd::seq_lib::lemma_multiset_commutative(b0 + b1, b2);
        vstd::seq_lib::lemma_multiset_commutative(b0, b1);
        assert(ports =~= pre.push(p));
        if listing_rank(p) == 0 {
            assert(b0 == a0.push(p));
        } else if listing_rank(p) == 1 {
            assert(b1 == a1.push(p));
        } else {
            assert(b2 == a2.push(p));
        }
        assert(listing_order(ports).to_multiset() =~= ports.to_multiset());
    }
}

} // verus!
