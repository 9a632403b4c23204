//! Network addresses as plain values, and the text of a peer's relay address.
use crate::text;
use vstd::prelude::*;

verus! {

/// An IPv4 address: its four octets, from left to right.
#[derive(Clone, Copy, Debug, PartialEq, Eq, Structural)]
pub struct Ipv4 {
    pub a: u8,
    pub b: u8,
    pub c: u8,
    pub d: u8,
}

/// A socket address. The segments of an IPv6 address stand from left to right.
#[derive(Clone, Copy, Debug)]
pub enum Endpoint {
    V4 { ip: Ipv4, port: u16 },
    V6 { segments: [u16; 8], port: u16, flowinfo: u32, scope_id: u32 },
}

impl Endpoint {
    /// The port of the address.
    pub open spec fn port_of(self) -> u16 {
        match self {
            Endpoint::V4 { port, .. } => port,
            Endpoint::V6 { port, .. } => port,
        }
    }

    /// The port of the address.
    pub fn port(&self) -> (port: u16)
        ensures
            port == self.port_of(),
            self matches Endpoint::V4 { port: p, .. } ==> port == p,
            self matches Endpoint::V6 { port: p, .. } ==> port == p,
    {
        match *self {
            Endpoint::V4 { port, .. } => port,
            Endpoint::V6 { port, .. } => port,
        }
    }
}

/// The IPv4 address and port of a peer.
#[derive(Clone, Copy, Debug, PartialEq, Eq, Structural)]
pub struct PeerAddr {
    pub ip: Ipv4,
    pub port: u16,
}

impl Ipv4 {
    /// The address in dotted decimal.
    pub open spec fn text(self) -> Seq<char> {
        text::decimal(self.a as nat) + "."@ + text::decimal(self.b as nat) + "."@ + text::decimal(self.c as nat) + "."@
            + text::decimal(self.d as nat)
    }
}

impl PeerAddr {
    /// The websocket address of a relay at this address: `ws://`, the IP address in dotted
    /// decimal, a colon and the port.
    pub open spec fn ws_text(self) -> Seq<char> {
        "ws://"@ + self.ip.text() + ":"@ + text::decimal(self.port as nat)
    }

    /// The websocket address of a relay at this address.
    pub fn ws_address(&self) -> (address: String)
        ensures
            address@ == self.ws_text(),
            address@ == "ws://"@ + text::decimal(self.ip.a as nat) + "."@ + text::decimal(self.ip.b as nat) + "."@
                + text::decimal(self.ip.c as nat) + "."@ + text::decimal(self.ip.d as nat) + ":"@ + text::decimal(
                self.port as nat,
            ),
    {
        let mut out: String = String::new();
        out.append("ws://");
        text::push_decimal(&mut out, self.ip.a as u16);
        out.append(".");
        text::push_decimal(&mut out, self.ip.b as u16);
        out.append(".");
        text::push_decimal(&mut out, self.ip.c as u16);
        out.append(".");
        text::push_decimal(&mut out, self.ip.d as u16);
        out.append(":");
        text::push_decimal(&mut out, self.port);
        assert(out@ =~= self.ws_text());
        out
    }
}

/// Where a number is followed by a separator, the number and what follows can be told
/// apart: equal texts have equal numbers and equal remainders.
proof fn split_is_unique(m: nat, n: nat, sep: char, rest_m: Seq<char>, rest_n: Seq<char>)
    requires
        sep == '.' || sep == ':',
        text::decimal(m) + seq![sep] + rest_m == text::decimal(n) + seq![sep] + rest_n,
    ensures
        m == n,
        rest_m == rest_n,
{
    let s = text::decimal(m) + seq![sep] + rest_m;
    let t = text::decimal(n) + seq![sep] + rest_n;
    let i = text::decimal(m).len() as int;
    let j = text::decimal(n).len() as int;
    assert(s[i] == sep);
    assert(t[j] == sep);
    if i < j {
        text::decimal_holds_digits(n, i);
        assert(t[i] == text::decimal(n)[i]);
    }
    if j < i {
        text::decimal_holds_digits(m, j);
        assert(s[j] == text::decimal(m)[j]);
    }
    assert(s.subrange(0, i) =~= text::decimal(m));
    assert(t.subrange(0, i) =~= text::decimal(n));
    text::decimal_is_injective(m, n);
    assert(s.subrange(i + 1, s.len() as int) =~= rest_m);
    assert(t.subrange(i + 1, t.len() as int) =~= rest_n);
}

/// The parts of a websocket address, grouped from the right.
proof fn regroup(w: Seq<char>, a: Seq<char>, b: Seq<char>, c: Seq<char>, d: Seq<char>, p: Seq<char>, dot: Seq<char>, colon: Seq<char>)
    ensures
        w + (a + dot + b + dot + c + dot + d) + colon + p == w + (a + dot + (b + dot + (c + dot + (d + colon + p)))),
{
    assert(a + dot + b + dot + c + dot + d =~= a + dot + (b + dot + (c + dot + d)));
    assert(w + (a + dot + (b + dot + (c + dot + d))) + colon + p =~= w + (a + dot + (b + dot + (c + dot + (d
        + colon + p)))));
}

/// Peers at different addresses have different websocket addresses.
pub proof fn ws_text_is_injective(x: PeerAddr, y: PeerAddr)
    requires
        x.ws_text() == y.ws_text(),
    ensures
        x == y,
{
    reveal_strlit(".");
    reveal_strlit(":");
    let dot = "."@;
    let colon = ":"@;
    let w = "ws://"@;
    let (xa, ya) = (text::decimal(x.ip.a as nat), text::decimal(y.ip.a as nat));
    let (xb, yb) = (text::decimal(x.ip.b as nat), text::decimal(y.ip.b as nat));
    let (xc, yc) = (text::decimal(x.ip.c as nat), text::decimal(y.ip.c as nat));
    let (xd, yd) = (text::decimal(x.ip.d as nat), text::decimal(y.ip.d as nat));
    let (xp, yp) = (text::decimal(x.port as nat), text::decimal(y.port as nat));
    regroup(w, xa, xb, xc, xd, xp, dot, colon);
    regroup(w, ya, yb, yc, yd, yp, dot, colon);
    let (x3, y3) = (xd + colon + xp, yd + colon + yp);
    let (x2, y2) = (xc + dot + x3, yc + dot + y3);
    let (x1, y1) = (xb + dot + x2, yb + dot + y2);
    let (x0, y0) = (xa + dot + x1, ya + dot + y1);
    assert(dot =~= seq!['.']);
    assert(colon =~= seq![':']);
    common_prefix(w, x0, y0);
    split_is_unique(x.ip.a as nat, y.ip.a as nat, '.', x1, y1);
    split_is_unique(x.ip.b as nat, y.ip.b as nat, '.', x2, y2);
    split_is_unique(x.ip.c as nat, y.ip.c as nat, '.', x3, y3);
    split_is_unique(x.ip.d as nat, y.ip.d as nat, ':', xp, yp);
    text::decimal_is_injective(x.port as nat, y.port as nat);
}

proof fn common_prefix(w: Seq<char>, x: Seq<char>, y: Seq<char>)
    requires
        w + x == w + y,
    ensures
        x == y,
{
    let n = w.len() as int;
    assert((w + x).subrange(n, (w + x).len() as int) =~= x);
    assert((w + y).subrange(n, (w + y).len() as int) =~= y);
}

} // verus!
