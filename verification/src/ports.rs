//! Which port the server runs on: the configured default, the probe that
//! recognises a running DSH page, and the scan for a free port.

use vstd::prelude::*;

use crate::text::{
    all_digits, chars_of, contains_seq, decimal, digits_value, find, is_digit, lemma_decimal_digits,
    parse_u16, parse_u16_text,
};

verus! {

/// The port tried first when no valid port is configured.
pub const DEFAULT_PORT: u16 = 3080;

/// How long a probe of a port may take to connect, read or write, in milliseconds.
pub const PROBE_TIMEOUT_MS: u64 = 800;

/// How much of a probed page is read at most, in bytes.
pub const PROBE_READ_LIMIT: usize = 65536;

/// The text that a DSH web page carries and other pages do not.
pub open spec fn dsh_marker() -> Seq<char> {
    "__DSH_BOOT__"@
}

/// The port that a `DSH_DESKTOP_PORT` value selects: a valid non-zero `u16`
/// is taken as it is; anything else, or no value, selects `DEFAULT_PORT`.
pub open spec fn port_setting(value: Option<Seq<char>>) -> u16 {
    match value {
        Some(text) => match parse_u16(text) {
            Some(p) => if p > 0 {
                p
            } else {
                DEFAULT_PORT
            },
            None => DEFAULT_PORT,
        },
        None => DEFAULT_PORT,
    }
}

/// The view of an optional string.
pub open spec fn opt_view(s: Option<String>) -> Option<Seq<char>> {
    match s {
        Some(t) => Some(t@),
        None => None,
    }
}

/// The preferred port, from the value of `DSH_DESKTOP_PORT` if it is set.
pub fn port_from_setting(value: &Option<String>) -> (port: u16)
    ensures
        port == port_setting(opt_view(*value)),
        port > 0,
{
    match value {
        Some(text) => match parse_u16_text(text.as_str()) {
            Some(p) => if p > 0 {
                p
            } else {
                DEFAULT_PORT
            },
            None => DEFAULT_PORT,
        },
        None => DEFAULT_PORT,
    }
}

/// The request a probe sends: a plain `GET /` that asks the server to close
/// the connection after answering.
pub fn probe_request() -> (r: &'static str)
    ensures
        r@ == "GET / HTTP/1.1\r\nHost: 127.0.0.1\r\nConnection: close\r\n\r\n"@,
{
    "GET / HTTP/1.1\r\nHost: 127.0.0.1\r\nConnection: close\r\n\r\n"
}

/// Whether a page served on a port is the DSH web UI: it carries the DSH marker.
pub fn page_is_dsh(body: &str) -> (b: bool)
    ensures
        b == contains_seq(body@, dsh_marker()),
{
    let cs = chars_of(body);
    let marker = chars_of("__DSH_BOOT__");
    let r = find(&cs, &marker);
    match r {
        Some(_) => true,
        None => false,
    }
}

/// One step of the scan for a free port.
#[derive(Debug, Clone, Copy, PartialEq, Eq, Structural)]
pub enum PortScan {
    /// The candidate is free: it is the answer.
    Found(u16),
    /// The candidate is in use: probe this port next.
    Next(u16),
    /// The candidate is in use and it is the last port.
    Exhausted,
}

/// The step that the scan takes after probing `candidate`.
pub open spec fn scan_step(candidate: u16, in_use: bool) -> PortScan {
    if !in_use {
        PortScan::Found(candidate)
    } else if candidate == u16::MAX {
        PortScan::Exhausted
    } else {
        PortScan::Next((candidate + 1) as u16)
    }
}

/// Decides the scan for a free port after `candidate` was probed: a free
/// candidate is the answer, otherwise the next port is tried, up to the last.
pub fn find_free_port_step(candidate: u16, in_use: bool) -> (step: PortScan)
    ensures
        step == scan_step(candidate, in_use),
{
    if !in_use {
        PortScan::Found(candidate)
    } else if candidate == u16::MAX {
        PortScan::Exhausted
    } else {
        PortScan::Next(candidate + 1)
    }
}

/// Where repeated steps lead, from `candidate`, when `in_use` tells which
/// ports are taken.
pub open spec fn scan_from(candidate: u16, in_use: spec_fn(u16) -> bool) -> Option<u16>
    decreases u16::MAX - candidate,
{
    match scan_step(candidate, in_use(candidate)) {
        PortScan::Found(p) => Some(p),
        PortScan::Exhausted => None,
        PortScan::Next(q) => if q > candidate {
            scan_from(q, in_use)
        } else {
            None
        },
    }
}

/// `p` is the first port at or after `start` that is not in use.
pub open spec fn is_first_free(start: u16, in_use: spec_fn(u16) -> bool, p: u16) -> bool {
    &&& start <= p
    &&& !in_use(p)
    &&& forall|q: u16| start <= q < p ==> #[trigger] in_use(q)
}

/// The first port at or after `start` that is not in use, if there is one.
pub open spec fn first_free_port(start: u16, in_use: spec_fn(u16) -> bool) -> Option<u16> {
    if exists|p: u16| #[trigger] is_first_free(start, in_use, p) {
        Some(choose|p: u16| #[trigger] is_first_free(start, in_use, p))
    } else {
        None
    }
}

proof fn lemma_first_free_unique(start: u16, in_use: spec_fn(u16) -> bool, p1: u16, p2: u16)
    requires
        is_first_free(start, in_use, p1),
        is_first_free(start, in_use, p2),
    ensures
        p1 == p2,
{
    if p1 < p2 {
        assert(in_use(p1));
    }
    if p2 < p1 {
        assert(in_use(p2));
    }
}

proof fn lemma_first_free_is(start: u16, in_use: spec_fn(u16) -> bool, p: u16)
    requires
        is_first_free(start, in_use, p),
    ensures
        first_free_port(start, in_use) == Some(p),
{
    let c = choose|p: u16| #[trigger] is_first_free(start, in_use, p);
    lemma_first_free_unique(start, in_use, p, c);
}

/// The exact meaning of `first_free_port` being `None`: every port from `start` on is in use.
proof fn lemma_no_first_free(start: u16, in_use: spec_fn(u16) -> bool)
    requires
        first_free_port(start, in_use) is None,
    ensures
        forall|p: u16| start <= p ==> #[trigger] in_use(p),
    decreases u16::MAX - start,
{
    if !in_use(start) {
        assert(is_first_free(start, in_use, start));
    } else if start < u16::MAX {
        let next = (start + 1) as u16;
        assert forall|p: u16| !#[trigger] is_first_free(next, in_use, p) by {
            if is_first_free(next, in_use, p) {
                assert forall|q: u16| start <= q < p implies #[trigger] in_use(q) by {
                    if q != start {
                        assert(next <= q < p);
                    }
                }
                assert(is_first_free(start, in_use, p));
            }
        }
        lemma_no_first_free(next, in_use);
        assert forall|p: u16| start <= p implies #[trigger] in_use(p) by {
            if p != start {
                assert(next <= p);
            }
        }
    }
}

/// Law: repeating `find_free_port_step` from `start` ends at the first port,
/// counting up from `start`, that is not in use, or finds none when every
/// port from `start` to the last is in use.
pub proof fn lemma_scan_finds_first_free(start: u16, in_use: spec_fn(u16) -> bool)
    ensures
        scan_from(start, in_use) == first_free_port(start, in_use),
        scan_from(start, in_use) is None ==> forall|p: u16| start <= p ==> #[trigger] in_use(p),
    decreases u16::MAX - start,
{
    if first_free_port(start, in_use) is None {
        lemma_no_first_free(start, in_use);
    }
    if !in_use(start) {
        assert(is_first_free(start, in_use, start));
        lemma_first_free_is(start, in_use, start);
    } else if start == u16::MAX {
        assert forall|p: u16| !#[trigger] is_first_free(start, in_use, p) by {
            if is_first_free(start, in_use, p) {
                assert(p == start);
            }
        }
    } else {
        let next = (start + 1) as u16;
        lemma_scan_finds_first_free(next, in_use);
        assert forall|p: u16| #[trigger] is_first_free(start, in_use, p) == is_first_free(next, in_use, p) by {
            if is_first_free(start, in_use, p) {
                assert(p != start);
                assert forall|q: u16| next <= q < p implies #[trigger] in_use(q) by {
                    assert(start <= q < p);
                }
            }
            if is_first_free(next, in_use, p) {
                assert forall|q: u16| start <= q < p implies #[trigger] in_use(q) by {
                    if q != start {
                        assert(next <= q < p);
                    }
                }
            }
        }
        if exists|p: u16| #[trigger] is_first_free(next, in_use, p) {
            let c = choose|p: u16| #[trigger] is_first_free(next, in_use, p);
            lemma_first_free_is(next, in_use, c);
            lemma_first_free_is(start, in_use, c);
        }
    }
}

/// Law: the port handed to `dsh web --port` as decimal text, when read back
/// as a port setting, selects that same port.
pub proof fn lemma_port_text_round_trip(port: u16)
    requires
        port > 0,
    ensures
        port_setting(Some(decimal(port as nat))) == port,
{
    lemma_decimal_digits(port as nat);
    let s = decimal(port as nat);
    assert(parse_u16(s) == Some(port));
}


proof fn lemma_leading_zero(s: Seq<char>)
    requires
        all_digits(s),
    ensures
        digits_value(seq!['0'] + s) == digits_value(s),
        all_digits(seq!['0'] + s),
    decreases s.len(),
{
    let z = seq!['0'] + s;
    assert forall|i: int| 0 <= i < z.len() implies is_digit(#[trigger] z[i]) by {
        if i > 0 {
            assert(z[i] == s[i - 1]);
        }
    }
    if s.len() == 0 {
        assert(z.drop_last() =~= Seq::<char>::empty());
        assert(digits_value(z.drop_last()) == 0);
        assert(z.last() == '0');
        assert(('0' as nat - 48) as nat == 0);
        assert(digits_value(z) == digits_value(z.drop_last()) * 10 + (z.last() as nat - 48) as nat);
    } else {
        let t = s.drop_last();
        assert(all_digits(t)) by {
            assert forall|i: int| 0 <= i < t.len() implies is_digit(#[trigger] t[i]) by {
                assert(t[i] == s[i]);
            }
        }
        lemma_leading_zero(t);
        assert(z.drop_last() =~= seq!['0'] + t);
        assert(z.last() == s.last());
        assert(digits_value(z) == digits_value(z.drop_last()) * 10 + (z.last() as nat - 48) as nat);
        assert(digits_value(s) == digits_value(t) * 10 + (s.last() as nat - 48) as nat);
    }
}

/// Law: what `DSH_DESKTOP_PORT` selects. With no value the port is 3080. A
/// port in decimal selects that port, also with a leading `+` or leading
/// zeros; `0` selects 3080; so does any value holding a character other than
/// a digit (past an optional leading `+`).
pub proof fn lemma_port_setting_meaning(p: u16, text: Seq<char>)
    ensures
        port_setting(None) == DEFAULT_PORT,
        p > 0 ==> port_setting(Some(decimal(p as nat))) == p,
        p > 0 ==> port_setting(Some(seq!['+'] + decimal(p as nat))) == p,
        p > 0 ==> port_setting(Some(seq!['0'] + decimal(p as nat))) == p,
        port_setting(Some(decimal(0))) == DEFAULT_PORT,
        (exists|i: int|
            0 <= i < text.len() && !is_digit(#[trigger] text[i]) && !(i == 0 && text[i] == '+'))
            ==> port_setting(Some(text)) == DEFAULT_PORT,
{
    lemma_decimal_digits(p as nat);
    lemma_decimal_digits(0);
    let d = decimal(p as nat);
    assert(parse_u16(d) == Some(p));
    let plus = seq!['+'] + d;
    assert(plus.drop_first() =~= d);
    assert(parse_u16(plus) == Some(p));
    lemma_leading_zero(d);
    let z = seq!['0'] + d;
    assert(z[0] == '0');
    assert(parse_u16(z) == Some(p));
    if exists|i: int| 0 <= i < text.len() && !is_digit(#[trigger] text[i]) && !(i == 0 && text[i] == '+') {
        let i = choose|i: int| 0 <= i < text.len() && !is_digit(#[trigger] text[i]) && !(i == 0 && text[i] == '+');
        if text.len() > 0 && text[0] == '+' {
            let t = text.drop_first();
            assert(t[i - 1] == text[i]);
            assert(!is_digit(t[i - 1]));
        } else {
            assert(!is_digit(text[i]));
        }
    }
}

} // verus!
