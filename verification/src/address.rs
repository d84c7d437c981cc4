//! IPv4 addresses in dotted-quad notation.
//!
//! The notation is the canonical one: four decimal numbers from 0 to 255,
//! separated by dots, none with a leading zero.

use vstd::prelude::*;

verus! {

/// An IPv4 address, by its four octets.
#[derive(Clone, Copy, Debug, PartialEq, Eq, Structural)]
pub struct Ipv4 {
    pub a: u8,
    pub b: u8,
    pub c: u8,
    pub d: u8,
}

/// The byte of the decimal digit `d`.
pub open spec fn digit(d: u8) -> u8 {
    (48 + d) as u8
}

/// `b` is the byte of a decimal digit.
pub open spec fn is_digit(b: u8) -> bool {
    48 <= b <= 57
}

/// The decimal notation of `n`, without leading zeros.
pub open spec fn decimal(n: u8) -> Seq<u8> {
    if n < 10 {
        seq![digit(n)]
    } else if n < 100 {
        seq![digit(n / 10), digit(n % 10)]
    } else {
        seq![digit(n / 100), digit((n / 10) % 10), digit(n % 10)]
    }
}

/// The dotted-quad notation of `ip`.
pub open spec fn dotted(ip: Ipv4) -> Seq<u8> {
    decimal(ip.a) + seq![46u8] + decimal(ip.b) + seq![46u8] + decimal(ip.c) + seq![46u8] + decimal(
        ip.d,
    )
}

/// `text` is the dotted-quad notation of some address.
pub open spec fn is_dotted_quad(text: Seq<u8>) -> bool {
    exists|ip: Ipv4| text == #[trigger] dotted(ip)
}

/// The address whose dotted-quad notation `text` is, if it is one.
pub open spec fn address_of(text: Seq<u8>) -> Option<Ipv4> {
    if is_dotted_quad(text) {
        Some(choose|ip: Ipv4| text == #[trigger] dotted(ip))
    } else {
        None
    }
}

/// The decimal notation of `n` stands in `text` from `pos` up to `end`, and no
/// digit follows it.
pub open spec fn octet_at(text: Seq<u8>, pos: int, n: u8, end: int) -> bool {
    &&& 0 <= pos
    &&& end == pos + decimal(n).len()
    &&& end <= text.len()
    &&& text.subrange(pos, end) == decimal(n)
    &&& (end < text.len() ==> !is_digit(text[end]))
}

impl Ipv4 {
    /// The unspecified address, 0.0.0.0.
    pub open spec fn unspecified(self) -> bool {
        self.a == 0 && self.b == 0 && self.c == 0 && self.d == 0
    }

    /// Whether this is the unspecified address, 0.0.0.0.
    pub fn is_unspecified(&self) -> (r: bool)
        ensures
            r == self.unspecified(),
    {
        self.a == 0 && self.b == 0 && self.c == 0 && self.d == 0
    }

    /// The address in dotted-quad notation.
    pub fn to_text(&self) -> (r: Vec<u8>)
        ensures
            r@ == dotted(*self),
    {
        let mut out: Vec<u8> = Vec::new();
        push_decimal(&mut out, self.a);
        out.push(46);
        push_decimal(&mut out, self.b);
        out.push(46);
        push_decimal(&mut out, self.c);
        out.push(46);
        push_decimal(&mut out, self.d);
        assert(out@ =~= dotted(*self));
        out
    }
}

/// Appends the decimal notation of `n` to `out`.
fn push_decimal(out: &mut Vec<u8>, n: u8)
    ensures
        final(out)@ == old(out)@ + decimal(n),
{
    if n >= 100 {
        out.push(48 + n / 100);
    }
    if n >= 10 {
        out.push(48 + (n / 10) % 10);
    }
    out.push(48 + n % 10);
    assert(final(out)@ =~= old(out)@ + decimal(n));
}

/// Every byte of a decimal notation is a digit, and the first is no zero
/// unless it is the only one.
proof fn lemma_decimal_shape(n: u8)
    ensures
        1 <= decimal(n).len() <= 3,
        forall|i: int| 0 <= i < decimal(n).len() ==> is_digit(#[trigger] decimal(n)[i]),
        decimal(n).len() > 1 ==> decimal(n)[0] != 48,
{
}

/// The digits of a decimal notation, by its length.
proof fn lemma_decimal_digits(n: u8)
    ensures
        decimal(n).len() == 1 ==> n < 10 && decimal(n)[0] == digit(n),
        decimal(n).len() == 2 ==> 10 <= n < 100 && decimal(n)[0] == digit(n / 10) && decimal(n)[1]
            == digit(n % 10),
        decimal(n).len() == 3 ==> 100 <= n && decimal(n)[0] == digit(n / 100) && decimal(n)[1]
            == digit((n / 10) % 10) && decimal(n)[2] == digit(n % 10),
{
}

/// Two numbers with the same decimal notation are equal.
proof fn lemma_decimal_injective(m: u8, n: u8)
    requires
        decimal(m) == decimal(n),
    ensures
        m == n,
{
    lemma_decimal_shape(m);
    lemma_decimal_digits(m);
    lemma_decimal_digits(n);
}

/// At one position of a text at most one number stands, with one end.
proof fn lemma_octet_unique(text: Seq<u8>, pos: int, m: u8, m_end: int, n: u8, n_end: int)
    requires
        octet_at(text, pos, m, m_end),
        octet_at(text, pos, n, n_end),
    ensures
        m == n,
        m_end == n_end,
{
    lemma_decimal_shape(m);
    lemma_decimal_shape(n);
    if m_end < n_end {
        assert(text.subrange(pos, n_end)[m_end - pos] == text[m_end]);
        assert(is_digit(decimal(n)[m_end - pos]));
    } else if n_end < m_end {
        assert(text.subrange(pos, m_end)[n_end - pos] == text[n_end]);
        assert(is_digit(decimal(m)[n_end - pos]));
    } else {
        lemma_decimal_injective(m, n);
    }
}

/// Reads the number that stands in `text` at `pos`: one to three digits
/// without a leading zero, with a value up to 255, and no digit behind them.
fn read_octet(text: &[u8], pos: usize) -> (r: Option<(u8, usize)>)
    requires
        pos <= text@.len(),
    ensures
        match r {
            Some((n, end)) => octet_at(text@, pos as int, n, end as int),
            None => forall|n: u8, end: int| !octet_at(text@, pos as int, n, end),
        },
{
    let len = text.len();
    proof {
        assert forall|n: u8, end: int| octet_at(text@, pos as int, n, end) implies {
            &&& pos < len
            &&& is_digit(text@[pos as int])
            &&& decimal(n).len() > 1 ==> is_digit(text@[pos + 1]) && text@[pos as int] != 48
            &&& decimal(n).len() > 2 ==> is_digit(text@[pos + 2])
            &&& decimal(n).len() == 1 ==> text@[pos as int] == digit(n)
            &&& decimal(n).len() == 2 ==> text@[pos as int] == digit(n / 10) && text@[pos + 1]
                == digit(n % 10)
            &&& decimal(n).len() == 3 ==> text@[pos as int] == digit(n / 100) && text@[pos + 1]
                == digit((n / 10) % 10) && text@[pos + 2] == digit(n % 10)
        } by {
            lemma_decimal_shape(n);
            lemma_decimal_digits(n);
            let s = text@.subrange(pos as int, end);
            assert(s[0] == text@[pos as int]);
            if decimal(n).len() > 1 {
                assert(s[1] == text@[pos + 1]);
            }
            if decimal(n).len() > 2 {
                assert(s[2] == text@[pos + 2]);
            }
        }
    }
    if pos >= len || text[pos] < 48 || text[pos] > 57 {
        return None;
    }
    let d0: u8 = text[pos] - 48;
    if len - pos < 2 || text[pos + 1] < 48 || text[pos + 1] > 57 {
        assert(text@.subrange(pos as int, pos + 1) =~= decimal(d0));
        return Some((d0, pos + 1));
    }
    if d0 == 0 {
        return None;
    }
    let d1: u8 = text[pos + 1] - 48;
    if len - pos < 3 || text[pos + 2] < 48 || text[pos + 2] > 57 {
        let n: u8 = d0 * 10 + d1;
        assert(text@.subrange(pos as int, pos + 2) =~= decimal(n));
        return Some((n, pos + 2));
    }
    let d2: u8 = text[pos + 2] - 48;
    if len - pos >= 4 && text[pos + 3] >= 48 && text[pos + 3] <= 57 {
        return None;
    }
    if d0 > 2 || (d0 == 2 && (d1 > 5 || (d1 == 5 && d2 > 5))) {
        return None;
    }
    let n: u8 = d0 * 100 + d1 * 10 + d2;
    assert(text@.subrange(pos as int, pos + 3) =~= decimal(n));
    Some((n, pos + 3))
}

/// In the dotted-quad notation of `ip` the four numbers stand one behind the
/// other, a dot after each but the last.
proof fn lemma_dotted_layout(ip: Ipv4)
    ensures
        ({
            let text = dotted(ip);
            let e1 = decimal(ip.a).len() as int;
            let e2 = e1 + 1 + decimal(ip.b).len();
            let e3 = e2 + 1 + decimal(ip.c).len();
            let e4 = e3 + 1 + decimal(ip.d).len();
            &&& octet_at(text, 0, ip.a, e1)
            &&& text[e1] == 46
            &&& octet_at(text, e1 + 1, ip.b, e2)
            &&& text[e2] == 46
            &&& octet_at(text, e2 + 1, ip.c, e3)
            &&& text[e3] == 46
            &&& octet_at(text, e3 + 1, ip.d, e4)
            &&& e4 == text.len()
        }),
{
    let text = dotted(ip);
    let e1 = decimal(ip.a).len() as int;
    let e2 = e1 + 1 + decimal(ip.b).len();
    let e3 = e2 + 1 + decimal(ip.c).len();
    let e4 = e3 + 1 + decimal(ip.d).len();
    assert(text.subrange(0, e1) =~= decimal(ip.a));
    assert(text.subrange(e1 + 1, e2) =~= decimal(ip.b));
    assert(text.subrange(e2 + 1, e3) =~= decimal(ip.c));
    assert(text.subrange(e3 + 1, e4) =~= decimal(ip.d));
}

/// A text laid out as four numbers with dots between them is the dotted-quad
/// notation of the address they make.
proof fn lemma_layout_dotted(text: Seq<u8>, ip: Ipv4, e1: int, e2: int, e3: int)
    requires
        octet_at(text, 0, ip.a, e1),
        e1 < text.len() && text[e1] == 46,
        octet_at(text, e1 + 1, ip.b, e2),
        e2 < text.len() && text[e2] == 46,
        octet_at(text, e2 + 1, ip.c, e3),
        e3 < text.len() && text[e3] == 46,
        octet_at(text, e3 + 1, ip.d, text.len() as int),
    ensures
        text == dotted(ip),
{
    let n = text.len() as int;
    assert(text =~= text.subrange(0, e1) + seq![46u8] + text.subrange(e1 + 1, e2) + seq![46u8]
        + text.subrange(e2 + 1, e3) + seq![46u8] + text.subrange(e3 + 1, n));
}

/// Two addresses with the same dotted-quad notation are equal.
pub proof fn lemma_dotted_injective(x: Ipv4, y: Ipv4)
    requires
        dotted(x) == dotted(y),
    ensures
        x == y,
{
    let text = dotted(x);
    lemma_dotted_layout(x);
    lemma_dotted_layout(y);
    let x1 = decimal(x.a).len() as int;
    let y1 = decimal(y.a).len() as int;
    lemma_octet_unique(text, 0, x.a, x1, y.a, y1);
    let x2 = x1 + 1 + decimal(x.b).len();
    let y2 = y1 + 1 + decimal(y.b).len();
    lemma_octet_unique(text, x1 + 1, x.b, x2, y.b, y2);
    let x3 = x2 + 1 + decimal(x.c).len();
    let y3 = y2 + 1 + decimal(y.c).len();
    lemma_octet_unique(text, x2 + 1, x.c, x3, y.c, y3);
    let x4 = x3 + 1 + decimal(x.d).len();
    let y4 = y3 + 1 + decimal(y.d).len();
    lemma_octet_unique(text, x3 + 1, x.d, x4, y.d, y4);
}

/// The dotted-quad notation holds digits and dots only.
pub proof fn lemma_dotted_bytes(ip: Ipv4)
    ensures
        forall|i: int|
            0 <= i < dotted(ip).len() ==> is_digit(#[trigger] dotted(ip)[i]) || dotted(ip)[i] == 46,
{
    lemma_decimal_shape(ip.a);
    lemma_decimal_shape(ip.b);
    lemma_decimal_shape(ip.c);
    lemma_decimal_shape(ip.d);
    let a = decimal(ip.a);
    let b = decimal(ip.b);
    let c = decimal(ip.c);
    let d = decimal(ip.d);
    assert forall|i: int| 0 <= i < dotted(ip).len() implies is_digit(#[trigger] dotted(ip)[i])
        || dotted(ip)[i] == 46 by {
        let e1 = a.len() as int;
        let e2 = e1 + 1 + b.len();
        let e3 = e2 + 1 + c.len();
        if i < e1 {
            assert(dotted(ip)[i] == a[i]);
        } else if i == e1 {
        } else if i < e2 {
            assert(dotted(ip)[i] == b[i - e1 - 1]);
        } else if i == e2 {
        } else if i < e3 {
            assert(dotted(ip)[i] == c[i - e2 - 1]);
        } else if i == e3 {
        } else {
            assert(dotted(ip)[i] == d[i - e3 - 1]);
        }
    }
}

/// Reading the notation of an address gives the address back.
pub proof fn lemma_address_of_dotted(ip: Ipv4)
    ensures
        address_of(dotted(ip)) == Some(ip),
{
    let text = dotted(ip);
    assert(is_dotted_quad(text));
    let chosen = choose|other: Ipv4| text == #[trigger] dotted(other);
    lemma_dotted_injective(ip, chosen);
}

/// Reads an address in dotted-quad notation. Returns the address whose
/// notation `text` is, and `None` where `text` is the notation of no address.
pub fn parse_ipv4(text: &[u8]) -> (r: Option<Ipv4>)
    ensures
        r == address_of(text@),
{
    let len = text.len();
    proof {
        assert forall|ip: Ipv4| text@ == #[trigger] dotted(ip) implies ({
            let e1 = decimal(ip.a).len() as int;
            let e2 = e1 + 1 + decimal(ip.b).len();
            let e3 = e2 + 1 + decimal(ip.c).len();
            &&& octet_at(text@, 0, ip.a, e1)
            &&& e1 < len && text@[e1] == 46
            &&& octet_at(text@, e1 + 1, ip.b, e2)
            &&& e2 < len && text@[e2] == 46
            &&& octet_at(text@, e2 + 1, ip.c, e3)
            &&& e3 < len && text@[e3] == 46
            &&& octet_at(text@, e3 + 1, ip.d, len as int)
        }) by {
            lemma_dotted_layout(ip);
            lemma_decimal_shape(ip.a);
            lemma_decimal_shape(ip.b);
            lemma_decimal_shape(ip.c);
            lemma_decimal_shape(ip.d);
        }
    }
    let (a, e1) = match read_octet(text, 0) {
        Some(found) => found,
        None => {
            return None;
        },
    };
    proof {
        assert forall|ip: Ipv4| text@ == #[trigger] dotted(ip) implies ip.a == a && decimal(
            ip.a,
        ).len() == e1 by {
            lemma_octet_unique(text@, 0, a, e1 as int, ip.a, decimal(ip.a).len() as int);
        }
    }
    if e1 >= len || text[e1] != 46 {
        return None;
    }
    let (b, e2) = match read_octet(text, e1 + 1) {
        Some(found) => found,
        None => {
            return None;
        },
    };
    proof {
        assert forall|ip: Ipv4| text@ == #[trigger] dotted(ip) implies ip.b == b && e1 + 1
            + decimal(ip.b).len() == e2 by {
            lemma_octet_unique(text@, e1 + 1, b, e2 as int, ip.b, e1 + 1 + decimal(ip.b).len());
        }
    }
    if e2 >= len || text[e2] != 46 {
        return None;
    }
    let (c, e3) = match read_octet(text, e2 + 1) {
        Some(found) => found,
        None => {
            return None;
        },
    };
    proof {
        assert forall|ip: Ipv4| text@ == #[trigger] dotted(ip) implies ip.c == c && e2 + 1
            + decimal(ip.c).len() == e3 by {
            lemma_octet_unique(text@, e2 + 1, c, e3 as int, ip.c, e2 + 1 + decimal(ip.c).len());
        }
    }
    if e3 >= len || text[e3] != 46 {
        return None;
    }
    let (d, e4) = match read_octet(text, e3 + 1) {
        Some(found) => found,
        None => {
            return None;
        },
    };
    proof {
        assert forall|ip: Ipv4| text@ == #[trigger] dotted(ip) implies e4 == len by {
            lemma_octet_unique(text@, e3 + 1, d, e4 as int, ip.d, len as int);
        }
    }
    if e4 != len {
        return None;
    }
    let ip = Ipv4 { a, b, c, d };
    proof {
        lemma_layout_dotted(text@, ip, e1 as int, e2 as int, e3 as int);
        lemma_address_of_dotted(ip);
    }
    Some(ip)
}

} // verus!
