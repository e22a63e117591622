//! Numbers as text: hexadecimal USB identifiers (parsed and printed) and
//! decimal byte values.
use vstd::prelude::*;

verus! {

/// `s` with every leading `"0x"` removed (what `trim_start_matches("0x")`
/// returns).
pub open spec fn strip_hex_prefixes(s: Seq<char>) -> Seq<char>
    decreases s.len(),
{
    if s.len() >= 2 && s[0] == '0' && s[1] == 'x' {
        strip_hex_prefixes(s.skip(2))
    } else {
        s
    }
}

/// The value of a hexadecimal digit of either case, or -1 for any other char.
pub open spec fn hex_digit_value(c: char) -> int {
    if '0' <= c && c <= '9' {
        c as int - '0' as int
    } else if 'a' <= c && c <= 'f' {
        c as int - 'a' as int + 10
    } else if 'A' <= c && c <= 'F' {
        c as int - 'A' as int + 10
    } else {
        -1
    }
}

/// Every char of `s` is a hexadecimal digit.
pub open spec fn all_hex_digits(s: Seq<char>) -> bool {
    forall|i: int| 0 <= i < s.len() ==> hex_digit_value(#[trigger] s[i]) >= 0
}

/// The number that the hexadecimal digits `s` denote.
pub open spec fn hex_value(s: Seq<char>) -> int
    decreases s.len(),
{
    if s.len() == 0 {
        0
    } else {
        hex_value(s.drop_last()) * 16 + hex_digit_value(s.last())
    }
}

/// What `u16::from_str_radix(s, 16).ok()` returns: an optional `'+'`, then
/// at least one hexadecimal digit, denoting a value that fits in 16 bits.
pub open spec fn hex_u16(s: Seq<char>) -> Option<u16> {
    let digits = if s.len() > 0 && s[0] == '+' {
        s.drop_first()
    } else {
        s
    };
    if digits.len() > 0 && all_hex_digits(digits) && hex_value(digits) <= 0xFFFF {
        Some(hex_value(digits) as u16)
    } else {
        None
    }
}

/// A USB identifier written in hexadecimal, with any `"0x"` prefixes, read as
/// a number; 0 where the text is no such number.
pub open spec fn hex_id_value(s: Seq<char>) -> u16 {
    match hex_u16(strip_hex_prefixes(s)) {
        Some(v) => v,
        None => 0,
    }
}

/// The upper-case hexadecimal digit for `d` in `0..16`.
pub open spec fn upper_hex_digit(d: int) -> char {
    if d < 10 {
        (('0' as int) + d) as char
    } else {
        (('A' as int) + d - 10) as char
    }
}

/// `v` as four upper-case hexadecimal digits (what `format!("{:04X}", v)`
/// gives for a `u16`).
pub open spec fn hex4(v: u16) -> Seq<char> {
    let x = v as int;
    seq![
        upper_hex_digit(x / 4096),
        upper_hex_digit((x / 256) % 16),
        upper_hex_digit((x / 16) % 16),
        upper_hex_digit(x % 16),
    ]
}

/// The decimal digit for `d` in `0..10`.
pub open spec fn decimal_digit(d: int) -> char {
    (('0' as int) + d) as char
}

/// `n` in decimal without leading zeros (what `n.to_string()` gives).
pub open spec fn decimal(n: nat) -> Seq<char>
    decreases n,
{
    if n < 10 {
        seq![decimal_digit(n as int)]
    } else {
        decimal(n / 10).push(decimal_digit((n % 10) as int))
    }
}

/// The value of one hexadecimal digit, if `c` is one.
fn hex_digit_exec(c: char) -> (r: Option<u32>)
    ensures
        r matches Some(d) ==> d == hex_digit_value(c) && d < 16,
        r is None ==> hex_digit_value(c) == -1,
{
    if '0' <= c && c <= '9' {
        Some((c as u32) - ('0' as u32))
    } else if 'a' <= c && c <= 'f' {
        Some((c as u32) - ('a' as u32) + 10)
    } else if 'A' <= c && c <= 'F' {
        Some((c as u32) - ('A' as u32) + 10)
    } else {
        None
    }
}

/// A longer run of hexadecimal digits never denotes a smaller number.
proof fn lemma_hex_value_prefix(t: Seq<char>, k: int)
    requires
        all_hex_digits(t),
        0 <= k <= t.len(),
    ensures
        hex_value(t) >= hex_value(t.take(k)),
        hex_value(t) >= 0,
    decreases t.len(),
{
    if t.len() > 0 {
        let u = t.drop_last();
        assert(all_hex_digits(u)) by {
            assert forall|i: int| 0 <= i < u.len() implies hex_digit_value(#[trigger] u[i])
                >= 0 by {
                assert(u[i] == t[i]);
            }
        }
        assert(hex_digit_value(t[t.len() - 1]) >= 0);
        if k < t.len() {
            lemma_hex_value_prefix(u, k);
            assert(u.take(k) =~= t.take(k));
        } else {
            lemma_hex_value_prefix(u, 0);
            assert(t.take(k) =~= t);
        }
    } else {
        assert(t.take(k) =~= t);
    }
}

/// Reads a USB identifier written in hexadecimal: leading `"0x"`s are
/// skipped, and text that is no 16-bit hexadecimal number reads as 0.
pub fn parse_hex_chars(s: &[char]) -> (r: u16)
    ensures
        r == hex_id_value(s@),
{
    let n = s.len();
    let mut p: usize = 0;
    assert(s@.subrange(0, n as int) =~= s@);
    while n - p >= 2 && s[p] == '0' && s[p + 1] == 'x'
        invariant
            p <= n,
            n == s@.len(),
            strip_hex_prefixes(s@) == strip_hex_prefixes(s@.subrange(p as int, n as int)),
        decreases n - p,
    {
        assert(s@.subrange(p as int, n as int).skip(2) =~= s@.subrange(p + 2, n as int));
        p = p + 2;
    }
    let ghost body = s@.subrange(p as int, n as int);
    assert(strip_hex_prefixes(s@) == body);
    let mut q: usize = p;
    if q < n && s[q] == '+' {
        q = q + 1;
    }
    let ghost digits = s@.subrange(q as int, n as int);
    assert(digits =~= (if body.len() > 0 && body[0] == '+' {
        body.drop_first()
    } else {
        body
    }));
    if q == n {
        return 0;
    }
    let mut acc: u32 = 0;
    let mut i: usize = q;
    assert(s@.subrange(q as int, q as int) =~= Seq::<char>::empty());
    while i < n
        invariant
            q <= i <= n,
            q < n,
            n == s@.len(),
            digits == s@.subrange(q as int, n as int),
            strip_hex_prefixes(s@) == body,
            digits == (if body.len() > 0 && body[0] == '+' {
                body.drop_first()
            } else {
                body
            }),
            acc == hex_value(s@.subrange(q as int, i as int)),
            acc <= 0xFFFF,
            all_hex_digits(s@.subrange(q as int, i as int)),
        decreases n - i,
    {
        let ghost pre = s@.subrange(q as int, i as int);
        let ghost next = s@.subrange(q as int, i + 1);
        assert(next.drop_last() =~= pre);
        assert(next.last() == s@[i as int]);
        match hex_digit_exec(s[i]) {
            None => {
                assert(digits[i - q] == s@[i as int]);
                assert(!all_hex_digits(digits));
                return 0;
            },
            Some(d) => {
                acc = acc * 16 + d;
                assert(all_hex_digits(next)) by {
                    assert forall|k: int| 0 <= k < next.len() implies hex_digit_value(
                        #[trigger] next[k],
                    ) >= 0 by {
                        if k < next.len() - 1 {
                            assert(next[k] == pre[k]);
                        }
                    }
                }
                if acc > 0xFFFF {
                    proof {
                        if all_hex_digits(digits) {
                            lemma_hex_value_prefix(digits, i + 1 - q);
                            assert(digits.take(i + 1 - q) =~= next);
                        }
                    }
                    return 0;
                }
            },
        }
        i = i + 1;
    }
    assert(s@.subrange(q as int, n as int) =~= digits);
    acc as u16
}

/// The upper-case hexadecimal digit for `d`.
fn upper_hex_digit_exec(d: u16) -> (r: char)
    requires
        d < 16,
    ensures
        r == upper_hex_digit(d as int),
{
    if d < 10 {
        ((d as u8) + 48) as char
    } else {
        ((d as u8) + 55) as char
    }
}

/// `v` as four upper-case hexadecimal digits.
pub fn hex4_chars(v: u16) -> (r: Vec<char>)
    ensures
        r@ == hex4(v),
{
    let mut out: Vec<char> = Vec::new();
    out.push(upper_hex_digit_exec(v / 4096));
    out.push(upper_hex_digit_exec((v / 256) % 16));
    out.push(upper_hex_digit_exec((v / 16) % 16));
    out.push(upper_hex_digit_exec(v % 16));
    assert(out@ =~= hex4(v));
    out
}

/// The decimal digit for `d`.
fn decimal_digit_exec(d: u8) -> (r: char)
    requires
        d < 10,
    ensures
        r == decimal_digit(d as int),
{
    (d + 48) as char
}

/// `b` in decimal without leading zeros.
pub fn decimal_u8(b: u8) -> (r: Vec<char>)
    ensures
        r@ == decimal(b as nat),
{
    let mut out: Vec<char> = Vec::new();
    if b >= 100 {
        out.push(decimal_digit_exec(b / 100));
    }
    if b >= 10 {
        out.push(decimal_digit_exec((b / 10) % 10));
    }
    out.push(decimal_digit_exec(b % 10));
    proof {
        reveal_with_fuel(decimal, 3);
        if b >= 100 {
            assert((b / 10) as nat / 10 == b / 100);
            assert(out@ =~= decimal(b as nat));
        } else if b >= 10 {
            assert(out@ =~= decimal(b as nat));
        } else {
            assert(out@ =~= decimal(b as nat));
        }
    }
    out
}

/// `n` in decimal without leading zeros.
pub fn decimal_usize(n: usize) -> (r: Vec<char>)
    ensures
        r@ == decimal(n as nat),
    decreases n,
{
    let last = decimal_digit_exec((n % 10) as u8);
    if n < 10 {
        let mut out: Vec<char> = Vec::new();
        out.push(last);
        assert(out@ =~= decimal(n as nat));
        out
    } else {
        let mut out = decimal_usize(n / 10);
        out.push(last);
        out
    }
}

/// A `"0x"` prefix does not change the identifier that text denotes.
pub proof fn lemma_hex_prefix_ignored(s: Seq<char>)
    ensures
        hex_id_value(seq!['0', 'x'] + s) == hex_id_value(s),
{
    let t = seq!['0', 'x'] + s;
    assert(t.skip(2) =~= s);
}

/// The number that the decimal digits `s` denote.
pub open spec fn decimal_value(s: Seq<char>) -> int
    decreases s.len(),
{
    if s.len() == 0 {
        0
    } else {
        decimal_value(s.drop_last()) * 10 + (s.last() as int - '0' as int)
    }
}

/// Every char of `s` is a decimal digit.
pub open spec fn all_decimal_digits(s: Seq<char>) -> bool {
    forall|i: int| 0 <= i < s.len() ==> '0' <= #[trigger] s[i] && s[i] <= '9'
}

/// A number printed in decimal is a run of digits that reads back as it.
pub proof fn lemma_decimal_reads_back(n: nat)
    ensures
        all_decimal_digits(decimal(n)),
        decimal(n).len() > 0,
        decimal_value(decimal(n)) == n,
    decreases n,
{
    let dd = (n % 10) as int;
    assert(decimal_digit(dd) as int == '0' as int + dd);
    if n < 10 {
        let d = decimal(n);
        assert(d.drop_last() =~= Seq::<char>::empty());
        assert(d.last() == decimal_digit(n as int));
        assert(decimal_value(Seq::<char>::empty()) == 0);
    } else {
        lemma_decimal_reads_back(n / 10);
        let d = decimal(n);
        assert(d.drop_last() == decimal(n / 10));
        assert(d.last() == decimal_digit(dd));
        assert(n == (n / 10) * 10 + n % 10);
        assert forall|i: int| 0 <= i < d.len() implies '0' <= #[trigger] d[i] && d[i] <= '9' by {
            if i < d.len() - 1 {
                assert(d[i] == decimal(n / 10)[i]);
            }
        }
    }
}

/// Reading back an identifier printed as four upper-case hexadecimal digits
/// gives the identifier: the vendor id that the printer list shows, written
/// into the configuration, selects that vendor.
pub proof fn lemma_hex4_reads_back(v: u16)
    ensures
        hex_id_value(hex4(v)) == v,
{
    let s = hex4(v);
    let x = v as int;
    let a = x / 4096;
    let b = (x / 256) % 16;
    let c = (x / 16) % 16;
    let d = x % 16;
    assert(((a * 16 + b) * 16 + c) * 16 + d == v);
    assert(hex_digit_value(upper_hex_digit(a)) == a);
    assert(hex_digit_value(upper_hex_digit(b)) == b);
    assert(hex_digit_value(upper_hex_digit(c)) == c);
    assert(hex_digit_value(upper_hex_digit(d)) == d);
    assert(strip_hex_prefixes(s) == s);
    assert(s.drop_last().drop_last().drop_last().drop_last() =~= Seq::<char>::empty());
    reveal_with_fuel(hex_value, 5);
    assert(hex_value(s) == v);
    assert(all_hex_digits(s));
}

} // verus!
