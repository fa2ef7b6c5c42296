//! The byte-level JSON reader under the envelope codec.
//!
//! The decoder works in two layers. This one scans raw bytes: it skips
//! whitespace, parses strings (decoding the standard escapes), parses small
//! unsigned numbers, and finds the extent of any JSON value so a caller can
//! carry it through untouched. Every executable function mirrors a spec
//! function of the same shape, so the envelope layer's contracts can speak
//! about exactly what was read.
//!
//! Scanning is lenient: a value's extent is found without decoding it, so
//! payloads the envelope model does not interpret (results, notification
//! bodies) pass through whatever they hold. String parsing is strict: it is
//! used only on the fields the model reads (keys, the version tag, the
//! method name, the modeled parameter shapes), and it accepts the standard
//! single-character escapes and `\u` escapes of ASCII.

use vstd::prelude::*;

verus! {

/// JSON whitespace.
pub open spec fn is_ws(b: u8) -> bool {
    b == 0x20 || b == 0x09 || b == 0x0a || b == 0x0d
}

/// An ASCII digit.
pub open spec fn is_digit(b: u8) -> bool {
    0x30 <= b <= 0x39
}

/// A byte that can stand in a JSON number token.
pub open spec fn is_num_byte(b: u8) -> bool {
    is_digit(b) || b == 0x2b || b == 0x2d || b == 0x2e || b == 0x45 || b == 0x65
}

/// The first index at or after `i` holding no whitespace.
pub open spec fn skip_ws_spec(s: Seq<u8>, i: int) -> int
    decreases s.len() - i,
    when 0 <= i <= s.len()
{
    if i < s.len() && is_ws(s[i]) {
        skip_ws_spec(s, i + 1)
    } else {
        i
    }
}

fn is_ws_exec(b: u8) -> (r: bool)
    ensures
        r == is_ws(b),
{
    b == 0x20 || b == 0x09 || b == 0x0a || b == 0x0d
}

/// Skips whitespace.
pub fn skip_ws(s: &[u8], i: usize) -> (r: usize)
    requires
        i <= s@.len(),
    ensures
        r == skip_ws_spec(s@, i as int),
        i <= r <= s@.len(),
    decreases s@.len() - i,
{
    if i < s.len() && is_ws_exec(s[i]) {
        skip_ws(s, i + 1)
    } else {
        i
    }
}

/// The escaping of one byte inside a JSON string: the short escapes where
/// JSON has them, `\u00XX` for the other control bytes, the byte itself
/// otherwise.
pub open spec fn esc_byte(b: u8) -> Seq<u8> {
    if b == 0x22 {
        seq![0x5cu8, 0x22u8]
    } else if b == 0x5c {
        seq![0x5cu8, 0x5cu8]
    } else if b == 0x0a {
        seq![0x5cu8, 0x6eu8]
    } else if b == 0x0d {
        seq![0x5cu8, 0x72u8]
    } else if b == 0x09 {
        seq![0x5cu8, 0x74u8]
    } else if b == 0x08 {
        seq![0x5cu8, 0x62u8]
    } else if b == 0x0c {
        seq![0x5cu8, 0x66u8]
    } else if b < 0x20 {
        seq![0x5cu8, 0x75u8, 0x30u8, 0x30u8, hex_digit((b / 16) as u8), hex_digit((b % 16) as u8)]
    } else {
        seq![b]
    }
}

/// The escaping of a whole string body.
pub open spec fn esc(s: Seq<u8>) -> Seq<u8>
    decreases s.len(),
{
    if s.len() == 0 {
        Seq::empty()
    } else {
        esc_byte(s[0]) + esc(s.subrange(1, s.len() as int))
    }
}

/// The lower-case hex digit of a value below sixteen.
pub open spec fn hex_digit(v: u8) -> u8 {
    if v < 10 {
        (0x30 + v) as u8
    } else {
        (0x57 + v) as u8
    }
}

/// The value of a hex digit byte, lower or upper case; sixteen marks a
/// byte that is no hex digit.
pub open spec fn hex_value(b: u8) -> u8 {
    if 0x30 <= b <= 0x39 {
        (b - 0x30) as u8
    } else if 0x61 <= b <= 0x66 {
        (b - 0x57) as u8
    } else if 0x41 <= b <= 0x46 {
        (b - 0x37) as u8
    } else {
        16
    }
}

fn hex_value_exec(b: u8) -> (r: u8)
    ensures
        r == hex_value(b),
{
    if 0x30 <= b && b <= 0x39 {
        b - 0x30
    } else if 0x61 <= b && b <= 0x66 {
        b - 0x57
    } else if 0x41 <= b && b <= 0x46 {
        b - 0x37
    } else {
        16
    }
}

/// Appends the escaped form of `x` to `out`.
pub fn push_escaped(out: &mut Vec<u8>, x: &[u8])
    ensures
        final(out)@ == old(out)@ + esc(x@),
{
    let mut i: usize = 0;
    while i < x.len()
        invariant
            i <= x@.len(),
            out@ == old(out)@ + esc(x@.subrange(0, i as int)),
        decreases x@.len() - i,
    {
        let b = x[i];
        if b == 0x22 {
            out.push(0x5c);
            out.push(0x22);
        } else if b == 0x5c {
            out.push(0x5c);
            out.push(0x5c);
        } else if b == 0x0a {
            out.push(0x5c);
            out.push(0x6e);
        } else if b == 0x0d {
            out.push(0x5c);
            out.push(0x72);
        } else if b == 0x09 {
            out.push(0x5c);
            out.push(0x74);
        } else if b == 0x08 {
            out.push(0x5c);
            out.push(0x62);
        } else if b == 0x0c {
            out.push(0x5c);
            out.push(0x66);
        } else if b < 0x20 {
            out.push(0x5c);
            out.push(0x75);
            out.push(0x30);
            out.push(0x30);
            out.push(if b / 16 < 10 {
                0x30 + b / 16
            } else {
                0x57 + b / 16
            });
            out.push(if b % 16 < 10 {
                0x30 + b % 16
            } else {
                0x57 + b % 16
            });
        } else {
            out.push(b);
        }
        proof {
            lemma_esc_snoc(x@, i as int);
            assert(out@ =~= old(out)@ + esc(x@.subrange(0, i + 1)));
        }
        i += 1;
    }
    proof {
        assert(x@.subrange(0, x@.len() as int) =~= x@);
    }
}

/// Escaping one more byte appends that byte's escaping.
proof fn lemma_esc_snoc(x: Seq<u8>, i: int)
    requires
        0 <= i < x.len(),
    ensures
        esc(x.subrange(0, i + 1)) == esc(x.subrange(0, i)) + esc_byte(x[i]),
    decreases i,
{
    if i == 0 {
        let s1 = x.subrange(0, 1);
        assert(s1.len() == 1 && s1[0] == x[0]);
        assert(s1.subrange(1, 1).len() == 0);
        assert(esc(s1.subrange(1, 1)) =~= Seq::<u8>::empty());
        assert(esc(s1) =~= esc_byte(x[0]) + esc(s1.subrange(1, 1)));
        assert(esc(s1) =~= esc_byte(x[0]));
        assert(x.subrange(0, 0).len() == 0);
        assert(esc(x.subrange(0, 0)) =~= Seq::<u8>::empty());
    } else {
        lemma_esc_snoc(x.subrange(1, x.len() as int), i - 1);
        let t = x.subrange(1, x.len() as int);
        assert(x.subrange(0, i + 1).subrange(1, i + 1) =~= t.subrange(0, i));
        assert(x.subrange(0, i).subrange(1, i) =~= t.subrange(0, i - 1));
        assert(t.subrange(0, i - 1 + 1) =~= t.subrange(0, i));
        assert(esc(x.subrange(0, i + 1)) =~= esc_byte(x[0]) + esc(t.subrange(0, i)));
        assert(esc(x.subrange(0, i)) =~= esc_byte(x[0]) + esc(t.subrange(0, i - 1)));
        assert(t[i - 1] == x[i]);
        assert(esc(x.subrange(0, i + 1)) =~= esc(x.subrange(0, i)) + esc_byte(x[i]));
    }
}

/// Parses a string body from just after the opening quote: the decoded
/// bytes and the index after the closing quote, or nothing on a malformed
/// or unsupported escape.
pub open spec fn parse_str_body(s: Seq<u8>, i: int, acc: Seq<u8>) -> Option<(Seq<u8>, int)>
    decreases s.len() - i,
    when 0 <= i <= s.len()
{
    if i >= s.len() {
        None
    } else if s[i] == 0x22 {
        Some((acc, i + 1))
    } else if s[i] == 0x5c {
        if i + 1 >= s.len() {
            None
        } else {
            let e = s[i + 1];
            if e == 0x22 || e == 0x5c || e == 0x2f {
                parse_str_body(s, i + 2, acc.push(e))
            } else if e == 0x6e {
                parse_str_body(s, i + 2, acc.push(0x0a))
            } else if e == 0x72 {
                parse_str_body(s, i + 2, acc.push(0x0d))
            } else if e == 0x74 {
                parse_str_body(s, i + 2, acc.push(0x09))
            } else if e == 0x62 {
                parse_str_body(s, i + 2, acc.push(0x08))
            } else if e == 0x66 {
                parse_str_body(s, i + 2, acc.push(0x0c))
            } else if e == 0x75 {
                if i + 6 > s.len() {
                    None
                } else {
                    let v = hex_value(s[i + 2]) as int * 4096 + hex_value(s[i + 3]) as int * 256
                        + hex_value(s[i + 4]) as int * 16 + hex_value(s[i + 5]) as int;
                    if hex_value(s[i + 2]) == 16 || hex_value(s[i + 3]) == 16 || hex_value(
                        s[i + 4],
                    ) == 16 || hex_value(s[i + 5]) == 16 || v >= 0x80 {
                        None
                    } else {
                        parse_str_body(s, i + 6, acc.push(v as u8))
                    }
                }
            } else {
                None
            }
        }
    } else if s[i] >= 0x20 {
        parse_str_body(s, i + 1, acc.push(s[i]))
    } else {
        None
    }
}

/// Parses a whole string at `i`, opening quote included.
pub open spec fn parse_string_spec(s: Seq<u8>, i: int) -> Option<(Seq<u8>, int)> {
    if 0 <= i < s.len() && s[i] == 0x22 {
        parse_str_body(s, i + 1, Seq::empty())
    } else {
        None
    }
}

fn parse_str_body_exec(s: &[u8], i: usize, acc: Vec<u8>) -> (r: Option<(Vec<u8>, usize)>)
    requires
        i <= s@.len(),
    ensures
        match r {
            Some((v, j)) => parse_str_body(s@, i as int, acc@) == Some((v@, j as int)) && j
                <= s@.len(),
            None => parse_str_body(s@, i as int, acc@) is None,
        },
    decreases s@.len() - i,
{
    let mut acc = acc;
    if i >= s.len() {
        None
    } else if s[i] == 0x22 {
        Some((acc, i + 1))
    } else if s[i] == 0x5c {
        if i + 1 >= s.len() {
            None
        } else {
            let e = s[i + 1];
            if e == 0x22 || e == 0x5c || e == 0x2f {
                acc.push(e);
                parse_str_body_exec(s, i + 2, acc)
            } else if e == 0x6e {
                acc.push(0x0a);
                parse_str_body_exec(s, i + 2, acc)
            } else if e == 0x72 {
                acc.push(0x0d);
                parse_str_body_exec(s, i + 2, acc)
            } else if e == 0x74 {
                acc.push(0x09);
                parse_str_body_exec(s, i + 2, acc)
            } else if e == 0x62 {
                acc.push(0x08);
                parse_str_body_exec(s, i + 2, acc)
            } else if e == 0x66 {
                acc.push(0x0c);
                parse_str_body_exec(s, i + 2, acc)
            } else if e == 0x75 {
                if s.len() - i < 6 {
                    None
                } else {
                    let h0 = hex_value_exec(s[i + 2]);
                    let h1 = hex_value_exec(s[i + 3]);
                    let h2 = hex_value_exec(s[i + 4]);
                    let h3 = hex_value_exec(s[i + 5]);
                    let v: u32 = (h0 as u32) * 4096 + (h1 as u32) * 256 + (h2 as u32) * 16
                        + (h3 as u32);
                    if h0 == 16 || h1 == 16 || h2 == 16 || h3 == 16 || v >= 0x80 {
                        None
                    } else {
                        acc.push(v as u8);
                        parse_str_body_exec(s, i + 6, acc)
                    }
                }
            } else {
                None
            }
        }
    } else if s[i] >= 0x20 {
        let b = s[i];
        acc.push(b);
        parse_str_body_exec(s, i + 1, acc)
    } else {
        None
    }
}

/// Parses a whole string at `i`.
pub fn parse_string(s: &[u8], i: usize) -> (r: Option<(Vec<u8>, usize)>)
    requires
        i <= s@.len(),
    ensures
        match r {
            Some((v, j)) => parse_string_spec(s@, i as int) == Some((v@, j as int)) && j
                <= s@.len(),
            None => parse_string_spec(s@, i as int) is None,
        },
{
    if i < s.len() && s[i] == 0x22 {
        parse_str_body_exec(s, i + 1, Vec::new())
    } else {
        None
    }
}

/// Accumulates decimal digits from `i`; stops at the first non-digit,
/// fails past the largest correlation id.
pub open spec fn parse_digits(s: Seq<u8>, i: int, acc: int) -> Option<(int, int)>
    decreases s.len() - i,
    when 0 <= i <= s.len()
{
    if i >= s.len() || !is_digit(s[i]) {
        Some((acc, i))
    } else {
        let acc2 = acc * 10 + (s[i] - 0x30);
        if acc2 > 65535 {
            None
        } else {
            parse_digits(s, i + 1, acc2)
        }
    }
}

/// Parses an unsigned 16-bit number at `i`: at least one digit, value at
/// most 65535.
pub open spec fn parse_u16_spec(s: Seq<u8>, i: int) -> Option<(u16, int)> {
    if 0 <= i < s.len() && is_digit(s[i]) {
        match parse_digits(s, i, 0) {
            Some((v, j)) => Some((v as u16, j)),
            None => None,
        }
    } else {
        None
    }
}

fn parse_digits_exec(s: &[u8], i: usize, acc: u16) -> (r: Option<(u16, usize)>)
    requires
        i <= s@.len(),
    ensures
        match r {
            Some((v, j)) => parse_digits(s@, i as int, acc as int) == Some((v as int, j as int))
                && j <= s@.len(),
            None => parse_digits(s@, i as int, acc as int) is None,
        },
    decreases s@.len() - i,
{
    if i >= s.len() || !(0x30 <= s[i] && s[i] <= 0x39) {
        Some((acc, i))
    } else {
        let d = (s[i] - 0x30) as u32;
        let acc2 = (acc as u32) * 10 + d;
        if acc2 > 65535 {
            None
        } else {
            parse_digits_exec(s, i + 1, acc2 as u16)
        }
    }
}

/// Parses an unsigned 16-bit number at `i`.
pub fn parse_u16(s: &[u8], i: usize) -> (r: Option<(u16, usize)>)
    requires
        i <= s@.len(),
    ensures
        match r {
            Some((v, j)) => parse_u16_spec(s@, i as int) == Some((v, j as int)) && j <= s@.len(),
            None => parse_u16_spec(s@, i as int) is None,
        },
{
    if i < s.len() && 0x30 <= s[i] && s[i] <= 0x39 {
        parse_digits_exec(s, i, 0)
    } else {
        None
    }
}

/// The end of a string scanned leniently from just after its opening
/// quote: a backslash skips the next byte, the unescaped quote ends it.
pub open spec fn skip_str_body(s: Seq<u8>, i: int) -> Option<int>
    decreases s.len() - i,
    when 0 <= i <= s.len()
{
    if i >= s.len() {
        None
    } else if s[i] == 0x22 {
        Some(i + 1)
    } else if s[i] == 0x5c {
        if i + 1 >= s.len() {
            None
        } else {
            skip_str_body(s, i + 2)
        }
    } else {
        skip_str_body(s, i + 1)
    }
}

fn skip_str_body_exec(s: &[u8], i: usize) -> (r: Option<usize>)
    requires
        i <= s@.len(),
    ensures
        match r {
            Some(j) => skip_str_body(s@, i as int) == Some(j as int) && i < j <= s@.len(),
            None => skip_str_body(s@, i as int) is None,
        },
    decreases s@.len() - i,
{
    if i >= s.len() {
        None
    } else if s[i] == 0x22 {
        Some(i + 1)
    } else if s[i] == 0x5c {
        if i + 1 >= s.len() {
            None
        } else {
            skip_str_body_exec(s, i + 2)
        }
    } else {
        skip_str_body_exec(s, i + 1)
    }
}

/// The end of a number token scanned from `i`.
pub open spec fn scan_num(s: Seq<u8>, i: int) -> int
    decreases s.len() - i,
    when 0 <= i <= s.len()
{
    if i < s.len() && is_num_byte(s[i]) {
        scan_num(s, i + 1)
    } else {
        i
    }
}

fn is_num_byte_exec(b: u8) -> (r: bool)
    ensures
        r == is_num_byte(b),
{
    (0x30 <= b && b <= 0x39) || b == 0x2b || b == 0x2d || b == 0x2e || b == 0x45 || b == 0x65
}

fn scan_num_exec(s: &[u8], i: usize) -> (r: usize)
    requires
        i <= s@.len(),
    ensures
        r == scan_num(s@, i as int),
        i <= r <= s@.len(),
    decreases s@.len() - i,
{
    if i < s.len() && is_num_byte_exec(s[i]) {
        scan_num_exec(s, i + 1)
    } else {
        i
    }
}

/// The end of the JSON value starting at `i`, whatever it holds: a
/// string, number, literal, object or array. `fuel` bounds the recursion;
/// one more than the bytes left always suffices.
pub open spec fn skip_value(s: Seq<u8>, i: int, fuel: nat) -> Option<int>
    decreases fuel,
{
    if fuel == 0 || !(0 <= i < s.len()) {
        None
    } else {
        let b = s[i];
        if b == 0x22 {
            skip_str_body(s, i + 1)
        } else if b == 0x7b {
            let j = skip_ws_spec(s, i + 1);
            if j < s.len() && s[j] == 0x7d {
                Some(j + 1)
            } else {
                skip_members(s, j, (fuel - 1) as nat)
            }
        } else if b == 0x5b {
            let j = skip_ws_spec(s, i + 1);
            if j < s.len() && s[j] == 0x5d {
                Some(j + 1)
            } else {
                skip_elements(s, j, (fuel - 1) as nat)
            }
        } else if b == 0x74 {
            if i + 4 <= s.len() && s[i + 1] == 0x72 && s[i + 2] == 0x75 && s[i + 3] == 0x65 {
                Some(i + 4)
            } else {
                None
            }
        } else if b == 0x66 {
            if i + 5 <= s.len() && s[i + 1] == 0x61 && s[i + 2] == 0x6c && s[i + 3] == 0x73 && s[i
                + 4] == 0x65 {
                Some(i + 5)
            } else {
                None
            }
        } else if b == 0x6e {
            if i + 4 <= s.len() && s[i + 1] == 0x75 && s[i + 2] == 0x6c && s[i + 3] == 0x6c {
                Some(i + 4)
            } else {
                None
            }
        } else if is_digit(b) || b == 0x2d {
            Some(scan_num(s, i))
        } else {
            None
        }
    }
}

/// Scans the members of an object from the first key to just past the
/// closing brace.
pub open spec fn skip_members(s: Seq<u8>, i: int, fuel: nat) -> Option<int>
    decreases fuel,
{
    if fuel == 0 || !(0 <= i < s.len()) || s[i] != 0x22 {
        None
    } else {
        match skip_str_body(s, i + 1) {
            None => None,
            Some(k_end) => {
                let c = skip_ws_spec(s, k_end);
                if !(c < s.len() && s[c] == 0x3a) {
                    None
                } else {
                    let v = skip_ws_spec(s, c + 1);
                    match skip_value(s, v, (fuel - 1) as nat) {
                        None => None,
                        Some(v_end) => {
                            let t = skip_ws_spec(s, v_end);
                            if t < s.len() && s[t] == 0x2c {
                                skip_members(s, skip_ws_spec(s, t + 1), (fuel - 1) as nat)
                            } else if t < s.len() && s[t] == 0x7d {
                                Some(t + 1)
                            } else {
                                None
                            }
                        },
                    }
                }
            },
        }
    }
}

/// Scans the elements of an array from the first element to just past the
/// closing bracket.
pub open spec fn skip_elements(s: Seq<u8>, i: int, fuel: nat) -> Option<int>
    decreases fuel,
{
    if fuel == 0 {
        None
    } else {
        match skip_value(s, i, (fuel - 1) as nat) {
            None => None,
            Some(v_end) => {
                let t = skip_ws_spec(s, v_end);
                if t < s.len() && s[t] == 0x2c {
                    skip_elements(s, skip_ws_spec(s, t + 1), (fuel - 1) as nat)
                } else if t < s.len() && s[t] == 0x5d {
                    Some(t + 1)
                } else {
                    None
                }
            },
        }
    }
}

/// A scan never stands still: what it returns lies past where it began,
/// and inside the buffer.
pub proof fn lemma_skip_value_bounds(s: Seq<u8>, i: int, fuel: nat)
    requires
        0 <= i <= s.len(),
        skip_value(s, i, fuel) is Some,
    ensures
        i < skip_value(s, i, fuel)->Some_0 <= s.len(),
    decreases fuel,
{
    if fuel > 0 && 0 <= i < s.len() {
        let b = s[i];
        if b == 0x22 {
            lemma_skip_str_bounds(s, i + 1);
        } else if b == 0x7b {
            let j = skip_ws_spec(s, i + 1);
            lemma_skip_ws_bounds(s, i + 1);
            if !(j < s.len() && s[j] == 0x7d) {
                lemma_skip_members_bounds(s, j, (fuel - 1) as nat);
            }
        } else if b == 0x5b {
            let j = skip_ws_spec(s, i + 1);
            lemma_skip_ws_bounds(s, i + 1);
            if !(j < s.len() && s[j] == 0x5d) {
                lemma_skip_elements_bounds(s, j, (fuel - 1) as nat);
            }
        } else if is_digit(b) || b == 0x2d {
            assert(is_num_byte(b));
            assert(scan_num(s, i) == scan_num(s, i + 1));
            lemma_scan_num_bounds(s, i + 1);
        }
    }
}

pub proof fn lemma_skip_members_bounds(s: Seq<u8>, i: int, fuel: nat)
    requires
        0 <= i <= s.len(),
        skip_members(s, i, fuel) is Some,
    ensures
        i < skip_members(s, i, fuel)->Some_0 <= s.len(),
    decreases fuel,
{
    if fuel > 0 && 0 <= i < s.len() && s[i] == 0x22 {
        if let Some(k_end) = skip_str_body(s, i + 1) {
            lemma_skip_str_bounds(s, i + 1);
            let c = skip_ws_spec(s, k_end);
            lemma_skip_ws_bounds(s, k_end);
            if c < s.len() && s[c] == 0x3a {
                let v = skip_ws_spec(s, c + 1);
                lemma_skip_ws_bounds(s, c + 1);
                if let Some(v_end) = skip_value(s, v, (fuel - 1) as nat) {
                    lemma_skip_value_bounds(s, v, (fuel - 1) as nat);
                    let t = skip_ws_spec(s, v_end);
                    lemma_skip_ws_bounds(s, v_end);
                    if t < s.len() && s[t] == 0x2c {
                        lemma_skip_ws_bounds(s, t + 1);
                        lemma_skip_members_bounds(s, skip_ws_spec(s, t + 1), (fuel - 1) as nat);
                    }
                }
            }
        }
    }
}

pub proof fn lemma_skip_elements_bounds(s: Seq<u8>, i: int, fuel: nat)
    requires
        0 <= i <= s.len(),
        skip_elements(s, i, fuel) is Some,
    ensures
        i < skip_elements(s, i, fuel)->Some_0 <= s.len(),
    decreases fuel,
{
    if fuel > 0 {
        if let Some(v_end) = skip_value(s, i, (fuel - 1) as nat) {
            lemma_skip_value_bounds(s, i, (fuel - 1) as nat);
            let t = skip_ws_spec(s, v_end);
            lemma_skip_ws_bounds(s, v_end);
            if t < s.len() && s[t] == 0x2c {
                lemma_skip_ws_bounds(s, t + 1);
                lemma_skip_elements_bounds(s, skip_ws_spec(s, t + 1), (fuel - 1) as nat);
            }
        }
    }
}

pub proof fn lemma_skip_str_bounds(s: Seq<u8>, i: int)
    requires
        0 <= i <= s.len(),
        skip_str_body(s, i) is Some,
    ensures
        i < skip_str_body(s, i)->Some_0 <= s.len(),
    decreases s.len() - i,
{
    if i < s.len() && s[i] != 0x22 {
        if s[i] == 0x5c {
            if i + 1 < s.len() {
                lemma_skip_str_bounds(s, i + 2);
            }
        } else {
            lemma_skip_str_bounds(s, i + 1);
        }
    }
}

pub proof fn lemma_skip_ws_bounds(s: Seq<u8>, i: int)
    requires
        0 <= i <= s.len(),
    ensures
        i <= skip_ws_spec(s, i) <= s.len(),
    decreases s.len() - i,
{
    if i < s.len() && is_ws(s[i]) {
        lemma_skip_ws_bounds(s, i + 1);
    }
}

pub proof fn lemma_scan_num_bounds(s: Seq<u8>, i: int)
    requires
        0 <= i <= s.len(),
    ensures
        i <= scan_num(s, i) <= s.len(),
    decreases s.len() - i,
{
    if i < s.len() && is_num_byte(s[i]) {
        lemma_scan_num_bounds(s, i + 1);
    }
}

pub(crate) fn skip_value_fueled(s: &[u8], i: usize, fuel: usize) -> (r: Option<usize>)
    requires
        i <= s@.len(),
    ensures
        match r {
            Some(j) => skip_value(s@, i as int, fuel as nat) == Some(j as int) && i < j
                <= s@.len(),
            None => skip_value(s@, i as int, fuel as nat) is None,
        },
    decreases fuel,
{
    if fuel == 0 || i >= s.len() {
        return None;
    }
    let b = s[i];
    let r: Option<usize> = if b == 0x22 {
        skip_str_body_exec(s, i + 1)
    } else if b == 0x7b {
        let j = skip_ws(s, i + 1);
        if j < s.len() && s[j] == 0x7d {
            Some(j + 1)
        } else {
            skip_members_exec(s, j, fuel - 1)
        }
    } else if b == 0x5b {
        let j = skip_ws(s, i + 1);
        if j < s.len() && s[j] == 0x5d {
            Some(j + 1)
        } else {
            skip_elements_exec(s, j, fuel - 1)
        }
    } else if b == 0x74 {
        if s.len() - i >= 4 && s[i + 1] == 0x72 && s[i + 2] == 0x75 && s[i + 3] == 0x65 {
            Some(i + 4)
        } else {
            None
        }
    } else if b == 0x66 {
        if s.len() - i >= 5 && s[i + 1] == 0x61 && s[i + 2] == 0x6c && s[i + 3] == 0x73 && s[i + 4]
            == 0x65 {
            Some(i + 5)
        } else {
            None
        }
    } else if b == 0x6e {
        if s.len() - i >= 4 && s[i + 1] == 0x75 && s[i + 2] == 0x6c && s[i + 3] == 0x6c {
            Some(i + 4)
        } else {
            None
        }
    } else if (0x30 <= b && b <= 0x39) || b == 0x2d {
        Some(scan_num_exec(s, i))
    } else {
        None
    };
    proof {
        if skip_value(s@, i as int, fuel as nat) is Some {
            lemma_skip_value_bounds(s@, i as int, fuel as nat);
        }
    }
    r
}

fn skip_members_exec(s: &[u8], i: usize, fuel: usize) -> (r: Option<usize>)
    requires
        i <= s@.len(),
    ensures
        match r {
            Some(j) => skip_members(s@, i as int, fuel as nat) == Some(j as int) && i < j
                <= s@.len(),
            None => skip_members(s@, i as int, fuel as nat) is None,
        },
    decreases fuel,
{
    if fuel == 0 || i >= s.len() || s[i] != 0x22 {
        return None;
    }
    let r: Option<usize> = match skip_str_body_exec(s, i + 1) {
        None => None,
        Some(k_end) => {
            let c = skip_ws(s, k_end);
            if !(c < s.len() && s[c] == 0x3a) {
                None
            } else {
                let v = skip_ws(s, c + 1);
                match skip_value_fueled(s, v, fuel - 1) {
                    None => None,
                    Some(v_end) => {
                        let t = skip_ws(s, v_end);
                        if t < s.len() && s[t] == 0x2c {
                            let n = skip_ws(s, t + 1);
                            skip_members_exec(s, n, fuel - 1)
                        } else if t < s.len() && s[t] == 0x7d {
                            Some(t + 1)
                        } else {
                            None
                        }
                    },
                }
            }
        },
    };
    proof {
        if skip_members(s@, i as int, fuel as nat) is Some {
            lemma_skip_members_bounds(s@, i as int, fuel as nat);
        }
    }
    r
}

fn skip_elements_exec(s: &[u8], i: usize, fuel: usize) -> (r: Option<usize>)
    requires
        i <= s@.len(),
    ensures
        match r {
            Some(j) => skip_elements(s@, i as int, fuel as nat) == Some(j as int) && j <= s@.len(),
            None => skip_elements(s@, i as int, fuel as nat) is None,
        },
    decreases fuel,
{
    if fuel == 0 {
        return None;
    }
    match skip_value_fueled(s, i, fuel - 1) {
        None => None,
        Some(v_end) => {
            let t = skip_ws(s, v_end);
            if t < s.len() && s[t] == 0x2c {
                let n = skip_ws(s, t + 1);
                skip_elements_exec(s, n, fuel - 1)
            } else if t < s.len() && s[t] == 0x5d {
                Some(t + 1)
            } else {
                None
            }
        },
    }
}

/// The value of the digit run `[i, j)`, most significant first.
pub open spec fn digits_val(s: Seq<u8>, i: int, j: int) -> int
    decreases j - i,
    when i <= j
{
    if i >= j {
        0
    } else {
        (s[i] - 0x30) * crate::utils::pow10(j - i - 1) + digits_val(s, i + 1, j)
    }
}

proof fn lemma_pow10_pos(k: int)
    ensures
        crate::utils::pow10(k) >= 1,
    decreases (if k <= 0 { 0int } else { k }),
{
    if k > 0 {
        lemma_pow10_pos(k - 1);
    }
}

proof fn lemma_digits_val_nonneg(s: Seq<u8>, i: int, j: int)
    requires
        0 <= i <= j <= s.len(),
        forall|k: int| i <= k < j ==> is_digit(#[trigger] s[k]),
    ensures
        digits_val(s, i, j) >= 0,
    decreases j - i,
{
    if i < j {
        lemma_digits_val_nonneg(s, i + 1, j);
        lemma_pow10_pos(j - i - 1);
        assert((s[i] - 0x30) * crate::utils::pow10(j - i - 1) >= 0) by (nonlinear_arith)
            requires
                s[i] - 0x30 >= 0,
                crate::utils::pow10(j - i - 1) >= 1,
        ;
    }
}

proof fn lemma_digits_val_snoc(s: Seq<u8>, i: int, j: int)
    requires
        0 <= i <= j < s.len(),
    ensures
        digits_val(s, i, j + 1) == 10 * digits_val(s, i, j) + (s[j] - 0x30),
    decreases j - i,
{
    if i == j {
        assert(crate::utils::pow10(0) == 1);
        assert(digits_val(s, j, j + 1) == (s[j] - 0x30) * 1 + digits_val(s, j + 1, j + 1));
    } else {
        lemma_digits_val_snoc(s, i + 1, j);
        let p = crate::utils::pow10(j - i - 1);
        let d0 = s[i] - 0x30;
        assert(crate::utils::pow10(j + 1 - i - 1) == 10 * p);
        assert(digits_val(s, i, j + 1) == d0 * (10 * p) + digits_val(s, i + 1, j + 1));
        assert(digits_val(s, i, j) == d0 * p + digits_val(s, i + 1, j));
        assert(d0 * (10 * p) == 10 * (d0 * p)) by (nonlinear_arith);
    }
}

/// Parsing a digit run accumulates its value: from `acc`, the run `[i, j)`
/// followed by a non-digit yields `acc` shifted past the run plus the
/// run's value.
pub proof fn lemma_parse_digits_exact(s: Seq<u8>, i: int, j: int, acc: int)
    requires
        0 <= i <= j <= s.len(),
        forall|k: int| i <= k < j ==> is_digit(#[trigger] s[k]),
        j < s.len() ==> !is_digit(s[j]),
        0 <= acc,
        acc * crate::utils::pow10(j - i) + digits_val(s, i, j) <= 65535,
    ensures
        parse_digits(s, i, acc) == Some((acc * crate::utils::pow10(j - i) + digits_val(s, i, j), j)),
    decreases j - i,
{
    lemma_digits_val_nonneg(s, i, j);
    if i >= j {
        assert(crate::utils::pow10(0) == 1);
    } else {
        let d = s[i] - 0x30;
        let acc2 = acc * 10 + d;
        let p1 = crate::utils::pow10(j - i - 1);
        lemma_pow10_pos(j - i - 1);
        lemma_digits_val_nonneg(s, i + 1, j);
        assert(crate::utils::pow10(j - i) == 10 * p1);
        assert(acc2 * p1 == acc * (10 * p1) + d * p1) by (nonlinear_arith)
            requires
                acc2 == acc * 10 + d,
        ;
        assert(digits_val(s, i, j) == d * p1 + digits_val(s, i + 1, j));
        assert(acc2 <= acc2 * p1 + digits_val(s, i + 1, j)) by (nonlinear_arith)
            requires
                acc2 >= 0,
                p1 >= 1,
                digits_val(s, i + 1, j) >= 0,
        ;
        lemma_parse_digits_exact(s, i + 1, j, acc2);
    }
}

/// The decimal rendering holds digits alone.
pub proof fn lemma_dec_all_digits(n: u64, k: int)
    requires
        0 <= k < crate::utils::dec_u64(n).len(),
    ensures
        is_digit(crate::utils::dec_u64(n)[k]),
    decreases n,
{
    if n >= 10 {
        if k < crate::utils::dec_u64((n / 10) as u64).len() {
            lemma_dec_all_digits(n / 10, k);
        }
    }
}

/// The value of a rendered number's digit run is the number itself.
pub proof fn lemma_dec_val(s: Seq<u8>, i: int, n: u64)
    requires
        0 <= i,
        i + crate::utils::dec_u64(n).len() <= s.len(),
        s.subrange(i, i + crate::utils::dec_u64(n).len()) == crate::utils::dec_u64(n),
    ensures
        digits_val(s, i, i + crate::utils::dec_u64(n).len()) == n,
    decreases n,
{
    let d = crate::utils::dec_u64(n);
    if n < 10 {
        assert(s.subrange(i, i + d.len() as int)[0] == d[0]);
        assert(d.len() == 1 && d[0] == 0x30 + n);
        assert(crate::utils::pow10(0) == 1);
        assert(digits_val(s, i + 1, i + 1) == 0);
        assert(digits_val(s, i, i + 1) == (s[i] - 0x30) * crate::utils::pow10(0) + digits_val(
            s,
            i + 1,
            i + 1,
        ));
    } else {
        let dh = crate::utils::dec_u64((n / 10) as u64);
        assert(d =~= dh + seq![(0x30 + n % 10) as u8]);
        assert(d.len() == dh.len() + 1);
        let j = i + dh.len() as int;
        assert forall|k: int| 0 <= k < dh.len() implies s[i + k] == dh[k] by {
            assert(s.subrange(i, i + d.len() as int)[k] == d[k]);
            assert(d[k] == dh[k]);
        }
        assert(s.subrange(i, j) =~= dh);
        lemma_dec_val(s, i, n / 10);
        assert(digits_val(s, i, j) == (n / 10) as u64);
        assert(s.subrange(i, i + d.len() as int)[dh.len() as int] == d[dh.len() as int]);
        assert(s[j] == 0x30 + n % 10);
        lemma_digits_val_snoc(s, i, j);
        assert(digits_val(s, i, j + 1) == 10 * digits_val(s, i, j) + (s[j] - 0x30));
        assert(digits_val(s, i, j + 1) == 10 * ((n as int) / 10) + ((n as int) % 10));
        assert(10 * ((n as int) / 10) + (n as int) % 10 == n as int);
        assert(i + d.len() == j + 1);
    }
}

/// Parsing the rendered form of a small number, followed by a non-digit,
/// gives the number back and stops right after it.
pub proof fn lemma_parse_u16_dec(s: Seq<u8>, i: int, n: u16)
    requires
        0 <= i,
        i + crate::utils::dec_u64(n as u64).len() <= s.len(),
        s.subrange(i, i + crate::utils::dec_u64(n as u64).len()) == crate::utils::dec_u64(
            n as u64,
        ),
        i + crate::utils::dec_u64(n as u64).len() < s.len() ==> !is_digit(
            s[i + crate::utils::dec_u64(n as u64).len()],
        ),
    ensures
        parse_u16_spec(s, i) == Some((n, i + crate::utils::dec_u64(n as u64).len())),
{
    let d = crate::utils::dec_u64(n as u64);
    let j = i + d.len();
    assert forall|k: int| i <= k < j implies is_digit(#[trigger] s[k]) by {
        lemma_dec_all_digits(n as u64, k - i);
        assert(s[k] == d[k - i]);
    }
    lemma_dec_val(s, i, n as u64);
    assert(crate::utils::pow10(j - i) >= 1) by {
        lemma_pow10_pos(j - i);
    }
    lemma_parse_digits_exact(s, i, j, 0);
    assert(s[i] == d[0]);
    lemma_dec_all_digits(n as u64, 0);
}

/// Parsing an escaped string body recovers exactly the bytes that were
/// escaped, and stops right after the closing quote.
pub proof fn lemma_parse_esc(s: Seq<u8>, i: int, x: Seq<u8>, acc: Seq<u8>)
    requires
        0 <= i,
        i + esc(x).len() + 1 <= s.len(),
        s.subrange(i, i + esc(x).len()) == esc(x),
        s[i + esc(x).len()] == 0x22,
    ensures
        parse_str_body(s, i, acc) == Some((acc + x, i + esc(x).len() + 1)),
    decreases x.len(),
{
    if x.len() == 0 {
        assert(esc(x).len() == 0);
        assert(s[i] == 0x22);
        assert(acc + x =~= acc);
    } else {
        let b = x[0];
        let xt = x.subrange(1, x.len() as int);
        let eb = esc_byte(b);
        assert(esc(x) == eb + esc(xt));
        let n = esc(x).len() as int;
        assert(s.subrange(i, i + n)[0] == esc(x)[0]);
        assert((eb + esc(xt))[0] == eb[0]);
        assert(s[i] == eb[0]);
        if eb.len() >= 2 {
            assert(s.subrange(i, i + n)[1] == esc(x)[1]);
            assert((eb + esc(xt))[1] == eb[1]);
            assert(s[i + 1] == eb[1]);
        }
        if eb.len() == 6 {
            assert(s.subrange(i, i + n)[2] == esc(x)[2]);
            assert(s.subrange(i, i + n)[3] == esc(x)[3]);
            assert(s.subrange(i, i + n)[4] == esc(x)[4]);
            assert(s.subrange(i, i + n)[5] == esc(x)[5]);
            assert((eb + esc(xt))[2] == eb[2]);
            assert((eb + esc(xt))[3] == eb[3]);
            assert((eb + esc(xt))[4] == eb[4]);
            assert((eb + esc(xt))[5] == eb[5]);
            assert(s[i + 2] == eb[2] && s[i + 3] == eb[3] && s[i + 4] == eb[4] && s[i + 5]
                == eb[5]);
        }
        let i2 = i + eb.len();
        assert forall|k: int| 0 <= k < esc(xt).len() implies s[i2 + k] == esc(xt)[k] by {
            assert(s.subrange(i, i + esc(x).len() as int)[eb.len() + k] == esc(x)[eb.len() + k]);
            assert((eb + esc(xt))[eb.len() + k] == esc(xt)[k]);
        }
        assert(s.subrange(i2, i2 + esc(xt).len()) =~= esc(xt));
        assert(acc.push(b) + xt =~= acc + x);
        if b == 0x22 || b == 0x5c {
            assert(s[i] == 0x5c && s[i + 1] == b);
            lemma_parse_esc(s, i + 2, xt, acc.push(b));
        } else if b == 0x0a {
            assert(s[i] == 0x5c && s[i + 1] == 0x6e);
            lemma_parse_esc(s, i + 2, xt, acc.push(b));
        } else if b == 0x0d {
            assert(s[i] == 0x5c && s[i + 1] == 0x72);
            lemma_parse_esc(s, i + 2, xt, acc.push(b));
        } else if b == 0x09 {
            assert(s[i] == 0x5c && s[i + 1] == 0x74);
            lemma_parse_esc(s, i + 2, xt, acc.push(b));
        } else if b == 0x08 {
            assert(s[i] == 0x5c && s[i + 1] == 0x62);
            lemma_parse_esc(s, i + 2, xt, acc.push(b));
        } else if b == 0x0c {
            assert(s[i] == 0x5c && s[i + 1] == 0x66);
            lemma_parse_esc(s, i + 2, xt, acc.push(b));
        } else if b < 0x20 {
            assert(s[i] == 0x5c && s[i + 1] == 0x75 && s[i + 2] == 0x30 && s[i + 3] == 0x30);
            assert(s[i + 4] == hex_digit((b / 16) as u8) && s[i + 5] == hex_digit((b % 16) as u8));
            assert(hex_value(hex_digit((b / 16) as u8)) == b / 16);
            assert(hex_value(hex_digit((b % 16) as u8)) == b % 16);
            assert((b / 16) as int * 16 + (b % 16) as int == b as int);
            lemma_parse_esc(s, i + 6, xt, acc.push(b));
        } else {
            assert(s[i] == b && b >= 0x20 && b != 0x22 && b != 0x5c);
            lemma_parse_esc(s, i + 1, xt, acc.push(b));
        }
    }
}

/// The lenient scan of an escaped string body stops at the same place the
/// strict parse does: right after the closing quote.
pub proof fn lemma_skip_esc(s: Seq<u8>, i: int, x: Seq<u8>)
    requires
        0 <= i,
        i + esc(x).len() + 1 <= s.len(),
        s.subrange(i, i + esc(x).len()) == esc(x),
        s[i + esc(x).len()] == 0x22,
    ensures
        skip_str_body(s, i) == Some(i + esc(x).len() + 1),
    decreases x.len(),
{
    if x.len() == 0 {
        assert(s[i] == 0x22);
    } else {
        let b = x[0];
        let xt = x.subrange(1, x.len() as int);
        let eb = esc_byte(b);
        assert(esc(x) == eb + esc(xt));
        let n = esc(x).len() as int;
        assert(s.subrange(i, i + n)[0] == esc(x)[0]);
        assert((eb + esc(xt))[0] == eb[0]);
        assert(s[i] == eb[0]);
        if eb.len() >= 2 {
            assert(s.subrange(i, i + n)[1] == esc(x)[1]);
            assert((eb + esc(xt))[1] == eb[1]);
            assert(s[i + 1] == eb[1]);
        }
        if eb.len() == 6 {
            assert(s.subrange(i, i + n)[2] == esc(x)[2]);
            assert(s.subrange(i, i + n)[3] == esc(x)[3]);
            assert(s.subrange(i, i + n)[4] == esc(x)[4]);
            assert(s.subrange(i, i + n)[5] == esc(x)[5]);
            assert((eb + esc(xt))[2] == eb[2]);
            assert((eb + esc(xt))[3] == eb[3]);
            assert((eb + esc(xt))[4] == eb[4]);
            assert((eb + esc(xt))[5] == eb[5]);
            assert(s[i + 2] == eb[2] && s[i + 3] == eb[3] && s[i + 4] == eb[4] && s[i + 5]
                == eb[5]);
        }
        let i2 = i + eb.len();
        assert forall|k: int| 0 <= k < esc(xt).len() implies s[i2 + k] == esc(xt)[k] by {
            assert(s.subrange(i, i + esc(x).len() as int)[eb.len() + k] == esc(x)[eb.len() + k]);
            assert((eb + esc(xt))[eb.len() + k] == esc(xt)[k]);
        }
        assert(s.subrange(i2, i2 + esc(xt).len()) =~= esc(xt));
        if eb.len() == 2 {
            assert(s[i] == 0x5c);
            lemma_skip_esc(s, i + 2, xt);
        } else if eb.len() == 6 {
            assert(s[i] == 0x5c && s[i + 1] == 0x75);
            assert(s[i + 2] == 0x30 && s[i + 3] == 0x30);
            assert(hex_digit((b / 16) as u8) != 0x22 && hex_digit((b / 16) as u8) != 0x5c);
            assert(hex_digit((b % 16) as u8) != 0x22 && hex_digit((b % 16) as u8) != 0x5c);
            lemma_skip_esc(s, i + 6, xt);
            assert(s[i + 2] != 0x22 && s[i + 2] != 0x5c);
            assert(s[i + 3] != 0x22 && s[i + 3] != 0x5c);
            assert(s[i + 4] != 0x22 && s[i + 4] != 0x5c);
            assert(s[i + 5] != 0x22 && s[i + 5] != 0x5c);
            assert(i + 6 < s.len());
            assert(skip_str_body(s, i + 5) == skip_str_body(s, i + 6));
            assert(skip_str_body(s, i + 4) == skip_str_body(s, i + 5));
            assert(skip_str_body(s, i + 3) == skip_str_body(s, i + 4));
            assert(skip_str_body(s, i + 2) == skip_str_body(s, i + 3));
        } else {
            assert(eb.len() == 1);
            assert(s[i] == b && b != 0x22 && b != 0x5c);
            lemma_skip_esc(s, i + 1, xt);
        }
    }
}

/// The number scan over a rendered number stops at its first non-number
/// byte.
pub proof fn lemma_scan_num_run(s: Seq<u8>, i: int, j: int)
    requires
        0 <= i <= j <= s.len(),
        forall|k: int| i <= k < j ==> is_num_byte(#[trigger] s[k]),
        j < s.len() ==> !is_num_byte(s[j]),
    ensures
        scan_num(s, i) == j,
    decreases j - i,
{
    if i < j {
        lemma_scan_num_run(s, i + 1, j);
    }
}

/// Finds the extent of the JSON value at `i`.
pub fn skip_value_at(s: &[u8], i: usize) -> (r: Option<usize>)
    requires
        i <= s@.len(),
        s@.len() + 2 <= usize::MAX,
    ensures
        match r {
            Some(j) => skip_value(s@, i as int, (s@.len() + 2) as nat) == Some(j as int) && i < j
                <= s@.len(),
            None => skip_value(s@, i as int, (s@.len() + 2) as nat) is None,
        },
{
    skip_value_fueled(s, i, s.len() + 2)
}

} // verus!
