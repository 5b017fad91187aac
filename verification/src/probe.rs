use vstd::prelude::*;
use vstd::string::StrSliceExecFns;

verus! {

/// A probe message carried in a Text frame: a sequence number for loss
/// tracking and the sender's timestamp in milliseconds, which is carried
/// but never consulted.
#[derive(Debug, PartialEq, Eq, Structural, Clone, Copy)]
pub struct Probe {
    pub seq: u64,
    pub ts: u64,
}

/// JSON insignificant whitespace.
pub open spec fn is_ws_char(c: char) -> bool {
    c == ' ' || c == '\t' || c == '\n' || c == '\r'
}

/// An ASCII decimal digit.
pub open spec fn is_digit_char(c: char) -> bool {
    48 <= c as int <= 57
}

/// The numeric value of an ASCII decimal digit.
pub open spec fn digit_val(c: char) -> int {
    c as int - 48
}

/// The first index at or after `i` holding a non-whitespace character.
pub open spec fn skip_ws(s: Seq<char>, i: int) -> int
    decreases s.len() - i,
{
    if 0 <= i < s.len() && is_ws_char(s[i]) {
        skip_ws(s, i + 1)
    } else {
        i
    }
}

/// The first index at or after `i` that ends a plain (escape-free) string
/// body: a quote, a backslash, or the end of input.
pub open spec fn scan_key_end(s: Seq<char>, i: int) -> int
    decreases s.len() - i,
{
    if 0 <= i < s.len() && s[i] != '"' && s[i] != '\\' {
        scan_key_end(s, i + 1)
    } else {
        i
    }
}

/// The first index at or after `i` holding a non-digit character.
pub open spec fn scan_digits_end(s: Seq<char>, i: int) -> int
    decreases s.len() - i,
{
    if 0 <= i < s.len() && is_digit_char(s[i]) {
        scan_digits_end(s, i + 1)
    } else {
        i
    }
}

/// The value of the decimal digits at indices `[i, j)`.
pub open spec fn digits_value(s: Seq<char>, i: int, j: int) -> int
    decreases j - i,
{
    if j <= i {
        0
    } else {
        digits_value(s, i, j - 1) * 10 + digit_val(s[j - 1])
    }
}

/// Parse a quoted key without escapes at index `i`: the key's characters
/// and the index just past the closing quote.
pub open spec fn parse_string(s: Seq<char>, i: int) -> Option<(Seq<char>, int)> {
    if 0 <= i < s.len() && s[i] == '"' {
        let e = scan_key_end(s, i + 1);
        if e < s.len() && s[e] == '"' {
            Some((s.subrange(i + 1, e), e + 1))
        } else {
            None
        }
    } else {
        None
    }
}

/// Parse an unsigned JSON integer at index `i`: plain digits, no leading
/// zero unless the value is zero itself, and small enough for a 64-bit
/// word. Yields the value and the index just past the digits.
pub open spec fn parse_number(s: Seq<char>, i: int) -> Option<(u64, int)> {
    let e = scan_digits_end(s, i);
    if e == i {
        None
    } else if s[i] == '0' && e > i + 1 {
        None
    } else if digits_value(s, i, e) > u64::MAX {
        None
    } else {
        Some((digits_value(s, i, e) as u64, e))
    }
}

/// Parse one `"key": value` member at index `i`: the key, the value, and
/// the index just past the value.
pub open spec fn parse_member(s: Seq<char>, i: int) -> Option<(Seq<char>, u64, int)> {
    match parse_string(s, i) {
        Some((key, j)) => {
            let k = skip_ws(s, j);
            if k < s.len() && s[k] == ':' {
                match parse_number(s, skip_ws(s, k + 1)) {
                    Some((v, e)) => Some((key, v, e)),
                    None => None,
                }
            } else {
                None
            }
        },
        None => None,
    }
}

/// The characters of the sequence-number key.
pub open spec fn seq_key() -> Seq<char> {
    seq!['s', 'e', 'q']
}

/// The characters of the timestamp key.
pub open spec fn ts_key() -> Seq<char> {
    seq!['t', 's']
}

/// The probe grammar: exactly one object holding exactly the two members
/// `"seq"` and `"ts"` in either order, with unsigned 64-bit integer values,
/// insignificant whitespace allowed between tokens, and nothing else before
/// or after. Yields the `seq` and `ts` values.
pub open spec fn parse_probe_spec(s: Seq<char>) -> Option<(u64, u64)> {
    let i = skip_ws(s, 0);
    if i < s.len() && s[i] == '{' {
        match parse_member(s, skip_ws(s, i + 1)) {
            Some((k1, v1, j1)) => {
                let c = skip_ws(s, j1);
                if c < s.len() && s[c] == ',' {
                    match parse_member(s, skip_ws(s, c + 1)) {
                        Some((k2, v2, j2)) => {
                            let e = skip_ws(s, j2);
                            if e < s.len() && s[e] == '}' && skip_ws(s, e + 1) == s.len() {
                                if k1 == seq_key() && k2 == ts_key() {
                                    Some((v1, v2))
                                } else if k1 == ts_key() && k2 == seq_key() {
                                    Some((v2, v1))
                                } else {
                                    None
                                }
                            } else {
                                None
                            }
                        },
                        None => None,
                    }
                } else {
                    None
                }
            },
            None => None,
        }
    } else {
        None
    }
}

fn is_ws_exec(c: char) -> (r: bool)
    ensures
        r == is_ws_char(c),
{
    c == ' ' || c == '\t' || c == '\n' || c == '\r'
}

fn skip_ws_exec(s: &str, i: usize, n: usize) -> (r: usize)
    requires
        n == s@.len(),
        i <= n,
    ensures
        i <= r <= n,
        r == skip_ws(s@, i as int),
    decreases n - i,
{
    if i < n && is_ws_exec(s.get_char(i)) {
        skip_ws_exec(s, i + 1, n)
    } else {
        i
    }
}

fn scan_key_end_exec(s: &str, i: usize, n: usize) -> (r: usize)
    requires
        n == s@.len(),
        i <= n,
    ensures
        i <= r <= n,
        r == scan_key_end(s@, i as int),
    decreases n - i,
{
    if i < n {
        let c = s.get_char(i);
        if c != '"' && c != '\\' {
            return scan_key_end_exec(s, i + 1, n);
        }
    }
    i
}

fn scan_digits_end_exec(s: &str, i: usize, n: usize) -> (r: usize)
    requires
        n == s@.len(),
        i <= n,
    ensures
        i <= r <= n,
        r == scan_digits_end(s@, i as int),
        forall|k: int| i <= k < r ==> is_digit_char(s@[k]),
    decreases n - i,
{
    if i < n {
        let c = s.get_char(i);
        let u = c as u32;
        if 48 <= u && u <= 57 {
            return scan_digits_end_exec(s, i + 1, n);
        }
    }
    i
}

fn digits_to_u64(s: &str, i: usize, j: usize, n: usize) -> (r: Option<u64>)
    requires
        n == s@.len(),
        i <= j <= n,
        forall|k: int| i <= k < j ==> is_digit_char(s@[k]),
    ensures
        match r {
            Some(v) => digits_value(s@, i as int, j as int) == v,
            None => digits_value(s@, i as int, j as int) > u64::MAX,
        },
    decreases j - i,
{
    if j == i {
        Some(0)
    } else {
        match digits_to_u64(s, i, j - 1, n) {
            None => None,
            Some(v) => {
                let c = s.get_char(j - 1);
                let d: u64 = (c as u32 - 48) as u64;
                match v.checked_mul(10) {
                    None => None,
                    Some(m) => m.checked_add(d),
                }
            },
        }
    }
}

fn parse_number_exec(s: &str, i: usize, n: usize) -> (r: Option<(u64, usize)>)
    requires
        n == s@.len(),
        i <= n,
    ensures
        match parse_number(s@, i as int) {
            Some(p) => r matches Some(q) && q.0 == p.0 && q.1 == p.1 && i < q.1 <= n,
            None => r is None,
        },
{
    let e = scan_digits_end_exec(s, i, n);
    if e == i {
        None
    } else if s.get_char(i) == '0' && e > i + 1 {
        None
    } else {
        match digits_to_u64(s, i, e, n) {
            Some(v) => Some((v, e)),
            None => None,
        }
    }
}

fn parse_string_exec(s: &str, i: usize, n: usize) -> (r: Option<(usize, usize)>)
    requires
        n == s@.len(),
        i <= n,
    ensures
        parse_string(s@, i as int) is Some <==> r is Some,
        r matches Some(q) ==> {
            &&& i < q.0 <= q.1 && q.1 + 1 <= n
            &&& parse_string(s@, i as int) == Some(
                (s@.subrange(q.0 as int, q.1 as int), q.1 + 1),
            )
        },
{
    if i < n && s.get_char(i) == '"' {
        let e = scan_key_end_exec(s, i + 1, n);
        if e < n && s.get_char(e) == '"' {
            Some((i + 1, e))
        } else {
            None
        }
    } else {
        None
    }
}

fn parse_member_exec(s: &str, i: usize, n: usize) -> (r: Option<(usize, usize, u64, usize)>)
    requires
        n == s@.len(),
        i <= n,
    ensures
        parse_member(s@, i as int) is Some <==> r is Some,
        r matches Some(q) ==> {
            &&& q.0 <= q.1 && q.1 <= n && q.3 <= n
            &&& parse_member(s@, i as int) == Some(
                (s@.subrange(q.0 as int, q.1 as int), q.2, q.3 as int),
            )
        },
{
    match parse_string_exec(s, i, n) {
        None => None,
        Some((st, en)) => {
            let k = skip_ws_exec(s, en + 1, n);
            if k < n && s.get_char(k) == ':' {
                let m = skip_ws_exec(s, k + 1, n);
                match parse_number_exec(s, m, n) {
                    Some((v, e)) => Some((st, en, v, e)),
                    None => None,
                }
            } else {
                None
            }
        },
    }
}

/// Whether the key at `[st, en)` is `"seq"` (1), `"ts"` (2), or neither (0).
fn key_kind(s: &str, st: usize, en: usize, n: usize) -> (k: u8)
    requires
        n == s@.len(),
        st <= en <= n,
    ensures
        (k == 1) <==> s@.subrange(st as int, en as int) == seq_key(),
        (k == 2) <==> s@.subrange(st as int, en as int) == ts_key(),
        k == 0 || k == 1 || k == 2,
{
    let ghost key = s@.subrange(st as int, en as int);
    if en - st == 3 && s.get_char(st) == 's' && s.get_char(st + 1) == 'e' && s.get_char(st + 2)
        == 'q' {
        proof {
            assert(key =~= seq_key());
            assert(key != ts_key());
        }
        1
    } else if en - st == 2 && s.get_char(st) == 't' && s.get_char(st + 1) == 's' {
        proof {
            assert(key =~= ts_key());
            assert(key != seq_key());
        }
        2
    } else {
        proof {
            if key == seq_key() {
                assert(key.len() == 3);
                assert(key[0] == 's' && key[1] == 'e' && key[2] == 'q');
                assert(s@[st as int] == 's' && s@[st as int + 1] == 'e' && s@[st as int + 2]
                    == 'q');
            }
            if key == ts_key() {
                assert(key.len() == 2);
                assert(key[0] == 't' && key[1] == 's');
                assert(s@[st as int] == 't' && s@[st as int + 1] == 's');
            }
        }
        0
    }
}

/// Parse a Text payload as a probe message. Parsing is strict: exactly the
/// two members `"seq"` and `"ts"` with plain unsigned integer values, in
/// either order; anything else — extra members, escapes, signs, fractions,
/// out-of-range values, trailing text — is not a probe.
pub fn parse_probe(s: &str) -> (r: Option<Probe>)
    ensures
        match parse_probe_spec(s@) {
            Some(p) => r matches Some(pr) && pr.seq == p.0 && pr.ts == p.1,
            None => r is None,
        },
{
    let n = s.unicode_len();
    let i = skip_ws_exec(s, 0, n);
    if i < n && s.get_char(i) == '{' {
        match parse_member_exec(s, skip_ws_exec(s, i + 1, n), n) {
            Some((st1, en1, v1, j1)) => {
                let c = skip_ws_exec(s, j1, n);
                if c < n && s.get_char(c) == ',' {
                    match parse_member_exec(s, skip_ws_exec(s, c + 1, n), n) {
                        Some((st2, en2, v2, j2)) => {
                            let e = skip_ws_exec(s, j2, n);
                            if e < n && s.get_char(e) == '}' && skip_ws_exec(s, e + 1, n) == n {
                                let k1 = key_kind(s, st1, en1, n);
                                let k2 = key_kind(s, st2, en2, n);
                                if k1 == 1 && k2 == 2 {
                                    Some(Probe { seq: v1, ts: v2 })
                                } else if k1 == 2 && k2 == 1 {
                                    Some(Probe { seq: v2, ts: v1 })
                                } else {
                                    None
                                }
                            } else {
                                None
                            }
                        },
                        None => None,
                    }
                } else {
                    None
                }
            },
            None => None,
        }
    } else {
        None
    }
}

} // verus!
