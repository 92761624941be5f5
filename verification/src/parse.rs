//! Verified decoder for the two messages exchanged with the asset
//! registry: the listing-approval message `{"price":"P","donation":"D"}`
//! and the payout report `{"payout":{"<account>":"<amount>", ...}}`.
//!
//! The accepted grammar is the JSON this marketplace actually exchanges:
//! one object with the expected members (in either order for the listing
//! message), amounts as decimal strings that fit an unsigned 128-bit
//! integer, member names without escape sequences, and whitespace anywhere
//! JSON allows it. Anything else — including a payout object that names
//! the same recipient twice, which would not be a mapping — is rejected as
//! malformed.
//!
//! Each specification function below is the meaning of one production; the
//! executable parser is proved to return exactly what the specification
//! parser says, for every input.

use vstd::prelude::*;

use crate::errors::MarketError;
use crate::payout::Payout;
use crate::payout::PayoutEntry;
use crate::payout::entries_view;

verus! {

/// The `{price, donation}` pair decoded from a listing-approval message;
/// validated and then turned into a listing, or rejected.
#[derive(Clone, Copy, Debug, PartialEq, Eq, Structural)]
pub struct ListAction {
    pub price: u128,
    pub donation: u128,
}

/// JSON insignificant whitespace.
pub open spec fn is_ws(c: char) -> bool {
    c == ' ' || c == '\n' || c == '\t' || c == '\r'
}

/// An ASCII decimal digit.
pub open spec fn is_digit(c: char) -> bool {
    48 <= c as u32 && c as u32 <= 57
}

/// The numeric value of a decimal digit.
pub open spec fn digit_val(c: char) -> int {
    c as u32 - 48
}

/// A character allowed in a member name: anything but the closing quote
/// or a backslash (escape sequences are not part of the grammar).
pub open spec fn is_key_char(c: char) -> bool {
    c != '"' && c != '\\'
}

/// The first position at or after `i` that does not hold whitespace.
pub open spec fn skip_ws(s: Seq<char>, i: int) -> int
    decreases s.len() - i,
{
    if 0 <= i && i < s.len() && is_ws(s[i]) {
        skip_ws(s, i + 1)
    } else {
        i
    }
}

/// The first position at or after `i` that does not hold a member-name
/// character.
pub open spec fn key_end(s: Seq<char>, i: int) -> int
    decreases s.len() - i,
{
    if 0 <= i && i < s.len() && is_key_char(s[i]) {
        key_end(s, i + 1)
    } else {
        i
    }
}

/// Reads a run of digits starting at `i` into the accumulator `acc`,
/// failing if the value would exceed `u128::MAX`; on success returns the
/// value and the position after the last digit.
pub open spec fn scan_num(s: Seq<char>, i: int, acc: u128) -> Option<(u128, int)>
    decreases s.len() - i,
{
    if 0 <= i && i < s.len() && is_digit(s[i]) {
        if acc * 10 + digit_val(s[i]) <= u128::MAX {
            scan_num(s, i + 1, (acc * 10 + digit_val(s[i])) as u128)
        } else {
            None
        }
    } else {
        Some((acc, i))
    }
}

/// A quoted decimal number `"123"`, with at least one digit, whose value
/// fits an unsigned 128-bit integer; returns the value and the position
/// after the closing quote.
pub open spec fn parse_quoted_num(s: Seq<char>, i: int) -> Option<(u128, int)> {
    if 0 <= i && i < s.len() && s[i] == '"' && i + 1 < s.len() && is_digit(s[i + 1]) {
        match scan_num(s, i + 1, 0) {
            Some((v, j)) => if j < s.len() && s[j] == '"' {
                Some((v, j + 1))
            } else {
                None
            },
            None => None,
        }
    } else {
        None
    }
}

/// A quoted member name without escapes; returns the positions of its
/// first and one-past-last characters (the name is `s.subrange(a, b)` and
/// parsing continues at `b + 1`).
pub open spec fn parse_key(s: Seq<char>, i: int) -> Option<(int, int)> {
    if 0 <= i && i < s.len() && s[i] == '"' {
        let j = key_end(s, i + 1);
        if j < s.len() && s[j] == '"' {
            Some((i + 1, j))
        } else {
            None
        }
    } else {
        None
    }
}

/// One `"name": "number"` member starting at `i`: returns the name's
/// character range, the value, and the position after the member.
pub open spec fn parse_member(s: Seq<char>, i: int) -> Option<(int, int, u128, int)> {
    match parse_key(s, i) {
        Some((a, b)) => {
            let j = skip_ws(s, b + 1);
            if j < s.len() && s[j] == ':' {
                match parse_quoted_num(s, skip_ws(s, j + 1)) {
                    Some((v, k)) => Some((a, b, v, k)),
                    None => None,
                }
            } else {
                None
            }
        },
        None => None,
    }
}

/// Which field each member of the listing message fills: the two member
/// names must be `price` and `donation`, in either order.
pub open spec fn member_fields(k1: Seq<char>, v1: u128, k2: Seq<char>, v2: u128) -> Option<
    (u128, u128),
> {
    if k1 == "price"@ && k2 == "donation"@ {
        Some((v1, v2))
    } else if k1 == "donation"@ && k2 == "price"@ {
        Some((v2, v1))
    } else {
        None
    }
}

/// The whole listing-approval message: an object with exactly the members
/// `price` and `donation`, and nothing but whitespace after it. Returns
/// the `(price, donation)` values.
pub open spec fn list_action_fields(s: Seq<char>) -> Option<(u128, u128)> {
    let i0 = skip_ws(s, 0);
    if i0 < s.len() && s[i0] == '{' {
        match parse_member(s, skip_ws(s, i0 + 1)) {
            Some((a1, b1, v1, i2)) => {
                let i3 = skip_ws(s, i2);
                if i3 < s.len() && s[i3] == ',' {
                    match parse_member(s, skip_ws(s, i3 + 1)) {
                        Some((a2, b2, v2, i4)) => {
                            let i5 = skip_ws(s, i4);
                            if i5 < s.len() && s[i5] == '}' && skip_ws(s, i5 + 1) == s.len() {
                                member_fields(s.subrange(a1, b1), v1, s.subrange(a2, b2), v2)
                            } else {
                                None
                            }
                        },
                        None => None,
                    }
                } else {
                    None
                }
            },
            None => None,
        }
    } else {
        None
    }
}

/// What a listing-approval message decodes to, if anything.
pub open spec fn spec_list_action(s: Seq<char>) -> Option<ListAction> {
    match list_action_fields(s) {
        Some((p, d)) => Some(ListAction { price: p, donation: d }),
        None => None,
    }
}

/// A comma-separated run of `"name": "number"` members starting at `i`;
/// returns the `(name, value)` entries in order of appearance and the
/// position of the first character after the run (whitespace after the
/// last member already skipped).
pub open spec fn parse_entries(s: Seq<char>, i: int) -> Option<(Seq<(Seq<char>, u128)>, int)>
    decreases s.len() - i,
{
    match parse_member(s, i) {
        Some((a, b, v, j)) => {
            let entry = (s.subrange(a, b), v);
            let j2 = skip_ws(s, j);
            if j2 < s.len() && s[j2] == ',' {
                let j3 = skip_ws(s, j2 + 1);
                if i < j3 && j3 <= s.len() {
                    match parse_entries(s, j3) {
                        Some((rest, k)) => Some((seq![entry] + rest, k)),
                        None => None,
                    }
                } else {
                    None
                }
            } else {
                Some((seq![entry], j2))
            }
        },
        None => None,
    }
}

/// Nothing but whitespace, a closing brace and trailing whitespace from
/// `i` to the end of the message.
pub open spec fn closing_brace_only(s: Seq<char>, i: int) -> bool {
    let q = skip_ws(s, i);
    q < s.len() && s[q] == '}' && skip_ws(s, q + 1) == s.len()
}

/// The whole payout report: an object whose single member `payout` holds
/// an object mapping recipient names to quoted amounts (possibly empty).
/// Returns the entries in order of appearance; duplicate names are *not*
/// rejected here — see [`spec_payout_entries`].
pub open spec fn payout_report_entries(s: Seq<char>) -> Option<Seq<(Seq<char>, u128)>> {
    let i0 = skip_ws(s, 0);
    if i0 < s.len() && s[i0] == '{' {
        match parse_key(s, skip_ws(s, i0 + 1)) {
            Some((a, b)) => if s.subrange(a, b) == "payout"@ {
                let j = skip_ws(s, b + 1);
                if j < s.len() && s[j] == ':' {
                    let k = skip_ws(s, j + 1);
                    if k < s.len() && s[k] == '{' {
                        let m = skip_ws(s, k + 1);
                        if m < s.len() && s[m] == '}' {
                            if closing_brace_only(s, m + 1) {
                                Some(Seq::empty())
                            } else {
                                None
                            }
                        } else {
                            match parse_entries(s, m) {
                                Some((entries, p)) => if p < s.len() && s[p] == '}'
                                    && closing_brace_only(s, p + 1) {
                                    Some(entries)
                                } else {
                                    None
                                },
                                None => None,
                            }
                        }
                    } else {
                        None
                    }
                } else {
                    None
                }
            } else {
                None
            },
            None => None,
        }
    } else {
        None
    }
}

/// No two entries name the same recipient: the breakdown is a mapping.
pub open spec fn keys_unique(entries: Seq<(Seq<char>, u128)>) -> bool {
    forall|x: int, y: int| 0 <= x < y < entries.len() ==> entries[x].0 != entries[y].0
}

/// What a payout report decodes to, if anything: the recipient/amount
/// entries in order of appearance, provided no recipient repeats.
pub open spec fn spec_payout_entries(s: Seq<char>) -> Option<Seq<(Seq<char>, u128)>> {
    match payout_report_entries(s) {
        Some(e) => if keys_unique(e) {
            Some(e)
        } else {
            None
        },
        None => None,
    }
}

fn is_ws_char(c: char) -> (r: bool)
    ensures
        r == is_ws(c),
{
    c == ' ' || c == '\n' || c == '\t' || c == '\r'
}

fn is_key_char_exec(c: char) -> (r: bool)
    ensures
        r == is_key_char(c),
{
    c != '"' && c != '\\'
}

/// The first position at or after `i` without whitespace, as
/// [`skip_ws`] states.
fn ws_end(s: &str, i: usize) -> (r: usize)
    requires
        i as int <= s@.len(),
    ensures
        r as int == skip_ws(s@, i as int),
        i <= r && r as int <= s@.len(),
{
    let n = s.unicode_len();
    let mut j = i;
    while j < n && is_ws_char(s.get_char(j))
        invariant
            i <= j && j as int <= s@.len(),
            n as int == s@.len(),
            skip_ws(s@, i as int) == skip_ws(s@, j as int),
        decreases s@.len() - j as int,
    {
        proof {
            assert(skip_ws(s@, j as int) == skip_ws(s@, j as int + 1));
        }
        j = j + 1;
    }
    proof {
        assert(skip_ws(s@, j as int) == j as int);
    }
    j
}

/// The first position at or after `i` without a member-name character,
/// as [`key_end`] states.
fn key_end_exec(s: &str, i: usize) -> (r: usize)
    requires
        i as int <= s@.len(),
    ensures
        r as int == key_end(s@, i as int),
        i <= r && r as int <= s@.len(),
{
    let n = s.unicode_len();
    let mut j = i;
    while j < n && is_key_char_exec(s.get_char(j))
        invariant
            i <= j && j as int <= s@.len(),
            n as int == s@.len(),
            key_end(s@, i as int) == key_end(s@, j as int),
        decreases s@.len() - j as int,
    {
        proof {
            assert(key_end(s@, j as int) == key_end(s@, j as int + 1));
        }
        j = j + 1;
    }
    proof {
        assert(key_end(s@, j as int) == j as int);
    }
    j
}

/// For non-negative values, bounding a product by ten below a value is
/// the same as bounding the factor by the quotient.
proof fn lemma_le_div10(x: int, y: int)
    requires
        0 <= x,
        0 <= y,
    ensures
        (x <= y / 10) == (10 * x <= y),
{
    vstd::arithmetic::div_mod::lemma_fundamental_div_mod(y, 10);
    if x <= y / 10 {
        vstd::arithmetic::mul::lemma_mul_inequality(x, y / 10, 10);
    }
    if 10 * x <= y {
        vstd::arithmetic::div_mod::lemma_div_is_ordered(10 * x, y, 10);
        vstd::arithmetic::div_mod::lemma_div_by_multiple(x, 10);
    }
}

/// Reads a digit run exactly as [`scan_num`] states.
fn scan_num_exec(s: &str, i: usize, acc: u128) -> (r: Option<(u128, usize)>)
    requires
        i as int <= s@.len(),
    ensures
        match r {
            Some((v, j)) => scan_num(s@, i as int, acc) == Some((v, j as int)) && i <= j && (
            j as int) <= s@.len(),
            None => scan_num(s@, i as int, acc) is None,
        },
    decreases s@.len() - i as int,
{
    let n = s.unicode_len();
    if i < n {
        let c = s.get_char(i);
        let cu = c as u32;
        if 48 <= cu && cu <= 57 {
            let d = (cu - 48) as u128;
            proof {
                lemma_le_div10(acc as int, (u128::MAX - d) as int);
            }
            if acc <= (u128::MAX - d) / 10 {
                scan_num_exec(s, i + 1, acc * 10 + d)
            } else {
                None
            }
        } else {
            Some((acc, i))
        }
    } else {
        Some((acc, i))
    }
}

/// Reads a quoted decimal number exactly as [`parse_quoted_num`] states.
fn quoted_num_exec(s: &str, i: usize) -> (r: Option<(u128, usize)>)
    requires
        i as int <= s@.len(),
    ensures
        match r {
            Some((v, j)) => parse_quoted_num(s@, i as int) == Some((v, j as int)) && i < j && (
            j as int) <= s@.len(),
            None => parse_quoted_num(s@, i as int) is None,
        },
{
    let n = s.unicode_len();
    if i < n && s.get_char(i) == '"' && i + 1 < n {
        let c1 = s.get_char(i + 1);
        let cu = c1 as u32;
        if 48 <= cu && cu <= 57 {
            match scan_num_exec(s, i + 1, 0) {
                Some((v, j)) => {
                    if j < n && s.get_char(j) == '"' {
                        Some((v, j + 1))
                    } else {
                        None
                    }
                },
                None => None,
            }
        } else {
            None
        }
    } else {
        None
    }
}

/// Reads a quoted member name exactly as [`parse_key`] states.
fn key_exec(s: &str, i: usize) -> (r: Option<(usize, usize)>)
    requires
        i as int <= s@.len(),
    ensures
        match r {
            Some((a, b)) => parse_key(s@, i as int) == Some((a as int, b as int)) && i < a && a
                <= b && (b as int) < s@.len(),
            None => parse_key(s@, i as int) is None,
        },
{
    let n = s.unicode_len();
    if i < n && s.get_char(i) == '"' {
        let j = key_end_exec(s, i + 1);
        if j < n && s.get_char(j) == '"' {
            Some((i + 1, j))
        } else {
            None
        }
    } else {
        None
    }
}

/// Reads one `"name": "number"` member exactly as [`parse_member`]
/// states.
fn member_exec(s: &str, i: usize) -> (r: Option<(usize, usize, u128, usize)>)
    requires
        i as int <= s@.len(),
    ensures
        match r {
            Some((a, b, v, k)) => parse_member(s@, i as int) == Some(
                (a as int, b as int, v, k as int),
            ) && i < a && a <= b && (b as int) < s@.len() && b < k && (k as int) <= s@.len(),
            None => parse_member(s@, i as int) is None,
        },
{
    match key_exec(s, i) {
        Some((a, b)) => {
            let n = s.unicode_len();
            let j = ws_end(s, b + 1);
            if j < n && s.get_char(j) == ':' {
                let j2 = ws_end(s, j + 1);
                match quoted_num_exec(s, j2) {
                    Some((v, k)) => Some((a, b, v, k)),
                    None => None,
                }
            } else {
                None
            }
        },
        None => None,
    }
}

/// Whether the characters of `s` from `a` (inclusive) to `b` (exclusive)
/// spell exactly `pat`.
fn str_range_eq(s: &str, a: usize, b: usize, pat: &str) -> (r: bool)
    requires
        a <= b,
        b as int <= s@.len(),
    ensures
        r == (s@.subrange(a as int, b as int) == pat@),
{
    let plen = pat.unicode_len();
    if b - a != plen {
        proof {
            assert(s@.subrange(a as int, b as int).len() == b - a);
        }
        return false;
    }
    let mut k: usize = 0;
    while k < plen
        invariant
            a <= b && b as int <= s@.len(),
            plen as int == pat@.len(),
            b - a == plen,
            k <= plen,
            forall|t: int| 0 <= t < k ==> s@[a + t] == pat@[t],
        decreases plen - k,
    {
        if s.get_char(a + k) != pat.get_char(k) {
            proof {
                assert(s@.subrange(a as int, b as int)[k as int] == s@[a + k]);
            }
            return false;
        }
        k = k + 1;
    }
    proof {
        assert(s@.subrange(a as int, b as int) =~= pat@);
    }
    true
}

/// Decodes a listing-approval message, returning exactly what
/// [`spec_list_action`] says the message means, or `MalformedRequest`
/// exactly when it means nothing.
pub fn parse_list_action(msg: &str) -> (r: Result<ListAction, MarketError>)
    ensures
        match r {
            Ok(a) => spec_list_action(msg@) == Some(a),
            Err(e) => spec_list_action(msg@) is None && e == MarketError::MalformedRequest,
        },
{
    let n = msg.unicode_len();
    let i0 = ws_end(msg, 0);
    if !(i0 < n && msg.get_char(i0) == '{') {
        return Err(MarketError::MalformedRequest);
    }
    let i1 = ws_end(msg, i0 + 1);
    let (a1, b1, v1, i2) = match member_exec(msg, i1) {
        Some(t) => t,
        None => {
            return Err(MarketError::MalformedRequest);
        },
    };
    let i3 = ws_end(msg, i2);
    if !(i3 < n && msg.get_char(i3) == ',') {
        return Err(MarketError::MalformedRequest);
    }
    let i3b = ws_end(msg, i3 + 1);
    let (a2, b2, v2, i4) = match member_exec(msg, i3b) {
        Some(t) => t,
        None => {
            return Err(MarketError::MalformedRequest);
        },
    };
    let i5 = ws_end(msg, i4);
    if !(i5 < n && msg.get_char(i5) == '}') {
        return Err(MarketError::MalformedRequest);
    }
    if ws_end(msg, i5 + 1) != n {
        return Err(MarketError::MalformedRequest);
    }
    if str_range_eq(msg, a1, b1, "price") && str_range_eq(msg, a2, b2, "donation") {
        Ok(ListAction { price: v1, donation: v2 })
    } else if str_range_eq(msg, a1, b1, "donation") && str_range_eq(msg, a2, b2, "price") {
        Ok(ListAction { price: v2, donation: v1 })
    } else {
        Err(MarketError::MalformedRequest)
    }
}

/// Whether only whitespace, a closing brace and trailing whitespace
/// remain, as [`closing_brace_only`] states.
fn closing_ok(s: &str, i: usize) -> (r: bool)
    requires
        i as int <= s@.len(),
    ensures
        r == closing_brace_only(s@, i as int),
{
    let n = s.unicode_len();
    let q = ws_end(s, i);
    if q < n && s.get_char(q) == '}' {
        let e = ws_end(s, q + 1);
        e == n
    } else {
        false
    }
}

/// Reads a comma-separated member run exactly as [`parse_entries`]
/// states, materialising each member as a [`PayoutEntry`].
fn entries_exec(s: &str, i: usize) -> (r: Option<(Vec<PayoutEntry>, usize)>)
    requires
        i as int <= s@.len(),
    ensures
        match r {
            Some((es, k)) => parse_entries(s@, i as int) == Some((entries_view(es@), k as int))
                && (k as int) <= s@.len(),
            None => parse_entries(s@, i as int) is None,
        },
    decreases s@.len() - i as int,
{
    match member_exec(s, i) {
        None => None,
        Some((a, b, v, j)) => {
            let name = s.substring_char(a, b).to_owned();
            let entry = PayoutEntry { receiver_id: name, amount: v };
            let ghost entry_v = (s@.subrange(a as int, b as int), v);
            let n = s.unicode_len();
            let j2 = ws_end(s, j);
            if j2 < n && s.get_char(j2) == ',' {
                let j3 = ws_end(s, j2 + 1);
                match entries_exec(s, j3) {
                    Some((rest, k)) => {
                        let ghost rest_v = entries_view(rest@);
                        let mut es = rest;
                        es.insert(0, entry);
                        proof {
                            assert(entries_view(es@) =~= seq![entry_v] + rest_v);
                        }
                        Some((es, k))
                    },
                    None => None,
                }
            } else {
                let mut es: Vec<PayoutEntry> = Vec::new();
                es.push(entry);
                proof {
                    assert(entries_view(es@) =~= seq![entry_v]);
                }
                Some((es, j2))
            }
        },
    }
}

/// Whether no recipient repeats, as [`keys_unique`] states.
fn keys_unique_exec(entries: &Vec<PayoutEntry>) -> (r: bool)
    ensures
        r == keys_unique(entries_view(entries@)),
{
    let ghost ev = entries_view(entries@);
    let mut x: usize = 0;
    while x < entries.len()
        invariant
            x <= entries.len(),
            ev == entries_view(entries@),
            forall|i: int, j: int| 0 <= i < j < x ==> ev[i].0 != ev[j].0,
        decreases entries.len() - x,
    {
        let mut y: usize = 0;
        while y < x
            invariant
                y <= x && x < entries.len(),
                ev == entries_view(entries@),
                forall|i: int| 0 <= i < y ==> ev[i].0 != ev[x as int].0,
            decreases x - y,
        {
            if entries[y].receiver_id == entries[x].receiver_id {
                proof {
                    assert(ev[y as int].0 == ev[x as int].0);
                }
                return false;
            }
            y = y + 1;
        }
        x = x + 1;
    }
    true
}

/// Decodes a payout report, returning exactly the breakdown that
/// [`spec_payout_entries`] says the report means, or `MalformedRequest`
/// exactly when it means nothing — including when the report names the
/// same recipient twice.
pub fn parse_payout(msg: &str) -> (r: Result<Payout, MarketError>)
    ensures
        match r {
            Ok(p) => spec_payout_entries(msg@) == Some(p@),
            Err(e) => spec_payout_entries(msg@) is None && e == MarketError::MalformedRequest,
        },
{
    let n = msg.unicode_len();
    let i0 = ws_end(msg, 0);
    if !(i0 < n && msg.get_char(i0) == '{') {
        return Err(MarketError::MalformedRequest);
    }
    let i1 = ws_end(msg, i0 + 1);
    let (a, b) = match key_exec(msg, i1) {
        Some(t) => t,
        None => {
            return Err(MarketError::MalformedRequest);
        },
    };
    if !str_range_eq(msg, a, b, "payout") {
        return Err(MarketError::MalformedRequest);
    }
    let j = ws_end(msg, b + 1);
    if !(j < n && msg.get_char(j) == ':') {
        return Err(MarketError::MalformedRequest);
    }
    let k = ws_end(msg, j + 1);
    if !(k < n && msg.get_char(k) == '{') {
        return Err(MarketError::MalformedRequest);
    }
    let m = ws_end(msg, k + 1);
    if m < n && msg.get_char(m) == '}' {
        if closing_ok(msg, m + 1) {
            let es: Vec<PayoutEntry> = Vec::new();
            proof {
                assert(entries_view(es@) =~= Seq::<(Seq<char>, u128)>::empty());
            }
            Ok(Payout { payout: es })
        } else {
            Err(MarketError::MalformedRequest)
        }
    } else {
        let (es, p) = match entries_exec(msg, m) {
            Some(t) => t,
            None => {
                return Err(MarketError::MalformedRequest);
            },
        };
        if !(p < n && msg.get_char(p) == '}') {
            return Err(MarketError::MalformedRequest);
        }
        if !closing_ok(msg, p + 1) {
            return Err(MarketError::MalformedRequest);
        }
        if keys_unique_exec(&es) {
            Ok(Payout { payout: es })
        } else {
            Err(MarketError::MalformedRequest)
        }
    }
}

} // verus!
