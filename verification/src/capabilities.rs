//! Reading the input-select values out of a DDC/CI capabilities reply.
//!
//! A reply in VESA MCCS format carries a group `vcp(code code code(v v) ...)`:
//! a feature code immediately followed by `(...)` is an enumerated feature
//! and the parenthesised list holds its allowed values. The scanner below
//! reads the characters after the first `vcp(` one at a time, tracking the
//! nesting depth, the feature code whose value list is open, and the token
//! being read; a token is closed by whitespace or a parenthesis.
use crate::text::{chars_of, is_space, is_whitespace, parse_unsigned, parse_unsigned_range};
use vstd::prelude::*;

verus! {

/// VCP feature code of input select.
pub const INPUT_SELECT_CODE: u8 = 0x60;

/// State of the scanner after some prefix of the `vcp(` group's contents.
pub struct ScanState {
    /// Open parentheses, counting the one of `vcp(` itself.
    pub depth: nat,
    /// Feature code whose value list is open, if it parsed as a hex byte.
    pub code: Option<u8>,
    /// Characters of the token being read.
    pub token: Seq<char>,
    /// Values collected so far.
    pub values: Seq<u8>,
    /// The `vcp(` group has been closed.
    pub done: bool,
}

/// A token read as a hexadecimal byte (`u8::from_str_radix(token, 16)`).
/// Tokens never hold whitespace, which closes them, so trimming a token
/// before reading it changes nothing.
pub open spec fn hex_byte(token: Seq<char>) -> Option<u8> {
    match parse_unsigned(token, 16, 255) {
        Some(v) => Some(v as u8),
        None => None,
    }
}

/// Characters that close a token.
pub open spec fn is_delimiter(c: char) -> bool {
    c == '(' || c == ')' || is_space(c)
}

pub open spec fn initial_scan() -> ScanState {
    ScanState { depth: 1, code: None, token: seq![], values: seq![], done: false }
}

/// The values after the current token is closed: the token is kept when it
/// sits in the value list of input select and reads as a hex byte.
pub open spec fn flushed(st: ScanState) -> Seq<u8> {
    if st.code == Some(INPUT_SELECT_CODE) {
        match hex_byte(st.token) {
            Some(v) => st.values.push(v),
            None => st.values,
        }
    } else {
        st.values
    }
}

/// One character of the scan.
pub open spec fn scan_step(st: ScanState, c: char) -> ScanState {
    if st.done {
        st
    } else if c == '(' {
        ScanState { depth: st.depth + 1, code: hex_byte(st.token), token: seq![], ..st }
    } else if c == ')' {
        let d = (st.depth - 1) as nat;
        ScanState {
            depth: d,
            code: if d == 1 {
                None
            } else {
                st.code
            },
            token: seq![],
            values: flushed(st),
            done: d == 0,
        }
    } else if is_space(c) {
        ScanState { token: seq![], values: flushed(st), ..st }
    } else {
        ScanState { token: st.token.push(c), ..st }
    }
}

/// The scanner's state after reading all of `s`.
pub open spec fn scan(s: Seq<char>) -> ScanState
    decreases s.len(),
{
    if s.len() == 0 {
        initial_scan()
    } else {
        scan_step(scan(s.drop_last()), s.last())
    }
}

/// `vcp(` starts at index `k` of `s`.
pub open spec fn vcp_at(s: Seq<char>, k: int) -> bool {
    &&& 0 <= k
    &&& k + 4 <= s.len()
    &&& s[k] == 'v'
    &&& s[k + 1] == 'c'
    &&& s[k + 2] == 'p'
    &&& s[k + 3] == '('
}

/// The first index at or after `i` where `vcp(` starts.
pub open spec fn find_vcp_from(s: Seq<char>, i: int) -> Option<int>
    decreases s.len() - i,
{
    if i < 0 || i + 4 > s.len() {
        None
    } else if vcp_at(s, i) {
        Some(i)
    } else {
        find_vcp_from(s, i + 1)
    }
}

/// The enumerated values of input select in a capabilities reply: empty
/// when there is no `vcp(` group; otherwise what the scan of the text after
/// the first `vcp(` collects.
pub open spec fn input_codes(s: Seq<char>) -> Seq<u8> {
    match find_vcp_from(s, 0) {
        None => seq![],
        Some(k) => scan(s.skip(k + 4)).values,
    }
}

/// The token that ends just before index `j` of `t`.
pub open spec fn token_before(t: Seq<char>, j: int) -> Seq<char>
    decreases j,
{
    if j <= 0 {
        seq![]
    } else if is_delimiter(t[j - 1]) {
        seq![]
    } else {
        token_before(t, j - 1).push(t[j - 1])
    }
}

/// `t` lists input select as an enumerated feature: some `(` follows a token
/// that reads as the byte `0x60`.
pub open spec fn enumerates_input_select(t: Seq<char>) -> bool {
    exists|j: int|
        0 <= j < t.len() && t[j] == '(' && #[trigger] hex_byte(token_before(t, j)) == Some(
            INPUT_SELECT_CODE,
        )
}

// ---------------------------------------------------------------------------
// Proofs about the scan
// ---------------------------------------------------------------------------

proof fn lemma_find_vcp_bounds(s: Seq<char>, i: int)
    requires
        0 <= i,
    ensures
        match find_vcp_from(s, i) {
            Some(k) => i <= k && vcp_at(s, k) && forall|m: int| i <= m < k ==> !vcp_at(s, m),
            None => forall|m: int| i <= m ==> !vcp_at(s, m),
        },
    decreases s.len() - i,
{
    if i + 4 <= s.len() && !vcp_at(s, i) {
        lemma_find_vcp_bounds(s, i + 1);
    }
}

proof fn lemma_scan_depth(s: Seq<char>)
    ensures
        !scan(s).done ==> scan(s).depth >= 1,
    decreases s.len(),
{
    if s.len() > 0 {
        lemma_scan_depth(s.drop_last());
    }
}

/// Once the group is closed, further characters change nothing.
proof fn lemma_scan_done_absorbs(s: Seq<char>, k: int)
    requires
        0 <= k <= s.len(),
        scan(s.take(k)).done,
    ensures
        scan(s) == scan(s.take(k)),
    decreases s.len(),
{
    if k == s.len() {
        assert(s.take(k) =~= s);
    } else {
        let t = s.drop_last();
        assert(t.take(k) =~= s.take(k));
        lemma_scan_done_absorbs(t, k);
    }
}

proof fn lemma_token_before_prefix(t: Seq<char>, u: Seq<char>, j: int)
    requires
        0 <= j <= t.len() <= u.len(),
        t =~= u.take(t.len() as int),
    ensures
        token_before(t, j) == token_before(u, j),
    decreases j,
{
    if j > 0 {
        assert(t[j - 1] == u[j - 1]);
        lemma_token_before_prefix(t, u, j - 1);
    }
}

proof fn lemma_enumerates_extends(t: Seq<char>, u: Seq<char>)
    requires
        t.len() <= u.len(),
        t =~= u.take(t.len() as int),
        enumerates_input_select(t),
    ensures
        enumerates_input_select(u),
{
    let j = choose|j: int|
        0 <= j < t.len() && t[j] == '(' && #[trigger] hex_byte(token_before(t, j)) == Some(
            INPUT_SELECT_CODE,
        );
    lemma_token_before_prefix(t, u, j);
    assert(u[j] == t[j]);
    assert(hex_byte(token_before(u, j)) == Some(INPUT_SELECT_CODE));
}

/// The open token is the one ending at the end of the text read, and a
/// value list of input select is open, or a value was collected, only when
/// the text lists input select as an enumerated feature.
proof fn lemma_scan_tracks_enumeration(t: Seq<char>)
    ensures
        !scan(t).done ==> scan(t).token == token_before(t, t.len() as int),
        scan(t).code == Some(INPUT_SELECT_CODE) || scan(t).values.len() > 0
            ==> enumerates_input_select(t),
    decreases t.len(),
{
    if t.len() > 0 {
        let p = t.drop_last();
        let c = t.last();
        let n = p.len() as int;
        lemma_scan_tracks_enumeration(p);
        assert(p =~= t.take(n));
        lemma_token_before_prefix(p, t, n);
        let sp = scan(p);
        let st = scan(t);
        if sp.code == Some(INPUT_SELECT_CODE) || sp.values.len() > 0 {
            lemma_enumerates_extends(p, t);
        }
        if !sp.done && c == '(' {
            if st.code == Some(INPUT_SELECT_CODE) {
                assert(t[n] == '(');
                assert(hex_byte(token_before(t, n)) == Some(INPUT_SELECT_CODE));
            }
        }
    }
}

/// A value of input select comes back only from a reply whose `vcp(` group
/// lists input select (`0x60`) as an enumerated feature.
pub proof fn lemma_input_codes_need_enumerated_input_select(s: Seq<char>)
    ensures
        input_codes(s).len() > 0 ==> (exists|k: int|
            vcp_at(s, k) && (forall|m: int| 0 <= m < k ==> !vcp_at(s, m))
                && enumerates_input_select(#[trigger] s.skip(k + 4))),
{
    lemma_find_vcp_bounds(s, 0);
    if let Some(k) = find_vcp_from(s, 0) {
        lemma_scan_tracks_enumeration(s.skip(k + 4));
    }
}

/// A reply without a `vcp(` group yields no values.
pub proof fn lemma_input_codes_need_vcp_group(s: Seq<char>)
    ensures
        (forall|k: int| !vcp_at(s, k)) ==> input_codes(s).len() == 0,
{
    lemma_find_vcp_bounds(s, 0);
}

/// Opening minus closing parentheses among the first `q` characters of `t`.
pub open spec fn paren_balance(t: Seq<char>, q: int) -> int
    decreases q,
{
    if q <= 0 || q > t.len() {
        0
    } else {
        paren_balance(t, q - 1) + if t[q - 1] == '(' {
            1int
        } else if t[q - 1] == ')' {
            -1int
        } else {
            0int
        }
    }
}

/// The `vcp(` group whose contents are `t` is still open after `q`
/// characters: no prefix up to there closes more parentheses than it opens.
pub open spec fn group_open_at(t: Seq<char>, q: int) -> bool {
    forall|r: int| 0 <= r <= q ==> #[trigger] paren_balance(t, r) >= 0
}

/// No parenthesis stands strictly between indices `a` and `b` of `t`.
pub open spec fn paren_free(t: Seq<char>, a: int, b: int) -> bool {
    forall|r: int| a < r < b ==> #[trigger] t[r] != '(' && t[r] != ')'
}

proof fn lemma_take_step(t: Seq<char>, q: int)
    requires
        0 < q <= t.len(),
    ensures
        scan(t.take(q)) == scan_step(scan(t.take(q - 1)), t[q - 1]),
{
    assert(t.take(q).drop_last() =~= t.take(q - 1));
}

/// While the group is open the scan is not done, at depth one more than
/// the parenthesis balance.
proof fn lemma_scan_open(t: Seq<char>, q: int)
    requires
        0 <= q <= t.len(),
        group_open_at(t, q),
    ensures
        !scan(t.take(q)).done,
        scan(t.take(q)).depth == 1 + paren_balance(t, q),
    decreases q,
{
    if q == 0 {
        assert(t.take(0) =~= Seq::<char>::empty());
    } else {
        assert(paren_balance(t, q) >= 0);
        assert forall|r: int| 0 <= r <= q - 1 implies #[trigger] paren_balance(t, r) >= 0 by {
            assert(paren_balance(t, r) >= 0);
        }
        lemma_scan_open(t, q - 1);
        lemma_take_step(t, q);
    }
}

/// Values are only ever appended: the values after `a` characters begin
/// the values after `b >= a` characters.
proof fn lemma_values_grow(t: Seq<char>, a: int, b: int)
    requires
        0 <= a <= b <= t.len(),
    ensures
        scan(t.take(a)).values.len() <= scan(t.take(b)).values.len(),
        scan(t.take(b)).values.take(scan(t.take(a)).values.len() as int) == scan(t.take(a)).values,
    decreases b - a,
{
    if a < b {
        lemma_values_grow(t, a, b - 1);
        lemma_take_step(t, b);
        let prev = scan(t.take(b - 1)).values;
        let cur = scan(t.take(b)).values;
        let n = scan(t.take(a)).values.len() as int;
        assert(cur.len() >= prev.len());
        assert(cur.take(prev.len() as int) =~= prev);
        assert(cur.take(n) =~= prev.take(n));
    } else {
        let v = scan(t.take(a)).values;
        assert(v.take(v.len() as int) =~= v);
    }
}

/// After a `(` that follows a token reading `0x60`, with no parenthesis
/// since, the value list of input select is the one open.
proof fn lemma_list_stays_open(t: Seq<char>, p: int, q: int)
    requires
        0 <= p < q <= t.len(),
        t[p] == '(',
        hex_byte(token_before(t, p)) == Some(INPUT_SELECT_CODE),
        group_open_at(t, p),
        paren_free(t, p, q),
    ensures
        !scan(t.take(q)).done,
        scan(t.take(q)).code == Some(INPUT_SELECT_CODE),
    decreases q - p,
{
    lemma_take_step(t, q);
    if q == p + 1 {
        lemma_scan_open(t, p);
        lemma_scan_tracks_enumeration(t.take(p));
        lemma_token_before_prefix(t.take(p), t, p);
    } else {
        lemma_list_stays_open(t, p, q - 1);
    }
}

/// Every hexadecimal byte listed in the value list of input select is
/// collected: where, in the contents `t` of the first `vcp(` group of `s`,
/// a `(` at `p` follows a token reading `0x60` while the group is open, and
/// the token that ends at `j` (closed there by `)` or whitespace, with no
/// parenthesis between `p` and `j`) reads as a byte, that byte is among the
/// values returned for `s`.
pub proof fn lemma_listed_input_is_collected(s: Seq<char>, k: int, p: int, j: int)
    requires
        vcp_at(s, k),
        forall|m: int| 0 <= m < k ==> !vcp_at(s, m),
        0 <= p < j < s.skip(k + 4).len(),
        s.skip(k + 4)[p] == '(',
        hex_byte(token_before(s.skip(k + 4), p)) == Some(INPUT_SELECT_CODE),
        group_open_at(s.skip(k + 4), p),
        paren_free(s.skip(k + 4), p, j),
        s.skip(k + 4)[j] == ')' || is_space(s.skip(k + 4)[j]),
        hex_byte(token_before(s.skip(k + 4), j)) is Some,
    ensures
        input_codes(s).contains(hex_byte(token_before(s.skip(k + 4), j))->0),
{
    let t = s.skip(k + 4);
    let v = hex_byte(token_before(t, j))->0;
    lemma_find_vcp_bounds(s, 0);
    assert(find_vcp_from(s, 0) == Some(k));
    lemma_list_stays_open(t, p, j);
    lemma_scan_tracks_enumeration(t.take(j));
    lemma_token_before_prefix(t.take(j), t, j);
    lemma_take_step(t, j + 1);
    let before = scan(t.take(j));
    let after = scan(t.take(j + 1));
    assert(after.values == before.values.push(v));
    lemma_values_grow(t, j + 1, t.len() as int);
    assert(t.take(t.len() as int) =~= t);
    let all = scan(t).values;
    let n = before.values.len() as int;
    assert(all.take(after.values.len() as int) == after.values);
    assert(all[n] == all.take(after.values.len() as int)[n]);
    assert(all[n] == v);
}

/// The index of the nearest `(` before index `j` of `t`.
pub open spec fn last_open_before(t: Seq<char>, j: int) -> Option<int>
    decreases j,
{
    if j <= 0 || j > t.len() {
        None
    } else if t[j - 1] == '(' {
        Some(j - 1)
    } else {
        last_open_before(t, j - 1)
    }
}

/// Between indices `p` and `j` of `t`, a `)` brings the group back to its
/// top level.
pub open spec fn returned_to_top(t: Seq<char>, p: int, j: int) -> bool {
    exists|q: int| p < q < j && t[q] == ')' && #[trigger] paren_balance(t, q + 1) == 0
}

/// The `(` whose list the scan takes as open at index `j`: the nearest `(`
/// before `j`, unless the group has returned to its top level since.
pub open spec fn list_head(t: Seq<char>, j: int) -> Option<int> {
    match last_open_before(t, j) {
        Some(p) => if returned_to_top(t, p, j) {
            None
        } else {
            Some(p)
        },
        None => None,
    }
}

/// The feature code heading the list open at `j`, where it reads as a byte.
pub open spec fn head_code(t: Seq<char>, j: int) -> Option<u8> {
    match list_head(t, j) {
        Some(p) => hex_byte(token_before(t, p)),
        None => None,
    }
}

/// The input-select value whose token ends at index `j`: while the group is
/// open, `t[j]` (a `)` or whitespace) closes a token that reads as a byte,
/// and the list open there is headed by `0x60`.
pub open spec fn listed_input_at(t: Seq<char>, j: int) -> Option<u8> {
    if 0 <= j < t.len() && group_open_at(t, j) && (t[j] == ')' || is_space(t[j])) && head_code(t, j)
        == Some(INPUT_SELECT_CODE) {
        hex_byte(token_before(t, j))
    } else {
        None
    }
}

/// The input-select values among the first `n` characters of `t`, in order.
pub open spec fn listed_inputs(t: Seq<char>, n: int) -> Seq<u8>
    decreases n,
{
    if n <= 0 {
        seq![]
    } else {
        listed_inputs(t, n - 1) + match listed_input_at(t, n - 1) {
            Some(v) => seq![v],
            None => seq![],
        }
    }
}

proof fn lemma_last_open_bounds(t: Seq<char>, j: int)
    ensures
        last_open_before(t, j) matches Some(p) ==> 0 <= p < j && t[p] == '(',
    decreases j,
{
    if j > 0 && j <= t.len() && t[j - 1] != '(' {
        lemma_last_open_bounds(t, j - 1);
    }
}

/// Scanning `n` characters collects exactly the listed values up to there,
/// and while the group is open the scan's open code is the head code.
proof fn lemma_scan_collects_listed(t: Seq<char>, n: int)
    requires
        0 <= n <= t.len(),
    ensures
        scan(t.take(n)).values == listed_inputs(t, n),
        group_open_at(t, n) ==> scan(t.take(n)).code == head_code(t, n),
        !group_open_at(t, n) ==> scan(t.take(n)).done,
    decreases n,
{
    if n == 0 {
        assert(t.take(0) =~= Seq::<char>::empty());
        assert(paren_balance(t, 0) == 0);
    } else {
        let m = n - 1;
        lemma_scan_collects_listed(t, m);
        lemma_take_step(t, n);
        let st = scan(t.take(m));
        let c = t[m];
        if group_open_at(t, m) {
            lemma_scan_open(t, m);
            lemma_scan_tracks_enumeration(t.take(m));
            lemma_token_before_prefix(t.take(m), t, m);
            assert(st.token == token_before(t, m));
            lemma_last_open_bounds(t, m);
            lemma_last_open_bounds(t, n);
            if group_open_at(t, n) {
                if c == '(' {
                    assert(last_open_before(t, n) == Some(m));
                    assert(!returned_to_top(t, m, n));
                } else {
                    assert(last_open_before(t, n) == last_open_before(t, m));
                    if let Some(p) = last_open_before(t, m) {
                        if c == ')' && paren_balance(t, n) == 0 {
                            assert(p < m);
                            assert(paren_balance(t, m + 1) == 0);
                            assert(returned_to_top(t, p, n));
                        } else {
                            if returned_to_top(t, p, n) {
                                let q = choose|q: int|
                                    p < q < n && t[q] == ')' && #[trigger] paren_balance(t, q + 1) == 0;
                                assert(q < m);
                                assert(returned_to_top(t, p, m));
                            }
                            if returned_to_top(t, p, m) {
                                let q = choose|q: int|
                                    p < q < m && t[q] == ')' && #[trigger] paren_balance(t, q + 1) == 0;
                                assert(returned_to_top(t, p, n));
                            }
                        }
                    }
                }
            } else {
                assert(paren_balance(t, n) < 0) by {
                    assert(!(forall|r: int| 0 <= r <= n ==> #[trigger] paren_balance(t, r) >= 0));
                    let r = choose|r: int| !(0 <= r <= n ==> #[trigger] paren_balance(t, r) >= 0);
                    assert(r == n);
                }
            }
        } else {
            assert(!group_open_at(t, n)) by {
                let r = choose|r: int| !(0 <= r <= m ==> #[trigger] paren_balance(t, r) >= 0);
                assert(!(0 <= r <= n ==> paren_balance(t, r) >= 0));
            }
        }
        assert(scan(t.take(n)).values =~= listed_inputs(t, n));
    }
}

/// The values returned for a reply are, in order, the listed input-select
/// values (see [`listed_input_at`]) of its first `vcp(` group; none when it
/// has no such group.
pub proof fn lemma_input_codes_are_listed_inputs(s: Seq<char>)
    ensures
        input_codes(s) == match find_vcp_from(s, 0) {
            None => seq![],
            Some(k) => listed_inputs(s.skip(k + 4), s.skip(k + 4).len() as int),
        },
{
    if let Some(k) = find_vcp_from(s, 0) {
        let t = s.skip(k + 4);
        lemma_scan_collects_listed(t, t.len() as int);
        assert(t.take(t.len() as int) =~= t);
    }
}

// ---------------------------------------------------------------------------
// The scanner
// ---------------------------------------------------------------------------

fn token_hex_byte(token: &Vec<char>) -> (r: Option<u8>)
    ensures
        r == hex_byte(token@),
{
    assert(token@.subrange(0, token.len() as int) =~= token@);
    match parse_unsigned_range(token, 0, token.len(), 16, 255) {
        Some(v) => Some(v as u8),
        None => None,
    }
}

fn flush_token(code: Option<u8>, token: &Vec<char>, values: &mut Vec<u8>)
    ensures
        final(values)@ == flushed(
            ScanState { depth: 1, code: code, token: token@, values: old(values)@, done: false },
        ),
{
    match code {
        Some(c) => {
            if c == INPUT_SELECT_CODE {
                match token_hex_byte(token) {
                    Some(v) => values.push(v),
                    None => {},
                }
            }
        },
        None => {},
    }
}

fn find_vcp(chars: &Vec<char>) -> (r: Option<usize>)
    ensures
        match find_vcp_from(chars@, 0) {
            Some(k) => r == Some(k as usize),
            None => r is None,
        },
        r matches Some(k) ==> k + 4 <= chars.len(),
{
    proof {
        lemma_find_vcp_bounds(chars@, 0);
    }
    let mut i: usize = 0;
    while i < chars.len() && chars.len() - i >= 4
        invariant
            i <= chars.len(),
            find_vcp_from(chars@, 0) == find_vcp_from(chars@, i as int),
        decreases chars.len() - i,
    {
        if chars[i] == 'v' && chars[i + 1] == 'c' && chars[i + 2] == 'p' && chars[i + 3] == '(' {
            return Some(i);
        }
        i = i + 1;
    }
    None
}

/// Parses the enumerated allowed values of input select (`0x60`) out of a
/// raw DDC/CI capabilities reply; empty when the reply has no `vcp(...)`
/// group or does not list `0x60` as enumerated.
pub fn parse_input_codes(capabilities: &str) -> (r: Vec<u8>)
    ensures
        r@ == input_codes(capabilities@),
        find_vcp_from(capabilities@, 0) is None ==> r@.len() == 0,
{
    let chars = chars_of(capabilities);
    let found = find_vcp(&chars);
    let start = match found {
        Some(k) => k + 4,
        None => {
            return Vec::new();
        },
    };
    proof {
        lemma_find_vcp_bounds(chars@, 0);
        match find_vcp_from(chars@, 0) {
            Some(k) => {
                assert(found == Some(k as usize));
                assert(start == k + 4);
            },
            None => {
                assert(found is None);
            },
        }
    }
    let ghost rest = chars@.skip(start as int);
    assert(input_codes(capabilities@) == scan(rest).values);
    let mut nesting: usize = 0;
    let mut code: Option<u8> = None;
    let mut token: Vec<char> = Vec::new();
    let mut result: Vec<u8> = Vec::new();
    let mut i: usize = start;
    assert(rest.take(0) =~= Seq::<char>::empty());
    assert(rest.take(rest.len() as int) =~= rest);
    while i < chars.len()
        invariant_except_break
            start <= i <= chars.len(),
            rest == chars@.skip(start as int),
            rest.len() == chars.len() - start,
            rest.take(rest.len() as int) == rest,
            nesting < i - start + 1,
            ({
                let st = scan(rest.take(i - start));
                &&& !st.done
                &&& st.depth == nesting + 1
                &&& st.code == code
                &&& st.token == token@
                &&& st.values == result@
            }),
        ensures
            result@ == scan(rest).values,
        decreases chars.len() - i,
    {
        let c = chars[i];
        let ghost before = rest.take(i - start);
        assert(rest.take(i - start + 1) =~= before.push(c));
        assert(rest.take(i - start + 1).drop_last() =~= before);
        if c == '(' {
            nesting = nesting + 1;
            code = token_hex_byte(&token);
            token = Vec::new();
        } else if c == ')' {
            flush_token(code, &token, &mut result);
            token = Vec::new();
            if nesting == 0 {
                proof {
                    lemma_scan_done_absorbs(rest, i - start + 1);
                }
                break ;
            }
            nesting = nesting - 1;
            if nesting == 0 {
                code = None;
            }
        } else if is_whitespace(c) {
            flush_token(code, &token, &mut result);
            token = Vec::new();
        } else {
            token.push(c);
        }
        i = i + 1;
    }
    result
}

} // verus!
