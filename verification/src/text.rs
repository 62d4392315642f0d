//! Character-level building blocks shared by the parsers and formatters:
//! Unicode whitespace, trimming, ASCII/Unicode lowercasing, unsigned integer
//! parsing in a radix (the grammar of `u8`/`u16` `from_str_radix`) and
//! decimal/hexadecimal rendering.
use vstd::prelude::*;

verus! {

// ---------------------------------------------------------------------------
// Characters
// ---------------------------------------------------------------------------

/// Unicode `White_Space`, the set that `char::is_whitespace` tests.
pub open spec fn is_space(c: char) -> bool {
    let u = c as u32;
    ||| 9 <= u <= 13
    ||| u == 32
    ||| u == 0x85
    ||| u == 0xa0
    ||| u == 0x1680
    ||| 0x2000 <= u <= 0x200a
    ||| u == 0x2028
    ||| u == 0x2029
    ||| u == 0x202f
    ||| u == 0x205f
    ||| u == 0x3000
}

pub fn is_whitespace(c: char) -> (r: bool)
    ensures
        r == is_space(c),
{
    let u = c as u32;
    (9 <= u && u <= 13) || u == 32 || u == 0x85 || u == 0xa0 || u == 0x1680 || (0x2000 <= u && u
        <= 0x200a) || u == 0x2028 || u == 0x2029 || u == 0x202f || u == 0x205f || u == 0x3000
}

pub open spec fn is_ascii_char(c: char) -> bool {
    (c as u32) < 128
}

pub open spec fn all_ascii(s: Seq<char>) -> bool {
    forall|i: int| 0 <= i < s.len() ==> is_ascii_char(#[trigger] s[i])
}

pub open spec fn ascii_lower_char(c: char) -> char {
    if 65 <= (c as u32) <= 90 {
        ((c as u32) + 32) as char
    } else {
        c
    }
}

pub open spec fn ascii_lower(s: Seq<char>) -> Seq<char> {
    s.map_values(|c: char| ascii_lower_char(c))
}

// ---------------------------------------------------------------------------
// Strings as character sequences
// ---------------------------------------------------------------------------

/// The characters of `s`, in order.
pub fn chars_of(s: &str) -> (r: Vec<char>)
    ensures
        r@ == s@,
{
    let mut out: Vec<char> = Vec::new();
    for c in it: s.chars()
        invariant
            out@ == it.history(),
    {
        out.push(c);
    }
    out
}

/// `a` holds exactly the characters of `b`.
pub fn same_chars(a: &Vec<char>, b: &str) -> (r: bool)
    ensures
        r == (a@ == b@),
{
    let bc = chars_of(b);
    if a.len() != bc.len() {
        return false;
    }
    let mut i: usize = 0;
    while i < a.len()
        invariant
            a.len() == bc.len(),
            bc@ == b@,
            i <= a.len(),
            forall|j: int| 0 <= j < i ==> a@[j] == bc@[j],
        decreases a.len() - i,
    {
        if a[i] != bc[i] {
            return false;
        }
        i = i + 1;
    }
    assert(a@ =~= bc@);
    true
}

/// Appends the characters of `s` to `out`.
pub fn push_str(out: &mut Vec<char>, s: &str)
    ensures
        final(out)@ == old(out)@ + s@,
{
    let cs = chars_of(s);
    let mut i: usize = 0;
    while i < cs.len()
        invariant
            cs@ == s@,
            i <= cs.len(),
            out@ == old(out)@ + cs@.take(i as int),
        decreases cs.len() - i,
    {
        out.push(cs[i]);
        assert(out@ =~= old(out)@ + cs@.take(i + 1));
        i = i + 1;
    }
    assert(cs@.take(cs.len() as int) =~= cs@);
}

/// Builds a `String` out of characters (`FromIterator<char>` for `String`).
#[verifier::external_body]
pub fn string_from_chars(chars: &Vec<char>) -> (r: String)
    ensures
        r@ == chars@,
{
    chars.iter().collect()
}

/// What `str::to_lowercase` gives back for a string: Unicode's lowercase
/// mapping, including its context-dependent rule for final sigma.
pub uninterp spec fn unicode_lowercase(s: Seq<char>) -> Seq<char>;

/// Calls `str::to_lowercase`.
///
/// Claims only that the result is a function of the characters of `s`
/// (named [`unicode_lowercase`]); the Unicode case tables are not stated.
#[verifier::external_body]
fn std_to_lowercase(s: &str) -> (r: String)
    ensures
        r@ == unicode_lowercase(s@),
{
    s.to_lowercase()
}

/// Lowercase form of a text, as `str::to_lowercase` produces it: on ASCII
/// text that is the ASCII mapping `A`..`Z` to `a`..`z`; on other text it is
/// the Unicode mapping.
pub open spec fn lowercase(s: Seq<char>) -> Seq<char> {
    if all_ascii(s) {
        ascii_lower(s)
    } else {
        unicode_lowercase(s)
    }
}

pub fn to_lowercase(s: &str) -> (r: String)
    ensures
        r@ == lowercase(s@),
{
    let chars = chars_of(s);
    let mut ascii = true;
    let mut i: usize = 0;
    while i < chars.len()
        invariant
            chars@ == s@,
            i <= chars.len(),
            ascii == (forall|j: int| 0 <= j < i ==> is_ascii_char(#[trigger] chars@[j])),
        decreases chars.len() - i,
    {
        if (chars[i] as u32) >= 128 {
            ascii = false;
        }
        i = i + 1;
    }
    if !ascii {
        return std_to_lowercase(s);
    }
    let mut out: Vec<char> = Vec::new();
    let mut k: usize = 0;
    while k < chars.len()
        invariant
            chars@ == s@,
            all_ascii(s@),
            k <= chars.len(),
            out@ == ascii_lower(chars@.take(k as int)),
        decreases chars.len() - k,
    {
        let c = chars[k];
        let u = c as u32;
        let lc = if 65 <= u && u <= 90 {
            ((u + 32) as u8) as char
        } else {
            c
        };
        assert(chars@.take(k + 1) =~= chars@.take(k as int).push(c));
        out.push(lc);
        assert(out@ =~= ascii_lower(chars@.take(k + 1)));
        k = k + 1;
    }
    assert(chars@.take(chars.len() as int) =~= chars@);
    string_from_chars(&out)
}

/// `s` with leading and trailing whitespace removed (`str::trim`).
pub open spec fn trim(s: Seq<char>) -> Seq<char> {
    s.subrange(trim_start_index(s), trim_end_index(s))
}

/// Index of the first non-whitespace character, or `s.len()` if there is none.
pub open spec fn trim_start_index(s: Seq<char>) -> int {
    first_non_space_from(s, 0)
}

pub open spec fn first_non_space_from(s: Seq<char>, i: int) -> int
    decreases s.len() - i,
{
    if i >= s.len() {
        s.len() as int
    } else if !is_space(s[i]) {
        i
    } else {
        first_non_space_from(s, i + 1)
    }
}

/// One past the last non-whitespace character at or after the trimmed start.
pub open spec fn trim_end_index(s: Seq<char>) -> int {
    last_non_space_end(s, s.len() as int, trim_start_index(s))
}

pub open spec fn last_non_space_end(s: Seq<char>, j: int, lo: int) -> int
    decreases j - lo,
{
    if j <= lo {
        lo
    } else if !is_space(s[j - 1]) {
        j
    } else {
        last_non_space_end(s, j - 1, lo)
    }
}

proof fn lemma_first_non_space_bounds(s: Seq<char>, i: int)
    requires
        0 <= i <= s.len(),
    ensures
        i <= first_non_space_from(s, i) <= s.len(),
    decreases s.len() - i,
{
    if i < s.len() && is_space(s[i]) {
        lemma_first_non_space_bounds(s, i + 1);
    }
}

proof fn lemma_last_non_space_bounds(s: Seq<char>, j: int, lo: int)
    requires
        0 <= lo <= j <= s.len(),
    ensures
        lo <= last_non_space_end(s, j, lo) <= j,
    decreases j - lo,
{
    if j > lo && is_space(s[j - 1]) {
        lemma_last_non_space_bounds(s, j - 1, lo);
    }
}

pub proof fn lemma_trim_bounds(s: Seq<char>)
    ensures
        0 <= trim_start_index(s) <= trim_end_index(s) <= s.len(),
{
    lemma_first_non_space_bounds(s, 0);
    lemma_last_non_space_bounds(s, s.len() as int, trim_start_index(s));
}

/// A text that neither starts nor ends with whitespace is its own trim.
pub proof fn lemma_trim_unspaced(s: Seq<char>)
    requires
        s.len() > 0 ==> !is_space(s[0]) && !is_space(s[s.len() - 1]),
    ensures
        trim(s) == s,
{
    if s.len() == 0 {
        assert(trim(s) =~= s);
    } else {
        assert(trim_start_index(s) == 0);
        assert(trim_end_index(s) == s.len());
        assert(trim(s) =~= s);
    }
}

/// The characters of `s` with surrounding whitespace removed.
pub fn trim_chars(s: &Vec<char>) -> (r: Vec<char>)
    ensures
        r@ == trim(s@),
{
    let mut lo: usize = 0;
    while lo < s.len() && is_whitespace(s[lo])
        invariant
            lo <= s.len(),
            first_non_space_from(s@, 0) == first_non_space_from(s@, lo as int),
        decreases s.len() - lo,
    {
        lo = lo + 1;
    }
    assert(trim_start_index(s@) == lo);
    let mut hi: usize = s.len();
    while hi > lo && is_whitespace(s[hi - 1])
        invariant
            lo <= hi <= s.len(),
            trim_start_index(s@) == lo,
            trim_end_index(s@) == last_non_space_end(s@, hi as int, lo as int),
        decreases hi - lo,
    {
        hi = hi - 1;
    }
    let mut out: Vec<char> = Vec::new();
    let mut k: usize = lo;
    while k < hi
        invariant
            lo <= k <= hi <= s.len(),
            out@ == s@.subrange(lo as int, k as int),
        decreases hi - k,
    {
        out.push(s[k]);
        assert(out@ =~= s@.subrange(lo as int, k + 1));
        k = k + 1;
    }
    out
}

// ---------------------------------------------------------------------------
// Unsigned integers in a radix
// ---------------------------------------------------------------------------

/// Value of a digit character in radixes up to 36 (`char::to_digit`), or 36
/// for a character that is no digit at all.
pub open spec fn digit_value(c: char) -> nat {
    let u = c as u32;
    if 48 <= u <= 57 {
        (u - 48) as nat
    } else if 97 <= u <= 122 {
        (u - 87) as nat
    } else if 65 <= u <= 90 {
        (u - 55) as nat
    } else {
        36
    }
}

pub fn digit_of(c: char) -> (r: u32)
    ensures
        r == digit_value(c),
{
    let u = c as u32;
    if 48 <= u && u <= 57 {
        u - 48
    } else if 97 <= u && u <= 122 {
        u - 87
    } else if 65 <= u && u <= 90 {
        u - 55
    } else {
        36
    }
}

pub open spec fn all_digits(s: Seq<char>, radix: nat) -> bool {
    forall|i: int| 0 <= i < s.len() ==> digit_value(#[trigger] s[i]) < radix
}

/// Value of a digit string read most significant digit first.
pub open spec fn digits_value(s: Seq<char>, radix: nat) -> nat
    decreases s.len(),
{
    if s.len() == 0 {
        0
    } else {
        digits_value(s.drop_last(), radix) * radix + digit_value(s.last())
    }
}

/// The digits of an unsigned number's text: one leading `+` is allowed.
pub open spec fn unsigned_digits(s: Seq<char>) -> Seq<char> {
    if s.len() > 0 && s[0] == '+' {
        s.drop_first()
    } else {
        s
    }
}

/// An unsigned integer read from `s` in `radix`, as `from_str_radix` of an
/// unsigned type with maximum `max` reads it: an optional `+`, then at least
/// one digit of the radix; `None` when a character is no digit, when there
/// are no digits, or when the value exceeds `max`.
pub open spec fn parse_unsigned(s: Seq<char>, radix: nat, max: nat) -> Option<nat> {
    let d = unsigned_digits(s);
    if d.len() > 0 && all_digits(d, radix) && digits_value(d, radix) <= max {
        Some(digits_value(d, radix))
    } else {
        None
    }
}

pub proof fn lemma_digits_value_prefix(s: Seq<char>, k: int, radix: nat)
    requires
        radix >= 1,
        0 <= k <= s.len(),
    ensures
        digits_value(s.take(k), radix) <= digits_value(s, radix),
    decreases s.len(),
{
    if k == s.len() {
        assert(s.take(k) =~= s);
    } else {
        let t = s.drop_last();
        assert(s.take(k) =~= t.take(k));
        lemma_digits_value_prefix(t, k, radix);
        let x = digits_value(t, radix);
        assert(x <= x * radix) by (nonlinear_arith)
            requires
                radix >= 1,
        ;
    }
}

/// Reads `chars[start..end]` as an unsigned integer in `radix` no larger than `max`.
pub fn parse_unsigned_range(chars: &Vec<char>, start: usize, end: usize, radix: u32, max: u32) -> (r:
    Option<u32>)
    requires
        start <= end <= chars.len(),
        2 <= radix <= 36,
        max <= 0xffff,
    ensures
        match parse_unsigned(chars@.subrange(start as int, end as int), radix as nat, max as nat) {
            Some(v) => r == Some(v as u32),
            None => r is None,
        },
{
    let ghost s = chars@.subrange(start as int, end as int);
    let mut b = start;
    if start < end && chars[start] == '+' {
        b = start + 1;
    }
    let ghost d = unsigned_digits(s);
    assert(d =~= chars@.subrange(b as int, end as int));
    if b == end {
        return None;
    }
    let mut acc: u32 = 0;
    let mut i: usize = b;
    while i < end
        invariant
            b <= i <= end <= chars.len(),
            2 <= radix <= 36,
            max <= 0xffff,
            d =~= chars@.subrange(b as int, end as int),
            d == unsigned_digits(chars@.subrange(start as int, end as int)),
            acc <= max,
            acc == digits_value(d.take(i - b), radix as nat),
            all_digits(d.take(i - b), radix as nat),
        decreases end - i,
    {
        let dv = digit_of(chars[i]);
        if dv >= radix {
            assert(d[i - b] == chars@[i as int]);
            return None;
        }
        assert(d.take(i - b + 1).drop_last() =~= d.take(i - b));
        assert(d.take(i - b + 1).last() == chars@[i as int]);
        assert(acc * radix <= 0xffff * 36) by (nonlinear_arith)
            requires
                acc <= 0xffff,
                radix <= 36,
        ;
        let next = acc * radix + dv;
        if next > max {
            proof {
                lemma_digits_value_prefix(d, i - b + 1, radix as nat);
                assert(d.take(d.len() as int) =~= d);
            }
            return None;
        }
        acc = next;
        i = i + 1;
    }
    assert(d.take(i - b) =~= d);
    Some(acc)
}

// ---------------------------------------------------------------------------
// Rendering unsigned integers
// ---------------------------------------------------------------------------

/// The character of digit `d` (below 16); `upper` selects `A`..`F` over `a`..`f`.
pub open spec fn digit_char(d: nat, upper: bool) -> char {
    if d < 10 {
        (d + 48) as char
    } else if upper {
        (d + 55) as char
    } else {
        (d + 87) as char
    }
}

/// The shortest digit text of `v` in `radix` (`"0"` for zero).
pub open spec fn radix_text(v: nat, radix: nat, upper: bool) -> Seq<char>
    decreases v,
{
    if radix < 2 || v < radix {
        seq![digit_char(v, upper)]
    } else {
        proof {
            assert(v / radix < v) by (nonlinear_arith)
                requires
                    radix >= 2,
                    v >= radix,
            ;
        }
        radix_text(v / radix, radix, upper).push(digit_char(v % radix, upper))
    }
}

/// `s` padded on the left with `0` to at least `width` characters.
pub open spec fn zero_padded(s: Seq<char>, width: nat) -> Seq<char> {
    if s.len() >= width {
        s
    } else {
        Seq::new((width - s.len()) as nat, |i: int| '0') + s
    }
}

pub open spec fn decimal_text(v: nat) -> Seq<char> {
    radix_text(v, 10, false)
}

pub open spec fn hex_text(v: nat, upper: bool) -> Seq<char> {
    radix_text(v, 16, upper)
}

fn digit_char_of(d: u32, upper: bool) -> (c: char)
    requires
        d < 16,
    ensures
        c == digit_char(d as nat, upper),
{
    if d < 10 {
        ((d + 48) as u8) as char
    } else if upper {
        ((d + 55) as u8) as char
    } else {
        ((d + 87) as u8) as char
    }
}

/// Appends the digit text of `v` in `radix` to `out`.
pub fn push_radix_text(out: &mut Vec<char>, v: u32, radix: u32, upper: bool)
    requires
        2 <= radix <= 16,
    ensures
        final(out)@ == old(out)@ + radix_text(v as nat, radix as nat, upper),
    decreases v,
{
    if v >= radix {
        assert(v / radix < v) by (nonlinear_arith)
            requires
                radix >= 2,
                v >= radix,
        ;
        push_radix_text(out, v / radix, radix, upper);
    }
    out.push(digit_char_of(v % radix, upper));
    proof {
        if v >= radix {
            assert(final(out)@ =~= old(out)@ + radix_text(v as nat, radix as nat, upper));
        } else {
            assert(v % radix == v) by (nonlinear_arith)
                requires
                    v < radix,
            ;
            assert(final(out)@ =~= old(out)@ + radix_text(v as nat, radix as nat, upper));
        }
    }
}

/// Appends the digit text of `v` in `radix`, left-padded with `0` to `width`.
pub fn push_padded_radix_text(out: &mut Vec<char>, v: u32, radix: u32, upper: bool, width: usize)
    requires
        2 <= radix <= 16,
    ensures
        final(out)@ == old(out)@ + zero_padded(radix_text(v as nat, radix as nat, upper), width as nat),
{
    let mut digits: Vec<char> = Vec::new();
    push_radix_text(&mut digits, v, radix, upper);
    assert(digits@ =~= radix_text(v as nat, radix as nat, upper));
    let ghost start = out@;
    if digits.len() < width {
        let pad = width - digits.len();
        let mut i: usize = 0;
        while i < pad
            invariant
                i <= pad,
                out@ == start + Seq::new(i as nat, |j: int| '0'),
            decreases pad - i,
        {
            out.push('0');
            assert(out@ =~= start + Seq::new((i + 1) as nat, |j: int| '0'));
            i = i + 1;
        }
    }
    let ghost mid = out@;
    let mut k: usize = 0;
    while k < digits.len()
        invariant
            k <= digits.len(),
            out@ == mid + digits@.take(k as int),
        decreases digits.len() - k,
    {
        out.push(digits[k]);
        assert(out@ =~= mid + digits@.take(k + 1));
        k = k + 1;
    }
    assert(digits@.take(digits.len() as int) =~= digits@);
    assert(out@ =~= old(out)@ + zero_padded(radix_text(v as nat, radix as nat, upper), width as nat));
}

// ---------------------------------------------------------------------------
// Reading back what was rendered
// ---------------------------------------------------------------------------

pub proof fn lemma_digit_char_value(d: nat, upper: bool)
    requires
        d < 16,
    ensures
        digit_value(digit_char(d, upper)) == d,
        is_ascii_char(digit_char(d, upper)),
        !is_space(digit_char(d, upper)),
        digit_char(d, upper) != '+',
        !upper ==> ascii_lower_char(digit_char(d, upper)) == digit_char(d, upper),
{
}

pub proof fn lemma_radix_text_value(v: nat, radix: nat, upper: bool)
    requires
        2 <= radix <= 16,
    ensures
        radix_text(v, radix, upper).len() > 0,
        all_digits(radix_text(v, radix, upper), radix),
        digits_value(radix_text(v, radix, upper), radix) == v,
        forall|i: int|
            0 <= i < radix_text(v, radix, upper).len() ==> {
                let c = #[trigger] radix_text(v, radix, upper)[i];
                &&& is_ascii_char(c)
                &&& !is_space(c)
                &&& c != '+'
                &&& !upper ==> ascii_lower_char(c) == c
            },
    decreases v,
{
    let t = radix_text(v, radix, upper);
    if v < radix {
        lemma_digit_char_value(v, upper);
        assert(t.drop_last() =~= Seq::<char>::empty());
        assert(digits_value(t.drop_last(), radix) == 0);
        assert(0 * radix == 0);
    } else {
        let q = v / radix;
        let r = v % radix;
        assert(q < v) by (nonlinear_arith)
            requires
                v >= radix,
                radix >= 2,
                q == v / radix,
        ;
        assert(r < radix) by (nonlinear_arith)
            requires
                radix >= 2,
                r == v % radix,
        ;
        lemma_radix_text_value(q, radix, upper);
        lemma_digit_char_value(r, upper);
        let p = radix_text(q, radix, upper);
        assert(t.drop_last() =~= p);
        assert(q * radix + r == v) by (nonlinear_arith)
            requires
                radix >= 2,
                q == v / radix,
                r == v % radix,
        ;
        assert forall|i: int| 0 <= i < t.len() implies digit_value(#[trigger] t[i]) < radix by {
            if i < p.len() {
                assert(t[i] == p[i]);
            }
        }
        assert forall|i: int|
            0 <= i < t.len() implies {
                let c = #[trigger] t[i];
                &&& is_ascii_char(c)
                &&& !is_space(c)
                &&& c != '+'
                &&& !upper ==> ascii_lower_char(c) == c
            } by {
            if i < p.len() {
                assert(t[i] == p[i]);
            }
        }
    }
}

} // verus!
