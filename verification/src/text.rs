//! String utilities stated over the `Seq<char>` view of strings.
use vstd::prelude::*;
use vstd::string::StringSliceAdditionalSpecFns;
use vstd::utf8::{decode_utf8, encode_utf8, is_char_boundary, valid_utf8};

verus! {

// ─────────────────────────────────────────────────────────────────────
// Specifications
// ─────────────────────────────────────────────────────────────────────

/// The code of `c` with ASCII upper-case letters mapped to lower case.
pub open spec fn ascii_lower_code(c: char) -> u32 {
    let x = c as u32;
    if 65 <= x && x <= 90 {
        (x + 32) as u32
    } else {
        x
    }
}

/// `a` and `b` are equal up to ASCII case (the meaning of
/// `str::eq_ignore_ascii_case`).
pub open spec fn eq_ignore_ascii_case(a: Seq<char>, b: Seq<char>) -> bool {
    &&& a.len() == b.len()
    &&& forall|i: int| 0 <= i < a.len() ==> ascii_lower_code(#[trigger] a[i]) == ascii_lower_code(b[i])
}

/// `s` begins with `prefix`.
pub open spec fn has_prefix(s: Seq<char>, prefix: Seq<char>) -> bool {
    prefix.len() <= s.len() && s.subrange(0, prefix.len() as int) == prefix
}

/// `needle` occurs somewhere in `s`.
pub open spec fn contains_seq(s: Seq<char>, needle: Seq<char>) -> bool {
    exists|i: int|
        0 <= i && i + needle.len() <= s.len() && #[trigger] s.subrange(i, i + needle.len()) == needle
}

/// The elements of `list` joined by `sep`.
pub open spec fn join(list: Seq<Seq<char>>, sep: Seq<char>) -> Seq<char>
    decreases list.len(),
{
    if list.len() == 0 {
        Seq::empty()
    } else if list.len() == 1 {
        list[0]
    } else {
        join(list.drop_last(), sep) + sep + list.last()
    }
}

/// The decimal digit for `d` (`d < 10`).
pub open spec fn digit_char(d: nat) -> char {
    ((48 + d) as u32) as char
}

/// The decimal representation of `n`, without leading zeros.
pub open spec fn decimal(n: nat) -> Seq<char>
    decreases n,
{
    if n < 10 {
        seq![digit_char(n)]
    } else {
        decimal(n / 10).push(digit_char(n % 10))
    }
}

/// `n` times the character `c`.
pub open spec fn repeat_char(c: char, n: nat) -> Seq<char> {
    Seq::new(n, |i: int| c)
}

/// The decimal representation of `n`, padded with leading zeros to at
/// least five characters (the text of `format!("{:05}", n)`).
pub open spec fn zero_padded5(n: nat) -> Seq<char> {
    let d = decimal(n);
    if d.len() < 5 {
        repeat_char('0', (5 - d.len()) as nat) + d
    } else {
        d
    }
}

/// Lexicographic order on the characters' codes: `a` comes strictly
/// before `b` (the order of `Ord` on `str`, since UTF-8 keeps the order of
/// code points).
pub open spec fn lex_lt(a: Seq<char>, b: Seq<char>) -> bool {
    exists|k: int| #[trigger] lex_differs_at(a, b, k)
}

/// `a` and `b` agree on their first `k` characters, and at `k` either `a`
/// ends while `b` goes on, or `a` holds the smaller character.
pub open spec fn lex_differs_at(a: Seq<char>, b: Seq<char>, k: int) -> bool {
    &&& 0 <= k <= a.len()
    &&& k < b.len()
    &&& a.subrange(0, k) == b.subrange(0, k)
    &&& (k == a.len() || (a[k] as u32) < (b[k] as u32))
}

/// `a` comes before `b` or equals it.
pub open spec fn lex_le(a: Seq<char>, b: Seq<char>) -> bool {
    lex_lt(a, b) || a == b
}

// ─────────────────────────────────────────────────────────────────────
// Facts about the order
// ─────────────────────────────────────────────────────────────────────

/// Two sequences that differ are ordered one way or the other.
pub proof fn lemma_lex_total(a: Seq<char>, b: Seq<char>)
    ensures
        lex_lt(a, b) || lex_lt(b, a) || a == b,
{
    if a != b {
        let m = if a.len() < b.len() { a.len() } else { b.len() };
        if forall|i: int| 0 <= i < m ==> a[i] == b[i] {
            assert(a.subrange(0, m as int) =~= b.subrange(0, m as int));
            if a.len() < b.len() {
                assert(a.subrange(0, a.len() as int) =~= a);
                assert(lex_differs_at(a, b, a.len() as int));
            } else if b.len() < a.len() {
                assert(lex_differs_at(b, a, b.len() as int));
            } else {
                assert(a =~= b);
            }
        } else {
            let k = choose|i: int| 0 <= i < m && a[i] != b[i];
            lemma_first_difference(a, b, k);
        }
    }
}

proof fn lemma_first_difference(a: Seq<char>, b: Seq<char>, k: int)
    requires
        0 <= k < a.len(),
        k < b.len(),
        a[k] != b[k],
    ensures
        lex_lt(a, b) || lex_lt(b, a),
    decreases k,
{
    if forall|i: int| 0 <= i < k ==> a[i] == b[i] {
        assert(a.subrange(0, k) =~= b.subrange(0, k));
        if (a[k] as u32) < (b[k] as u32) {
            assert(lex_differs_at(a, b, k));
        } else {
            lemma_char_code_injective(a[k], b[k]);
            assert((b[k] as u32) < (a[k] as u32));
            assert(lex_differs_at(b, a, k));
        }
    } else {
        let j = choose|i: int| 0 <= i < k && a[i] != b[i];
        lemma_first_difference(a, b, j);
    }
}

/// Distinct characters have distinct codes.
proof fn lemma_char_code_injective(a: char, b: char)
    ensures
        (a as u32) == (b as u32) ==> a == b,
{
    assert(((a as u32) as char) == a);
    assert(((b as u32) as char) == b);
}

/// The strict order is irreflexive and asymmetric.
pub proof fn lemma_lex_asymmetric(a: Seq<char>, b: Seq<char>)
    ensures
        !(lex_lt(a, b) && lex_lt(b, a)),
        !lex_lt(a, a),
{
    if lex_lt(a, b) && lex_lt(b, a) {
        let k1 = choose|k: int| lex_differs_at(a, b, k);
        let k2 = choose|k: int| lex_differs_at(b, a, k);
        if k1 < k2 {
            assert(b.subrange(0, k2)[k1] == a.subrange(0, k2)[k1]);
        } else if k2 < k1 {
            assert(a.subrange(0, k1)[k2] == b.subrange(0, k1)[k2]);
        }
    }
    if lex_lt(a, a) {
        let k = choose|k: int| lex_differs_at(a, a, k);
    }
}

/// The strict order is transitive.
pub proof fn lemma_lex_transitive(a: Seq<char>, b: Seq<char>, c: Seq<char>)
    requires
        lex_lt(a, b),
        lex_lt(b, c),
    ensures
        lex_lt(a, c),
{
    let k1 = choose|k: int| lex_differs_at(a, b, k);
    let k2 = choose|k: int| lex_differs_at(b, c, k);
    let k = if k1 < k2 { k1 } else { k2 };
    assert forall|i: int| 0 <= i < k implies a[i] == c[i] by {
        assert(a.subrange(0, k1)[i] == b.subrange(0, k1)[i]);
        assert(b.subrange(0, k2)[i] == c.subrange(0, k2)[i]);
    }
    assert(a.subrange(0, k) =~= c.subrange(0, k));
    if k1 < k2 {
        assert(b.subrange(0, k2)[k1] == c.subrange(0, k2)[k1]);
        assert(lex_differs_at(a, c, k));
    } else if k2 < k1 {
        assert(a.subrange(0, k1)[k2] == b.subrange(0, k1)[k2]);
        assert(lex_differs_at(a, c, k));
    } else {
        assert(lex_differs_at(a, c, k));
    }
}

/// `lex_le` is transitive.
pub proof fn lemma_lex_le_transitive(a: Seq<char>, b: Seq<char>, c: Seq<char>)
    requires
        lex_le(a, b),
        lex_le(b, c),
    ensures
        lex_le(a, c),
{
    if lex_lt(a, b) && lex_lt(b, c) {
        lemma_lex_transitive(a, b, c);
    }
}

// ─────────────────────────────────────────────────────────────────────
// Trusted std calls
// ─────────────────────────────────────────────────────────────────────

/// `String::push`: appends one character.
#[verifier::external_body]
pub fn push_char(s: &mut String, c: char)
    ensures
        final(s)@ == old(s)@.push(c),
{
    s.push(c);
}

/// What `str::to_lowercase` returns for a string (Unicode lower-case
/// mapping, which depends on the string alone).
pub uninterp spec fn lowercase(s: Seq<char>) -> Seq<char>;

/// All characters of `s` are ASCII.
pub open spec fn all_ascii(s: Seq<char>) -> bool {
    forall|i: int| 0 <= i < s.len() ==> (#[trigger] s[i] as u32) < 128
}

/// `s` with the ASCII letters `A`–`Z` mapped to `a`–`z`.
pub open spec fn ascii_lowercase(s: Seq<char>) -> Seq<char> {
    Seq::new(s.len(), |i: int| ascii_lower_code(s[i]) as char)
}

/// `str::to_lowercase`: the Unicode lower-case mapping of `s`. The
/// contract names the result and states it for ASCII text, where the
/// Unicode mapping takes `A`–`Z` to `a`–`z` and keeps every other
/// character; the mapping tables beyond ASCII are left unstated.
#[verifier::external_body]
pub fn to_lowercase(s: &str) -> (r: String)
    ensures
        r@ == lowercase(s@),
        all_ascii(s@) ==> r@ == ascii_lowercase(s@),
{
    s.to_lowercase()
}

// ─────────────────────────────────────────────────────────────────────
// Executable helpers
// ─────────────────────────────────────────────────────────────────────

/// The characters of `s`, in order.
pub fn chars_of(s: &str) -> (v: Vec<char>)
    ensures
        v@ == s@,
{
    let mut v: Vec<char> = Vec::new();
    for c in it: s.chars()
        invariant
            v@ == it.seq().take(it.index() as int),
            it.seq() == s@,
    {
        v.push(c);
    }
    v
}

/// A new string holding `s`.
pub fn string_of(s: &str) -> (r: String)
    ensures
        r@ == s@,
{
    s.to_owned()
}

/// Appends the characters of `v` to `s`.
pub fn push_chars(s: &mut String, v: &Vec<char>)
    ensures
        final(s)@ == old(s)@ + v@,
{
    let n = v.len();
    for i in 0..n
        invariant
            n == v@.len(),
            s@ == old(s)@ + v@.take(i as int),
    {
        push_char(s, v[i]);
        assert(v@.take(i + 1) =~= v@.take(i as int).push(v@[i as int]));
    }
    assert(v@.take(n as int) =~= v@);
}

/// ASCII-case-insensitive equality of two characters.
fn char_eq_ignore_ascii_case(a: char, b: char) -> (r: bool)
    ensures
        r == (ascii_lower_code(a) == ascii_lower_code(b)),
{
    let x = a as u32;
    let y = b as u32;
    let lx = if 65 <= x && x <= 90 { x + 32 } else { x };
    let ly = if 65 <= y && y <= 90 { y + 32 } else { y };
    lx == ly
}

/// `a.eq_ignore_ascii_case(b)`.
pub fn str_eq_ignore_ascii_case(a: &str, b: &str) -> (r: bool)
    ensures
        r == eq_ignore_ascii_case(a@, b@),
{
    let va = chars_of(a);
    let vb = chars_of(b);
    if va.len() != vb.len() {
        return false;
    }
    let n = va.len();
    for i in 0..n
        invariant
            n == va@.len(),
            n == vb@.len(),
            va@ == a@,
            vb@ == b@,
            forall|j: int| 0 <= j < i ==> ascii_lower_code(#[trigger] va@[j]) == ascii_lower_code(vb@[j]),
    {
        if !char_eq_ignore_ascii_case(va[i], vb[i]) {
            return false;
        }
    }
    true
}

/// `s.starts_with(prefix)`.
pub fn str_starts_with(s: &str, prefix: &str) -> (r: bool)
    ensures
        r == has_prefix(s@, prefix@),
{
    let vs = chars_of(s);
    let vp = chars_of(prefix);
    if vp.len() > vs.len() {
        return false;
    }
    let n = vp.len();
    for i in 0..n
        invariant
            n == vp@.len(),
            n <= vs@.len(),
            vs@ == s@,
            vp@ == prefix@,
            forall|j: int| 0 <= j < i ==> vs@[j] == vp@[j],
    {
        if vs[i] != vp[i] {
            assert(s@.subrange(0, n as int)[i as int] == vs@[i as int]);
            return false;
        }
    }
    assert(s@.subrange(0, n as int) =~= prefix@);
    true
}

/// Exact equality of two strings.
pub fn str_eq(a: &str, b: &str) -> (r: bool)
    ensures
        r == (a@ == b@),
{
    let va = chars_of(a);
    let vb = chars_of(b);
    if va.len() != vb.len() {
        return false;
    }
    let n = va.len();
    for i in 0..n
        invariant
            n == va@.len(),
            n == vb@.len(),
            va@ == a@,
            vb@ == b@,
            forall|j: int| 0 <= j < i ==> va@[j] == vb@[j],
    {
        if va[i] != vb[i] {
            return false;
        }
    }
    assert(va@ =~= vb@);
    true
}

/// Whether `a` comes strictly before `b` in lexicographic order.
pub fn chars_lt(a: &Vec<char>, b: &Vec<char>) -> (r: bool)
    ensures
        r == lex_lt(a@, b@),
{
    let n = a.len();
    let m = b.len();
    let mut k: usize = 0;
    while k < n && k < m && a[k] == b[k]
        invariant
            n == a@.len(),
            m == b@.len(),
            k <= n,
            k <= m,
            a@.subrange(0, k as int) =~= b@.subrange(0, k as int),
        decreases n - k,
    {
        k = k + 1;
        assert(a@.subrange(0, k as int) =~= a@.subrange(0, k - 1).push(a@[k - 1]));
        assert(b@.subrange(0, k as int) =~= b@.subrange(0, k - 1).push(b@[k - 1]));
    }
    if k < m && (k == n || (a[k] as u32) < (b[k] as u32)) {
        assert(lex_differs_at(a@, b@, k as int));
        true
    } else {
        proof {
            if lex_lt(a@, b@) {
                let j = choose|j: int| lex_differs_at(a@, b@, j);
                if j < k {
                    assert(a@.subrange(0, k as int)[j] == b@.subrange(0, k as int)[j]);
                } else if j > k {
                    assert(a@.subrange(0, j)[k as int] == b@.subrange(0, j)[k as int]);
                }
            }
        }
        false
    }
}

/// The decimal digits of `n` (no leading zeros).
pub fn decimal_string(n: usize) -> (r: Vec<char>)
    ensures
        r@ == decimal(n as nat),
{
    let mut digits: Vec<char> = Vec::new();
    let mut q = n;
    // digits holds the low-order digits, most significant first.
    while q >= 10
        invariant
            decimal(n as nat) == decimal(q as nat) + digits@,
        decreases q,
    {
        let d = q % 10;
        let c = char_from_digit(d);
        digits.insert(0, c);
        proof {
            assert(decimal(q as nat) == decimal((q / 10) as nat).push(digit_char((q % 10) as nat)));
        }
        q = q / 10;
        proof {
            assert(decimal(n as nat) =~= decimal(q as nat) + digits@);
        }
    }
    let c = char_from_digit(q);
    digits.insert(0, c);
    assert(digits@ =~= decimal(n as nat));
    digits
}

/// The character of a decimal digit.
fn char_from_digit(d: usize) -> (c: char)
    requires
        d < 10,
    ensures
        c == digit_char(d as nat),
{
    if d == 0 { '0' }
    else if d == 1 { '1' }
    else if d == 2 { '2' }
    else if d == 3 { '3' }
    else if d == 4 { '4' }
    else if d == 5 { '5' }
    else if d == 6 { '6' }
    else if d == 7 { '7' }
    else if d == 8 { '8' }
    else { '9' }
}

/// The text of `format!("{:05}", n)`.
pub fn zero_padded5_string(n: usize) -> (r: String)
    ensures
        r@ == zero_padded5(n as nat),
{
    let d = decimal_string(n);
    let mut r = String::new();
    if d.len() < 5 {
        let pad = 5 - d.len();
        for i in 0..pad
            invariant
                r@ == repeat_char('0', i as nat),
        {
            push_char(&mut r, '0');
            assert(r@ =~= repeat_char('0', (i + 1) as nat));
        }
    }
    push_chars(&mut r, &d);
    r
}


// ─────────────────────────────────────────────────────────────────────
// Whitespace, trimming and byte-range slicing
// ─────────────────────────────────────────────────────────────────────

/// `c` has the Unicode `White_Space` property (the meaning of
/// `char::is_whitespace`).
pub open spec fn is_unicode_whitespace(c: char) -> bool {
    let x = c as u32;
    ||| 9 <= x && x <= 13
    ||| x == 0x20
    ||| x == 0x85
    ||| x == 0xA0
    ||| x == 0x1680
    ||| 0x2000 <= x && x <= 0x200A
    ||| x == 0x2028
    ||| x == 0x2029
    ||| x == 0x202F
    ||| x == 0x205F
    ||| x == 0x3000
}

/// `s` without its trailing whitespace (`str::trim_end`).
pub open spec fn trim_end_chars(s: Seq<char>) -> Seq<char>
    decreases s.len(),
{
    if s.len() > 0 && is_unicode_whitespace(s.last()) {
        trim_end_chars(s.drop_last())
    } else {
        s
    }
}

/// `s` without its leading whitespace (`str::trim_start`).
pub open spec fn trim_start_chars(s: Seq<char>) -> Seq<char>
    decreases s.len(),
{
    if s.len() > 0 && is_unicode_whitespace(s[0]) {
        trim_start_chars(s.drop_first())
    } else {
        s
    }
}

/// `s` without leading and trailing whitespace (`str::trim`).
pub open spec fn trim_chars(s: Seq<char>) -> Seq<char> {
    trim_end_chars(trim_start_chars(s))
}

/// The text between byte offsets `start` and `end` of a UTF-8 text, or
/// `None` when the range is reversed, out of bounds, or does not fall on
/// character boundaries (the meaning of `str::get(start..end)`).
pub open spec fn str_get_spec(bytes: Seq<u8>, start: int, end: int) -> Option<Seq<char>> {
    if 0 <= start <= end <= bytes.len() && is_char_boundary(bytes, start) && is_char_boundary(bytes, end) {
        Some(decode_utf8(bytes.subrange(start, end)))
    } else {
        None
    }
}

/// Whether `c` is whitespace.
pub fn is_whitespace(c: char) -> (r: bool)
    ensures
        r == is_unicode_whitespace(c),
{
    let x = c as u32;
    (9 <= x && x <= 13) || x == 0x20 || x == 0x85 || x == 0xA0 || x == 0x1680 || (0x2000 <= x
        && x <= 0x200A) || x == 0x2028 || x == 0x2029 || x == 0x202F || x == 0x205F || x == 0x3000
}

/// The length of `v` without its trailing whitespace.
pub fn trim_end_len(v: &Vec<char>) -> (e: usize)
    ensures
        e <= v@.len(),
        v@.take(e as int) == trim_end_chars(v@),
{
    let mut e = v.len();
    assert(v@.take(e as int) =~= v@);
    while e > 0 && is_whitespace(v[e - 1])
        invariant
            e <= v@.len(),
            trim_end_chars(v@.take(e as int)) == trim_end_chars(v@),
        decreases e,
    {
        assert(v@.take(e as int).drop_last() =~= v@.take(e - 1));
        e = e - 1;
    }
    e
}

/// The number of leading whitespace characters of `v`.
pub fn trim_start_len(v: &Vec<char>) -> (b: usize)
    ensures
        b <= v@.len(),
        v@.skip(b as int) == trim_start_chars(v@),
{
    let mut b: usize = 0;
    assert(v@.skip(0) =~= v@);
    while b < v.len() && is_whitespace(v[b as usize])
        invariant
            b <= v@.len(),
            trim_start_chars(v@.skip(b as int)) == trim_start_chars(v@),
        decreases v@.len() - b,
    {
        assert(v@.skip(b as int).drop_first() =~= v@.skip(b + 1));
        b = b + 1;
    }
    b
}

/// A byte range that is a character boundary of a text stays one in a
/// prefix of the text that contains it.
proof fn lemma_prefix_boundary(bytes: Seq<u8>, start: int, end: int)
    requires
        valid_utf8(bytes),
        0 <= start <= end <= bytes.len(),
        is_char_boundary(bytes, start),
        is_char_boundary(bytes, end),
    ensures
        valid_utf8(bytes.subrange(0, end)),
        is_char_boundary(bytes.subrange(0, end), start),
{
    broadcast use vstd::utf8::valid_utf8_split, vstd::utf8::is_char_boundary_start_end_of_seq;

    let head = bytes.subrange(0, end);
    if start < end {
        vstd::utf8::is_char_boundary_iff_not_is_continuation_byte(bytes, start);
        vstd::utf8::is_char_boundary_iff_not_is_continuation_byte(head, start);
        assert(head[start] == bytes[start]);
    } else {
        assert(head.len() == start);
    }
}

/// `s.get(start..end)`: the text between two byte offsets.
pub fn str_get(s: &str, start: usize, end: usize) -> (r: Option<&str>)
    ensures
        match r {
            Some(t) => str_get_spec(s.spec_bytes(), start as int, end as int) == Some(t@),
            None => str_get_spec(s.spec_bytes(), start as int, end as int) is None,
        },
{
    broadcast use vstd::utf8::encode_utf8_valid_utf8, vstd::utf8::encode_utf8_decode_utf8;

    let len = s.as_bytes().len();
    if start > end || end > len {
        return None;
    }
    if !s.is_char_boundary(start) || !s.is_char_boundary(end) {
        return None;
    }
    proof {
        lemma_prefix_boundary(s.spec_bytes(), start as int, end as int);
    }
    let (head, _) = s.split_at(end);
    let (_, piece) = head.split_at(start);
    proof {
        assert(piece.spec_bytes() =~= s.spec_bytes().subrange(start as int, end as int));
        assert(decode_utf8(encode_utf8(piece@)) == piece@);
    }
    Some(piece)
}

/// A new string holding the characters `v[from..to]`.
pub fn string_from_range(v: &Vec<char>, from: usize, to: usize) -> (r: String)
    requires
        from <= to <= v@.len(),
    ensures
        r@ == v@.subrange(from as int, to as int),
{
    let mut r = String::new();
    let mut i = from;
    while i < to
        invariant
            from <= i <= to,
            to <= v@.len(),
            r@ == v@.subrange(from as int, i as int),
        decreases to - i,
    {
        push_char(&mut r, v[i]);
        assert(r@ =~= v@.subrange(from as int, i + 1));
        i = i + 1;
    }
    r
}

/// Whether `needle` occurs in `v[from..to]`.
pub fn contains_in_range(v: &Vec<char>, from: usize, to: usize, needle: &Vec<char>) -> (r: bool)
    requires
        from <= to <= v@.len(),
    ensures
        r == contains_seq(v@.subrange(from as int, to as int), needle@),
{
    let ghost t = v@.subrange(from as int, to as int);
    let m = needle.len();
    if m > to - from {
        proof {
            if contains_seq(t, needle@) {
                let i = choose|i: int| 0 <= i && i + needle@.len() <= t.len() && #[trigger] t.subrange(i, i + needle@.len()) == needle@;
            }
        }
        return false;
    }
    let mut i = from;
    while i <= to && m <= to - i
        invariant
            from <= i,
            to <= v@.len(),
            m == needle@.len(),
            m <= to - from,
            t == v@.subrange(from as int, to as int),
            forall|k: int| 0 <= k < i - from ==> #[trigger] t.subrange(k, k + m) != needle@,
        decreases to - i,
    {
        let mut j: usize = 0;
        let mut same = true;
        while j < m
            invariant
                j <= m,
                i + m <= to,
                to <= v@.len(),
                m == needle@.len(),
                same == (forall|l: int| 0 <= l < j ==> v@[i + l] == needle@[l]),
            decreases m - j,
        {
            assert(i + j < v@.len());
            if v[i + j] != needle[j] {
                same = false;
            }
            j = j + 1;
        }
        if same {
            assert(t.subrange(i - from, i - from + m) =~= needle@);
            return true;
        }
        proof {
            let l = choose|l: int| 0 <= l < m && v@[i + l] != needle@[l];
            assert(t.subrange(i - from, i - from + m)[l] == v@[i + l]);
        }
        i = i + 1;
    }
    proof {
        if contains_seq(t, needle@) {
            let k = choose|k: int| 0 <= k && k + needle@.len() <= t.len() && #[trigger] t.subrange(k, k + needle@.len()) == needle@;
            assert(t.subrange(k, k + m) == needle@);
        }
    }
    false
}

} // verus!
