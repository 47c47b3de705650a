//! Character-level utilities: conversions between `String` and `Vec<char>`,
//! ASCII trimming and lowering, decimal rendering and parsing, and the
//! truncation applied to logged bodies.

use vstd::prelude::*;

verus! {

/// Relies on `str::chars` and `Iterator::collect`: the resulting vector
/// holds exactly the characters of the string, in order.
#[verifier::external_body]
pub fn chars_of(s: &str) -> (r: Vec<char>)
    ensures
        r@ == s@,
{
    s.chars().collect()
}

/// Relies on `String`'s `FromIterator<char>`: the resulting string holds
/// exactly the given characters, in order.
#[verifier::external_body]
pub fn string_of(chars: &Vec<char>) -> (r: String)
    ensures
        r@ == chars@,
{
    chars.iter().collect()
}

/// Character-by-character equality of two vectors.
pub fn chars_eq(a: &Vec<char>, b: &Vec<char>) -> (r: bool)
    ensures
        r == (a@ == b@),
{
    if a.len() != b.len() {
        return false;
    }
    let mut i: usize = 0;
    while i < a.len()
        invariant
            i <= a.len(),
            a.len() == b.len(),
            forall|j: int| 0 <= j < i ==> a@[j] == b@[j],
        decreases a.len() - i,
    {
        if a[i] != b[i] {
            return false;
        }
        i = i + 1;
    }
    proof {
        assert(a@ =~= b@);
    }
    true
}

/// Whether the vector's characters read exactly as the literal.
pub fn matches_lit(v: &Vec<char>, lit: &str) -> (r: bool)
    ensures
        r == (v@ == lit@),
{
    let l = chars_of(lit);
    chars_eq(v, &l)
}

/// The whitespace recognized at the ends of configuration values.
pub open spec fn is_ws_char(c: char) -> bool {
    c == ' ' || c == '\t' || c == '\n' || c == '\r'
}

/// The text with leading whitespace removed.
pub open spec fn trim_front(s: Seq<char>) -> Seq<char>
    decreases s.len(),
{
    if s.len() > 0 && is_ws_char(s.first()) {
        trim_front(s.drop_first())
    } else {
        s
    }
}

/// The text with trailing whitespace removed.
pub open spec fn trim_back(s: Seq<char>) -> Seq<char>
    decreases s.len(),
{
    if s.len() > 0 && is_ws_char(s.last()) {
        trim_back(s.drop_last())
    } else {
        s
    }
}

/// The text with surrounding whitespace removed.
pub open spec fn trimmed(s: Seq<char>) -> Seq<char> {
    trim_back(trim_front(s))
}

/// When the first `k` characters are whitespace and the `k`th is not (or the
/// end was reached), trimming the front yields the tail from `k` on.
proof fn lemma_trim_front_at(s: Seq<char>, k: int)
    requires
        0 <= k <= s.len(),
        forall|j: int| 0 <= j < k ==> is_ws_char(#[trigger] s[j]),
        k < s.len() ==> !is_ws_char(s[k]),
    ensures
        trim_front(s) == s.subrange(k, s.len() as int),
    decreases k,
{
    if k == 0 {
        assert(s.subrange(0, s.len() as int) =~= s);
    } else {
        lemma_trim_front_at(s.drop_first(), k - 1);
        assert(s.drop_first().subrange(k - 1, s.drop_first().len() as int)
            =~= s.subrange(k, s.len() as int));
    }
}

/// When the characters from `e` on are whitespace and the one before `e` is
/// not (or `e` is zero), trimming the back yields the first `e` characters.
proof fn lemma_trim_back_at(s: Seq<char>, e: int)
    requires
        0 <= e <= s.len(),
        forall|j: int| e <= j < s.len() ==> is_ws_char(#[trigger] s[j]),
        e > 0 ==> !is_ws_char(s[e - 1]),
    ensures
        trim_back(s) == s.subrange(0, e),
    decreases s.len(),
{
    if e == s.len() {
        if s.len() > 0 && is_ws_char(s.last()) {
            assert(false);
        }
        assert(s.subrange(0, e) =~= s);
    } else {
        lemma_trim_back_at(s.drop_last(), e);
        assert(s.drop_last().subrange(0, e) =~= s.subrange(0, e));
    }
}

/// The characters with surrounding whitespace removed.
pub fn trim_chars(v: &Vec<char>) -> (r: Vec<char>)
    ensures
        r@ == trimmed(v@),
{
    let mut start: usize = 0;
    while start < v.len() && is_ws(v[start])
        invariant
            start <= v.len(),
            forall|j: int| 0 <= j < start ==> is_ws_char(#[trigger] v@[j]),
        decreases v.len() - start,
    {
        start = start + 1;
    }
    let mut end: usize = v.len();
    while end > start && is_ws(v[end - 1])
        invariant
            start <= end <= v.len(),
            forall|j: int| 0 <= j < start ==> is_ws_char(#[trigger] v@[j]),
            forall|j: int| end <= j < v.len() ==> is_ws_char(#[trigger] v@[j]),
        decreases end,
    {
        end = end - 1;
    }
    let mut out: Vec<char> = Vec::new();
    let mut i: usize = start;
    while i < end
        invariant
            start <= i <= end <= v.len(),
            out@ == v@.subrange(start as int, i as int),
        decreases end - i,
    {
        out.push(v[i]);
        proof {
            assert(v@.subrange(start as int, i + 1)
                =~= v@.subrange(start as int, i as int).push(v@[i as int]));
        }
        i = i + 1;
    }
    proof {
        lemma_trim_front_at(v@, start as int);
        let tail = v@.subrange(start as int, v@.len() as int);
        lemma_trim_back_at(tail, end - start);
        assert(tail.subrange(0, end - start) =~= v@.subrange(start as int, end as int));
    }
    out
}

/// Whitespace test on one character.
pub fn is_ws(c: char) -> (r: bool)
    ensures
        r == is_ws_char(c),
{
    c == ' ' || c == '\t' || c == '\n' || c == '\r'
}

/// One character lowered: ASCII capitals map to their small form.
pub open spec fn lower_char(c: char) -> char {
    if 'A' <= c && c <= 'Z' {
        (((c as u32) + 32) as u8) as char
    } else {
        c
    }
}

/// A whole text lowered character by character.
pub open spec fn lower_text(s: Seq<char>) -> Seq<char> {
    s.map_values(|c: char| lower_char(c))
}

/// One character lowered.
pub fn to_lower_char(c: char) -> (r: char)
    ensures
        r == lower_char(c),
{
    if 'A' <= c && c <= 'Z' {
        (((c as u8) + 32) as u8) as char
    } else {
        c
    }
}

/// The characters lowered one by one.
pub fn lower_chars(v: &Vec<char>) -> (r: Vec<char>)
    ensures
        r@ == lower_text(v@),
{
    let mut out: Vec<char> = Vec::new();
    let mut i: usize = 0;
    while i < v.len()
        invariant
            i <= v.len(),
            out@ == lower_text(v@.take(i as int)),
        decreases v.len() - i,
    {
        out.push(to_lower_char(v[i]));
        proof {
            assert(lower_text(v@.take(i + 1))
                =~= lower_text(v@.take(i as int)).push(lower_char(v@[i as int])));
        }
        i = i + 1;
    }
    proof {
        assert(v@.take(v@.len() as int) =~= v@);
    }
    out
}

/// The decimal digit for a value below 10.
pub open spec fn dec_digit(d: nat) -> char {
    if d == 0 { '0' } else if d == 1 { '1' } else if d == 2 { '2' } else if d == 3 { '3' }
    else if d == 4 { '4' } else if d == 5 { '5' } else if d == 6 { '6' } else if d == 7 { '7' }
    else if d == 8 { '8' } else { '9' }
}

/// The decimal rendering of a natural number, most significant digit first.
pub open spec fn dec_text(n: nat) -> Seq<char>
    decreases n,
{
    if n < 10 {
        seq![dec_digit(n)]
    } else {
        dec_text(n / 10).push(dec_digit(n % 10))
    }
}

/// The decimal digit for a value below 10.
fn dec_digit_char(d: u64) -> (r: char)
    requires
        d < 10,
    ensures
        r == dec_digit(d as nat),
{
    if d == 0 { '0' } else if d == 1 { '1' } else if d == 2 { '2' } else if d == 3 { '3' }
    else if d == 4 { '4' } else if d == 5 { '5' } else if d == 6 { '6' } else if d == 7 { '7' }
    else if d == 8 { '8' } else { '9' }
}

/// Appends the decimal rendering of `n`.
fn push_decimal(n: u64, out: &mut Vec<char>)
    ensures
        final(out)@ == old(out)@ + dec_text(n as nat),
    decreases n,
{
    if n >= 10 {
        push_decimal(n / 10, out);
    }
    out.push(dec_digit_char(n % 10));
    proof {
        if n < 10 {
            assert(out@ =~= old(out)@ + dec_text(n as nat));
        } else {
            assert(old(out)@ + dec_text((n / 10) as nat).push(dec_digit((n % 10) as nat))
                =~= (old(out)@ + dec_text((n / 10) as nat)).push(dec_digit((n % 10) as nat)));
        }
    }
}

/// The decimal rendering of a 64-bit value.
pub fn u64_to_string(n: u64) -> (r: String)
    ensures
        r@ == dec_text(n as nat),
{
    let mut out: Vec<char> = Vec::new();
    push_decimal(n, &mut out);
    string_of(&out)
}

/// The decimal rendering of a machine-word value.
pub fn usize_to_string(n: usize) -> (r: String)
    ensures
        r@ == dec_text(n as nat),
{
    u64_to_string(n as u64)
}

/// A decimal digit.
pub open spec fn is_dec_digit(c: char) -> bool {
    '0' <= c && c <= '9'
}

/// The value of one decimal digit.
pub open spec fn dec_digit_val(c: char) -> nat {
    ((c as int) - ('0' as int)) as nat
}

/// The value of a digit string, most significant digit first.
pub open spec fn dec_val(s: Seq<char>) -> nat
    decreases s.len(),
{
    if s.len() == 0 {
        0
    } else {
        dec_val(s.drop_last()) * 10 + dec_digit_val(s.last())
    }
}

/// A nonempty string of decimal digits.
pub open spec fn is_dec_string(s: Seq<char>) -> bool {
    s.len() > 0 && forall|i: int| 0 <= i < s.len() ==> is_dec_digit(#[trigger] s[i])
}

/// One more digit multiplies the prefix value by ten and adds the digit.
proof fn lemma_dec_val_step(s: Seq<char>, i: int)
    requires
        0 <= i < s.len(),
    ensures
        dec_val(s.take(i + 1)) == dec_val(s.take(i)) * 10 + dec_digit_val(s[i]),
{
    assert(s.take(i + 1).drop_last() =~= s.take(i));
    assert(s.take(i + 1).last() == s[i]);
}

/// The value of a longer prefix is at least the value of a shorter one.
proof fn lemma_dec_val_prefix_le(s: Seq<char>, i: int, j: int)
    requires
        0 <= i <= j <= s.len(),
    ensures
        dec_val(s.take(i)) <= dec_val(s.take(j)),
    decreases j - i,
{
    if i < j {
        lemma_dec_val_prefix_le(s, i, j - 1);
        lemma_dec_val_step(s, j - 1);
    }
}

/// Parses a nonempty string of decimal digits as a 16-bit value.
/// Succeeds exactly on digit strings whose value fits.
pub fn parse_u16_digits(s: &str) -> (r: Option<u16>)
    ensures
        match r {
            Some(v) => is_dec_string(s@) && dec_val(s@) == v as nat,
            None => !is_dec_string(s@) || dec_val(s@) > u16::MAX,
        },
{
    let cs = chars_of(s);
    if cs.len() == 0 {
        return None;
    }
    let mut i: usize = 0;
    let mut acc: u32 = 0;
    while i < cs.len()
        invariant
            i <= cs.len(),
            cs@ == s@,
            cs@.len() > 0,
            forall|j: int| 0 <= j < i ==> is_dec_digit(#[trigger] cs@[j]),
            acc == dec_val(cs@.take(i as int)),
            acc <= u16::MAX,
        decreases cs.len() - i,
    {
        let c = cs[i];
        if !('0' <= c && c <= '9') {
            return None;
        }
        let d: u32 = (c as u32) - ('0' as u32);
        proof {
            lemma_dec_val_step(cs@, i as int);
        }
        acc = acc * 10 + d;
        if acc > 65535 {
            proof {
                lemma_dec_val_prefix_le(cs@, i + 1, cs@.len() as int);
                assert(cs@.take(cs@.len() as int) =~= cs@);
            }
            return None;
        }
        i = i + 1;
    }
    proof {
        assert(cs@.take(cs@.len() as int) =~= cs@);
    }
    Some(acc as u16)
}

/// Parses a nonempty string of decimal digits as a machine-word value.
/// Succeeds exactly on digit strings whose value fits.
pub fn parse_usize_digits(s: &str) -> (r: Option<usize>)
    ensures
        match r {
            Some(v) => is_dec_string(s@) && dec_val(s@) == v as nat,
            None => !is_dec_string(s@) || dec_val(s@) > usize::MAX,
        },
{
    let cs = chars_of(s);
    if cs.len() == 0 {
        return None;
    }
    let mut i: usize = 0;
    let mut acc: usize = 0;
    while i < cs.len()
        invariant
            i <= cs.len(),
            cs@ == s@,
            cs@.len() > 0,
            forall|j: int| 0 <= j < i ==> is_dec_digit(#[trigger] cs@[j]),
            acc == dec_val(cs@.take(i as int)),
        decreases cs.len() - i,
    {
        let c = cs[i];
        if !('0' <= c && c <= '9') {
            return None;
        }
        let d: usize = ((c as u32) - ('0' as u32)) as usize;
        proof {
            lemma_dec_val_step(cs@, i as int);
        }
        let next: usize = match acc.checked_mul(10) {
            Some(m) => match m.checked_add(d) {
                Some(n) => n,
                None => {
                    proof {
                        lemma_dec_val_prefix_le(cs@, i + 1, cs@.len() as int);
                        assert(cs@.take(cs@.len() as int) =~= cs@);
                    }
                    return None;
                },
            },
            None => {
                proof {
                    lemma_dec_val_prefix_le(cs@, i + 1, cs@.len() as int);
                    assert(cs@.take(cs@.len() as int) =~= cs@);
                }
                return None;
            },
        };
        acc = next;
        i = i + 1;
    }
    proof {
        assert(cs@.take(cs@.len() as int) =~= cs@);
    }
    Some(acc)
}

/// A body truncated for reporting: unchanged up to `max` characters, else
/// cut there with a trailing ellipsis.
pub open spec fn truncated_text(s: Seq<char>, max: nat) -> Seq<char> {
    if s.len() <= max {
        s
    } else {
        s.take(max as int) + seq!['\u{2026}']
    }
}

/// Truncates a string for reporting, counting characters, not bytes.
pub fn truncate_for_log(input: &str, max_len: usize) -> (r: String)
    ensures
        r@ == truncated_text(input@, max_len as nat),
{
    let cs = chars_of(input);
    if cs.len() <= max_len {
        return input.to_owned();
    }
    let mut out: Vec<char> = Vec::new();
    let mut i: usize = 0;
    while i < max_len
        invariant
            i <= max_len,
            max_len < cs.len(),
            cs@ == input@,
            out@ == cs@.take(i as int),
        decreases max_len - i,
    {
        out.push(cs[i]);
        proof {
            assert(cs@.take(i + 1) =~= cs@.take(i as int).push(cs@[i as int]));
        }
        i = i + 1;
    }
    out.push('\u{2026}');
    proof {
        assert(out@ =~= truncated_text(input@, max_len as nat));
    }
    string_of(&out)
}

/// The text with every leading occurrence of `c` removed.
pub open spec fn trim_leading(s: Seq<char>, c: char) -> Seq<char>
    decreases s.len(),
{
    if s.len() > 0 && s.first() == c {
        trim_leading(s.drop_first(), c)
    } else {
        s
    }
}

/// The text with every trailing occurrence of `c` removed.
pub open spec fn trim_trailing(s: Seq<char>, c: char) -> Seq<char>
    decreases s.len(),
{
    if s.len() > 0 && s.last() == c {
        trim_trailing(s.drop_last(), c)
    } else {
        s
    }
}

/// When the first `k` characters equal `c` and the `k`th does not (or the end
/// was reached), trimming the lead yields the tail from `k` on.
proof fn lemma_trim_leading_at(s: Seq<char>, c: char, k: int)
    requires
        0 <= k <= s.len(),
        forall|j: int| 0 <= j < k ==> #[trigger] s[j] == c,
        k < s.len() ==> s[k] != c,
    ensures
        trim_leading(s, c) == s.subrange(k, s.len() as int),
    decreases k,
{
    if k == 0 {
        assert(s.subrange(0, s.len() as int) =~= s);
    } else {
        lemma_trim_leading_at(s.drop_first(), c, k - 1);
        assert(s.drop_first().subrange(k - 1, s.drop_first().len() as int)
            =~= s.subrange(k, s.len() as int));
    }
}

/// When the characters from `e` on equal `c` and the one before `e` does not
/// (or `e` is zero), trimming the tail yields the first `e` characters.
proof fn lemma_trim_trailing_at(s: Seq<char>, c: char, e: int)
    requires
        0 <= e <= s.len(),
        forall|j: int| e <= j < s.len() ==> #[trigger] s[j] == c,
        e > 0 ==> s[e - 1] != c,
    ensures
        trim_trailing(s, c) == s.subrange(0, e),
    decreases s.len(),
{
    if e == s.len() {
        if s.len() > 0 && s.last() == c {
            assert(false);
        }
        assert(s.subrange(0, e) =~= s);
    } else {
        lemma_trim_trailing_at(s.drop_last(), c, e);
        assert(s.drop_last().subrange(0, e) =~= s.subrange(0, e));
    }
}

/// The characters with every leading occurrence of `c` removed.
pub fn trim_leading_chars(v: &Vec<char>, c: char) -> (r: Vec<char>)
    ensures
        r@ == trim_leading(v@, c),
{
    let mut start: usize = 0;
    while start < v.len() && v[start] == c
        invariant
            start <= v.len(),
            forall|j: int| 0 <= j < start ==> #[trigger] v@[j] == c,
        decreases v.len() - start,
    {
        start = start + 1;
    }
    let mut out: Vec<char> = Vec::new();
    let mut i: usize = start;
    while i < v.len()
        invariant
            start <= i <= v.len(),
            out@ == v@.subrange(start as int, i as int),
        decreases v.len() - i,
    {
        out.push(v[i]);
        proof {
            assert(v@.subrange(start as int, i + 1)
                =~= v@.subrange(start as int, i as int).push(v@[i as int]));
        }
        i = i + 1;
    }
    proof {
        lemma_trim_leading_at(v@, c, start as int);
    }
    out
}

/// The characters with every trailing occurrence of `c` removed.
pub fn trim_trailing_chars(v: &Vec<char>, c: char) -> (r: Vec<char>)
    ensures
        r@ == trim_trailing(v@, c),
{
    let mut end: usize = v.len();
    while end > 0 && v[end - 1] == c
        invariant
            end <= v.len(),
            forall|j: int| end <= j < v.len() ==> #[trigger] v@[j] == c,
        decreases end,
    {
        end = end - 1;
    }
    let mut out: Vec<char> = Vec::new();
    let mut i: usize = 0;
    while i < end
        invariant
            i <= end <= v.len(),
            out@ == v@.subrange(0, i as int),
        decreases end - i,
    {
        out.push(v[i]);
        proof {
            assert(v@.subrange(0, i + 1) =~= v@.subrange(0, i as int).push(v@[i as int]));
        }
        i = i + 1;
    }
    proof {
        lemma_trim_trailing_at(v@, c, end as int);
    }
    out
}

/// Appends all characters of `src` to `out`.
pub fn push_all(out: &mut Vec<char>, src: &Vec<char>)
    ensures
        final(out)@ == old(out)@ + src@,
{
    let mut i: usize = 0;
    while i < src.len()
        invariant
            i <= src.len(),
            out@ == old(out)@ + src@.take(i as int),
        decreases src.len() - i,
    {
        out.push(src[i]);
        proof {
            assert(src@.take(i + 1) =~= src@.take(i as int).push(src@[i as int]));
            assert(old(out)@ + src@.take(i + 1)
                =~= (old(out)@ + src@.take(i as int)).push(src@[i as int]));
        }
        i = i + 1;
    }
    proof {
        assert(src@.take(src@.len() as int) =~= src@);
    }
}

/// A message with its cause appended, as the service reports failures.
pub fn with_context(message: &str, error: &str) -> (r: String)
    ensures
        r@ == message@ + ": "@ + error@,
{
    let mut out = chars_of(message);
    proof {
        reveal_strlit(": ");
    }
    out.push(':');
    out.push(' ');
    let tail = chars_of(error);
    let mut i: usize = 0;
    while i < tail.len()
        invariant
            i <= tail.len(),
            out@ == message@ + ": "@ + tail@.take(i as int),
        decreases tail.len() - i,
    {
        out.push(tail[i]);
        proof {
            assert(tail@.take(i + 1) =~= tail@.take(i as int).push(tail@[i as int]));
            assert(message@ + ": "@ + tail@.take(i + 1)
                =~= (message@ + ": "@ + tail@.take(i as int)).push(tail@[i as int]));
        }
        i = i + 1;
    }
    proof {
        assert(tail@.take(tail@.len() as int) =~= tail@);
    }
    string_of(&out)
}

} // verus!
