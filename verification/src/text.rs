//! Character-sequence utilities shared by the rest of the library:
//! decimal formatting and parsing, and the small string operations the
//! scanner and resolvers are specified with.

use vstd::prelude::*;
use vstd::string::*;

verus! {

/// The whitespace characters the tokenizer recognizes (the field
/// separators that the enumeration provider's line-oriented output uses).
pub open spec fn is_ws(c: char) -> bool {
    c == ' ' || c == '\t' || c == '\r' || c == '\n'
}

/// Is `c` a decimal digit?
pub open spec fn is_digit(c: char) -> bool {
    '0' as int <= c as int && c as int <= '9' as int
}

/// Numeric value of a digit character.
pub open spec fn digit_val(c: char) -> nat
    recommends
        is_digit(c),
{
    (c as int - '0' as int) as nat
}

/// The digit character for a value below ten.
pub open spec fn dec_digit(d: nat) -> char
    recommends
        d < 10,
{
    if d == 0 {
        '0'
    } else if d == 1 {
        '1'
    } else if d == 2 {
        '2'
    } else if d == 3 {
        '3'
    } else if d == 4 {
        '4'
    } else if d == 5 {
        '5'
    } else if d == 6 {
        '6'
    } else if d == 7 {
        '7'
    } else if d == 8 {
        '8'
    } else {
        '9'
    }
}

/// Decimal representation of a natural number, most significant digit
/// first, with no leading zeros (and `"0"` for zero).
pub open spec fn dec_rep(n: nat) -> Seq<char>
    decreases n,
{
    if n < 10 {
        seq![dec_digit(n)]
    } else {
        dec_rep(n / 10).push(dec_digit(n % 10))
    }
}

/// Decimal representation of an integer: a minus sign before the
/// magnitude when negative.
pub open spec fn int_rep(n: int) -> Seq<char> {
    if n < 0 {
        seq!['-'] + dec_rep((-n) as nat)
    } else {
        dec_rep(n as nat)
    }
}

fn digit_str(d: u64) -> (r: &'static str)
    requires
        d < 10,
    ensures
        r@ =~= seq![dec_digit(d as nat)],
{
    proof {
        reveal_strlit("0");
        reveal_strlit("1");
        reveal_strlit("2");
        reveal_strlit("3");
        reveal_strlit("4");
        reveal_strlit("5");
        reveal_strlit("6");
        reveal_strlit("7");
        reveal_strlit("8");
        reveal_strlit("9");
    }
    if d == 0 {
        "0"
    } else if d == 1 {
        "1"
    } else if d == 2 {
        "2"
    } else if d == 3 {
        "3"
    } else if d == 4 {
        "4"
    } else if d == 5 {
        "5"
    } else if d == 6 {
        "6"
    } else if d == 7 {
        "7"
    } else if d == 8 {
        "8"
    } else {
        "9"
    }
}

/// Render a number in decimal.
pub fn u64_to_string(n: u64) -> (r: String)
    ensures
        r@ == dec_rep(n as nat),
    decreases n,
{
    if n < 10 {
        String::from_str(digit_str(n))
    } else {
        let mut s = u64_to_string(n / 10);
        s.append(digit_str(n % 10));
        proof {
            assert(dec_rep(n as nat) =~= dec_rep(n as nat / 10) + seq![
                dec_digit(n as nat % 10),
            ]);
        }
        s
    }
}

/// Render a signed number in decimal.
pub fn i64_to_string(n: i64) -> (r: String)
    ensures
        r@ == int_rep(n as int),
{
    if n >= 0 {
        u64_to_string(n as u64)
    } else {
        let mag: u64 = (-(n as i128)) as u64;
        let mut s = String::from_str("-");
        let digits = u64_to_string(mag);
        s.append(digits.as_str());
        proof {
            reveal_strlit("-");
            assert(("-")@ =~= seq!['-']);
            assert(int_rep(n as int) =~= seq!['-'] + dec_rep((-(n as int)) as nat));
        }
        s
    }
}

/// The suffix of `s` after the last occurrence of `sep` (all of `s`
/// when `sep` does not occur).
pub open spec fn suffix_after_last(s: Seq<char>, sep: char) -> Seq<char>
    decreases s.len(),
{
    if s.len() == 0 {
        s
    } else if s.last() == sep {
        Seq::empty()
    } else {
        suffix_after_last(s.drop_last(), sep).push(s.last())
    }
}

proof fn lemma_suffix_after_last_none(s: Seq<char>, sep: char)
    requires
        forall|j: int| 0 <= j < s.len() ==> s[j] != sep,
    ensures
        suffix_after_last(s, sep) =~= s,
    decreases s.len(),
{
    if s.len() > 0 {
        lemma_suffix_after_last_none(s.drop_last(), sep);
    }
}

proof fn lemma_suffix_after_last_at(s: Seq<char>, sep: char, i: int)
    requires
        0 <= i < s.len(),
        s[i] == sep,
        forall|j: int| i < j < s.len() ==> s[j] != sep,
    ensures
        suffix_after_last(s, sep) =~= s.skip(i + 1),
    decreases s.len(),
{
    if i == s.len() - 1 {
    } else {
        lemma_suffix_after_last_at(s.drop_last(), sep, i);
    }
}

/// The suffix of `s` after its last `sep`; `s` itself when `sep` does
/// not occur. This is how the bound port is read out of an address
/// field, and a display name out of a command path.
pub fn suffix_after_last_char(s: &str, sep: char) -> (r: String)
    ensures
        r@ == suffix_after_last(s@, sep),
{
    let len: usize = s.unicode_len();
    let mut i: usize = len;
    while i > 0
        invariant
            0 <= i <= len,
            len == s@.len(),
            forall|j: int| i <= j < len ==> s@[j] != sep,
        decreases i,
    {
        let c = s.get_char(i - 1);
        if c == sep {
            let r = s.substring_char(i, len).to_owned();
            proof {
                lemma_suffix_after_last_at(s@, sep, i - 1);
            }
            return r;
        }
        i = i - 1;
    }
    proof {
        lemma_suffix_after_last_none(s@, sep);
    }
    s.to_owned()
}

/// `s` without one leading `sep` character, if it has one.
pub open spec fn strip_leading(s: Seq<char>, sep: char) -> Seq<char> {
    if s.len() > 0 && s.first() == sep {
        s.drop_first()
    } else {
        s
    }
}

/// Remove a single leading `sep` from `s`, if present (a container
/// name is reported with one leading path separator).
pub fn strip_leading_char(s: &str, sep: char) -> (r: String)
    ensures
        r@ == strip_leading(s@, sep),
{
    let len: usize = s.unicode_len();
    if len > 0 && s.get_char(0) == sep {
        let r = s.substring_char(1, len).to_owned();
        proof {
            assert(s@.subrange(1, len as int) =~= s@.drop_first());
        }
        r
    } else {
        s.to_owned()
    }
}

/// Does `s` end with `suffix`?
pub open spec fn ends_with(s: Seq<char>, suffix: Seq<char>) -> bool {
    s.len() >= suffix.len() && s.skip(s.len() - suffix.len()) =~= suffix
}

/// `s` without a trailing `suffix` when it has one, `s` otherwise.
pub open spec fn strip_trailing(s: Seq<char>, suffix: Seq<char>) -> Seq<char> {
    if ends_with(s, suffix) {
        s.take(s.len() - suffix.len())
    } else {
        s
    }
}

/// Remove a trailing `suffix` from `s`, if present (an executable
/// name is displayed without its extension).
pub fn strip_trailing_str(s: &str, suffix: &str) -> (r: String)
    ensures
        r@ == strip_trailing(s@, suffix@),
{
    let len: usize = s.unicode_len();
    let slen: usize = suffix.unicode_len();
    if len < slen {
        return s.to_owned();
    }
    let mut k: usize = 0;
    while k < slen
        invariant
            0 <= k <= slen,
            slen <= len,
            len == s@.len(),
            slen == suffix@.len(),
            forall|j: int| 0 <= j < k ==> s@[len - slen + j] == suffix@[j],
        decreases slen - k,
    {
        if s.get_char(len - slen + k) != suffix.get_char(k) {
            proof {
                assert(s@.skip(len - slen)[k as int] != suffix@[k as int]);
            }
            return s.to_owned();
        }
        k = k + 1;
    }
    proof {
        assert(s@.skip(len as int - slen as int) =~= suffix@);
    }
    s.substring_char(0, len - slen).to_owned()
}

/// Does `s` start with `prefix`?
pub open spec fn starts_with(s: Seq<char>, prefix: Seq<char>) -> bool {
    s.len() >= prefix.len() && s.take(prefix.len() as int) =~= prefix
}

/// The rest of `s` after `prefix`, when `s` starts with it.
pub fn strip_prefix_str(s: &str, prefix: &str) -> (r: Option<String>)
    ensures
        starts_with(s@, prefix@) ==> (r matches Some(t) && t@ == s@.skip(prefix@.len() as int)),
        !starts_with(s@, prefix@) ==> r is None,
{
    let len: usize = s.unicode_len();
    let plen: usize = prefix.unicode_len();
    if len < plen {
        return None;
    }
    let mut k: usize = 0;
    while k < plen
        invariant
            0 <= k <= plen,
            plen <= len,
            len == s@.len(),
            plen == prefix@.len(),
            forall|j: int| 0 <= j < k ==> s@[j] == prefix@[j],
        decreases plen - k,
    {
        if s.get_char(k) != prefix.get_char(k) {
            proof {
                assert(s@.take(plen as int)[k as int] != prefix@[k as int]);
            }
            return None;
        }
        k = k + 1;
    }
    proof {
        assert(s@.take(plen as int) =~= prefix@);
    }
    Some(s.substring_char(plen, len).to_owned())
}

/// `s` without leading whitespace.
pub open spec fn trim_start_spec(s: Seq<char>) -> Seq<char>
    decreases s.len(),
{
    if s.len() > 0 && is_ws(s.first()) {
        trim_start_spec(s.drop_first())
    } else {
        s
    }
}

/// `s` without trailing whitespace.
pub open spec fn trim_end_spec(s: Seq<char>) -> Seq<char>
    decreases s.len(),
{
    if s.len() > 0 && is_ws(s.last()) {
        trim_end_spec(s.drop_last())
    } else {
        s
    }
}

/// `s` without leading or trailing whitespace.
pub open spec fn trim_spec(s: Seq<char>) -> Seq<char> {
    trim_end_spec(trim_start_spec(s))
}

proof fn lemma_trim_start_at(s: Seq<char>, a: int)
    requires
        0 <= a <= s.len(),
        forall|j: int| 0 <= j < a ==> is_ws(s[j]),
        a < s.len() ==> !is_ws(s[a]),
    ensures
        trim_start_spec(s) =~= s.skip(a),
    decreases a,
{
    if a > 0 {
        lemma_trim_start_at(s.drop_first(), a - 1);
        assert(s.drop_first().skip(a - 1) =~= s.skip(a));
    } else {
        if s.len() > 0 && is_ws(s.first()) {
            assert(!is_ws(s[0]));
        }
        assert(s.skip(0) =~= s);
    }
}

proof fn lemma_trim_end_at(s: Seq<char>, b: int)
    requires
        0 <= b <= s.len(),
        forall|j: int| b <= j < s.len() ==> is_ws(s[j]),
        b > 0 ==> !is_ws(s[b - 1]),
    ensures
        trim_end_spec(s) =~= s.take(b),
    decreases s.len() - b,
{
    if b < s.len() {
        lemma_trim_end_at(s.drop_last(), b);
        assert(s.drop_last().take(b) =~= s.take(b));
    } else {
        assert(s.take(s.len() as int) =~= s);
    }
}

/// Remove leading and trailing whitespace, as a provider's raw output
/// line carries it.
pub fn trim(s: &str) -> (r: String)
    ensures
        r@ == trim_spec(s@),
{
    let len: usize = s.unicode_len();
    let mut a: usize = 0;
    while a < len && is_ws_char(s.get_char(a))
        invariant
            0 <= a <= len,
            len == s@.len(),
            forall|j: int| 0 <= j < a ==> is_ws(s@[j]),
        decreases len - a,
    {
        a = a + 1;
    }
    proof {
        lemma_trim_start_at(s@, a as int);
    }
    let mut b: usize = len;
    while b > a && is_ws_char(s.get_char(b - 1))
        invariant
            a <= b <= len,
            len == s@.len(),
            a < len ==> !is_ws(s@[a as int]),
            forall|j: int| 0 <= j < a ==> is_ws(s@[j]),
            forall|j: int| b <= j < len ==> is_ws(s@[j]),
        decreases b,
    {
        b = b - 1;
    }
    let r = s.substring_char(a, b).to_owned();
    proof {
        let t = s@.skip(a as int);
        lemma_trim_end_at(t, b - a);
        assert(t.take(b - a) =~= s@.subrange(a as int, b as int));
    }
    r
}

/// `s` without leading occurrences of `c`.
pub open spec fn trim_start_matching(s: Seq<char>, c: char) -> Seq<char>
    decreases s.len(),
{
    if s.len() > 0 && s.first() == c {
        trim_start_matching(s.drop_first(), c)
    } else {
        s
    }
}

/// `s` without trailing occurrences of `c`.
pub open spec fn trim_end_matching(s: Seq<char>, c: char) -> Seq<char>
    decreases s.len(),
{
    if s.len() > 0 && s.last() == c {
        trim_end_matching(s.drop_last(), c)
    } else {
        s
    }
}

/// `s` without leading or trailing occurrences of `c`.
pub open spec fn trim_matching_spec(s: Seq<char>, c: char) -> Seq<char> {
    trim_end_matching(trim_start_matching(s, c), c)
}

proof fn lemma_trim_start_matching_at(s: Seq<char>, c: char, a: int)
    requires
        0 <= a <= s.len(),
        forall|j: int| 0 <= j < a ==> s[j] == c,
        a < s.len() ==> s[a] != c,
    ensures
        trim_start_matching(s, c) =~= s.skip(a),
    decreases a,
{
    if a > 0 {
        lemma_trim_start_matching_at(s.drop_first(), c, a - 1);
        assert(s.drop_first().skip(a - 1) =~= s.skip(a));
    } else {
        assert(s.skip(0) =~= s);
    }
}

proof fn lemma_trim_end_matching_at(s: Seq<char>, c: char, b: int)
    requires
        0 <= b <= s.len(),
        forall|j: int| b <= j < s.len() ==> s[j] == c,
        b > 0 ==> s[b - 1] != c,
    ensures
        trim_end_matching(s, c) =~= s.take(b),
    decreases s.len() - b,
{
    if b < s.len() {
        lemma_trim_end_matching_at(s.drop_last(), c, b);
        assert(s.drop_last().take(b) =~= s.take(b));
    } else {
        assert(s.take(s.len() as int) =~= s);
    }
}

/// Remove every leading and trailing occurrence of `c` (a quoted
/// field is unwrapped this way).
pub fn trim_matching(s: &str, c: char) -> (r: String)
    ensures
        r@ == trim_matching_spec(s@, c),
{
    let len: usize = s.unicode_len();
    let mut a: usize = 0;
    while a < len && s.get_char(a) == c
        invariant
            0 <= a <= len,
            len == s@.len(),
            forall|j: int| 0 <= j < a ==> s@[j] == c,
        decreases len - a,
    {
        a = a + 1;
    }
    proof {
        lemma_trim_start_matching_at(s@, c, a as int);
    }
    let mut b: usize = len;
    while b > a && s.get_char(b - 1) == c
        invariant
            a <= b <= len,
            len == s@.len(),
            a < len ==> s@[a as int] != c,
            forall|j: int| 0 <= j < a ==> s@[j] == c,
            forall|j: int| b <= j < len ==> s@[j] == c,
        decreases b,
    {
        b = b - 1;
    }
    let r = s.substring_char(a, b).to_owned();
    proof {
        let t = s@.skip(a as int);
        lemma_trim_end_matching_at(t, c, b - a);
        assert(t.take(b - a) =~= s@.subrange(a as int, b as int));
    }
    r
}

/// Whitespace test on a character value.
fn is_ws_char(c: char) -> (r: bool)
    ensures
        r == is_ws(c),
{
    c == ' ' || c == '\t' || c == '\r' || c == '\n'
}

/// Is every character of `s` a decimal digit (and `s` non-empty)?
pub open spec fn all_digits(s: Seq<char>) -> bool {
    s.len() > 0 && forall|i: int| 0 <= i < s.len() ==> is_digit(s[i])
}

/// The number a digit string denotes.
pub open spec fn dec_val(s: Seq<char>) -> nat
    decreases s.len(),
{
    if s.len() == 0 {
        0
    } else {
        dec_val(s.drop_last()) * 10 + digit_val(s.last())
    }
}

/// Read a port number from a digit field. The field must consist of
/// decimal digits only and denote a value that fits a port.
pub fn parse_u16(s: &str) -> (r: Option<u16>)
    ensures
        all_digits(s@) && dec_val(s@) <= u16::MAX ==> r == Some((dec_val(s@) as u16)),
        !(all_digits(s@) && dec_val(s@) <= u16::MAX) ==> r is None,
{
    let len: usize = s.unicode_len();
    if len == 0 {
        return None;
    }
    let mut i: usize = 0;
    let mut val: u32 = 0;
    let mut over: bool = false;
    while i < len
        invariant
            0 <= i <= len,
            len == s@.len(),
            forall|j: int| 0 <= j < i ==> is_digit(s@[j]),
            !over ==> val == dec_val(s@.take(i as int)) && val <= u16::MAX,
            over ==> dec_val(s@.take(i as int)) > u16::MAX,
        decreases len - i,
    {
        let c = s.get_char(i);
        if !(c >= '0' && c <= '9') {
            proof {
                assert(!is_digit(s@[i as int]));
            }
            return None;
        }
        let d: u32 = (c as u32) - 48;
        proof {
            assert(s@.take(i + 1).drop_last() =~= s@.take(i as int));
        }
        if over {
            proof {
                assert(dec_val(s@.take(i + 1)) >= dec_val(s@.take(i as int)) * 10);
            }
        } else {
            let next: u32 = val * 10 + d;
            if next > u16::MAX as u32 {
                over = true;
            } else {
                val = next;
            }
        }
        i = i + 1;
    }
    proof {
        assert(s@.take(len as int) =~= s@);
    }
    if over {
        None
    } else {
        Some(val as u16)
    }
}

/// Read a process id from a digit field: decimal digits only, value
/// within the signed 32-bit range.
pub fn parse_i32(s: &str) -> (r: Option<i32>)
    ensures
        all_digits(s@) && dec_val(s@) <= i32::MAX ==> r == Some((dec_val(s@) as i32)),
        !(all_digits(s@) && dec_val(s@) <= i32::MAX) ==> r is None,
{
    let len: usize = s.unicode_len();
    if len == 0 {
        return None;
    }
    let mut i: usize = 0;
    let mut val: u64 = 0;
    let mut over: bool = false;
    while i < len
        invariant
            0 <= i <= len,
            len == s@.len(),
            forall|j: int| 0 <= j < i ==> is_digit(s@[j]),
            !over ==> val == dec_val(s@.take(i as int)) && val <= i32::MAX,
            over ==> dec_val(s@.take(i as int)) > i32::MAX,
        decreases len - i,
    {
        let c = s.get_char(i);
        if !(c >= '0' && c <= '9') {
            proof {
                assert(!is_digit(s@[i as int]));
            }
            return None;
        }
        let d: u64 = ((c as u32) - 48) as u64;
        proof {
            assert(s@.take(i + 1).drop_last() =~= s@.take(i as int));
        }
        if over {
            proof {
                assert(dec_val(s@.take(i + 1)) >= dec_val(s@.take(i as int)) * 10);
            }
        } else {
            let next: u64 = val * 10 + d;
            if next > i32::MAX as u64 {
                over = true;
            } else {
                val = next;
            }
        }
        i = i + 1;
    }
    proof {
        assert(s@.take(len as int) =~= s@);
    }
    if over {
        None
    } else {
        Some(val as i32)
    }
}

/// Helper for [`tokens_of`]: the tokens of `s`, with `cur` the token
/// begun just before `s`.
pub open spec fn tokens_acc(s: Seq<char>, cur: Seq<char>) -> Seq<Seq<char>>
    decreases s.len(),
{
    if s.len() == 0 {
        if cur.len() == 0 {
            Seq::empty()
        } else {
            seq![cur]
        }
    } else if is_ws(s.first()) {
        if cur.len() == 0 {
            tokens_acc(s.drop_first(), Seq::empty())
        } else {
            seq![cur] + tokens_acc(s.drop_first(), Seq::empty())
        }
    } else {
        tokens_acc(s.drop_first(), cur.push(s.first()))
    }
}

/// The maximal whitespace-free fields of `s`, in order: how a
/// provider's output line divides into columns.
pub open spec fn tokens_of(s: Seq<char>) -> Seq<Seq<char>> {
    tokens_acc(s, Seq::empty())
}

/// The views of a vector of strings.
pub open spec fn views_of(ts: Seq<String>) -> Seq<Seq<char>> {
    ts.map_values(|t: String| t@)
}

/// Split a line into whitespace-separated fields.
pub fn tokenize(s: &str) -> (r: Vec<String>)
    ensures
        views_of(r@) == tokens_of(s@),
{
    let len: usize = s.unicode_len();
    let mut r: Vec<String> = Vec::new();
    let mut i: usize = 0;
    let mut start: usize = 0;
    let mut in_tok: bool = false;
    proof {
        assert(views_of(r@) =~= Seq::<Seq<char>>::empty());
        assert(s@.skip(0) =~= s@);
        assert(views_of(r@) + tokens_acc(s@, Seq::<char>::empty()) =~= tokens_of(s@));
    }
    while i < len
        invariant
            0 <= i <= len,
            len == s@.len(),
            in_tok ==> 0 <= start <= i && i > start,
            views_of(r@) + tokens_acc(
                s@.skip(i as int),
                if in_tok {
                    s@.subrange(start as int, i as int)
                } else {
                    Seq::<char>::empty()
                },
            ) == tokens_of(s@),
        decreases len - i,
    {
        let c = s.get_char(i);
        let ghost pre = s@.skip(i as int);
        proof {
            assert(pre.first() == s@[i as int]);
            assert(pre.drop_first() =~= s@.skip(i + 1));
        }
        if is_ws_char(c) {
            if in_tok {
                let tok = s.substring_char(start, i).to_owned();
                proof {
                    let cur = s@.subrange(start as int, i as int);
                    assert(views_of(r@.push(tok)) =~= views_of(r@) + seq![cur]);
                }
                r.push(tok);
                in_tok = false;
            }
        } else {
            if !in_tok {
                start = i;
                in_tok = true;
                proof {
                    assert(Seq::<char>::empty().push(s@[i as int]) =~= s@.subrange(
                        start as int,
                        i + 1,
                    ));
                }
            } else {
                proof {
                    assert(s@.subrange(start as int, i as int).push(s@[i as int]) =~= s@.subrange(
                        start as int,
                        i + 1,
                    ));
                }
            }
        }
        i = i + 1;
    }
    proof {
        assert(s@.skip(len as int) =~= Seq::<char>::empty());
    }
    if in_tok {
        let tok = s.substring_char(start, len).to_owned();
        proof {
            let cur = s@.subrange(start as int, len as int);
            assert(views_of(r@.push(tok)) =~= views_of(r@) + seq![cur]);
            assert(views_of(r@) + seq![cur] =~= tokens_of(s@));
        }
        r.push(tok);
    } else {
        proof {
            assert(views_of(r@) + Seq::<Seq<char>>::empty() =~= views_of(r@));
        }
    }
    r
}

/// The decimal renderings of `ports`, joined by `sep`.
pub open spec fn join_dec_views(ports: Seq<u16>, sep: Seq<char>) -> Seq<char>
    decreases ports.len(),
{
    if ports.len() == 0 {
        Seq::empty()
    } else if ports.len() == 1 {
        dec_rep(ports[0] as nat)
    } else {
        join_dec_views(ports.drop_last(), sep) + sep + dec_rep(ports.last() as nat)
    }
}

/// The parts joined by `sep`: nothing between zero parts, no
/// separator around a single one.
pub open spec fn join_views(parts: Seq<Seq<char>>, sep: Seq<char>) -> Seq<char>
    decreases parts.len(),
{
    if parts.len() == 0 {
        Seq::empty()
    } else if parts.len() == 1 {
        parts[0]
    } else {
        join_views(parts.drop_last(), sep) + sep + parts.last()
    }
}

/// Join strings with a separator.
pub fn join_strings(v: &Vec<String>, sep: &str) -> (r: String)
    ensures
        r@ == join_views(views_of(v@), sep@),
{
    let n = v.len();
    let mut s = String::new();
    let mut i: usize = 0;
    proof {
        assert(join_views(views_of(v@).take(0), sep@) =~= Seq::<char>::empty());
    }
    while i < n
        invariant
            0 <= i <= n,
            n == v@.len(),
            s@ == join_views(views_of(v@).take(i as int), sep@),
        decreases n - i,
    {
        if i > 0 {
            s.append(sep);
        }
        s.append(v[i].as_str());
        proof {
            let vs = views_of(v@);
            assert(vs.take(i + 1).drop_last() =~= vs.take(i as int));
            assert(vs.take(i + 1).last() == vs[i as int]);
            if i == 0 {
                assert(s@ =~= join_views(vs.take(1), sep@));
            }
        }
        i = i + 1;
    }
    proof {
        assert(views_of(v@).take(n as int) =~= views_of(v@));
    }
    s
}

/// Helper for [`fields_of`]: the fields of `s` under separator `sep`,
/// with `cur` the field begun just before `s`.
pub open spec fn fields_acc(s: Seq<char>, sep: char, cur: Seq<char>) -> Seq<Seq<char>>
    decreases s.len(),
{
    if s.len() == 0 {
        seq![cur]
    } else if s.first() == sep {
        seq![cur] + fields_acc(s.drop_first(), sep, Seq::empty())
    } else {
        fields_acc(s.drop_first(), sep, cur.push(s.first()))
    }
}

/// The fields of `s` between occurrences of `sep`, kept even when
/// empty: how a tab- or comma-separated record divides.
pub open spec fn fields_of(s: Seq<char>, sep: char) -> Seq<Seq<char>> {
    fields_acc(s, sep, Seq::empty())
}

/// Split `s` on every occurrence of `sep`.
pub fn split_on(s: &str, sep: char) -> (r: Vec<String>)
    ensures
        views_of(r@) == fields_of(s@, sep),
        r@.len() >= 1,
{
    let len: usize = s.unicode_len();
    let mut r: Vec<String> = Vec::new();
    let mut i: usize = 0;
    let mut start: usize = 0;
    proof {
        assert(views_of(r@) =~= Seq::<Seq<char>>::empty());
        assert(s@.skip(0) =~= s@);
        assert(s@.subrange(0, 0) =~= Seq::<char>::empty());
        assert(views_of(r@) + fields_acc(s@, sep, Seq::<char>::empty()) =~= fields_of(s@, sep));
    }
    while i < len
        invariant
            0 <= start <= i <= len,
            len == s@.len(),
            views_of(r@) + fields_acc(s@.skip(i as int), sep, s@.subrange(start as int, i as int))
                == fields_of(s@, sep),
        decreases len - i,
    {
        let c = s.get_char(i);
        let ghost pre = s@.skip(i as int);
        proof {
            assert(pre.first() == s@[i as int]);
            assert(pre.drop_first() =~= s@.skip(i + 1));
        }
        if c == sep {
            let fld = s.substring_char(start, i).to_owned();
            proof {
                let cur = s@.subrange(start as int, i as int);
                assert(views_of(r@.push(fld)) =~= views_of(r@) + seq![cur]);
                assert(s@.subrange(i + 1, i + 1) =~= Seq::<char>::empty());
            }
            r.push(fld);
            start = i + 1;
        } else {
            proof {
                assert(s@.subrange(start as int, i as int).push(s@[i as int]) =~= s@.subrange(
                    start as int,
                    i + 1,
                ));
            }
        }
        i = i + 1;
    }
    let fld = s.substring_char(start, len).to_owned();
    proof {
        assert(s@.skip(len as int) =~= Seq::<char>::empty());
        let cur = s@.subrange(start as int, len as int);
        assert(views_of(r@.push(fld)) =~= views_of(r@) + seq![cur]);
        assert(views_of(r@) + seq![cur] =~= fields_of(s@, sep));
    }
    r.push(fld);
    r
}

} // verus!
