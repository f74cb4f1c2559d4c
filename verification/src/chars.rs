//! Character-level utilities the parsers and formatters are built on:
//! a whitespace model, string equality, whitespace tokenization, first-colon
//! search, trimming, and decimal rendering/parsing.

use vstd::prelude::*;

verus! {

/// Whitespace, by Unicode code point (the `White_Space` property).
pub open spec fn is_ws(c: char) -> bool {
    let u = c as u32;
    u == 0x09 || u == 0x0A || u == 0x0B || u == 0x0C || u == 0x0D || u == 0x20 || u == 0x85
        || u == 0xA0 || u == 0x1680 || (0x2000 <= u && u <= 0x200A) || u == 0x2028 || u == 0x2029
        || u == 0x202F || u == 0x205F || u == 0x3000
}

/// Decides `is_ws`.
pub fn is_ws_char(c: char) -> (r: bool)
    ensures
        r == is_ws(c),
{
    let u = c as u32;
    u == 0x09 || u == 0x0A || u == 0x0B || u == 0x0C || u == 0x0D || u == 0x20 || u == 0x85
        || u == 0xA0 || u == 0x1680 || (0x2000 <= u && u <= 0x200A) || u == 0x2028 || u == 0x2029
        || u == 0x202F || u == 0x205F || u == 0x3000
}

/// Character-for-character string equality.
pub fn str_eq(a: &str, b: &str) -> (r: bool)
    ensures
        r == (a@ == b@),
{
    let na = a.unicode_len();
    let nb = b.unicode_len();
    if na != nb {
        return false;
    }
    let mut i: usize = 0;
    while i < na
        invariant
            na == a@.len(),
            na == b@.len(),
            i <= na,
            forall|j: int| 0 <= j < i ==> a@[j] == b@[j],
        decreases na - i,
    {
        if a.get_char(i) != b.get_char(i) {
            return false;
        }
        i = i + 1;
    }
    proof {
        assert(a@ =~= b@);
    }
    true
}

/// The whitespace-separated tokens of `s`, in order: what splitting on runs
/// of whitespace yields, with no empty tokens.
pub open spec fn tokens_of(s: Seq<char>) -> Seq<Seq<char>>
    decreases s.len(),
{
    if s.len() == 0 {
        Seq::empty()
    } else {
        let pre = tokens_of(s.drop_last());
        let c = s.last();
        if is_ws(c) {
            pre
        } else if s.len() == 1 || is_ws(s[s.len() - 2]) {
            pre.push(seq![c])
        } else {
            pre.update(pre.len() - 1, pre.last().push(c))
        }
    }
}

/// Appending a whitespace character leaves the token list unchanged.
pub proof fn lemma_tokens_ws_extend(s: Seq<char>, c: char)
    requires
        is_ws(c),
    ensures
        tokens_of(s.push(c)) == tokens_of(s),
{
    assert(s.push(c).drop_last() =~= s);
}

/// Appending a whole run of non-whitespace characters at a token boundary
/// appends exactly one token.
pub proof fn lemma_tokens_push_token(s: Seq<char>, t: Seq<char>)
    requires
        t.len() > 0,
        forall|j: int| 0 <= j < t.len() ==> !is_ws(t[j]),
        s.len() == 0 || is_ws(s.last()),
    ensures
        tokens_of(s + t) == tokens_of(s).push(t),
    decreases t.len(),
{
    let st = s + t;
    if t.len() == 1 {
        assert(st.last() == t[0]);
        assert(st.drop_last() =~= s);
        if s.len() == 0 {
            assert(st.len() == 1);
            assert(tokens_of(st) == tokens_of(s).push(seq![t[0]]));
        } else {
            assert(st[st.len() - 2] == s.last());
            assert(tokens_of(st) == tokens_of(s).push(seq![t[0]]));
        }
        assert(seq![t[0]] =~= t);
    } else {
        let t0 = t.drop_last();
        let c = t.last();
        lemma_tokens_push_token(s, t0);
        assert(st.drop_last() =~= s + t0);
        assert(st.last() == c);
        assert(!is_ws(c));
        assert(st.len() >= 2);
        assert(st[st.len() - 2] == t0.last());
        assert(!is_ws(t0.last()));
        let pre = tokens_of(s + t0);
        assert(pre == tokens_of(s).push(t0));
        assert(pre.len() == tokens_of(s).len() + 1);
        assert(pre.last() == t0);
        assert(tokens_of(st) == pre.update(pre.len() - 1, t0.push(c)));
        assert(t0.push(c) =~= t);
        assert(pre.update(pre.len() - 1, t) =~= tokens_of(s).push(t));
    }
}

/// Splits `s` on runs of whitespace, as `tokens_of` describes.
pub fn split_whitespace_tokens(s: &str) -> (r: Vec<String>)
    ensures
        r@.map_values(|t: String| t@) == tokens_of(s@),
{
    let n = s.unicode_len();
    let mut toks: Vec<String> = Vec::new();
    let mut i: usize = 0;
    while i < n
        invariant
            n == s@.len(),
            i <= n,
            toks@.map_values(|t: String| t@) == tokens_of(s@.take(i as int)),
            i == 0 || i == n || is_ws(s@[i - 1]) || is_ws(s@[i as int]),
        decreases n - i,
    {
        if is_ws_char(s.get_char(i)) {
            proof {
                assert(s@.take(i + 1) =~= s@.take(i as int).push(s@[i as int]));
                lemma_tokens_ws_extend(s@.take(i as int), s@[i as int]);
            }
            i = i + 1;
        } else {
            let start = i;
            i = i + 1;
            while i < n && !is_ws_char(s.get_char(i))
                invariant
                    n == s@.len(),
                    start < i <= n,
                    forall|j: int| start <= j < i ==> !is_ws(s@[j]),
                decreases n - i,
            {
                i = i + 1;
            }
            let tok = s.substring_char(start, i).to_owned();
            proof {
                let pre = s@.take(start as int);
                let t = s@.subrange(start as int, i as int);
                lemma_tokens_push_token(pre, t);
                assert(s@.take(i as int) =~= pre + t);
                assert(toks@.push(tok).map_values(|t: String| t@) =~= toks@.map_values(
                    |t: String| t@,
                ).push(tok@));
            }
            toks.push(tok);
        }
    }
    proof {
        assert(s@.take(n as int) =~= s@);
    }
    toks
}

/// The UTF-8 byte count of a string (its wire length, not its char count).
pub fn byte_len(s: &str) -> (n: usize)
    ensures
        n == vstd::utf8::encode_utf8(s@).len(),
{
    let b = s.as_bytes();
    proof {
        vstd::slice::axiom_spec_len(b);
    }
    b.len()
}

/// Whether `s` begins with `prefix`.
pub fn str_starts_with(s: &str, prefix: &str) -> (r: bool)
    ensures
        r == (s@.len() >= prefix@.len() && s@.take(prefix@.len() as int) == prefix@),
{
    let np = prefix.unicode_len();
    let n = s.unicode_len();
    if n < np {
        return false;
    }
    let mut i: usize = 0;
    while i < np
        invariant
            np == prefix@.len(),
            n == s@.len(),
            np <= n,
            i <= np,
            forall|j: int| 0 <= j < i ==> s@[j] == prefix@[j],
        decreases np - i,
    {
        if s.get_char(i) != prefix.get_char(i) {
            proof {
                assert(s@.take(np as int)[i as int] == s@[i as int]);
            }
            return false;
        }
        i = i + 1;
    }
    proof {
        assert(s@.take(np as int) =~= prefix@);
    }
    true
}

/// The position of the first `:` in `s`, if any.
pub open spec fn first_colon(s: Seq<char>) -> Option<int>
    decreases s.len(),
{
    if s.len() == 0 {
        None
    } else if s[0] == ':' {
        Some(0int)
    } else {
        match first_colon(s.drop_first()) {
            Some(i) => Some(i + 1),
            None => None,
        }
    }
}

/// `first_colon` points at a colon and nothing before it is one;
/// `None` means there is no colon at all.
pub proof fn lemma_first_colon_props(s: Seq<char>)
    ensures
        match first_colon(s) {
            Some(k) => 0 <= k < s.len() && s[k] == ':' && (forall|j: int|
                0 <= j < k ==> s[j] != ':'),
            None => forall|j: int| 0 <= j < s.len() ==> s[j] != ':',
        },
    decreases s.len(),
{
    if s.len() > 0 && s[0] != ':' {
        let d = s.drop_first();
        lemma_first_colon_props(d);
        assert(forall|j: int| 0 <= j < d.len() ==> d[j] == #[trigger] s[j + 1]);
        match first_colon(d) {
            Some(k) => {
                assert(first_colon(s) == Some(k + 1));
                assert(s[k + 1] == d[k] && d[k] == ':');
                assert forall|j: int| 0 <= j < k + 1 implies s[j] != ':' by {
                    if j > 0 {
                        assert(s[j] == d[j - 1]);
                    }
                }
            },
            None => {
                assert forall|j: int| 0 <= j < s.len() implies s[j] != ':' by {
                    if j > 0 {
                        assert(s[j] == d[j - 1]);
                    }
                }
            },
        }
    }
}

/// Finds the first colon, as `first_colon` describes.
pub fn find_first_colon(s: &str) -> (r: Option<usize>)
    ensures
        match r {
            Some(k) => first_colon(s@) == Some(k as int),
            None => first_colon(s@) is None,
        },
{
    let n = s.unicode_len();
    let mut i: usize = 0;
    while i < n
        invariant
            n == s@.len(),
            i <= n,
            forall|j: int| 0 <= j < i ==> s@[j] != ':',
        decreases n - i,
    {
        if s.get_char(i) == ':' {
            proof {
                lemma_first_colon_props(s@);
                // the first colon can be neither before nor after position i
                if first_colon(s@) is None {
                    assert(s@[i as int] != ':');
                }
            }
            return Some(i);
        }
        i = i + 1;
    }
    proof {
        lemma_first_colon_props(s@);
    }
    None
}

/// `s` with leading whitespace removed.
pub open spec fn trim_start_of(s: Seq<char>) -> Seq<char>
    decreases s.len(),
{
    if s.len() > 0 && is_ws(s[0]) {
        trim_start_of(s.drop_first())
    } else {
        s
    }
}

/// `s` with trailing whitespace removed.
pub open spec fn trim_end_of(s: Seq<char>) -> Seq<char>
    decreases s.len(),
{
    if s.len() > 0 && is_ws(s.last()) {
        trim_end_of(s.drop_last())
    } else {
        s
    }
}

/// `s` with surrounding whitespace removed.
pub open spec fn trim_of(s: Seq<char>) -> Seq<char> {
    trim_end_of(trim_start_of(s))
}

proof fn lemma_trim_start_skip(s: Seq<char>, a: int)
    requires
        0 <= a <= s.len(),
        forall|j: int| 0 <= j < a ==> is_ws(s[j]),
        a < s.len() ==> !is_ws(s[a]),
    ensures
        trim_start_of(s) == s.skip(a),
    decreases a,
{
    if a == 0 {
        assert(s.skip(0) =~= s);
    } else {
        lemma_trim_start_skip(s.drop_first(), a - 1);
        assert(s.drop_first().skip(a - 1) =~= s.skip(a));
    }
}

proof fn lemma_trim_end_take(s: Seq<char>, b: int)
    requires
        0 <= b <= s.len(),
        forall|j: int| b <= j < s.len() ==> is_ws(s[j]),
        b > 0 ==> !is_ws(s[b - 1]),
    ensures
        trim_end_of(s) == s.take(b),
    decreases s.len() - b,
{
    if b == s.len() {
        assert(s.take(b) =~= s);
    } else {
        assert(is_ws(s.last()));
        lemma_trim_end_take(s.drop_last(), b);
        assert(s.drop_last().take(b) =~= s.take(b));
    }
}

/// Removes surrounding whitespace, as `trim_of` describes.
pub fn trim_str(s: &str) -> (r: String)
    ensures
        r@ == trim_of(s@),
{
    let n = s.unicode_len();
    let mut a: usize = 0;
    while a < n && is_ws_char(s.get_char(a))
        invariant
            n == s@.len(),
            a <= n,
            forall|j: int| 0 <= j < a ==> is_ws(s@[j]),
        decreases n - a,
    {
        a = a + 1;
    }
    if a == n {
        proof {
            lemma_trim_start_skip(s@, a as int);
            assert(s@.skip(n as int) =~= Seq::<char>::empty());
        }
        return String::new();
    }
    let mut b: usize = n;
    while b > a && is_ws_char(s.get_char(b - 1))
        invariant
            n == s@.len(),
            a <= b <= n,
            a < n,
            !is_ws(s@[a as int]),
            forall|j: int| b <= j < n ==> is_ws(s@[j]),
        decreases b,
    {
        b = b - 1;
    }
    proof {
        lemma_trim_start_skip(s@, a as int);
        let t = s@.skip(a as int);
        assert(forall|j: int| 0 <= j < t.len() ==> t[j] == s@[j + a]);
        lemma_trim_end_take(t, b - a);
        assert(t.take(b - a) =~= s@.subrange(a as int, b as int));
    }
    s.substring_char(a, b).to_owned()
}

/// The digit character for a value below ten.
pub open spec fn dec_digit(d: int) -> char {
    if d == 0 {
        '0'
    } else if d == 1 {
        '1'
    } else if d == 2 {
        '2'
    } else if d == 3 {
        '3'
    } else if d == 4 {
        '4'
    } else if d == 5 {
        '5'
    } else if d == 6 {
        '6'
    } else if d == 7 {
        '7'
    } else if d == 8 {
        '8'
    } else {
        '9'
    }
}

/// The decimal rendering of a non-negative integer, most significant digit
/// first, with no leading zeros (a bare `0` for zero).
pub open spec fn dec_of(n: int) -> Seq<char>
    decreases n,
{
    if n < 10 {
        seq![dec_digit(n)]
    } else {
        dec_of(n / 10).push(dec_digit(n % 10))
    }
}

fn digit_str(d: usize) -> (r: &'static str)
    requires
        d < 10,
    ensures
        r@ == seq![dec_digit(d as int)],
{
    let r: &'static str = if d == 0 {
        "0"
    } else if d == 1 {
        "1"
    } else if d == 2 {
        "2"
    } else if d == 3 {
        "3"
    } else if d == 4 {
        "4"
    } else if d == 5 {
        "5"
    } else if d == 6 {
        "6"
    } else if d == 7 {
        "7"
    } else if d == 8 {
        "8"
    } else {
        "9"
    };
    proof {
        reveal_strlit("0");
        reveal_strlit("1");
        reveal_strlit("2");
        reveal_strlit("3");
        reveal_strlit("4");
        reveal_strlit("5");
        reveal_strlit("6");
        reveal_strlit("7");
        reveal_strlit("8");
        reveal_strlit("9");
        assert(r@ =~= seq![dec_digit(d as int)]);
    }
    r
}

/// Renders `n` in decimal, as `dec_of` describes.
pub fn dec_str_usize(n: usize) -> (r: String)
    ensures
        r@ == dec_of(n as int),
    decreases n,
{
    if n < 10 {
        digit_str(n).to_owned()
    } else {
        let mut s = dec_str_usize(n / 10);
        let ghost pre = s@;
        s.append(digit_str(n % 10));
        proof {
            assert(pre + seq![dec_digit((n % 10) as int)] =~= pre.push(
                dec_digit((n % 10) as int),
            ));
        }
        s
    }
}

/// A decimal digit character.
pub open spec fn is_digit(c: char) -> bool {
    0x30 <= c as u32 && c as u32 <= 0x39
}

/// The value of a digit character.
pub open spec fn digit_val(c: char) -> int {
    c as u32 - 0x30
}

/// A non-empty string of decimal digits.
pub open spec fn all_digits(s: Seq<char>) -> bool {
    s.len() > 0 && forall|i: int| 0 <= i < s.len() ==> is_digit(s[i])
}

/// The value of a digit string, most significant digit first.
pub open spec fn dec_val(s: Seq<char>) -> int
    decreases s.len(),
{
    if s.len() == 0 {
        0
    } else {
        dec_val(s.drop_last()) * 10 + digit_val(s.last())
    }
}

proof fn lemma_dec_val_nonneg(s: Seq<char>)
    requires
        forall|i: int| 0 <= i < s.len() ==> is_digit(s[i]),
    ensures
        dec_val(s) >= 0,
    decreases s.len(),
{
    if s.len() > 0 {
        lemma_dec_val_nonneg(s.drop_last());
    }
}

/// The value of a digit string never falls below that of one of its prefixes.
pub proof fn lemma_dec_val_prefix_le(s: Seq<char>, i: int)
    requires
        0 <= i <= s.len(),
        forall|j: int| 0 <= j < s.len() ==> is_digit(s[j]),
    ensures
        dec_val(s.take(i)) <= dec_val(s),
    decreases s.len() - i,
{
    if i == s.len() {
        assert(s.take(i) =~= s);
    } else {
        let d = s.drop_last();
        lemma_dec_val_prefix_le(d, i);
        assert(d.take(i) =~= s.take(i));
        lemma_dec_val_nonneg(d);
    }
}

/// Parses a non-empty all-digit string as a `usize`; `None` on any other
/// string, and on a value too large for `usize`.
pub fn parse_dec_usize(s: &str) -> (r: Option<usize>)
    ensures
        match r {
            Some(v) => all_digits(s@) && v as int == dec_val(s@),
            None => !all_digits(s@) || dec_val(s@) > usize::MAX,
        },
{
    let n = s.unicode_len();
    if n == 0 {
        return None;
    }
    let mut v: usize = 0;
    let mut i: usize = 0;
    while i < n
        invariant
            n == s@.len(),
            i <= n,
            forall|j: int| 0 <= j < i ==> is_digit(s@[j]),
            v as int == dec_val(s@.take(i as int)),
        decreases n - i,
    {
        let c = s.get_char(i);
        let u = c as u32;
        if u < 0x30 || u > 0x39 {
            return None;
        }
        let d = (u - 0x30) as usize;
        proof {
            assert(s@.take(i + 1).drop_last() =~= s@.take(i as int));
            assert(s@.take(i + 1).last() == s@[i as int]);
        }
        let v10 = match v.checked_mul(10) {
            Some(x) => x,
            None => {
                proof {
                    lemma_overflow_means_large(s@, i as int, v, d);
                }
                return None;
            },
        };
        let vnew = match v10.checked_add(d) {
            Some(x) => x,
            None => {
                proof {
                    lemma_overflow_means_large(s@, i as int, v, d);
                }
                return None;
            },
        };
        v = vnew;
        i = i + 1;
    }
    proof {
        assert(s@.take(n as int) =~= s@);
    }
    Some(v)
}

proof fn lemma_overflow_means_large(s: Seq<char>, i: int, v: usize, d: usize)
    requires
        0 <= i < s.len(),
        forall|j: int| 0 <= j < i ==> is_digit(s[j]),
        is_digit(s[i]),
        v as int == dec_val(s.take(i)),
        d == digit_val(s[i]),
        v as int * 10 + d > usize::MAX,
    ensures
        !all_digits(s) || dec_val(s) > usize::MAX,
{
    if all_digits(s) {
        assert(s.take(i + 1).drop_last() =~= s.take(i));
        assert(s.take(i + 1).last() == s[i]);
        assert(dec_val(s.take(i + 1)) == v as int * 10 + d);
        lemma_dec_val_prefix_le(s, i + 1);
    }
}

} // verus!
