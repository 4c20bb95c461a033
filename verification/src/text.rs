//! Character-level text utilities: decimal rendering of integers,
//! whitespace tokenization of table lines, and small helpers used by the
//! source readers.

use vstd::prelude::*;

verus! {

// ---------------------------------------------------------------------------
// Decimal rendering
// ---------------------------------------------------------------------------

/// The decimal digit character for `d` (meaningful for `d < 10`).
pub open spec fn digit_char(d: nat) -> char {
    if d == 0 {
        '0'
    } else if d == 1 {
        '1'
    } else if d == 2 {
        '2'
    } else if d == 3 {
        '3'
    } else if d == 4 {
        '4'
    } else if d == 5 {
        '5'
    } else if d == 6 {
        '6'
    } else if d == 7 {
        '7'
    } else if d == 8 {
        '8'
    } else {
        '9'
    }
}

/// The usual decimal text of `n`, without a sign and without leading zeros
/// (except for `n == 0`, which is rendered as `0`).
pub open spec fn dec_str(n: nat) -> Seq<char>
    decreases n,
{
    if n < 10 {
        seq![digit_char(n)]
    } else {
        dec_str(n / 10) + seq![digit_char(n % 10)]
    }
}

/// The one-character text of a decimal digit.
pub fn digit_str(d: u128) -> (s: &'static str)
    requires
        d < 10,
    ensures
        s@ == seq![digit_char(d as nat)],
{
    proof {
        reveal_strlit("0");
        reveal_strlit("1");
        reveal_strlit("2");
        reveal_strlit("3");
        reveal_strlit("4");
        reveal_strlit("5");
        reveal_strlit("6");
        reveal_strlit("7");
        reveal_strlit("8");
        reveal_strlit("9");
    }
    let s: &'static str = if d == 0 {
        "0"
    } else if d == 1 {
        "1"
    } else if d == 2 {
        "2"
    } else if d == 3 {
        "3"
    } else if d == 4 {
        "4"
    } else if d == 5 {
        "5"
    } else if d == 6 {
        "6"
    } else if d == 7 {
        "7"
    } else if d == 8 {
        "8"
    } else {
        "9"
    };
    proof {
        assert(s@ =~= seq![digit_char(d as nat)]);
    }
    s
}

/// Renders `n` as decimal text.
pub fn u128_to_string(n: u128) -> (s: String)
    ensures
        s@ == dec_str(n as nat),
    decreases n,
{
    if n < 10 {
        let s = digit_str(n).to_owned();
        proof {
            assert(s@ =~= dec_str(n as nat));
        }
        s
    } else {
        let mut s = u128_to_string(n / 10);
        s.append(digit_str(n % 10));
        proof {
            assert(s@ =~= dec_str(n as nat));
        }
        s
    }
}

// ---------------------------------------------------------------------------
// Whitespace tokenization
// ---------------------------------------------------------------------------

/// ASCII whitespace, the separators that occur in the kernel tables read here.
pub open spec fn is_space_char(c: char) -> bool {
    c == ' ' || c == '\t' || c == '\n' || c == '\r'
}

/// The first index `>= i` holding a non-space character, or `s.len()`.
pub open spec fn scan_nonspace(s: Seq<char>, i: nat) -> nat
    decreases s.len() - i,
{
    if i >= s.len() {
        s.len()
    } else if !is_space_char(s[i as int]) {
        i
    } else {
        scan_nonspace(s, i + 1)
    }
}

/// The first index `>= i` holding a space character, or `s.len()`.
pub open spec fn scan_token_end(s: Seq<char>, i: nat) -> nat
    decreases s.len() - i,
{
    if i >= s.len() {
        s.len()
    } else if is_space_char(s[i as int]) {
        i
    } else {
        scan_token_end(s, i + 1)
    }
}

pub proof fn lemma_scan_nonspace_bounds(s: Seq<char>, i: nat)
    requires
        i <= s.len(),
    ensures
        i <= scan_nonspace(s, i) <= s.len(),
        scan_nonspace(s, i) < s.len() ==> !is_space_char(s[scan_nonspace(s, i) as int]),
    decreases s.len() - i,
{
    if i < s.len() && is_space_char(s[i as int]) {
        lemma_scan_nonspace_bounds(s, i + 1);
    }
}

pub proof fn lemma_scan_token_end_bounds(s: Seq<char>, i: nat)
    requires
        i <= s.len(),
    ensures
        i <= scan_token_end(s, i) <= s.len(),
        scan_token_end(s, i) < s.len() ==> is_space_char(s[scan_token_end(s, i) as int]),
    decreases s.len() - i,
{
    if i < s.len() && !is_space_char(s[i as int]) {
        lemma_scan_token_end_bounds(s, i + 1);
    }
}

/// The whitespace-separated tokens of `s` from position `i` on.
pub open spec fn tokens_from(s: Seq<char>, i: nat) -> Seq<Seq<char>>
    decreases s.len() - i,
    when i <= s.len()
    via tokens_from_via
{
    let j = scan_nonspace(s, i);
    if j >= s.len() {
        Seq::empty()
    } else {
        let k = scan_token_end(s, j);
        seq![s.subrange(j as int, k as int)] + tokens_from(s, k)
    }
}

#[via_fn]
proof fn tokens_from_via(s: Seq<char>, i: nat) {
    lemma_scan_nonspace_bounds(s, i);
    let j = scan_nonspace(s, i);
    if j < s.len() {
        lemma_scan_token_end_bounds(s, (j + 1) as nat);
    }
}

/// The whitespace-separated tokens of `s`.
pub open spec fn spec_tokens(s: Seq<char>) -> Seq<Seq<char>> {
    tokens_from(s, 0)
}

/// No character of `s` is a newline.
pub open spec fn newline_free(s: Seq<char>) -> bool {
    forall|m: int| 0 <= m < s.len() ==> s[m] != '\n'
}

proof fn lemma_scan_token_end_all_nonspace(s: Seq<char>, i: nat)
    requires
        i <= s.len(),
    ensures
        forall|m: int| i <= m < scan_token_end(s, i) ==> !is_space_char(s[m]),
    decreases s.len() - i,
{
    if i < s.len() && !is_space_char(s[i as int]) {
        lemma_scan_token_end_all_nonspace(s, i + 1);
    }
}

proof fn lemma_tokens_from_nonspace(s: Seq<char>, i: nat)
    requires
        i <= s.len(),
    ensures
        forall|t: int, m: int|
            0 <= t < tokens_from(s, i).len() && 0 <= m < tokens_from(s, i)[t].len()
                ==> !is_space_char(#[trigger] tokens_from(s, i)[t][m]),
    decreases s.len() - i,
{
    lemma_scan_nonspace_bounds(s, i);
    let j = scan_nonspace(s, i);
    if j < s.len() {
        lemma_scan_token_end_bounds(s, j);
        lemma_scan_token_end_bounds(s, (j + 1) as nat);
        let k = scan_token_end(s, j);
        lemma_scan_token_end_all_nonspace(s, j);
        lemma_tokens_from_nonspace(s, k);
        let toks = tokens_from(s, i);
        assert forall|t: int, m: int|
            0 <= t < toks.len() && 0 <= m < toks[t].len() implies !is_space_char(
            #[trigger] toks[t][m],
        ) by {
            if t == 0 {
                assert(toks[0] == s.subrange(j as int, k as int));
                assert(!is_space_char(s[j + m]));
            } else {
                assert(toks[t] == tokens_from(s, k)[t - 1]);
                assert(!is_space_char(tokens_from(s, k)[t - 1][m]));
            }
        }
    }
}

/// No character of any whitespace-separated token is itself whitespace; in
/// particular, tokens are newline-free.
pub proof fn lemma_tokens_have_no_whitespace(s: Seq<char>)
    ensures
        forall|t: int, m: int|
            0 <= t < spec_tokens(s).len() && 0 <= m < spec_tokens(s)[t].len()
                ==> !is_space_char(#[trigger] spec_tokens(s)[t][m]),
{
    lemma_tokens_from_nonspace(s, 0);
}

fn find_nonspace(s: &str, i: usize) -> (j: usize)
    requires
        i <= s@.len(),
    ensures
        j as nat == scan_nonspace(s@, i as nat),
    decreases s@.len() - i,
{
    if i == s.unicode_len() {
        i
    } else {
        let c = s.get_char(i);
        if !(c == ' ' || c == '\t' || c == '\n' || c == '\r') {
            i
        } else {
            find_nonspace(s, i + 1)
        }
    }
}

fn find_token_end(s: &str, i: usize) -> (j: usize)
    requires
        i <= s@.len(),
    ensures
        j as nat == scan_token_end(s@, i as nat),
    decreases s@.len() - i,
{
    if i == s.unicode_len() {
        i
    } else {
        let c = s.get_char(i);
        if c == ' ' || c == '\t' || c == '\n' || c == '\r' {
            i
        } else {
            find_token_end(s, i + 1)
        }
    }
}

fn tokens_vec_from(s: &str, i: usize) -> (v: Vec<String>)
    requires
        i <= s@.len(),
    ensures
        v.deep_view() == tokens_from(s@, i as nat),
    decreases s@.len() - i,
{
    let j = find_nonspace(s, i);
    proof {
        lemma_scan_nonspace_bounds(s@, i as nat);
    }
    if j == s.unicode_len() {
        let v: Vec<String> = Vec::new();
        proof {
            assert(v.deep_view() =~~= tokens_from(s@, i as nat));
        }
        v
    } else {
        let k = find_token_end(s, j);
        proof {
            lemma_scan_token_end_bounds(s@, j as nat);
            lemma_scan_token_end_bounds(s@, (j + 1) as nat);
        }
        let tok = s.substring_char(j, k).to_owned();
        let mut v = tokens_vec_from(s, k);
        v.insert(0, tok);
        proof {
            assert(v.deep_view() =~~= tokens_from(s@, i as nat));
        }
        v
    }
}

/// Splits `s` into its whitespace-separated tokens.
pub fn tokens_vec(s: &str) -> (v: Vec<String>)
    ensures
        v.deep_view() == spec_tokens(s@),
{
    tokens_vec_from(s, 0)
}

// ---------------------------------------------------------------------------
// Small helpers
// ---------------------------------------------------------------------------

/// Whether `s` contains the character `c`.
pub open spec fn contains_char(s: Seq<char>, c: char) -> bool {
    exists|i: int| 0 <= i < s.len() && s[i] == c
}

/// Whether the string holds the character `c` anywhere.
pub fn str_contains_char(s: &str, c: char) -> (b: bool)
    ensures
        b == contains_char(s@, c),
{
    let n = s.unicode_len();
    for i in 0..n
        invariant
            n as nat == s@.len(),
            forall|k: int| 0 <= k < i ==> s@[k] != c,
    {
        if s.get_char(i) == c {
            proof {
                assert(s@[i as int] == c);
            }
            return true;
        }
    }
    false
}

/// The number of occurrences of `c` in `s`.
pub open spec fn count_char(s: Seq<char>, c: char) -> nat
    decreases s.len(),
{
    if s.len() == 0 {
        0
    } else {
        count_char(s.drop_last(), c) + if s.last() == c {
            1nat
        } else {
            0nat
        }
    }
}

pub proof fn lemma_count_char_concat(a: Seq<char>, b: Seq<char>, c: char)
    ensures
        count_char(a + b, c) == count_char(a, c) + count_char(b, c),
    decreases b.len(),
{
    if b.len() == 0 {
        assert(a + b =~= a);
    } else {
        lemma_count_char_concat(a, b.drop_last(), c);
        assert((a + b).drop_last() =~= a + b.drop_last());
    }
}

/// A newline-free text holds no newline occurrence.
pub proof fn lemma_newline_free_count(s: Seq<char>)
    requires
        newline_free(s),
    ensures
        count_char(s, '\n') == 0,
    decreases s.len(),
{
    if s.len() > 0 {
        lemma_newline_free_count(s.drop_last());
    }
}

/// Decimal text never holds a newline.
pub proof fn lemma_dec_str_newline_free(n: nat)
    ensures
        count_char(dec_str(n), '\n') == 0,
    decreases n,
{
    reveal_with_fuel(count_char, 3);
    if n < 10 {
        assert((seq![digit_char(n)]).drop_last() =~= Seq::<char>::empty());
    } else {
        lemma_dec_str_newline_free(n / 10);
        lemma_count_char_concat(dec_str(n / 10), seq![digit_char(n % 10)], '\n');
        assert((seq![digit_char(n % 10)]).drop_last() =~= Seq::<char>::empty());
    }
}

/// Stripping trailing colons from a whitespace-free text leaves it
/// whitespace-free.
pub proof fn lemma_strip_colons_preserves_nonspace(s: Seq<char>)
    requires
        forall|m: int| 0 <= m < s.len() ==> !is_space_char(s[m]),
    ensures
        forall|m: int|
            0 <= m < strip_colons(s).len() ==> !is_space_char(#[trigger] strip_colons(s)[m]),
    decreases s.len(),
{
    if s.len() > 0 && s[s.len() - 1] == ':' {
        assert forall|m: int|
            0 <= m < s.drop_last().len() implies !is_space_char(#[trigger] s.drop_last()[m]) by {
            assert(s.drop_last()[m] == s[m]);
        }
        lemma_strip_colons_preserves_nonspace(s.drop_last());
        assert(strip_colons(s) == strip_colons(s.drop_last()));
    } else {
        assert forall|m: int|
            0 <= m < strip_colons(s).len() implies !is_space_char(
            #[trigger] strip_colons(s)[m],
        ) by {
            assert(strip_colons(s) == s);
        }
    }
}

/// `s` with every trailing `':'` removed.
pub open spec fn strip_colons(s: Seq<char>) -> Seq<char>
    decreases s.len(),
{
    if s.len() > 0 && s[s.len() - 1] == ':' {
        strip_colons(s.drop_last())
    } else {
        s
    }
}

/// Removes every trailing `':'` from `s`; interface names in the kernel's
/// device table carry one.
pub fn strip_trailing_colons(s: &str) -> (r: String)
    ensures
        r@ == strip_colons(s@),
    decreases s@.len(),
{
    let n = s.unicode_len();
    if n > 0 && s.get_char(n - 1) == ':' {
        let prefix = s.substring_char(0, n - 1);
        proof {
            assert(prefix@ =~= s@.drop_last());
        }
        strip_trailing_colons(prefix)
    } else {
        s.to_owned()
    }
}

/// Stripping trailing colons is idempotent: a second pass changes nothing.
pub proof fn lemma_strip_colons_idempotent(s: Seq<char>)
    ensures
        strip_colons(strip_colons(s)) == strip_colons(s),
    decreases s.len(),
{
    if s.len() > 0 && s[s.len() - 1] == ':' {
        lemma_strip_colons_idempotent(s.drop_last());
    }
}

} // verus!
