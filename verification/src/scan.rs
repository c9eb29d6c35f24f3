//! Low-level text scanning: whitespace tokenization, character search and
//! signed decimal parsing, each verified against a spec-level model of the
//! same operation on `Seq<char>`.

use vstd::prelude::*;

verus! {

/// Characters the tokenizer treats as separators: the ASCII whitespace set.
pub open spec fn is_space(c: char) -> bool {
    c == ' ' || c == '\t' || c == '\n' || c == '\r' || c == '\x0c'
}

/// Executable test for [`is_space`].
pub fn space_char(c: char) -> (r: bool)
    ensures
        r == is_space(c),
{
    c == ' ' || c == '\t' || c == '\n' || c == '\r' || c == '\x0c'
}

/// Index just past the run of non-space characters that starts at `i`:
/// the first position `>= i` holding a space, or the end of `s`.
pub open spec fn token_end(s: Seq<char>, i: int) -> int
    decreases s.len() - i,
{
    if i < 0 || i >= s.len() || is_space(s[i]) {
        i
    } else {
        token_end(s, i + 1)
    }
}

pub proof fn lemma_token_end(s: Seq<char>, i: int)
    requires
        0 <= i <= s.len(),
    ensures
        i <= token_end(s, i) <= s.len(),
        forall|k: int| i <= k < token_end(s, i) ==> !is_space(s[k]),
        token_end(s, i) < s.len() ==> is_space(s[token_end(s, i)]),
    decreases s.len() - i,
{
    if i < s.len() && !is_space(s[i]) {
        lemma_token_end(s, i + 1);
    }
}

/// The whitespace-separated tokens of `s`, reading from position `i` on.
pub open spec fn tokens_from(s: Seq<char>, i: int) -> Seq<Seq<char>>
    decreases s.len() - i,
    when 0 <= i <= s.len()
    via tokens_from_decreases
{
    if i >= s.len() {
        Seq::empty()
    } else if is_space(s[i]) {
        tokens_from(s, i + 1)
    } else {
        seq![s.subrange(i, token_end(s, i))] + tokens_from(s, token_end(s, i))
    }
}

#[via_fn]
proof fn tokens_from_decreases(s: Seq<char>, i: int) {
    if 0 <= i < s.len() && !is_space(s[i]) {
        lemma_token_end(s, i);
        assert(token_end(s, i) != i);
    }
}

/// The whitespace-separated tokens of a whole line.
pub open spec fn spec_tokens(s: Seq<char>) -> Seq<Seq<char>> {
    tokens_from(s, 0)
}

/// Splits `s` on runs of whitespace, as [`spec_tokens`] describes.
pub fn tokenize(s: &str) -> (tokens: Vec<String>)
    ensures
        tokens.deep_view() == spec_tokens(s@),
{
    let n = s.unicode_len();
    let mut tokens: Vec<String> = Vec::new();
    let mut i: usize = 0;
    while i < n
        invariant
            n == s@.len(),
            i <= n,
            tokens.deep_view() + tokens_from(s@, i as int) =~= spec_tokens(s@),
        decreases n - i,
    {
        let c = s.get_char(i);
        if space_char(c) {
            i = i + 1;
        } else {
            let mut j: usize = i;
            loop
                invariant
                    n == s@.len(),
                    i <= j <= n,
                    token_end(s@, i as int) == token_end(s@, j as int),
                ensures
                    i <= j <= n,
                    j as int == token_end(s@, i as int),
                decreases n - j,
            {
                if j == n {
                    break ;
                }
                if space_char(s.get_char(j)) {
                    break ;
                }
                j = j + 1;
            }
            let tok = s.substring_char(i, j);
            let ghost old_tokens = tokens.deep_view();
            tokens.push(tok.to_owned());
            proof {
                assert(tokens.deep_view() =~= old_tokens.push(tok@));
                assert(tokens_from(s@, i as int) == seq![s@.subrange(i as int, j as int)]
                    + tokens_from(s@, j as int));
                assert(tokens.deep_view() + tokens_from(s@, j as int) =~= spec_tokens(s@));
                lemma_token_end(s@, i as int);
            }
            i = j;
        }
    }
    proof {
        assert(tokens.deep_view() =~= spec_tokens(s@));
    }
    tokens
}

/// The first position `>= i` where `c` occurs in `s`, or the end of `s`.
pub open spec fn find_from(s: Seq<char>, i: int, c: char) -> int
    decreases s.len() - i,
{
    if i < 0 || i >= s.len() || s[i] == c {
        i
    } else {
        find_from(s, i + 1, c)
    }
}

pub proof fn lemma_find_from(s: Seq<char>, i: int, c: char)
    requires
        0 <= i <= s.len(),
    ensures
        i <= find_from(s, i, c) <= s.len(),
        forall|k: int| i <= k < find_from(s, i, c) ==> s[k] != c,
        find_from(s, i, c) < s.len() ==> s[find_from(s, i, c)] == c,
    decreases s.len() - i,
{
    if i < s.len() && s[i] != c {
        lemma_find_from(s, i + 1, c);
    }
}

/// Finds the first occurrence of `c` at or after position `from`,
/// as [`find_from`] describes.
pub fn find_char(s: &str, from: usize, c: char) -> (r: usize)
    requires
        from <= s@.len(),
    ensures
        r as int == find_from(s@, from as int, c),
{
    let n = s.unicode_len();
    let mut j: usize = from;
    loop
        invariant
            n == s@.len(),
            from <= j <= n,
            find_from(s@, from as int, c) == find_from(s@, j as int, c),
        ensures
            j as int == find_from(s@, from as int, c),
        decreases n - j,
    {
        if j == n {
            break ;
        }
        if s.get_char(j) == c {
            break ;
        }
        j = j + 1;
    }
    j
}

/// Character-wise string equality, decided without assuming anything of
/// `str`'s own comparison operators.
pub fn str_eq(a: &str, b: &str) -> (r: bool)
    ensures
        r == (a@ == b@),
{
    let na = a.unicode_len();
    let nb = b.unicode_len();
    if na != nb {
        return false;
    }
    let mut k: usize = 0;
    while k < na
        invariant
            na == a@.len(),
            na == b@.len(),
            k <= na,
            forall|t: int| 0 <= t < k ==> a@[t] == b@[t],
        decreases na - k,
    {
        if a.get_char(k) != b.get_char(k) {
            return false;
        }
        k = k + 1;
    }
    proof {
        assert(a@ =~= b@);
    }
    true
}

pub open spec fn is_digit(c: char) -> bool {
    48 <= c as int && c as int <= 57
}

pub open spec fn digit_val(c: char) -> int {
    c as int - 48
}

pub open spec fn all_digits(s: Seq<char>) -> bool {
    forall|k: int| 0 <= k < s.len() ==> is_digit(s[k])
}

/// The value of a sequence of decimal digits, most significant first.
pub open spec fn digits_val(s: Seq<char>) -> int
    decreases s.len(),
{
    if s.len() == 0 {
        0
    } else {
        digits_val(s.drop_last()) * 10 + digit_val(s.last())
    }
}

pub proof fn lemma_digits_val_nonneg(s: Seq<char>)
    requires
        all_digits(s),
    ensures
        digits_val(s) >= 0,
    decreases s.len(),
{
    if s.len() > 0 {
        lemma_digits_val_nonneg(s.drop_last());
    }
}

/// Appending digits never decreases the value a digit string denotes.
pub proof fn lemma_digits_val_prefix(s: Seq<char>, k: int)
    requires
        all_digits(s),
        0 <= k <= s.len(),
    ensures
        digits_val(s.subrange(0, k)) <= digits_val(s),
    decreases s.len() - k,
{
    if k < s.len() {
        assert(s.subrange(0, k + 1).drop_last() =~= s.subrange(0, k));
        lemma_digits_val_nonneg(s.subrange(0, k));
        lemma_digits_val_prefix(s, k + 1);
    } else {
        assert(s.subrange(0, s.len() as int) =~= s);
    }
}

/// The digit part of a signed numeral: everything after an optional sign.
pub open spec fn i32_digits(s: Seq<char>) -> Seq<char> {
    if s.len() > 0 && (s[0] == '-' || s[0] == '+') {
        s.drop_first()
    } else {
        s
    }
}

pub open spec fn i32_negative(s: Seq<char>) -> bool {
    s.len() > 0 && s[0] == '-'
}

/// What `i32::from_str` accepts: an optional sign, then one or more decimal
/// digits, denoting a value within `i32`'s range.
pub open spec fn spec_parse_i32(s: Seq<char>) -> Option<i32> {
    let digits = i32_digits(s);
    let negative = i32_negative(s);
    if digits.len() == 0 || !all_digits(digits) {
        None
    } else if negative {
        if -digits_val(digits) >= i32::MIN {
            Some((-digits_val(digits)) as i32)
        } else {
            None
        }
    } else {
        if digits_val(digits) <= i32::MAX {
            Some(digits_val(digits) as i32)
        } else {
            None
        }
    }
}

/// Parses a signed decimal numeral, as [`spec_parse_i32`] describes.
pub fn parse_i32(s: &str) -> (r: Option<i32>)
    ensures
        r == spec_parse_i32(s@),
{
    let n = s.unicode_len();
    if n == 0 {
        return None;
    }
    let c0 = s.get_char(0);
    let negative = c0 == '-';
    let start: usize = if c0 == '-' || c0 == '+' {
        1
    } else {
        0
    };
    let ghost digits = i32_digits(s@);
    proof {
        if start == 1 {
            assert(digits =~= s@.subrange(1, n as int));
        } else {
            assert(digits =~= s@.subrange(0, n as int));
        }
    }
    if start == n {
        return None;
    }
    let mut val: u64 = 0;
    let mut k: usize = start;
    while k < n
        invariant
            n == s@.len(),
            start <= k <= n,
            start < n,
            digits == i32_digits(s@),
            digits == s@.subrange(start as int, n as int),
            all_digits(s@.subrange(start as int, k as int)),
            val == digits_val(s@.subrange(start as int, k as int)),
            val <= 0x8000_0000,
        decreases n - k,
    {
        let c = s.get_char(k);
        let u = c as u32;
        if u < 48 || u > 57 {
            proof {
                assert(digits[k - start] == s@[k as int]);
                assert(!is_digit(digits[k - start]));
                assert(!all_digits(digits));
            }
            return None;
        }
        let d = (u - 48) as u64;
        let new_val = val * 10 + d;
        proof {
            assert(s@.subrange(start as int, k + 1).drop_last() =~= s@.subrange(
                start as int,
                k as int,
            ));
            assert(digits_val(s@.subrange(start as int, k + 1)) == new_val);
        }
        if new_val > 0x8000_0000 {
            proof {
                if all_digits(digits) {
                    assert(digits.subrange(0, k + 1 - start) =~= s@.subrange(start as int, k + 1));
                    lemma_digits_val_prefix(digits, k + 1 - start);
                }
            }
            return None;
        }
        val = new_val;
        k = k + 1;
        proof {
            assert(all_digits(s@.subrange(start as int, k as int)));
        }
    }
    proof {
        assert(digits =~= s@.subrange(start as int, n as int));
        assert(s@.subrange(start as int, k as int) =~= digits);
    }
    if negative {
        if val == 0x8000_0000 {
            Some(i32::MIN)
        } else {
            Some(-(val as i32))
        }
    } else {
        if val <= 0x7fff_ffff {
            Some(val as i32)
        } else {
            None
        }
    }
}

} // verus!
