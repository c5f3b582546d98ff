//! Verified helpers over strings viewed as sequences of characters:
//! equality, prefix tests, substring search, splitting, and decimal numbers.

use vstd::prelude::*;
use vstd::string::*;

verus! {

/// Character-for-character equality of two string slices.
pub fn str_eq(a: &str, b: &str) -> (r: bool)
    ensures
        r == (a@ == b@),
{
    let alen = a.unicode_len();
    let blen = b.unicode_len();
    if alen != blen {
        return false;
    }
    let mut i: usize = 0;
    while i < alen
        invariant
            alen == a@.len(),
            blen == b@.len(),
            alen == blen,
            i <= alen,
            forall|j: int| 0 <= j < i ==> a@[j] == b@[j],
        decreases alen - i,
    {
        if a.get_char(i) != b.get_char(i) {
            return false;
        }
        i += 1;
    }
    proof {
        assert(a@ =~= b@);
    }
    true
}

/// `p` is a prefix of `s`.
pub open spec fn is_prefix_of(p: Seq<char>, s: Seq<char>) -> bool {
    p.len() <= s.len() && s.subrange(0, p.len() as int) == p
}

/// Prefix test, exact with respect to [`is_prefix_of`].
pub fn starts_with(s: &str, p: &str) -> (r: bool)
    ensures
        r == is_prefix_of(p@, s@),
{
    let slen = s.unicode_len();
    let plen = p.unicode_len();
    if plen > slen {
        return false;
    }
    let mut i: usize = 0;
    while i < plen
        invariant
            slen == s@.len(),
            plen == p@.len(),
            plen <= slen,
            i <= plen,
            forall|j: int| 0 <= j < i ==> s@[j] == p@[j],
        decreases plen - i,
    {
        if s.get_char(i) != p.get_char(i) {
            proof {
                assert(s@[i as int] != p@[i as int]);
                assert(!is_prefix_of(p@, s@)) by {
                    if is_prefix_of(p@, s@) {
                        assert(s@.subrange(0, p@.len() as int)[i as int] == s@[i as int]);
                    }
                }
            }
            return false;
        }
        i += 1;
    }
    proof {
        assert(s@.subrange(0, p@.len() as int) =~= p@);
    }
    true
}

/// The characters of `s` after a prefix of length `p_len`.
pub fn strip_prefix_len(s: &str, p_len: usize) -> (r: String)
    requires
        p_len <= s@.len(),
    ensures
        r@ == s@.subrange(p_len as int, s@.len() as int),
{
    let slen = s.unicode_len();
    s.substring_char(p_len, slen).to_owned()
}

/// `p` occurs as a contiguous subsequence of `s`.
pub open spec fn contains_seq(s: Seq<char>, p: Seq<char>) -> bool {
    exists|i: int|
        0 <= i && i + p.len() <= s.len() && #[trigger] s.subrange(i, i + p.len() as int) == p
}

/// Substring search, exact with respect to [`contains_seq`].
pub fn contains_str(s: &str, p: &str) -> (r: bool)
    ensures
        r == contains_seq(s@, p@),
{
    let slen = s.unicode_len();
    let plen = p.unicode_len();
    if plen > slen {
        proof {
            assert(!contains_seq(s@, p@));
        }
        return false;
    }
    if plen == 0 {
        proof {
            assert(s@.subrange(0, 0 + p@.len() as int) =~= p@);
        }
        return true;
    }
    let mut i: usize = 0;
    while i <= slen - plen
        invariant
            slen == s@.len(),
            plen == p@.len(),
            0 < plen <= slen,
            i <= slen - plen + 1,
            forall|k: int|
                0 <= k < i ==> #[trigger] s@.subrange(k, k + p@.len() as int) != p@,
        decreases slen - i,
    {
        let mut j: usize = 0;
        let mut matched: bool = true;
        while j < plen
            invariant
                slen == s@.len(),
                plen == p@.len(),
                i + plen <= slen,
                j <= plen,
                matched ==> forall|k: int| 0 <= k < j ==> s@[i + k] == p@[k],
                !matched ==> s@.subrange(i as int, i + p@.len() as int) != p@,
            decreases plen - j,
        {
            if s.get_char(i + j) != p.get_char(j) {
                proof {
                    assert(s@.subrange(i as int, i + p@.len() as int)[j as int] == s@[i + j]);
                }
                matched = false;
                j = plen;
            } else {
                j += 1;
            }
        }
        if matched {
            proof {
                assert(s@.subrange(i as int, i + p@.len() as int) =~= p@);
            }
            return true;
        }
        i += 1;
    }
    proof {
        assert(!contains_seq(s@, p@)) by {
            if contains_seq(s@, p@) {
                let k = choose|k: int|
                    0 <= k && k + p@.len() <= s@.len() && #[trigger] s@.subrange(
                        k,
                        k + p@.len() as int,
                    ) == p@;
                assert(k < i);
            }
        }
    }
    false
}

/// `parts` with `c` prepended to its first element.
pub open spec fn prepend_first(c: char, parts: Seq<Seq<char>>) -> Seq<Seq<char>> {
    parts.update(0, seq![c] + parts[0])
}

/// The lines of `s`, split on the two-character terminator `\r\n`.
/// Splitting the empty sequence gives one empty line.
pub open spec fn spec_split_crlf(s: Seq<char>) -> Seq<Seq<char>>
    decreases s.len(),
{
    if s.len() >= 2 && s[0] == '\r' && s[1] == '\n' {
        seq![Seq::<char>::empty()] + spec_split_crlf(s.subrange(2, s.len() as int))
    } else if s.len() >= 1 {
        prepend_first(s[0], spec_split_crlf(s.subrange(1, s.len() as int)))
    } else {
        seq![Seq::<char>::empty()]
    }
}

pub proof fn lemma_split_crlf_nonempty(s: Seq<char>)
    ensures
        spec_split_crlf(s).len() >= 1,
    decreases s.len(),
{
    if s.len() >= 2 && s[0] == '\r' && s[1] == '\n' {
        lemma_split_crlf_nonempty(s.subrange(2, s.len() as int));
    } else if s.len() >= 1 {
        lemma_split_crlf_nonempty(s.subrange(1, s.len() as int));
    }
}

/// Splits `s` on each occurrence of `\r\n`, exact with respect to
/// [`spec_split_crlf`].
pub fn split_crlf(s: &str) -> (r: Vec<String>)
    ensures
        r.deep_view() == spec_split_crlf(s@),
        r.len() >= 1,
    decreases s@.len(),
{
    let n = s.unicode_len();
    if n >= 2 && s.get_char(0) == '\r' && s.get_char(1) == '\n' {
        let mut rest = split_crlf(s.substring_char(2, n));
        rest.insert(0, String::new());
        proof {
            assert(rest.deep_view() =~~= spec_split_crlf(s@));
        }
        rest
    } else if n >= 1 {
        let mut rest = split_crlf(s.substring_char(1, n));
        proof {
            lemma_split_crlf_nonempty(s@.subrange(1, s@.len() as int));
        }
        let head = rest.remove(0);
        let mut first = s.substring_char(0, 1).to_owned();
        first.append(head.as_str());
        rest.insert(0, first);
        proof {
            assert(seq![s@[0]] =~= s@.subrange(0, 1));
            assert(rest.deep_view() =~~= spec_split_crlf(s@));
        }
        rest
    } else {
        let mut r: Vec<String> = Vec::new();
        r.push(String::new());
        proof {
            assert(r.deep_view() =~~= spec_split_crlf(s@));
        }
        r
    }
}

/// The pieces of `s`, split on every occurrence of the separator `sep`.
/// Splitting the empty sequence gives one empty piece.
pub open spec fn spec_split_char(s: Seq<char>, sep: char) -> Seq<Seq<char>>
    decreases s.len(),
{
    if s.len() == 0 {
        seq![Seq::<char>::empty()]
    } else if s[0] == sep {
        seq![Seq::<char>::empty()] + spec_split_char(s.subrange(1, s.len() as int), sep)
    } else {
        prepend_first(s[0], spec_split_char(s.subrange(1, s.len() as int), sep))
    }
}

pub proof fn lemma_split_char_nonempty(s: Seq<char>, sep: char)
    ensures
        spec_split_char(s, sep).len() >= 1,
    decreases s.len(),
{
    if s.len() > 0 {
        lemma_split_char_nonempty(s.subrange(1, s.len() as int), sep);
    }
}

/// Splits `s` on a separator character, exact with respect to
/// [`spec_split_char`].
pub fn split_char(s: &str, sep: char) -> (r: Vec<String>)
    ensures
        r.deep_view() == spec_split_char(s@, sep),
        r.len() >= 1,
    decreases s@.len(),
{
    let n = s.unicode_len();
    if n == 0 {
        let mut r: Vec<String> = Vec::new();
        r.push(String::new());
        proof {
            assert(r.deep_view() =~~= spec_split_char(s@, sep));
        }
        r
    } else if s.get_char(0) == sep {
        let mut rest = split_char(s.substring_char(1, n), sep);
        rest.insert(0, String::new());
        proof {
            assert(rest.deep_view() =~~= spec_split_char(s@, sep));
        }
        rest
    } else {
        let mut rest = split_char(s.substring_char(1, n), sep);
        proof {
            lemma_split_char_nonempty(s@.subrange(1, s@.len() as int), sep);
        }
        let head = rest.remove(0);
        let mut first = s.substring_char(0, 1).to_owned();
        first.append(head.as_str());
        rest.insert(0, first);
        proof {
            assert(seq![s@[0]] =~= s@.subrange(0, 1));
            assert(rest.deep_view() =~~= spec_split_char(s@, sep));
        }
        rest
    }
}

/// ASCII whitespace, the separators recognized in a request line.
pub open spec fn is_space(c: char) -> bool {
    c == ' ' || c == '\t' || c == '\n' || c == '\r' || c == '\u{b}' || c == '\u{c}'
}

/// The whitespace-separated tokens of `s`, in order; runs of whitespace
/// separate tokens and contribute nothing themselves.
pub open spec fn spec_tokens(s: Seq<char>) -> Seq<Seq<char>>
    decreases s.len(),
{
    if s.len() == 0 {
        Seq::<Seq<char>>::empty()
    } else if is_space(s[0]) {
        spec_tokens(s.subrange(1, s.len() as int))
    } else if s.len() >= 2 && !is_space(s[1]) {
        prepend_first(s[0], spec_tokens(s.subrange(1, s.len() as int)))
    } else {
        seq![seq![s[0]]] + spec_tokens(s.subrange(1, s.len() as int))
    }
}

pub proof fn lemma_tokens_nonempty(s: Seq<char>)
    requires
        s.len() > 0,
        !is_space(s[0]),
    ensures
        spec_tokens(s).len() >= 1,
    decreases s.len(),
{
    if s.len() >= 2 && !is_space(s[1]) {
        lemma_tokens_nonempty(s.subrange(1, s.len() as int));
    }
}

fn char_is_space(c: char) -> (r: bool)
    ensures
        r == is_space(c),
{
    c == ' ' || c == '\t' || c == '\n' || c == '\r' || c == '\u{b}' || c == '\u{c}'
}

/// Whitespace tokenization, exact with respect to [`spec_tokens`].
pub fn tokens(s: &str) -> (r: Vec<String>)
    ensures
        r.deep_view() == spec_tokens(s@),
    decreases s@.len(),
{
    let n = s.unicode_len();
    if n == 0 {
        let r: Vec<String> = Vec::new();
        proof {
            assert(r.deep_view() =~~= spec_tokens(s@));
        }
        r
    } else if char_is_space(s.get_char(0)) {
        let r = tokens(s.substring_char(1, n));
        proof {
            assert(r.deep_view() =~~= spec_tokens(s@));
        }
        r
    } else if n >= 2 && !char_is_space(s.get_char(1)) {
        let mut rest = tokens(s.substring_char(1, n));
        proof {
            assert(s@.subrange(1, s@.len() as int)[0] == s@[1]);
            lemma_tokens_nonempty(s@.subrange(1, s@.len() as int));
        }
        let head = rest.remove(0);
        let mut first = s.substring_char(0, 1).to_owned();
        first.append(head.as_str());
        rest.insert(0, first);
        proof {
            assert(seq![s@[0]] =~= s@.subrange(0, 1));
            assert(rest.deep_view() =~~= spec_tokens(s@));
        }
        rest
    } else {
        let mut rest = tokens(s.substring_char(1, n));
        let first = s.substring_char(0, 1).to_owned();
        rest.insert(0, first);
        proof {
            assert(seq![s@[0]] =~= s@.subrange(0, 1));
            assert(rest.deep_view() =~~= spec_tokens(s@));
        }
        rest
    }
}

/// Splitting a line, the terminator, and a remainder yields the line and
/// then the remainder's lines, provided the line holds no `\r`.
pub proof fn lemma_split_crlf_line(line: Seq<char>, rest: Seq<char>)
    requires
        forall|i: int| 0 <= i < line.len() ==> line[i] != '\r',
    ensures
        spec_split_crlf(line + seq!['\r', '\n'] + rest) == seq![line] + spec_split_crlf(rest),
    decreases line.len(),
{
    let s = line + seq!['\r', '\n'] + rest;
    if line.len() == 0 {
        assert(s[0] == '\r' && s[1] == '\n');
        assert(s.subrange(2, s.len() as int) =~= rest);
        assert(spec_split_crlf(s) =~~= seq![line] + spec_split_crlf(rest));
    } else {
        assert(s[0] == line[0]);
        assert(!(s.len() >= 2 && s[0] == '\r' && s[1] == '\n'));
        let s1 = line.drop_first() + seq!['\r', '\n'] + rest;
        assert(s.subrange(1, s.len() as int) =~= s1);
        lemma_split_crlf_line(line.drop_first(), rest);
        lemma_split_crlf_nonempty(rest);
        assert(seq![line[0]] + line.drop_first() =~= line);
        assert(spec_split_crlf(s) =~~= seq![line] + spec_split_crlf(rest));
    }
}

/// Splitting a separator-free piece, a separator, and a remainder yields
/// the piece and then the remainder's pieces.
pub proof fn lemma_split_char_seg(a: Seq<char>, sep: char, b: Seq<char>)
    requires
        forall|i: int| 0 <= i < a.len() ==> a[i] != sep,
    ensures
        spec_split_char(a + seq![sep] + b, sep) == seq![a] + spec_split_char(b, sep),
    decreases a.len(),
{
    let s = a + seq![sep] + b;
    if a.len() == 0 {
        assert(s[0] == sep);
        assert(s.subrange(1, s.len() as int) =~= b);
        assert(spec_split_char(s, sep) =~~= seq![a] + spec_split_char(b, sep));
    } else {
        assert(s[0] == a[0]);
        let s1 = a.drop_first() + seq![sep] + b;
        assert(s.subrange(1, s.len() as int) =~= s1);
        lemma_split_char_seg(a.drop_first(), sep, b);
        lemma_split_char_nonempty(b, sep);
        assert(seq![a[0]] + a.drop_first() =~= a);
        assert(spec_split_char(s, sep) =~~= seq![a] + spec_split_char(b, sep));
    }
}

/// Splitting a separator-free sequence yields that sequence alone.
pub proof fn lemma_split_char_whole(s: Seq<char>, sep: char)
    requires
        forall|i: int| 0 <= i < s.len() ==> s[i] != sep,
    ensures
        spec_split_char(s, sep) == seq![s],
    decreases s.len(),
{
    if s.len() > 0 {
        assert(s.subrange(1, s.len() as int) =~= s.drop_first());
        lemma_split_char_whole(s.drop_first(), sep);
        assert(seq![s[0]] + s.drop_first() =~= s);
        assert(spec_split_char(s, sep) =~~= seq![s]);
    } else {
        assert(s =~= Seq::<char>::empty());
        assert(spec_split_char(s, sep) =~~= seq![s]);
    }
}

/// A whitespace-free word followed by whitespace (or nothing) tokenizes to
/// that word and then the remainder's tokens.
pub proof fn lemma_tokens_word(w: Seq<char>, rest: Seq<char>)
    requires
        w.len() > 0,
        forall|i: int| 0 <= i < w.len() ==> !is_space(w[i]),
        rest.len() == 0 || is_space(rest[0]),
    ensures
        spec_tokens(w + rest) == seq![w] + spec_tokens(rest),
    decreases w.len(),
{
    let s = w + rest;
    assert(s[0] == w[0]);
    let s1 = w.drop_first() + rest;
    assert(s.subrange(1, s.len() as int) =~= s1);
    if w.len() == 1 {
        assert(w.drop_first() + rest =~= rest);
        if s.len() >= 2 {
            assert(s[1] == rest[0]);
        }
        assert(seq![s[0]] =~= w);
        assert(spec_tokens(s) =~~= seq![w] + spec_tokens(rest));
    } else {
        assert(s[1] == w[1]);
        lemma_tokens_word(w.drop_first(), rest);
        lemma_tokens_nonempty(s1);
        assert(seq![w[0]] + w.drop_first() =~= w);
        assert(spec_tokens(s) =~~= seq![w] + spec_tokens(rest));
    }
}

/// A leading whitespace character contributes no token.
pub proof fn lemma_tokens_space(c: char, rest: Seq<char>)
    requires
        is_space(c),
    ensures
        spec_tokens(seq![c] + rest) == spec_tokens(rest),
{
    let s = seq![c] + rest;
    assert(s.subrange(1, s.len() as int) =~= rest);
}

/// A line of exactly three whitespace-free tokens, separated by single
/// spaces, tokenizes to exactly those three tokens.
pub proof fn lemma_tokens_three(m: Seq<char>, t: Seq<char>, v: Seq<char>)
    requires
        m.len() > 0 && t.len() > 0 && v.len() > 0,
        forall|i: int| 0 <= i < m.len() ==> !is_space(m[i]),
        forall|i: int| 0 <= i < t.len() ==> !is_space(t[i]),
        forall|i: int| 0 <= i < v.len() ==> !is_space(v[i]),
    ensures
        spec_tokens(m + " "@ + t + " "@ + v) == seq![m, t, v],
{
    reveal_strlit(" ");
    assert(" "@ =~= seq![' ']);
    let line = m + " "@ + t + " "@ + v;
    let after_m = seq![' '] + (t + (seq![' '] + v));
    assert(line =~= m + after_m);
    lemma_tokens_word(m, after_m);
    lemma_tokens_space(' ', t + (seq![' '] + v));
    lemma_tokens_word(t, seq![' '] + v);
    lemma_tokens_space(' ', v);
    lemma_tokens_word(v, Seq::<char>::empty());
    assert(v + Seq::<char>::empty() =~= v);
    assert(spec_tokens(line) =~~= seq![m, t, v]);
}

/// An ASCII decimal digit.
pub open spec fn is_digit(c: char) -> bool {
    48 <= c as u32 <= 57
}

/// The numeric value of an ASCII digit.
pub open spec fn digit_val(c: char) -> nat {
    (c as u32 - 48) as nat
}

/// Every character of `s` is an ASCII digit.
pub open spec fn all_digits(s: Seq<char>) -> bool {
    forall|i: int| 0 <= i < s.len() ==> is_digit(s[i])
}

/// The value of a sequence of decimal digits, most significant first.
pub open spec fn spec_digits_val(s: Seq<char>) -> nat
    decreases s.len(),
{
    if s.len() == 0 {
        0
    } else {
        spec_digits_val(s.take(s.len() - 1)) * 10 + digit_val(s[s.len() - 1])
    }
}

proof fn lemma_digits_val_monotone(s: Seq<char>, i: int)
    requires
        0 <= i <= s.len(),
    ensures
        spec_digits_val(s) >= spec_digits_val(s.take(i)),
    decreases s.len() - i,
{
    if i < s.len() {
        lemma_digits_val_monotone(s, i + 1);
        assert(s.take(i + 1).take(i) =~= s.take(i));
        assert(spec_digits_val(s.take(i + 1)) == spec_digits_val(s.take(i)) * 10 + digit_val(
            s.take(i + 1)[i],
        ));
    } else {
        assert(s.take(i) =~= s);
    }
}

/// Parses `s` as an unsigned decimal number.  Returns the value exactly
/// when `s` is a nonempty, all-digit string whose value fits in `usize`,
/// and nothing otherwise.
pub fn parse_usize(s: &str) -> (r: Option<usize>)
    ensures
        match r {
            Some(v) => s@.len() > 0 && all_digits(s@) && spec_digits_val(s@) == v as nat,
            None => s@.len() == 0 || !all_digits(s@) || spec_digits_val(s@) > usize::MAX as nat,
        },
{
    let n = s.unicode_len();
    if n == 0 {
        return None;
    }
    let mut acc: usize = 0;
    let mut i: usize = 0;
    while i < n
        invariant
            n == s@.len(),
            i <= n,
            forall|j: int| 0 <= j < i ==> is_digit(s@[j]),
            acc as nat == spec_digits_val(s@.take(i as int)),
        decreases n - i,
    {
        let c = s.get_char(i);
        let u = c as u32;
        if u < 48 || u > 57 {
            proof {
                assert(!is_digit(s@[i as int]));
            }
            return None;
        }
        let d = (u - 48) as usize;
        let next: u128 = (acc as u128) * 10 + (d as u128);
        proof {
            assert(s@.take(i + 1).take(i as int) =~= s@.take(i as int));
            assert(spec_digits_val(s@.take(i + 1)) == spec_digits_val(s@.take(i as int)) * 10
                + digit_val(s@.take(i + 1)[i as int]));
        }
        if next > usize::MAX as u128 {
            proof {
                if all_digits(s@) {
                    lemma_digits_val_monotone(s@, i + 1);
                }
            }
            return None;
        }
        acc = next as usize;
        i += 1;
    }
    proof {
        assert(s@.take(n as int) =~= s@);
    }
    Some(acc)
}

/// The character standing for one decimal digit.
pub open spec fn char_of_digit(d: nat) -> char {
    if d == 0 {
        '0'
    } else if d == 1 {
        '1'
    } else if d == 2 {
        '2'
    } else if d == 3 {
        '3'
    } else if d == 4 {
        '4'
    } else if d == 5 {
        '5'
    } else if d == 6 {
        '6'
    } else if d == 7 {
        '7'
    } else if d == 8 {
        '8'
    } else {
        '9'
    }
}

/// The decimal digit characters of `n`, most significant first, with no
/// leading zeros (the number zero is the single character `0`).
pub open spec fn spec_num_chars(n: nat) -> Seq<char>
    decreases n,
{
    if n < 10 {
        seq![char_of_digit(n)]
    } else {
        spec_num_chars(n / 10) + seq![char_of_digit(n % 10)]
    }
}

fn digit_str(d: usize) -> (r: &'static str)
    requires
        d < 10,
    ensures
        r@ == seq![char_of_digit(d as nat)],
{
    proof {
        reveal_strlit("0");
        reveal_strlit("1");
        reveal_strlit("2");
        reveal_strlit("3");
        reveal_strlit("4");
        reveal_strlit("5");
        reveal_strlit("6");
        reveal_strlit("7");
        reveal_strlit("8");
        reveal_strlit("9");
    }
    let r = match d {
        0 => "0",
        1 => "1",
        2 => "2",
        3 => "3",
        4 => "4",
        5 => "5",
        6 => "6",
        7 => "7",
        8 => "8",
        _ => "9",
    };
    proof {
        assert(r@ =~= seq![char_of_digit(d as nat)]);
    }
    r
}

/// Formats `n` in decimal, exact with respect to [`spec_num_chars`].
pub fn usize_to_string(n: usize) -> (r: String)
    ensures
        r@ == spec_num_chars(n as nat),
    decreases n,
{
    if n < 10 {
        digit_str(n).to_owned()
    } else {
        proof {
            assert(n / 10 < n) by (nonlinear_arith)
                requires
                    n >= 10,
            ;
        }
        let mut r = usize_to_string(n / 10);
        r.append(digit_str(n % 10));
        r
    }
}

/// The UTF-8 byte length of a character sequence, clipped to the machine
/// word; exact for every string that fits in memory.
pub open spec fn byte_len(s: Seq<char>) -> nat {
    (vstd::utf8::encode_utf8(s).len() as usize) as nat
}

/// The byte length of a string slice, exact with respect to [`byte_len`].
pub fn str_byte_len(s: &str) -> (r: usize)
    ensures
        r as nat == byte_len(s@),
{
    s.len()
}

} // verus!
