//! Character-level text helpers shared by the command checks and renderers.
//!
//! Strings are modelled by their character sequences (`s@`). The helpers here
//! give verified counterparts of the few `str` operations the library relies
//! on (trimming, ASCII lower-casing, prefix and substring tests, decimal
//! parsing and printing), each stated against a short specification.
use vstd::prelude::*;
use vstd::std_specs::iter::IteratorSpec;

verus! {

broadcast use vstd::string::group_string_axioms;

/// An optional string by its text.
pub open spec fn opt_text(s: Option<String>) -> Option<Seq<char>> {
    match s {
        Some(x) => Some(x@),
        None => None,
    }
}

/// The characters of `s`, in order.
pub fn to_chars(s: &str) -> (out: Vec<char>)
    ensures
        out@ == s@,
{
    let mut out: Vec<char> = Vec::new();
    for c in it: s.chars()
        invariant
            it.seq() == s@,
            out@ == it.seq().take(it.index() as int),
    {
        out.push(c);
    }
    out
}

/// Appends one character to a string (`String::push`).
#[verifier::external_body]
pub fn push_char(s: &mut String, c: char)
    ensures
        final(s)@ == old(s)@.push(c),
{
    s.push(c);
}

/// Appends the characters `chars[from..to]` to `out`.
pub fn push_chars(out: &mut String, chars: &[char], from: usize, to: usize)
    requires
        from <= to <= chars@.len(),
    ensures
        final(out)@ == old(out)@ + chars@.subrange(from as int, to as int),
{
    let mut i = from;
    while i < to
        invariant
            from <= i <= to <= chars@.len(),
            out@ == old(out)@ + chars@.subrange(from as int, i as int),
        decreases to - i,
    {
        assert(chars@.subrange(from as int, i + 1) =~= chars@.subrange(from as int, i as int).push(
            chars@[i as int],
        ));
        push_char(out, chars[i]);
        i = i + 1;
    }
}

/// A string holding exactly the characters of `chars`.
pub fn string_from_chars(chars: &[char]) -> (s: String)
    ensures
        s@ == chars@,
{
    let mut s = String::new();
    push_chars(&mut s, chars, 0, chars.len());
    assert(chars@.subrange(0, chars@.len() as int) =~= chars@);
    s
}

/// The Unicode `White_Space` characters, as recognised by `char::is_whitespace`.
pub open spec fn is_space(c: char) -> bool {
    let v = c as u32;
    ||| 9 <= v <= 13
    ||| v == 32
    ||| v == 0x85
    ||| v == 0xa0
    ||| v == 0x1680
    ||| 0x2000 <= v <= 0x200a
    ||| v == 0x2028
    ||| v == 0x2029
    ||| v == 0x202f
    ||| v == 0x205f
    ||| v == 0x3000
}

/// `s` without its leading whitespace.
pub open spec fn trim_start(s: Seq<char>) -> Seq<char>
    decreases s.len(),
{
    if s.len() > 0 && is_space(s[0]) {
        trim_start(s.drop_first())
    } else {
        s
    }
}

/// `s` without its trailing whitespace.
pub open spec fn trim_end(s: Seq<char>) -> Seq<char>
    decreases s.len(),
{
    if s.len() > 0 && is_space(s.last()) {
        trim_end(s.drop_last())
    } else {
        s
    }
}

/// `s` without leading and trailing whitespace (`str::trim`).
pub open spec fn trim(s: Seq<char>) -> Seq<char> {
    trim_end(trim_start(s))
}

/// ASCII lower-casing of one character (`char::to_ascii_lowercase`).
pub open spec fn lower_char(c: char) -> char {
    if 65 <= c as u32 <= 90 {
        ((c as u32) + 32) as char
    } else {
        c
    }
}

/// ASCII lower-casing of a text (`str::to_ascii_lowercase`).
pub open spec fn ascii_lower(s: Seq<char>) -> Seq<char> {
    s.map_values(|c: char| lower_char(c))
}

/// `p` is a prefix of `s`.
pub open spec fn has_prefix(s: Seq<char>, p: Seq<char>) -> bool {
    p.len() <= s.len() && s.take(p.len() as int) == p
}

/// `p` occurs in `s` at position `i`.
pub open spec fn occurs_at(s: Seq<char>, p: Seq<char>, i: int) -> bool {
    0 <= i && i + p.len() <= s.len() && s.subrange(i, i + p.len()) == p
}

/// `p` occurs somewhere in `s` (`str::contains` with a string pattern).
pub open spec fn has_infix(s: Seq<char>, p: Seq<char>) -> bool {
    exists|i: int| occurs_at(s, p, i)
}

proof fn lemma_trim_start_skip(s: Seq<char>, i: int)
    requires
        0 <= i < s.len(),
        is_space(s[i]),
    ensures
        trim_start(s.skip(i)) == trim_start(s.skip(i + 1)),
{
    assert(s.skip(i).drop_first() =~= s.skip(i + 1));
}

proof fn lemma_trim_end_take(s: Seq<char>, j: int)
    requires
        0 < j <= s.len(),
        is_space(s[j - 1]),
    ensures
        trim_end(s.take(j)) == trim_end(s.take(j - 1)),
{
    assert(s.take(j).drop_last() =~= s.take(j - 1));
}

/// Whitespace test for one character (`char::is_whitespace`).
pub fn char_is_space(c: char) -> (b: bool)
    ensures
        b == is_space(c),
{
    let v = c as u32;
    (9 <= v && v <= 13) || v == 32 || v == 0x85 || v == 0xa0 || v == 0x1680 || (0x2000 <= v && v
        <= 0x200a) || v == 0x2028 || v == 0x2029 || v == 0x202f || v == 0x205f || v == 0x3000
}

/// The characters of `s` without leading and trailing whitespace.
pub fn trim_chars(s: &[char]) -> (out: Vec<char>)
    ensures
        out@ == trim(s@),
{
    let n = s.len();
    let mut i: usize = 0;
    assert(s@.skip(0) =~= s@);
    while i < n && char_is_space(s[i])
        invariant
            i <= n == s@.len(),
            trim_start(s@) == trim_start(s@.skip(i as int)),
        decreases n - i,
    {
        proof {
            lemma_trim_start_skip(s@, i as int);
        }
        i = i + 1;
    }
    let ghost rest = s@.skip(i as int);
    assert(trim_start(s@) == rest) by {
        if rest.len() > 0 {
            assert(rest[0] == s@[i as int]);
        }
    }
    let mut j: usize = n;
    assert(rest.take(n - i) =~= rest);
    while j > i && char_is_space(s[j - 1])
        invariant
            i <= j <= n == s@.len(),
            rest == s@.skip(i as int),
            trim_end(rest) == trim_end(rest.take(j - i)),
        decreases j,
    {
        proof {
            lemma_trim_end_take(rest, (j - i) as int);
        }
        j = j - 1;
    }
    assert(trim_end(rest.take(j - i)) == rest.take(j - i)) by {
        let t = rest.take(j - i);
        if t.len() > 0 {
            assert(t.last() == s@[j - 1]);
        }
    }
    let mut out: Vec<char> = Vec::new();
    let mut k = i;
    while k < j
        invariant
            i <= k <= j <= n == s@.len(),
            out@ == s@.subrange(i as int, k as int),
        decreases j - k,
    {
        out.push(s[k]);
        assert(out@ =~= s@.subrange(i as int, k + 1));
        k = k + 1;
    }
    assert(rest.take(j - i) =~= s@.subrange(i as int, j as int));
    out
}

/// ASCII lower-casing of one character.
pub fn lower_ascii_char(c: char) -> (r: char)
    ensures
        r == lower_char(c),
{
    if 'A' <= c && c <= 'Z' {
        let v: u32 = (c as u32) + 32;
        let b: u8 = v as u8;
        b as char
    } else {
        c
    }
}

/// ASCII lower-casing of a character sequence.
pub fn lower_ascii(s: &[char]) -> (out: Vec<char>)
    ensures
        out@ == ascii_lower(s@),
{
    let mut out: Vec<char> = Vec::new();
    let mut i: usize = 0;
    while i < s.len()
        invariant
            i <= s@.len(),
            out@ == ascii_lower(s@.take(i as int)),
        decreases s@.len() - i,
    {
        let c = lower_ascii_char(s[i]);
        out.push(c);
        assert(out@ =~= ascii_lower(s@.take(i + 1)));
        i = i + 1;
    }
    assert(s@.take(s@.len() as int) =~= s@);
    out
}

/// Whether `p` is a prefix of `s`.
pub fn starts_with(s: &[char], p: &[char]) -> (b: bool)
    ensures
        b == has_prefix(s@, p@),
{
    if p.len() > s.len() {
        return false;
    }
    let mut i: usize = 0;
    while i < p.len()
        invariant
            p@.len() <= s@.len(),
            i <= p@.len(),
            forall|k: int| 0 <= k < i ==> s@[k] == p@[k],
        decreases p@.len() - i,
    {
        if s[i] != p[i] {
            assert(s@.take(p@.len() as int)[i as int] != p@[i as int]);
            return false;
        }
        i = i + 1;
    }
    assert(s@.take(p@.len() as int) =~= p@);
    true
}

/// Whether `p` occurs in `s` at position `at`.
fn matches_at(s: &[char], p: &[char], at: usize) -> (b: bool)
    requires
        at + p@.len() <= s@.len(),
    ensures
        b == occurs_at(s@, p@, at as int),
{
    let mut i: usize = 0;
    while i < p.len()
        invariant
            at + p@.len() <= s@.len(),
            s@.len() == s.len(),
            i <= p@.len(),
            forall|k: int| 0 <= k < i ==> s@[at + k] == p@[k],
        decreases p@.len() - i,
    {
        if s[at + i] != p[i] {
            assert(s@.subrange(at as int, at + p@.len())[i as int] != p@[i as int]);
            return false;
        }
        i = i + 1;
    }
    assert(s@.subrange(at as int, at + p@.len()) =~= p@);
    true
}

/// Whether `p` occurs anywhere in `s`.
pub fn contains(s: &[char], p: &[char]) -> (b: bool)
    ensures
        b == has_infix(s@, p@),
{
    if p.len() > s.len() {
        return false;
    }
    if p.len() == 0 {
        assert(s@.subrange(0, 0) =~= p@);
        assert(occurs_at(s@, p@, 0));
        return true;
    }
    let last = s.len() - p.len();
    let mut i: usize = 0;
    while i <= last
        invariant
            last + p@.len() == s@.len(),
            s@.len() == s.len(),
            p@.len() > 0,
            i <= last + 1,
            forall|k: int| 0 <= k < i ==> !occurs_at(s@, p@, k),
        decreases last + 1 - i,
    {
        if matches_at(s, p, i) {
            return true;
        }
        i = i + 1;
    }
    false
}


/// An ASCII decimal digit.
pub open spec fn is_digit(c: char) -> bool {
    48 <= c as u32 <= 57
}

/// The value of an ASCII decimal digit.
pub open spec fn digit_value(c: char) -> int {
    c as u32 - 48
}

/// The number written by a sequence of decimal digits.
pub open spec fn decimal_value(s: Seq<char>) -> int
    decreases s.len(),
{
    if s.len() == 0 {
        0
    } else {
        10 * decimal_value(s.drop_last()) + digit_value(s.last())
    }
}

/// Every character of `s` is a decimal digit.
pub open spec fn all_digits(s: Seq<char>) -> bool {
    forall|i: int| 0 <= i < s.len() ==> is_digit(#[trigger] s[i])
}

/// The digits of `s` once one leading `+` sign is removed.
pub open spec fn unsigned_digits(s: Seq<char>) -> Seq<char> {
    if s.len() > 0 && s[0] == '+' {
        s.drop_first()
    } else {
        s
    }
}

/// What `str::parse::<u64>` gives back: an optional `+`, then at least one
/// decimal digit and nothing else, with a value that fits in 64 bits.
pub open spec fn parse_u64(s: Seq<char>) -> Option<u64> {
    let d = unsigned_digits(s);
    if d.len() > 0 && all_digits(d) && decimal_value(d) <= u64::MAX {
        Some(decimal_value(d) as u64)
    } else {
        None
    }
}

proof fn lemma_decimal_value_grows(s: Seq<char>, i: int)
    requires
        all_digits(s),
        0 <= i <= s.len(),
    ensures
        0 <= decimal_value(s.take(i)) <= decimal_value(s),
    decreases s.len() - i,
{
    if i == s.len() {
        assert(s.take(i) =~= s);
        lemma_decimal_value_nonneg(s);
    } else {
        lemma_decimal_value_grows(s, i + 1);
        assert(s.take(i + 1).drop_last() =~= s.take(i));
        lemma_decimal_value_nonneg(s.take(i));
    }
}

proof fn lemma_decimal_value_nonneg(s: Seq<char>)
    requires
        all_digits(s),
    ensures
        decimal_value(s) >= 0,
    decreases s.len(),
{
    if s.len() > 0 {
        assert(all_digits(s.drop_last()));
        lemma_decimal_value_nonneg(s.drop_last());
    }
}

/// Decimal parsing of an unsigned 64-bit number (`str::parse::<u64>`).
pub fn parse_u64_chars(s: &[char]) -> (r: Option<u64>)
    ensures
        r == parse_u64(s@),
{
    let start: usize = if s.len() > 0 && s[0] == '+' {
        1
    } else {
        0
    };
    let ghost d = unsigned_digits(s@);
    assert(d =~= s@.skip(start as int));
    if start == s.len() {
        return None;
    }
    let mut acc: u64 = 0;
    let mut i: usize = start;
    while i < s.len()
        invariant
            start <= i <= s@.len(),
            d == s@.skip(start as int),
            d == unsigned_digits(s@),
            all_digits(d.take(i - start)),
            acc == decimal_value(d.take(i - start)),
        decreases s@.len() - i,
    {
        let c = s[i];
        let cv = c as u32;
        assert(d[i - start] == c);
        if cv < 48 || cv > 57 {
            assert(!is_digit(d[i - start]));
            assert(!all_digits(d));
            return None;
        }
        let digit: u64 = (cv - 48) as u64;
        let k: usize = i - start;
        assert(d.take(k + 1).drop_last() =~= d.take(k as int));
        assert(d.take(k + 1).last() == c);
        assert(all_digits(d.take(k + 1)));
        assert(decimal_value(d.take(k + 1)) == 10 * acc + digit);
        match acc.checked_mul(10) {
            None => {
                proof {
                    if all_digits(d) {
                        lemma_decimal_value_grows(d, k + 1);
                    }
                }
                return None;
            }
            Some(m) => match m.checked_add(digit) {
                None => {
                    proof {
                        if all_digits(d) {
                            lemma_decimal_value_grows(d, k + 1);
                        }
                    }
                    return None;
                }
                Some(v) => {
                    acc = v;
                }
            },
        }
        i = i + 1;
    }
    assert(d.take(s@.len() - start) =~= d);
    Some(acc)
}

/// The digit character for `d < 10`.
pub open spec fn digit_char(d: nat) -> char {
    (d + 48) as char
}

/// The decimal notation of `n`, without sign or leading zeros.
pub open spec fn decimal_text(n: nat) -> Seq<char>
    decreases n,
{
    if n < 10 {
        seq![digit_char(n)]
    } else {
        decimal_text(n / 10).push(digit_char(n % 10))
    }
}

/// Appends the decimal notation of `n` to `out`.
pub fn push_decimal(out: &mut String, n: u64)
    ensures
        final(out)@ == old(out)@ + decimal_text(n as nat),
    decreases n,
{
    if n >= 10 {
        push_decimal(out, n / 10);
    }
    let d: u8 = (n % 10) as u8;
    let c: char = (d + 48) as char;
    push_char(out, c);
}

/// Decimal notation reads back as the number it writes: for every `n`,
/// `parse_u64` of the decimal text of `n` is `n`.
pub proof fn lemma_decimal_round_trip(n: u64)
    ensures
        parse_u64(decimal_text(n as nat)) == Some(n),
{
    lemma_decimal_text_digits(n as nat);
    let s = decimal_text(n as nat);
    assert(unsigned_digits(s) == s);
}

proof fn lemma_decimal_text_digits(n: nat)
    ensures
        decimal_text(n).len() > 0,
        all_digits(decimal_text(n)),
        decimal_value(decimal_text(n)) == n,
    decreases n,
{
    if n < 10 {
        let s = decimal_text(n);
        assert(s.drop_last() =~= Seq::<char>::empty());
        assert(decimal_value(s.drop_last()) == 0);
        assert(s.last() == digit_char(n));
        assert(digit_value(digit_char(n)) == n);
        assert(is_digit(s[0]));
    } else {
        lemma_decimal_text_digits(n / 10);
        let s = decimal_text(n);
        let d = (n % 10) as nat;
        assert(s.drop_last() =~= decimal_text(n / 10));
        assert(s.last() == digit_char(d));
        assert(digit_value(digit_char(d)) == d);
        assert(10 * (n / 10) + d == n);
        assert(decimal_value(s) == 10 * decimal_value(decimal_text(n / 10)) + digit_value(s.last()));
        assert forall|i: int| 0 <= i < s.len() implies is_digit(#[trigger] s[i]) by {
            if i < s.len() - 1 {
                assert(s[i] == decimal_text(n / 10)[i]);
            }
        }
    }
}

/// Decimal text has no surrounding whitespace.
pub proof fn lemma_decimal_text_trimmed(n: nat)
    ensures
        trim(decimal_text(n)) == decimal_text(n),
{
    lemma_decimal_text_digits(n);
    let s = decimal_text(n);
    assert(!is_space(s[0])) by {
        assert(is_digit(s[0]));
    }
    assert(trim_start(s) == s);
    assert(!is_space(s.last())) by {
        assert(is_digit(s[s.len() - 1]));
    }
}

/// Every character of `s` is whitespace.
pub open spec fn all_space(s: Seq<char>) -> bool {
    forall|i: int| 0 <= i < s.len() ==> is_space(#[trigger] s[i])
}

proof fn lemma_trim_start_skips_padding(pre: Seq<char>, x: Seq<char>)
    requires
        all_space(pre),
    ensures
        trim_start(pre + x) == trim_start(x),
    decreases pre.len(),
{
    if pre.len() > 0 {
        assert((pre + x)[0] == pre[0]);
        assert((pre + x).drop_first() =~= pre.drop_first() + x);
        lemma_trim_start_skips_padding(pre.drop_first(), x);
    } else {
        assert(pre + x =~= x);
    }
}

proof fn lemma_trim_end_skips_padding(y: Seq<char>, post: Seq<char>)
    requires
        all_space(post),
    ensures
        trim_end(y + post) == trim_end(y),
    decreases post.len(),
{
    if post.len() > 0 {
        assert((y + post).last() == post.last());
        assert((y + post).drop_last() =~= y + post.drop_last());
        lemma_trim_end_skips_padding(y, post.drop_last());
    } else {
        assert(y + post =~= y);
    }
}

proof fn lemma_trim_start_of_padded(s: Seq<char>, post: Seq<char>)
    requires
        all_space(post),
    ensures
        trim_start(s).len() > 0 ==> trim_start(s + post) == trim_start(s) + post,
        trim_start(s).len() == 0 ==> trim_start(s + post) == trim_start(post),
    decreases s.len(),
{
    if s.len() == 0 {
        assert(s + post =~= post);
    } else if is_space(s[0]) {
        assert((s + post)[0] == s[0]);
        assert((s + post).drop_first() =~= s.drop_first() + post);
        lemma_trim_start_of_padded(s.drop_first(), post);
    } else {
        assert((s + post)[0] == s[0]);
    }
}

proof fn lemma_trim_start_all_space(s: Seq<char>)
    requires
        all_space(s),
    ensures
        trim_start(s).len() == 0,
    decreases s.len(),
{
    if s.len() > 0 {
        assert(all_space(s.drop_first()));
        lemma_trim_start_all_space(s.drop_first());
    }
}

/// Whitespace around a text does not change what `trim` leaves.
pub proof fn lemma_trim_ignores_padding(pre: Seq<char>, s: Seq<char>, post: Seq<char>)
    requires
        all_space(pre),
        all_space(post),
    ensures
        trim(pre + s + post) == trim(s),
{
    assert(pre + s + post =~= pre + (s + post));
    lemma_trim_start_skips_padding(pre, s + post);
    lemma_trim_start_of_padded(s, post);
    if trim_start(s).len() > 0 {
        lemma_trim_end_skips_padding(trim_start(s), post);
    } else {
        lemma_trim_start_all_space(post);
        assert(trim_start(post) =~= trim_start(s));
    }
}

/// `a` and `b` differ at most in the case of ASCII letters.
pub open spec fn same_but_case(a: Seq<char>, b: Seq<char>) -> bool {
    a.len() == b.len() && forall|i: int| 0 <= i < a.len() ==> lower_char(#[trigger] a[i]) == lower_char(b[i])
}

proof fn lemma_space_ignores_case(c: char, d: char)
    requires
        lower_char(c) == lower_char(d),
    ensures
        is_space(c) <==> is_space(d),
{
    let cu = 65 <= c as u32 <= 90;
    let du = 65 <= d as u32 <= 90;
    if cu {
        assert((((c as u32) + 32) as char) as u32 == (c as u32) + 32);
    }
    if du {
        assert((((d as u32) + 32) as char) as u32 == (d as u32) + 32);
    }
}

proof fn lemma_trim_start_ignores_case(a: Seq<char>, b: Seq<char>)
    requires
        same_but_case(a, b),
    ensures
        same_but_case(trim_start(a), trim_start(b)),
    decreases a.len(),
{
    if a.len() > 0 {
        lemma_space_ignores_case(a[0], b[0]);
        if is_space(a[0]) {
            assert(same_but_case(a.drop_first(), b.drop_first())) by {
                assert forall|i: int| 0 <= i < a.drop_first().len() implies lower_char(
                    #[trigger] a.drop_first()[i],
                ) == lower_char(b.drop_first()[i]) by {
                    assert(lower_char(a[i + 1]) == lower_char(b[i + 1]));
                }
            }
            lemma_trim_start_ignores_case(a.drop_first(), b.drop_first());
        }
    }
}

proof fn lemma_trim_end_ignores_case(a: Seq<char>, b: Seq<char>)
    requires
        same_but_case(a, b),
    ensures
        same_but_case(trim_end(a), trim_end(b)),
    decreases a.len(),
{
    if a.len() > 0 {
        assert(lower_char(a[a.len() - 1]) == lower_char(b[b.len() - 1]));
        lemma_space_ignores_case(a.last(), b.last());
        if is_space(a.last()) {
            assert(same_but_case(a.drop_last(), b.drop_last())) by {
                assert forall|i: int| 0 <= i < a.drop_last().len() implies lower_char(
                    #[trigger] a.drop_last()[i],
                ) == lower_char(b.drop_last()[i]) by {
                    assert(lower_char(a[i]) == lower_char(b[i]));
                }
            }
            lemma_trim_end_ignores_case(a.drop_last(), b.drop_last());
        }
    }
}

/// Texts that differ only in the case of ASCII letters lower-case, once
/// trimmed, to the same text.
pub proof fn lemma_lowered_ignores_case(a: Seq<char>, b: Seq<char>)
    requires
        same_but_case(a, b),
    ensures
        ascii_lower(trim(a)) == ascii_lower(trim(b)),
        trim(a).len() == trim(b).len(),
{
    lemma_trim_start_ignores_case(a, b);
    lemma_trim_end_ignores_case(trim_start(a), trim_start(b));
    let ta = trim(a);
    let tb = trim(b);
    assert(ascii_lower(ta) =~= ascii_lower(tb)) by {
        assert forall|i: int| 0 <= i < ta.len() implies ascii_lower(ta)[i] == ascii_lower(tb)[i] by {
            assert(lower_char(ta[i]) == lower_char(tb[i]));
        }
    }
}

} // verus!
