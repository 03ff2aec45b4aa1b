//! Text primitives shared by the configuration model, the wizard and the
//! monitor: whitespace classification, trimming, word splitting, decimal
//! rendering and parsing.

use vstd::prelude::*;

verus! {

/// Whether `c` has the Unicode `White_Space` property (what
/// `char::is_whitespace` tests).
pub open spec fn is_space(c: char) -> bool {
    let n = c as u32;
    ||| 0x09 <= n && n <= 0x0d
    ||| n == 0x20
    ||| n == 0x85
    ||| n == 0xa0
    ||| n == 0x1680
    ||| 0x2000 <= n && n <= 0x200a
    ||| n == 0x2028
    ||| n == 0x2029
    ||| n == 0x202f
    ||| n == 0x205f
    ||| n == 0x3000
}

/// Executable whitespace test.
pub fn is_space_char(c: char) -> (r: bool)
    ensures
        r == is_space(c),
{
    let n = c as u32;
    (0x09 <= n && n <= 0x0d) || n == 0x20 || n == 0x85 || n == 0xa0 || n == 0x1680 || (0x2000
        <= n && n <= 0x200a) || n == 0x2028 || n == 0x2029 || n == 0x202f || n == 0x205f || n
        == 0x3000
}

/// Appends one character to a string (`String::push`).
#[verifier::external_body]
pub(crate) fn push_char(s: &mut String, c: char)
    ensures
        final(s)@ == old(s)@.push(c),
{
    s.push(c)
}

/// Removes the last character of a string (`String::pop`): `None` when the
/// string is empty, else the last character, which leaves the string.
#[verifier::external_body]
pub(crate) fn pop_char(s: &mut String) -> (r: Option<char>)
    ensures
        old(s)@.len() == 0 ==> r is None && final(s)@ == old(s)@,
        old(s)@.len() > 0 ==> r == Some(old(s)@.last()) && final(s)@ == old(s)@.drop_last(),
{
    s.pop()
}

/// The characters of a string slice, in order.
pub fn chars_of(s: &str) -> (v: Vec<char>)
    ensures
        v@ == s@,
{
    let mut v: Vec<char> = Vec::new();
    for c in it: s.chars()
        invariant
            v@ == it.seq().take(it.index()),
    {
        v.push(c);
    }
    v
}

/// A string holding exactly the given characters.
pub fn string_of(v: &[char]) -> (s: String)
    ensures
        s@ == v@,
{
    let mut s = String::new();
    let mut i: usize = 0;
    while i < v.len()
        invariant
            i <= v@.len(),
            s@ == v@.take(i as int),
        decreases v@.len() - i,
    {
        push_char(&mut s, v[i]);
        assert(v@.take(i + 1) =~= v@.take(i as int).push(v@[i as int]));
        i = i + 1;
    }
    assert(v@.take(v@.len() as int) =~= v@);
    s
}

/// Appends the characters of `v` to `s`.
pub fn push_chars(s: &mut String, v: &[char])
    ensures
        final(s)@ == old(s)@ + v@,
{
    let mut i: usize = 0;
    while i < v.len()
        invariant
            i <= v@.len(),
            s@ == old(s)@ + v@.take(i as int),
        decreases v@.len() - i,
    {
        push_char(s, v[i]);
        assert(v@.take(i + 1) =~= v@.take(i as int).push(v@[i as int]));
        i = i + 1;
    }
    assert(v@.take(v@.len() as int) =~= v@);
}

/// Appends the characters of a string slice to `s`.
pub fn push_str(s: &mut String, t: &str)
    ensures
        final(s)@ == old(s)@ + t@,
{
    let v = chars_of(t);
    push_chars(s, v.as_slice());
}

/// Whether two character sequences are equal.
pub fn chars_eq(a: &[char], b: &[char]) -> (r: bool)
    ensures
        r == (a@ == b@),
{
    if a.len() != b.len() {
        return false;
    }
    let mut i: usize = 0;
    while i < a.len()
        invariant
            a@.len() == b@.len(),
            i <= a@.len(),
            forall|j: int| 0 <= j < i ==> a@[j] == b@[j],
        decreases a@.len() - i,
    {
        if a[i] != b[i] {
            return false;
        }
        i = i + 1;
    }
    assert(a@ =~= b@);
    true
}

/// Whether `s` ends with `suffix`.
pub open spec fn ends_with(s: Seq<char>, suffix: Seq<char>) -> bool {
    suffix.len() <= s.len() && s.subrange(s.len() - suffix.len(), s.len() as int) == suffix
}

/// Whether `s` starts with `prefix`.
pub open spec fn starts_with(s: Seq<char>, prefix: Seq<char>) -> bool {
    prefix.len() <= s.len() && s.subrange(0, prefix.len() as int) == prefix
}

/// Executable suffix test.
pub fn chars_end_with(s: &[char], suffix: &[char]) -> (r: bool)
    ensures
        r == ends_with(s@, suffix@),
{
    let n = s.len();
    if suffix.len() > n {
        return false;
    }
    let off = n - suffix.len();
    let mut i: usize = 0;
    while i < suffix.len()
        invariant
            n == s@.len(),
            off + suffix@.len() == s@.len(),
            i <= suffix@.len(),
            forall|j: int| 0 <= j < i ==> s@[off + j] == suffix@[j],
        decreases suffix@.len() - i,
    {
        if s[off + i] != suffix[i] {
            assert(s@.subrange(off as int, s@.len() as int)[i as int] != suffix@[i as int]);
            return false;
        }
        i = i + 1;
    }
    assert(s@.subrange(off as int, s@.len() as int) =~= suffix@);
    true
}

/// Executable prefix test.
pub fn chars_start_with(s: &[char], prefix: &[char]) -> (r: bool)
    ensures
        r == starts_with(s@, prefix@),
{
    if prefix.len() > s.len() {
        return false;
    }
    let mut i: usize = 0;
    while i < prefix.len()
        invariant
            prefix@.len() <= s@.len(),
            i <= prefix@.len(),
            forall|j: int| 0 <= j < i ==> s@[j] == prefix@[j],
        decreases prefix@.len() - i,
    {
        if s[i] != prefix[i] {
            assert(s@.subrange(0, prefix@.len() as int)[i as int] != prefix@[i as int]);
            return false;
        }
        i = i + 1;
    }
    assert(s@.subrange(0, prefix@.len() as int) =~= prefix@);
    true
}

// ── Trimming ────────────────────────────────────────────────────────────────

/// `s` without its leading whitespace.
pub open spec fn trim_start(s: Seq<char>) -> Seq<char>
    decreases s.len(),
{
    if s.len() > 0 && is_space(s[0]) {
        trim_start(s.drop_first())
    } else {
        s
    }
}

/// `s` without its trailing whitespace.
pub open spec fn trim_end(s: Seq<char>) -> Seq<char>
    decreases s.len(),
{
    if s.len() > 0 && is_space(s.last()) {
        trim_end(s.drop_last())
    } else {
        s
    }
}

/// `s` without leading and trailing whitespace (what `str::trim` gives).
pub open spec fn trim(s: Seq<char>) -> Seq<char> {
    trim_end(trim_start(s))
}

/// Every character of `s` is whitespace.
pub open spec fn all_space(s: Seq<char>) -> bool {
    forall|i: int| 0 <= i < s.len() ==> is_space(#[trigger] s[i])
}

proof fn lemma_trim_start_skip(s: Seq<char>, i: int)
    requires
        0 <= i <= s.len(),
        forall|j: int| 0 <= j < i ==> is_space(#[trigger] s[j]),
    ensures
        trim_start(s) == trim_start(s.subrange(i, s.len() as int)),
    decreases i,
{
    if i > 0 {
        assert(s.drop_first().subrange(i - 1, s.drop_first().len() as int) =~= s.subrange(
            i,
            s.len() as int,
        ));
        lemma_trim_start_skip(s.drop_first(), i - 1);
    } else {
        assert(s.subrange(0, s.len() as int) =~= s);
    }
}

proof fn lemma_trim_end_skip(s: Seq<char>, j: int)
    requires
        0 <= j <= s.len(),
        forall|k: int| j <= k < s.len() ==> is_space(#[trigger] s[k]),
    ensures
        trim_end(s) == trim_end(s.subrange(0, j)),
    decreases s.len() - j,
{
    if j < s.len() {
        assert(s.drop_last().subrange(0, j) =~= s.subrange(0, j));
        lemma_trim_end_skip(s.drop_last(), j);
    } else {
        assert(s.subrange(0, j) =~= s);
    }
}

/// Trimming leaves nothing exactly when every character is whitespace.
pub proof fn lemma_trim_empty_iff_all_space(s: Seq<char>)
    ensures
        (trim(s).len() == 0) == all_space(s),
    decreases s.len(),
{
    if s.len() > 0 {
        if is_space(s[0]) {
            lemma_trim_empty_iff_all_space(s.drop_first());
            assert(trim(s) == trim(s.drop_first()));
            if all_space(s.drop_first()) {
                assert forall|i: int| 0 <= i < s.len() implies is_space(#[trigger] s[i]) by {
                    if i > 0 {
                        assert(s[i] == s.drop_first()[i - 1]);
                    }
                }
            } else {
                let k = choose|k: int| 0 <= k < s.drop_first().len() && !is_space(s.drop_first()[k]);
                assert(s[k + 1] == s.drop_first()[k]);
            }
        } else {
            assert(trim_start(s) == s);
            lemma_trim_end_keeps_first(s);
        }
    }
}

proof fn lemma_trim_end_keeps_first(s: Seq<char>)
    requires
        s.len() > 0,
        !is_space(s[0]),
    ensures
        trim_end(s).len() > 0,
    decreases s.len(),
{
    if is_space(s.last()) {
        assert(s.len() > 1);
        assert(s.drop_last()[0] == s[0]);
        lemma_trim_end_keeps_first(s.drop_last());
    }
}

/// The characters of `s` without leading and trailing whitespace.
pub fn trim_chars(s: &[char]) -> (t: Vec<char>)
    ensures
        t@ == trim(s@),
{
    let n = s.len();
    let mut i: usize = 0;
    while i < n && is_space_char(s[i])
        invariant
            n == s@.len(),
            i <= n,
            forall|k: int| 0 <= k < i ==> is_space(#[trigger] s@[k]),
        decreases n - i,
    {
        i = i + 1;
    }
    proof {
        lemma_trim_start_skip(s@, i as int);
    }
    let mut j: usize = n;
    while j > i && is_space_char(s[j - 1])
        invariant
            n == s@.len(),
            i <= j <= n,
            forall|k: int| j <= k < n ==> is_space(#[trigger] s@[k]),
        decreases j,
    {
        j = j - 1;
    }
    let ghost rest = s@.subrange(i as int, n as int);
    proof {
        if i < n {
            assert(rest[0] == s@[i as int]);
            assert(!is_space(rest[0]));
            assert(trim_start(rest) == rest);
        } else {
            assert(rest.len() == 0);
        }
        assert forall|k: int| (j - i) <= k < rest.len() implies is_space(#[trigger] rest[k]) by {
            assert(rest[k] == s@[k + i]);
        }
        lemma_trim_end_skip(rest, (j - i) as int);
        assert(rest.subrange(0, (j - i) as int) =~= s@.subrange(i as int, j as int));
        if j > i {
            let u = s@.subrange(i as int, j as int);
            assert(u.last() == s@[j - 1]);
            assert(trim_end(u) == u);
        } else {
            assert(s@.subrange(i as int, j as int).len() == 0);
        }
    }
    let mut t: Vec<char> = Vec::new();
    let mut k: usize = i;
    while k < j
        invariant
            i <= k <= j <= n,
            n == s@.len(),
            t@ == s@.subrange(i as int, k as int),
        decreases j - k,
    {
        t.push(s[k]);
        assert(s@.subrange(i as int, k + 1) =~= s@.subrange(i as int, k as int).push(s@[k as int]));
        k = k + 1;
    }
    t
}

/// A text that neither starts nor ends with whitespace is its own trim.
pub proof fn lemma_trim_unchanged(s: Seq<char>)
    requires
        s.len() > 0,
        !is_space(s[0]),
        !is_space(s.last()),
    ensures
        trim(s) == s,
{
    assert(trim_start(s) == s);
}

/// Whether `s` is empty once trimmed.
pub fn is_blank(s: &str) -> (r: bool)
    ensures
        r == (trim(s@).len() == 0),
{
    let v = chars_of(s);
    let t = trim_chars(v.as_slice());
    t.len() == 0
}

// ── Decimal numbers ─────────────────────────────────────────────────────────

/// Whether `c` is an ASCII decimal digit.
pub open spec fn is_digit(c: char) -> bool {
    '0' <= c && c <= '9'
}

/// The value of a decimal digit character.
pub open spec fn digit_value(c: char) -> nat {
    (c as u32 - '0' as u32) as nat
}

/// The character of a decimal digit (`d < 10`).
pub open spec fn digit_char(d: nat) -> char {
    if d == 0 {
        '0'
    } else if d == 1 {
        '1'
    } else if d == 2 {
        '2'
    } else if d == 3 {
        '3'
    } else if d == 4 {
        '4'
    } else if d == 5 {
        '5'
    } else if d == 6 {
        '6'
    } else if d == 7 {
        '7'
    } else if d == 8 {
        '8'
    } else {
        '9'
    }
}

/// Executable form of `digit_char`.
fn digit_to_char(d: u64) -> (c: char)
    ensures
        c == digit_char(d as nat),
{
    if d == 0 {
        '0'
    } else if d == 1 {
        '1'
    } else if d == 2 {
        '2'
    } else if d == 3 {
        '3'
    } else if d == 4 {
        '4'
    } else if d == 5 {
        '5'
    } else if d == 6 {
        '6'
    } else if d == 7 {
        '7'
    } else if d == 8 {
        '8'
    } else {
        '9'
    }
}

/// Executable ASCII-digit test.
pub fn is_digit_char(c: char) -> (r: bool)
    ensures
        r == is_digit(c),
{
    '0' <= c && c <= '9'
}

/// The value of a sequence of decimal digits, most significant first.
pub open spec fn digits_value(s: Seq<char>) -> nat
    decreases s.len(),
{
    if s.len() == 0 {
        0
    } else {
        digits_value(s.drop_last()) * 10 + digit_value(s.last())
    }
}

/// Every character of `s` is a decimal digit.
pub open spec fn all_digits(s: Seq<char>) -> bool {
    forall|i: int| 0 <= i < s.len() ==> is_digit(#[trigger] s[i])
}

/// The digits that `u64::from_str` reads: an optional leading `+` is dropped.
pub open spec fn unsigned_digits(s: Seq<char>) -> Seq<char> {
    if s.len() > 0 && s[0] == '+' {
        s.drop_first()
    } else {
        s
    }
}

/// What `s.parse::<u64>()` gives: an optional `+`, then at least one decimal
/// digit and nothing else, of a value that fits in a `u64`.
pub open spec fn parse_u64(s: Seq<char>) -> Option<u64> {
    let d = unsigned_digits(s);
    if d.len() > 0 && all_digits(d) && digits_value(d) <= u64::MAX {
        Some(digits_value(d) as u64)
    } else {
        None
    }
}

/// The shortest decimal rendering of `n` (what `n.to_string()` gives).
pub open spec fn decimal(n: nat) -> Seq<char>
    decreases n,
{
    if n < 10 {
        seq![digit_char(n)]
    } else {
        decimal(n / 10).push(digit_char(n % 10))
    }
}

proof fn lemma_not_all_digits(d: Seq<char>, k: int)
    requires
        0 <= k < d.len(),
        !is_digit(d[k]),
    ensures
        !all_digits(d),
{
}

proof fn lemma_digits_value_prefix_le(s: Seq<char>, k: int)
    requires
        0 <= k <= s.len(),
    ensures
        digits_value(s.subrange(0, k)) <= digits_value(s),
    decreases s.len() - k,
{
    if k < s.len() {
        lemma_digits_value_prefix_le(s.drop_last(), k);
        assert(s.drop_last().subrange(0, k) =~= s.subrange(0, k));
    } else {
        assert(s.subrange(0, k) =~= s);
    }
}

/// Parses a sequence of characters as `str::parse::<u64>` does.
pub fn parse_u64_chars(s: &[char]) -> (r: Option<u64>)
    ensures
        r == parse_u64(s@),
{
    let n = s.len();
    let start: usize = if n > 0 && s[0] == '+' {
        1
    } else {
        0
    };
    let ghost d = unsigned_digits(s@);
    assert(d =~= s@.subrange(start as int, n as int));
    if start == n {
        return None;
    }
    let mut acc: u64 = 0;
    let mut i: usize = start;
    while i < n
        invariant
            n == s@.len(),
            start <= i <= n,
            d == unsigned_digits(s@),
            d == s@.subrange(start as int, n as int),
            acc as nat == digits_value(s@.subrange(start as int, i as int)),
            all_digits(s@.subrange(start as int, i as int)),
        decreases n - i,
    {
        let c = s[i];
        let ghost pre = s@.subrange(start as int, i as int);
        let ghost pre1 = s@.subrange(start as int, i + 1);
        assert(pre1 =~= d.subrange(0, (i + 1 - start) as int));
        assert(pre1.drop_last() =~= pre);
        if !is_digit_char(c) {
            proof {
                lemma_not_all_digits(d, (i - start) as int);
            }
            return None;
        }
        let dv: u64 = (c as u32 - '0' as u32) as u64;
        if acc > (u64::MAX - dv) / 10 {
            proof {
                assert(acc * 10 + dv > u64::MAX) by (nonlinear_arith)
                    requires
                        acc > (u64::MAX - dv) / 10,
                        dv <= 9,
                ;
                assert(pre1.last() == c);
                assert(digits_value(pre1) == digits_value(pre) * 10 + digit_value(c));
                assert(digits_value(pre1) == acc * 10 + dv);
                if all_digits(d) {
                    lemma_digits_value_prefix_le(d, (i + 1 - start) as int);
                    assert(digits_value(d) > u64::MAX);
                }
            }
            return None;
        }
        proof {
            assert(acc * 10 + dv <= u64::MAX) by (nonlinear_arith)
                requires
                    acc <= (u64::MAX - dv) / 10,
                    dv <= 9,
            ;
        }
        acc = acc * 10 + dv;
        assert(all_digits(pre1));
        i = i + 1;
    }
    assert(s@.subrange(start as int, n as int) =~= d);
    Some(acc)
}

/// Appends the decimal rendering of `n` to `s`.
pub fn push_decimal(s: &mut String, n: u64)
    ensures
        final(s)@ == old(s)@ + decimal(n as nat),
    decreases n,
{
    if n >= 10 {
        push_decimal(s, n / 10);
    }
    push_char(s, digit_to_char(n % 10));
    proof {
        if n >= 10 {
            assert(decimal(n as nat) == decimal((n / 10) as nat).push(digit_char((n % 10) as nat)));
        }
    }
}

/// The decimal rendering of `n`.
pub fn decimal_string(n: u64) -> (s: String)
    ensures
        s@ == decimal(n as nat),
{
    let mut s = String::new();
    push_decimal(&mut s, n);
    s
}

/// Rendering a number in decimal and parsing it back gives the number.
pub proof fn lemma_parse_decimal(n: u64)
    ensures
        parse_u64(decimal(n as nat)) == Some(n),
{
    lemma_decimal_digits(n as nat);
    assert(decimal(n as nat)[0] != '+') by {
        assert(is_digit(decimal(n as nat)[0]));
    }
}

proof fn lemma_digit_char(k: nat)
    requires
        k < 10,
    ensures
        is_digit(digit_char(k)),
        digit_value(digit_char(k)) == k,
{
}

/// A decimal rendering is a non-empty run of digits whose value is the number.
pub proof fn lemma_decimal_digits(n: nat)
    ensures
        decimal(n).len() > 0,
        all_digits(decimal(n)),
        digits_value(decimal(n)) == n,
    decreases n,
{
    lemma_digit_char(n % 10);
    if n >= 10 {
        lemma_decimal_digits(n / 10);
        let d = decimal(n);
        assert(d.last() == digit_char(n % 10));
        assert(n == (n / 10) * 10 + n % 10);
        assert(digits_value(d) == digits_value(d.drop_last()) * 10 + digit_value(d.last()));
        assert(d.drop_last() =~= decimal(n / 10));
        assert(all_digits(d)) by {
            assert forall|i: int| 0 <= i < d.len() implies is_digit(#[trigger] d[i]) by {
                if i < d.len() - 1 {
                    assert(d[i] == decimal(n / 10)[i]);
                }
            }
        }
    } else {
        let d = decimal(n);
        assert(d.drop_last() =~= Seq::<char>::empty());
        assert(digits_value(d.drop_last()) == 0);
        assert(digits_value(d) == digits_value(d.drop_last()) * 10 + digit_value(d.last()));
    }
}

// ── Words and lines ─────────────────────────────────────────────────────────

/// The words of `cur ++ rest`, where `cur` is a word in progress: maximal
/// runs of non-whitespace characters, in order.
pub open spec fn words_from(cur: Seq<char>, rest: Seq<char>) -> Seq<Seq<char>>
    decreases rest.len(),
{
    if rest.len() == 0 {
        if cur.len() == 0 {
            seq![]
        } else {
            seq![cur]
        }
    } else if is_space(rest[0]) {
        if cur.len() == 0 {
            words_from(cur, rest.drop_first())
        } else {
            seq![cur] + words_from(seq![], rest.drop_first())
        }
    } else {
        words_from(cur.push(rest[0]), rest.drop_first())
    }
}

/// The words of `s` (what `str::split_whitespace` yields).
pub open spec fn words(s: Seq<char>) -> Seq<Seq<char>> {
    words_from(seq![], s)
}

/// The views of a sequence of character vectors.
pub open spec fn char_vecs_view(v: Seq<Vec<char>>) -> Seq<Seq<char>> {
    v.map_values(|x: Vec<char>| x@)
}

/// The pieces of `cur ++ rest` between line feeds, where `cur` is the piece
/// in progress.
pub open spec fn pieces_from(cur: Seq<char>, rest: Seq<char>) -> Seq<Seq<char>>
    decreases rest.len(),
{
    if rest.len() == 0 {
        seq![cur]
    } else if rest[0] == '\n' {
        seq![cur] + pieces_from(seq![], rest.drop_first())
    } else {
        pieces_from(cur.push(rest[0]), rest.drop_first())
    }
}

/// The pieces of `s` between line feeds (what `str::split('\n')` yields).
pub open spec fn line_pieces(s: Seq<char>) -> Seq<Seq<char>> {
    pieces_from(seq![], s)
}

/// `list` joined with `sep` between consecutive elements.
pub open spec fn join(list: Seq<Seq<char>>, sep: Seq<char>) -> Seq<char>
    decreases list.len(),
{
    if list.len() == 0 {
        seq![]
    } else if list.len() == 1 {
        list[0]
    } else {
        join(list.drop_last(), sep) + sep + list.last()
    }
}

/// Splits `s` into its words.
pub fn split_words(s: &[char]) -> (w: Vec<Vec<char>>)
    ensures
        char_vecs_view(w@) == words(s@),
{
    let n = s.len();
    let mut done: Vec<Vec<char>> = Vec::new();
    let mut cur: Vec<char> = Vec::new();
    let mut i: usize = 0;
    assert(s@.skip(0) =~= s@);
    while i < n
        invariant
            n == s@.len(),
            i <= n,
            char_vecs_view(done@) + words_from(cur@, s@.skip(i as int)) == words(s@),
        decreases n - i,
    {
        let c = s[i];
        let ghost rest = s@.skip(i as int);
        assert(rest[0] == c);
        assert(rest.drop_first() =~= s@.skip(i + 1));
        if is_space_char(c) {
            if cur.len() > 0 {
                let ghost before = char_vecs_view(done@);
                let ghost cv = cur@;
                done.push(cur);
                cur = Vec::new();
                assert(char_vecs_view(done@) =~= before.push(cv));
                assert(before + (seq![cv] + words_from(seq![], s@.skip(i + 1))) =~= before.push(cv)
                    + words_from(seq![], s@.skip(i + 1)));
                assert(cur@ =~= Seq::<char>::empty());
            }
        } else {
            cur.push(c);
        }
        i = i + 1;
    }
    assert(s@.skip(n as int).len() == 0);
    if cur.len() > 0 {
        let ghost before = char_vecs_view(done@);
        let ghost cv = cur@;
        done.push(cur);
        assert(char_vecs_view(done@) =~= before.push(cv));
        assert(before + seq![cv] =~= before.push(cv));
    } else {
        assert(char_vecs_view(done@) + seq![] =~= char_vecs_view(done@));
    }
    done
}

/// Splits `s` into its pieces between line feeds.
pub fn split_pieces(s: &[char]) -> (w: Vec<Vec<char>>)
    ensures
        char_vecs_view(w@) == line_pieces(s@),
{
    let n = s.len();
    let mut done: Vec<Vec<char>> = Vec::new();
    let mut cur: Vec<char> = Vec::new();
    let mut i: usize = 0;
    assert(s@.skip(0) =~= s@);
    while i < n
        invariant
            n == s@.len(),
            i <= n,
            char_vecs_view(done@) + pieces_from(cur@, s@.skip(i as int)) == line_pieces(s@),
        decreases n - i,
    {
        let c = s[i];
        let ghost rest = s@.skip(i as int);
        assert(rest[0] == c);
        assert(rest.drop_first() =~= s@.skip(i + 1));
        if c == '\n' {
            let ghost before = char_vecs_view(done@);
            let ghost cv = cur@;
            done.push(cur);
            cur = Vec::new();
            assert(char_vecs_view(done@) =~= before.push(cv));
            assert(before + (seq![cv] + pieces_from(seq![], s@.skip(i + 1))) =~= before.push(cv)
                + pieces_from(seq![], s@.skip(i + 1)));
            assert(cur@ =~= Seq::<char>::empty());
        } else {
            cur.push(c);
        }
        i = i + 1;
    }
    assert(s@.skip(n as int).len() == 0);
    let ghost before = char_vecs_view(done@);
    let ghost cv = cur@;
    done.push(cur);
    assert(char_vecs_view(done@) =~= before.push(cv));
    assert(before + seq![cv] =~= before.push(cv));
    done
}

/// `list[from..]` joined with a single space between consecutive elements.
pub fn join_with_space(list: &Vec<Vec<char>>, from: usize) -> (s: String)
    requires
        from <= list@.len(),
    ensures
        s@ == join(char_vecs_view(list@).skip(from as int), seq![' ']),
{
    let ghost all = char_vecs_view(list@).skip(from as int);
    let mut s = String::new();
    let mut i: usize = from;
    while i < list.len()
        invariant
            from <= i <= list@.len(),
            all == char_vecs_view(list@).skip(from as int),
            s@ == join(all.take(i - from), seq![' ']),
        decreases list@.len() - i,
    {
        let ghost k = i - from;
        assert(all.take(k + 1).drop_last() =~= all.take(k));
        assert(all.take(k + 1).last() == list@[i as int]@);
        if i != from {
            push_char(&mut s, ' ');
        } else {
            assert(all.take(1) =~= seq![list@[i as int]@]);
            assert(s@ =~= Seq::<char>::empty());
        }
        push_chars(&mut s, list[i].as_slice());
        i = i + 1;
    }
    assert(all.take(list@.len() - from) =~= all);
    s
}


/// `s` with its whitespace removed.
pub open spec fn without_spaces(s: Seq<char>) -> Seq<char>
    decreases s.len(),
{
    if s.len() == 0 {
        seq![]
    } else {
        (if is_space(s[0]) {
            seq![]
        } else {
            seq![s[0]]
        }) + without_spaces(s.drop_first())
    }
}

/// The words of a sequence, one after the other.
pub open spec fn concat_all(ws: Seq<Seq<char>>) -> Seq<char>
    decreases ws.len(),
{
    if ws.len() == 0 {
        seq![]
    } else {
        ws[0] + concat_all(ws.drop_first())
    }
}

proof fn lemma_concat_cons(w: Seq<char>, ws: Seq<Seq<char>>)
    ensures
        concat_all(seq![w] + ws) == w + concat_all(ws),
{
    assert((seq![w] + ws).drop_first() =~= ws);
}

proof fn lemma_words_from(cur: Seq<char>, rest: Seq<char>)
    requires
        forall|i: int| 0 <= i < cur.len() ==> !is_space(#[trigger] cur[i]),
    ensures
        concat_all(words_from(cur, rest)) == cur + without_spaces(rest),
        forall|k: int| 0 <= k < words_from(cur, rest).len() ==> (#[trigger] words_from(cur, rest)[k]).len() > 0,
        forall|k: int, i: int|
            0 <= k < words_from(cur, rest).len() && 0 <= i < words_from(cur, rest)[k].len()
                ==> !is_space(#[trigger] words_from(cur, rest)[k][i]),
    decreases rest.len(),
{
    let r = rest.drop_first();
    if rest.len() == 0 {
        if cur.len() == 0 {
            assert(cur + without_spaces(rest) =~= seq![]);
        } else {
            lemma_concat_cons(cur, seq![]);
            assert(seq![cur] + Seq::<Seq<char>>::empty() =~= seq![cur]);
            assert(cur + without_spaces(rest) =~= cur);
            assert(concat_all(Seq::<Seq<char>>::empty()) == Seq::<char>::empty());
            assert(cur + Seq::<char>::empty() =~= cur);
        }
    } else if is_space(rest[0]) {
        assert(without_spaces(rest) == seq![] + without_spaces(r));
        assert(seq![] + without_spaces(r) =~= without_spaces(r));
        if cur.len() == 0 {
            lemma_words_from(cur, r);
        } else {
            lemma_words_from(seq![], r);
            lemma_concat_cons(cur, words_from(seq![], r));
            assert(Seq::<char>::empty() + without_spaces(r) =~= without_spaces(r));
            let ws = seq![cur] + words_from(seq![], r);
            assert forall|k: int| 0 <= k < ws.len() implies (#[trigger] ws[k]).len() > 0 by {
                if k > 0 {
                    assert(ws[k] == words_from(seq![], r)[k - 1]);
                }
            }
            assert forall|k: int, i: int| 0 <= k < ws.len() && 0 <= i < ws[k].len() implies !is_space(
                #[trigger] ws[k][i],
            ) by {
                if k > 0 {
                    assert(ws[k] == words_from(seq![], r)[k - 1]);
                }
            }
        }
    } else {
        let c2 = cur.push(rest[0]);
        assert forall|i: int| 0 <= i < c2.len() implies !is_space(#[trigger] c2[i]) by {
            if i < cur.len() {
                assert(c2[i] == cur[i]);
            }
        }
        lemma_words_from(c2, r);
        assert(without_spaces(rest) == seq![rest[0]] + without_spaces(r));
        assert(c2 + without_spaces(r) =~= cur + (seq![rest[0]] + without_spaces(r)));
    }
}

/// The words of a text are non-empty and hold no whitespace, and put one
/// after the other they give back the text with its whitespace removed.
pub proof fn law_words_split_on_whitespace(s: Seq<char>)
    ensures
        concat_all(words(s)) == without_spaces(s),
        forall|k: int| 0 <= k < words(s).len() ==> (#[trigger] words(s)[k]).len() > 0,
        forall|k: int, i: int|
            0 <= k < words(s).len() && 0 <= i < words(s)[k].len() ==> !is_space(
                #[trigger] words(s)[k][i],
            ),
{
    lemma_words_from(seq![], s);
    assert(Seq::<char>::empty() + without_spaces(s) =~= without_spaces(s));
}

/// Space, tab, line feed and carriage return are whitespace; letters, digits
/// and the punctuation of a command line are not.
pub proof fn law_common_whitespace(c: char)
    ensures
        is_space(' ') && is_space('\t') && is_space('\n') && is_space('\r'),
        (('a' <= c && c <= 'z') || ('A' <= c && c <= 'Z') || ('0' <= c && c <= '9') || c == '-'
            || c == '.' || c == '/' || c == '_') ==> !is_space(c),
{
}

} // verus!
