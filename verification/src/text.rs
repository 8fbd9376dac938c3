//! Text helpers: strings are modelled as sequences of characters.
use vstd::prelude::*;

verus! {

// ---------------------------------------------------------------------------
// Models
// ---------------------------------------------------------------------------
/// The characters with the Unicode `White_Space` property.
pub open spec fn is_space(c: char) -> bool {
    let n = c as int;
    ||| 0x9 <= n <= 0xd
    ||| n == 0x20
    ||| n == 0x85
    ||| n == 0xa0
    ||| n == 0x1680
    ||| 0x2000 <= n <= 0x200a
    ||| n == 0x2028
    ||| n == 0x2029
    ||| n == 0x202f
    ||| n == 0x205f
    ||| n == 0x3000
}

/// `s` holds nothing but white space.
pub open spec fn all_space(s: Seq<char>) -> bool {
    forall|i: int| 0 <= i < s.len() ==> is_space(#[trigger] s[i])
}

/// `s` without leading white space.
pub open spec fn trim_start_of(s: Seq<char>) -> Seq<char>
    decreases s.len(),
{
    if s.len() > 0 && is_space(s[0]) {
        trim_start_of(s.subrange(1, s.len() as int))
    } else {
        s
    }
}

/// `s` without trailing white space.
pub open spec fn trim_end_of(s: Seq<char>) -> Seq<char>
    decreases s.len(),
{
    if s.len() > 0 && is_space(s.last()) {
        trim_end_of(s.drop_last())
    } else {
        s
    }
}

/// `s` without leading and trailing white space.
pub open spec fn trim_of(s: Seq<char>) -> Seq<char> {
    trim_end_of(trim_start_of(s))
}

/// `prefix` stands at the start of `s`.
pub open spec fn has_prefix(s: Seq<char>, prefix: Seq<char>) -> bool {
    prefix.len() <= s.len() && s.subrange(0, prefix.len() as int) == prefix
}

/// `suffix` stands at the end of `s`.
pub open spec fn has_suffix(s: Seq<char>, suffix: Seq<char>) -> bool {
    suffix.len() <= s.len() && s.subrange(s.len() - suffix.len(), s.len() as int) == suffix
}

/// `part` occurs in `s` at index `at`.
pub open spec fn occurs_at(s: Seq<char>, part: Seq<char>, at: int) -> bool {
    0 <= at && at + part.len() <= s.len() && s.subrange(at, at + part.len()) == part
}

/// `part` occurs somewhere in `s`.
pub open spec fn occurs_in(s: Seq<char>, part: Seq<char>) -> bool {
    exists|at: int| #[trigger] occurs_at(s, part, at)
}

/// `s` without any number of copies of `prefix` at its start.
pub open spec fn strip_prefixes(s: Seq<char>, prefix: Seq<char>) -> Seq<char>
    decreases s.len(),
{
    if prefix.len() > 0 && has_prefix(s, prefix) {
        strip_prefixes(s.subrange(prefix.len() as int, s.len() as int), prefix)
    } else {
        s
    }
}

/// `s` without any number of copies of `suffix` at its end.
pub open spec fn strip_suffixes(s: Seq<char>, suffix: Seq<char>) -> Seq<char>
    decreases s.len(),
{
    if suffix.len() > 0 && has_suffix(s, suffix) {
        strip_suffixes(s.subrange(0, s.len() - suffix.len()), suffix)
    } else {
        s
    }
}

/// `items`, each with `prefix` before it.
pub open spec fn prefixed(items: Seq<Seq<char>>, prefix: Seq<char>) -> Seq<Seq<char>> {
    items.map_values(|item: Seq<char>| prefix + item)
}

/// The views of a list of strings.
pub open spec fn views(parts: Seq<String>) -> Seq<Seq<char>> {
    parts.map_values(|p: String| p@)
}

/// `parts` one after the other, with `sep` between neighbours.
pub open spec fn join_of(parts: Seq<Seq<char>>, sep: Seq<char>) -> Seq<char>
    decreases parts.len(),
{
    if parts.len() == 0 {
        Seq::empty()
    } else if parts.len() == 1 {
        parts[0]
    } else {
        join_of(parts.drop_last(), sep) + sep + parts.last()
    }
}

/// Index of the first line feed of `s`, or its length.
pub open spec fn line_end(s: Seq<char>) -> int
    decreases s.len(),
{
    if s.len() == 0 || s[0] == '\n' {
        0
    } else {
        1 + line_end(s.subrange(1, s.len() as int))
    }
}

/// `s` without one trailing carriage return.
pub open spec fn strip_cr(s: Seq<char>) -> Seq<char> {
    if s.len() > 0 && s.last() == '\r' {
        s.drop_last()
    } else {
        s
    }
}

/// The lines of `s`: cut at line feeds, each without a trailing carriage
/// return where a line feed ended it; a final line feed starts no further line.
pub open spec fn lines_of(s: Seq<char>) -> Seq<Seq<char>>
    decreases s.len(),
    via lines_of_decreases
{
    if s.len() == 0 {
        Seq::empty()
    } else {
        let n = line_end(s);
        if n == s.len() {
            seq![s]
        } else {
            seq![strip_cr(s.subrange(0, n))] + lines_of(s.subrange(n + 1, s.len() as int))
        }
    }
}

#[via_fn]
proof fn lines_of_decreases(s: Seq<char>) {
    lemma_line_end(s);
}

/// The decimal digit `d` (below ten) as a character.
pub open spec fn digit(d: int) -> char {
    (('0' as int) + d) as char
}

/// `n` written in decimal.
pub open spec fn decimal_of(n: nat) -> Seq<char>
    decreases n,
{
    if n < 10 {
        seq![digit(n as int)]
    } else {
        decimal_of(n / 10).push(digit((n % 10) as int))
    }
}

/// `n` written in decimal, with a minus sign where it is negative.
pub open spec fn signed_decimal_of(n: int) -> Seq<char> {
    if n < 0 {
        seq!['-'] + decimal_of((-n) as nat)
    } else {
        decimal_of(n as nat)
    }
}

/// Index of the first `c` in `s`, or the length of `s`.
pub open spec fn first_of(s: Seq<char>, c: char) -> int
    decreases s.len(),
{
    if s.len() == 0 || s[0] == c {
        0
    } else {
        1 + first_of(s.subrange(1, s.len() as int), c)
    }
}

/// `c` is a decimal digit.
pub open spec fn is_digit(c: char) -> bool {
    '0' <= c && c <= '9'
}

/// `s` holds nothing but decimal digits.
pub open spec fn all_digits(s: Seq<char>) -> bool {
    forall|i: int| 0 <= i < s.len() ==> is_digit(#[trigger] s[i])
}

/// The number that the decimal digits `s` write.
pub open spec fn digits_value(s: Seq<char>) -> nat
    decreases s.len(),
{
    if s.len() == 0 {
        0
    } else {
        (10 * digits_value(s.drop_last()) + (s.last() as int - '0' as int)) as nat
    }
}

/// The `i64` that `s` writes: an optional sign and decimal digits, in range.
pub open spec fn parse_i64_of(s: Seq<char>) -> Option<i64> {
    let signed = s.len() > 0 && (s[0] == '-' || s[0] == '+');
    let body = if signed {
        s.subrange(1, s.len() as int)
    } else {
        s
    };
    if body.len() == 0 || !all_digits(body) {
        None
    } else {
        let n = if s[0] == '-' {
            -(digits_value(body) as int)
        } else {
            digits_value(body) as int
        };
        if i64::MIN <= n <= i64::MAX {
            Some(n as i64)
        } else {
            None
        }
    }
}

/// The ASCII lower-case form of one character.
pub open spec fn lower_char(c: char) -> char {
    if 'A' <= c && c <= 'Z' {
        ((c as int) + 32) as char
    } else {
        c
    }
}

/// `s` with ASCII upper-case letters lowered.
pub open spec fn lower_of(s: Seq<char>) -> Seq<char> {
    s.map_values(|c: char| lower_char(c))
}

/// The first `n` characters of `s`, or all of them.
pub open spec fn prefix_of(s: Seq<char>, n: nat) -> Seq<char> {
    if n <= s.len() {
        s.subrange(0, n as int)
    } else {
        s
    }
}

// ---------------------------------------------------------------------------
// Facts about the models
// ---------------------------------------------------------------------------
pub proof fn lemma_line_end(s: Seq<char>)
    ensures
        0 <= line_end(s) <= s.len(),
        line_end(s) < s.len() ==> s[line_end(s)] == '\n',
        forall|i: int| 0 <= i < line_end(s) ==> s[i] != '\n',
    decreases s.len(),
{
    if s.len() == 0 || s[0] == '\n' {
    } else {
        let t = s.subrange(1, s.len() as int);
        lemma_line_end(t);
        assert forall|i: int| 0 <= i < line_end(s) implies s[i] != '\n' by {
            if i > 0 {
                assert(s[i] == t[i - 1]);
            }
        }
    }
}

/// The index of the first line feed is determined by what stands there and
/// before.
pub proof fn lemma_line_end_unique(s: Seq<char>, n: int)
    requires
        0 <= n <= s.len(),
        n < s.len() ==> s[n] == '\n',
        forall|i: int| 0 <= i < n ==> s[i] != '\n',
    ensures
        line_end(s) == n,
{
    lemma_line_end(s);
}

pub proof fn lemma_trim_start(s: Seq<char>, n: int)
    requires
        0 <= n <= s.len(),
        forall|i: int| 0 <= i < n ==> is_space(#[trigger] s[i]),
        n < s.len() ==> !is_space(s[n]),
    ensures
        trim_start_of(s) == s.subrange(n, s.len() as int),
    decreases s.len(),
{
    if s.len() > 0 && is_space(s[0]) {
        assert(n > 0);
        let t = s.subrange(1, s.len() as int);
        assert forall|i: int| 0 <= i < n - 1 implies is_space(#[trigger] t[i]) by {
            assert(t[i] == s[i + 1]);
        }
        lemma_trim_start(t, n - 1);
        assert(t.subrange(n - 1, t.len() as int) =~= s.subrange(n, s.len() as int));
    } else {
        assert(n == 0) by {
            if n > 0 {
                assert(is_space(s[0]));
            }
        }
        assert(s.subrange(0, s.len() as int) =~= s);
    }
}

pub proof fn lemma_trim_end(s: Seq<char>, n: int)
    requires
        0 <= n <= s.len(),
        forall|i: int| n <= i < s.len() ==> is_space(#[trigger] s[i]),
        n > 0 ==> !is_space(s[n - 1]),
    ensures
        trim_end_of(s) == s.subrange(0, n),
    decreases s.len(),
{
    if s.len() > 0 && is_space(s.last()) {
        assert(n < s.len());
        let t = s.drop_last();
        assert forall|i: int| n <= i < t.len() implies is_space(#[trigger] t[i]) by {
            assert(t[i] == s[i]);
        }
        lemma_trim_end(t, n);
        assert(t.subrange(0, n) =~= s.subrange(0, n));
    } else {
        assert(n == s.len()) by {
            if n < s.len() {
                assert(is_space(s[s.len() - 1]));
            }
        }
        assert(s.subrange(0, s.len() as int) =~= s);
    }
}

pub proof fn lemma_trim_bounds(s: Seq<char>)
    ensures
        trim_start_of(s).len() <= s.len(),
        trim_end_of(s).len() <= s.len(),
        trim_of(s).len() <= s.len(),
    decreases s.len(),
{
    lemma_trim_start_len(s);
    lemma_trim_end_len(s);
    lemma_trim_end_len(trim_start_of(s));
}

proof fn lemma_trim_start_len(s: Seq<char>)
    ensures
        trim_start_of(s).len() <= s.len(),
    decreases s.len(),
{
    if s.len() > 0 && is_space(s[0]) {
        lemma_trim_start_len(s.subrange(1, s.len() as int));
    }
}

proof fn lemma_trim_end_len(s: Seq<char>)
    ensures
        trim_end_of(s).len() <= s.len(),
    decreases s.len(),
{
    if s.len() > 0 && is_space(s.last()) {
        lemma_trim_end_len(s.drop_last());
    }
}

/// Appending one part to a joined list adds the separator and the part.
pub proof fn lemma_join_push(parts: Seq<Seq<char>>, sep: Seq<char>, part: Seq<char>)
    ensures
        parts.len() == 0 ==> join_of(parts.push(part), sep) == part,
        parts.len() > 0 ==> join_of(parts.push(part), sep) == join_of(parts, sep) + sep + part,
{
    assert(parts.push(part).drop_last() =~= parts);
}

pub proof fn lemma_first_of(s: Seq<char>, c: char)
    ensures
        0 <= first_of(s, c) <= s.len(),
        first_of(s, c) < s.len() ==> s[first_of(s, c)] == c,
        forall|i: int| 0 <= i < first_of(s, c) ==> s[i] != c,
    decreases s.len(),
{
    if s.len() == 0 || s[0] == c {
    } else {
        let t = s.subrange(1, s.len() as int);
        lemma_first_of(t, c);
        assert forall|i: int| 0 <= i < first_of(s, c) implies s[i] != c by {
            if i > 0 {
                assert(s[i] == t[i - 1]);
            }
        }
    }
}

/// Decimal notation is made of digits, and they write the number.
pub proof fn lemma_decimal_digits(n: nat)
    ensures
        all_digits(decimal_of(n)),
        decimal_of(n).len() > 0,
        digits_value(decimal_of(n)) == n,
    decreases n,
{
    if n < 10 {
        let s = decimal_of(n);
        assert(s.drop_last() =~= Seq::<char>::empty());
        assert(digits_value(s.drop_last()) == 0);
    } else {
        lemma_decimal_digits(n / 10);
        let s = decimal_of(n);
        assert(s.drop_last() =~= decimal_of(n / 10));
        assert forall|i: int| 0 <= i < s.len() implies is_digit(#[trigger] s[i]) by {
            if i < s.len() - 1 {
                assert(s[i] == decimal_of(n / 10)[i]);
            }
        }
    }
}

/// Reading the decimal notation of a number gives the number back.
pub proof fn lemma_parse_decimal(n: i64)
    ensures
        parse_i64_of(signed_decimal_of(n as int)) == Some(n),
{
    let m: nat = if n < 0 {
        (-(n as int)) as nat
    } else {
        n as nat
    };
    lemma_decimal_digits(m);
    let s = signed_decimal_of(n as int);
    if n < 0 {
        assert(s.subrange(1, s.len() as int) =~= decimal_of(m));
    } else {
        assert(is_digit(s[0]));
    }
}

proof fn lemma_digits_value_grows(s: Seq<char>, i: int)
    requires
        all_digits(s),
        0 <= i <= s.len(),
    ensures
        digits_value(s.subrange(0, i)) <= digits_value(s),
    decreases s.len() - i,
{
    if i == s.len() {
        assert(s.subrange(0, i) =~= s);
    } else {
        lemma_digits_value_grows(s, i + 1);
        assert(s.subrange(0, i + 1).drop_last() =~= s.subrange(0, i));
        assert(is_digit(s[i]));
        assert(s.subrange(0, i + 1).last() == s[i]);
    }
}

// ---------------------------------------------------------------------------
// Operations
// ---------------------------------------------------------------------------
/// `String::push`: the character goes to the end of the string.
pub assume_specification[ String::push ](s: &mut String, c: char)
    ensures
        final(s)@ == old(s)@.push(c),
;

/// The characters of `s`.
pub fn chars_of(s: &str) -> (v: Vec<char>)
    ensures
        v@ == s@,
{
    let mut v: Vec<char> = Vec::new();
    for c in it: s.chars()
        invariant
            v@ == s@.subrange(0, it.index() as int),
            it.seq() == s@,
    {
        v.push(c);
    }
    v
}

/// The string made of the characters from index `from` up to, not including, `to`.
pub fn slice_of(v: &Vec<char>, from: usize, to: usize) -> (s: String)
    requires
        from <= to <= v@.len(),
    ensures
        s@ == v@.subrange(from as int, to as int),
{
    let mut s = String::new();
    let mut i: usize = from;
    while i < to
        invariant
            from <= i <= to <= v@.len(),
            s@ == v@.subrange(from as int, i as int),
        decreases to - i,
    {
        s.push(v[i]);
        i = i + 1;
        assert(v@.subrange(from as int, i as int) =~= v@.subrange(from as int, i - 1).push(v@[i - 1]));
    }
    s
}

/// Whether `c` is white space.
pub fn space(c: char) -> (b: bool)
    ensures
        b == is_space(c),
{
    let n: u32 = c as u32;
    (0x9 <= n && n <= 0xd) || n == 0x20 || n == 0x85 || n == 0xa0 || n == 0x1680 || (0x2000 <= n
        && n <= 0x200a) || n == 0x2028 || n == 0x2029 || n == 0x202f || n == 0x205f || n == 0x3000
}

/// Number of leading white-space characters of `v` from `from` on, as the index
/// where they end.
fn skip_space(v: &Vec<char>, from: usize) -> (i: usize)
    requires
        from <= v@.len(),
    ensures
        from <= i <= v@.len(),
        forall|k: int| from <= k < i ==> is_space(#[trigger] v@[k]),
        i < v@.len() ==> !is_space(v@[i as int]),
{
    let mut i: usize = from;
    while i < v.len() && space(v[i])
        invariant
            from <= i <= v@.len(),
            forall|k: int| from <= k < i ==> is_space(#[trigger] v@[k]),
        decreases v@.len() - i,
    {
        i = i + 1;
    }
    i
}

/// `s` without leading white space.
pub fn trim_start(s: &str) -> (r: String)
    ensures
        r@ == trim_start_of(s@),
{
    let v = chars_of(s);
    let i: usize = skip_space(&v, 0);
    proof {
        lemma_trim_start(s@, i as int);
    }
    slice_of(&v, i, v.len())
}

/// `s` without leading and trailing white space.
pub fn trim(s: &str) -> (r: String)
    ensures
        r@ == trim_of(s@),
{
    let v = chars_of(s);
    let i: usize = skip_space(&v, 0);
    let mut j: usize = v.len();
    while i < j && space(v[j - 1])
        invariant
            i <= j <= v@.len(),
            forall|k: int| j <= k < v@.len() ==> is_space(#[trigger] v@[k]),
        decreases j,
    {
        j = j - 1;
    }
    proof {
        lemma_trim_start(s@, i as int);
        let t = s@.subrange(i as int, s@.len() as int);
        assert forall|k: int| j - i <= k < t.len() implies is_space(#[trigger] t[k]) by {
            assert(t[k] == v@[k + i]);
        }
        assert(j > i ==> t[j - i - 1] == v@[j - 1]);
        lemma_trim_end(t, j - i);
        assert(t.subrange(0, j - i) =~= v@.subrange(i as int, j as int));
    }
    slice_of(&v, i, j)
}

/// Trimming leaves nothing exactly where there is nothing but white space.
pub proof fn lemma_trim_blank(s: Seq<char>)
    ensures
        trim_of(s).len() == 0 <==> all_space(s),
{
    lemma_trim_start_blank(s);
    lemma_trim_end_blank(trim_start_of(s));
    if all_space(s) {
        assert(trim_start_of(s) =~= Seq::<char>::empty());
    } else {
        assert(!all_space(trim_start_of(s)));
    }
}

proof fn lemma_trim_start_blank(s: Seq<char>)
    ensures
        all_space(s) ==> trim_start_of(s).len() == 0,
        !all_space(s) ==> trim_start_of(s).len() > 0 && !is_space(trim_start_of(s)[0]),
    decreases s.len(),
{
    if s.len() > 0 && is_space(s[0]) {
        let t = s.subrange(1, s.len() as int);
        lemma_trim_start_blank(t);
        if all_space(t) {
            assert forall|i: int| 0 <= i < s.len() implies is_space(#[trigger] s[i]) by {
                if i > 0 {
                    assert(s[i] == t[i - 1]);
                }
            }
        } else {
            let k = choose|k: int| 0 <= k < t.len() && !is_space(#[trigger] t[k]);
            assert(s[k + 1] == t[k]);
        }
    }
}

proof fn lemma_trim_end_blank(s: Seq<char>)
    ensures
        all_space(s) <==> trim_end_of(s).len() == 0,
    decreases s.len(),
{
    if s.len() > 0 && is_space(s.last()) {
        let t = s.drop_last();
        lemma_trim_end_blank(t);
        if all_space(t) {
            assert forall|i: int| 0 <= i < s.len() implies is_space(#[trigger] s[i]) by {
                if i < t.len() {
                    assert(s[i] == t[i]);
                }
            }
        } else {
            let k = choose|k: int| 0 <= k < t.len() && !is_space(#[trigger] t[k]);
            assert(s[k] == t[k]);
        }
    } else if s.len() > 0 {
        assert(!is_space(s[s.len() - 1]));
    }
}

/// Whether `s` holds nothing but white space.
pub fn is_blank(s: &str) -> (b: bool)
    ensures
        b == all_space(s@),
        b == (trim_of(s@).len() == 0),
{
    let v = chars_of(s);
    let i: usize = skip_space(&v, 0);
    proof {
        lemma_trim_blank(s@);
    }
    i == v.len()
}

/// Whether `part` occurs in `v` at index `at`.
fn matches_at(v: &Vec<char>, part: &Vec<char>, at: usize) -> (b: bool)
    requires
        at <= v@.len(),
    ensures
        b == occurs_at(v@, part@, at as int),
{
    if v.len() - at < part.len() {
        return false;
    }
    let mut i: usize = 0;
    while i < part.len()
        invariant
            at + part@.len() <= v.len(),
            i <= part@.len(),
            forall|k: int| 0 <= k < i ==> v@[at + k] == part@[k],
        decreases part@.len() - i,
    {
        if v[at + i] != part[i] {
            assert(v@.subrange(at as int, at + part@.len())[i as int] != part@[i as int]);
            return false;
        }
        i = i + 1;
    }
    assert(v@.subrange(at as int, at + part@.len()) =~= part@);
    true
}

/// Whether `s` begins with `prefix`.
pub fn starts_with(s: &str, prefix: &str) -> (b: bool)
    ensures
        b == has_prefix(s@, prefix@),
{
    matches_at(&chars_of(s), &chars_of(prefix), 0)
}

/// Whether `part` occurs in `s`.
pub fn contains(s: &str, part: &str) -> (b: bool)
    ensures
        b == occurs_in(s@, part@),
{
    let v = chars_of(s);
    let w = chars_of(part);
    let mut i: usize = 0;
    while i < v.len()
        invariant
            i <= v@.len(),
            v@ == s@,
            w@ == part@,
            forall|at: int| 0 <= at < i ==> !#[trigger] occurs_at(s@, part@, at),
        decreases v@.len() - i,
    {
        if matches_at(&v, &w, i) {
            return true;
        }
        i = i + 1;
    }
    let last = matches_at(&v, &w, i);
    assert(last == occurs_at(s@, part@, i as int));
    last
}

/// Whether the two strings hold the same characters.
pub fn same(a: &str, b: &str) -> (r: bool)
    ensures
        r == (a@ == b@),
{
    let v = chars_of(a);
    let w = chars_of(b);
    if v.len() != w.len() {
        return false;
    }
    let m = matches_at(&v, &w, 0);
    assert(v@.subrange(0, v@.len() as int) =~= v@);
    m
}

/// `parts` with `sep` between neighbours.
pub fn join(parts: &Vec<String>, sep: &str) -> (r: String)
    ensures
        r@ == join_of(views(parts@), sep@),
{
    let mut out = String::new();
    let mut i: usize = 0;
    while i < parts.len()
        invariant
            i <= parts@.len(),
            out@ == join_of(views(parts@).subrange(0, i as int), sep@),
        decreases parts@.len() - i,
    {
        if i > 0 {
            out.append(sep);
        }
        out.append(parts[i].as_str());
        proof {
            let done = views(parts@).subrange(0, i as int);
            lemma_join_push(done, sep@, parts@[i as int]@);
            assert(views(parts@).subrange(0, i + 1) =~= done.push(parts@[i as int]@));
            if i == 0 {
                assert(Seq::<char>::empty() + parts@[0]@ =~= parts@[0]@);
            }
        }
        i = i + 1;
    }
    assert(views(parts@).subrange(0, parts@.len() as int) =~= views(parts@));
    out
}

/// The first `n` characters of `s`, or all of them.
pub fn take(s: &str, n: usize) -> (r: String)
    ensures
        r@ == prefix_of(s@, n as nat),
{
    let v = chars_of(s);
    if n <= v.len() {
        slice_of(&v, 0, n)
    } else {
        assert(v@.subrange(0, v@.len() as int) =~= s@);
        slice_of(&v, 0, v.len())
    }
}

/// The lines of `s`.
pub fn lines(s: &str) -> (r: Vec<String>)
    ensures
        views(r@) == lines_of(s@),
{
    let v = chars_of(s);
    let mut out: Vec<String> = Vec::new();
    let mut start: usize = 0;
    assert(v@.subrange(0, v@.len() as int) =~= v@);
    assert(views(out@) + lines_of(v@) =~= lines_of(v@));
    while start < v.len()
        invariant
            start <= v@.len(),
            v@ == s@,
            views(out@) + lines_of(v@.subrange(start as int, v@.len() as int)) == lines_of(s@),
        decreases v@.len() - start,
    {
        let ghost rest = v@.subrange(start as int, v@.len() as int);
        let mut end: usize = start;
        while end < v.len() && v[end] != '\n'
            invariant
                start <= end <= v@.len(),
                forall|k: int| start <= k < end ==> v@[k] != '\n',
            decreases v@.len() - end,
        {
            end = end + 1;
        }
        proof {
            assert(end < v@.len() ==> rest[end - start] == v@[end as int]);
            assert forall|k: int| 0 <= k < end - start implies rest[k] != '\n' by {
                assert(rest[k] == v@[start + k]);
            }
            lemma_line_end_unique(rest, end - start);
        }
        let ghost before = views(out@);
        if end == v.len() {
            let line = slice_of(&v, start, end);
            out.push(line);
            proof {
                assert(rest.len() > 0);
                assert(lines_of(rest) == seq![rest]);
                assert(views(out@) =~= before + lines_of(rest));
                assert(v@.subrange(end as int, v@.len() as int) =~= Seq::<char>::empty());
                assert(views(out@) + lines_of(Seq::<char>::empty()) =~= views(out@));
            }
            start = end;
        } else {
            let mut stop: usize = end;
            if stop > start && v[stop - 1] == '\r' {
                stop = stop - 1;
            }
            let line = slice_of(&v, start, stop);
            proof {
                let head = rest.subrange(0, end - start);
                assert(head =~= v@.subrange(start as int, end as int));
                assert(line@ =~= strip_cr(head));
                let tail = v@.subrange(end + 1, v@.len() as int);
                assert(rest.subrange(end - start + 1, rest.len() as int) =~= tail);
                assert(lines_of(rest) == seq![line@] + lines_of(tail));
            }
            out.push(line);
            proof {
                let tail = v@.subrange(end + 1, v@.len() as int);
                assert(views(out@) =~= before.push(line@));
                assert(views(out@) + lines_of(tail) =~= before + (seq![line@] + lines_of(tail)));
            }
            start = end + 1;
        }
    }
    assert(v@.subrange(start as int, v@.len() as int) =~= Seq::<char>::empty());
    assert(views(out@) + lines_of(Seq::<char>::empty()) =~= views(out@));
    out
}

/// `s` without trailing white space.
pub fn trim_end(s: &str) -> (r: String)
    ensures
        r@ == trim_end_of(s@),
{
    let v = chars_of(s);
    let mut j: usize = v.len();
    while 0 < j && space(v[j - 1])
        invariant
            j <= v@.len(),
            forall|k: int| j <= k < v@.len() ==> is_space(#[trigger] v@[k]),
        decreases j,
    {
        j = j - 1;
    }
    proof {
        lemma_trim_end(s@, j as int);
    }
    slice_of(&v, 0, j)
}

/// `s` without any number of copies of `prefix` at its start.
pub fn trim_start_matches(s: &str, prefix: &str) -> (r: String)
    ensures
        r@ == strip_prefixes(s@, prefix@),
{
    let v = chars_of(s);
    let p = chars_of(prefix);
    let mut i: usize = 0;
    assert(v@.subrange(0, v@.len() as int) =~= v@);
    while p.len() > 0 && matches_at(&v, &p, i)
        invariant
            i <= v.len(),
            p@ == prefix@,
            strip_prefixes(v@.subrange(i as int, v@.len() as int), prefix@) == strip_prefixes(
                s@,
                prefix@,
            ),
        decreases v@.len() - i,
    {
        proof {
            let rest = v@.subrange(i as int, v@.len() as int);
            assert(rest.subrange(0, p@.len() as int) =~= v@.subrange(i as int, i + p@.len()));
            assert(rest.subrange(p@.len() as int, rest.len() as int) =~= v@.subrange(
                i + p@.len(),
                v@.len() as int,
            ));
        }
        i = i + p.len();
    }
    proof {
        let rest = v@.subrange(i as int, v@.len() as int);
        if p@.len() > 0 && has_prefix(rest, prefix@) {
            assert(v@.subrange(i as int, i + p@.len()) =~= rest.subrange(0, p@.len() as int));
        }
    }
    slice_of(&v, i, v.len())
}

/// `s` without any number of copies of `suffix` at its end.
pub fn trim_end_matches(s: &str, suffix: &str) -> (r: String)
    ensures
        r@ == strip_suffixes(s@, suffix@),
{
    let v = chars_of(s);
    let p = chars_of(suffix);
    let mut j: usize = v.len();
    assert(v@.subrange(0, v@.len() as int) =~= v@);
    while p.len() > 0 && p.len() <= j && matches_at(&v, &p, j - p.len())
        invariant
            j <= v@.len(),
            p@ == suffix@,
            strip_suffixes(v@.subrange(0, j as int), suffix@) == strip_suffixes(s@, suffix@),
        decreases j,
    {
        proof {
            let rest = v@.subrange(0, j as int);
            assert(rest.subrange(rest.len() - p@.len(), rest.len() as int) =~= v@.subrange(
                j - p@.len(),
                j as int,
            ));
            assert(rest.subrange(0, rest.len() - p@.len()) =~= v@.subrange(0, j - p@.len()));
        }
        j = j - p.len();
    }
    proof {
        let rest = v@.subrange(0, j as int);
        if p@.len() > 0 && has_suffix(rest, suffix@) {
            assert(v@.subrange(j - p@.len(), j as int) =~= rest.subrange(
                rest.len() - p@.len(),
                rest.len() as int,
            ));
        }
    }
    slice_of(&v, 0, j)
}

/// `a` followed by `b`.
pub fn cat(a: &str, b: &str) -> (r: String)
    ensures
        r@ == a@ + b@,
{
    let mut s = a.to_owned();
    s.append(b);
    s
}

/// `a`, `b` and `c`, one after the other.
pub fn cat3(a: &str, b: &str, c: &str) -> (r: String)
    ensures
        r@ == a@ + b@ + c@,
{
    let mut s = a.to_owned();
    s.append(b);
    s.append(c);
    s
}

/// Adds one line.
pub fn push_line(lines: &mut Vec<String>, line: String)
    ensures
        final(lines)@ == old(lines)@.push(line),
        views(final(lines)@) == views(old(lines)@).push(line@),
{
    let ghost before = lines@;
    lines.push(line);
    assert(views(lines@) =~= views(before).push(line@));
}

/// Adds each of `items`, with `prefix` before it, as one line.
pub fn push_prefixed(lines: &mut Vec<String>, items: &Vec<String>, prefix: &str)
    ensures
        views(final(lines)@) == views(old(lines)@) + prefixed(views(items@), prefix@),
{
    let ghost before = views(lines@);
    let mut i: usize = 0;
    assert(before + prefixed(views(items@).subrange(0, 0), prefix@) =~= before);
    while i < items.len()
        invariant
            i <= items@.len(),
            views(lines@) == before + prefixed(views(items@).subrange(0, i as int), prefix@),
        decreases items@.len() - i,
    {
        push_line(lines, cat(prefix, items[i].as_str()));
        proof {
            let done = prefixed(views(items@).subrange(0, i as int), prefix@);
            assert(prefixed(views(items@).subrange(0, i + 1), prefix@) =~= done.push(
                prefix@ + items@[i as int]@,
            ));
            assert(views(lines@) =~= before + prefixed(
                views(items@).subrange(0, i + 1),
                prefix@,
            ));
        }
        i = i + 1;
    }
    assert(views(items@).subrange(0, items@.len() as int) =~= views(items@));
}

/// A copy of a list of strings.
pub fn copy_strings(items: &Vec<String>) -> (r: Vec<String>)
    ensures
        r@ == items@,
{
    let mut out: Vec<String> = Vec::new();
    let mut i: usize = 0;
    while i < items.len()
        invariant
            i <= items@.len(),
            out@ == items@.subrange(0, i as int),
        decreases items@.len() - i,
    {
        out.push(items[i].clone());
        i = i + 1;
        assert(out@ =~= items@.subrange(0, i as int));
    }
    assert(items@.subrange(0, items@.len() as int) =~= items@);
    out
}

/// The characters of the decimal digits.
fn digit_char(d: u64) -> (c: char)
    requires
        d < 10,
    ensures
        c == digit(d as int),
{
    if d == 0 {
        '0'
    } else if d == 1 {
        '1'
    } else if d == 2 {
        '2'
    } else if d == 3 {
        '3'
    } else if d == 4 {
        '4'
    } else if d == 5 {
        '5'
    } else if d == 6 {
        '6'
    } else if d == 7 {
        '7'
    } else if d == 8 {
        '8'
    } else {
        '9'
    }
}

/// `n` in decimal.
pub fn decimal(n: u64) -> (r: String)
    ensures
        r@ == decimal_of(n as nat),
    decreases n,
{
    if n < 10 {
        let mut s = String::new();
        s.push(digit_char(n));
        assert(s@ =~= seq![digit(n as int)]);
        s
    } else {
        let mut s = decimal(n / 10);
        s.push(digit_char(n % 10));
        s
    }
}

/// `n` in decimal, with a minus sign where it is negative.
pub fn signed_decimal(n: i64) -> (r: String)
    ensures
        r@ == signed_decimal_of(n as int),
{
    if n < 0 {
        let m: u64 = (-(n as i128)) as u64;
        let d = decimal(m);
        let mut s = String::new();
        s.push('-');
        s.append(d.as_str());
        assert(s@ =~= seq!['-'] + decimal_of(m as nat));
        s
    } else {
        decimal(n as u64)
    }
}

/// Index of the first `c` in `v`, or its length.
pub fn find_char(v: &Vec<char>, c: char) -> (i: usize)
    ensures
        i == first_of(v@, c),
        i <= v@.len(),
{
    let mut i: usize = 0;
    while i < v.len() && v[i] != c
        invariant
            i <= v@.len(),
            forall|k: int| 0 <= k < i ==> v@[k] != c,
        decreases v@.len() - i,
    {
        i = i + 1;
    }
    proof {
        lemma_first_of(v@, c);
    }
    i
}

/// The value of a decimal digit.
fn digit_value(c: char) -> (r: Option<u8>)
    ensures
        match r {
            Some(d) => is_digit(c) && d == c as int - '0' as int && d < 10,
            None => !is_digit(c),
        },
{
    if '0' <= c && c <= '9' {
        let n: u8 = c as u8;
        Some(n - 48)
    } else {
        None
    }
}

/// The `i64` written by the characters from `from` up to, not including, `to`.
pub fn parse_i64(v: &Vec<char>, from: usize, to: usize) -> (r: Option<i64>)
    requires
        from <= to <= v@.len(),
    ensures
        r == parse_i64_of(v@.subrange(from as int, to as int)),
{
    let ghost s = v@.subrange(from as int, to as int);
    if from == to {
        return None;
    }
    assert(s[0] == v@[from as int]);
    let negative = v[from] == '-';
    let start: usize = if negative || v[from] == '+' {
        from + 1
    } else {
        from
    };
    let ghost body = v@.subrange(start as int, to as int);
    proof {
        assert(body =~= (if start > from {
            s.subrange(1, s.len() as int)
        } else {
            s
        }));
    }
    if start == to {
        return None;
    }
    let mut acc: u128 = 0;
    let mut i: usize = start;
    while i < to
        invariant
            start <= i <= to <= v@.len(),
            body == v@.subrange(start as int, to as int),
            acc == digits_value(body.subrange(0, i - start)),
            acc <= 0x8000_0000_0000_0000,
            all_digits(body.subrange(0, i - start)),
            start < to,
            from <= start,
            s == v@.subrange(from as int, to as int),
            start > from ==> (s[0] == '-' || s[0] == '+') && body == s.subrange(
                1,
                s.len() as int,
            ),
            start == from ==> s[0] != '-' && s[0] != '+' && body == s,
            start <= from + 1,
        decreases to - i,
    {
        let ghost done = body.subrange(0, i - start);
        let ghost next = body.subrange(0, i + 1 - start);
        assert(next.drop_last() =~= done);
        assert(next.last() == v@[i as int]);
        match digit_value(v[i]) {
            Some(d) => {
                acc = acc * 10 + (d as u128);
                assert(acc == digits_value(next));
                assert forall|k: int| 0 <= k < next.len() implies is_digit(#[trigger] next[k]) by {
                    if k < done.len() {
                        assert(next[k] == done[k]);
                    }
                }
                if acc > 0x8000_0000_0000_0000 {
                    proof {
                        if all_digits(body) {
                            lemma_digits_value_grows(body, i + 1 - start);
                        }
                    }
                    return None;
                }
            },
            None => {
                assert(!is_digit(body[i - start]));
                return None;
            },
        }
        i = i + 1;
    }
    assert(body.subrange(0, to - start) =~= body);
    if negative {
        Some((-(acc as i128)) as i64)
    } else if acc <= 0x7fff_ffff_ffff_ffff {
        Some(acc as i64)
    } else {
        None
    }
}

/// The ASCII lower-case form of `c`.
fn lower(c: char) -> (r: char)
    ensures
        r == lower_char(c),
{
    if 'A' <= c && c <= 'Z' {
        let n: u8 = c as u8;
        let m: u8 = n + 32;
        m as char
    } else {
        c
    }
}

/// `s` with ASCII upper-case letters lowered.
pub fn to_lower(s: &str) -> (r: String)
    ensures
        r@ == lower_of(s@),
{
    let v = chars_of(s);
    let mut out = String::new();
    let mut i: usize = 0;
    while i < v.len()
        invariant
            i <= v@.len(),
            out@ == lower_of(v@.subrange(0, i as int)),
        decreases v@.len() - i,
    {
        out.push(lower(v[i]));
        assert(lower_of(v@.subrange(0, i + 1)) =~= lower_of(v@.subrange(0, i as int)).push(
            lower_char(v@[i as int]),
        ));
        i = i + 1;
    }
    assert(v@.subrange(0, v@.len() as int) =~= s@);
    out
}

// ---------------------------------------------------------------------------
// Laws
// ---------------------------------------------------------------------------
/// Blanks, tabs and line ends are white space; what ASCII prints is not.
pub proof fn law_what_white_space_is(c: char)
    ensures
        c == ' ' || c == '\t' || c == '\n' || c == '\r' ==> is_space(c),
        '!' <= c && c <= '~' ==> !is_space(c),
{
}

/// Trimming takes the white space around a text and leaves the text.
pub proof fn law_trimming_leaves_the_text(before: Seq<char>, body: Seq<char>, after: Seq<char>)
    requires
        all_space(before),
        all_space(after),
        body.len() > 0,
        !is_space(body[0]),
        !is_space(body.last()),
    ensures
        trim_of(before + body + after) == body,
        trim_start_of(before + body + after) == body + after,
        trim_end_of(before + body + after) == before + body,
{
    let s = before + body + after;
    let n = before.len() as int;
    let m = n + body.len();
    assert forall|i: int| 0 <= i < n implies is_space(#[trigger] s[i]) by {
        assert(s[i] == before[i]);
    }
    assert(s[n] == body[0]);
    lemma_trim_start(s, n);
    assert(s.subrange(n, s.len() as int) =~= body + after);
    let t = body + after;
    assert forall|i: int| body.len() <= i < t.len() implies is_space(#[trigger] t[i]) by {
        assert(t[i] == after[i - body.len()]);
    }
    assert(t[body.len() - 1] == body.last());
    lemma_trim_end(t, body.len() as int);
    assert(t.subrange(0, body.len() as int) =~= body);
    assert forall|i: int| m <= i < s.len() implies is_space(#[trigger] s[i]) by {
        assert(s[i] == after[i - m]);
    }
    assert(s[m - 1] == body.last());
    lemma_trim_end(s, m);
    assert(s.subrange(0, m) =~= before + body);
}

/// Text is cut into lines at line feeds: what stands before the first one is a
/// line, and the lines of the rest follow. A text without one is one line, and
/// no text has none.
pub proof fn law_lines_end_at_line_feeds(line: Seq<char>, rest: Seq<char>)
    requires
        forall|i: int| 0 <= i < line.len() ==> line[i] != '\n',
    ensures
        lines_of(line + seq!['\n'] + rest).len() == lines_of(rest).len() + 1,
        line.len() == 0 || line.last() != '\r' ==> lines_of(line + seq!['\n'] + rest) == seq![line]
            + lines_of(rest),
        lines_of(line + seq!['\r', '\n'] + rest) == seq![line] + lines_of(rest),
        line.len() > 0 ==> lines_of(line) == seq![line],
        lines_of(Seq::empty()).len() == 0,
{
    let s = line + seq!['\n'] + rest;
    lemma_line_end_unique(s, line.len() as int);
    assert(s.subrange(0, line.len() as int) =~= line);
    assert(s.subrange(line.len() as int + 1, s.len() as int) =~= rest);
    let t = line + seq!['\r', '\n'] + rest;
    lemma_line_end_unique(t, line.len() as int + 1);
    assert(t.subrange(0, line.len() as int + 1) =~= line.push('\r'));
    assert(line.push('\r').drop_last() =~= line);
    assert(t.subrange(line.len() as int + 2, t.len() as int) =~= rest);
    lemma_line_end_unique(line, line.len() as int);
}

/// A prefix is found at the start, a suffix at the end and a part anywhere; what
/// starts otherwise has no such prefix.
pub proof fn law_parts_are_found(before: Seq<char>, part: Seq<char>, after: Seq<char>)
    ensures
        has_prefix(part + after, part),
        has_suffix(before + part, part),
        occurs_in(before + part + after, part),
        part.len() > after.len() ==> !has_prefix(after, part),
        part.len() > 0 && after.len() > 0 && part[0] != after[0] ==> !has_prefix(after, part),
{
    assert((part + after).subrange(0, part.len() as int) =~= part);
    assert((before + part).subrange(before.len() as int, (before + part).len() as int) =~= part);
    let s = before + part + after;
    assert(s.subrange(before.len() as int, before.len() as int + part.len()) =~= part);
    assert(occurs_at(s, part, before.len() as int));
    if part.len() > 0 && after.len() > 0 && has_prefix(after, part) {
        assert(after.subrange(0, part.len() as int)[0] == after[0]);
    }
}

/// Every copy of a prefix is stripped, and of a suffix likewise; a text without
/// one stays as it is.
pub proof fn law_every_copy_is_stripped(s: Seq<char>, part: Seq<char>)
    requires
        part.len() > 0,
    ensures
        strip_prefixes(part + s, part) == strip_prefixes(s, part),
        strip_suffixes(s + part, part) == strip_suffixes(s, part),
        !has_prefix(s, part) ==> strip_prefixes(s, part) == s,
        !has_suffix(s, part) ==> strip_suffixes(s, part) == s,
{
    law_parts_are_found(s, part, s);
    let a = part + s;
    assert(a.subrange(part.len() as int, a.len() as int) =~= s);
    let b = s + part;
    assert(b.subrange(0, b.len() - part.len()) =~= s);
}

/// Only the capital letters of ASCII are lowered, each to its small one.
pub proof fn law_capitals_are_lowered(s: Seq<char>, i: int)
    requires
        0 <= i < s.len(),
    ensures
        lower_of(s).len() == s.len(),
        'A' <= s[i] && s[i] <= 'Z' ==> lower_of(s)[i] as int - 'a' as int == s[i] as int
            - 'A' as int,
        !('A' <= s[i] && s[i] <= 'Z') ==> lower_of(s)[i] == s[i],
{
}

/// A list is joined with the separator between neighbours, and only there.
pub proof fn law_separators_stand_between(a: Seq<char>, b: Seq<char>, sep: Seq<char>)
    ensures
        join_of(Seq::empty(), sep).len() == 0,
        join_of(seq![a], sep) == a,
        join_of(seq![a, b], sep) == a + sep + b,
{
    assert(seq![a, b].drop_last() =~= seq![a]);
    assert(join_of(seq![a], sep) == a);
}

/// What is cut off keeps the characters from the start, and no more of them than
/// there are.
pub proof fn law_a_prefix_is_cut_off(s: Seq<char>, n: nat, i: int)
    ensures
        prefix_of(s, n).len() <= n && prefix_of(s, n).len() <= s.len(),
        n <= s.len() ==> prefix_of(s, n).len() == n,
        n > s.len() ==> prefix_of(s, n) == s,
        0 <= i < prefix_of(s, n).len() ==> prefix_of(s, n)[i] == s[i],
{
}

} // verus!
