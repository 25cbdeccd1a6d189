//! Character-level string utilities with specifications over `Seq<char>`.
use vstd::prelude::*;

verus! {

broadcast use vstd::string::group_string_axioms;

/// `p` is a prefix of `s`.
pub open spec fn seq_starts_with(s: Seq<char>, p: Seq<char>) -> bool {
    p.len() <= s.len() && s.subrange(0, p.len() as int) == p
}

/// `p` occurs in `s` at position `i`.
pub open spec fn occurs_at(s: Seq<char>, p: Seq<char>, i: int) -> bool {
    0 <= i && i + p.len() <= s.len() && s.subrange(i, i + p.len()) == p
}

/// `p` occurs somewhere in `s`.
pub open spec fn seq_contains(s: Seq<char>, p: Seq<char>) -> bool {
    exists|i: int| occurs_at(s, p, i)
}

/// Collects the characters of a string slice with `str::chars`.
///
/// Trusted: the vector holds the characters of `s`, in order.
#[verifier::external_body]
pub(crate) fn chars_of(s: &str) -> (v: Vec<char>)
    ensures
        v@ == s@,
{
    s.chars().collect()
}

/// Builds a string from characters with `String`'s `FromIterator<&char>`.
///
/// Trusted: the string consists of exactly those characters, in order.
#[verifier::external_body]
pub(crate) fn string_from_chars(v: &[char]) -> (s: String)
    ensures
        s@ == v@,
{
    v.iter().collect()
}

/// Copies a string slice into an owned string.
pub fn owned(s: &str) -> (r: String)
    ensures
        r@ == s@,
{
    s.to_string()
}

/// Appends `b` to `a`.
pub fn concat(a: &str, b: &str) -> (r: String)
    ensures
        r@ == a@ + b@,
{
    let mut r = a.to_string();
    r.append(b);
    r
}

/// Whether `s` starts with `p`.
pub fn starts_with(s: &str, p: &str) -> (b: bool)
    ensures
        b == seq_starts_with(s@, p@),
{
    let sv = chars_of(s);
    let pv = chars_of(p);
    if pv.len() > sv.len() {
        return false;
    }
    let mut i: usize = 0;
    while i < pv.len()
        invariant
            sv@ == s@,
            pv@ == p@,
            pv.len() <= sv.len(),
            i <= pv.len(),
            forall|k: int| 0 <= k < i ==> sv@[k] == pv@[k],
        decreases pv.len() - i,
    {
        if sv[i] != pv[i] {
            assert(s@.subrange(0, p@.len() as int)[i as int] != p@[i as int]);
            return false;
        }
        i = i + 1;
    }
    assert(s@.subrange(0, p@.len() as int) =~= p@);
    true
}

/// Whether two string slices hold the same characters.
pub fn str_eq(a: &str, b: &str) -> (r: bool)
    ensures
        r == (a@ == b@),
{
    let x = a.to_string();
    let y = b.to_string();
    x == y
}


/// The characters `sv[from..to]` as a string.
pub fn sub_string(sv: &Vec<char>, from: usize, to: usize) -> (r: String)
    requires
        from <= to <= sv@.len(),
    ensures
        r@ == sv@.subrange(from as int, to as int),
{
    let mut out: Vec<char> = Vec::new();
    let mut i: usize = from;
    while i < to
        invariant
            from <= i <= to <= sv@.len(),
            out@ == sv@.subrange(from as int, i as int),
        decreases to - i,
    {
        out.push(sv[i]);
        i = i + 1;
        assert(out@ =~= sv@.subrange(from as int, i as int));
    }
    string_from_chars(out.as_slice())
}

/// Removes the prefix `p` from `s` when `s` starts with it.
pub fn strip_prefix(s: &str, p: &str) -> (r: Option<String>)
    ensures
        r is Some <==> seq_starts_with(s@, p@),
        r matches Some(t) ==> t@ == s@.skip(p@.len() as int),
{
    if starts_with(s, p) {
        let sv = chars_of(s);
        let pv = chars_of(p);
        Some(sub_string(&sv, pv.len(), sv.len()))
    } else {
        None
    }
}

/// Index of the first occurrence of `p` in `s`.
pub open spec fn is_first_occurrence(s: Seq<char>, p: Seq<char>, i: int) -> bool {
    occurs_at(s, p, i) && forall|j: int| 0 <= j < i ==> !occurs_at(s, p, j)
}

/// Whether `p` occurs in `sv` at position `i` (executable form).
fn matches_at(sv: &Vec<char>, pv: &Vec<char>, i: usize) -> (b: bool)
    requires
        i + pv@.len() <= sv@.len(),
    ensures
        b == occurs_at(sv@, pv@, i as int),
{
    let mut k: usize = 0;
    while k < pv.len()
        invariant
            i + pv.len() <= sv.len(),
            k <= pv.len(),
            forall|m: int| 0 <= m < k ==> sv@[i + m] == pv@[m],
        decreases pv.len() - k,
    {
        if sv[i + k] != pv[k] {
            assert(sv@.subrange(i as int, i + pv@.len())[k as int] != pv@[k as int]);
            return false;
        }
        k = k + 1;
    }
    assert(sv@.subrange(i as int, i + pv@.len()) =~= pv@);
    true
}

/// Finds the first position at which `p` occurs in the characters `sv`.
pub fn find_chars(sv: &Vec<char>, pv: &Vec<char>) -> (r: Option<usize>)
    ensures
        r matches Some(i) ==> is_first_occurrence(sv@, pv@, i as int),
        r is None ==> !seq_contains(sv@, pv@),
{
    if pv.len() > sv.len() {
        return None;
    }
    let mut i: usize = 0;
    let last = sv.len() - pv.len();
    loop
        invariant
            last == sv@.len() - pv@.len(),
            pv@.len() <= sv@.len(),
            i <= last,
            forall|j: int| 0 <= j < i ==> !occurs_at(sv@, pv@, j),
        decreases last - i,
    {
        if matches_at(sv, pv, i) {
            return Some(i);
        }
        if i == last {
            return None;
        }
        i = i + 1;
    }
}

/// Finds the first position at which `p` occurs in `s`.
pub fn find(s: &str, p: &str) -> (r: Option<usize>)
    ensures
        r matches Some(i) ==> is_first_occurrence(s@, p@, i as int),
        r is None ==> !seq_contains(s@, p@),
{
    let sv = chars_of(s);
    let pv = chars_of(p);
    find_chars(&sv, &pv)
}

/// Whether `p` occurs in `s`.
pub fn contains(s: &str, p: &str) -> (b: bool)
    ensures
        b == seq_contains(s@, p@),
{
    find(s, p).is_some()
}

/// Splits `s` at every occurrence of `c`, as `str::split` with a single character.
pub open spec fn split_char(s: Seq<char>, c: char) -> Seq<Seq<char>>
    decreases s.len(),
{
    if s.len() == 0 {
        seq![Seq::<char>::empty()]
    } else {
        let prev = split_char(s.drop_last(), c);
        if s.last() == c {
            prev.push(Seq::<char>::empty())
        } else {
            prev.update(prev.len() - 1, prev.last().push(s.last()))
        }
    }
}

pub proof fn lemma_split_char_nonempty(s: Seq<char>, c: char)
    ensures
        split_char(s, c).len() >= 1,
    decreases s.len(),
{
    if s.len() > 0 {
        lemma_split_char_nonempty(s.drop_last(), c);
    }
}

/// The views of a vector of strings.
pub open spec fn views(v: Seq<String>) -> Seq<Seq<char>> {
    v.map_values(|x: String| x@)
}

/// Splits `s` at every occurrence of `c`.
pub fn split(s: &str, c: char) -> (r: Vec<String>)
    ensures
        views(r@) == split_char(s@, c),
{
    let sv = chars_of(s);
    let mut pieces: Vec<String> = Vec::new();
    let mut cur: Vec<char> = Vec::new();
    let mut i: usize = 0;
    proof {
        assert(s@.take(0) =~= Seq::<char>::empty());
    }
    while i < sv.len()
        invariant
            sv@ == s@,
            i <= sv.len(),
            views(pieces@).push(cur@) == split_char(s@.take(i as int), c),
        decreases sv.len() - i,
    {
        let ch = sv[i];
        proof {
            lemma_split_char_nonempty(s@.take(i as int), c);
            assert(s@.take(i + 1).drop_last() =~= s@.take(i as int));
            assert(s@.take(i + 1).last() == ch);
        }
        if ch == c {
            let piece = string_from_chars(cur.as_slice());
            let ghost before = pieces@;
            pieces.push(piece);
            cur = Vec::new();
            proof {
                assert(views(pieces@) =~= views(before).push(piece@));
            }
        } else {
            cur.push(ch);
        }
        i = i + 1;
    }
    proof {
        assert(s@.take(sv.len() as int) =~= s@);
    }
    let last = string_from_chars(cur.as_slice());
    let ghost before = pieces@;
    pieces.push(last);
    proof {
        assert(views(pieces@) =~= views(before).push(last@));
    }
    pieces
}


/// The pieces joined by `sep`, as `[T]::join`.
pub open spec fn seq_join(pieces: Seq<Seq<char>>, sep: Seq<char>) -> Seq<char>
    decreases pieces.len(),
{
    if pieces.len() == 0 {
        Seq::empty()
    } else if pieces.len() == 1 {
        pieces[0]
    } else {
        seq_join(pieces.drop_last(), sep) + sep + pieces.last()
    }
}

/// Joins the strings of `pieces` with `sep` between consecutive ones.
pub fn join(pieces: &Vec<String>, sep: &str) -> (r: String)
    ensures
        r@ == seq_join(views(pieces@), sep@),
{
    let mut r = String::new();
    let mut i: usize = 0;
    while i < pieces.len()
        invariant
            i <= pieces.len(),
            r@ == seq_join(views(pieces@).take(i as int), sep@),
        decreases pieces.len() - i,
    {
        proof {
            assert(views(pieces@).take(i + 1).drop_last() =~= views(pieces@).take(i as int));
            assert(views(pieces@).take(i + 1).last() == pieces@[i as int]@);
        }
        if i > 0 {
            r.append(sep);
        } else {
            assert(views(pieces@).take(i + 1) =~= seq![pieces@[0]@]);
        }
        r.append(pieces[i].as_str());
        i = i + 1;
    }
    assert(views(pieces@).take(pieces.len() as int) =~= views(pieces@));
    r
}

/// The code of the ASCII lower-case form of a character.
pub open spec fn ascii_lower(c: char) -> u32 {
    if 'A' <= c <= 'Z' {
        (c as u32 + 32) as u32
    } else {
        c as u32
    }
}

/// `a.eq_ignore_ascii_case(b)`.
pub open spec fn eq_ignore_ascii_case_spec(a: Seq<char>, b: Seq<char>) -> bool {
    a.len() == b.len() && forall|i: int| 0 <= i < a.len() ==> ascii_lower(#[trigger] a[i]) == ascii_lower(b[i])
}

fn to_ascii_lower(c: char) -> (r: u32)
    ensures
        r == ascii_lower(c),
{
    if 'A' <= c && c <= 'Z' {
        c as u32 + 32
    } else {
        c as u32
    }
}

/// Whether two strings are equal when ASCII letters are compared without case.
pub fn eq_ignore_ascii_case(a: &str, b: &str) -> (r: bool)
    ensures
        r == eq_ignore_ascii_case_spec(a@, b@),
{
    let av = chars_of(a);
    let bv = chars_of(b);
    if av.len() != bv.len() {
        return false;
    }
    let mut i: usize = 0;
    while i < av.len()
        invariant
            av@ == a@,
            bv@ == b@,
            av.len() == bv.len(),
            i <= av.len(),
            forall|k: int| 0 <= k < i ==> ascii_lower(#[trigger] a@[k]) == ascii_lower(b@[k]),
        decreases av.len() - i,
    {
        if to_ascii_lower(av[i]) != to_ascii_lower(bv[i]) {
            return false;
        }
        i = i + 1;
    }
    true
}


/// The decimal digit character for `d < 10`.
pub open spec fn digit_char(d: nat) -> char {
    if d == 0 { '0' } else if d == 1 { '1' } else if d == 2 { '2' } else if d == 3 { '3' }
    else if d == 4 { '4' } else if d == 5 { '5' } else if d == 6 { '6' } else if d == 7 { '7' }
    else if d == 8 { '8' } else { '9' }
}

/// The decimal text of `n`, without leading zeros.
pub open spec fn decimal(n: nat) -> Seq<char>
    decreases n,
{
    if n < 10 {
        seq![digit_char(n)]
    } else {
        decimal(n / 10).push(digit_char(n % 10))
    }
}

/// `s` left-padded with `'0'` to at least `width` characters.
pub open spec fn zero_pad(s: Seq<char>, width: nat) -> Seq<char> {
    if s.len() >= width {
        s
    } else {
        Seq::new((width - s.len()) as nat, |i: int| '0') + s
    }
}

fn digit(d: u64) -> (c: char)
    requires
        d < 10,
    ensures
        c == digit_char(d as nat),
{
    if d == 0 { '0' } else if d == 1 { '1' } else if d == 2 { '2' } else if d == 3 { '3' }
    else if d == 4 { '4' } else if d == 5 { '5' } else if d == 6 { '6' } else if d == 7 { '7' }
    else if d == 8 { '8' } else { '9' }
}

fn decimal_chars(n: u64) -> (v: Vec<char>)
    ensures
        v@ == decimal(n as nat),
    decreases n,
{
    if n < 10 {
        let mut v: Vec<char> = Vec::new();
        v.push(digit(n));
        proof {
            assert(v@ =~= seq![digit_char(n as nat)]);
        }
        v
    } else {
        let mut v = decimal_chars(n / 10);
        v.push(digit(n % 10));
        v
    }
}

/// The decimal text of `n` (`n.to_string()`).
pub fn decimal_string(n: u64) -> (s: String)
    ensures
        s@ == decimal(n as nat),
{
    let v = decimal_chars(n);
    string_from_chars(v.as_slice())
}

/// The decimal text of `n` left-padded with zeros to `width` (`{n:0width$}`).
pub fn padded_decimal(n: u64, width: usize) -> (s: String)
    ensures
        s@ == zero_pad(decimal(n as nat), width as nat),
{
    let v = decimal_chars(n);
    if v.len() >= width {
        return string_from_chars(v.as_slice());
    }
    let mut out: Vec<char> = Vec::new();
    let k = width - v.len();
    let mut i: usize = 0;
    while i < k
        invariant
            i <= k,
            out@ == Seq::new(i as nat, |j: int| '0'),
        decreases k - i,
    {
        out.push('0');
        i = i + 1;
        assert(out@ =~= Seq::new(i as nat, |j: int| '0'));
    }
    let mut j: usize = 0;
    while j < v.len()
        invariant
            j <= v.len(),
            out@ == Seq::new(k as nat, |x: int| '0') + v@.take(j as int),
        decreases v.len() - j,
    {
        out.push(v[j]);
        j = j + 1;
        assert(out@ =~= Seq::new(k as nat, |x: int| '0') + v@.take(j as int));
    }
    assert(v@.take(v.len() as int) =~= v@);
    string_from_chars(out.as_slice())
}


/// Unicode `White_Space`, the set that `char::is_whitespace` tests.
pub open spec fn is_white_space(c: char) -> bool {
    ('\u{9}' <= c <= '\u{d}') || c == ' ' || c == '\u{85}' || c == '\u{a0}' || c == '\u{1680}'
        || ('\u{2000}' <= c <= '\u{200a}') || c == '\u{2028}' || c == '\u{2029}' || c == '\u{202f}'
        || c == '\u{205f}' || c == '\u{3000}'
}

/// Whether `c` is Unicode white space.
pub fn is_whitespace(c: char) -> (b: bool)
    ensures
        b == is_white_space(c),
{
    ('\u{9}' <= c && c <= '\u{d}') || c == ' ' || c == '\u{85}' || c == '\u{a0}' || c == '\u{1680}'
        || ('\u{2000}' <= c && c <= '\u{200a}') || c == '\u{2028}' || c == '\u{2029}' || c == '\u{202f}'
        || c == '\u{205f}' || c == '\u{3000}'
}

/// `s` without its trailing white space (`str::trim_end`).
pub open spec fn trim_end_ws(s: Seq<char>) -> Seq<char>
    decreases s.len(),
{
    if s.len() > 0 && is_white_space(s.last()) {
        trim_end_ws(s.drop_last())
    } else {
        s
    }
}

/// `s` without its trailing `'\n'` and `'\r'` characters.
pub open spec fn trim_end_newlines_spec(s: Seq<char>) -> Seq<char>
    decreases s.len(),
{
    if s.len() > 0 && (s.last() == '\n' || s.last() == '\r') {
        trim_end_newlines_spec(s.drop_last())
    } else {
        s
    }
}

proof fn lemma_trim_prefix_ws(s: Seq<char>, n: int)
    requires
        0 <= n <= s.len(),
        forall|k: int| n <= k < s.len() ==> is_white_space(s[k]),
    ensures
        trim_end_ws(s) == trim_end_ws(s.take(n)),
    decreases s.len() - n,
{
    if n < s.len() {
        assert(s.drop_last() =~= s.take(s.len() - 1));
        lemma_trim_prefix_ws(s.take(s.len() - 1), n);
        assert(s.take(s.len() - 1).take(n) =~= s.take(n));
    } else {
        assert(s.take(n) =~= s);
    }
}

proof fn lemma_trim_prefix_nl(s: Seq<char>, n: int)
    requires
        0 <= n <= s.len(),
        forall|k: int| n <= k < s.len() ==> s[k] == '\n' || s[k] == '\r',
    ensures
        trim_end_newlines_spec(s) == trim_end_newlines_spec(s.take(n)),
    decreases s.len() - n,
{
    if n < s.len() {
        assert(s.drop_last() =~= s.take(s.len() - 1));
        lemma_trim_prefix_nl(s.take(s.len() - 1), n);
        assert(s.take(s.len() - 1).take(n) =~= s.take(n));
    } else {
        assert(s.take(n) =~= s);
    }
}

/// `s.trim_end()`.
pub fn trim_end(s: &str) -> (r: String)
    ensures
        r@ == trim_end_ws(s@),
{
    let v = chars_of(s);
    let mut n: usize = v.len();
    while n > 0 && is_whitespace(v[n - 1])
        invariant
            n <= v@.len(),
            v@ == s@,
            forall|k: int| n <= k < v@.len() ==> is_white_space(v@[k]),
        decreases n,
    {
        n = n - 1;
    }
    proof {
        lemma_trim_prefix_ws(s@, n as int);
        assert(s@.take(n as int).subrange(0, n as int) =~= s@.take(n as int));
    }
    sub_string(&v, 0, n)
}

/// `s.trim_end_matches(['\n', '\r'])`.
pub fn trim_end_newlines(s: &str) -> (r: String)
    ensures
        r@ == trim_end_newlines_spec(s@),
{
    let v = chars_of(s);
    let mut n: usize = v.len();
    while n > 0 && (v[n - 1] == '\n' || v[n - 1] == '\r')
        invariant
            n <= v@.len(),
            v@ == s@,
            forall|k: int| n <= k < v@.len() ==> v@[k] == '\n' || v@[k] == '\r',
        decreases n,
    {
        n = n - 1;
    }
    proof {
        lemma_trim_prefix_nl(s@, n as int);
    }
    sub_string(&v, 0, n)
}


pub open spec fn is_digit(c: char) -> bool {
    '0' <= c <= '9'
}

/// Every character of `s` is an ASCII digit.
pub open spec fn all_digits(s: Seq<char>) -> bool {
    forall|i: int| 0 <= i < s.len() ==> is_digit(#[trigger] s[i])
}

/// The value of a string of ASCII digits.
pub open spec fn digits_value(s: Seq<char>) -> nat
    decreases s.len(),
{
    if s.len() == 0 {
        0
    } else {
        digits_value(s.drop_last()) * 10 + ((s.last() as u32 - '0' as u32) as nat)
    }
}

/// The value of a non-empty string of ASCII digits, when it is at most `max`.
pub open spec fn spec_parse_digits(s: Seq<char>, max: nat) -> Option<nat> {
    if s.len() > 0 && all_digits(s) && digits_value(s) <= max {
        Some(digits_value(s))
    } else {
        None
    }
}

/// `s.parse::<uN>()` for an unsigned type whose largest value is `max`: an
/// optional `+` followed by at least one ASCII digit, in range.
pub open spec fn spec_parse_unsigned(s: Seq<char>, max: nat) -> Option<nat> {
    if s.len() > 0 && s[0] == '+' {
        spec_parse_digits(s.drop_first(), max)
    } else {
        spec_parse_digits(s, max)
    }
}

fn parse_digits_from(v: &Vec<char>, from: usize, max: u64) -> (r: Option<u64>)
    requires
        from <= v@.len(),
    ensures
        match r {
            Some(n) => spec_parse_digits(v@.skip(from as int), max as nat) == Some(n as nat),
            None => spec_parse_digits(v@.skip(from as int), max as nat) is None,
        },
{
    let ghost s = v@.skip(from as int);
    if from == v.len() {
        return None;
    }
    let mut acc: u64 = 0;
    let mut i: usize = from;
    while i < v.len()
        invariant
            from <= i <= v@.len(),
            s == v@.skip(from as int),
            all_digits(v@.subrange(from as int, i as int)),
            acc as nat == digits_value(v@.subrange(from as int, i as int)),
            acc <= max,
        decreases v.len() - i,
    {
        let c = v[i];
        proof {
            assert(v@.subrange(from as int, i + 1).drop_last() =~= v@.subrange(from as int, i as int));
        }
        if !('0' <= c && c <= '9') {
            proof {
                assert(s[i - from] == c);
            }
            return None;
        }
        let d: u64 = (c as u32 - '0' as u32) as u64;
        if d > max || acc > (max - d) / 10 {
            proof {
                assert(s.take(i - from + 1) =~= v@.subrange(from as int, i + 1));
                assert(acc * 10 + d > max) by (nonlinear_arith)
                    requires
                        d > max || acc > (max - d) / 10,
                        d <= 9,
                ;
                assert(digits_value(v@.subrange(from as int, i + 1)) == acc * 10 + d);
                lemma_prefix_exceeds(s, (i - from + 1) as int, max as nat);
            }
            return None;
        }
        assert(acc * 10 + d <= max) by (nonlinear_arith)
            requires
                d <= max,
                acc <= (max - d) / 10,
        ;
        acc = acc * 10 + d;
        i = i + 1;
        proof {
            assert(all_digits(v@.subrange(from as int, i as int)));
        }
    }
    proof {
        assert(v@.subrange(from as int, v@.len() as int) =~= s);
    }
    Some(acc)
}

/// A digit string whose prefix of length `k` has a value above `max` has a
/// value above `max` too.
proof fn lemma_prefix_exceeds(s: Seq<char>, k: int, max: nat)
    requires
        0 < k <= s.len(),
        all_digits(s.take(k)),
        digits_value(s.take(k)) > max,
    ensures
        spec_parse_digits(s, max) is None,
    decreases s.len() - k,
{
    if k < s.len() {
        if all_digits(s.take(k + 1)) {
            assert(s.take(k + 1).drop_last() =~= s.take(k));
            lemma_prefix_exceeds(s, k + 1, max);
        } else {
            let j = choose|j: int| 0 <= j < k + 1 && !is_digit(#[trigger] s.take(k + 1)[j]);
            assert(!is_digit(s[j]));
        }
    } else {
        assert(s.take(k) =~= s);
    }
}

/// Parses an unsigned decimal number of at most `max`, as `str::parse` does
/// for unsigned integer types.
pub fn parse_unsigned(s: &str, max: u64) -> (r: Option<u64>)
    ensures
        match r {
            Some(n) => spec_parse_unsigned(s@, max as nat) == Some(n as nat),
            None => spec_parse_unsigned(s@, max as nat) is None,
        },
{
    let v = chars_of(s);
    if v.len() > 0 && v[0] == '+' {
        assert(v@.skip(1) =~= s@.drop_first());
        parse_digits_from(&v, 1, max)
    } else {
        assert(v@.skip(0) =~= s@);
        parse_digits_from(&v, 0, max)
    }
}

/// Parses a non-empty string of ASCII digits of value at most `max`.
pub fn parse_digits(s: &str, max: u64) -> (r: Option<u64>)
    ensures
        match r {
            Some(n) => spec_parse_digits(s@, max as nat) == Some(n as nat),
            None => spec_parse_digits(s@, max as nat) is None,
        },
{
    let v = chars_of(s);
    assert(v@.skip(0) =~= s@);
    parse_digits_from(&v, 0, max)
}


/// The Unicode lowercase mapping of a string, as `str::to_lowercase` computes it.
pub uninterp spec fn unicode_lowercase(s: Seq<char>) -> Seq<char>;

/// Lowercases `s` with `str::to_lowercase`.
///
/// Trusted: the result is `unicode_lowercase` of the input; the Unicode case
/// tables that `std` follows are not restated.
#[verifier::external_body]
pub(crate) fn to_lowercase(s: &str) -> (r: String)
    ensures
        r@ == unicode_lowercase(s@),
{
    s.to_lowercase()
}

/// Whether `char::is_alphanumeric` holds of `c` (Unicode Alphabetic or Numeric).
pub uninterp spec fn unicode_alphanumeric(c: char) -> bool;

/// Tests `c` with `char::is_alphanumeric`.
///
/// Trusted: the result is `unicode_alphanumeric(c)`; the Unicode property
/// tables are not restated.
#[verifier::external_body]
pub(crate) fn is_alphanumeric(c: char) -> (b: bool)
    ensures
        b == unicode_alphanumeric(c),
{
    c.is_alphanumeric()
}

/// Whether one of the strings of `v` equals `x`.
pub fn contains_string(v: &Vec<String>, x: &str) -> (b: bool)
    ensures
        b == views(v@).contains(x@),
{
    let mut i: usize = 0;
    while i < v.len()
        invariant
            i <= v.len(),
            forall|k: int| 0 <= k < i ==> views(v@)[k] != x@,
        decreases v.len() - i,
    {
        if str_eq(v[i].as_str(), x) {
            assert(views(v@)[i as int] == x@);
            return true;
        }
        i = i + 1;
    }
    false
}

/// `s` with later repetitions of an element removed; first occurrences keep
/// their order.
pub open spec fn dedup<A>(s: Seq<A>) -> Seq<A>
    decreases s.len(),
{
    if s.len() == 0 {
        Seq::empty()
    } else if s.drop_last().contains(s.last()) {
        dedup(s.drop_last())
    } else {
        dedup(s.drop_last()).push(s.last())
    }
}

/// Removing repetitions keeps exactly the elements that occur.
pub proof fn lemma_dedup_contains<A>(s: Seq<A>, x: A)
    ensures
        dedup(s).contains(x) == s.contains(x),
    decreases s.len(),
{
    if s.len() > 0 {
        let d = s.drop_last();
        let l = s.last();
        lemma_dedup_contains(d, x);
        lemma_push_contains(d, l, x);
        assert(s =~= d.push(l));
        if !d.contains(l) {
            lemma_push_contains(dedup(d), l, x);
        }
    }
}

/// An element occurs in `s.push(l)` when it occurs in `s` or is `l`.
pub proof fn lemma_push_contains<A>(s: Seq<A>, l: A, x: A)
    ensures
        s.push(l).contains(x) == (s.contains(x) || l == x),
{
    if s.push(l).contains(x) {
        let k = choose|k: int| 0 <= k < s.push(l).len() && s.push(l)[k] == x;
        if k < s.len() {
            assert(s[k] == x);
        }
    }
    if s.contains(x) {
        let k = choose|k: int| 0 <= k < s.len() && s[k] == x;
        assert(s.push(l)[k] == x);
    }
    if l == x {
        assert(s.push(l)[s.len() as int] == x);
    }
}

/// No element occurs twice in `s`.
pub open spec fn no_repeats<A>(s: Seq<A>) -> bool {
    forall|i: int, j: int| 0 <= i < j < s.len() ==> s[i] != s[j]
}

/// Removing repetitions leaves no repetition.
pub proof fn lemma_dedup_no_repeats<A>(s: Seq<A>)
    ensures
        no_repeats(dedup(s)),
    decreases s.len(),
{
    if s.len() > 0 {
        lemma_dedup_no_repeats(s.drop_last());
        lemma_dedup_contains(s.drop_last(), s.last());
    }
}

/// Copies the strings of `v`, dropping every string equal to an earlier one.
pub fn dedup_strings(v: &Vec<String>) -> (r: Vec<String>)
    ensures
        views(r@) == dedup(views(v@)),
{
    let mut out: Vec<String> = Vec::new();
    let mut j: usize = 0;
    while j < v.len()
        invariant
            j <= v.len(),
            views(out@) == dedup(views(v@).take(j as int)),
        decreases v.len() - j,
    {
        let ghost t = views(v@).take(j + 1);
        proof {
            assert(t.drop_last() =~= views(v@).take(j as int));
            assert(t.last() == v@[j as int]@);
            lemma_dedup_contains(t.drop_last(), t.last());
        }
        if !contains_string(&out, v[j].as_str()) {
            let ghost before = out@;
            out.push(owned(v[j].as_str()));
            proof {
                assert(views(out@) =~= views(before).push(v@[j as int]@));
            }
        }
        j = j + 1;
    }
    assert(views(v@).take(v.len() as int) =~= views(v@));
    out
}


/// Lines of text, each ended by a line feed, as consecutive `println!` calls
/// print them.
pub open spec fn text_lines(ls: Seq<Seq<char>>) -> Seq<char>
    decreases ls.len(),
{
    if ls.len() == 0 {
        Seq::empty()
    } else {
        text_lines(ls.drop_last()) + ls.last() + "\n"@
    }
}

/// Appends `line` and a line feed.
pub fn push_line(out: &mut String, line: &str)
    ensures
        final(out)@ == old(out)@ + line@ + "\n"@,
{
    out.append(line);
    out.append("\n");
}

/// `s` padded with spaces on the right to `width` characters (unchanged when
/// it is already that long), as `{:<width}` formats it.
pub open spec fn spec_pad_right(s: Seq<char>, width: nat) -> Seq<char> {
    if s.len() >= width {
        s
    } else {
        s + Seq::new((width - s.len()) as nat, |i: int| ' ')
    }
}

/// Left-aligns `s` in a field of `width` characters.
pub fn pad_right(s: &str, width: usize) -> (r: String)
    ensures
        r@ == spec_pad_right(s@, width as nat),
{
    let n = chars_of(s).len();
    let mut r = owned(s);
    if n < width {
        let mut k: usize = n;
        while k < width
            invariant
                n <= k <= width,
                n == s@.len(),
                r@ == s@ + Seq::new((k - n) as nat, |i: int| ' '),
            decreases width - k,
        {
            r.append(" ");
            proof {
                reveal_strlit(" ");
                assert(r@ =~= s@ + Seq::new((k + 1 - n) as nat, |i: int| ' '));
            }
            k = k + 1;
        }
    }
    r
}

/// `n` copies of `c`.
pub fn repeat_char(c: char, n: usize) -> (r: String)
    ensures
        r@ == Seq::new(n as nat, |i: int| c),
{
    let mut v: Vec<char> = Vec::new();
    let mut k: usize = 0;
    while k < n
        invariant
            k <= n,
            v@ == Seq::new(k as nat, |i: int| c),
        decreases n - k,
    {
        v.push(c);
        proof {
            assert(v@ =~= Seq::new((k + 1) as nat, |i: int| c));
        }
        k = k + 1;
    }
    string_from_chars(v.as_slice())
}

/// The text `{:?}` prints for a string: quoted, with escapes.
pub uninterp spec fn debug_text(s: Seq<char>) -> Seq<char>;

/// Formats a string with `{:?}`.
///
/// Trusted: the result is `debug_text` of the string; the escaping rules of
/// `str`'s `Debug` are not restated.
#[verifier::external_body]
pub(crate) fn debug_str(s: &str) -> (r: String)
    ensures
        r@ == debug_text(s@),
{
    format!("{:?}", s)
}

/// `{:?}` of a list of strings: the quoted strings between brackets, separated
/// by `, `.
pub open spec fn debug_list(v: Seq<Seq<char>>) -> Seq<char> {
    "["@ + seq_join(v.map_values(|s: Seq<char>| debug_text(s)), ", "@) + "]"@
}

/// Formats a list of strings as `{:?}` does.
pub fn debug_string_list(v: &Vec<String>) -> (r: String)
    ensures
        r@ == debug_list(views(v@)),
{
    let mut items: Vec<String> = Vec::new();
    let mut i: usize = 0;
    while i < v.len()
        invariant
            i <= v.len(),
            views(items@) == views(v@).take(i as int).map_values(|s: Seq<char>| debug_text(s)),
        decreases v.len() - i,
    {
        let ghost before = items@;
        items.push(debug_str(v[i].as_str()));
        proof {
            assert(views(items@) =~= views(before).push(debug_text(v@[i as int]@)));
            assert(views(v@).take(i + 1).map_values(|s: Seq<char>| debug_text(s))
                =~= views(v@).take(i as int).map_values(|s: Seq<char>| debug_text(s)).push(debug_text(v@[i as int]@)));
        }
        i = i + 1;
    }
    assert(views(v@).take(v.len() as int) =~= views(v@));
    let inner = join(&items, ", ");
    let a = concat("[", inner.as_str());
    concat(a.as_str(), "]")
}

/// `true` or `false`.
pub open spec fn bool_text(b: bool) -> Seq<char> {
    if b { "true"@ } else { "false"@ }
}

/// Formats a boolean as `{}` does.
pub fn bool_string(b: bool) -> (r: String)
    ensures
        r@ == bool_text(b),
{
    if b { owned("true") } else { owned("false") }
}


/// The lines, each ended by a line feed, in one string.
pub fn lines_text(lines: &Vec<String>) -> (r: String)
    ensures
        r@ == text_lines(views(lines@)),
{
    let mut out = String::new();
    let mut i: usize = 0;
    while i < lines.len()
        invariant
            i <= lines.len(),
            out@ == text_lines(views(lines@).take(i as int)),
        decreases lines.len() - i,
    {
        proof {
            assert(views(lines@).take(i + 1).drop_last() =~= views(lines@).take(i as int));
        }
        push_line(&mut out, lines[i].as_str());
        i = i + 1;
    }
    assert(views(lines@).take(lines.len() as int) =~= views(lines@));
    out
}

} // verus!
