//! Character-level helpers shared by the parsers and formatters of this crate.
//!
//! All text logic in the crate is written over `Vec<char>` and specified over
//! `Seq<char>`; the functions here move between `&str`/`String` and that form.
use vstd::prelude::*;
use vstd::string::*;

verus! {

/// `String::push` appends exactly one character.
pub assume_specification[ String::push ](s: &mut String, c: char)
    ensures
        final(s)@ == old(s)@.push(c),
;

/// The characters of `s`, in order.
pub fn chars_of(s: &str) -> (out: Vec<char>)
    ensures
        out@ == s@,
{
    let mut out: Vec<char> = Vec::new();
    for c in it: s.chars()
        invariant
            out@ == it.seq().take(it.index()),
            it.seq() == s@,
    {
        out.push(c);
    }
    out
}

/// The string made of the characters `v`, in order.
pub fn string_of(v: &Vec<char>) -> (out: String)
    ensures
        out@ == v@,
{
    let mut out = String::new();
    let mut i: usize = 0;
    while i < v.len()
        invariant
            i <= v.len(),
            out@ == v@.take(i as int),
        decreases v.len() - i,
    {
        out.push(v[i]);
        i += 1;
    }
    out
}

/// The decimal digit `d` as a character.
pub open spec fn spec_digit_char(d: int) -> char {
    if d == 0 {
        '0'
    } else if d == 1 {
        '1'
    } else if d == 2 {
        '2'
    } else if d == 3 {
        '3'
    } else if d == 4 {
        '4'
    } else if d == 5 {
        '5'
    } else if d == 6 {
        '6'
    } else if d == 7 {
        '7'
    } else if d == 8 {
        '8'
    } else {
        '9'
    }
}

/// `n` written in base ten without leading zeros (`0` for zero).
pub open spec fn spec_decimal(n: nat) -> Seq<char>
    decreases n,
{
    if n < 10 {
        seq![spec_digit_char(n as int)]
    } else {
        spec_decimal(n / 10).push(spec_digit_char((n % 10) as int))
    }
}

/// `n` written with exactly two digits; meant for `n < 100`.
pub open spec fn spec_two_digits(n: nat) -> Seq<char> {
    seq![spec_digit_char((n / 10) as int), spec_digit_char((n % 10) as int)]
}

/// `n` written with at least two digits: zero-padded below ten.
pub open spec fn spec_decimal_pad2(n: nat) -> Seq<char> {
    if n < 10 {
        seq!['0', spec_digit_char(n as int)]
    } else {
        spec_decimal(n)
    }
}

/// The character of one decimal digit.
pub fn digit_char(d: u8) -> (c: char)
    requires
        d < 10,
    ensures
        c == spec_digit_char(d as int),
{
    if d == 0 {
        '0'
    } else if d == 1 {
        '1'
    } else if d == 2 {
        '2'
    } else if d == 3 {
        '3'
    } else if d == 4 {
        '4'
    } else if d == 5 {
        '5'
    } else if d == 6 {
        '6'
    } else if d == 7 {
        '7'
    } else if d == 8 {
        '8'
    } else {
        '9'
    }
}

/// Appends the base-ten form of `n` to `out`.
pub fn push_decimal(out: &mut Vec<char>, n: u128)
    ensures
        final(out)@ == old(out)@ + spec_decimal(n as nat),
    decreases n,
{
    if n >= 10 {
        push_decimal(out, n / 10);
    }
    out.push(digit_char((n % 10) as u8));
}

/// Appends `n` as two digits to `out`.
pub fn push_two_digits(out: &mut Vec<char>, n: u8)
    requires
        n < 100,
    ensures
        final(out)@ == old(out)@ + spec_two_digits(n as nat),
{
    out.push(digit_char(n / 10));
    out.push(digit_char(n % 10));
}

/// Appends `n` with at least two digits to `out`.
pub fn push_decimal_pad2(out: &mut Vec<char>, n: u128)
    ensures
        final(out)@ == old(out)@ + spec_decimal_pad2(n as nat),
{
    if n < 10 {
        out.push('0');
        out.push(digit_char(n as u8));
    } else {
        push_decimal(out, n);
    }
}

/// Appends the characters of `s` to `out`.
pub fn push_str(out: &mut Vec<char>, s: &str)
    ensures
        final(out)@ == old(out)@ + s@,
{
    let ghost before = out@;
    for c in it: s.chars()
        invariant
            out@ == before + it.seq().take(it.index()),
            it.seq() == s@,
    {
        out.push(c);
    }
}

/// Appends the characters of `v` to `out`.
pub fn push_chars(out: &mut Vec<char>, v: &Vec<char>)
    ensures
        final(out)@ == old(out)@ + v@,
{
    let ghost before = out@;
    let mut i: usize = 0;
    while i < v.len()
        invariant
            i <= v.len(),
            out@ == before + v@.take(i as int),
        decreases v.len() - i,
    {
        out.push(v[i]);
        i += 1;
    }
}

/// Classes of characters that the parsers of this crate strip or split on.
#[derive(Debug, Clone, Copy, PartialEq, Eq, Structural)]
pub enum CharClass {
    /// Space, tab, line feed, vertical tab, form feed, carriage return.
    Space,
    /// The double quote.
    Quote,
    /// The letter `v`.
    LetterV,
    /// Anything but ASCII letters, ASCII digits and the dot.
    NotVersionChar,
    /// White space, round brackets and the comma.
    VersionSeparator,
    /// The slash and the backslash.
    PathSeparator,
    /// Anything but the slash and the backslash.
    NotPathSeparator,
    /// Anything but the slash.
    NotSlash,
    /// Anything but the dot.
    NotDot,
    /// Anything but a decimal digit.
    NotDigit,
    /// Anything but white space.
    NotSpace,
    /// Anything but decimal digits and the dot.
    NotNumberChar,
}

/// `c` is an ASCII decimal digit.
pub open spec fn spec_is_digit(c: char) -> bool {
    '0' <= c <= '9'
}

/// `c` is an ASCII letter.
pub open spec fn spec_is_ascii_alpha(c: char) -> bool {
    ('a' <= c <= 'z') || ('A' <= c <= 'Z')
}

/// `c` is one of the six ASCII white-space characters.
pub open spec fn spec_is_space(c: char) -> bool {
    c == ' ' || c == '\t' || c == '\n' || c == '\r' || c == '\u{b}' || c == '\u{c}'
}

/// `c` belongs to `class`.
pub open spec fn in_class(class: CharClass, c: char) -> bool {
    match class {
        CharClass::Space => spec_is_space(c),
        CharClass::Quote => c == '"',
        CharClass::LetterV => c == 'v',
        CharClass::NotVersionChar => !spec_is_ascii_alpha(c) && !spec_is_digit(c) && c != '.',
        CharClass::VersionSeparator => spec_is_space(c) || c == '(' || c == ')' || c == ',',
        CharClass::PathSeparator => c == '/' || c == '\\',
        CharClass::NotPathSeparator => c != '/' && c != '\\',
        CharClass::NotSlash => c != '/',
        CharClass::NotDot => c != '.',
        CharClass::NotDigit => !spec_is_digit(c),
        CharClass::NotSpace => !spec_is_space(c),
        CharClass::NotNumberChar => !spec_is_digit(c) && c != '.',
    }
}

/// `s` without its longest prefix made of characters of `class`.
pub open spec fn spec_strip_start(s: Seq<char>, class: CharClass) -> Seq<char>
    decreases s.len(),
{
    if s.len() > 0 && in_class(class, s[0]) {
        spec_strip_start(s.drop_first(), class)
    } else {
        s
    }
}

/// `s` without its longest suffix made of characters of `class`.
pub open spec fn spec_strip_end(s: Seq<char>, class: CharClass) -> Seq<char>
    decreases s.len(),
{
    if s.len() > 0 && in_class(class, s.last()) {
        spec_strip_end(s.drop_last(), class)
    } else {
        s
    }
}

/// `s` with the characters of `class` stripped from both ends.
pub open spec fn spec_strip(s: Seq<char>, class: CharClass) -> Seq<char> {
    spec_strip_end(spec_strip_start(s, class), class)
}

/// `s` without leading and trailing white space.
pub open spec fn spec_trim(s: Seq<char>) -> Seq<char> {
    spec_strip(s, CharClass::Space)
}

/// `needle` stands in `hay` at position `i`.
pub open spec fn occurs_at(hay: Seq<char>, needle: Seq<char>, i: int) -> bool {
    &&& 0 <= i
    &&& i + needle.len() <= hay.len()
    &&& hay.subrange(i, i + needle.len()) == needle
}

/// `needle` stands somewhere in `hay`.
pub open spec fn spec_contains(hay: Seq<char>, needle: Seq<char>) -> bool {
    exists|i: int| occurs_at(hay, needle, i)
}

/// `i` is the first position at which `needle` stands in `hay`.
pub open spec fn is_first_occurrence(hay: Seq<char>, needle: Seq<char>, i: int) -> bool {
    &&& occurs_at(hay, needle, i)
    &&& forall|j: int| 0 <= j < i ==> !occurs_at(hay, needle, j)
}

/// The first position at which `needle` stands in `hay`, if any.
pub open spec fn spec_find(hay: Seq<char>, needle: Seq<char>) -> Option<int> {
    if spec_contains(hay, needle) {
        Some(choose|i: int| is_first_occurrence(hay, needle, i))
    } else {
        None
    }
}

/// `s` begins with `prefix`.
pub open spec fn spec_starts_with(s: Seq<char>, prefix: Seq<char>) -> bool {
    occurs_at(s, prefix, 0)
}

/// `s` ends with `suffix`.
pub open spec fn spec_ends_with(s: Seq<char>, suffix: Seq<char>) -> bool {
    occurs_at(s, suffix, s.len() - suffix.len())
}

/// The position of the first character of `class` in `s` at or after
/// `from`, or the length of `s` when there is none.
pub open spec fn spec_next_in_class(s: Seq<char>, class: CharClass, from: int) -> int
    decreases s.len() - from,
{
    if from >= s.len() {
        s.len() as int
    } else if in_class(class, s[from]) {
        from
    } else {
        spec_next_in_class(s, class, from + 1)
    }
}

/// The position of the first `c` in `s` at or after `from`, or the length of
/// `s` when there is none.
pub open spec fn spec_next_char(s: Seq<char>, c: char, from: int) -> int
    decreases s.len() - from,
{
    if from >= s.len() {
        s.len() as int
    } else if s[from] == c {
        from
    } else {
        spec_next_char(s, c, from + 1)
    }
}

/// The first position of `needle` is unique.
pub proof fn lemma_first_occurrence_unique(hay: Seq<char>, needle: Seq<char>, i: int, j: int)
    requires
        is_first_occurrence(hay, needle, i),
        is_first_occurrence(hay, needle, j),
    ensures
        i == j,
{
}

/// What `spec_find` returns is the first occurrence.
pub proof fn lemma_find_is_first(hay: Seq<char>, needle: Seq<char>, i: int)
    requires
        is_first_occurrence(hay, needle, i),
    ensures
        spec_find(hay, needle) == Some(i),
{
    assert(occurs_at(hay, needle, i));
    let k = choose|k: int| is_first_occurrence(hay, needle, k);
    lemma_first_occurrence_unique(hay, needle, i, k);
}

/// With no occurrence, `spec_find` returns nothing.
pub proof fn lemma_find_none(hay: Seq<char>, needle: Seq<char>)
    requires
        forall|j: int| !occurs_at(hay, needle, j),
    ensures
        spec_find(hay, needle) is None,
        !spec_contains(hay, needle),
{
}

/// `c` belongs to `class`.
pub fn class_has(class: CharClass, c: char) -> (b: bool)
    ensures
        b == in_class(class, c),
{
    let space = c == ' ' || c == '\t' || c == '\n' || c == '\r' || c == '\u{b}' || c == '\u{c}';
    match class {
        CharClass::Space => space,
        CharClass::Quote => c == '"',
        CharClass::LetterV => c == 'v',
        CharClass::NotVersionChar => !(('a' <= c && c <= 'z') || ('A' <= c && c <= 'Z')) && !('0'
            <= c && c <= '9') && c != '.',
        CharClass::VersionSeparator => space || c == '(' || c == ')' || c == ',',
        CharClass::PathSeparator => c == '/' || c == '\\',
        CharClass::NotPathSeparator => c != '/' && c != '\\',
        CharClass::NotSlash => c != '/',
        CharClass::NotDot => c != '.',
        CharClass::NotDigit => !('0' <= c && c <= '9'),
        CharClass::NotSpace => !space,
        CharClass::NotNumberChar => !('0' <= c && c <= '9') && c != '.',
    }
}

/// `c` is an ASCII decimal digit.
pub fn is_digit(c: char) -> (b: bool)
    ensures
        b == spec_is_digit(c),
{
    '0' <= c && c <= '9'
}

/// The characters of `s` from `lo` up to, not including, `hi`.
pub fn slice_chars(s: &Vec<char>, lo: usize, hi: usize) -> (out: Vec<char>)
    requires
        lo <= hi <= s.len(),
    ensures
        out@ == s@.subrange(lo as int, hi as int),
{
    let mut out: Vec<char> = Vec::new();
    let mut i: usize = lo;
    while i < hi
        invariant
            lo <= i <= hi <= s.len(),
            out@ == s@.subrange(lo as int, i as int),
        decreases hi - i,
    {
        out.push(s[i]);
        i += 1;
    }
    out
}

/// Stripping the front of `s` is stripping the front of what follows any
/// run of class characters at its start.
proof fn lemma_strip_start_skip(s: Seq<char>, class: CharClass, k: int)
    requires
        0 <= k <= s.len(),
        forall|j: int| 0 <= j < k ==> in_class(class, #[trigger] s[j]),
    ensures
        spec_strip_start(s, class) == spec_strip_start(s.skip(k), class),
    decreases k,
{
    if k == 0 {
        assert(s.skip(0) =~= s);
    } else {
        lemma_strip_start_skip(s, class, k - 1);
        let t = s.skip(k - 1);
        assert(t[0] == s[k - 1]);
        assert(t.drop_first() =~= s.skip(k));
    }
}

/// Stripping the back of `s` is stripping the back of what precedes any run
/// of class characters at its end.
proof fn lemma_strip_end_take(s: Seq<char>, class: CharClass, k: int)
    requires
        0 <= k <= s.len(),
        forall|j: int| k <= j < s.len() ==> in_class(class, #[trigger] s[j]),
    ensures
        spec_strip_end(s, class) == spec_strip_end(s.take(k), class),
    decreases s.len() - k,
{
    if k == s.len() {
        assert(s.take(k) =~= s);
    } else {
        lemma_strip_end_take(s, class, k + 1);
        let t = s.take(k + 1);
        assert(t.last() == s[k]);
        assert(t.drop_last() =~= s.take(k));
    }
}

/// Stripping the back of `s` leaves a prefix of `s`, and every character
/// behind that prefix is of `class`.
pub proof fn lemma_strip_end_prefix(s: Seq<char>, class: CharClass)
    ensures
        spec_strip_end(s, class).len() <= s.len(),
        spec_strip_end(s, class) == s.take(spec_strip_end(s, class).len() as int),
        forall|j: int|
            spec_strip_end(s, class).len() <= j < s.len() ==> in_class(class, #[trigger] s[j]),
        spec_strip_end(s, class).len() > 0 ==> !in_class(class, spec_strip_end(s, class).last()),
    decreases s.len(),
{
    if s.len() > 0 && in_class(class, s.last()) {
        lemma_strip_end_prefix(s.drop_last(), class);
        let r = spec_strip_end(s.drop_last(), class);
        assert(r =~= s.take(r.len() as int));
        assert forall|j: int| r.len() <= j < s.len() implies in_class(class, #[trigger] s[j]) by {
            if j < s.len() - 1 {
                assert(s.drop_last()[j] == s[j]);
            }
        }
    } else {
        assert(s =~= s.take(s.len() as int));
    }
}

/// `s` without its leading characters of `class`.
pub fn strip_start(s: &Vec<char>, class: CharClass) -> (out: Vec<char>)
    ensures
        out@ == spec_strip_start(s@, class),
{
    let mut lo: usize = 0;
    while lo < s.len() && class_has(class, s[lo])
        invariant
            lo <= s.len(),
            forall|j: int| 0 <= j < lo ==> in_class(class, #[trigger] s@[j]),
        decreases s.len() - lo,
    {
        lo += 1;
    }
    proof {
        lemma_strip_start_skip(s@, class, lo as int);
        assert(s@.skip(lo as int) =~= s@.subrange(lo as int, s@.len() as int));
        if lo < s.len() {
            assert(s@.skip(lo as int)[0] == s@[lo as int]);
        }
    }
    slice_chars(s, lo, s.len())
}

/// `s` without its trailing characters of `class`.
pub fn strip_end(s: &Vec<char>, class: CharClass) -> (out: Vec<char>)
    ensures
        out@ == spec_strip_end(s@, class),
        out@.len() <= s@.len(),
        out@ == s@.take(out@.len() as int),
{
    let mut hi: usize = s.len();
    while hi > 0 && class_has(class, s[hi - 1])
        invariant
            hi <= s.len(),
            forall|j: int| hi <= j < s.len() ==> in_class(class, #[trigger] s@[j]),
        decreases hi,
    {
        hi -= 1;
    }
    proof {
        lemma_strip_end_take(s@, class, hi as int);
        assert(s@.take(hi as int) =~= s@.subrange(0, hi as int));
        if hi > 0 {
            assert(s@.take(hi as int).last() == s@[hi - 1]);
        }
    }
    slice_chars(s, 0, hi)
}

/// `s` with the characters of `class` stripped from both ends.
pub fn strip(s: &Vec<char>, class: CharClass) -> (out: Vec<char>)
    ensures
        out@ == spec_strip(s@, class),
{
    let front = strip_start(s, class);
    strip_end(&front, class)
}

/// `s` without leading and trailing white space.
pub fn trim(s: &Vec<char>) -> (out: Vec<char>)
    ensures
        out@ == spec_trim(s@),
{
    strip(s, CharClass::Space)
}

/// `needle` stands in `hay` at position `i`.
pub fn matches_at(hay: &Vec<char>, needle: &Vec<char>, i: usize) -> (b: bool)
    ensures
        b == occurs_at(hay@, needle@, i as int),
{
    if needle.len() > hay.len() || i > hay.len() - needle.len() {
        return false;
    }
    let mut k: usize = 0;
    while k < needle.len()
        invariant
            k <= needle.len(),
            i + needle.len() <= hay.len(),
            forall|j: int| 0 <= j < k ==> hay@[i + j] == needle@[j],
        decreases needle.len() - k,
    {
        if hay[i + k] != needle[k] {
            proof {
                let sub = hay@.subrange(i as int, i + needle@.len());
                assert(sub[k as int] == hay@[i + k]);
            }
            return false;
        }
        k += 1;
    }
    proof {
        assert(hay@.subrange(i as int, i + needle@.len()) =~= needle@);
    }
    true
}

/// The first position at which `needle` stands in `hay`.
pub fn find(hay: &Vec<char>, needle: &Vec<char>) -> (found: Option<usize>)
    ensures
        found == (match spec_find(hay@, needle@) {
            Some(i) => Some(i as usize),
            None => None,
        }),
        match found {
            Some(i) => is_first_occurrence(hay@, needle@, i as int),
            None => !spec_contains(hay@, needle@),
        },
        hay@.len() <= usize::MAX,
{
    if needle.len() > hay.len() {
        proof {
            lemma_find_none(hay@, needle@);
        }
        return None;
    }
    let last: usize = hay.len() - needle.len();
    let mut i: usize = 0;
    loop
        invariant
            i <= last,
            last == hay.len() - needle.len(),
            needle.len() <= hay.len(),
            forall|j: int| 0 <= j < i ==> !occurs_at(hay@, needle@, j),
        decreases last - i,
    {
        if matches_at(hay, needle, i) {
            proof {
                lemma_find_is_first(hay@, needle@, i as int);
            }
            return Some(i);
        }
        if i == last {
            proof {
                lemma_find_none(hay@, needle@);
            }
            return None;
        }
        i += 1;
    }
}

/// `needle` stands somewhere in `hay`.
pub fn contains(hay: &Vec<char>, needle: &Vec<char>) -> (b: bool)
    ensures
        b == spec_contains(hay@, needle@),
{
    find(hay, needle).is_some()
}

/// `s` begins with `prefix`.
pub fn starts_with(s: &Vec<char>, prefix: &Vec<char>) -> (b: bool)
    ensures
        b == spec_starts_with(s@, prefix@),
{
    matches_at(s, prefix, 0)
}

/// `s` ends with `suffix`.
pub fn ends_with(s: &Vec<char>, suffix: &Vec<char>) -> (b: bool)
    ensures
        b == spec_ends_with(s@, suffix@),
{
    if suffix.len() > s.len() {
        return false;
    }
    matches_at(s, suffix, s.len() - suffix.len())
}

/// The two texts are the same.
pub fn same_chars(a: &Vec<char>, b: &Vec<char>) -> (r: bool)
    ensures
        r == (a@ == b@),
{
    if a.len() != b.len() {
        return false;
    }
    let r = matches_at(a, b, 0);
    proof {
        assert(a@.subrange(0, a@.len() as int) =~= a@);
    }
    r
}

/// `s` holds exactly the characters of `lit`.
pub fn is_text(s: &Vec<char>, lit: &str) -> (r: bool)
    ensures
        r == (s@ == lit@),
{
    let l = chars_of(lit);
    same_chars(s, &l)
}

/// The position of the first character of `class` in `s` at or after
/// `from`, or the length of `s`.
pub fn next_in_class(s: &Vec<char>, class: CharClass, from: usize) -> (i: usize)
    requires
        from <= s.len(),
    ensures
        i == spec_next_in_class(s@, class, from as int),
        from <= i <= s.len(),
        i < s.len() ==> in_class(class, s@[i as int]),
        forall|j: int| from <= j < i ==> !in_class(class, #[trigger] s@[j]),
    decreases s.len() - from,
{
    if from >= s.len() {
        s.len()
    } else if class_has(class, s[from]) {
        from
    } else {
        next_in_class(s, class, from + 1)
    }
}

/// The position of the first `c` in `s` at or after `from`, or the length
/// of `s`.
pub fn next_char(s: &Vec<char>, c: char, from: usize) -> (i: usize)
    requires
        from <= s.len(),
    ensures
        i == spec_next_char(s@, c, from as int),
        from <= i <= s.len(),
        i < s.len() ==> s@[i as int] == c,
        forall|j: int| from <= j < i ==> #[trigger] s@[j] != c,
    decreases s.len() - from,
{
    if from >= s.len() {
        s.len()
    } else if s[from] == c {
        from
    } else {
        next_char(s, c, from + 1)
    }
}

/// `num / den` rounded to the nearest integer, ties to the even neighbour.
pub open spec fn spec_round_half_even(num: nat, den: nat) -> nat {
    let q = num / den;
    let r = num % den;
    if 2 * r > den || (2 * r == den && q % 2 == 1) {
        q + 1
    } else {
        q
    }
}

/// `n / unit` with two decimals, rounded half to even: `1.46` for 1500 over
/// 1024.
pub open spec fn spec_fixed2(n: nat, unit: nat) -> Seq<char> {
    let h = spec_round_half_even(n * 100, unit);
    spec_decimal(h / 100) + seq!['.'] + spec_two_digits(h % 100)
}

/// Appends `n / unit` with two decimals to `out`.
pub fn push_fixed2(out: &mut Vec<char>, n: u64, unit: u64)
    requires
        unit > 0,
    ensures
        final(out)@ == old(out)@ + spec_fixed2(n as nat, unit as nat),
{
    let num: u128 = (n as u128) * 100;
    let den: u128 = unit as u128;
    let q: u128 = num / den;
    let r: u128 = num % den;
    let h: u128 = if 2 * r > den || (2 * r == den && q % 2 == 1) {
        q + 1
    } else {
        q
    };
    let ghost before = out@;
    push_decimal(out, h / 100);
    out.push('.');
    push_two_digits(out, (h % 100) as u8);
    proof {
        assert(out@ =~= before + spec_fixed2(n as nat, unit as nat));
    }
}

/// `v` as an `i64`, held at `i64::MAX`.
pub fn clamp_i64(v: u64) -> (r: i64)
    ensures
        r == (if v > i64::MAX {
            i64::MAX as int
        } else {
            v as int
        }),
{
    if v > 9223372036854775807 {
        9223372036854775807
    } else {
        v as i64
    }
}

/// What percent-decoding makes of a text: every `%XX` with two hex digits
/// becomes the byte `XX`, and the bytes are read as UTF-8. `None` when they
/// are not valid UTF-8.
pub uninterp spec fn spec_percent_decode(s: Seq<char>) -> Option<Seq<char>>;

/// `urlencoding::decode`: the percent-decoded text, or nothing when the
/// decoded bytes are not UTF-8. The contract names the result and claims
/// nothing more of it.
#[verifier::external_body]
pub(crate) fn percent_decode(s: &str) -> (out: Option<String>)
    ensures
        out is Some == spec_percent_decode(s@) is Some,
        out is Some ==> out->0@ == spec_percent_decode(s@)->0,
{
    urlencoding::decode(s).ok().map(|c| c.into_owned())
}

/// `i` is the first position in `keys` that holds `key`.
pub open spec fn is_first_key(keys: Seq<Seq<char>>, key: Seq<char>, i: int) -> bool {
    &&& 0 <= i < keys.len()
    &&& keys[i] == key
    &&& forall|j: int| 0 <= j < i ==> keys[j] != key
}

/// The first position in `keys` that holds `key`, if any does.
pub open spec fn spec_key_index(keys: Seq<Seq<char>>, key: Seq<char>) -> Option<int> {
    if exists|i: int| is_first_key(keys, key, i) {
        Some(choose|i: int| is_first_key(keys, key, i))
    } else {
        None
    }
}

/// No two positions of `keys` hold the same key.
pub open spec fn distinct_keys(keys: Seq<Seq<char>>) -> bool {
    forall|i: int, j: int| 0 <= i < j < keys.len() ==> keys[i] != keys[j]
}

/// The first position of a key is what `spec_key_index` returns.
pub proof fn lemma_key_index_found(keys: Seq<Seq<char>>, key: Seq<char>, i: int)
    requires
        is_first_key(keys, key, i),
    ensures
        spec_key_index(keys, key) == Some(i),
{
    let k = choose|k: int| is_first_key(keys, key, k);
    assert(k == i);
}

/// A key that stands nowhere has no position.
pub proof fn lemma_key_index_none(keys: Seq<Seq<char>>, key: Seq<char>)
    requires
        forall|j: int| 0 <= j < keys.len() ==> keys[j] != key,
    ensures
        spec_key_index(keys, key) is None,
{
}

/// What `spec_key_index` returns is a position of the key, and the first.
pub proof fn lemma_key_index_is_first(keys: Seq<Seq<char>>, key: Seq<char>)
    ensures
        match spec_key_index(keys, key) {
            Some(i) => is_first_key(keys, key, i),
            None => forall|j: int| 0 <= j < keys.len() ==> keys[j] != key,
        },
{
    if exists|i: int| is_first_key(keys, key, i) {
    } else {
        assert forall|j: int| 0 <= j < keys.len() implies keys[j] != key by {
            if keys[j] == key {
                lemma_key_has_first(keys, key, j);
            }
        }
    }
}

/// A key that stands at `j` has a first position.
pub proof fn lemma_key_has_first(keys: Seq<Seq<char>>, key: Seq<char>, j: int)
    requires
        0 <= j < keys.len(),
        keys[j] == key,
    ensures
        exists|i: int| is_first_key(keys, key, i),
    decreases j,
{
    if exists|k: int| 0 <= k < j && keys[k] == key {
        let k = choose|k: int| 0 <= k < j && keys[k] == key;
        lemma_key_has_first(keys, key, k);
    } else {
        assert(is_first_key(keys, key, j));
    }
}

/// The texts of a list of strings.
pub open spec fn texts(v: Seq<String>) -> Seq<Seq<char>> {
    Seq::new(v.len(), |i: int| v[i]@)
}

/// `log` with `entry` at its end, cut to its `cap` most recent entries.
pub open spec fn spec_push_bounded(log: Seq<Seq<char>>, entry: Seq<char>, cap: nat) -> Seq<
    Seq<char>,
> {
    let l = log.push(entry);
    if l.len() > cap {
        l.skip(l.len() - cap)
    } else {
        l
    }
}

/// Appends `entry` to `log` and drops the oldest entries beyond `cap`.
pub fn push_bounded(log: &mut Vec<String>, entry: String, cap: usize)
    ensures
        texts(final(log)@) == spec_push_bounded(texts(old(log)@), entry@, cap as nat),
        final(log)@.len() <= cap || final(log)@.len() == 0,
        old(log)@.len() < cap ==> final(log)@.len() == old(log)@.len() + 1,
{
    log.push(entry);
    let ghost full = log@;
    assert(texts(full) =~= texts(old(log)@).push(entry@));
    while log.len() > cap
        invariant
            log@.len() <= full.len(),
            log@ == full.skip(full.len() - log@.len()),
            full.len() > cap ==> log@.len() >= cap,
            full.len() <= cap ==> log@.len() == full.len(),
        decreases log.len(),
    {
        let ghost before = log@;
        log.remove(0);
        proof {
            assert(log@ =~= before.skip(1));
            assert(log@ =~= full.skip(full.len() - log@.len()));
        }
    }
    proof {
        if full.len() > cap {
            assert(texts(log@) =~= texts(full).skip(full.len() - cap));
        } else {
            assert(log@ =~= full);
        }
    }
}

/// `s` is one of the texts of `list`.
pub open spec fn spec_text_in(list: Seq<&'static str>, s: Seq<char>) -> bool {
    exists|i: int| 0 <= i < list.len() && (#[trigger] list[i])@ == s
}

/// Whether `s` is one of the texts of `list`.
pub fn text_in(list: &Vec<&'static str>, s: &Vec<char>) -> (b: bool)
    ensures
        b == spec_text_in(list@, s@),
{
    let mut i: usize = 0;
    while i < list.len()
        invariant
            i <= list.len(),
            forall|j: int| 0 <= j < i ==> (#[trigger] list@[j])@ != s@,
        decreases list.len() - i,
    {
        if is_text(s, list[i]) {
            return true;
        }
        i += 1;
    }
    false
}

/// `s` with every `from` replaced by `to`.
pub open spec fn spec_replace_char(s: Seq<char>, from: char, to: char) -> Seq<char> {
    Seq::new(s.len(), |i: int| if s[i] == from {
        to
    } else {
        s[i]
    })
}

/// `s` with every `from` replaced by `to`.
pub fn replace_char(s: &Vec<char>, from: char, to: char) -> (out: Vec<char>)
    ensures
        out@ == spec_replace_char(s@, from, to),
{
    let mut out: Vec<char> = Vec::new();
    let mut i: usize = 0;
    while i < s.len()
        invariant
            i <= s.len(),
            out@.len() == i,
            forall|k: int| 0 <= k < i ==> out@[k] == spec_replace_char(s@, from, to)[k],
        decreases s.len() - i,
    {
        if s[i] == from {
            out.push(to);
        } else {
            out.push(s[i]);
        }
        i += 1;
    }
    proof {
        assert(out@ =~= spec_replace_char(s@, from, to));
    }
    out
}

/// `c` in lower case, as far as ASCII goes.
pub open spec fn spec_ascii_lower_char(c: char) -> char {
    if 'A' <= c <= 'Z' {
        ((c as u8) + 32) as char
    } else {
        c
    }
}

/// `s` with its ASCII capitals in lower case.
pub open spec fn spec_ascii_lower(s: Seq<char>) -> Seq<char> {
    Seq::new(s.len(), |i: int| spec_ascii_lower_char(s[i]))
}

/// `c` in lower case, as far as ASCII goes.
pub fn ascii_lower_char(c: char) -> (out: char)
    ensures
        out == spec_ascii_lower_char(c),
{
    if 'A' <= c && c <= 'Z' {
        ((c as u8) + 32) as char
    } else {
        c
    }
}

/// `s` with its ASCII capitals in lower case.
pub fn ascii_lower(s: &Vec<char>) -> (out: Vec<char>)
    ensures
        out@ == spec_ascii_lower(s@),
{
    let mut out: Vec<char> = Vec::new();
    let mut i: usize = 0;
    while i < s.len()
        invariant
            i <= s.len(),
            out@.len() == i,
            forall|k: int| 0 <= k < i ==> out@[k] == spec_ascii_lower_char(s@[k]),
        decreases s.len() - i,
    {
        out.push(ascii_lower_char(s[i]));
        i += 1;
    }
    proof {
        assert(out@ =~= spec_ascii_lower(s@));
    }
    out
}

/// Some character of `s` is a decimal digit.
pub open spec fn spec_has_digit(s: Seq<char>) -> bool {
    exists|i: int| 0 <= i < s.len() && spec_is_digit(#[trigger] s[i])
}

/// Whether some character of `s` is a decimal digit.
pub fn has_digit(s: &Vec<char>) -> (b: bool)
    ensures
        b == spec_has_digit(s@),
{
    let mut i: usize = 0;
    while i < s.len()
        invariant
            i <= s.len(),
            forall|j: int| 0 <= j < i ==> !spec_is_digit(#[trigger] s@[j]),
        decreases s.len() - i,
    {
        if is_digit(s[i]) {
            return true;
        }
        i += 1;
    }
    false
}

/// `std::string::String::from_utf8`: the text that bytes encode, where
/// they are valid UTF-8.
#[verifier::external_body]
pub(crate) fn string_from_utf8(bytes: Vec<u8>) -> (s: Option<String>)
    ensures
        s is Some == vstd::utf8::valid_utf8(bytes@),
        s is Some ==> s->0@ == vstd::utf8::decode_utf8(bytes@),
{
    String::from_utf8(bytes).ok()
}

/// The value of a decimal digit.
pub open spec fn spec_digit_value(c: char) -> int {
    c as int - '0' as int
}

/// Every character of `s` is a decimal digit.
pub open spec fn all_digits(s: Seq<char>) -> bool {
    forall|i: int| 0 <= i < s.len() ==> spec_is_digit(#[trigger] s[i])
}

/// The number that the digits `s` write in base ten.
pub open spec fn spec_digits_value(s: Seq<char>) -> nat
    decreases s.len(),
{
    if s.len() == 0 {
        0
    } else {
        (spec_digits_value(s.drop_last()) * 10 + spec_digit_value(s.last())) as nat
    }
}

/// The `u64` that `s` writes: an optional `+`, then one or more decimal
/// digits, of a value that fits. Anything else is no number.
pub open spec fn spec_parse_u64(s: Seq<char>) -> Option<u64> {
    let d = if s.len() > 0 && s[0] == '+' {
        s.skip(1)
    } else {
        s
    };
    if d.len() > 0 && all_digits(d) && spec_digits_value(d) <= u64::MAX {
        Some(spec_digits_value(d) as u64)
    } else {
        None
    }
}

/// The value of digits never shrinks when more digits follow.
proof fn lemma_digits_prefix(s: Seq<char>, i: int)
    requires
        all_digits(s),
        0 <= i <= s.len(),
    ensures
        spec_digits_value(s.take(i)) <= spec_digits_value(s),
    decreases s.len() - i,
{
    if i == s.len() {
        assert(s.take(i) =~= s);
    } else {
        lemma_digits_prefix(s, i + 1);
        let t = s.take(i + 1);
        assert(t.drop_last() =~= s.take(i));
        assert(spec_is_digit(t.last()));
    }
}

/// Reads a `u64` in base ten.
pub fn parse_u64(s: &Vec<char>) -> (v: Option<u64>)
    ensures
        v == spec_parse_u64(s@),
{
    let start: usize = if s.len() > 0 && s[0] == '+' {
        1
    } else {
        0
    };
    let ghost d = s@.skip(start as int);
    proof {
        assert(s@.skip(0) =~= s@);
    }
    if start == s.len() {
        return None;
    }
    let mut acc: u64 = 0;
    let mut i: usize = start;
    proof {
        assert(d.take(0) =~= Seq::<char>::empty());
    }
    while i < s.len()
        invariant
            start <= i <= s.len(),
            d == s@.skip(start as int),
            spec_parse_u64(s@) == (if d.len() > 0 && all_digits(d) && spec_digits_value(d)
                <= u64::MAX {
                Some(spec_digits_value(d) as u64)
            } else {
                None
            }),
            all_digits(d.take(i - start)),
            acc == spec_digits_value(d.take(i - start)),
        decreases s.len() - i,
    {
        let c = s[i];
        proof {
            assert(d[i - start] == c);
            assert(d.take(i - start + 1).drop_last() =~= d.take(i - start));
            assert(d.take(i - start + 1).last() == c);
        }
        if !is_digit(c) {
            proof {
                assert(!spec_is_digit(d[i - start]));
            }
            return None;
        }
        let digit: u64 = (c as u32 - '0' as u32) as u64;
        proof {
            assert(digit == spec_digit_value(c));
            assert(spec_digits_value(d.take(i - start + 1)) == acc * 10 + digit);
        }
        proof {
            assert forall|k: int| 0 <= k < d.take(i - start + 1).len() implies spec_is_digit(
                #[trigger] d.take(i - start + 1)[k],
            ) by {
                if k < i - start {
                    assert(d.take(i - start)[k] == d.take(i - start + 1)[k]);
                }
            }
        }
        if acc > (u64::MAX - digit) / 10 {
            proof {
                if all_digits(d) {
                    lemma_digits_prefix(d, i - start + 1);
                }
            }
            return None;
        }
        acc = acc * 10 + digit;
        i += 1;
    }
    proof {
        assert(d.take(i - start) =~= d);
    }
    Some(acc)
}

/// Whether no two of `keys` are the same text.
pub fn all_distinct(keys: &Vec<String>) -> (b: bool)
    ensures
        b == distinct_keys(texts(keys@)),
{
    let n = keys.len();
    let mut i: usize = 0;
    while i < n
        invariant
            i <= n,
            n == keys@.len(),
            forall|a: int, c: int| 0 <= a < c < n && a < i ==> texts(keys@)[a] != texts(keys@)[c],
        decreases n - i,
    {
        let mut j: usize = i + 1;
        while j < n
            invariant
                i < j <= n,
                n == keys@.len(),
                forall|c: int| i < c < j ==> texts(keys@)[i as int] != texts(keys@)[c],
            decreases n - j,
        {
            if keys[i] == keys[j] {
                proof {
                    assert(texts(keys@)[i as int] == texts(keys@)[j as int]);
                }
                return false;
            }
            j += 1;
        }
        i += 1;
    }
    true
}

} // verus!
