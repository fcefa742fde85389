//! Decimal rendering, padding and character-sequence helpers shared by the
//! formatting code.
use vstd::prelude::*;
use vstd::string::StringExecFns;

verus! {

broadcast use vstd::string::group_string_axioms;

/// The ASCII digit for `d` (taken modulo ten).
pub open spec fn digit_char(d: nat) -> char {
    ((d % 10) + 48) as char
}

/// Decimal digits of `n`, most significant first, without leading zeros
/// (`0` renders as `"0"`).
pub open spec fn digits(n: nat) -> Seq<char>
    decreases n,
{
    if n < 10 {
        seq![digit_char(n)]
    } else {
        digits(n / 10).push(digit_char(n % 10))
    }
}

/// Decimal rendering of a signed integer: a `-` before the digits of the
/// magnitude when negative.
pub open spec fn int_digits(i: int) -> Seq<char> {
    if i < 0 {
        seq!['-'] + digits((-i) as nat)
    } else {
        digits(i as nat)
    }
}

/// `s` right-aligned in a field of `width` characters, filled with `fill`
/// on the left (what `{:fill>width}` does).
pub open spec fn pad_left(s: Seq<char>, width: nat, fill: char) -> Seq<char> {
    if s.len() >= width {
        s
    } else {
        Seq::new((width - s.len()) as nat, |_i: int| fill) + s
    }
}

/// `s` left-aligned in a field of `width` characters, filled with spaces on
/// the right (what `{:<width}` does).
pub open spec fn pad_right(s: Seq<char>, width: nat) -> Seq<char> {
    if s.len() >= width {
        s
    } else {
        s + Seq::new((width - s.len()) as nat, |_i: int| ' ')
    }
}

/// Two-digit zero-padded decimal of `n` (what `{:0>2}` does to a number).
pub open spec fn two_digits(n: nat) -> Seq<char> {
    pad_left(digits(n), 2, '0')
}

/// The elements of `items` joined by `sep`.
pub open spec fn join(items: Seq<Seq<char>>, sep: Seq<char>) -> Seq<char>
    decreases items.len(),
{
    if items.len() == 0 {
        Seq::empty()
    } else if items.len() == 1 {
        items[0]
    } else {
        join(items.drop_last(), sep) + sep + items.last()
    }
}

/// The views of a sequence of strings.
pub open spec fn views(v: Seq<String>) -> Seq<Seq<char>> {
    v.map_values(|s: String| s@)
}

pub proof fn lemma_digits_len(n: nat)
    ensures
        digits(n).len() >= 1,
        (digits(n).len() == 1) <==> n < 10,
    decreases n,
{
    if n >= 10 {
        lemma_digits_len(n / 10);
    }
}

/// Appends `c` to `s` (`String::push`).
#[verifier::external_body]
pub(crate) fn push_char(s: &mut String, c: char)
    ensures
        final(s)@ == old(s)@.push(c),
{
    s.push(c);
}

/// Appends `t` to `s`.
pub fn push_str(s: &mut String, t: &str)
    ensures
        final(s)@ == old(s)@ + t@,
{
    s.append(t);
}

fn digit_of(d: u64) -> (c: char)
    requires
        d < 10,
    ensures
        c == digit_char(d as nat),
{
    let b: u8 = (d as u8) + 48u8;
    b as char
}

/// Appends the decimal digits of `n` to `s`.
pub fn push_digits(s: &mut String, n: u64)
    ensures
        final(s)@ == old(s)@ + digits(n as nat),
    decreases n,
{
    if n >= 10 {
        push_digits(s, n / 10);
    }
    let c = digit_of(n % 10);
    push_char(s, c);
    proof {
        if n >= 10 {
            assert(digits(n as nat) == digits((n / 10) as nat).push(digit_char((n % 10) as nat)));
        }
    }
}

/// Appends the decimal digits of `n`, zero-padded to two characters.
pub fn push_two_digits(s: &mut String, n: u64)
    ensures
        final(s)@ == old(s)@ + two_digits(n as nat),
{
    proof {
        lemma_digits_len(n as nat);
    }
    if n < 10 {
        push_char(s, '0');
        proof {
            assert(Seq::new((2 - digits(n as nat).len()) as nat, |_i: int| '0') =~= seq!['0']);
        }
    }
    let ghost mid = s@;
    push_digits(s, n);
    proof {
        if n < 10 {
            assert(s@ =~= old(s)@ + (seq!['0'] + digits(n as nat)));
        }
    }
}

/// Appends the decimal rendering of a signed `n`.
pub fn push_int(s: &mut String, n: i64)
    ensures
        final(s)@ == old(s)@ + int_digits(n as int),
{
    if n < 0 {
        push_char(s, '-');
        let m: u64 = if n == i64::MIN {
            9223372036854775808u64
        } else {
            (-n) as u64
        };
        push_digits(s, m);
        proof {
            assert(s@ =~= old(s)@ + (seq!['-'] + digits((-n) as nat)));
        }
    } else {
        push_digits(s, n as u64);
    }
}

/// The decimal rendering of `n`.
pub fn u64_to_string(n: u64) -> (s: String)
    ensures
        s@ == digits(n as nat),
{
    let mut s = String::new();
    push_digits(&mut s, n);
    s
}

/// The decimal rendering of a signed `n`.
pub fn i64_to_string(n: i64) -> (s: String)
    ensures
        s@ == int_digits(n as int),
{
    let mut s = String::new();
    push_int(&mut s, n);
    s
}

/// A fresh `String` holding `t`.
pub fn owned(t: &str) -> (s: String)
    ensures
        s@ == t@,
{
    t.to_string()
}

/// The characters of `t` in order.
pub fn chars_of(t: &str) -> (v: Vec<char>)
    ensures
        v@ == t@,
{
    let n = t.unicode_len();
    let mut v: Vec<char> = Vec::new();
    for i in 0..n
        invariant
            n == t@.len(),
            v@ == t@.take(i as int),
    {
        v.push(t.get_char(i));
        assert(t@.take((i + 1) as int) =~= t@.take(i as int).push(t@[i as int]));
    }
    assert(t@.take(n as int) =~= t@);
    v
}

/// A `String` made of the characters of `v[lo..hi]`.
pub fn string_of(v: &Vec<char>, lo: usize, hi: usize) -> (s: String)
    requires
        lo <= hi <= v.len(),
    ensures
        s@ == v@.subrange(lo as int, hi as int),
{
    let mut s = String::new();
    let mut i = lo;
    while i < hi
        invariant
            lo <= i <= hi <= v.len(),
            s@ == v@.subrange(lo as int, i as int),
        decreases hi - i,
    {
        push_char(&mut s, v[i]);
        assert(v@.subrange(lo as int, (i + 1) as int) =~= v@.subrange(lo as int, i as int).push(
            v@[i as int],
        ));
        i = i + 1;
    }
    s
}

/// Appends the characters of `v[lo..hi]` to `s`.
pub fn push_slice(s: &mut String, v: &Vec<char>, lo: usize, hi: usize)
    requires
        lo <= hi <= v.len(),
    ensures
        final(s)@ == old(s)@ + v@.subrange(lo as int, hi as int),
{
    let mut i = lo;
    while i < hi
        invariant
            lo <= i <= hi <= v.len(),
            s@ == old(s)@ + v@.subrange(lo as int, i as int),
        decreases hi - i,
    {
        push_char(s, v[i]);
        assert(v@.subrange(lo as int, (i + 1) as int) =~= v@.subrange(lo as int, i as int).push(
            v@[i as int],
        ));
        i = i + 1;
    }
}

/// Whether two strings hold the same characters.
pub fn str_eq(a: &str, b: &str) -> (r: bool)
    ensures
        r == (a@ == b@),
{
    let va = chars_of(a);
    let vb = chars_of(b);
    if va.len() != vb.len() {
        return false;
    }
    let mut i: usize = 0;
    while i < va.len()
        invariant
            va.len() == vb.len(),
            va@ == a@,
            vb@ == b@,
            i <= va.len(),
            forall|j: int| 0 <= j < i ==> va@[j] == vb@[j],
        decreases va.len() - i,
    {
        if va[i] != vb[i] {
            return false;
        }
        i = i + 1;
    }
    assert(va@ =~= vb@);
    true
}

/// Scanning from `i`: the first position holding `c`, or `s.len()` when
/// there is none.
pub open spec fn find_char(s: Seq<char>, c: char, i: int) -> int
    decreases s.len() - i,
{
    if i >= s.len() {
        s.len() as int
    } else if s[i] == c {
        i
    } else {
        find_char(s, c, i + 1)
    }
}

pub proof fn lemma_find_char(s: Seq<char>, c: char, i: int)
    requires
        0 <= i <= s.len(),
    ensures
        i <= find_char(s, c, i) <= s.len(),
        find_char(s, c, i) < s.len() ==> s[find_char(s, c, i)] == c,
        forall|j: int| i <= j < find_char(s, c, i) ==> s[j] != c,
    decreases s.len() - i,
{
    if i < s.len() && s[i] != c {
        lemma_find_char(s, c, i + 1);
    }
}

pub fn find_from(cs: &Vec<char>, c: char, i: usize) -> (r: usize)
    requires
        i <= cs.len(),
    ensures
        r == find_char(cs@, c, i as int),
{
    let mut j = i;
    while j < cs.len()
        invariant
            i <= j <= cs.len(),
            find_char(cs@, c, j as int) == find_char(cs@, c, i as int),
        decreases cs.len() - j,
    {
        if cs[j] == c {
            return j;
        }
        j = j + 1;
    }
    j
}


// ----- whitespace and trimming -----

/// The Unicode `White_Space` property, which `char::is_whitespace` tests.
pub open spec fn is_space(c: char) -> bool {
    let u = c as u32;
    ||| 0x9 <= u <= 0xD
    ||| u == 0x20
    ||| u == 0x85
    ||| u == 0xA0
    ||| u == 0x1680
    ||| 0x2000 <= u <= 0x200A
    ||| u == 0x2028
    ||| u == 0x2029
    ||| u == 0x202F
    ||| u == 0x205F
    ||| u == 0x3000
}

/// Which characters a trim removes.
#[derive(Debug, Clone, Copy, PartialEq, Eq, Structural)]
pub enum Strip {
    /// Unicode white space (`str::trim`)
    Space,
    /// commas (`str::trim_matches(',')`)
    Comma,
}

pub open spec fn strips(c: char, k: Strip) -> bool {
    match k {
        Strip::Space => is_space(c),
        Strip::Comma => c == ',',
    }
}

/// Scanning forward from `i`: the first position not removed by `k`.
pub open spec fn skip_strip(s: Seq<char>, k: Strip, i: int) -> int
    decreases s.len() - i,
{
    if i < 0 || i >= s.len() {
        s.len() as int
    } else if strips(s[i], k) {
        skip_strip(s, k, i + 1)
    } else {
        i
    }
}

/// Scanning backward from `j` down to `lo`: the end of the last position
/// not removed by `k`.
pub open spec fn back_strip(s: Seq<char>, k: Strip, lo: int, j: int) -> int
    decreases j - lo,
{
    if j <= lo || j > s.len() {
        lo
    } else if strips(s[j - 1], k) {
        back_strip(s, k, lo, j - 1)
    } else {
        j
    }
}

/// `s` without the leading and trailing characters that `k` removes.
pub open spec fn trimmed(s: Seq<char>, k: Strip) -> Seq<char> {
    let a = skip_strip(s, k, 0);
    s.subrange(a, back_strip(s, k, a, s.len() as int))
}

proof fn lemma_skip_strip(s: Seq<char>, k: Strip, i: int)
    requires
        0 <= i <= s.len(),
    ensures
        i <= skip_strip(s, k, i) <= s.len(),
        forall|j: int| i <= j < skip_strip(s, k, i) ==> strips(s[j], k),
        skip_strip(s, k, i) < s.len() ==> !strips(s[skip_strip(s, k, i)], k),
    decreases s.len() - i,
{
    if i < s.len() && strips(s[i], k) {
        lemma_skip_strip(s, k, i + 1);
    }
}

proof fn lemma_back_strip(s: Seq<char>, k: Strip, lo: int, j: int)
    requires
        0 <= lo <= j <= s.len(),
    ensures
        lo <= back_strip(s, k, lo, j) <= j,
        forall|m: int| back_strip(s, k, lo, j) <= m < j ==> strips(s[m], k),
        back_strip(s, k, lo, j) > lo ==> !strips(s[back_strip(s, k, lo, j) - 1], k),
    decreases j - lo,
{
    if j > lo && strips(s[j - 1], k) {
        lemma_back_strip(s, k, lo, j - 1);
    }
}

/// The trimmed text is a stretch of the original that neither starts nor
/// ends with a removed character, with only removed characters around it.
pub proof fn lemma_trimmed(s: Seq<char>, k: Strip)
    ensures
        exists|a: int, b: int|
            0 <= a <= b <= s.len() && trimmed(s, k) == s.subrange(a, b) && (forall|m: int|
                0 <= m < a ==> strips(s[m], k)) && (forall|m: int|
                b <= m < s.len() ==> strips(s[m], k)) && (a < b ==> !strips(s[a], k) && !strips(
                s[b - 1],
                k,
            )),
{
    let a = skip_strip(s, k, 0);
    lemma_skip_strip(s, k, 0);
    let b = back_strip(s, k, a, s.len() as int);
    lemma_back_strip(s, k, a, s.len() as int);
    assert(0 <= a <= b <= s.len() && trimmed(s, k) == s.subrange(a, b));
}

fn is_space_char(c: char) -> (b: bool)
    ensures
        b == is_space(c),
{
    let u = c as u32;
    (0x9 <= u && u <= 0xD) || u == 0x20 || u == 0x85 || u == 0xA0 || u == 0x1680 || (0x2000 <= u
        && u <= 0x200A) || u == 0x2028 || u == 0x2029 || u == 0x202F || u == 0x205F || u == 0x3000
}

fn strips_char(c: char, k: Strip) -> (b: bool)
    ensures
        b == strips(c, k),
{
    match k {
        Strip::Space => is_space_char(c),
        Strip::Comma => c == ',',
    }
}

/// `t` without the leading and trailing characters that `k` removes
/// (`str::trim` for white space, `str::trim_matches(',')` for commas).
pub fn trim_by(t: &str, k: Strip) -> (s: String)
    ensures
        s@ == trimmed(t@, k),
{
    let cs = chars_of(t);
    let n = cs.len();
    let mut a: usize = 0;
    while a < n && strips_char(cs[a], k)
        invariant
            n == cs.len(),
            cs@ == t@,
            a <= n,
            skip_strip(t@, k, a as int) == skip_strip(t@, k, 0),
        decreases n - a,
    {
        a = a + 1;
    }
    let mut b: usize = n;
    while b > a && strips_char(cs[b - 1], k)
        invariant
            n == cs.len(),
            cs@ == t@,
            a <= b <= n,
            a == skip_strip(t@, k, 0),
            back_strip(t@, k, a as int, b as int) == back_strip(t@, k, a as int, n as int),
        decreases b - a,
    {
        b = b - 1;
    }
    string_of(&cs, a, b)
}

/// `str::trim`.
pub fn trim(t: &str) -> (s: String)
    ensures
        s@ == trimmed(t@, Strip::Space),
{
    trim_by(t, Strip::Space)
}

// ----- lower case -----

/// What `str::to_lowercase` returns for a string: the Unicode lowercase
/// mapping of each of its characters.
pub uninterp spec fn lowercase(s: Seq<char>) -> Seq<char>;

/// `str::to_lowercase`. Its result is named `lowercase` of the input; the
/// Unicode case tables it follows are not written out here. The one fact
/// claimed besides the name: the empty text lowercases to the empty text.
#[verifier::external_body]
pub(crate) fn to_lowercase(t: &str) -> (s: String)
    ensures
        s@ == lowercase(t@),
        t@.len() == 0 ==> s@.len() == 0,
{
    t.to_lowercase()
}

// ----- splitting -----

/// The pieces of `s` between occurrences of `sep` (what `str::split`
/// yields): one more piece than there are separators.
pub open spec fn split_seq(s: Seq<char>, sep: char) -> Seq<Seq<char>>
    decreases s.len(),
{
    let i = find_char(s, sep, 0);
    proof {
        lemma_find_char(s, sep, 0);
    }
    if i >= s.len() {
        seq![s]
    } else {
        seq![s.subrange(0, i)] + split_seq(s.subrange(i + 1, s.len() as int), sep)
    }
}

/// The pieces of `v[i..]` between occurrences of `sep`.
pub fn split_from(v: &Vec<char>, i: usize, sep: char) -> (parts: Vec<String>)
    requires
        i <= v.len(),
    ensures
        views(parts@) == split_seq(v@.subrange(i as int, v.len() as int), sep),
    decreases v.len() - i,
{
    let ghost s = v@.subrange(i as int, v.len() as int);
    let j = find_from(v, sep, i);
    proof {
        lemma_find_char(v@, sep, i as int);
        lemma_find_char(s, sep, 0);
        lemma_find_shift(v@, sep, i as int);
    }
    if j >= v.len() {
        let mut parts = Vec::new();
        parts.push(string_of(v, i, v.len()));
        assert(views(parts@) =~= split_seq(s, sep));
        parts
    } else {
        let first = string_of(v, i, j);
        let rest = split_from(v, j + 1, sep);
        let mut parts = Vec::new();
        parts.push(first);
        let mut rest = rest;
        parts.append(&mut rest);
        assert(s.subrange(0, j - i) =~= v@.subrange(i as int, j as int));
        assert(s.subrange(j - i + 1, s.len() as int) =~= v@.subrange(j + 1, v.len() as int));
        assert(views(parts@) =~= split_seq(s, sep));
        parts
    }
}

proof fn lemma_find_shift(v: Seq<char>, c: char, i: int)
    requires
        0 <= i <= v.len(),
    ensures
        find_char(v.subrange(i, v.len() as int), c, 0) == find_char(v, c, i) - i,
    decreases v.len() - i,
{
    lemma_find_shift_at(v, c, i, 0);
}

proof fn lemma_find_shift_at(v: Seq<char>, c: char, i: int, k: int)
    requires
        0 <= i <= v.len(),
        0 <= k <= v.len() - i,
    ensures
        find_char(v.subrange(i, v.len() as int), c, k) == find_char(v, c, i + k) - i,
    decreases v.len() - i - k,
{
    let s = v.subrange(i, v.len() as int);
    if k < s.len() {
        assert(s[k] == v[i + k]);
        if s[k] != c {
            lemma_find_shift_at(v, c, i, k + 1);
        }
    }
}

/// `str::split` into owned pieces.
pub fn split(t: &str, sep: char) -> (parts: Vec<String>)
    ensures
        views(parts@) == split_seq(t@, sep),
{
    let v = chars_of(t);
    assert(v@.subrange(0, v@.len() as int) =~= v@);
    split_from(&v, 0, sep)
}

// ----- integers from text -----

/// Why text is not an integer (the kinds `str::parse` reports).
#[derive(Debug, Clone, Copy, PartialEq, Eq, Structural)]
pub enum IntErrorKind {
    Empty,
    InvalidDigit,
    PosOverflow,
    NegOverflow,
}

/// The message `ParseIntError` displays for each kind.
pub fn int_error_message(k: IntErrorKind) -> (s: &'static str)
    ensures
        s@ == int_error_text(k),
{
    match k {
        IntErrorKind::Empty => "cannot parse integer from empty string",
        IntErrorKind::InvalidDigit => "invalid digit found in string",
        IntErrorKind::PosOverflow => "number too large to fit in target type",
        IntErrorKind::NegOverflow => "number too small to fit in target type",
    }
}

pub open spec fn int_error_text(k: IntErrorKind) -> Seq<char> {
    match k {
        IntErrorKind::Empty => "cannot parse integer from empty string"@,
        IntErrorKind::InvalidDigit => "invalid digit found in string"@,
        IntErrorKind::PosOverflow => "number too large to fit in target type"@,
        IntErrorKind::NegOverflow => "number too small to fit in target type"@,
    }
}

pub open spec fn is_digit(c: char) -> bool {
    '0' <= c <= '9'
}

/// Reads the decimal digits `ds` onto `acc`, left to right, subtracting
/// them when `neg`; the first character that is not a digit, or the first
/// step that leaves `lo..=hi`, decides the error.
pub open spec fn read_digits(ds: Seq<char>, acc: int, neg: bool, lo: int, hi: int) -> Result<
    int,
    IntErrorKind,
>
    decreases ds.len(),
{
    if ds.len() == 0 {
        Ok(acc)
    } else if !is_digit(ds[0]) {
        Err(IntErrorKind::InvalidDigit)
    } else {
        let d = ds[0] as int - '0' as int;
        let n = if neg {
            acc * 10 - d
        } else {
            acc * 10 + d
        };
        if n > hi {
            Err(IntErrorKind::PosOverflow)
        } else if n < lo {
            Err(IntErrorKind::NegOverflow)
        } else {
            read_digits(ds.drop_first(), n, neg, lo, hi)
        }
    }
}

/// Decimal text as an integer in `lo..=hi` the way `str::parse` reads it:
/// an optional `+` (or `-` when `signed`), then at least one digit.
pub open spec fn parse_int(s: Seq<char>, lo: int, hi: int, signed: bool) -> Result<int, IntErrorKind> {
    if s.len() == 0 {
        Err(IntErrorKind::Empty)
    } else if s.len() == 1 && (s[0] == '+' || s[0] == '-') {
        Err(IntErrorKind::InvalidDigit)
    } else if s[0] == '+' {
        read_digits(s.drop_first(), 0, false, lo, hi)
    } else if s[0] == '-' && signed {
        read_digits(s.drop_first(), 0, true, lo, hi)
    } else {
        read_digits(s, 0, false, lo, hi)
    }
}

proof fn lemma_read_digits_range(ds: Seq<char>, acc: int, neg: bool, lo: int, hi: int)
    requires
        lo <= acc <= hi,
    ensures
        read_digits(ds, acc, neg, lo, hi) matches Ok(v) ==> lo <= v <= hi,
    decreases ds.len(),
{
    if ds.len() > 0 && is_digit(ds[0]) {
        let d = ds[0] as int - '0' as int;
        let n = if neg {
            acc * 10 - d
        } else {
            acc * 10 + d
        };
        if lo <= n <= hi {
            lemma_read_digits_range(ds.drop_first(), n, neg, lo, hi);
        }
    }
}

fn parse_int_in(t: &str, lo: i128, hi: i128, signed: bool) -> (r: Result<i128, IntErrorKind>)
    requires
        -0x1_0000_0000_0000_0000 <= lo <= 0 <= hi <= 0x1_0000_0000_0000_0000,
    ensures
        r matches Ok(v) ==> parse_int(t@, lo as int, hi as int, signed) == Ok::<int, IntErrorKind>(
            v as int,
        ) && lo <= v <= hi,
        r matches Err(e) ==> parse_int(t@, lo as int, hi as int, signed) == Err::<int, IntErrorKind>(
            e,
        ),
{
    let cs = chars_of(t);
    let n = cs.len();
    if n == 0 {
        return Err(IntErrorKind::Empty);
    }
    if n == 1 && (cs[0] == '+' || cs[0] == '-') {
        return Err(IntErrorKind::InvalidDigit);
    }
    let mut i: usize = 0;
    let mut neg = false;
    if cs[0] == '+' {
        i = 1;
    } else if cs[0] == '-' && signed {
        i = 1;
        neg = true;
    }
    let ghost target = parse_int(t@, lo as int, hi as int, signed);
    assert(target == read_digits(cs@.subrange(i as int, n as int), 0, neg, lo as int, hi as int))
        by {
        if i == 1 {
            assert(cs@.subrange(1, n as int) =~= t@.drop_first());
        } else {
            assert(cs@.subrange(0, n as int) =~= t@);
        }
    }
    let mut acc: i128 = 0;
    while i < n
        invariant
            n == cs.len(),
            i <= n,
            lo <= acc <= hi,
            -0x1_0000_0000_0000_0000 <= lo <= 0 <= hi <= 0x1_0000_0000_0000_0000,
            cs@ == t@,
            target == parse_int(t@, lo as int, hi as int, signed),
            target == read_digits(cs@.subrange(i as int, n as int), acc as int, neg, lo as int, hi as int),
        decreases n - i,
    {
        let c = cs[i];
        assert(cs@.subrange(i as int, n as int)[0] == c);
        assert(cs@.subrange(i as int, n as int).drop_first() =~= cs@.subrange(i + 1, n as int));
        let ghost rest = cs@.subrange(i as int, n as int);
        if !('0' <= c && c <= '9') {
            assert(!is_digit(rest[0]));
            assert(read_digits(rest, acc as int, neg, lo as int, hi as int) == Err::<int, IntErrorKind>(IntErrorKind::InvalidDigit));
            return Err(IntErrorKind::InvalidDigit);
        }
        let d = (c as u32 - '0' as u32) as i128;
        assert(d == rest[0] as int - '0' as int);
        let next = if neg {
            acc * 10 - d
        } else {
            acc * 10 + d
        };
        if next > hi {
            return Err(IntErrorKind::PosOverflow);
        }
        if next < lo {
            return Err(IntErrorKind::NegOverflow);
        }
        acc = next;
        i = i + 1;
    }
    assert(cs@.subrange(n as int, n as int).len() == 0);
    Ok(acc)
}

/// `str::parse::<i32>`.
pub fn parse_i32(t: &str) -> (r: Result<i32, IntErrorKind>)
    ensures
        match r {
            Ok(v) => parse_int(t@, i32::MIN as int, i32::MAX as int, true) == Ok::<
                int,
                IntErrorKind,
            >(v as int),
            Err(e) => parse_int(t@, i32::MIN as int, i32::MAX as int, true) == Err::<
                int,
                IntErrorKind,
            >(e),
        },
{
    match parse_int_in(t, i32::MIN as i128, i32::MAX as i128, true) {
        Ok(v) => Ok(v as i32),
        Err(e) => Err(e),
    }
}

/// `str::parse::<u32>`.
pub fn parse_u32(t: &str) -> (r: Result<u32, IntErrorKind>)
    ensures
        match r {
            Ok(v) => parse_int(t@, 0, u32::MAX as int, false) == Ok::<int, IntErrorKind>(v as int),
            Err(e) => parse_int(t@, 0, u32::MAX as int, false) == Err::<int, IntErrorKind>(e),
        },
{
    match parse_int_in(t, 0, u32::MAX as i128, false) {
        Ok(v) => Ok(v as u32),
        Err(e) => Err(e),
    }
}

/// `str::parse::<usize>`.
pub fn parse_usize(t: &str) -> (r: Result<usize, IntErrorKind>)
    ensures
        match r {
            Ok(v) => parse_int(t@, 0, usize::MAX as int, false) == Ok::<int, IntErrorKind>(
                v as int,
            ),
            Err(e) => parse_int(t@, 0, usize::MAX as int, false) == Err::<int, IntErrorKind>(e),
        },
{
    match parse_int_in(t, 0, usize::MAX as i128, false) {
        Ok(v) => Ok(v as usize),
        Err(e) => Err(e),
    }
}


/// Removes the last character of `s`, if any (`String::pop`).
#[verifier::external_body]
pub(crate) fn pop_char(s: &mut String)
    ensures
        final(s)@ == if old(s)@.len() > 0 {
            old(s)@.drop_last()
        } else {
            old(s)@
        },
{
    s.pop();
}


// ----- reading back what was rendered -----

proof fn lemma_read_digits_concat(s1: Seq<char>, s2: Seq<char>, acc: int, neg: bool, lo: int, hi: int)
    ensures
        read_digits(s1 + s2, acc, neg, lo, hi) == match read_digits(s1, acc, neg, lo, hi) {
            Ok(a) => read_digits(s2, a, neg, lo, hi),
            Err(e) => Err(e),
        },
    decreases s1.len(),
{
    if s1.len() == 0 {
        assert(s1 + s2 =~= s2);
    } else {
        assert((s1 + s2)[0] == s1[0]);
        assert((s1 + s2).drop_first() =~= s1.drop_first() + s2);
        if is_digit(s1[0]) {
            let d = s1[0] as int - '0' as int;
            let n = if neg {
                acc * 10 - d
            } else {
                acc * 10 + d
            };
            lemma_read_digits_concat(s1.drop_first(), s2, n, neg, lo, hi);
        }
    }
}

proof fn lemma_digit_char(d: nat)
    requires
        d < 10,
    ensures
        is_digit(digit_char(d)),
        digit_char(d) as int - '0' as int == d,
{
}

/// Reading the digits of `n` gives `n` back (negated when `neg`), as long
/// as the value fits.
proof fn lemma_read_digits_of(n: nat, neg: bool, lo: int, hi: int)
    requires
        lo <= 0 <= hi,
        neg ==> lo <= -n,
        !neg ==> n <= hi,
    ensures
        read_digits(digits(n), 0, neg, lo, hi) == Ok::<int, IntErrorKind>(if neg {
            -n
        } else {
            n as int
        }),
    decreases n,
{
    lemma_digit_char(n % 10);
    if n < 10 {
        let s = seq![digit_char(n)];
        let v: int = if neg {
            -n
        } else {
            n as int
        };
        assert(digits(n) == s);
        assert(n % 10 == n);
        assert(s[0] == digit_char(n));
        assert(s.drop_first() =~= Seq::<char>::empty());
        assert(read_digits(s.drop_first(), v, neg, lo, hi) == Ok::<int, IntErrorKind>(v));
        assert(read_digits(s, 0, neg, lo, hi) == read_digits(s.drop_first(), v, neg, lo, hi));
    } else {
        let q = n / 10;
        let d = n % 10;
        lemma_read_digits_of(q, neg, lo, hi);
        assert(digits(n) =~= digits(q) + seq![digit_char(d)]);
        lemma_read_digits_concat(digits(q), seq![digit_char(d)], 0, neg, lo, hi);
        assert(seq![digit_char(d)].drop_first().len() == 0);
        assert(q * 10 + d == n);
    }
}

/// The decimal rendering of an integer parses back to it.
pub proof fn lemma_parse_int_digits(i: int, lo: int, hi: int)
    requires
        lo <= 0 <= hi,
        lo <= i <= hi,
    ensures
        parse_int(int_digits(i), lo, hi, true) == Ok::<int, IntErrorKind>(i),
{
    lemma_digits_len((if i < 0 {
        -i
    } else {
        i
    }) as nat);
    if i < 0 {
        let ds = digits((-i) as nat);
        let s = seq!['-'] + ds;
        assert(s.drop_first() =~= ds);
        lemma_read_digits_of((-i) as nat, true, lo, hi);
    } else {
        let ds = digits(i as nat);
        lemma_read_digits_of(i as nat, false, lo, hi);
        lemma_digits_first_is_digit(i as nat);
    }
}

proof fn lemma_digits_first_is_digit(n: nat)
    ensures
        is_digit(digits(n)[0]),
    decreases n,
{
    lemma_digits_len(n);
    if n < 10 {
        lemma_digit_char(n);
    } else {
        lemma_digits_first_is_digit(n / 10);
        lemma_digits_len(n / 10);
        assert(digits(n)[0] == digits(n / 10)[0]);
    }
}

proof fn lemma_digits_all_digits(n: nat)
    ensures
        forall|k: int| 0 <= k < digits(n).len() ==> is_digit(#[trigger] digits(n)[k]),
    decreases n,
{
    if n < 10 {
        lemma_digit_char(n);
    } else {
        lemma_digits_all_digits(n / 10);
        lemma_digit_char(n % 10);
        let p = digits(n / 10);
        assert forall|k: int| 0 <= k < digits(n).len() implies is_digit(#[trigger] digits(n)[k]) by {
            if k < p.len() {
                assert(digits(n)[k] == p[k]);
            } else {
                assert(digits(n)[k] == digit_char(n % 10));
            }
        }
    }
}

/// Text with nothing to remove is its own trim.
pub proof fn lemma_trim_keeps(s: Seq<char>, k: Strip)
    requires
        forall|i: int| 0 <= i < s.len() ==> !strips(s[i], k),
    ensures
        trimmed(s, k) == s,
{
    if s.len() > 0 {
        assert(skip_strip(s, k, 0) == 0);
        assert(back_strip(s, k, 0, s.len() as int) == s.len());
    }
    assert(s.subrange(0, s.len() as int) =~= s);
}

/// A decimal rendering has no white space around it.
pub proof fn lemma_int_digits_trimmed(i: int)
    ensures
        trimmed(int_digits(i), Strip::Space) == int_digits(i),
{
    let n = (if i < 0 {
        -i
    } else {
        i
    }) as nat;
    lemma_digits_all_digits(n);
    let s = int_digits(i);
    assert forall|j: int| 0 <= j < s.len() implies !strips(s[j], Strip::Space) by {
        if i < 0 && j > 0 {
            assert(s[j] == digits(n)[j - 1]);
        }
    }
    lemma_trim_keeps(s, Strip::Space);
}

} // verus!
