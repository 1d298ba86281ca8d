//! Character-level grammar shared by the request, cookie and record formats.
//!
//! Every function here works on sequences of characters. The specification
//! functions scan a sequence from left to right by position, and each
//! executable function is proved to compute exactly its specification.

use vstd::prelude::*;

verus! {

/// Whether `c` is white space: the Unicode `White_Space` code points.
pub open spec fn is_whitespace(c: char) -> bool {
    let u = c as u32;
    ||| 0x09 <= u <= 0x0D
    ||| u == 0x20
    ||| u == 0x85
    ||| u == 0xA0
    ||| u == 0x1680
    ||| 0x2000 <= u <= 0x200A
    ||| u == 0x2028
    ||| u == 0x2029
    ||| u == 0x202F
    ||| u == 0x205F
    ||| u == 0x3000
}

/// Whether `p` occurs in `s` at position `i`.
pub open spec fn matches_at(s: Seq<char>, p: Seq<char>, i: int) -> bool {
    0 <= i && i + p.len() <= s.len() && s.subrange(i, i + p.len()) == p
}

/// The first position at or after `from` that holds `c`, or `s.len()`.
pub open spec fn find_char(s: Seq<char>, c: char, from: int) -> int
    decreases s.len() - from,
{
    if from >= s.len() {
        s.len() as int
    } else if s[from] == c {
        from
    } else {
        find_char(s, c, from + 1)
    }
}

/// The first position at or after `from` where `p` occurs, or `s.len()`.
pub open spec fn find_str(s: Seq<char>, p: Seq<char>, from: int) -> int
    decreases s.len() - from,
{
    if from >= s.len() {
        s.len() as int
    } else if matches_at(s, p, from) {
        from
    } else {
        find_str(s, p, from + 1)
    }
}

/// The first position at or after `from` that holds no white space, or
/// `s.len()`.
pub open spec fn skip_whitespace(s: Seq<char>, from: int) -> int
    decreases s.len() - from,
{
    if from >= s.len() {
        s.len() as int
    } else if !is_whitespace(s[from]) {
        from
    } else {
        skip_whitespace(s, from + 1)
    }
}

/// The first position at or after `from` that holds white space, or
/// `s.len()`.
pub open spec fn word_end(s: Seq<char>, from: int) -> int
    decreases s.len() - from,
{
    if from >= s.len() {
        s.len() as int
    } else if is_whitespace(s[from]) {
        from
    } else {
        word_end(s, from + 1)
    }
}

/// The end of `s[lo..hi]` once its trailing white space is dropped.
pub open spec fn trimmed_end(s: Seq<char>, lo: int, hi: int) -> int
    decreases hi - lo,
{
    if hi <= lo {
        lo
    } else if !is_whitespace(s[hi - 1]) {
        hi
    } else {
        trimmed_end(s, lo, hi - 1)
    }
}

/// `s` without its leading and trailing white space.
pub open spec fn trim(s: Seq<char>) -> Seq<char> {
    let lo = skip_whitespace(s, 0);
    s.subrange(lo, trimmed_end(s, lo, s.len() as int))
}

/// Where the `n`-th run of characters that are not white space begins
/// (`s.len()` when there are fewer runs).
pub open spec fn word_start(s: Seq<char>, n: nat) -> int
    decreases n,
{
    if n == 0 {
        skip_whitespace(s, 0)
    } else {
        skip_whitespace(s, word_end(s, word_start(s, (n - 1) as nat)))
    }
}

/// The `n`-th run of characters that are not white space, counted from
/// zero; empty when there are fewer runs.
pub open spec fn word(s: Seq<char>, n: nat) -> Seq<char> {
    let lo = word_start(s, n);
    s.subrange(lo, word_end(s, lo))
}

/// The pieces of `s[start..]` that `sep` separates, where `start..i` is
/// known to hold no `sep`.
pub open spec fn split_from(s: Seq<char>, sep: char, start: int, i: int) -> Seq<Seq<char>>
    decreases s.len() - i,
{
    if i >= s.len() {
        seq![s.subrange(start, s.len() as int)]
    } else if s[i] == sep {
        seq![s.subrange(start, i)] + split_from(s, sep, i + 1, i + 1)
    } else {
        split_from(s, sep, start, i + 1)
    }
}

/// The pieces of `s` that `sep` separates: one more than `sep` occurs.
pub open spec fn split(s: Seq<char>, sep: char) -> Seq<Seq<char>> {
    split_from(s, sep, 0, 0)
}

/// A line without the carriage return that stood before its line feed.
pub open spec fn without_carriage_return(line: Seq<char>) -> Seq<char> {
    if line.len() > 0 && line.last() == '\r' {
        line.drop_last()
    } else {
        line
    }
}

/// The lines of `s[start..]`, where `start..i` is known to hold no line
/// feed.
pub open spec fn lines_from(s: Seq<char>, start: int, i: int) -> Seq<Seq<char>>
    decreases s.len() - i,
{
    if i >= s.len() {
        if start >= s.len() {
            Seq::empty()
        } else {
            seq![s.subrange(start, s.len() as int)]
        }
    } else if s[i] == '\n' {
        seq![without_carriage_return(s.subrange(start, i))] + lines_from(s, i + 1, i + 1)
    } else {
        lines_from(s, start, i + 1)
    }
}

/// The lines of `s`. A line ends at a line feed, and a carriage return just
/// before that line feed belongs to the ending. Text after the last line
/// feed is a line of its own unless it is empty.
pub open spec fn lines(s: Seq<char>) -> Seq<Seq<char>> {
    lines_from(s, 0, 0)
}

/// The first line of `s`; empty where `s` has no line.
pub open spec fn first_line(s: Seq<char>) -> Seq<char> {
    if lines(s).len() > 0 {
        lines(s)[0]
    } else {
        Seq::empty()
    }
}

/// `s[i..]` with every occurrence of `p` taken out, from left to right.
pub open spec fn without_from(s: Seq<char>, p: Seq<char>, i: int) -> Seq<char>
    decreases s.len() - i,
{
    if i >= s.len() {
        Seq::empty()
    } else if p.len() > 0 && matches_at(s, p, i) {
        without_from(s, p, i + p.len())
    } else {
        seq![s[i]] + without_from(s, p, i + 1)
    }
}

/// `s` with every occurrence of `p` taken out, from left to right.
pub open spec fn without(s: Seq<char>, p: Seq<char>) -> Seq<char> {
    without_from(s, p, 0)
}

/// Where `s` begins once every copy of `p` at position `i` and after it is
/// passed over.
pub open spec fn past_prefixes(s: Seq<char>, p: Seq<char>, i: int) -> int
    decreases s.len() - i,
{
    if i < s.len() && p.len() > 0 && matches_at(s, p, i) {
        past_prefixes(s, p, i + p.len())
    } else {
        i
    }
}

/// `s` without the copies of `p` that it begins with.
pub open spec fn strip_prefixes(s: Seq<char>, p: Seq<char>) -> Seq<char> {
    s.subrange(past_prefixes(s, p, 0), s.len() as int)
}

/// What stands between the first and the second occurrence of `sep` in `s`
/// (up to the end where there is no second one); `None` where `sep` does
/// not occur.
pub open spec fn second_piece(s: Seq<char>, sep: Seq<char>) -> Option<Seq<char>> {
    let i = find_str(s, sep, 0);
    if i >= s.len() {
        None
    } else {
        Some(s.subrange(i + sep.len(), find_str(s, sep, i + sep.len())))
    }
}

/// Whether `c` is one of the ten decimal digits.
pub open spec fn is_digit(c: char) -> bool {
    '0' <= c <= '9'
}

/// The number that a sequence of decimal digits denotes.
pub open spec fn digits_value(s: Seq<char>) -> nat
    decreases s.len(),
{
    if s.len() == 0 {
        0
    } else {
        (digits_value(s.drop_last()) * 10 + (s.last() as u32 - '0' as u32)) as nat
    }
}

/// The digits of a decimal numeral: `s` without one leading plus sign.
pub open spec fn numeral_digits(s: Seq<char>) -> Seq<char> {
    if s.len() > 0 && s[0] == '+' {
        s.skip(1)
    } else {
        s
    }
}

/// Whether `s` is a decimal numeral: an optional plus sign, then one digit
/// or more and nothing else.
pub open spec fn is_numeral(s: Seq<char>) -> bool {
    let d = numeral_digits(s);
    d.len() > 0 && forall|i: int| 0 <= i < d.len() ==> is_digit(#[trigger] d[i])
}

/// The number that `s` denotes if it is a decimal numeral of at most `max`.
pub open spec fn parse_decimal(s: Seq<char>, max: nat) -> Option<nat> {
    if is_numeral(s) && digits_value(numeral_digits(s)) <= max {
        Some(digits_value(numeral_digits(s)))
    } else {
        None
    }
}

/// The character of the decimal digit `d`.
pub open spec fn digit_char(d: nat) -> char {
    (d + 48) as u8 as char
}

/// The decimal numeral of `n`, without leading zeros.
pub open spec fn decimal(n: nat) -> Seq<char>
    decreases n,
{
    if n < 10 {
        seq![digit_char(n)]
    } else {
        decimal(n / 10).push(digit_char(n % 10))
    }
}

/// The views of a sequence of character vectors.
pub open spec fn views(v: Seq<Vec<char>>) -> Seq<Seq<char>> {
    v.map_values(|x: Vec<char>| x@)
}

/// Scanning over characters that are not `sep` leaves the pieces unchanged.
proof fn lemma_split_skips(s: Seq<char>, sep: char, start: int, i: int, j: int)
    requires
        0 <= i <= j <= s.len(),
        forall|k: int| i <= k < j ==> s[k] != sep,
    ensures
        split_from(s, sep, start, i) == split_from(s, sep, start, j),
    decreases j - i,
{
    if i < j {
        lemma_split_skips(s, sep, start, i + 1, j);
    }
}

/// Scanning over characters that are not line feeds leaves the lines
/// unchanged.
proof fn lemma_lines_skips(s: Seq<char>, start: int, i: int, j: int)
    requires
        0 <= i <= j <= s.len(),
        forall|k: int| i <= k < j ==> s[k] != '\n',
    ensures
        lines_from(s, start, i) == lines_from(s, start, j),
    decreases j - i,
{
    if i < j {
        lemma_lines_skips(s, start, i + 1, j);
    }
}

/// Where `s[nl]` is the first line feed at or after `start`, the lines from
/// `start` on are the line that ends there and then the lines after it.
pub proof fn lemma_line_break(s: Seq<char>, start: int, nl: int)
    requires
        0 <= start <= nl < s.len(),
        s[nl] == '\n',
        forall|k: int| start <= k < nl ==> s[k] != '\n',
    ensures
        lines_from(s, start, start) == seq![without_carriage_return(s.subrange(start, nl))]
            + lines_from(s, nl + 1, nl + 1),
{
    lemma_lines_skips(s, start, start, nl);
}

/// Where `s[at]` is the first `c` of `s`, a search from any position up to
/// it finds it.
pub proof fn lemma_find_first(s: Seq<char>, c: char, from: int, at: int)
    requires
        0 <= from <= at < s.len(),
        s[at] == c,
        forall|k: int| from <= k < at ==> s[k] != c,
    ensures
        find_char(s, c, from) == at,
    decreases at - from,
{
    if from < at {
        lemma_find_first(s, c, from + 1, at);
    }
}

/// The lines of a text from a position after a prefix of it on are the
/// lines of what follows the prefix.
pub proof fn lemma_lines_after_prefix(p: Seq<char>, b: Seq<char>, start: int, i: int)
    requires
        0 <= start <= i <= b.len(),
    ensures
        lines_from(p + b, p.len() + start, p.len() + i) == lines_from(b, start, i),
    decreases b.len() - i,
{
    let s = p + b;
    if i >= b.len() {
        assert(s.subrange(p.len() + start, s.len() as int) == b.subrange(start, b.len() as int));
    } else {
        assert(s[p.len() + i] == b[i]);
        if b[i] == '\n' {
            assert(s.subrange(p.len() + start, p.len() + i) == b.subrange(start, i));
            lemma_lines_after_prefix(p, b, i + 1, i + 1);
        } else {
            lemma_lines_after_prefix(p, b, start, i + 1);
        }
    }
}

/// Every character of a decimal numeral is a digit.
pub proof fn lemma_decimal_is_digits(n: nat)
    ensures
        decimal(n).len() > 0,
        forall|k: int| 0 <= k < decimal(n).len() ==> is_digit(#[trigger] decimal(n)[k]),
    decreases n,
{
    if n >= 10 {
        lemma_decimal_is_digits(n / 10);
    }
}

/// A sequence of digits denotes at least what any shorter beginning of it
/// denotes.
proof fn lemma_digits_value_grows(s: Seq<char>, k: int)
    requires
        0 <= k <= s.len(),
        forall|i: int| 0 <= i < s.len() ==> is_digit(#[trigger] s[i]),
    ensures
        digits_value(s.take(k)) <= digits_value(s),
    decreases s.len() - k,
{
    if k < s.len() {
        lemma_digits_value_grows(s, k + 1);
        assert(s.take(k + 1).drop_last() == s.take(k));
    } else {
        assert(s.take(k) == s);
    }
}

/// The characters of `s`, in order.
pub fn to_chars(s: &str) -> (v: Vec<char>)
    ensures
        v@ == s@,
{
    let mut v: Vec<char> = Vec::new();
    for c in it: s.chars()
        invariant
            v@ == it.seq().take(it.index() as int),
            it.seq() == s@,
    {
        v.push(c);
    }
    v
}

/// `String::from_iter` over the characters of a vector: the string that
/// holds exactly these characters.
#[verifier::external_body]
pub(crate) fn to_string(chars: &Vec<char>) -> (s: String)
    ensures
        s@ == chars@,
{
    String::from_iter(chars.iter())
}

/// A copy of `s[lo..hi]`.
pub(crate) fn copy_range(s: &Vec<char>, lo: usize, hi: usize) -> (r: Vec<char>)
    requires
        lo <= hi <= s.len(),
    ensures
        r@ == s@.subrange(lo as int, hi as int),
{
    let mut r: Vec<char> = Vec::new();
    let mut i: usize = lo;
    while i < hi
        invariant
            lo <= i <= hi <= s.len(),
            r@ == s@.subrange(lo as int, i as int),
        decreases hi - i,
    {
        r.push(s[i]);
        i += 1;
    }
    r
}

/// Whether two character sequences are the same.
pub fn same(a: &Vec<char>, b: &Vec<char>) -> (r: bool)
    ensures
        r == (a@ == b@),
{
    if a.len() != b.len() {
        return false;
    }
    let mut i: usize = 0;
    while i < a.len()
        invariant
            i <= a.len(),
            a.len() == b.len(),
            a@.take(i as int) == b@.take(i as int),
        decreases a.len() - i,
    {
        if a[i] != b[i] {
            return false;
        }
        i += 1;
    }
    assert(a@ == a@.take(a.len() as int));
    assert(b@ == b@.take(b.len() as int));
    true
}

/// Whether `c` is white space.
pub fn char_is_whitespace(c: char) -> (r: bool)
    ensures
        r == is_whitespace(c),
{
    let u: u32 = c as u32;
    (0x09 <= u && u <= 0x0D) || u == 0x20 || u == 0x85 || u == 0xA0 || u == 0x1680 || (0x2000 <= u
        && u <= 0x200A) || u == 0x2028 || u == 0x2029 || u == 0x202F || u == 0x205F || u == 0x3000
}

/// Whether `p` occurs in `s` at position `i`.
pub fn occurs_at(s: &Vec<char>, p: &Vec<char>, i: usize) -> (r: bool)
    ensures
        r == matches_at(s@, p@, i as int),
{
    if p.len() > s.len() || i > s.len() - p.len() {
        return false;
    }
    let mut k: usize = 0;
    while k < p.len()
        invariant
            k <= p.len(),
            i + p.len() <= s.len(),
            s@.subrange(i as int, i + k) == p@.take(k as int),
        decreases p.len() - k,
    {
        if s[i + k] != p[k] {
            return false;
        }
        assert(s@.subrange(i as int, i + k + 1) == s@.subrange(i as int, i + k).push(
            s@[i + k],
        ));
        k += 1;
    }
    assert(p@ == p@.take(p.len() as int));
    true
}

/// Whether `s` begins with `p`.
pub fn starts_with(s: &Vec<char>, p: &Vec<char>) -> (r: bool)
    ensures
        r == p@.is_prefix_of(s@),
{
    occurs_at(s, p, 0)
}

/// Whether `s` ends with `p`.
pub fn ends_with(s: &Vec<char>, p: &Vec<char>) -> (r: bool)
    ensures
        r == p@.is_suffix_of(s@),
{
    if p.len() > s.len() {
        return false;
    }
    occurs_at(s, p, s.len() - p.len())
}

/// The first position at or after `from` that holds `c`, or `s.len()`.
pub(crate) fn position_of(s: &Vec<char>, c: char, from: usize) -> (r: usize)
    requires
        from <= s.len(),
    ensures
        r == find_char(s@, c, from as int),
        from <= r <= s.len(),
        forall|j: int| from <= j < r ==> s@[j] != c,
        r < s.len() ==> s@[r as int] == c,
{
    let mut i: usize = from;
    while i < s.len() && s[i] != c
        invariant
            from <= i <= s.len(),
            find_char(s@, c, from as int) == find_char(s@, c, i as int),
            forall|j: int| from <= j < i ==> s@[j] != c,
        decreases s.len() - i,
    {
        i += 1;
    }
    i
}

/// The first position at or after `from` where `p` occurs, or `s.len()`.
pub(crate) fn position_of_str(s: &Vec<char>, p: &Vec<char>, from: usize) -> (r: usize)
    requires
        from <= s.len(),
    ensures
        r == find_str(s@, p@, from as int),
        from <= r <= s.len(),
        r < s.len() ==> matches_at(s@, p@, r as int),
{
    let mut i: usize = from;
    while i < s.len() && !occurs_at(s, p, i)
        invariant
            from <= i <= s.len(),
            find_str(s@, p@, from as int) == find_str(s@, p@, i as int),
        decreases s.len() - i,
    {
        i += 1;
    }
    i
}

/// The first position at or after `from` that holds no white space, or
/// `s.len()`.
pub(crate) fn after_whitespace(s: &Vec<char>, from: usize) -> (r: usize)
    requires
        from <= s.len(),
    ensures
        r == skip_whitespace(s@, from as int),
        from <= r <= s.len(),
{
    let mut i: usize = from;
    while i < s.len() && char_is_whitespace(s[i])
        invariant
            from <= i <= s.len(),
            skip_whitespace(s@, from as int) == skip_whitespace(s@, i as int),
        decreases s.len() - i,
    {
        i += 1;
    }
    i
}

/// The first position at or after `from` that holds white space, or
/// `s.len()`.
pub(crate) fn end_of_word(s: &Vec<char>, from: usize) -> (r: usize)
    requires
        from <= s.len(),
    ensures
        r == word_end(s@, from as int),
        from <= r <= s.len(),
{
    let mut i: usize = from;
    while i < s.len() && !char_is_whitespace(s[i])
        invariant
            from <= i <= s.len(),
            word_end(s@, from as int) == word_end(s@, i as int),
        decreases s.len() - i,
    {
        i += 1;
    }
    i
}

/// `s` without its leading and trailing white space.
pub fn trimmed(s: &Vec<char>) -> (r: Vec<char>)
    ensures
        r@ == trim(s@),
{
    let lo = after_whitespace(s, 0);
    let mut hi: usize = s.len();
    while hi > lo && char_is_whitespace(s[hi - 1])
        invariant
            lo <= hi <= s.len(),
            trimmed_end(s@, lo as int, s.len() as int) == trimmed_end(s@, lo as int, hi as int),
        decreases hi - lo,
    {
        hi -= 1;
    }
    copy_range(s, lo, hi)
}

/// The `n`-th run of characters that are not white space, counted from
/// zero; empty when there are fewer runs.
pub fn nth_word(s: &Vec<char>, n: usize) -> (r: Vec<char>)
    ensures
        r@ == word(s@, n as nat),
{
    let mut lo = after_whitespace(s, 0);
    let mut k: usize = 0;
    while k < n
        invariant
            k <= n,
            lo <= s.len(),
            lo == word_start(s@, k as nat),
        decreases n - k,
    {
        let end = end_of_word(s, lo);
        lo = after_whitespace(s, end);
        k += 1;
    }
    let hi = end_of_word(s, lo);
    copy_range(s, lo, hi)
}

/// The pieces of `s` that `sep` separates.
pub fn split_on(s: &Vec<char>, sep: char) -> (r: Vec<Vec<char>>)
    ensures
        views(r@) == split(s@, sep),
{
    let mut pieces: Vec<Vec<char>> = Vec::new();
    let mut start: usize = 0;
    loop
        invariant_except_break
            start <= s.len(),
            split(s@, sep) == views(pieces@) + split_from(s@, sep, start as int, start as int),
        ensures
            views(pieces@) == split(s@, sep),
        decreases s.len() - start,
    {
        let i = position_of(s, sep, start);
        proof {
            lemma_split_skips(s@, sep, start as int, start as int, i as int);
        }
        pieces.push(copy_range(s, start, i));
        if i >= s.len() {
            break;
        }
        start = i + 1;
    }
    pieces
}

/// The lines of `s`.
pub fn split_lines(s: &Vec<char>) -> (r: Vec<Vec<char>>)
    ensures
        views(r@) == lines(s@),
{
    let mut found: Vec<Vec<char>> = Vec::new();
    let mut start: usize = 0;
    while start < s.len()
        invariant
            start <= s.len(),
            lines(s@) == views(found@) + lines_from(s@, start as int, start as int),
        decreases s.len() - start,
    {
        let i = position_of(s, '\n', start);
        proof {
            lemma_lines_skips(s@, start as int, start as int, i as int);
        }
        if i >= s.len() {
            found.push(copy_range(s, start, i));
            start = i;
        } else {
            let end = if i > start && s[i - 1] == '\r' {
                i - 1
            } else {
                i
            };
            found.push(copy_range(s, start, end));
            assert(s@.subrange(start as int, end as int) == without_carriage_return(
                s@.subrange(start as int, i as int),
            ));
            start = i + 1;
        }
    }
    found
}

/// The first line of `s`; empty where `s` has no line.
pub fn line_one(s: &Vec<char>) -> (r: Vec<char>)
    ensures
        r@ == first_line(s@),
{
    let found = split_lines(s);
    if found.len() > 0 {
        copy_range(&found[0], 0, found[0].len())
    } else {
        Vec::new()
    }
}

/// `s` with every occurrence of `p` taken out, from left to right.
pub fn remove_all(s: &Vec<char>, p: &Vec<char>) -> (r: Vec<char>)
    ensures
        r@ == without(s@, p@),
{
    let mut out: Vec<char> = Vec::new();
    let mut i: usize = 0;
    while i < s.len()
        invariant
            i <= s.len(),
            without(s@, p@) == out@ + without_from(s@, p@, i as int),
        decreases s.len() - i,
    {
        if p.len() > 0 && occurs_at(s, p, i) {
            i += p.len();
        } else {
            out.push(s[i]);
            i += 1;
        }
    }
    out
}

/// `s` without the copies of `p` that it begins with.
pub fn strip_leading(s: &Vec<char>, p: &Vec<char>) -> (r: Vec<char>)
    ensures
        r@ == strip_prefixes(s@, p@),
{
    let mut i: usize = 0;
    while i < s.len() && p.len() > 0 && occurs_at(s, p, i)
        invariant
            i <= s.len(),
            past_prefixes(s@, p@, 0) == past_prefixes(s@, p@, i as int),
        decreases s.len() - i,
    {
        i += p.len();
    }
    copy_range(s, i, s.len())
}

/// What stands between the first and the second occurrence of `sep` in `s`.
pub fn piece_after(s: &Vec<char>, sep: &Vec<char>) -> (r: Option<Vec<char>>)
    ensures
        r is Some ==> second_piece(s@, sep@) == Some(r->0@),
        r is None ==> second_piece(s@, sep@) is None,
{
    let i = position_of_str(s, sep, 0);
    if i >= s.len() {
        None
    } else {
        let lo = i + sep.len();
        let hi = position_of_str(s, sep, lo);
        Some(copy_range(s, lo, hi))
    }
}

/// The number that `s` denotes if it is a decimal numeral that fits the
/// machine's word.
pub fn parse_usize(s: &Vec<char>) -> (r: Option<usize>)
    ensures
        r is Some ==> parse_decimal(s@, usize::MAX as nat) == Some(r->0 as nat),
        r is None ==> parse_decimal(s@, usize::MAX as nat) is None,
{
    let first: usize = if s.len() > 0 && s[0] == '+' {
        1
    } else {
        0
    };
    let ghost d = numeral_digits(s@);
    if first >= s.len() {
        return None;
    }
    let mut value: usize = 0;
    let mut i: usize = first;
    while i < s.len()
        invariant
            first <= i <= s.len(),
            d == numeral_digits(s@),
            d == s@.skip(first as int),
            value == digits_value(d.take(i - first)),
            forall|j: int| 0 <= j < i - first ==> is_digit(#[trigger] d[j]),
        decreases s.len() - i,
    {
        let c = s[i];
        if !('0' <= c && c <= '9') {
            assert(!is_digit(d[i - first]));
            return None;
        }
        let digit: usize = (c as u32 - '0' as u32) as usize;
        assert(d.take(i - first + 1).drop_last() == d.take(i - first));
        if value > (usize::MAX - digit) / 10 {
            proof {
                if is_numeral(s@) {
                    lemma_digits_value_grows(d, i - first + 1);
                }
            }
            return None;
        }
        value = value * 10 + digit;
        i += 1;
    }
    assert(d.take(d.len() as int) == d);
    Some(value)
}

/// Appends the decimal numeral of `n` to `out`.
pub fn push_decimal(out: &mut Vec<char>, n: u64)
    ensures
        final(out)@ == old(out)@ + decimal(n as nat),
    decreases n,
{
    if n >= 10 {
        push_decimal(out, n / 10);
    }
    let digit: u8 = (n % 10) as u8;
    out.push((digit + 48) as char);
}

} // verus!
