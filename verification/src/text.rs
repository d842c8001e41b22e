//! Character-level text operations with exact specifications over `Seq<char>`.
use vstd::prelude::*;

verus! {

// ---------------------------------------------------------------------------
// Specifications
// ---------------------------------------------------------------------------

/// The Unicode `White_Space` property, as used by `char::is_whitespace` and `str::trim`.
pub open spec fn is_ws(c: char) -> bool {
    let u = c as u32;
    ||| 0x09 <= u <= 0x0D
    ||| u == 0x20
    ||| u == 0x85
    ||| u == 0xA0
    ||| u == 0x1680
    ||| 0x2000 <= u <= 0x200A
    ||| u == 0x2028
    ||| u == 0x2029
    ||| u == 0x202F
    ||| u == 0x205F
    ||| u == 0x3000
}

/// Leading whitespace removed.
pub open spec fn trim_start(s: Seq<char>) -> Seq<char>
    decreases s.len(),
{
    if s.len() > 0 && is_ws(s[0]) {
        trim_start(s.drop_first())
    } else {
        s
    }
}

/// Trailing whitespace removed.
pub open spec fn trim_end(s: Seq<char>) -> Seq<char>
    decreases s.len(),
{
    if s.len() > 0 && is_ws(s.last()) {
        trim_end(s.drop_last())
    } else {
        s
    }
}

/// Leading and trailing whitespace removed (`str::trim`).
pub open spec fn trim(s: Seq<char>) -> Seq<char> {
    trim_end(trim_start(s))
}

/// `s` holds nothing but whitespace (`s.trim().is_empty()`).
pub open spec fn is_blank(s: Seq<char>) -> bool {
    trim(s).len() == 0
}

/// `n` occurs in `h` starting at index `k`.
pub open spec fn matches_at(h: Seq<char>, n: Seq<char>, k: int) -> bool {
    0 <= k && k + n.len() <= h.len() && h.subrange(k, k + n.len()) == n
}

/// The first index at or after `i` where `n` occurs in `h`.
pub open spec fn find_from(h: Seq<char>, n: Seq<char>, i: int) -> Option<int>
    decreases h.len() + 1 - i,
{
    if i < 0 || i + n.len() > h.len() {
        None
    } else if matches_at(h, n, i) {
        Some(i)
    } else {
        find_from(h, n, i + 1)
    }
}

/// The first index where `n` occurs in `h` (`str::find`, counted in characters).
pub open spec fn find(h: Seq<char>, n: Seq<char>) -> Option<int> {
    find_from(h, n, 0)
}

/// `p` is a prefix of `s`.
pub open spec fn has_prefix(s: Seq<char>, p: Seq<char>) -> bool {
    p.len() <= s.len() && s.subrange(0, p.len() as int) == p
}

/// A trailing carriage return removed, if there is one.
pub open spec fn strip_cr(s: Seq<char>) -> Seq<char> {
    if s.len() > 0 && s.last() == '\r' {
        s.drop_last()
    } else {
        s
    }
}

/// The lines of `s` from a scan position: `start` begins the current line and
/// `i` is the next character to look at.
pub open spec fn lines_from(s: Seq<char>, start: int, i: int) -> Seq<Seq<char>>
    decreases s.len() - i,
{
    if i < start || start < 0 || i >= s.len() {
        if 0 <= start < s.len() {
            seq![s.subrange(start, s.len() as int)]
        } else {
            seq![]
        }
    } else if s[i] == '\n' {
        seq![strip_cr(s.subrange(start, i))] + lines_from(s, i + 1, i + 1)
    } else {
        lines_from(s, start, i + 1)
    }
}

/// The lines of `s` as `str::lines` yields them: split at `\n`, a `\r` before
/// each `\n` removed, and no empty line after a final `\n`.
pub open spec fn lines(s: Seq<char>) -> Seq<Seq<char>> {
    lines_from(s, 0, 0)
}

/// The decimal digit character for `d < 10`.
pub open spec fn digit(d: nat) -> char {
    if d == 0 {
        '0'
    } else if d == 1 {
        '1'
    } else if d == 2 {
        '2'
    } else if d == 3 {
        '3'
    } else if d == 4 {
        '4'
    } else if d == 5 {
        '5'
    } else if d == 6 {
        '6'
    } else if d == 7 {
        '7'
    } else if d == 8 {
        '8'
    } else {
        '9'
    }
}

/// The decimal representation of `n`, as integer `Display` writes it.
pub open spec fn decimal(n: nat) -> Seq<char>
    decreases n,
{
    if n < 10 {
        seq![digit(n)]
    } else {
        decimal(n / 10).push(digit(n % 10))
    }
}

/// The decimal representation of a signed integer.
pub open spec fn signed_decimal(n: int) -> Seq<char> {
    if n < 0 {
        seq!['-'] + decimal((-n) as nat)
    } else {
        decimal(n as nat)
    }
}

/// The first `n` characters of `s` (all of `s` when it is shorter).
pub open spec fn take_chars(s: Seq<char>, n: nat) -> Seq<char> {
    if s.len() <= n {
        s
    } else {
        s.subrange(0, n as int)
    }
}

/// Every occurrence of `from` replaced by `to`.
pub open spec fn replace_char(s: Seq<char>, from: char, to: char) -> Seq<char> {
    s.map_values(|c: char| if c == from { to } else { c })
}

/// Sequences of lines joined with a separator between consecutive items.
pub open spec fn join(items: Seq<Seq<char>>, sep: Seq<char>) -> Seq<char>
    decreases items.len(),
{
    if items.len() == 0 {
        seq![]
    } else if items.len() == 1 {
        items[0]
    } else {
        join(items.drop_last(), sep) + sep + items.last()
    }
}

/// The characters of an optional string slice.
pub open spec fn opt_chars(o: Option<&str>) -> Option<Seq<char>> {
    match o {
        Some(s) => Some(s@),
        None => None,
    }
}

// ---------------------------------------------------------------------------
// Lemmas
// ---------------------------------------------------------------------------

proof fn lemma_trim_start_skip(s: Seq<char>, i: int)
    requires
        0 <= i < s.len(),
        is_ws(s[i]),
    ensures
        trim_start(s.subrange(i, s.len() as int)) == trim_start(s.subrange(i + 1, s.len() as int)),
{
    assert(s.subrange(i, s.len() as int).drop_first() =~= s.subrange(i + 1, s.len() as int));
}

proof fn lemma_trim_end_skip(s: Seq<char>, j: int)
    requires
        0 < j <= s.len(),
        is_ws(s[j - 1]),
    ensures
        trim_end(s.subrange(0, j)) == trim_end(s.subrange(0, j - 1)),
{
    assert(s.subrange(0, j).drop_last() =~= s.subrange(0, j - 1));
}

/// The join of one more item extends the join by the separator and the item.
pub proof fn lemma_join_push(items: Seq<Seq<char>>, sep: Seq<char>, x: Seq<char>)
    requires
        items.len() > 0,
    ensures
        join(items.push(x), sep) == join(items, sep) + sep + x,
{
    assert(items.push(x).drop_last() =~= items);
}

/// What `find_from` returns: the first match at or after `i`, or `None` when
/// there is none.
pub proof fn lemma_find_from(h: Seq<char>, n: Seq<char>, i: int)
    requires
        0 <= i,
    ensures
        find_from(h, n, i) matches Some(k) ==> i <= k && matches_at(h, n, k) && forall|j: int|
            i <= j < k ==> !matches_at(h, n, j),
        find_from(h, n, i) is None ==> forall|j: int| i <= j ==> !matches_at(h, n, j),
    decreases h.len() + 1 - i,
{
    if i + n.len() > h.len() {
    } else if matches_at(h, n, i) {
    } else {
        lemma_find_from(h, n, i + 1);
    }
}

/// The first match, when there is one, is where `find` points.
pub proof fn lemma_find(h: Seq<char>, n: Seq<char>)
    ensures
        find(h, n) matches Some(k) ==> 0 <= k && k + n.len() <= h.len() && matches_at(h, n, k)
            && forall|j: int| 0 <= j < k ==> !matches_at(h, n, j),
        find(h, n) is None ==> forall|j: int| 0 <= j ==> !matches_at(h, n, j),
{
    lemma_find_from(h, n, 0);
}

/// A match at `k` with none before it is what `find` returns.
pub proof fn lemma_find_first_match(h: Seq<char>, n: Seq<char>, k: int)
    requires
        matches_at(h, n, k),
        forall|j: int| 0 <= j < k ==> !matches_at(h, n, j),
    ensures
        find(h, n) == Some(k),
{
    lemma_find_from(h, n, 0);
    if find(h, n) is None {
        assert(!matches_at(h, n, k));
    }
}

/// A stretch without line breaks is a single line.
pub proof fn lemma_lines_from_no_newline(s: Seq<char>, start: int, i: int)
    requires
        0 <= start <= i <= s.len(),
        start < s.len(),
        forall|j: int| i <= j < s.len() ==> s[j] != '\n',
    ensures
        lines_from(s, start, i) == seq![s.subrange(start, s.len() as int)],
    decreases s.len() - i,
{
    if i < s.len() {
        lemma_lines_from_no_newline(s, start, i + 1);
    }
}

// ---------------------------------------------------------------------------
// Executable operations
// ---------------------------------------------------------------------------

/// `String::push`: appends one character to a string. Claimed: the
/// string's characters afterwards are the former ones and then `c`.
#[verifier::external_body]
pub(crate) fn push_char(s: &mut String, c: char)
    ensures
        final(s)@ == old(s)@.push(c),
{
    s.push(c);
}

/// The characters of a string slice, in order.
pub fn to_chars(s: &str) -> (v: Vec<char>)
    ensures
        v@ == s@,
{
    let mut v: Vec<char> = Vec::new();
    for c in it: s.chars()
        invariant
            v@ == it.seq().take(it.index() as int),
            it.seq() == s@,
    {
        v.push(c);
    }
    v
}

/// A string made of the given characters.
pub fn from_chars(v: &[char]) -> (s: String)
    ensures
        s@ == v@,
{
    let mut s = String::new();
    let mut i: usize = 0;
    while i < v.len()
        invariant
            i <= v.len(),
            s@ == v@.subrange(0, i as int),
        decreases v.len() - i,
    {
        push_char(&mut s, v[i]);
        i += 1;
        assert(s@ =~= v@.subrange(0, i as int));
    }
    assert(v@.subrange(0, v.len() as int) =~= v@);
    s
}

/// An owned copy of a string slice.
pub fn owned(s: &str) -> (r: String)
    ensures
        r@ == s@,
{
    s.to_owned()
}

/// Appends all of `extra` to `out`.
pub fn append_chars(out: &mut Vec<char>, extra: &[char])
    ensures
        final(out)@ == old(out)@ + extra@,
{
    let mut i: usize = 0;
    while i < extra.len()
        invariant
            i <= extra.len(),
            out@ == old(out)@ + extra@.subrange(0, i as int),
        decreases extra.len() - i,
    {
        out.push(extra[i]);
        i += 1;
        assert(out@ =~= old(out)@ + extra@.subrange(0, i as int));
    }
    assert(extra@.subrange(0, extra.len() as int) =~= extra@);
}

/// Appends the characters of a string slice to `out`.
pub fn append_str(out: &mut Vec<char>, extra: &str)
    ensures
        final(out)@ == old(out)@ + extra@,
{
    let v = to_chars(extra);
    append_chars(out, &v);
}

/// Whether a character has the Unicode `White_Space` property.
pub fn char_is_ws(c: char) -> (r: bool)
    ensures
        r == is_ws(c),
{
    let u = c as u32;
    (0x09 <= u && u <= 0x0D) || u == 0x20 || u == 0x85 || u == 0xA0 || u == 0x1680 || (0x2000
        <= u && u <= 0x200A) || u == 0x2028 || u == 0x2029 || u == 0x202F || u == 0x205F || u
        == 0x3000
}

/// A copy of `s[from..to]`.
pub fn slice_chars(s: &[char], from: usize, to: usize) -> (r: Vec<char>)
    requires
        from <= to <= s.len(),
    ensures
        r@ == s@.subrange(from as int, to as int),
{
    let mut r: Vec<char> = Vec::new();
    let mut i = from;
    while i < to
        invariant
            from <= i <= to <= s.len(),
            r@ == s@.subrange(from as int, i as int),
        decreases to - i,
    {
        r.push(s[i]);
        i += 1;
        assert(r@ =~= s@.subrange(from as int, i as int));
    }
    r
}

/// `s` with leading and trailing whitespace removed.
pub fn trim_chars(s: &[char]) -> (r: Vec<char>)
    ensures
        r@ == trim(s@),
{
    let len = s.len();
    let mut i: usize = 0;
    assert(s@.subrange(0, len as int) =~= s@);
    while i < len && char_is_ws(s[i])
        invariant
            i <= len == s@.len(),
            trim_start(s@) == trim_start(s@.subrange(i as int, len as int)),
        decreases len - i,
    {
        proof {
            lemma_trim_start_skip(s@, i as int);
        }
        i += 1;
    }
    let ghost mid = s@.subrange(i as int, len as int);
    assert(trim_start(mid) == mid);
    let mut j: usize = len;
    assert(mid.subrange(0, (len - i) as int) =~= mid);
    while j > i && char_is_ws(s[j - 1])
        invariant
            i <= j <= len == s@.len(),
            mid == s@.subrange(i as int, len as int),
            trim_end(mid) == trim_end(mid.subrange(0, (j - i) as int)),
        decreases j,
    {
        proof {
            lemma_trim_end_skip(mid, (j - i) as int);
        }
        j -= 1;
    }
    assert(mid.subrange(0, (j - i) as int) =~= s@.subrange(i as int, j as int));
    slice_chars(s, i, j)
}

/// `s` with leading whitespace removed.
pub fn trim_start_chars(s: &[char]) -> (r: Vec<char>)
    ensures
        r@ == trim_start(s@),
{
    let len = s.len();
    let mut i: usize = 0;
    assert(s@.subrange(0, len as int) =~= s@);
    while i < len && char_is_ws(s[i])
        invariant
            i <= len == s@.len(),
            trim_start(s@) == trim_start(s@.subrange(i as int, len as int)),
        decreases len - i,
    {
        proof {
            lemma_trim_start_skip(s@, i as int);
        }
        i += 1;
    }
    slice_chars(s, i, len)
}

/// The trimmed characters of a string slice.
pub fn trim_str(s: &str) -> (r: Vec<char>)
    ensures
        r@ == trim(s@),
{
    let v = to_chars(s);
    trim_chars(&v)
}

/// Whether a string slice is empty after trimming.
pub fn str_is_blank(s: &str) -> (r: bool)
    ensures
        r == is_blank(s@),
{
    trim_str(s).len() == 0
}

/// Whether two character sequences are equal.
pub fn chars_eq(a: &[char], b: &[char]) -> (r: bool)
    ensures
        r == (a@ == b@),
{
    if a.len() != b.len() {
        return false;
    }
    let mut i: usize = 0;
    while i < a.len()
        invariant
            i <= a.len() == b.len(),
            forall|k: int| 0 <= k < i ==> a@[k] == b@[k],
        decreases a.len() - i,
    {
        if a[i] != b[i] {
            return false;
        }
        i += 1;
    }
    assert(a@ =~= b@);
    true
}

/// Whether two string slices are equal.
pub fn str_eq(a: &str, b: &str) -> (r: bool)
    ensures
        r == (a@ == b@),
{
    let x = to_chars(a);
    let y = to_chars(b);
    chars_eq(&x, &y)
}

/// Whether `n` occurs in `h` at index `k`.
pub fn chars_match_at(h: &[char], n: &[char], k: usize) -> (r: bool)
    ensures
        r == matches_at(h@, n@, k as int),
{
    if k > h.len() || n.len() > h.len() - k {
        return false;
    }
    let mut i: usize = 0;
    while i < n.len()
        invariant
            i <= n.len(),
            k + n.len() <= h.len(),
            forall|t: int| 0 <= t < i ==> h@[k + t] == n@[t],
        decreases n.len() - i,
    {
        if h[k + i] != n[i] {
            assert(h@.subrange(k as int, k + n.len())[i as int] != n@[i as int]);
            return false;
        }
        i += 1;
    }
    assert(h@.subrange(k as int, k + n.len()) =~= n@);
    true
}

/// The first index where `n` occurs in `h`.
pub fn find_chars(h: &[char], n: &[char]) -> (r: Option<usize>)
    ensures
        r matches Some(k) ==> find(h@, n@) == Some(k as int),
        r is None ==> find(h@, n@) is None,
{
    if n.len() > h.len() {
        return None;
    }
    if n.len() == 0 {
        assert(h@.subrange(0, 0) =~= n@);
        assert(matches_at(h@, n@, 0));
        return Some(0);
    }
    let limit = h.len() - n.len();
    let mut i: usize = 0;
    while i <= limit
        invariant
            i <= limit + 1,
            limit == h.len() - n.len(),
            limit < h.len(),
            find(h@, n@) == find_from(h@, n@, i as int),
        decreases limit + 1 - i,
    {
        if chars_match_at(h, n, i) {
            return Some(i);
        }
        i += 1;
    }
    None
}

/// Whether `p` is a prefix of `s`.
pub fn chars_start_with(s: &[char], p: &[char]) -> (r: bool)
    ensures
        r == has_prefix(s@, p@),
{
    let r = chars_match_at(s, p, 0);
    assert(r == has_prefix(s@, p@));
    r
}

/// The first `n` characters of `s`.
pub fn take_prefix(s: &[char], n: usize) -> (r: Vec<char>)
    ensures
        r@ == take_chars(s@, n as nat),
{
    if s.len() <= n {
        assert(s@.subrange(0, s.len() as int) =~= s@);
        slice_chars(s, 0, s.len())
    } else {
        slice_chars(s, 0, n)
    }
}

/// The lines of `s`, as `str::lines` yields them.
pub fn split_lines(s: &[char]) -> (r: Vec<Vec<char>>)
    ensures
        r@.map_values(|l: Vec<char>| l@) == lines(s@),
{
    let mut r: Vec<Vec<char>> = Vec::new();
    let mut start: usize = 0;
    let mut i: usize = 0;
    while i < s.len()
        invariant
            start <= i <= s.len(),
            r@.map_values(|l: Vec<char>| l@) + lines_from(s@, start as int, i as int) == lines(
                s@,
            ),
        decreases s.len() - i,
    {
        if s[i] == '\n' {
            let mut line = slice_chars(s, start, i);
            if line.len() > 0 && line[line.len() - 1] == '\r' {
                line.pop();
            }
            let ghost before = r@.map_values(|l: Vec<char>| l@);
            r.push(line);
            assert(r@.map_values(|l: Vec<char>| l@) =~= before.push(
                strip_cr(s@.subrange(start as int, i as int)),
            ));
            assert(lines_from(s@, start as int, i as int) == seq![
                strip_cr(s@.subrange(start as int, i as int)),
            ] + lines_from(s@, i + 1, i + 1));
            assert(before + lines_from(s@, start as int, i as int) =~= before.push(
                strip_cr(s@.subrange(start as int, i as int)),
            ) + lines_from(s@, i + 1, i + 1));
            i += 1;
            start = i;
        } else {
            i += 1;
        }
    }
    if start < s.len() {
        let line = slice_chars(s, start, s.len());
        let ghost before = r@.map_values(|l: Vec<char>| l@);
        r.push(line);
        assert(r@.map_values(|l: Vec<char>| l@) =~= before + seq![
            s@.subrange(start as int, s.len() as int),
        ]);
    } else {
        assert(r@.map_values(|l: Vec<char>| l@) =~= r@.map_values(|l: Vec<char>| l@) + seq![]);
    }
    r
}

/// Appends the decimal representation of `n` to `out`.
pub fn push_decimal(out: &mut Vec<char>, n: u64)
    ensures
        final(out)@ == old(out)@ + decimal(n as nat),
    decreases n,
{
    if n >= 10 {
        push_decimal(out, n / 10);
    }
    let d = n % 10;
    let c = if d == 0 {
        '0'
    } else if d == 1 {
        '1'
    } else if d == 2 {
        '2'
    } else if d == 3 {
        '3'
    } else if d == 4 {
        '4'
    } else if d == 5 {
        '5'
    } else if d == 6 {
        '6'
    } else if d == 7 {
        '7'
    } else if d == 8 {
        '8'
    } else {
        '9'
    };
    out.push(c);
    assert(c == digit(d as nat));
}

/// Appends the decimal representation of a signed integer to `out`.
pub fn push_signed_decimal(out: &mut Vec<char>, n: i64)
    requires
        n > i64::MIN,
    ensures
        final(out)@ == old(out)@ + signed_decimal(n as int),
{
    if n < 0 {
        out.push('-');
        let m: u64 = (-n) as u64;
        push_decimal(out, m);
        assert(final(out)@ =~= old(out)@ + signed_decimal(n as int));
    } else {
        push_decimal(out, n as u64);
    }
}

/// `s` with every occurrence of `from` replaced by `to`.
pub fn replace_all_char(s: &[char], from: char, to: char) -> (r: Vec<char>)
    ensures
        r@ == replace_char(s@, from, to),
{
    let mut r: Vec<char> = Vec::new();
    let mut i: usize = 0;
    while i < s.len()
        invariant
            i <= s.len(),
            r@ == replace_char(s@.subrange(0, i as int), from, to),
        decreases s.len() - i,
    {
        let c = if s[i] == from {
            to
        } else {
            s[i]
        };
        r.push(c);
        i += 1;
        assert(r@ =~= replace_char(s@.subrange(0, i as int), from, to));
    }
    assert(s@.subrange(0, s.len() as int) =~= s@);
    r
}

/// Lines joined with a separator.
pub fn join_lines(items: &Vec<Vec<char>>, sep: &[char]) -> (r: Vec<char>)
    ensures
        r@ == join(items@.map_values(|l: Vec<char>| l@), sep@),
{
    let ghost all = items@.map_values(|l: Vec<char>| l@);
    let mut r: Vec<char> = Vec::new();
    let mut i: usize = 0;
    while i < items.len()
        invariant
            i <= items.len(),
            all == items@.map_values(|l: Vec<char>| l@),
            r@ == join(all.take(i as int), sep@),
        decreases items.len() - i,
    {
        proof {
            if i > 0 {
                lemma_join_push(all.take(i as int), sep@, all[i as int]);
            }
            assert(all.take(i as int).push(all[i as int]) =~= all.take(i + 1));
        }
        if i > 0 {
            append_chars(&mut r, sep);
        }
        append_chars(&mut r, &items[i]);
        i += 1;
    }
    assert(all.take(items.len() as int) =~= all);
    r
}

/// A copy of a list of strings.
pub fn dup_strings(v: &Vec<String>) -> (r: Vec<String>)
    ensures
        r@ == v@,
{
    let mut r: Vec<String> = Vec::new();
    let mut i: usize = 0;
    while i < v.len()
        invariant
            i <= v.len(),
            r@ == v@.subrange(0, i as int),
        decreases v.len() - i,
    {
        r.push(v[i].clone());
        i += 1;
        assert(r@ =~= v@.subrange(0, i as int));
    }
    assert(v@.subrange(0, v.len() as int) =~= v@);
    r
}

/// Whether a list of strings holds one equal to `s`.
pub fn strings_contain(v: &Vec<String>, s: &str) -> (r: bool)
    ensures
        r == exists|i: int| 0 <= i < v@.len() && #[trigger] v@[i]@ == s@,
{
    let mut i: usize = 0;
    while i < v.len()
        invariant
            i <= v.len(),
            forall|j: int| 0 <= j < i ==> #[trigger] v@[j]@ != s@,
        decreases v.len() - i,
    {
        if str_eq(v[i].as_str(), s) {
            return true;
        }
        i += 1;
    }
    false
}

} // verus!
