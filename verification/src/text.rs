//! Character-level text utilities shared by the reading, diagnosis and export logic.
//!
//! Strings are modelled by their character sequences (`Seq<char>`); the executable
//! helpers work on `Vec<char>` and convert at the edges.

use vstd::prelude::*;

verus! {

broadcast use vstd::string::group_string_axioms;

/// `String::push` appends one character to the end of the string.
pub assume_specification[ String::push ](s: &mut String, ch: char)
    ensures
        final(s)@ == old(s)@.push(ch),
;

// ---------------------------------------------------------------------------
// Specifications
// ---------------------------------------------------------------------------

/// Unicode `White_Space`, the set that `char::is_whitespace` tests.
pub open spec fn is_whitespace(c: char) -> bool {
    let u = c as u32;
    ||| 0x09 <= u <= 0x0D
    ||| u == 0x20
    ||| u == 0x85
    ||| u == 0xA0
    ||| u == 0x1680
    ||| 0x2000 <= u <= 0x200A
    ||| u == 0x2028
    ||| u == 0x2029
    ||| u == 0x202F
    ||| u == 0x205F
    ||| u == 0x3000
}

/// The whitespace-separated words of `s`, as `str::split_whitespace` yields them.
pub open spec fn words(s: Seq<char>) -> Seq<Seq<char>>
    decreases s.len(),
{
    if s.len() == 0 {
        seq![]
    } else {
        let prev = words(s.drop_last());
        let c = s.last();
        if is_whitespace(c) {
            prev
        } else if s.len() == 1 || is_whitespace(s[s.len() - 2]) {
            prev.push(seq![c])
        } else {
            prev.update(prev.len() - 1, prev.last().push(c))
        }
    }
}

/// The pieces of `parts` joined with `sep` between neighbours.
pub open spec fn join(parts: Seq<Seq<char>>, sep: Seq<char>) -> Seq<char>
    decreases parts.len(),
{
    if parts.len() == 0 {
        seq![]
    } else if parts.len() == 1 {
        parts[0]
    } else {
        join(parts.drop_last(), sep) + sep + parts.last()
    }
}

/// The words of `s` joined by single spaces.
pub open spec fn normalize_whitespace(s: Seq<char>) -> Seq<char> {
    join(words(s), seq![' '])
}

/// `s` without its leading whitespace.
pub open spec fn trim_start(s: Seq<char>) -> Seq<char>
    decreases s.len(),
{
    if s.len() > 0 && is_whitespace(s[0]) {
        trim_start(s.drop_first())
    } else {
        s
    }
}

/// `s` without its trailing whitespace.
pub open spec fn trim_end(s: Seq<char>) -> Seq<char>
    decreases s.len(),
{
    if s.len() > 0 && is_whitespace(s.last()) {
        trim_end(s.drop_last())
    } else {
        s
    }
}

/// `s` without leading and trailing whitespace, as `str::trim` gives it.
pub open spec fn trim(s: Seq<char>) -> Seq<char> {
    trim_end(trim_start(s))
}

/// The character sequences held by a sequence of character vectors.
pub open spec fn char_rows(rows: Seq<Vec<char>>) -> Seq<Seq<char>> {
    Seq::new(rows.len(), |i: int| rows[i]@)
}

/// ASCII lower-casing of one character, as `char::to_ascii_lowercase` does it.
pub open spec fn ascii_lower(c: char) -> char {
    if 'A' <= c && c <= 'Z' {
        ((c as u32) + 32) as char
    } else {
        c
    }
}

/// ASCII lower-casing of a character sequence, as `str::to_ascii_lowercase` does it.
pub open spec fn ascii_lowercase(s: Seq<char>) -> Seq<char> {
    Seq::new(s.len(), |i: int| ascii_lower(s[i]))
}

/// The decimal digit character for `d < 10`.
pub open spec fn digit_char(d: nat) -> char {
    ((d + 48) as u32) as char
}

/// The decimal rendering of `n`, as `Display` for unsigned integers writes it.
pub open spec fn decimal(n: nat) -> Seq<char>
    decreases n,
{
    if n < 10 {
        seq![digit_char(n)]
    } else {
        decimal(n / 10).push(digit_char(n % 10))
    }
}

/// The decimal rendering of `v`, with a leading minus sign when it is negative, as
/// `Display` for signed integers writes it.
pub open spec fn signed_decimal(v: int) -> Seq<char> {
    if v < 0 {
        seq!['-'] + decimal((-v) as nat)
    } else {
        decimal(v as nat)
    }
}

/// `a` sorts no later than `b`: compared character by character by code point, a prefix
/// first.
pub open spec fn name_le(a: Seq<char>, b: Seq<char>) -> bool
    decreases a.len(),
{
    if a.len() == 0 {
        true
    } else if b.len() == 0 {
        false
    } else if a[0] != b[0] {
        a[0] < b[0]
    } else {
        name_le(a.drop_first(), b.drop_first())
    }
}

/// Every name sorts no later than each name after it.
pub open spec fn names_sorted(names: Seq<Seq<char>>) -> bool {
    forall|i: int, j: int| 0 <= i < j < names.len() ==> #[trigger] name_le(names[i], names[j])
}

/// Of any two names, one sorts no later than the other.
pub proof fn lemma_name_le_total(a: Seq<char>, b: Seq<char>)
    ensures
        name_le(a, b) || name_le(b, a),
    decreases a.len(),
{
    if a.len() > 0 && b.len() > 0 && a[0] == b[0] {
        lemma_name_le_total(a.drop_first(), b.drop_first());
    }
}

/// The order of names is transitive.
pub proof fn lemma_name_le_transitive(a: Seq<char>, b: Seq<char>, c: Seq<char>)
    requires
        name_le(a, b),
        name_le(b, c),
    ensures
        name_le(a, c),
    decreases a.len(),
{
    if a.len() > 0 && b.len() > 0 && c.len() > 0 && a[0] == b[0] && b[0] == c[0] {
        lemma_name_le_transitive(a.drop_first(), b.drop_first(), c.drop_first());
    }
}

/// Every name sorts no later than itself.
pub proof fn lemma_name_le_reflexive(a: Seq<char>)
    ensures
        name_le(a, a),
    decreases a.len(),
{
    if a.len() > 0 {
        lemma_name_le_reflexive(a.drop_first());
    }
}

/// Two names that each sort no later than the other are the same name.
pub proof fn lemma_name_le_antisymmetric(a: Seq<char>, b: Seq<char>)
    requires
        name_le(a, b),
        name_le(b, a),
    ensures
        a == b,
    decreases a.len(),
{
    if a.len() > 0 && b.len() > 0 {
        lemma_name_le_antisymmetric(a.drop_first(), b.drop_first());
        assert(a =~= seq![a[0]] + a.drop_first());
        assert(b =~= seq![b[0]] + b.drop_first());
    }
}

/// Number of bytes in the UTF-8 encoding of `c`.
pub open spec fn utf8_width(c: char) -> nat {
    let u = c as u32;
    if u < 0x80 {
        1
    } else if u < 0x800 {
        2
    } else if u < 0x10000 {
        3
    } else {
        4
    }
}

/// Number of bytes in the UTF-8 encoding of `s`, as `str::len` reports it.
pub open spec fn utf8_len(s: Seq<char>) -> nat
    decreases s.len(),
{
    if s.len() == 0 {
        0
    } else {
        utf8_len(s.drop_last()) + utf8_width(s.last())
    }
}

/// The pieces of `s` between the characters that `is_sep` accepts, as `str::split` yields
/// them (an empty input, or a separator at the end, gives an empty last piece).
pub open spec fn split_on(s: Seq<char>, is_sep: spec_fn(char) -> bool) -> Seq<Seq<char>>
    decreases s.len(),
{
    if s.len() == 0 {
        seq![seq![]]
    } else {
        let prev = split_on(s.drop_last(), is_sep);
        if is_sep(s.last()) {
            prev.push(seq![])
        } else {
            prev.update(prev.len() - 1, prev.last().push(s.last()))
        }
    }
}

/// The character is a line feed.
pub open spec fn is_newline(c: char) -> bool {
    c == '\n'
}

/// The character ends a sentence for reading purposes.
pub open spec fn is_sentence_end(c: char) -> bool {
    c == '.' || c == '!' || c == '?'
}

/// The pieces of `s` between `'\n'` characters.
pub open spec fn newline_pieces(s: Seq<char>) -> Seq<Seq<char>> {
    split_on(s, |c: char| is_newline(c))
}

/// The trimmed pieces that are not empty after trimming, in order.
pub open spec fn trimmed_nonblank(pieces: Seq<Seq<char>>) -> Seq<Seq<char>>
    decreases pieces.len(),
{
    if pieces.len() == 0 {
        seq![]
    } else {
        let prev = trimmed_nonblank(pieces.drop_last());
        let t = trim(pieces.last());
        if t.len() > 0 {
            prev.push(t)
        } else {
            prev
        }
    }
}

/// The lines of `s` with surrounding whitespace removed, blank ones left out: what
/// `s.lines().map(str::trim).filter(|l| !l.is_empty())` yields.  (`lines` also drops a
/// `'\r'` before each `'\n'` and does not yield a final empty line; trimming and the
/// filter remove both anyway.)
pub open spec fn nonblank_lines(s: Seq<char>) -> Seq<Seq<char>> {
    trimmed_nonblank(newline_pieces(s))
}

/// The character sequences held by a sequence of strings.
pub open spec fn string_views(strings: Seq<String>) -> Seq<Seq<char>> {
    Seq::new(strings.len(), |i: int| strings[i]@)
}

/// `s` itself when it has at most `k` elements, else its first `k` elements
/// (what `take(k)` on an iterator keeps).
pub open spec fn at_most<A>(s: Seq<A>, k: nat) -> Seq<A> {
    if s.len() <= k {
        s
    } else {
        s.take(k as int)
    }
}

/// `needle` occurs in `hay` at position `i`.
pub open spec fn occurs_at<A>(hay: Seq<A>, needle: Seq<A>, i: int) -> bool {
    0 <= i && i + needle.len() <= hay.len() && hay.subrange(i, i + needle.len()) == needle
}

/// `needle` occurs somewhere in `hay`, as `str::contains` tests.
pub open spec fn contains<A>(hay: Seq<A>, needle: Seq<A>) -> bool {
    exists|i: int| occurs_at(hay, needle, i)
}


// ---------------------------------------------------------------------------
// Lemmas
// ---------------------------------------------------------------------------

/// A sequence that ends in a non-whitespace character has at least one word.
pub proof fn lemma_words_nonempty_when_ends_in_word(s: Seq<char>)
    requires
        s.len() > 0,
        !is_whitespace(s.last()),
    ensures
        words(s).len() > 0,
    decreases s.len(),
{
    if s.len() > 1 && !is_whitespace(s[s.len() - 2]) {
        lemma_words_nonempty_when_ends_in_word(s.drop_last());
    }
}

/// Splitting always gives at least one piece.
pub proof fn lemma_split_on_nonempty(s: Seq<char>, is_sep: spec_fn(char) -> bool)
    ensures
        split_on(s, is_sep).len() > 0,
    decreases s.len(),
{
    if s.len() > 0 {
        lemma_split_on_nonempty(s.drop_last(), is_sep);
    }
}

// ---------------------------------------------------------------------------
// Executable helpers
// ---------------------------------------------------------------------------

/// `char::is_whitespace`.
pub fn char_is_whitespace(c: char) -> (b: bool)
    ensures
        b == is_whitespace(c),
{
    let u = c as u32;
    (0x09 <= u && u <= 0x0D) || u == 0x20 || u == 0x85 || u == 0xA0 || u == 0x1680 || (0x2000
        <= u && u <= 0x200A) || u == 0x2028 || u == 0x2029 || u == 0x202F || u == 0x205F || u
        == 0x3000
}

/// The characters of `s`, in order.
pub fn str_chars(s: &str) -> (v: Vec<char>)
    ensures
        v@ == s@,
{
    let mut v: Vec<char> = Vec::new();
    for c in it: s.chars()
        invariant
            v@ == it.seq().take(it.index() as int),
            it.seq() == s@,
    {
        v.push(c);
    }
    v
}

/// A string holding the characters of `v`.
pub fn string_from_chars(v: &Vec<char>) -> (s: String)
    ensures
        s@ == v@,
{
    let mut s = String::new();
    let mut i: usize = 0;
    while i < v.len()
        invariant
            i <= v.len(),
            s@ == v@.take(i as int),
        decreases v.len() - i,
    {
        s.push(v[i]);
        i = i + 1;
        assert(s@ == v@.take(i as int));
    }
    assert(v@.take(v.len() as int) == v@);
    s
}

/// The whitespace-separated words of `s`.
pub fn split_whitespace(s: &Vec<char>) -> (ws: Vec<Vec<char>>)
    ensures
        char_rows(ws@) == words(s@),
{
    let mut done: Vec<Vec<char>> = Vec::new();
    let mut cur: Vec<char> = Vec::new();
    let mut i: usize = 0;
    while i < s.len()
        invariant
            i <= s.len(),
            cur@.len() > 0 <==> (i > 0 && !is_whitespace(s@[i - 1])),
            words(s@.take(i as int)) == (if cur@.len() > 0 {
                char_rows(done@).push(cur@)
            } else {
                char_rows(done@)
            }),
        decreases s.len() - i,
    {
        let c = s[i];
        let ghost prev_done = char_rows(done@);
        let ghost prev_cur = cur@;
        assert(s@.take(i + 1).drop_last() == s@.take(i as int));
        assert(s@.take(i + 1).last() == c);
        if char_is_whitespace(c) {
            if cur.len() > 0 {
                let word = cur;
                cur = Vec::new();
                done.push(word);
                assert(char_rows(done@) =~= prev_done.push(prev_cur));
            }
        } else {
            if cur.len() > 0 {
                assert(s@.take(i + 1)[i - 1] == s@[i - 1]);
                cur.push(c);
            } else {
                if i > 0 {
                    assert(s@.take(i + 1)[i - 1] == s@[i - 1]);
                }
                cur.push(c);
                assert(cur@ == seq![c]);
            }
        }
        i = i + 1;
    }
    assert(s@.take(s.len() as int) == s@);
    if cur.len() > 0 {
        let ghost prev_done = char_rows(done@);
        let ghost prev_cur = cur@;
        done.push(cur);
        assert(char_rows(done@) =~= prev_done.push(prev_cur));
    }
    done
}

/// The pieces of `parts` joined with `sep`.
pub fn join_chars(parts: &Vec<Vec<char>>, sep: &Vec<char>) -> (out: Vec<char>)
    ensures
        out@ == join(char_rows(parts@), sep@),
{
    let out = join_range(parts, 0, parts.len(), sep);
    assert(char_rows(parts@).subrange(0, parts.len() as int) == char_rows(parts@));
    out
}

/// The pieces `parts[lo..hi]` joined with `sep`.
pub fn join_range(parts: &Vec<Vec<char>>, lo: usize, hi: usize, sep: &Vec<char>) -> (out: Vec<char>)
    requires
        lo <= hi <= parts.len(),
    ensures
        out@ == join(char_rows(parts@).subrange(lo as int, hi as int), sep@),
{
    let mut out: Vec<char> = Vec::new();
    let mut i: usize = lo;
    let ghost rows = char_rows(parts@);
    assert(rows.subrange(lo as int, lo as int) =~= Seq::<Seq<char>>::empty());
    while i < hi
        invariant
            lo <= i <= hi <= parts.len(),
            rows == char_rows(parts@),
            out@ == join(rows.subrange(lo as int, i as int), sep@),
        decreases hi - i,
    {
        let ghost before = rows.subrange(lo as int, i as int);
        let ghost after = rows.subrange(lo as int, i + 1);
        assert(after.drop_last() == before);
        assert(after.last() == parts[i as int]@);
        if i > lo {
            let mut k: usize = 0;
            while k < sep.len()
                invariant
                    k <= sep.len(),
                    out@ == join(before, sep@) + sep@.take(k as int),
                decreases sep.len() - k,
            {
                out.push(sep[k]);
                k = k + 1;
                assert(out@ == join(before, sep@) + sep@.take(k as int));
            }
            assert(sep@.take(sep.len() as int) == sep@);
        }
        let part = &parts[i];
        let ghost base = out@;
        let mut k: usize = 0;
        while k < part.len()
            invariant
                k <= part.len(),
                out@ == base + part@.take(k as int),
            decreases part.len() - k,
        {
            out.push(part[k]);
            k = k + 1;
            assert(out@ == base + part@.take(k as int));
        }
        assert(part@.take(part.len() as int) == part@);
        assert(out@ == join(after, sep@));
        i = i + 1;
    }
    out
}

/// One string per character row.
pub fn strings_from_rows(rows: &Vec<Vec<char>>) -> (out: Vec<String>)
    ensures
        string_views(out@) == char_rows(rows@),
{
    let mut out: Vec<String> = Vec::new();
    let mut i: usize = 0;
    while i < rows.len()
        invariant
            i <= rows.len(),
            string_views(out@) == char_rows(rows@).take(i as int),
        decreases rows.len() - i,
    {
        let s = string_from_chars(&rows[i]);
        let ghost prev = out@;
        out.push(s);
        assert(out@ == prev.push(s));
        assert(char_rows(rows@).take(i + 1) == char_rows(rows@).take(i as int).push(rows@[i as int]@));
        i = i + 1;
        assert(string_views(out@) =~= char_rows(rows@).take(i as int));
    }
    assert(char_rows(rows@).take(rows.len() as int) == char_rows(rows@));
    out
}

/// `s` without leading and trailing whitespace.
pub fn trim_chars(s: &Vec<char>) -> (out: Vec<char>)
    ensures
        out@ == trim(s@),
{
    let n = s.len();
    let mut i: usize = 0;
    assert(s@.skip(0) == s@);
    while i < n && char_is_whitespace(s[i])
        invariant
            i <= n,
            n == s.len(),
            trim_start(s@) == trim_start(s@.skip(i as int)),
        decreases n - i,
    {
        assert(s@.skip(i as int).drop_first() == s@.skip(i + 1));
        i = i + 1;
    }
    let mut j: usize = n;
    while j > i && char_is_whitespace(s[j - 1])
        invariant
            i <= j <= n,
            n == s.len(),
            trim_start(s@) == s@.skip(i as int),
            trim(s@) == trim_end(s@.subrange(i as int, j as int)),
        decreases j - i,
    {
        assert(s@.subrange(i as int, j as int).drop_last() == s@.subrange(i as int, j - 1));
        j = j - 1;
    }
    assert(s@.skip(i as int) == s@.subrange(i as int, n as int));
    let mut out: Vec<char> = Vec::new();
    let mut k: usize = i;
    while k < j
        invariant
            i <= k <= j <= n,
            n == s.len(),
            out@ == s@.subrange(i as int, k as int),
        decreases j - k,
    {
        out.push(s[k]);
        k = k + 1;
        assert(out@ == s@.subrange(i as int, k as int));
    }
    out
}

/// Whether `needle` occurs in `hay`.
pub fn contains_chars(hay: &Vec<char>, needle: &Vec<char>) -> (b: bool)
    ensures
        b == contains(hay@, needle@),
{
    if needle.len() > hay.len() {
        assert forall|i: int| !occurs_at(hay@, needle@, i) by {}
        return false;
    }
    let last = hay.len() - needle.len();
    let mut i: usize = 0;
    while i <= last
        invariant
            last == hay.len() - needle.len(),
            needle.len() <= hay.len(),
            i <= last + 1,
            forall|p: int| 0 <= p < i ==> !occurs_at(hay@, needle@, p),
        decreases last + 1 - i,
    {
        let mut k: usize = 0;
        let mut same = true;
        while k < needle.len()
            invariant
                i <= last,
                last == hay.len() - needle.len(),
                k <= needle.len(),
                same ==> forall|q: int| 0 <= q < k ==> hay@[i + q] == needle@[q],
                !same ==> !occurs_at(hay@, needle@, i as int),
            decreases needle.len() - k,
        {
            if same && hay[i + k] != needle[k] {
                same = false;
                assert(hay@.subrange(i as int, i + needle.len())[k as int] == hay@[i + k]);
            }
            k = k + 1;
        }
        if same {
            assert(hay@.subrange(i as int, i + needle.len()) =~= needle@);
            assert(occurs_at(hay@, needle@, i as int));
            return true;
        }
        if i == last {
            assert forall|p: int| !occurs_at(hay@, needle@, p) by {
                if 0 <= p && p + needle@.len() <= hay@.len() {
                    assert(p <= i);
                }
            }
            return false;
        }
        i = i + 1;
    }
    false
}

/// `char::to_ascii_lowercase`.
pub fn char_ascii_lower(c: char) -> (l: char)
    ensures
        l == ascii_lower(c),
{
    if 'A' <= c && c <= 'Z' {
        ((c as u8) + 32) as char
    } else {
        c
    }
}

/// `str::to_ascii_lowercase` on a character vector.
pub fn ascii_lowercase_chars(s: &Vec<char>) -> (out: Vec<char>)
    ensures
        out@ == ascii_lowercase(s@),
{
    let mut out: Vec<char> = Vec::new();
    let mut i: usize = 0;
    while i < s.len()
        invariant
            i <= s.len(),
            out@ =~= ascii_lowercase(s@.take(i as int)),
        decreases s.len() - i,
    {
        out.push(char_ascii_lower(s[i]));
        i = i + 1;
    }
    assert(s@.take(s.len() as int) == s@);
    out
}

/// The decimal digits of `n`.
pub fn decimal_chars(n: u64) -> (out: Vec<char>)
    ensures
        out@ == decimal(n as nat),
    decreases n,
{
    let d = (n % 10) as u8;
    let c = (48u8 + d) as char;
    if n < 10 {
        let mut out = Vec::new();
        out.push(c);
        out
    } else {
        let mut out = decimal_chars(n / 10);
        out.push(c);
        out
    }
}

/// Whether `a` and `b` hold the same characters.
pub fn chars_equal(a: &Vec<char>, b: &Vec<char>) -> (same: bool)
    ensures
        same == (a@ == b@),
{
    if a.len() != b.len() {
        return false;
    }
    let mut i: usize = 0;
    while i < a.len()
        invariant
            i <= a.len() == b.len(),
            forall|j: int| 0 <= j < i ==> a@[j] == b@[j],
        decreases a.len() - i,
    {
        if a[i] != b[i] {
            assert(a@[i as int] != b@[i as int]);
            return false;
        }
        i = i + 1;
    }
    assert(a@ =~= b@);
    true
}

/// Whether `a` sorts no later than `b`.
pub fn names_in_order(a: &str, b: &str) -> (r: bool)
    ensures
        r == name_le(a@, b@),
{
    let x = str_chars(a);
    let y = str_chars(b);
    let mut i: usize = 0;
    assert(a@.skip(0) =~= a@);
    assert(b@.skip(0) =~= b@);
    while i < x.len() && i < y.len() && x[i] == y[i]
        invariant
            i <= x.len(),
            i <= y.len(),
            x@ == a@,
            y@ == b@,
            name_le(a@, b@) == name_le(a@.skip(i as int), b@.skip(i as int)),
        decreases x.len() - i,
    {
        assert(a@.skip(i as int).drop_first() =~= a@.skip(i + 1));
        assert(b@.skip(i as int).drop_first() =~= b@.skip(i + 1));
        i = i + 1;
    }
    if i == x.len() {
        true
    } else if i == y.len() {
        false
    } else {
        x[i] < y[i]
    }
}

/// Appends the characters of `tail` to `v`.
pub fn append_chars(v: &mut Vec<char>, tail: &Vec<char>)
    ensures
        final(v)@ == old(v)@ + tail@,
{
    let ghost base = v@;
    let mut i: usize = 0;
    while i < tail.len()
        invariant
            i <= tail.len(),
            v@ == base + tail@.take(i as int),
        decreases tail.len() - i,
    {
        v.push(tail[i]);
        i = i + 1;
        assert(v@ == base + tail@.take(i as int));
    }
    assert(tail@.take(tail.len() as int) == tail@);
}

/// The decimal rendering of `n`, signed.
pub fn signed_decimal_chars(n: i32) -> (out: Vec<char>)
    ensures
        out@ == signed_decimal(n as int),
{
    let wide: i64 = n as i64;
    let mut out: Vec<char> = Vec::new();
    if wide < 0 {
        out.push('-');
    }
    let magnitude: u64 = if wide < 0 {
        (-wide) as u64
    } else {
        wide as u64
    };
    let digits = decimal_chars(magnitude);
    append_chars(&mut out, &digits);
    out
}

/// `char::len_utf8`.
pub fn char_utf8_width(c: char) -> (w: usize)
    ensures
        w == utf8_width(c),
{
    let u = c as u32;
    if u < 0x80 {
        1
    } else if u < 0x800 {
        2
    } else if u < 0x10000 {
        3
    } else {
        4
    }
}

/// The non-blank trimmed lines of `s`.
pub fn nonblank_trimmed_lines(s: &Vec<char>) -> (lines: Vec<Vec<char>>)
    ensures
        char_rows(lines@) == nonblank_lines(s@),
{
    trimmed_nonblank_pieces(s, false)
}

/// The pieces of `s` between sentence ends (`'.'`, `'!'`, `'?'`) when `sentences` holds,
/// between line feeds otherwise; trimmed, with the empty ones left out.
pub fn trimmed_nonblank_pieces(s: &Vec<char>, sentences: bool) -> (out: Vec<Vec<char>>)
    ensures
        char_rows(out@) == trimmed_nonblank(split_on(
            s@,
            if sentences {
                |c: char| is_sentence_end(c)
            } else {
                |c: char| is_newline(c)
            },
        )),
{
    let ghost sep: spec_fn(char) -> bool = if sentences {
        |c: char| is_sentence_end(c)
    } else {
        |c: char| is_newline(c)
    };
    let mut done: Vec<Vec<char>> = Vec::new();
    let mut cur: Vec<char> = Vec::new();
    let mut i: usize = 0;
    proof {
        lemma_split_on_nonempty(s@.take(0), sep);
        assert(s@.take(0) =~= Seq::<char>::empty());
    }
    while i < s.len()
        invariant
            i <= s.len(),
            sep == (if sentences {
                |c: char| is_sentence_end(c)
            } else {
                |c: char| is_newline(c)
            }),
            split_on(s@.take(i as int), sep).len() > 0,
            cur@ == split_on(s@.take(i as int), sep).last(),
            char_rows(done@) == trimmed_nonblank(split_on(s@.take(i as int), sep).drop_last()),
        decreases s.len() - i,
    {
        let c = s[i];
        let ghost prev = split_on(s@.take(i as int), sep);
        assert(s@.take(i + 1).drop_last() == s@.take(i as int));
        assert(s@.take(i + 1).last() == c);
        let is_sep = if sentences {
            c == '.' || c == '!' || c == '?'
        } else {
            c == '\n'
        };
        assert(is_sep == sep(c));
        if is_sep {
            let t = trim_chars(&cur);
            let ghost old_done = char_rows(done@);
            if t.len() > 0 {
                done.push(t);
                assert(char_rows(done@) =~= old_done.push(trim(prev.last())));
            }
            assert(prev.push(seq![]).drop_last() == prev);
            assert(prev.drop_last().push(prev.last()) == prev);
            cur = Vec::new();
        } else {
            cur.push(c);
            assert(prev.update(prev.len() - 1, prev.last().push(c)).drop_last() == prev.drop_last());
        }
        i = i + 1;
    }
    assert(s@.take(s.len() as int) == s@);
    let ghost pieces = split_on(s@, sep);
    assert(pieces.drop_last().push(pieces.last()) == pieces);
    let t = trim_chars(&cur);
    if t.len() > 0 {
        let ghost old_done = char_rows(done@);
        done.push(t);
        assert(char_rows(done@) =~= old_done.push(trim(pieces.last())));
    }
    done
}

/// The words of `s` joined by single spaces.
pub fn normalize_whitespace_chars(s: &Vec<char>) -> (out: Vec<char>)
    ensures
        out@ == normalize_whitespace(s@),
{
    let ws = split_whitespace(s);
    let mut sep: Vec<char> = Vec::new();
    sep.push(' ');
    assert(sep@ == seq![' ']);
    join_chars(&ws, &sep)
}

/// Appends the characters of `s` to `v`.
pub fn push_str_chars(v: &mut Vec<char>, s: &str)
    ensures
        final(v)@ == old(v)@ + s@,
{
    let chars = str_chars(s);
    append_chars(v, &chars);
}

/// `a` followed by `b`.
pub fn concat2(a: &str, b: &str) -> (s: String)
    ensures
        s@ == a@ + b@,
{
    let mut v: Vec<char> = Vec::new();
    push_str_chars(&mut v, a);
    push_str_chars(&mut v, b);
    string_from_chars(&v)
}

/// `a` followed by `b` followed by `c`.
pub fn concat3(a: &str, b: &str, c: &str) -> (s: String)
    ensures
        s@ == a@ + b@ + c@,
{
    let mut v: Vec<char> = Vec::new();
    push_str_chars(&mut v, a);
    push_str_chars(&mut v, b);
    push_str_chars(&mut v, c);
    assert(v@ == a@ + b@ + c@);
    string_from_chars(&v)
}

} // verus!
