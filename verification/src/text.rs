//! Character-level helpers shared by the parsers of this crate.
//!
//! Every parser in the crate works on the characters of its input. The helpers
//! here give those parsers a small vocabulary: splitting at the first
//! occurrence of a character, trimming Unicode white space, decimal numbers,
//! and joining text with a separator. Each helper is specified over `Seq<char>`.
use vstd::prelude::*;

verus! {

broadcast use vstd::string::group_string_axioms;

// ---------------------------------------------------------------------------
// Strings and character vectors
// ---------------------------------------------------------------------------

/// Appends one character to a string: `String::push` from std.
///
/// The documentation of `String::push` says that it appends the given `char`
/// to the end of the string; the contract says the same of the view.
#[verifier::external_body]
pub(crate) fn push_char(s: &mut String, c: char)
    ensures
        final(s)@ == old(s)@.push(c),
{
    s.push(c);
}

/// The characters of `s`, in order.
pub fn chars_of(s: &str) -> (r: Vec<char>)
    ensures
        r@ == s@,
{
    let mut r: Vec<char> = Vec::new();
    for c in it: s.chars()
        invariant
            r@ == it.seq().take(it.index() as int),
            it.seq() == s@,
    {
        r.push(c);
    }
    r
}

/// The string made of `cs[lo..hi]`.
pub fn string_from_range(cs: &[char], lo: usize, hi: usize) -> (r: String)
    requires
        lo <= hi <= cs@.len(),
    ensures
        r@ == cs@.subrange(lo as int, hi as int),
{
    let mut r = String::new();
    let mut i = lo;
    while i < hi
        invariant
            lo <= i <= hi <= cs@.len(),
            r@ == cs@.subrange(lo as int, i as int),
        decreases hi - i,
    {
        push_char(&mut r, cs[i]);
        i = i + 1;
        assert(r@ =~= cs@.subrange(lo as int, i as int));
    }
    r
}

/// The string made of all of `cs`.
pub fn string_from_chars(cs: &[char]) -> (r: String)
    ensures
        r@ == cs@,
{
    let r = string_from_range(cs, 0, cs.len());
    assert(cs@.subrange(0, cs@.len() as int) =~= cs@);
    r
}

/// Appends the characters of `t` to `s`.
pub fn push_str_chars(s: &mut String, t: &[char])
    ensures
        final(s)@ == old(s)@ + t@,
{
    let mut i: usize = 0;
    while i < t.len()
        invariant
            i <= t@.len(),
            s@ == old(s)@ + t@.subrange(0, i as int),
        decreases t.len() - i,
    {
        push_char(s, t[i]);
        i = i + 1;
        assert(s@ =~= old(s)@ + t@.subrange(0, i as int));
    }
    assert(t@.subrange(0, t@.len() as int) =~= t@);
}

/// Appends the characters of `t` to `s`.
pub fn push_str(s: &mut String, t: &str)
    ensures
        final(s)@ == old(s)@ + t@,
{
    let cs = chars_of(t);
    push_str_chars(s, cs.as_slice());
}

/// Whether two character sequences are equal.
pub fn chars_eq(a: &[char], b: &[char]) -> (r: bool)
    ensures
        r == (a@ == b@),
{
    if a.len() != b.len() {
        return false;
    }
    let mut i: usize = 0;
    while i < a.len()
        invariant
            a@.len() == b@.len(),
            i <= a@.len(),
            forall|j: int| 0 <= j < i ==> a@[j] == b@[j],
        decreases a.len() - i,
    {
        if a[i] != b[i] {
            return false;
        }
        i = i + 1;
    }
    assert(a@ =~= b@);
    true
}

/// Whether the characters `a` spell the text `b`.
pub fn chars_eq_str(a: &[char], b: &str) -> (r: bool)
    ensures
        r == (a@ == b@),
{
    let bs = chars_of(b);
    chars_eq(a, bs.as_slice())
}

/// Whether `s` begins with `prefix`.
pub open spec fn has_prefix(s: Seq<char>, prefix: Seq<char>) -> bool {
    prefix.len() <= s.len() && s.subrange(0, prefix.len() as int) == prefix
}

/// Whether `cs` begins with the characters of `prefix`.
pub fn starts_with_chars(cs: &[char], prefix: &[char]) -> (r: bool)
    ensures
        r == has_prefix(cs@, prefix@),
{
    if prefix.len() > cs.len() {
        return false;
    }
    let mut i: usize = 0;
    while i < prefix.len()
        invariant
            prefix@.len() <= cs@.len(),
            i <= prefix@.len(),
            forall|j: int| 0 <= j < i ==> cs@[j] == prefix@[j],
        decreases prefix.len() - i,
    {
        if cs[i] != prefix[i] {
            assert(cs@.subrange(0, prefix@.len() as int)[i as int] != prefix@[i as int]);
            return false;
        }
        i = i + 1;
    }
    assert(cs@.subrange(0, prefix@.len() as int) =~= prefix@);
    true
}

/// Whether `t` occurs in `s` as a run of neighbouring characters.
pub open spec fn has_infix(s: Seq<char>, t: Seq<char>) -> bool {
    exists|i: int|
        0 <= i && i + t.len() <= s.len() && #[trigger] s.subrange(i, i + t.len()) == t
}

/// Whether the characters of `t` occur in `cs` as a run of neighbouring
/// characters.
pub fn contains_chars(cs: &[char], t: &[char]) -> (r: bool)
    ensures
        r == has_infix(cs@, t@),
{
    if t.len() > cs.len() {
        return false;
    }
    if t.len() == 0 {
        assert(cs@.subrange(0int, 0int + t@.len()) =~= t@);
        return true;
    }
    let windows = cs.len() - t.len() + 1;
    let mut i: usize = 0;
    while i < windows
        invariant
            windows + t@.len() == cs@.len() + 1,
            cs@.len() <= usize::MAX,
            t@.len() >= 1,
            i <= windows,
            forall|j: int| 0 <= j < i ==> #[trigger] cs@.subrange(j, j + t@.len()) != t@,
        decreases windows - i,
    {
        let w = slice_range(cs, i, i + t.len());
        if chars_eq(w.as_slice(), t) {
            return true;
        }
        i = i + 1;
    }
    false
}

/// Whether `s` ends with `suffix`.
pub open spec fn has_suffix(s: Seq<char>, suffix: Seq<char>) -> bool {
    suffix.len() <= s.len() && s.subrange(s.len() - suffix.len(), s.len() as int) == suffix
}

/// Whether `cs` ends with the characters of `suffix`.
pub fn ends_with_chars(cs: &[char], suffix: &[char]) -> (r: bool)
    ensures
        r == has_suffix(cs@, suffix@),
{
    if suffix.len() > cs.len() {
        return false;
    }
    let n = cs.len();
    let off = n - suffix.len();
    let mut i: usize = 0;
    while i < suffix.len()
        invariant
            n == cs@.len(),
            suffix@.len() <= cs@.len(),
            off + suffix@.len() == n,
            i <= suffix@.len(),
            forall|j: int| 0 <= j < i ==> cs@[off + j] == suffix@[j],
        decreases suffix.len() - i,
    {
        if cs[off + i] != suffix[i] {
            assert(cs@.subrange(off as int, cs@.len() as int)[i as int] != suffix@[i as int]);
            return false;
        }
        i = i + 1;
    }
    assert(cs@.subrange(off as int, cs@.len() as int) =~= suffix@);
    true
}

// ---------------------------------------------------------------------------
// Splitting at the first occurrence of a character
// ---------------------------------------------------------------------------

/// `i` is the position of the first `c` in `s`.
pub open spec fn is_first_index(s: Seq<char>, c: char, i: int) -> bool {
    &&& 0 <= i < s.len()
    &&& s[i] == c
    &&& forall|j: int| 0 <= j < i ==> s[j] != c
}

/// The position of the first `c` in `s`, if `c` occurs in it.
pub open spec fn first_index(s: Seq<char>, c: char) -> Option<int> {
    if exists|i: int| is_first_index(s, c, i) {
        Some(choose|i: int| is_first_index(s, c, i))
    } else {
        None
    }
}

/// `s` split around the first `c`: the text before it and the text after it
/// (the behaviour of `str::split_once` with a `char` pattern).
pub open spec fn split_once(s: Seq<char>, c: char) -> Option<(Seq<char>, Seq<char>)> {
    match first_index(s, c) {
        Some(i) => Some((s.subrange(0, i), s.subrange(i + 1, s.len() as int))),
        None => None,
    }
}

/// There is at most one first position.
pub proof fn lemma_first_index_unique(s: Seq<char>, c: char, i: int, k: int)
    requires
        is_first_index(s, c, i),
        is_first_index(s, c, k),
    ensures
        i == k,
{
    if i < k {
        assert(s[i] != c);
    } else if k < i {
        assert(s[k] != c);
    }
}

/// `first_index` is the position found by a left-to-right scan.
pub proof fn lemma_first_index_is(s: Seq<char>, c: char, i: int)
    requires
        is_first_index(s, c, i),
    ensures
        first_index(s, c) == Some(i),
{
    let k = choose|k: int| is_first_index(s, c, k);
    lemma_first_index_unique(s, c, i, k);
}

/// `c` does not occur in `s`.
pub proof fn lemma_first_index_none(s: Seq<char>, c: char)
    requires
        forall|j: int| 0 <= j < s.len() ==> s[j] != c,
    ensures
        first_index(s, c) is None,
        split_once(s, c) is None,
{
}

/// Splitting `a + [c] + b` where `a` has no `c` gives back `a` and `b`.
pub proof fn lemma_split_once_join(a: Seq<char>, c: char, b: Seq<char>)
    requires
        forall|j: int| 0 <= j < a.len() ==> a[j] != c,
    ensures
        split_once(a + seq![c] + b, c) == Some((a, b)),
{
    let s = a + seq![c] + b;
    assert(is_first_index(s, c, a.len() as int));
    lemma_first_index_is(s, c, a.len() as int);
    assert(s.subrange(0, a.len() as int) =~= a);
    assert(s.subrange(a.len() as int + 1, s.len() as int) =~= b);
}

/// The split parts rebuild the text: `s == before + [c] + after`, and
/// `before` holds no `c`.
pub proof fn lemma_split_once_parts(s: Seq<char>, c: char)
    requires
        split_once(s, c) is Some,
    ensures
        ({
            let (x, y) = split_once(s, c)->0;
            &&& s == x + seq![c] + y
            &&& forall|j: int| 0 <= j < x.len() ==> x[j] != c
        }),
{
    let i = first_index(s, c)->0;
    assert(is_first_index(s, c, i));
    let (x, y) = split_once(s, c)->0;
    assert(s =~= x + seq![c] + y);
}

/// The position of the first `c` in `cs`.
pub fn find_char(cs: &[char], c: char) -> (r: Option<usize>)
    ensures
        match r {
            Some(i) => i < cs.len() && is_first_index(cs@, c, i as int) && first_index(cs@, c) == Some(
                i as int,
            ),
            None => first_index(cs@, c) is None && forall|j: int| 0 <= j < cs@.len() ==> cs@[j] != c,
        },
{
    let mut i: usize = 0;
    while i < cs.len()
        invariant
            i <= cs@.len(),
            forall|j: int| 0 <= j < i ==> cs@[j] != c,
        decreases cs.len() - i,
    {
        if cs[i] == c {
            proof {
                lemma_first_index_is(cs@, c, i as int);
            }
            return Some(i);
        }
        i = i + 1;
    }
    None
}

/// Splits `cs` around the first `c` (`str::split_once`).
pub fn split_once_chars(cs: &[char], c: char) -> (r: Option<(Vec<char>, Vec<char>)>)
    ensures
        match r {
            Some((x, y)) => split_once(cs@, c) == Some((x@, y@)),
            None => split_once(cs@, c) is None,
        },
{
    match find_char(cs, c) {
        Some(i) => {
            let x = slice_range(cs, 0, i);
            let y = slice_range(cs, i + 1, cs.len());
            Some((x, y))
        },
        None => None,
    }
}

/// The characters `cs[lo..hi]`.
pub fn slice_range(cs: &[char], lo: usize, hi: usize) -> (r: Vec<char>)
    requires
        lo <= hi <= cs@.len(),
    ensures
        r@ == cs@.subrange(lo as int, hi as int),
{
    let mut r: Vec<char> = Vec::new();
    let mut i = lo;
    while i < hi
        invariant
            lo <= i <= hi <= cs@.len(),
            r@ == cs@.subrange(lo as int, i as int),
        decreases hi - i,
    {
        r.push(cs[i]);
        i = i + 1;
        assert(r@ =~= cs@.subrange(lo as int, i as int));
    }
    r
}

// ---------------------------------------------------------------------------
// Splitting at every occurrence of a character
// ---------------------------------------------------------------------------

/// The pieces of `s` between the occurrences of `c`, in order (the behaviour
/// of `str::split` with a `char` pattern: there is always at least one piece,
/// and pieces may be empty).
pub open spec fn split_all(s: Seq<char>, c: char) -> Seq<Seq<char>>
    decreases s.len(),
{
    match split_once(s, c) {
        Some((x, y)) => {
            if y.len() < s.len() {
                seq![x] + split_all(y, c)
            } else {
                seq![s]
            }
        },
        None => seq![s],
    }
}

/// If `c` occurs in `s`, it has a first position.
pub proof fn lemma_first_index_exists(s: Seq<char>, c: char, j: int)
    requires
        0 <= j < s.len(),
        s[j] == c,
    ensures
        first_index(s, c) is Some,
        split_once(s, c) is Some,
    decreases j,
{
    if exists|k: int| 0 <= k < j && s[k] == c {
        let k = choose|k: int| 0 <= k < j && s[k] == c;
        lemma_first_index_exists(s, c, k);
    } else {
        assert(is_first_index(s, c, j));
    }
}

/// When `s` does not split at `c`, `c` does not occur in it.
pub proof fn lemma_split_once_none(s: Seq<char>, c: char)
    requires
        split_once(s, c) is None,
    ensures
        forall|j: int| 0 <= j < s.len() ==> s[j] != c,
{
    assert forall|j: int| 0 <= j < s.len() implies s[j] != c by {
        if s[j] == c {
            lemma_first_index_exists(s, c, j);
        }
    }
}

/// Joining `[x] + rest` puts `x` and the separator in front of the join of
/// `rest`.
pub proof fn lemma_join_front(x: Seq<char>, rest: Seq<Seq<char>>, sep: Seq<char>)
    requires
        rest.len() >= 1,
    ensures
        join(seq![x] + rest, sep) == x + sep + join(rest, sep),
    decreases rest.len(),
{
    let all = seq![x] + rest;
    assert(all.len() >= 2);
    assert(join(all, sep) == join(all.drop_last(), sep) + sep + all.last());
    if rest.len() == 1 {
        assert(all.drop_last() =~= seq![x]);
        assert(join(seq![x], sep) == x);
        assert(all.last() == rest[0]);
        assert(join(rest, sep) == rest[0]);
    } else {
        lemma_join_front(x, rest.drop_last(), sep);
        assert(all.drop_last() =~= seq![x] + rest.drop_last());
        assert(all.last() == rest.last());
        assert(join(rest, sep) == join(rest.drop_last(), sep) + sep + rest.last());
        assert(x + sep + join(rest, sep) =~= x + sep + join(rest.drop_last(), sep) + sep
            + rest.last());
    }
}

/// The pieces of `split_all` joined with `c` give back `s`.
pub proof fn lemma_split_all_join(s: Seq<char>, c: char)
    ensures
        join(split_all(s, c), seq![c]) == s,
        split_all(s, c).len() >= 1,
    decreases s.len(),
{
    match split_once(s, c) {
        Some((x, y)) => {
            lemma_split_once_parts(s, c);
            assert(y.len() < s.len());
            lemma_split_all_join(y, c);
            lemma_join_front(x, split_all(y, c), seq![c]);
        },
        None => {},
    }
}

/// Splitting the join of pieces that hold no `c` gives back the pieces.
pub proof fn lemma_join_split_all(parts: Seq<Seq<char>>, c: char)
    requires
        parts.len() >= 1,
        forall|k: int, j: int|
            #![trigger parts[k][j]]
            0 <= k < parts.len() && 0 <= j < parts[k].len() ==> parts[k][j] != c,
    ensures
        split_all(join(parts, seq![c]), c) == parts,
    decreases parts.len(),
{
    if parts.len() == 1 {
        assert(join(parts, seq![c]) == parts[0]);
        assert(forall|j: int| 0 <= j < parts[0].len() ==> parts[0][j] != c);
        lemma_first_index_none(parts[0], c);
        assert(split_all(parts[0], c) =~= parts);
    } else {
        let x = parts[0];
        let rest = parts.drop_first();
        assert(parts =~= seq![x] + rest);
        lemma_join_front(x, rest, seq![c]);
        assert forall|k: int, j: int| 0 <= k < rest.len() && 0 <= j < rest[k].len() implies #[trigger] rest[k][j] != c by {
            assert(rest[k] == parts[k + 1]);
        }
        lemma_join_split_all(rest, c);
        let s = join(parts, seq![c]);
        assert(forall|j: int| 0 <= j < x.len() ==> x[j] != c);
        lemma_split_once_join(x, c, join(rest, seq![c]));
        assert(s == x + seq![c] + join(rest, seq![c]));
        assert(split_all(s, c) =~= seq![x] + rest);
    }
}

/// Splits `cs` at every `c` (`str::split`).
pub fn split_all_chars(cs: &[char], c: char) -> (r: Vec<Vec<char>>)
    ensures
        r@.map_values(|v: Vec<char>| v@) == split_all(cs@, c),
{
    let mut r: Vec<Vec<char>> = Vec::new();
    let mut start: usize = 0;
    let mut i: usize = 0;
    proof {
        assert(cs@.subrange(0, cs@.len() as int) =~= cs@);
        assert(r@.map_values(|v: Vec<char>| v@) + split_all(cs@, c) =~= split_all(cs@, c));
    }
    while i < cs.len()
        invariant
            start <= i <= cs@.len(),
            forall|j: int| start <= j < i ==> cs@[j] != c,
            r@.map_values(|v: Vec<char>| v@) + split_all(cs@.subrange(start as int, cs@.len() as int), c)
                == split_all(cs@, c),
        decreases cs.len() - i,
    {
        if cs[i] == c {
            let ghost rest = cs@.subrange(start as int, cs@.len() as int);
            let piece = slice_range(cs, start, i);
            proof {
                let a = cs@.subrange(start as int, i as int);
                let b = cs@.subrange(i as int + 1, cs@.len() as int);
                assert(rest =~= a + seq![c] + b);
                lemma_split_once_join(a, c, b);
                assert(split_all(rest, c) == seq![a] + split_all(b, c));
                assert(r@.push(piece).map_values(|v: Vec<char>| v@) =~= r@.map_values(
                    |v: Vec<char>| v@,
                ).push(a));
                assert(r@.map_values(|v: Vec<char>| v@) + split_all(rest, c) =~= r@.map_values(
                    |v: Vec<char>| v@,
                ).push(a) + split_all(b, c));
            }
            r.push(piece);
            start = i + 1;
        }
        i = i + 1;
    }
    let piece = slice_range(cs, start, cs.len());
    proof {
        let rest = cs@.subrange(start as int, cs@.len() as int);
        lemma_first_index_none(rest, c);
        assert(split_all(rest, c) == seq![rest]);
        assert(r@.push(piece).map_values(|v: Vec<char>| v@) =~= r@.map_values(|v: Vec<char>| v@)
            + seq![rest]);
    }
    r.push(piece);
    r
}

// ---------------------------------------------------------------------------
// White space
// ---------------------------------------------------------------------------

/// Whether `c` has the Unicode `White_Space` property (`char::is_whitespace`).
pub open spec fn is_whitespace(c: char) -> bool {
    ||| c == ' '
    ||| ('\u{9}' <= c && c <= '\u{d}')
    ||| c == '\u{85}'
    ||| c == '\u{a0}'
    ||| c == '\u{1680}'
    ||| ('\u{2000}' <= c && c <= '\u{200a}')
    ||| c == '\u{2028}'
    ||| c == '\u{2029}'
    ||| c == '\u{202f}'
    ||| c == '\u{205f}'
    ||| c == '\u{3000}'
}

/// Whether `c` has the Unicode `White_Space` property.
pub fn is_whitespace_char(c: char) -> (r: bool)
    ensures
        r == is_whitespace(c),
{
    c == ' ' || ('\u{9}' <= c && c <= '\u{d}') || c == '\u{85}' || c == '\u{a0}' || c
        == '\u{1680}' || ('\u{2000}' <= c && c <= '\u{200a}') || c == '\u{2028}' || c
        == '\u{2029}' || c == '\u{202f}' || c == '\u{205f}' || c == '\u{3000}'
}

/// Scanning `s` from the left for runs of characters that are not white
/// space: the runs ended so far and the run being read.
pub open spec fn ws_scan(s: Seq<char>) -> (Seq<Seq<char>>, Seq<char>)
    decreases s.len(),
{
    if s.len() == 0 {
        (seq![], seq![])
    } else {
        let (done, cur) = ws_scan(s.drop_last());
        if is_whitespace(s.last()) {
            if cur.len() > 0 {
                (done.push(cur), seq![])
            } else {
                (done, cur)
            }
        } else {
            (done, cur.push(s.last()))
        }
    }
}

/// The words of `s` (`str::split_whitespace`): its maximal runs of
/// characters that are not white space, in order.
pub open spec fn split_whitespace(s: Seq<char>) -> Seq<Seq<char>> {
    let (done, cur) = ws_scan(s);
    if cur.len() > 0 {
        done.push(cur)
    } else {
        done
    }
}

/// The words of `cs`.
pub fn split_whitespace_chars(cs: &[char]) -> (r: Vec<Vec<char>>)
    ensures
        r@.len() == split_whitespace(cs@).len(),
        forall|i: int| 0 <= i < r@.len() ==> #[trigger] r@[i]@ == split_whitespace(cs@)[i],
{
    let mut out: Vec<Vec<char>> = Vec::new();
    let mut cur: Vec<char> = Vec::new();
    let mut i: usize = 0;
    while i < cs.len()
        invariant
            i <= cs@.len(),
            out@.len() == ws_scan(cs@.take(i as int)).0.len(),
            forall|k: int| 0 <= k < out@.len() ==> #[trigger] out@[k]@ == ws_scan(cs@.take(i as int)).0[k],
            cur@ == ws_scan(cs@.take(i as int)).1,
        decreases cs.len() - i,
    {
        proof {
            assert(cs@.take(i + 1).drop_last() =~= cs@.take(i as int));
        }
        let c = cs[i];
        if is_whitespace_char(c) {
            if cur.len() > 0 {
                out.push(cur);
                cur = Vec::new();
            }
        } else {
            cur.push(c);
        }
        i = i + 1;
    }
    assert(cs@.take(i as int) =~= cs@);
    if cur.len() > 0 {
        out.push(cur);
    }
    out
}

/// `s` without leading white space.
pub open spec fn trim_start(s: Seq<char>) -> Seq<char>
    decreases s.len(),
{
    if s.len() > 0 && is_whitespace(s[0]) {
        trim_start(s.drop_first())
    } else {
        s
    }
}

/// `s` without trailing white space.
pub open spec fn trim_end(s: Seq<char>) -> Seq<char>
    decreases s.len(),
{
    if s.len() > 0 && is_whitespace(s.last()) {
        trim_end(s.drop_last())
    } else {
        s
    }
}

/// `s` without leading and trailing white space (`str::trim`).
pub open spec fn trim(s: Seq<char>) -> Seq<char> {
    trim_end(trim_start(s))
}

proof fn lemma_trim_start_skip(s: Seq<char>, i: int)
    requires
        0 <= i <= s.len(),
        forall|j: int| 0 <= j < i ==> is_whitespace(s[j]),
    ensures
        trim_start(s) == trim_start(s.subrange(i, s.len() as int)),
    decreases i,
{
    if i > 0 {
        assert(s.drop_first().subrange(i - 1, s.drop_first().len() as int) =~= s.subrange(
            i,
            s.len() as int,
        ));
        lemma_trim_start_skip(s.drop_first(), i - 1);
    } else {
        assert(s.subrange(0, s.len() as int) =~= s);
    }
}

proof fn lemma_trim_end_take(s: Seq<char>, k: int)
    requires
        0 <= k <= s.len(),
        forall|j: int| k <= j < s.len() ==> is_whitespace(s[j]),
    ensures
        trim_end(s) == trim_end(s.subrange(0, k)),
    decreases s.len() - k,
{
    if k < s.len() {
        assert(s.drop_last().subrange(0, k) =~= s.subrange(0, k));
        lemma_trim_end_take(s.drop_last(), k);
    } else {
        assert(s.subrange(0, k) =~= s);
    }
}

/// The characters of `cs` without leading and trailing white space.
pub fn trim_chars(cs: &[char]) -> (r: Vec<char>)
    ensures
        r@ == trim(cs@),
{
    let (lo, hi) = trim_bounds(cs);
    slice_range(cs, lo, hi)
}

/// The bounds of `cs` without its leading and trailing white space.
pub fn trim_bounds(cs: &[char]) -> (r: (usize, usize))
    ensures
        r.0 <= r.1 <= cs@.len(),
        cs@.subrange(r.0 as int, r.1 as int) == trim(cs@),
{
    let mut lo: usize = 0;
    while lo < cs.len() && is_whitespace_char(cs[lo])
        invariant
            lo <= cs@.len(),
            forall|j: int| 0 <= j < lo ==> is_whitespace(cs@[j]),
        decreases cs.len() - lo,
    {
        lo = lo + 1;
    }
    proof {
        lemma_trim_start_skip(cs@, lo as int);
    }
    let ghost mid = cs@.subrange(lo as int, cs@.len() as int);
    assert(trim_start(mid) == mid);
    let mut hi: usize = cs.len();
    while hi > lo && is_whitespace_char(cs[hi - 1])
        invariant
            lo <= hi <= cs@.len(),
            forall|j: int| hi <= j < cs@.len() ==> is_whitespace(cs@[j]),
        decreases hi,
    {
        hi = hi - 1;
    }
    proof {
        lemma_trim_end_take(mid, hi - lo);
        assert(mid.subrange(0, hi - lo) =~= cs@.subrange(lo as int, hi as int));
    }
    (lo, hi)
}

// ---------------------------------------------------------------------------
// Decimal numbers
// ---------------------------------------------------------------------------

/// Whether `c` is an ASCII decimal digit.
pub open spec fn is_digit(c: char) -> bool {
    '0' <= c && c <= '9'
}

/// The value of the decimal digit `c`.
pub open spec fn digit_value(c: char) -> nat {
    (c as int - '0' as int) as nat
}

/// The decimal digit for `d < 10`.
pub open spec fn digit_char(d: nat) -> char {
    (d + '0' as int) as char
}

/// Whether every character of `s` is a decimal digit.
pub open spec fn all_digits(s: Seq<char>) -> bool {
    forall|i: int| 0 <= i < s.len() ==> is_digit(#[trigger] s[i])
}

/// The value of the digit string `s`, most significant digit first.
pub open spec fn digits_value(s: Seq<char>) -> nat
    decreases s.len(),
{
    if s.len() == 0 {
        0
    } else {
        digits_value(s.drop_last()) * 10 + digit_value(s.last())
    }
}

/// The number that `s` spells as an unsigned decimal: an optional `+` and then
/// one or more digits (the accepted form of `str::parse` for unsigned integers).
pub open spec fn parse_decimal(s: Seq<char>) -> Option<nat> {
    let d = if s.len() > 0 && s[0] == '+' {
        s.drop_first()
    } else {
        s
    };
    if d.len() > 0 && all_digits(d) {
        Some(digits_value(d))
    } else {
        None
    }
}

/// `s` parsed as a `u32` (`str::parse::<u32>`).
pub open spec fn parse_u32(s: Seq<char>) -> Option<u32> {
    match parse_decimal(s) {
        Some(n) => if n <= u32::MAX {
            Some(n as u32)
        } else {
            None
        },
        None => None,
    }
}

/// `s` parsed as a `u8` (`str::parse::<u8>`).
pub open spec fn parse_u8(s: Seq<char>) -> Option<u8> {
    match parse_decimal(s) {
        Some(n) => if n <= u8::MAX {
            Some(n as u8)
        } else {
            None
        },
        None => None,
    }
}

/// The decimal rendering of `n` without sign or leading zeros (`to_string`).
pub open spec fn decimal(n: nat) -> Seq<char>
    decreases n,
{
    if n < 10 {
        seq![digit_char(n)]
    } else {
        decimal(n / 10).push(digit_char(n % 10))
    }
}

proof fn lemma_digits_value_prefix_le(s: Seq<char>, k: int)
    requires
        0 <= k <= s.len(),
    ensures
        digits_value(s.subrange(0, k)) <= digits_value(s),
    decreases s.len(),
{
    if k < s.len() {
        assert(s.drop_last().subrange(0, k) =~= s.subrange(0, k));
        lemma_digits_value_prefix_le(s.drop_last(), k);
    } else {
        assert(s.subrange(0, k) =~= s);
    }
}

proof fn lemma_digit_char(d: nat)
    requires
        d < 10,
    ensures
        is_digit(digit_char(d)),
        digit_value(digit_char(d)) == d,
        digit_char(d) != '+',
        digit_char(d) != '-',
{
}

/// The decimal rendering spells `n` back, and has the shape of a number.
pub proof fn lemma_decimal(n: nat)
    ensures
        decimal(n).len() > 0,
        all_digits(decimal(n)),
        digits_value(decimal(n)) == n,
        parse_decimal(decimal(n)) == Some(n),
        decimal(n)[0] != '+',
        decimal(n)[0] != '-',
    decreases n,
{
    if n < 10 {
        lemma_digit_char(n);
        let s = decimal(n);
        assert(s.drop_last() =~= Seq::<char>::empty());
        assert(digits_value(s.drop_last()) == 0);
        assert(s.last() == digit_char(n));
        assert(digits_value(s) == n);
        assert(all_digits(s));
        assert(parse_decimal(s) == Some(n));
    } else {
        lemma_decimal(n / 10);
        lemma_digit_char(n % 10);
        let s = decimal(n);
        assert(s.drop_last() =~= decimal(n / 10));
        assert(n == (n / 10) * 10 + n % 10);
        assert forall|i: int| 0 <= i < s.len() implies is_digit(#[trigger] s[i]) by {
            if i < s.len() - 1 {
                assert(s[i] == decimal(n / 10)[i]);
            }
        }
        assert(s.last() == digit_char(n % 10));
        assert(digits_value(s) == digits_value(decimal(n / 10)) * 10 + digit_value(digit_char(n % 10)));
        assert(digits_value(s) == n);
        assert(s[0] == decimal(n / 10)[0]);
        assert(parse_decimal(s) == Some(n));
    }
}

/// `s` spells a `u32` in decimal.
pub fn parse_u32_chars(s: &[char]) -> (r: Option<u32>)
    ensures
        r == parse_u32(s@),
{
    let start: usize = if s.len() > 0 && s[0] == '+' {
        1
    } else {
        0
    };
    let ghost d = if s@.len() > 0 && s@[0] == '+' {
        s@.drop_first()
    } else {
        s@
    };
    assert(d =~= s@.subrange(start as int, s@.len() as int));
    let ghost expected = if d.len() > 0 && all_digits(d) && digits_value(d) <= u32::MAX {
        Some(digits_value(d) as u32)
    } else {
        None::<u32>
    };
    assert(parse_u32(s@) == expected);
    if start >= s.len() {
        return None;
    }
    let mut acc: u64 = 0;
    let mut i = start;
    while i < s.len()
        invariant
            start <= i <= s@.len(),
            d =~= s@.subrange(start as int, s@.len() as int),
            parse_u32(s@) == expected,
            expected == (if d.len() > 0 && all_digits(d) && digits_value(d) <= u32::MAX {
                Some(digits_value(d) as u32)
            } else {
                None::<u32>
            }),
            forall|j: int| start <= j < i ==> is_digit(s@[j]),
            acc == digits_value(s@.subrange(start as int, i as int)),
            acc <= u32::MAX,
        decreases s.len() - i,
    {
        let c = s[i];
        if !('0' <= c && c <= '9') {
            assert(!is_digit(d[i - start]));
            return None;
        }
        let dv = (c as u32 - '0' as u32) as u64;
        let ghost prev = s@.subrange(start as int, i as int);
        let next = acc * 10 + dv;
        proof {
            let cur = s@.subrange(start as int, i + 1);
            assert(cur.drop_last() =~= prev);
        }
        if next > u32::MAX as u64 {
            proof {
                let cur = s@.subrange(start as int, i + 1);
                assert(d.subrange(0, i + 1 - start) =~= cur);
                lemma_digits_value_prefix_le(d, i + 1 - start);
            }
            i = i + 1;
            // keep scanning: every remaining character must still be a digit
            while i < s.len()
                invariant
                    start < i <= s@.len(),
                    d =~= s@.subrange(start as int, s@.len() as int),
                    parse_u32(s@) == expected,
                    expected == (if d.len() > 0 && all_digits(d) && digits_value(d) <= u32::MAX {
                        Some(digits_value(d) as u32)
                    } else {
                        None::<u32>
                    }),
                    forall|j: int| start <= j < i ==> is_digit(s@[j]),
                    digits_value(d) > u32::MAX,
                decreases s.len() - i,
            {
                let c2 = s[i];
                if !('0' <= c2 && c2 <= '9') {
                    assert(!is_digit(d[i - start]));
                    return None;
                }
                i = i + 1;
            }
            assert(all_digits(d));
            return None;
        }
        acc = next;
        i = i + 1;
    }
    assert(s@.subrange(start as int, i as int) =~= d);
    Some(acc as u32)
}

/// `s` spells a `u8` in decimal.
pub fn parse_u8_chars(s: &[char]) -> (r: Option<u8>)
    ensures
        r == parse_u8(s@),
{
    match parse_u32_chars(s) {
        Some(n) => if n <= 255 {
            Some(n as u8)
        } else {
            None
        },
        None => None,
    }
}

/// The decimal digits of `n`.
pub fn decimal_chars(n: u64) -> (r: Vec<char>)
    ensures
        r@ == decimal(n as nat),
    decreases n,
{
    if n < 10 {
        let c = ((n as u32) + ('0' as u32)) as u8 as char;
        let mut r = Vec::new();
        r.push(c);
        proof {
            assert(r@ =~= seq![digit_char(n as nat)]);
        }
        r
    } else {
        let mut r = decimal_chars(n / 10);
        let d = (n % 10) as u32;
        let c = (d + ('0' as u32)) as u8 as char;
        r.push(c);
        r
    }
}

/// `n` rendered in decimal (`to_string` of an unsigned integer).
pub fn decimal_string(n: u64) -> (r: String)
    ensures
        r@ == decimal(n as nat),
{
    let cs = decimal_chars(n);
    string_from_chars(cs.as_slice())
}

// ---------------------------------------------------------------------------
// Joining
// ---------------------------------------------------------------------------

/// The pieces of `parts` separated by `sep` (`join` with a one-character
/// separator).
pub open spec fn join(parts: Seq<Seq<char>>, sep: Seq<char>) -> Seq<char>
    decreases parts.len(),
{
    if parts.len() == 0 {
        seq![]
    } else if parts.len() == 1 {
        parts[0]
    } else {
        join(parts.drop_last(), sep) + sep + parts.last()
    }
}

/// The view of each string of `v`.
pub open spec fn strings_view(v: Seq<String>) -> Seq<Seq<char>> {
    v.map_values(|s: String| s@)
}

/// The strings of `parts` joined with `sep` between them.
pub fn join_strings(parts: &[String], sep: &str) -> (r: String)
    ensures
        r@ == join(strings_view(parts@), sep@),
{
    let mut r = String::new();
    let mut i: usize = 0;
    while i < parts.len()
        invariant
            i <= parts@.len(),
            r@ == join(strings_view(parts@.subrange(0, i as int)), sep@),
        decreases parts.len() - i,
    {
        let ghost before = strings_view(parts@.subrange(0, i as int));
        if i > 0 {
            push_str(&mut r, sep);
        }
        push_str(&mut r, parts[i].as_str());
        i = i + 1;
        proof {
            let now = strings_view(parts@.subrange(0, i as int));
            assert(now.drop_last() =~= before);
            assert(now.last() == parts@[i - 1]@);
            if i == 1 {
                assert(now.len() == 1);
            }
        }
    }
    assert(parts@.subrange(0, parts@.len() as int) =~= parts@);
    r
}

} // verus!
