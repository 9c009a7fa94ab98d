//! Character-level text model shared by the config rewriters.
//!
//! Every executable helper here works on `Vec<char>` / `&[char]` and is
//! specified against a spec function over `Seq<char>` that follows the
//! behaviour of the corresponding `str` method.
use vstd::prelude::*;

verus! {

// ───────────────────────── characters ─────────────────────────

/// `char::to_ascii_lowercase`.
pub open spec fn lower_char(c: char) -> char {
    if 'A' <= c <= 'Z' {
        ((c as u32) + 32) as char
    } else {
        c
    }
}

/// `char::is_whitespace` (the Unicode `White_Space` property).
pub open spec fn is_ws(c: char) -> bool {
    ||| c == ' '
    ||| '\t' <= c <= '\r'
    ||| c == '\u{85}'
    ||| c == '\u{A0}'
    ||| c == '\u{1680}'
    ||| '\u{2000}' <= c <= '\u{200A}'
    ||| c == '\u{2028}'
    ||| c == '\u{2029}'
    ||| c == '\u{202F}'
    ||| c == '\u{205F}'
    ||| c == '\u{3000}'
}

/// `char::is_ascii_alphabetic`.
pub open spec fn is_ascii_alpha(c: char) -> bool {
    ('a' <= c <= 'z') || ('A' <= c <= 'Z')
}

/// `c.to_ascii_lowercase()`.
pub fn lower_char_exec(c: char) -> (r: char)
    ensures
        r == lower_char(c),
{
    if 'A' <= c && c <= 'Z' {
        ((c as u8) + 32) as char
    } else {
        c
    }
}

/// `c.is_whitespace()`.
pub fn is_ws_exec(c: char) -> (r: bool)
    ensures
        r == is_ws(c),
{
    c == ' ' || ('\t' <= c && c <= '\r') || c == '\u{85}' || c == '\u{A0}' || c == '\u{1680}'
        || ('\u{2000}' <= c && c <= '\u{200A}') || c == '\u{2028}' || c == '\u{2029}' || c
        == '\u{202F}' || c == '\u{205F}' || c == '\u{3000}'
}

/// `c.is_ascii_alphabetic()`.
pub fn is_ascii_alpha_exec(c: char) -> (r: bool)
    ensures
        r == is_ascii_alpha(c),
{
    ('a' <= c && c <= 'z') || ('A' <= c && c <= 'Z')
}

// ───────────────────────── sequences ─────────────────────────

/// `str::to_ascii_lowercase`.
pub open spec fn lower(s: Seq<char>) -> Seq<char> {
    s.map_values(|c: char| lower_char(c))
}

/// `str::trim_start`.
pub open spec fn trim_start(s: Seq<char>) -> Seq<char>
    decreases s.len(),
{
    if s.len() > 0 && is_ws(s[0]) {
        trim_start(s.drop_first())
    } else {
        s
    }
}

/// `str::trim_end`.
pub open spec fn trim_end(s: Seq<char>) -> Seq<char>
    decreases s.len(),
{
    if s.len() > 0 && is_ws(s.last()) {
        trim_end(s.drop_last())
    } else {
        s
    }
}

/// `str::trim`.
pub open spec fn trim(s: Seq<char>) -> Seq<char> {
    trim_end(trim_start(s))
}

/// `str::starts_with`.
pub open spec fn starts_with(s: Seq<char>, p: Seq<char>) -> bool {
    p.len() <= s.len() && s.take(p.len() as int) == p
}

/// `str::ends_with`.
pub open spec fn ends_with(s: Seq<char>, p: Seq<char>) -> bool {
    p.len() <= s.len() && s.skip(s.len() - p.len()) == p
}

/// Does `p` occur in `s` at position `i`?
pub open spec fn occurs_at(s: Seq<char>, p: Seq<char>, i: int) -> bool {
    0 <= i && i + p.len() <= s.len() && s.subrange(i, i + p.len()) == p
}

/// Position of the first occurrence of the non-empty `p` in `s` at or
/// after `i` (`str::find` on `s[i..]`, shifted by `i`).
pub open spec fn find_from(s: Seq<char>, p: Seq<char>, i: int) -> Option<int>
    decreases s.len() - i,
{
    if i < 0 || p.len() == 0 || i + p.len() > s.len() {
        None
    } else if s.subrange(i, i + p.len()) == p {
        Some(i)
    } else {
        find_from(s, p, i + 1)
    }
}

/// `str::contains` for a non-empty pattern.
pub open spec fn contains(s: Seq<char>, p: Seq<char>) -> bool {
    find_from(s, p, 0) is Some
}

/// `str::replace(p, r)` for a non-empty pattern: leftmost, non-overlapping.
pub open spec fn replace_all(s: Seq<char>, p: Seq<char>, r: Seq<char>) -> Seq<char>
    decreases s.len(),
{
    if s.len() == 0 || p.len() == 0 {
        s
    } else if starts_with(s, p) {
        r + replace_all(s.skip(p.len() as int), p, r)
    } else {
        seq![s[0]] + replace_all(s.drop_first(), p, r)
    }
}

/// Strip one trailing carriage return (how `str::lines` ends a line).
pub open spec fn strip_cr(s: Seq<char>) -> Seq<char> {
    if s.len() > 0 && s.last() == '\r' {
        s.drop_last()
    } else {
        s
    }
}

/// `str::lines` on `s`, where `cur` is the part of the current line already
/// consumed.
pub open spec fn lines_acc(s: Seq<char>, cur: Seq<char>) -> Seq<Seq<char>>
    decreases s.len(),
{
    if s.len() == 0 {
        if cur.len() == 0 {
            seq![]
        } else {
            seq![cur]
        }
    } else if s[0] == '\n' {
        seq![strip_cr(cur)] + lines_acc(s.drop_first(), seq![])
    } else {
        lines_acc(s.drop_first(), cur.push(s[0]))
    }
}

/// `str::lines`.
pub open spec fn lines(s: Seq<char>) -> Seq<Seq<char>> {
    lines_acc(s, seq![])
}

/// The character sequences held by a sequence of vectors.
pub open spec fn views(v: Seq<Vec<char>>) -> Seq<Seq<char>> {
    v.map_values(|x: Vec<char>| x@)
}

/// `slice::join(sep)` on a sequence of strings.
pub open spec fn join(parts: Seq<Seq<char>>, sep: Seq<char>) -> Seq<char>
    decreases parts.len(),
{
    if parts.len() == 0 {
        seq![]
    } else if parts.len() == 1 {
        parts[0]
    } else {
        join(parts.drop_last(), sep) + sep + parts.last()
    }
}

/// The text between the first and the second occurrence of the non-empty
/// `p` (or the end): `s.split(p).nth(1)`.
pub open spec fn split_second(s: Seq<char>, p: Seq<char>) -> Option<Seq<char>> {
    match find_from(s, p, 0) {
        None => None,
        Some(i) => {
            let rest = s.skip(i + p.len());
            match find_from(rest, p, 0) {
                None => Some(rest),
                Some(j) => Some(rest.take(j)),
            }
        },
    }
}

/// The text before the first occurrence of `p`, or all of `s`:
/// `s.split(p).next().unwrap()`.
pub open spec fn split_first(s: Seq<char>, p: Seq<char>) -> Seq<char> {
    match find_from(s, p, 0) {
        None => s,
        Some(i) => s.take(i),
    }
}

/// `s.strip_prefix(p)`.
pub open spec fn strip_prefix(s: Seq<char>, p: Seq<char>) -> Option<Seq<char>> {
    if starts_with(s, p) {
        Some(s.skip(p.len() as int))
    } else {
        None
    }
}

/// Index of the first whitespace character, or the length.
pub open spec fn first_ws(s: Seq<char>, i: int) -> int
    decreases s.len() - i,
{
    if i < 0 || i >= s.len() {
        s.len() as int
    } else if is_ws(s[i]) {
        i
    } else {
        first_ws(s, i + 1)
    }
}

/// `s.split_whitespace().next().unwrap_or(s)`.
pub open spec fn first_token(s: Seq<char>) -> Seq<char> {
    let t = trim_start(s);
    if t.len() == 0 {
        s
    } else {
        t.take(first_ws(t, 0))
    }
}

/// The part of a file name before its last `.` (the whole name when it has
/// none): `name.rsplitn(2, '.').last().unwrap()`.
pub open spec fn stem_from(s: Seq<char>, i: int) -> Seq<char>
    decreases i,
{
    if i <= 0 || i > s.len() {
        s
    } else if s[i - 1] == '.' {
        s.take(i - 1)
    } else {
        stem_from(s, i - 1)
    }
}

pub open spec fn stem(s: Seq<char>) -> Seq<char> {
    stem_from(s, s.len() as int)
}

// ───────────────────────── executable helpers ─────────────────────────

/// The characters of a string slice.
pub fn chars_of(s: &str) -> (v: Vec<char>)
    ensures
        v@ == s@,
{
    let mut v: Vec<char> = Vec::new();
    for c in it: s.chars()
        invariant
            v@ == it.seq().take(it.index() as int),
            it.seq() == s@,
    {
        v.push(c);
    }
    v
}

/// Appends `c` to `s` (`String::push`).
#[verifier::external_body]
fn string_push(s: &mut String, c: char)
    ensures
        final(s)@ == old(s)@.push(c),
{
    s.push(c);
}

/// A `String` holding exactly the given characters.
pub fn string_of(v: &[char]) -> (s: String)
    ensures
        s@ == v@,
{
    let mut s = String::new();
    let mut i: usize = 0;
    while i < v.len()
        invariant
            i <= v@.len(),
            s@ == v@.take(i as int),
        decreases v.len() - i,
    {
        string_push(&mut s, v[i]);
        i += 1;
        assert(s@ =~= v@.take(i as int));
    }
    assert(v@.take(v@.len() as int) =~= v@);
    s
}

/// Appends all of `src` to `dst`.
pub fn push_all(dst: &mut Vec<char>, src: &[char])
    ensures
        final(dst)@ == old(dst)@ + src@,
{
    let mut i: usize = 0;
    while i < src.len()
        invariant
            i <= src@.len(),
            dst@ == old(dst)@ + src@.take(i as int),
        decreases src.len() - i,
    {
        dst.push(src[i]);
        i += 1;
        assert(dst@ =~= old(dst)@ + src@.take(i as int));
    }
    assert(src@.take(src@.len() as int) =~= src@);
}

/// A copy of `s[from..to]`.
pub fn slice_of(s: &[char], from: usize, to: usize) -> (r: Vec<char>)
    requires
        from <= to <= s@.len(),
    ensures
        r@ == s@.subrange(from as int, to as int),
{
    let mut r: Vec<char> = Vec::new();
    let mut i = from;
    while i < to
        invariant
            from <= i <= to <= s@.len(),
            r@ == s@.subrange(from as int, i as int),
        decreases to - i,
    {
        r.push(s[i]);
        i += 1;
        assert(r@ =~= s@.subrange(from as int, i as int));
    }
    r
}

/// A copy of `s`.
pub fn copy_chars(s: &[char]) -> (r: Vec<char>)
    ensures
        r@ == s@,
{
    let r = slice_of(s, 0, s.len());
    assert(r@ =~= s@);
    r
}

/// Equality of two character sequences.
pub fn eq_chars(a: &[char], b: &[char]) -> (r: bool)
    ensures
        r == (a@ == b@),
{
    if a.len() != b.len() {
        return false;
    }
    let r = starts_with_exec(a, b);
    proof {
        if r {
            assert(a@ =~= a@.take(b@.len() as int));
        } else if a@ == b@ {
            assert(a@.take(b@.len() as int) =~= a@);
        }
    }
    r
}

/// `str::to_ascii_lowercase`.
pub fn lower_exec(s: &[char]) -> (r: Vec<char>)
    ensures
        r@ == lower(s@),
{
    let mut r: Vec<char> = Vec::new();
    let mut i: usize = 0;
    while i < s.len()
        invariant
            i <= s@.len(),
            r@ == lower(s@.take(i as int)),
        decreases s.len() - i,
    {
        let c = lower_char_exec(s[i]);
        r.push(c);
        i += 1;
        assert(r@ =~= lower(s@.take(i as int)));
    }
    assert(s@.take(s@.len() as int) =~= s@);
    r
}

proof fn lemma_trim_start_skip(s: Seq<char>, i: int)
    requires
        0 <= i < s.len(),
        is_ws(s[i]),
    ensures
        trim_start(s.skip(i)) == trim_start(s.skip(i + 1)),
{
    assert(s.skip(i).drop_first() =~= s.skip(i + 1));
}

proof fn lemma_trim_end_take(s: Seq<char>, j: int)
    requires
        0 < j <= s.len(),
        is_ws(s[j - 1]),
    ensures
        trim_end(s.take(j)) == trim_end(s.take(j - 1)),
{
    assert(s.take(j).drop_last() =~= s.take(j - 1));
}

/// Start and end of `trim(s)` inside `s`.
pub fn trim_bounds(s: &[char]) -> (r: (usize, usize))
    ensures
        r.0 <= r.1 <= s@.len(),
        s@.subrange(r.0 as int, r.1 as int) == trim(s@),
{
    let mut i: usize = 0;
    assert(s@.skip(0) =~= s@);
    while i < s.len() && is_ws_exec(s[i])
        invariant
            i <= s@.len(),
            trim_start(s@) == trim_start(s@.skip(i as int)),
        decreases s.len() - i,
    {
        proof {
            lemma_trim_start_skip(s@, i as int);
        }
        i += 1;
    }
    let ghost t = s@.skip(i as int);
    assert(trim_start(s@) == t);
    let mut j: usize = s.len();
    assert(t.take(t.len() as int) =~= t);
    while j > i && is_ws_exec(s[j - 1])
        invariant
            i <= j <= s@.len(),
            t == s@.skip(i as int),
            trim_end(t) == trim_end(t.take(j - i)),
        decreases j,
    {
        proof {
            lemma_trim_end_take(t, (j - i) as int);
        }
        j -= 1;
    }
    assert(t.take(j - i) =~= s@.subrange(i as int, j as int));
    (i, j)
}

/// `str::trim`.
pub fn trim_exec(s: &[char]) -> (r: Vec<char>)
    ensures
        r@ == trim(s@),
{
    let (a, b) = trim_bounds(s);
    slice_of(s, a, b)
}

/// `str::trim_end`.
pub fn trim_end_exec(s: &[char]) -> (r: Vec<char>)
    ensures
        r@ == trim_end(s@),
{
    let mut j: usize = s.len();
    assert(s@.take(s@.len() as int) =~= s@);
    while j > 0 && is_ws_exec(s[j - 1])
        invariant
            j <= s@.len(),
            trim_end(s@) == trim_end(s@.take(j as int)),
        decreases j,
    {
        proof {
            lemma_trim_end_take(s@, j as int);
        }
        j -= 1;
    }
    let r = slice_of(s, 0, j);
    assert(r@ =~= s@.take(j as int));
    r
}

/// `str::trim_start`.
pub fn trim_start_exec(s: &[char]) -> (r: Vec<char>)
    ensures
        r@ == trim_start(s@),
{
    let mut i: usize = 0;
    assert(s@.skip(0) =~= s@);
    while i < s.len() && is_ws_exec(s[i])
        invariant
            i <= s@.len(),
            trim_start(s@) == trim_start(s@.skip(i as int)),
        decreases s.len() - i,
    {
        proof {
            lemma_trim_start_skip(s@, i as int);
        }
        i += 1;
    }
    assert(s@.subrange(i as int, s@.len() as int) =~= s@.skip(i as int));
    slice_of(s, i, s.len())
}

/// Does `p` occur in `s` at position `i`?
pub fn occurs_at_exec(s: &[char], p: &[char], i: usize) -> (r: bool)
    ensures
        r == occurs_at(s@, p@, i as int),
{
    if i > s.len() || p.len() > s.len() - i {
        return false;
    }
    let mut k: usize = 0;
    while k < p.len()
        invariant
            i + p@.len() <= s@.len(),
            s@.len() <= usize::MAX,
            k <= p@.len(),
            forall|m: int| 0 <= m < k ==> s@[i + m] == p@[m],
        decreases p.len() - k,
    {
        if s[i + k] != p[k] {
            assert(s@.subrange(i as int, i + p@.len())[k as int] != p@[k as int]);
            return false;
        }
        k += 1;
    }
    assert(s@.subrange(i as int, i + p@.len()) =~= p@);
    true
}

/// `str::starts_with`.
pub fn starts_with_exec(s: &[char], p: &[char]) -> (r: bool)
    ensures
        r == starts_with(s@, p@),
{
    let r = occurs_at_exec(s, p, 0);
    proof {
        if p@.len() <= s@.len() {
            assert(s@.subrange(0, p@.len() as int) =~= s@.take(p@.len() as int));
        }
    }
    r
}

/// `str::ends_with`.
pub fn ends_with_exec(s: &[char], p: &[char]) -> (r: bool)
    ensures
        r == ends_with(s@, p@),
{
    if p.len() > s.len() {
        return false;
    }
    let r = occurs_at_exec(s, p, s.len() - p.len());
    assert(s@.subrange(s@.len() - p@.len(), s@.len() as int) =~= s@.skip(
        s@.len() - p@.len(),
    ));
    r
}

/// `str::find` on `s[from..]`, reported as a position in `s`.
pub fn find_from_exec(s: &[char], p: &[char], from: usize) -> (r: Option<usize>)
    ensures
        match r {
            Some(i) => find_from(s@, p@, from as int) == Some(i as int),
            None => find_from(s@, p@, from as int) is None,
        },
{
    if p.len() == 0 {
        return None;
    }
    let mut i = from;
    while i <= s.len() && p.len() <= s.len() - i
        invariant
            from <= i,
            p@.len() > 0,
            find_from(s@, p@, from as int) == find_from(s@, p@, i as int),
        decreases s.len() - i,
    {
        if occurs_at_exec(s, p, i) {
            return Some(i);
        }
        i += 1;
    }
    None
}

/// `str::contains`.
pub fn contains_exec(s: &[char], p: &[char]) -> (r: bool)
    ensures
        r == contains(s@, p@),
{
    find_from_exec(s, p, 0).is_some()
}

/// `str::contains` with a string-literal pattern.
pub fn contains_str(s: &[char], p: &str) -> (r: bool)
    ensures
        r == contains(s@, p@),
{
    let pv = chars_of(p);
    contains_exec(s, &pv)
}

/// `str::starts_with` with a string-literal pattern.
pub fn starts_with_str(s: &[char], p: &str) -> (r: bool)
    ensures
        r == starts_with(s@, p@),
{
    let pv = chars_of(p);
    starts_with_exec(s, &pv)
}

/// `str::ends_with` with a string-literal pattern.
pub fn ends_with_str(s: &[char], p: &str) -> (r: bool)
    ensures
        r == ends_with(s@, p@),
{
    let pv = chars_of(p);
    ends_with_exec(s, &pv)
}

/// Equality with a string literal.
pub fn eq_str(s: &[char], p: &str) -> (r: bool)
    ensures
        r == (s@ == p@),
{
    let pv = chars_of(p);
    if s.len() != pv.len() {
        return false;
    }
    let r = starts_with_exec(s, &pv);
    proof {
        if r {
            assert(s@ =~= s@.take(pv@.len() as int));
        } else {
            if s@ == pv@ {
                assert(s@.take(pv@.len() as int) =~= s@);
            }
        }
    }
    r
}

proof fn lemma_replace_step_match(s: Seq<char>, p: Seq<char>, r: Seq<char>, i: int)
    requires
        0 <= i < s.len(),
        p.len() > 0,
        starts_with(s.skip(i), p),
    ensures
        replace_all(s.skip(i), p, r) == r + replace_all(s.skip(i + p.len()), p, r),
{
    assert(s.skip(i).skip(p.len() as int) =~= s.skip(i + p.len()));
}

proof fn lemma_replace_step_other(s: Seq<char>, p: Seq<char>, r: Seq<char>, i: int)
    requires
        0 <= i < s.len(),
        p.len() > 0,
        !starts_with(s.skip(i), p),
    ensures
        replace_all(s.skip(i), p, r) == seq![s[i]] + replace_all(s.skip(i + 1), p, r),
{
    assert(s.skip(i).drop_first() =~= s.skip(i + 1));
}

/// `str::replace(p, r)`.
pub fn replace_exec(s: &[char], p: &[char], r: &[char]) -> (out: Vec<char>)
    requires
        p@.len() > 0,
    ensures
        out@ == replace_all(s@, p@, r@),
{
    let mut out: Vec<char> = Vec::new();
    let mut i: usize = 0;
    assert(s@.skip(0) =~= s@);
    while i < s.len()
        invariant
            i <= s@.len(),
            p@.len() > 0,
            replace_all(s@, p@, r@) == out@ + replace_all(s@.skip(i as int), p@, r@),
        decreases s.len() - i,
    {
        let m = occurs_at_exec(s, p, i);
        proof {
            if m {
                assert(s@.skip(i as int).take(p@.len() as int) =~= s@.subrange(
                    i as int,
                    i + p@.len(),
                ));
            } else if starts_with(s@.skip(i as int), p@) {
                assert(s@.skip(i as int).take(p@.len() as int) =~= s@.subrange(
                    i as int,
                    i + p@.len(),
                ));
            }
        }
        if m {
            proof {
                lemma_replace_step_match(s@, p@, r@, i as int);
            }
            let ghost before = out@;
            push_all(&mut out, r);
            assert(out@ + replace_all(s@.skip(i + p@.len()), p@, r@) =~= before + (r@
                + replace_all(s@.skip(i + p@.len()), p@, r@)));
            i += p.len();
        } else {
            proof {
                lemma_replace_step_other(s@, p@, r@, i as int);
            }
            let ghost before = out@;
            out.push(s[i]);
            assert(out@ + replace_all(s@.skip(i + 1), p@, r@) =~= before + (seq![s@[i as int]]
                + replace_all(s@.skip(i + 1), p@, r@)));
            i += 1;
        }
    }
    assert(out@ + replace_all(s@.skip(i as int), p@, r@) =~= out@);
    out
}

/// `str::replace` with string-literal pattern and replacement.
pub fn replace_str(s: &[char], p: &str, r: &str) -> (out: Vec<char>)
    requires
        p@.len() > 0,
    ensures
        out@ == replace_all(s@, p@, r@),
{
    let pv = chars_of(p);
    let rv = chars_of(r);
    replace_exec(s, &pv, &rv)
}

proof fn lemma_lines_step(s: Seq<char>, i: int, cur: Seq<char>)
    requires
        0 <= i < s.len(),
    ensures
        s[i] == '\n' ==> lines_acc(s.skip(i), cur) == seq![strip_cr(cur)] + lines_acc(
            s.skip(i + 1),
            seq![],
        ),
        s[i] != '\n' ==> lines_acc(s.skip(i), cur) == lines_acc(s.skip(i + 1), cur.push(s[i])),
{
    assert(s.skip(i).drop_first() =~= s.skip(i + 1));
}

/// `str::lines`.
pub fn lines_exec(s: &[char]) -> (out: Vec<Vec<char>>)
    ensures
        views(out@) == lines(s@),
{
    let mut out: Vec<Vec<char>> = Vec::new();
    let mut cur: Vec<char> = Vec::new();
    let mut i: usize = 0;
    assert(s@.skip(0) =~= s@);
    while i < s.len()
        invariant
            i <= s@.len(),
            lines(s@) == views(out@) + lines_acc(s@.skip(i as int), cur@),
        decreases s.len() - i,
    {
        proof {
            lemma_lines_step(s@, i as int, cur@);
        }
        if s[i] == '\n' {
            let mut line = cur;
            if line.len() > 0 && line[line.len() - 1] == '\r' {
                line.pop();
            }
            assert(line@ =~= strip_cr(cur@));
            let ghost before = out@;
            out.push(line);
            assert(views(out@) =~= views(before).push(strip_cr(cur@)));
            cur = Vec::new();
            assert(cur@ =~= Seq::<char>::empty());
        } else {
            cur.push(s[i]);
        }
        i += 1;
    }
    let ghost before = out@;
    if cur.len() > 0 {
        out.push(cur);
        assert(views(out@) =~= views(before) + seq![cur@]);
    } else {
        assert(views(out@) =~= views(before) + Seq::<Seq<char>>::empty());
    }
    out
}

/// `slice::join` of lines with `sep`.
pub fn join_exec(parts: &Vec<Vec<char>>, sep: &[char]) -> (out: Vec<char>)
    ensures
        out@ == join(views(parts@), sep@),
{
    let mut out: Vec<char> = Vec::new();
    let mut i: usize = 0;
    while i < parts.len()
        invariant
            i <= parts@.len(),
            out@ == join(views(parts@).take(i as int), sep@),
        decreases parts.len() - i,
    {
        let ghost pv = views(parts@);
        if i > 0 {
            push_all(&mut out, sep);
        }
        push_all(&mut out, &parts[i]);
        i += 1;
        proof {
            let t = pv.take(i as int);
            assert(t.drop_last() =~= pv.take(i - 1));
            if i == 1 {
                assert(t.len() == 1);
                assert(out@ =~= t[0]);
            }
        }
    }
    assert(views(parts@).take(parts@.len() as int) =~= views(parts@));
    out
}

/// `s.split(p).nth(1)`, as a copy.
pub fn split_second_exec(s: &[char], p: &[char]) -> (r: Option<Vec<char>>)
    requires
        p@.len() > 0,
    ensures
        match r {
            Some(v) => split_second(s@, p@) == Some(v@),
            None => split_second(s@, p@) is None,
        },
{
    let slen = s.len();
    match find_from_exec(s, p, 0) {
        None => None,
        Some(i) => {
            proof {
                lemma_find_from_bounds(s@, p@, 0);
            }
            let rest = slice_of(s, i + p.len(), s.len());
            assert(rest@ =~= s@.skip(i + p@.len()));
            match find_from_exec(&rest, p, 0) {
                None => Some(rest),
                Some(j) => {
                    proof {
                        lemma_find_from_bounds(rest@, p@, 0);
                    }
                    let t = slice_of(&rest, 0, j);
                    assert(t@ =~= rest@.take(j as int));
                    Some(t)
                },
            }
        },
    }
}

/// `s.split(p).next().unwrap()`, as a copy.
pub fn split_first_exec(s: &[char], p: &[char]) -> (r: Vec<char>)
    requires
        p@.len() > 0,
    ensures
        r@ == split_first(s@, p@),
{
    match find_from_exec(s, p, 0) {
        None => slice_of(s, 0, s.len()),
        Some(i) => {
            proof {
                lemma_find_from_bounds(s@, p@, 0);
            }
            let t = slice_of(s, 0, i);
            assert(t@ =~= s@.take(i as int));
            t
        },
    }
}

/// A found position lies inside the text and the pattern occurs there.
pub proof fn lemma_find_from_bounds(s: Seq<char>, p: Seq<char>, i: int)
    ensures
        find_from(s, p, i) matches Some(k) ==> i <= k && k + p.len() <= s.len() && occurs_at(
            s,
            p,
            k,
        ),
    decreases s.len() - i,
{
    if i < 0 || p.len() == 0 || i + p.len() > s.len() {
    } else if s.subrange(i, i + p.len()) == p {
    } else {
        lemma_find_from_bounds(s, p, i + 1);
    }
}

/// `s.strip_prefix(p)` with a literal pattern, as a copy.
pub fn strip_prefix_str(s: &[char], p: &str) -> (r: Option<Vec<char>>)
    ensures
        match r {
            Some(v) => strip_prefix(s@, p@) == Some(v@),
            None => strip_prefix(s@, p@) is None,
        },
{
    let pv = chars_of(p);
    if starts_with_exec(s, &pv) {
        let v = slice_of(s, pv.len(), s.len());
        assert(v@ =~= s@.skip(pv@.len() as int));
        Some(v)
    } else {
        None
    }
}

/// `s.split_whitespace().next().unwrap_or(s)`.
pub fn first_token_exec(s: &[char]) -> (r: Vec<char>)
    ensures
        r@ == first_token(s@),
{
    let t = trim_start_exec(s);
    if t.len() == 0 {
        return slice_of(s, 0, s.len());
    }
    let mut k: usize = 0;
    while k < t.len() && !is_ws_exec(t[k])
        invariant
            k <= t@.len(),
            first_ws(t@, 0) == first_ws(t@, k as int),
        decreases t.len() - k,
    {
        k += 1;
    }
    let r = slice_of(&t, 0, k);
    assert(r@ =~= t@.take(k as int));
    r
}

/// File-name stem: everything before the last `.`.
pub fn stem_exec(s: &[char]) -> (r: Vec<char>)
    ensures
        r@ == stem(s@),
{
    let mut i: usize = s.len();
    while i > 0 && s[i - 1] != '.'
        invariant
            i <= s@.len(),
            stem(s@) == stem_from(s@, i as int),
        decreases i,
    {
        i -= 1;
    }
    if i == 0 {
        slice_of(s, 0, s.len())
    } else {
        let r = slice_of(s, 0, i - 1);
        assert(r@ =~= s@.take(i - 1));
        r
    }
}

/// Replacing a pattern in a text that lacks the pattern's last character
/// changes nothing.
pub proof fn lemma_replace_absent(s: Seq<char>, p: Seq<char>, r: Seq<char>)
    requires
        p.len() > 0,
        !s.contains(p[p.len() - 1]),
    ensures
        replace_all(s, p, r) == s,
    decreases s.len(),
{
    if s.len() > 0 {
        assert(!starts_with(s, p)) by {
            if starts_with(s, p) {
                assert(s.take(p.len() as int)[p.len() - 1] == s[p.len() - 1]);
                assert(s.contains(p[p.len() - 1]));
            }
        }
        assert forall|k: int| 0 <= k < s.drop_first().len() implies s.drop_first()[k] != p[p.len()
            - 1] by {
            assert(s.drop_first()[k] == s[k + 1]);
        }
        lemma_replace_absent(s.drop_first(), p, r);
        assert(seq![s[0]] + s.drop_first() =~= s);
    }
}

/// After replacing a one-character pattern by a text that does not hold
/// that character, the result holds it nowhere.
pub proof fn lemma_replace_clears(s: Seq<char>, p: Seq<char>, r: Seq<char>)
    requires
        p.len() == 1,
        !r.contains(p[0]),
    ensures
        !replace_all(s, p, r).contains(p[0]),
    decreases s.len(),
{
    if s.len() > 0 {
        if starts_with(s, p) {
            lemma_replace_clears(s.skip(1), p, r);
            let t = replace_all(s.skip(1), p, r);
            assert forall|k: int| 0 <= k < (r + t).len() implies (r + t)[k] != p[0] by {
                if k < r.len() {
                    assert(r[k] != p[0]);
                } else {
                    assert((r + t)[k] == t[k - r.len()]);
                }
            }
        } else {
            lemma_replace_clears(s.drop_first(), p, r);
            let t = replace_all(s.drop_first(), p, r);
            assert(s[0] != p[0]) by {
                if s[0] == p[0] {
                    assert(s.take(1) =~= p);
                }
            }
            assert forall|k: int| 0 <= k < (seq![s[0]] + t).len() implies (seq![s[0]] + t)[k]
                != p[0] by {
                if k > 0 {
                    assert((seq![s[0]] + t)[k] == t[k - 1]);
                }
            }
        }
    }
}

/// No character of `s` is `c`.
pub open spec fn lacks(s: Seq<char>, c: char) -> bool {
    forall|i: int| 0 <= i < s.len() ==> s[i] != c
}

/// `lacks` is `!contains`.
pub proof fn lemma_lacks_contains(s: Seq<char>, c: char)
    ensures
        lacks(s, c) <==> !s.contains(c),
{
    if !lacks(s, c) {
        let i = choose|i: int| 0 <= i < s.len() && s[i] == c;
        assert(s.contains(c));
    }
}

/// A piece of a text lacking `c` lacks it too.
pub proof fn lemma_lacks_subrange(s: Seq<char>, c: char, i: int, j: int)
    requires
        lacks(s, c),
        0 <= i <= j <= s.len(),
    ensures
        lacks(s.subrange(i, j), c),
{
    assert forall|k: int| 0 <= k < j - i implies s.subrange(i, j)[k] != c by {
        assert(s.subrange(i, j)[k] == s[i + k]);
    }
}

/// Two texts lacking `c` joined lack it.
pub proof fn lemma_lacks_concat(a: Seq<char>, b: Seq<char>, c: char)
    requires
        lacks(a, c),
        lacks(b, c),
    ensures
        lacks(a + b, c),
{
    assert forall|k: int| 0 <= k < (a + b).len() implies (a + b)[k] != c by {
        if k >= a.len() {
            assert((a + b)[k] == b[k - a.len()]);
        }
    }
}

pub proof fn lemma_trim_lacks(s: Seq<char>, c: char)
    requires
        lacks(s, c),
    ensures
        lacks(trim_start(s), c),
        lacks(trim_end(s), c),
        lacks(trim(s), c),
    decreases s.len(),
{
    if s.len() > 0 {
        lemma_lacks_subrange(s, c, 1, s.len() as int);
        lemma_lacks_subrange(s, c, 0, s.len() - 1);
        assert(s.drop_first() =~= s.subrange(1, s.len() as int));
        assert(s.drop_last() =~= s.subrange(0, s.len() - 1));
        lemma_trim_lacks(s.drop_first(), c);
        lemma_trim_lacks(s.drop_last(), c);
    }
    lemma_trim_end_lacks(trim_start(s), c);
}

proof fn lemma_trim_end_lacks(s: Seq<char>, c: char)
    requires
        lacks(s, c),
    ensures
        lacks(trim_end(s), c),
    decreases s.len(),
{
    if s.len() > 0 {
        lemma_lacks_subrange(s, c, 0, s.len() - 1);
        assert(s.drop_last() =~= s.subrange(0, s.len() - 1));
        lemma_trim_end_lacks(s.drop_last(), c);
    }
}

/// Every line of a text lacking `c` lacks it.
pub proof fn lemma_lines_lack(s: Seq<char>, cur: Seq<char>, c: char)
    requires
        lacks(s, c),
        lacks(cur, c),
    ensures
        forall|i: int| 0 <= i < lines_acc(s, cur).len() ==> lacks(#[trigger] lines_acc(s, cur)[i], c),
    decreases s.len(),
{
    if s.len() == 0 {
        if cur.len() > 0 {
            assert(lines_acc(s, cur) == seq![cur]);
            assert(lines_acc(s, cur)[0] == cur);
        }
    } else {
        lemma_lacks_subrange(s, c, 1, s.len() as int);
        assert(s.drop_first() =~= s.subrange(1, s.len() as int));
        if s[0] == '\n' {
            lemma_lines_lack(s.drop_first(), seq![], c);
            let first = strip_cr(cur);
            assert(lacks(first, c)) by {
                if cur.len() > 0 && cur.last() == '\r' {
                    lemma_lacks_subrange(cur, c, 0, cur.len() - 1);
                    assert(cur.drop_last() =~= cur.subrange(0, cur.len() - 1));
                }
            }
            let rest = lines_acc(s.drop_first(), seq![]);
            assert(lines_acc(s, cur) == seq![first] + rest);
            assert forall|i: int| 0 <= i < (seq![first] + rest).len() implies lacks(
                #[trigger] (seq![first] + rest)[i],
                c,
            ) by {
                if i > 0 {
                    assert((seq![first] + rest)[i] == rest[i - 1]);
                }
            }
        } else {
            lemma_lacks_concat(cur, seq![s[0]], c);
            assert(cur.push(s[0]) =~= cur + seq![s[0]]);
            lemma_lines_lack(s.drop_first(), cur.push(s[0]), c);
            assert(lines_acc(s, cur) == lines_acc(s.drop_first(), cur.push(s[0])));
        }
    }
}

/// Pieces lacking `c`, joined by a separator lacking it, lack it.
pub proof fn lemma_join_lacks(parts: Seq<Seq<char>>, sep: Seq<char>, c: char)
    requires
        forall|i: int| 0 <= i < parts.len() ==> lacks(#[trigger] parts[i], c),
        lacks(sep, c),
    ensures
        lacks(join(parts, sep), c),
    decreases parts.len(),
{
    if parts.len() > 1 {
        let init = parts.drop_last();
        assert forall|i: int| 0 <= i < init.len() implies lacks(#[trigger] init[i], c) by {
            assert(init[i] == parts[i]);
        }
        lemma_join_lacks(init, sep, c);
        assert(lacks(parts.last(), c));
        lemma_lacks_concat(join(init, sep), sep, c);
        lemma_lacks_concat(join(init, sep) + sep, parts.last(), c);
    } else if parts.len() == 1 {
        assert(lacks(parts[0], c));
    }
}

/// Reading lines across a line break: the text up to the break ends the
/// current line.
pub proof fn lemma_lines_acc_break(a: Seq<char>, rest: Seq<char>, cur: Seq<char>)
    requires
        lacks(a, '\n'),
    ensures
        lines_acc(a + seq!['\n'] + rest, cur) == seq![strip_cr(cur + a)] + lines_acc(rest, seq![]),
    decreases a.len(),
{
    let s = a + seq!['\n'] + rest;
    if a.len() == 0 {
        assert(s.drop_first() =~= rest);
        assert(cur + a =~= cur);
    } else {
        assert(s[0] == a[0]);
        assert(s.drop_first() =~= a.drop_first() + seq!['\n'] + rest);
        assert(lacks(a.drop_first(), '\n')) by {
            assert forall|k: int| 0 <= k < a.drop_first().len() implies a.drop_first()[k] != '\n' by {
                assert(a.drop_first()[k] == a[k + 1]);
            }
        }
        lemma_lines_acc_break(a.drop_first(), rest, cur.push(a[0]));
        assert(cur.push(a[0]) + a.drop_first() =~= cur + a);
    }
}

/// Joining two or more parts: the first part, the separator, the rest joined.
pub proof fn lemma_join_first(parts: Seq<Seq<char>>, sep: Seq<char>)
    requires
        parts.len() >= 2,
    ensures
        join(parts, sep) == parts[0] + sep + join(parts.drop_first(), sep),
    decreases parts.len(),
{
    if parts.len() == 2 {
        assert(join(parts.drop_last(), sep) == parts.drop_last()[0]);
        assert(parts.drop_last()[0] == parts[0]);
        assert(join(parts.drop_first(), sep) == parts.drop_first()[0]);
        assert(parts.drop_first()[0] == parts[1]);
        assert(join(parts, sep) == join(parts.drop_last(), sep) + sep + parts.last());
    } else {
        let init = parts.drop_last();
        let tl = parts.drop_first();
        lemma_join_first(init, sep);
        assert(init.drop_first() =~= tl.drop_last());
        assert(tl.last() == parts.last());
        assert(init[0] == parts[0]);
        assert(join(tl, sep) == join(tl.drop_last(), sep) + sep + tl.last());
        assert(join(parts, sep) == join(init, sep) + sep + parts.last());
        assert(join(parts, sep) =~= parts[0] + sep + join(tl, sep));
    }
}

/// No line of a text holds a line break.
pub proof fn lemma_lines_no_break(s: Seq<char>, cur: Seq<char>)
    requires
        lacks(cur, '\n'),
    ensures
        forall|i: int| 0 <= i < lines_acc(s, cur).len() ==> lacks(#[trigger] lines_acc(s, cur)[i], '\n'),
    decreases s.len(),
{
    if s.len() == 0 {
        if cur.len() > 0 {
            assert(lines_acc(s, cur) == seq![cur]);
            assert(lines_acc(s, cur)[0] == cur);
        }
    } else if s[0] == '\n' {
        lemma_lines_no_break(s.drop_first(), seq![]);
        let first = strip_cr(cur);
        assert(lacks(first, '\n')) by {
            if cur.len() > 0 && cur.last() == '\r' {
                lemma_lacks_subrange(cur, '\n', 0, cur.len() - 1);
                assert(cur.drop_last() =~= cur.subrange(0, cur.len() - 1));
            }
        }
        let rest = lines_acc(s.drop_first(), seq![]);
        assert(lines_acc(s, cur) == seq![first] + rest);
        assert forall|i: int| 0 <= i < (seq![first] + rest).len() implies lacks(
            #[trigger] (seq![first] + rest)[i],
            '\n',
        ) by {
            if i > 0 {
                assert((seq![first] + rest)[i] == rest[i - 1]);
            }
        }
    } else {
        lemma_lacks_concat(cur, seq![s[0]], '\n');
        assert(cur.push(s[0]) =~= cur + seq![s[0]]);
        lemma_lines_no_break(s.drop_first(), cur.push(s[0]));
        assert(lines_acc(s, cur) == lines_acc(s.drop_first(), cur.push(s[0])));
    }
}

/// A non-empty text (or a started line) has at least one line.
pub proof fn lemma_lines_nonempty(s: Seq<char>, cur: Seq<char>)
    requires
        s.len() > 0 || cur.len() > 0,
    ensures
        lines_acc(s, cur).len() > 0,
    decreases s.len(),
{
    if s.len() > 0 && s[0] != '\n' {
        lemma_lines_nonempty(s.drop_first(), cur.push(s[0]));
    }
}

/// `x` occurs somewhere in `y`.
pub open spec fn occurs_in(y: Seq<char>, x: Seq<char>) -> bool {
    exists|a: int| occurs_at(y, x, a)
}

/// An occurrence of a non-empty pattern is found.
pub proof fn lemma_occurs_found(s: Seq<char>, p: Seq<char>, j: int, i: int)
    requires
        0 <= j <= i,
        p.len() > 0,
        occurs_at(s, p, i),
    ensures
        find_from(s, p, j) is Some,
    decreases i - j,
{
    if s.subrange(j, j + p.len()) != p {
        lemma_occurs_found(s, p, j + 1, i);
    }
}

/// Occurrence is transitive.
pub proof fn lemma_occurs_trans(z: Seq<char>, y: Seq<char>, x: Seq<char>)
    requires
        occurs_in(z, y),
        occurs_in(y, x),
    ensures
        occurs_in(z, x),
{
    let b = choose|b: int| occurs_at(z, y, b);
    let a = choose|a: int| occurs_at(y, x, a);
    assert(z.subrange(a + b, a + b + x.len()) =~= y.subrange(a, a + x.len()));
    assert(occurs_at(z, x, a + b));
}

/// Lower-casing keeps an occurrence.
pub proof fn lemma_occurs_lower(y: Seq<char>, x: Seq<char>)
    requires
        occurs_in(y, x),
    ensures
        occurs_in(lower(y), lower(x)),
{
    let a = choose|a: int| occurs_at(y, x, a);
    assert(lower(y).subrange(a, a + x.len()) =~= lower(x));
    assert(occurs_at(lower(y), lower(x), a));
}

/// A trimmed text occurs in the text.
pub proof fn lemma_trim_occurs(s: Seq<char>)
    ensures
        occurs_in(s, trim(s)),
        occurs_in(s, trim_start(s)),
{
    lemma_trim_start_is_skip(s);
    let k = choose|k: int| 0 <= k <= s.len() && trim_start(s) == s.skip(k);
    let t = s.skip(k);
    lemma_trim_end_is_take(t);
    let m = choose|m: int| 0 <= m <= t.len() && trim_end(t) == t.take(m);
    assert(s.subrange(k, k + m) =~= t.take(m));
    assert(occurs_at(s, trim(s), k));
    assert(s.subrange(k, k + t.len()) =~= t);
    assert(occurs_at(s, trim_start(s), k));
}

proof fn lemma_trim_start_is_skip(s: Seq<char>)
    ensures
        exists|k: int| 0 <= k <= s.len() && trim_start(s) == s.skip(k),
    decreases s.len(),
{
    if s.len() > 0 && is_ws(s[0]) {
        lemma_trim_start_is_skip(s.drop_first());
        let k = choose|k: int|
            0 <= k <= s.drop_first().len() && trim_start(s.drop_first()) == s.drop_first().skip(k);
        assert(s.drop_first().skip(k) =~= s.skip(k + 1));
    } else {
        assert(s.skip(0) =~= s);
    }
}

proof fn lemma_trim_end_is_take(s: Seq<char>)
    ensures
        exists|m: int| 0 <= m <= s.len() && trim_end(s) == s.take(m),
    decreases s.len(),
{
    if s.len() > 0 && is_ws(s.last()) {
        lemma_trim_end_is_take(s.drop_last());
        let m = choose|m: int|
            0 <= m <= s.drop_last().len() && trim_end(s.drop_last()) == s.drop_last().take(m);
        assert(s.drop_last().take(m) =~= s.take(m));
    } else {
        assert(s.take(s.len() as int) =~= s);
    }
}

/// Every line of a text occurs in it (`cur` being the part of the current
/// line already read).
pub proof fn lemma_lines_occur(s: Seq<char>, cur: Seq<char>)
    ensures
        forall|i: int|
            0 <= i < lines_acc(s, cur).len() ==> occurs_in(cur + s, #[trigger] lines_acc(s, cur)[i]),
    decreases s.len(),
{
    if s.len() == 0 {
        if cur.len() > 0 {
            assert(lines_acc(s, cur) == seq![cur]);
            assert((cur + s).subrange(0, cur.len() as int) =~= cur);
            assert(occurs_at(cur + s, cur, 0));
        }
    } else if s[0] == '\n' {
        lemma_lines_occur(s.drop_first(), seq![]);
        let first = strip_cr(cur);
        let rest = lines_acc(s.drop_first(), seq![]);
        assert(lines_acc(s, cur) == seq![first] + rest);
        assert((cur + s).subrange(0, first.len() as int) =~= first);
        assert(occurs_at(cur + s, first, 0));
        assert forall|i: int| 0 <= i < (seq![first] + rest).len() implies occurs_in(
            cur + s,
            #[trigger] (seq![first] + rest)[i],
        ) by {
            if i > 0 {
                let x = rest[i - 1];
                assert((seq![first] + rest)[i] == x);
                assert(seq![] + s.drop_first() =~= s.drop_first());
                assert(occurs_in(s.drop_first(), x));
                let a = choose|a: int| occurs_at(s.drop_first(), x, a);
                let off = cur.len() + 1 + a;
                assert((cur + s).subrange(off, off + x.len()) =~= s.drop_first().subrange(
                    a,
                    a + x.len(),
                ));
                assert(occurs_at(cur + s, x, off));
            }
        }
    } else {
        lemma_lines_occur(s.drop_first(), cur.push(s[0]));
        assert(cur.push(s[0]) + s.drop_first() =~= cur + s);
        assert(lines_acc(s, cur) == lines_acc(s.drop_first(), cur.push(s[0])));
    }
}

/// The lines of parts joined by line breaks, with a final break, are the
/// parts with one trailing carriage return each taken off, when no part
/// holds a line break.
pub proof fn lemma_lines_of_join_stripped(parts: Seq<Seq<char>>)
    requires
        parts.len() >= 1,
        forall|i: int| 0 <= i < parts.len() ==> lacks(#[trigger] parts[i], '\n'),
    ensures
        lines(join(parts, "\n"@) + "\n"@) == parts.map_values(|p: Seq<char>| strip_cr(p)),
    decreases parts.len(),
{
    reveal_strlit("\n");
    assert("\n"@ =~= seq!['\n']);
    let p0 = parts[0];
    assert(lacks(p0, '\n'));
    assert(Seq::<char>::empty() + p0 =~= p0);
    if parts.len() == 1 {
        assert(join(parts, "\n"@) == p0);
        lemma_lines_acc_break(p0, seq![], seq![]);
        assert(p0 + seq!['\n'] + Seq::<char>::empty() =~= p0 + "\n"@);
        assert(lines_acc(Seq::<char>::empty(), seq![]) =~= Seq::<Seq<char>>::empty());
        assert(seq![strip_cr(p0)] + Seq::<Seq<char>>::empty() =~= parts.map_values(
            |p: Seq<char>| strip_cr(p),
        ));
    } else {
        let rest = parts.drop_first();
        lemma_join_first(parts, "\n"@);
        assert forall|i: int| 0 <= i < rest.len() implies lacks(#[trigger] rest[i], '\n') by {
            assert(rest[i] == parts[i + 1]);
        }
        lemma_lines_of_join_stripped(rest);
        let tail = join(rest, "\n"@) + "\n"@;
        lemma_lines_acc_break(p0, tail, seq![]);
        assert(join(parts, "\n"@) + "\n"@ =~= p0 + seq!['\n'] + tail);
        assert(seq![strip_cr(p0)] + rest.map_values(|p: Seq<char>| strip_cr(p)) =~= parts.map_values(
            |p: Seq<char>| strip_cr(p),
        ));
    }
}

proof fn lemma_trim_start_push(x: Seq<char>, c: char)
    ensures
        trim_start(x.push(c)) == if trim_start(x).len() == 0 {
            trim_start(seq![c])
        } else {
            trim_start(x).push(c)
        },
    decreases x.len(),
{
    if x.len() == 0 {
        assert(x.push(c) =~= seq![c]);
    } else if is_ws(x[0]) {
        assert(x.push(c)[0] == x[0]);
        assert(x.push(c).drop_first() =~= x.drop_first().push(c));
        lemma_trim_start_push(x.drop_first(), c);
    } else {
        assert(x.push(c)[0] == x[0]);
    }
}

/// Trimming ignores a trailing carriage return.
pub proof fn lemma_trim_strip_cr(l: Seq<char>)
    ensures
        trim(strip_cr(l)) == trim(l),
{
    if l.len() > 0 && l.last() == '\r' {
        let x = l.drop_last();
        assert(x.push('\r') =~= l);
        lemma_trim_start_push(x, '\r');
        let e: Seq<char> = seq![];
        assert(seq!['\r'].drop_first() =~= e);
        assert(trim_start(seq!['\r']) == trim_start(e));
        if trim_start(x).len() > 0 {
            let y = trim_start(x);
            assert(y.push('\r').drop_last() =~= y);
            assert(trim_end(y.push('\r')) == trim_end(y));
        }
    }
}

} // verus!
