//! Text handling for the score formats: white space, separators, prefixes
//! and ASCII case, each as a mathematical function on sequences of characters
//! with an executable counterpart on character slices.

use vstd::prelude::*;
use vstd::slice::slice_subrange;

verus! {

/// Unicode white space: the characters with the `White_Space` property.
pub open spec fn is_space(c: char) -> bool {
    let n = c as u32;
    (0x09 <= n <= 0x0D) || n == 0x20 || n == 0x85 || n == 0xA0 || n == 0x1680 || (0x2000 <= n
        <= 0x200A) || n == 0x2028 || n == 0x2029 || n == 0x202F || n == 0x205F || n == 0x3000
}

/// How many white-space characters `s` starts with.
pub open spec fn leading_spaces(s: Seq<char>) -> nat
    decreases s.len(),
{
    if s.len() > 0 && is_space(s[0]) {
        1 + leading_spaces(s.drop_first())
    } else {
        0
    }
}

/// How many white-space characters `s` ends with.
pub open spec fn trailing_spaces(s: Seq<char>) -> nat
    decreases s.len(),
{
    if s.len() > 0 && is_space(s.last()) {
        1 + trailing_spaces(s.drop_last())
    } else {
        0
    }
}

/// `s` without its leading and trailing white space.
pub open spec fn trimmed(s: Seq<char>) -> Seq<char> {
    let t = s.skip(leading_spaces(s) as int);
    t.take(t.len() - trailing_spaces(t))
}

/// The position of the first `c` in `s`, or the length of `s` if there is none.
pub open spec fn first_index_of(s: Seq<char>, c: char) -> int
    decreases s.len(),
{
    if s.len() == 0 || s[0] == c {
        0
    } else {
        1 + first_index_of(s.drop_first(), c)
    }
}

/// The pieces of `s` between occurrences of `sep`. There is always at least
/// one piece; an empty `s` has the one empty piece.
pub open spec fn split_on(s: Seq<char>, sep: char) -> Seq<Seq<char>>
    decreases s.len(),
{
    let i = first_index_of(s, sep);
    if 0 <= i < s.len() {
        seq![s.take(i)] + split_on(s.skip(i + 1), sep)
    } else {
        seq![s]
    }
}

/// The pieces of `s` between occurrences of `sep`, each one trimmed.
pub open spec fn fields(s: Seq<char>, sep: char) -> Seq<Seq<char>> {
    split_on(s, sep).map_values(|p: Seq<char>| trimmed(p))
}

/// What follows `p` in `s`, if `s` starts with `p`.
pub open spec fn without_prefix(s: Seq<char>, p: Seq<char>) -> Option<Seq<char>> {
    if p.is_prefix_of(s) {
        Some(s.skip(p.len() as int))
    } else {
        None
    }
}

/// The two sides of the first `sep` in `s`, if there is one.
pub open spec fn split_pair(s: Seq<char>, sep: char) -> Option<(Seq<char>, Seq<char>)> {
    let i = first_index_of(s, sep);
    if 0 <= i < s.len() {
        Some((s.take(i), s.skip(i + 1)))
    } else {
        None
    }
}

/// Whether a `//` stands at position `j` of `s`.
pub open spec fn comment_at(s: Seq<char>, j: int) -> bool {
    0 <= j && j + 1 < s.len() && s[j] == '/' && s[j + 1] == '/'
}

/// The position of the first `//` in `s`, or the length of `s` if there is none.
pub open spec fn comment_index(s: Seq<char>) -> int
    decreases s.len(),
{
    if s.len() < 2 {
        s.len() as int
    } else if s[0] == '/' && s[1] == '/' {
        0
    } else {
        1 + comment_index(s.drop_first())
    }
}

/// `s` up to its first `//`.
pub open spec fn before_comment(s: Seq<char>) -> Seq<char> {
    s.take(comment_index(s))
}

/// Whether `s` starts with `//`.
pub open spec fn is_comment(s: Seq<char>) -> bool {
    s.len() >= 2 && s[0] == '/' && s[1] == '/'
}

/// The lower-case form of an ASCII letter; any other character unchanged.
pub open spec fn lower(c: char) -> char {
    if 'A' <= c <= 'Z' {
        ((c as u8 + 32) as u8) as char
    } else {
        c
    }
}

/// The upper-case form of an ASCII letter; any other character unchanged.
pub open spec fn upper(c: char) -> char {
    if 'a' <= c <= 'z' {
        ((c as u8 - 32) as u8) as char
    } else {
        c
    }
}

/// `s` with its ASCII letters in lower case.
pub open spec fn lowered(s: Seq<char>) -> Seq<char> {
    s.map_values(|c: char| lower(c))
}

/// The views of a sequence of slices.
pub open spec fn views(parts: Seq<&[char]>) -> Seq<Seq<char>> {
    parts.map_values(|p: &[char]| p@)
}

pub proof fn lemma_first_index_of(s: Seq<char>, c: char, i: int)
    requires
        0 <= i <= s.len(),
        forall|j: int| 0 <= j < i ==> s[j] != c,
        i < s.len() ==> s[i] == c,
    ensures
        first_index_of(s, c) == i,
    decreases s.len(),
{
    if s.len() == 0 || s[0] == c {
    } else {
        let t = s.drop_first();
        assert forall|j: int| 0 <= j < i - 1 implies t[j] != c by {
            assert(t[j] == s[j + 1]);
        }
        lemma_first_index_of(t, c, i - 1);
    }
}

pub proof fn lemma_comment_index(s: Seq<char>, i: int)
    requires
        0 <= i <= s.len(),
        forall|j: int| 0 <= j < i ==> !comment_at(s, j),
        i < s.len() ==> comment_at(s, i),
    ensures
        comment_index(s) == i,
    decreases s.len(),
{
    if s.len() < 2 {
    } else if s[0] == '/' && s[1] == '/' {
        assert(comment_at(s, 0));
    } else {
        let t = s.drop_first();
        assert(!comment_at(s, 0));
        assert forall|j: int| 0 <= j < i - 1 implies !comment_at(t, j) by {
            assert(!comment_at(s, j + 1));
            if j + 1 < t.len() {
                assert(t[j] == s[j + 1]);
                assert(t[j + 1] == s[j + 2]);
            }
        }
        if i - 1 < t.len() {
            assert(comment_at(s, i));
            assert(t[i - 1] == s[i]);
            assert(t[i] == s[i + 1]);
        }
        lemma_comment_index(t, i - 1);
    }
}

/// Whether `c` is white space.
pub fn is_space_char(c: char) -> (r: bool)
    ensures
        r == is_space(c),
{
    let n: u32 = c as u32;
    (0x09 <= n && n <= 0x0D) || n == 0x20 || n == 0x85 || n == 0xA0 || n == 0x1680 || (0x2000 <= n
        && n <= 0x200A) || n == 0x2028 || n == 0x2029 || n == 0x202F || n == 0x205F || n == 0x3000
}

/// The lower-case form of an ASCII letter; any other character unchanged.
pub fn lower_char(c: char) -> (r: char)
    ensures
        r == lower(c),
{
    if 'A' <= c && c <= 'Z' {
        ((c as u8) + 32) as char
    } else {
        c
    }
}

/// The upper-case form of an ASCII letter; any other character unchanged.
pub fn upper_char(c: char) -> (r: char)
    ensures
        r == upper(c),
{
    if 'a' <= c && c <= 'z' {
        ((c as u8) - 32) as char
    } else {
        c
    }
}

/// The characters of a string, in order.
pub fn chars_of(s: &str) -> (r: Vec<char>)
    ensures
        r@ == s@,
{
    let mut out: Vec<char> = Vec::new();
    for c in it: s.chars()
        invariant
            out@ == s@.take(it.index() as int),
            it.seq() == s@,
    {
        out.push(c);
    }
    out
}

/// `String::push`: afterwards the string holds the characters that it held,
/// and then `c`.
#[verifier::external_body]
fn push_char(s: &mut String, c: char)
    ensures
        final(s)@ == old(s)@.push(c),
{
    s.push(c);
}

/// The string of the characters of `chars`.
pub fn string_of(chars: &[char]) -> (r: String)
    ensures
        r@ == chars@,
{
    let n: usize = chars.len();
    let mut out: String = String::new();
    let mut i: usize = 0;
    while i < n
        invariant
            i <= n,
            n == chars@.len(),
            out@ == chars@.take(i as int),
        decreases n - i,
    {
        push_char(&mut out, chars[i]);
        assert(out@ =~= chars@.take(i + 1));
        i += 1;
    }
    assert(chars@.take(n as int) =~= chars@);
    out
}

/// `s` without its leading and trailing white space.
pub fn trim<'a>(s: &'a [char]) -> (r: &'a [char])
    ensures
        r@ == trimmed(s@),
{
    let n: usize = s.len();
    let mut a: usize = 0;
    assert(s@.skip(0) =~= s@);
    while a < n && is_space_char(s[a])
        invariant
            a <= n,
            n == s@.len(),
            leading_spaces(s@) == a + leading_spaces(s@.skip(a as int)),
        decreases n - a,
    {
        assert(s@.skip(a as int).drop_first() =~= s@.skip(a + 1));
        a += 1;
    }
    let ghost t = s@.skip(a as int);
    let mut b: usize = n;
    assert(t.take(n - a) =~= t);
    while b > a && is_space_char(s[b - 1])
        invariant
            a <= b <= n,
            n == s@.len(),
            t == s@.skip(a as int),
            trailing_spaces(t) == (n - b) + trailing_spaces(t.take(b - a)),
        decreases b,
    {
        assert(t.take(b - a).drop_last() =~= t.take(b - a - 1));
        assert(t.take(b - a).last() == s@[b - 1]);
        b -= 1;
    }
    proof {
        assert(t.take(n - a) =~= t);
        if b > a {
            assert(t.take(b - a).last() == s@[b - 1]);
        }
        assert(s@.subrange(a as int, b as int) =~= t.take(t.len() - trailing_spaces(t)));
    }
    slice_subrange(s, a, b)
}

/// The position of the first `c` in `s`, or the length of `s`.
pub fn find_char(s: &[char], c: char) -> (r: usize)
    ensures
        r == first_index_of(s@, c),
        r <= s@.len(),
{
    let n: usize = s.len();
    let mut i: usize = 0;
    while i < n && s[i] != c
        invariant
            i <= n,
            n == s@.len(),
            forall|j: int| 0 <= j < i ==> s@[j] != c,
        decreases n - i,
    {
        i += 1;
    }
    proof {
        lemma_first_index_of(s@, c, i as int);
    }
    i
}

/// The pieces of `s` between occurrences of `sep`.
pub fn split<'a>(s: &'a [char], sep: char) -> (r: Vec<&'a [char]>)
    ensures
        views(r@) == split_on(s@, sep),
        r@.len() >= 1,
{
    let n: usize = s.len();
    let mut parts: Vec<&'a [char]> = Vec::new();
    let mut start: usize = 0;
    let mut done: bool = false;
    assert(s@.skip(0) =~= s@);
    assert(views(parts@) + split_on(s@, sep) =~= split_on(s@, sep));
    while !done
        invariant
            start <= n,
            n == s@.len(),
            !done ==> split_on(s@, sep) == views(parts@) + split_on(s@.skip(start as int), sep),
            done ==> split_on(s@, sep) == views(parts@) && parts@.len() >= 1,
        decreases n - start + (if done { 0int } else { 1int }),
    {
        let rest = slice_subrange(s, start, n);
        let k = find_char(rest, sep);
        let piece = slice_subrange(rest, 0, k);
        let ghost before = views(parts@);
        let ghost tail = s@.skip(start as int);
        proof {
            assert(rest@ =~= tail);
            assert(piece@ =~= tail.take(k as int));
        }
        parts.push(piece);
        proof {
            assert(views(parts@) =~= before + seq![tail.take(k as int)]);
        }
        if k < rest.len() {
            proof {
                assert(tail.skip(k + 1) =~= s@.skip(start + k + 1));
                assert(split_on(tail, sep) == seq![tail.take(k as int)] + split_on(
                    tail.skip(k + 1),
                    sep,
                ));
            }
            start = start + k + 1;
        } else {
            proof {
                assert(tail.take(k as int) =~= tail);
                assert(split_on(tail, sep) == seq![tail]);
            }
            done = true;
        }
    }
    parts
}

/// The pieces of `s` between occurrences of `sep`, each one trimmed.
pub fn split_fields<'a>(s: &'a [char], sep: char) -> (r: Vec<&'a [char]>)
    ensures
        views(r@) == fields(s@, sep),
        r@.len() >= 1,
{
    let pieces: Vec<&'a [char]> = split(s, sep);
    let n: usize = pieces.len();
    let mut out: Vec<&'a [char]> = Vec::new();
    let mut i: usize = 0;
    while i < n
        invariant
            i <= n,
            n == pieces@.len(),
            out@.len() == i,
            forall|j: int| 0 <= j < i ==> (#[trigger] out@[j])@ == trimmed(pieces@[j]@),
        decreases n - i,
    {
        out.push(trim(pieces[i]));
        i += 1;
    }
    assert(views(out@) =~= views(pieces@).map_values(|p: Seq<char>| trimmed(p)));
    out
}

/// What follows `prefix` in `s`, if `s` starts with `prefix`.
pub fn strip_prefix<'a>(s: &'a [char], prefix: &str) -> (r: Option<&'a [char]>)
    ensures
        match without_prefix(s@, prefix@) {
            Some(rest) => r.is_some() && r.unwrap()@ == rest,
            None => r.is_none(),
        },
{
    let p: Vec<char> = chars_of(prefix);
    let m: usize = p.len();
    if m > s.len() {
        return None;
    }
    let mut i: usize = 0;
    while i < m
        invariant
            i <= m,
            m == p@.len(),
            m <= s@.len(),
            p@ == prefix@,
            forall|j: int| 0 <= j < i ==> s@[j] == p@[j],
        decreases m - i,
    {
        if s[i] != p[i] {
            assert(!prefix@.is_prefix_of(s@));
            return None;
        }
        i += 1;
    }
    assert(prefix@.is_prefix_of(s@)) by {
        assert(s@.subrange(0, m as int) =~= p@);
    }
    assert(s@.subrange(m as int, s@.len() as int) =~= s@.skip(m as int));
    Some(slice_subrange(s, m, s.len()))
}

/// The two sides of the first `sep` in `s`, if there is one.
pub fn split_once<'a>(s: &'a [char], sep: char) -> (r: Option<(&'a [char], &'a [char])>)
    ensures
        match split_pair(s@, sep) {
            Some((left, right)) => r.is_some() && r.unwrap().0@ == left && r.unwrap().1@ == right,
            None => r.is_none(),
        },
{
    let k = find_char(s, sep);
    if k < s.len() {
        assert(s@.subrange(0, k as int) =~= s@.take(k as int));
        assert(s@.subrange(k + 1, s@.len() as int) =~= s@.skip(k + 1));
        Some((slice_subrange(s, 0, k), slice_subrange(s, k + 1, s.len())))
    } else {
        None
    }
}

/// `s` up to its first `//`.
pub fn strip_comment<'a>(s: &'a [char]) -> (r: &'a [char])
    ensures
        r@ == before_comment(s@),
{
    let n: usize = s.len();
    let mut i: usize = 0;
    while n - i >= 2 && !(s[i] == '/' && s[i + 1] == '/')
        invariant
            i <= n,
            n == s@.len(),
            forall|j: int| 0 <= j < i ==> !comment_at(s@, j),
        decreases n - i,
    {
        i += 1;
    }
    let end: usize = if n - i >= 2 {
        i
    } else {
        n
    };
    proof {
        if n - i >= 2 {
            assert(comment_at(s@, i as int));
        } else {
            assert forall|j: int| 0 <= j < n implies !comment_at(s@, j) by {}
        }
        lemma_comment_index(s@, end as int);
        assert(s@.subrange(0, end as int) =~= s@.take(end as int));
    }
    slice_subrange(s, 0, end)
}

/// Whether `s` starts with `//`.
pub fn starts_comment(s: &[char]) -> (r: bool)
    ensures
        r == is_comment(s@),
{
    s.len() >= 2 && s[0] == '/' && s[1] == '/'
}

/// Whether `s`, with its ASCII letters in lower case, reads `word`.
pub fn reads_as(s: &[char], word: &str) -> (r: bool)
    ensures
        r == (lowered(s@) == word@),
{
    let w: Vec<char> = chars_of(word);
    let n: usize = s.len();
    if w.len() != n {
        return false;
    }
    let mut i: usize = 0;
    while i < n
        invariant
            i <= n,
            n == s@.len(),
            n == w@.len(),
            w@ == word@,
            forall|j: int| 0 <= j < i ==> lower(s@[j]) == w@[j],
        decreases n - i,
    {
        if lower_char(s[i]) != w[i] {
            assert(lowered(s@)[i as int] != word@[i as int]);
            return false;
        }
        i += 1;
    }
    assert(lowered(s@) =~= word@);
    true
}

/// Whether `s` reads `word`, character for character.
pub fn reads_exactly(s: &[char], word: &str) -> (r: bool)
    ensures
        r == (s@ == word@),
{
    let w: Vec<char> = chars_of(word);
    let n: usize = s.len();
    if w.len() != n {
        return false;
    }
    let mut i: usize = 0;
    while i < n
        invariant
            i <= n,
            n == s@.len(),
            n == w@.len(),
            w@ == word@,
            forall|j: int| 0 <= j < i ==> s@[j] == w@[j],
        decreases n - i,
    {
        if s[i] != w[i] {
            return false;
        }
        i += 1;
    }
    assert(s@ =~= word@);
    true
}

} // verus!
