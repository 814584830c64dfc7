use vstd::prelude::*;

verus! {

/// A path separator, on any platform.
pub open spec fn is_separator(c: char) -> bool {
    c == '/' || c == '\\'
}

/// Where the file name of path `p` begins: just after its last separator.
pub open spec fn name_start(p: Seq<char>) -> int
    decreases p.len(),
{
    if p.len() == 0 {
        0
    } else if is_separator(p.last()) {
        p.len() as int
    } else {
        name_start(p.drop_last())
    }
}

/// `tag` occurs in `s` at some position at or after `start`.
pub open spec fn occurs_from(s: Seq<char>, tag: Seq<char>, start: int) -> bool {
    exists|j: int|
        start <= j && j + tag.len() <= s.len() && #[trigger] s.subrange(j, j + tag.len()) == tag
}

/// `tag` occurs in `s`.
pub open spec fn contains(s: Seq<char>, tag: Seq<char>) -> bool {
    occurs_from(s, tag, 0)
}

/// The file name of path `p` contains `tag`.
pub open spec fn tagged(p: Seq<char>, tag: Seq<char>) -> bool {
    occurs_from(p, tag, name_start(p))
}

/// Position in `p` where its file name begins.
fn file_name_start(p: &str) -> (r: usize)
    ensures
        r == name_start(p@),
        r <= p@.len(),
{
    let n = p.unicode_len();
    let mut i: usize = 0;
    let mut start: usize = 0;
    while i < n
        invariant
            n == p@.len(),
            i <= n,
            start <= i,
            start == name_start(p@.subrange(0, i as int)),
        decreases n - i,
    {
        let c = p.get_char(i);
        assert(p@.subrange(0, i + 1).drop_last() =~= p@.subrange(0, i as int));
        if c == '/' || c == '\\' {
            start = i + 1;
        }
        i = i + 1;
    }
    assert(p@.subrange(0, n as int) =~= p@);
    start
}

/// Whether `tag` occurs in `p` at position `j`.
fn occurs_at(p: &str, tag: &str, j: usize) -> (r: bool)
    requires
        j + tag@.len() <= p@.len(),
    ensures
        r == (p@.subrange(j as int, j + tag@.len()) == tag@),
{
    let m = tag.unicode_len();
    let _ = p.unicode_len();
    let mut k: usize = 0;
    while k < m
        invariant
            m == tag@.len(),
            j + m <= p@.len(),
            p@.len() <= usize::MAX,
            k <= m,
            forall|q: int| 0 <= q < k ==> p@[j + q] == tag@[q],
        decreases m - k,
    {
        if p.get_char(j + k) != tag.get_char(k) {
            assert(p@.subrange(j as int, j + m)[k as int] != tag@[k as int]);
            return false;
        }
        k = k + 1;
    }
    assert(p@.subrange(j as int, j + m) =~= tag@);
    true
}

/// Whether `tag` occurs in `path` at or after position `start`.
fn find_from(path: &str, tag: &str, start: usize) -> (r: bool)
    requires
        start <= path@.len(),
    ensures
        r == occurs_from(path@, tag@, start as int),
{
    let n = path.unicode_len();
    let m = tag.unicode_len();
    if m > n || start > n - m {
        return false;
    }
    if m == 0 {
        assert(path@.subrange(start as int, start + tag@.len()) =~= tag@);
        return true;
    }
    let mut j: usize = start;
    while j <= n - m
        invariant
            n == path@.len(),
            m == tag@.len(),
            0 < m <= n,
            start <= j,
            j <= n - m + 1,
            forall|q: int|
                start <= q < j ==> #[trigger] path@.subrange(q, q + m) != tag@,
        decreases n + 1 - j,
    {
        if occurs_at(path, tag, j) {
            return true;
        }
        j = j + 1;
    }
    false
}

/// Whether `tag` occurs in `s`.
pub fn contains_text(s: &str, tag: &str) -> (r: bool)
    ensures
        r == contains(s@, tag@),
{
    find_from(s, tag, 0)
}

/// Whether the file name of `path` (the text after its last `/` or `\`) contains `tag`.
pub fn has_tag(path: &str, tag: &str) -> (r: bool)
    ensures
        r == tagged(path@, tag@),
{
    let start = file_name_start(path);
    find_from(path, tag, start)
}

/// `a` followed by `b`.
pub fn joined(a: &str, b: &str) -> (r: String)
    ensures
        r@ == a@ + b@,
{
    let mut s = String::from_str(a);
    s.append(b);
    s
}

} // verus!
