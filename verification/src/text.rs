//! Character-level text primitives shared by the parsers: whitespace,
//! searching, line and word splitting, trimming and prefix tests.
//!
//! Text is handled as sequences of `char`; every executable function is tied
//! to a spec function over `Seq<char>` that says what it computes.
use vstd::prelude::*;

verus! {

/// Unicode `White_Space`, the set that `char::is_whitespace` tests.
pub open spec fn is_ws(c: char) -> bool {
    let u = c as u32;
    ||| 0x9 <= u <= 0xd
    ||| u == 0x20
    ||| u == 0x85
    ||| u == 0xa0
    ||| u == 0x1680
    ||| 0x2000 <= u <= 0x200a
    ||| u == 0x2028
    ||| u == 0x2029
    ||| u == 0x202f
    ||| u == 0x205f
    ||| u == 0x3000
}

/// Executable whitespace test.
pub fn is_whitespace(c: char) -> (b: bool)
    ensures
        b == is_ws(c),
{
    let u = c as u32;
    (0x9 <= u && u <= 0xd) || u == 0x20 || u == 0x85 || u == 0xa0 || u == 0x1680 || (0x2000 <= u
        && u <= 0x200a) || u == 0x2028 || u == 0x2029 || u == 0x202f || u == 0x205f || u == 0x3000
}

/// The first index `>= i` whose character satisfies `p`, or `s.len()`.
pub open spec fn find_from(s: Seq<char>, i: int, p: spec_fn(char) -> bool) -> int
    decreases s.len() - i,
{
    if i < 0 || i >= s.len() {
        s.len() as int
    } else if p(s[i]) {
        i
    } else {
        find_from(s, i + 1, p)
    }
}

pub proof fn lemma_find_from(s: Seq<char>, i: int, p: spec_fn(char) -> bool)
    requires
        0 <= i,
    ensures
        find_from(s, i, p) <= s.len(),
        i <= s.len() ==> i <= find_from(s, i, p),
        forall|k: int| i <= k < find_from(s, i, p) ==> !p(#[trigger] s[k]),
        find_from(s, i, p) < s.len() ==> p(s[find_from(s, i, p)]),
        i < s.len() && !p(s[i]) ==> find_from(s, i, p) > i,
    decreases s.len() - i,
{
    if i < s.len() && !p(s[i]) {
        lemma_find_from(s, i + 1, p);
    }
}

/// The predicate "is the character `c`".
pub open spec fn char_pred(c: char) -> spec_fn(char) -> bool {
    |x: char| x == c
}

/// The predicate "is whitespace".
pub open spec fn ws_pred() -> spec_fn(char) -> bool {
    |x: char| is_ws(x)
}

/// The predicate "is not whitespace".
pub open spec fn non_ws_pred() -> spec_fn(char) -> bool {
    |x: char| !is_ws(x)
}

/// A line with one trailing carriage return removed.
pub open spec fn strip_cr(l: Seq<char>) -> Seq<char> {
    if l.len() > 0 && l.last() == '\r' {
        l.drop_last()
    } else {
        l
    }
}

/// The lines of `s` from index `start` on, as `str::lines` yields them: split
/// after each `'\n'`, each line ended by a newline loses that newline and then
/// one `'\r'`, and no empty line follows a final newline.
pub open spec fn lines_from(s: Seq<char>, start: int) -> Seq<Seq<char>>
    decreases s.len() - start,
{
    if start < 0 || start >= s.len() {
        seq![]
    } else {
        let j = find_from(s, start, char_pred('\n'));
        proof {
            lemma_find_from(s, start, char_pred('\n'));
        }
        if j >= s.len() {
            seq![s.subrange(start, s.len() as int)]
        } else {
            seq![strip_cr(s.subrange(start, j))] + lines_from(s, j + 1)
        }
    }
}

/// The lines of `s`.
pub open spec fn lines_of(s: Seq<char>) -> Seq<Seq<char>> {
    lines_from(s, 0)
}

/// The maximal runs of non-whitespace characters of `s` from index `i` on,
/// as `str::split_whitespace` yields them.
pub open spec fn words_from(s: Seq<char>, i: int) -> Seq<Seq<char>>
    decreases s.len() - i,
{
    if i < 0 || i >= s.len() {
        seq![]
    } else {
        let b = find_from(s, i, non_ws_pred());
        proof {
            lemma_find_from(s, i, non_ws_pred());
        }
        if b >= s.len() {
            seq![]
        } else {
            let e = find_from(s, b, ws_pred());
            proof {
                lemma_find_from(s, b, ws_pred());
            }
            seq![s.subrange(b, e)] + words_from(s, e)
        }
    }
}

/// The whitespace-separated words of `s`.
pub open spec fn words_of(s: Seq<char>) -> Seq<Seq<char>> {
    words_from(s, 0)
}

/// The views of a vector of character vectors.
pub open spec fn views(v: Seq<Vec<char>>) -> Seq<Seq<char>> {
    v.map_values(|x: Vec<char>| x@)
}

/// The characters of `s`, in order.
pub fn chars_of(s: &str) -> (res: Vec<char>)
    ensures
        res@ == s@,
{
    let mut res: Vec<char> = Vec::new();
    for c in it: s.chars()
        invariant
            res@ == it.seq().take(it.index() as int),
    {
        res.push(c);
    }
    res
}

/// `s[a..b]` as a new vector.
pub fn copy_range(s: &Vec<char>, a: usize, b: usize) -> (res: Vec<char>)
    requires
        a <= b <= s.len(),
    ensures
        res@ == s@.subrange(a as int, b as int),
{
    let mut res: Vec<char> = Vec::new();
    let mut k = a;
    while k < b
        invariant
            a <= k <= b <= s.len(),
            res@ == s@.subrange(a as int, k as int),
        decreases b - k,
    {
        res.push(s[k]);
        k = k + 1;
    }
    res
}

/// The first index `>= i` holding `c`, or `s.len()`.
pub fn find_char(s: &Vec<char>, i: usize, c: char) -> (r: usize)
    ensures
        r == find_from(s@, i as int, char_pred(c)),
{
        if i >= s.len() {
        return s.len();
    }
    let mut k = i;
    while k < s.len()
        invariant
            i <= k <= s.len(),
            find_from(s@, i as int, char_pred(c)) == find_from(s@, k as int, char_pred(c)),
        decreases s.len() - k,
    {
        if s[k] == c {
            return k;
        }
        k = k + 1;
    }
    k
}

/// The first index `>= i` holding a whitespace character, or `s.len()`.
pub fn find_ws(s: &Vec<char>, i: usize) -> (r: usize)
    ensures
        r == find_from(s@, i as int, ws_pred()),
{
        if i >= s.len() {
        return s.len();
    }
    let mut k = i;
    while k < s.len()
        invariant
            i <= k <= s.len(),
            find_from(s@, i as int, ws_pred()) == find_from(s@, k as int, ws_pred()),
        decreases s.len() - k,
    {
        if is_whitespace(s[k]) {
            return k;
        }
        k = k + 1;
    }
    k
}

/// The first index `>= i` holding a non-whitespace character, or `s.len()`.
pub fn find_non_ws(s: &Vec<char>, i: usize) -> (r: usize)
    ensures
        r == find_from(s@, i as int, non_ws_pred()),
{
        if i >= s.len() {
        return s.len();
    }
    let mut k = i;
    while k < s.len()
        invariant
            i <= k <= s.len(),
            find_from(s@, i as int, non_ws_pred()) == find_from(s@, k as int, non_ws_pred()),
        decreases s.len() - k,
    {
        if !is_whitespace(s[k]) {
            return k;
        }
        k = k + 1;
    }
    k
}

/// The lines of `s`, as `str::lines` yields them.
pub fn split_lines(s: &Vec<char>) -> (res: Vec<Vec<char>>)
    ensures
        views(res@) == lines_of(s@),
{
    let mut res: Vec<Vec<char>> = Vec::new();
    let mut start: usize = 0;
    while start < s.len()
        invariant
            start <= s.len(),
            views(res@) + lines_from(s@, start as int) == lines_of(s@),
        decreases s.len() - start,
    {
        let j = find_char(s, start, '\n');
        proof {
            lemma_find_from(s@, start as int, char_pred('\n'));
        }
        let ghost before = views(res@);
        if j >= s.len() {
            let line = copy_range(s, start, s.len());
            res.push(line);
            proof {
                assert(views(res@) =~= before.push(s@.subrange(start as int, s.len() as int)));
                assert(lines_from(s@, s.len() as int) =~= seq![]);
            }
            start = s.len();
        } else {
            let mut end = j;
            if j > start && s[j - 1] == '\r' {
                end = j - 1;
            }
            let line = copy_range(s, start, end);
            proof {
                assert(line@ =~= strip_cr(s@.subrange(start as int, j as int)));
            }
            res.push(line);
            proof {
                assert(views(res@) =~= before.push(strip_cr(s@.subrange(start as int, j as int))));
                assert(lines_from(s@, start as int) =~= seq![strip_cr(s@.subrange(start as int, j as int))]
                    + lines_from(s@, j + 1));
            }
            start = j + 1;
        }
    }
    proof {
        assert(views(res@) + lines_from(s@, start as int) =~= views(res@));
    }
    res
}

/// The whitespace-separated words of `s`, as `str::split_whitespace` yields
/// them.
pub fn split_words(s: &Vec<char>) -> (res: Vec<Vec<char>>)
    ensures
        views(res@) == words_of(s@),
{
    let mut res: Vec<Vec<char>> = Vec::new();
    let mut i: usize = 0;
    while i < s.len()
        invariant
            i <= s.len(),
            views(res@) + words_from(s@, i as int) == words_of(s@),
        decreases s.len() - i,
    {
        let b = find_non_ws(s, i);
        proof {
            lemma_find_from(s@, i as int, non_ws_pred());
        }
        let ghost before = views(res@);
        if b >= s.len() {
            proof {
                assert(words_from(s@, i as int) =~= seq![]);
                assert(words_from(s@, s.len() as int) =~= seq![]);
            }
            i = s.len();
        } else {
            let e = find_ws(s, b);
            proof {
                lemma_find_from(s@, b as int, ws_pred());
            }
            let w = copy_range(s, b, e);
            res.push(w);
            proof {
                assert(views(res@) =~= before.push(s@.subrange(b as int, e as int)));
                assert(words_from(s@, i as int) =~= seq![s@.subrange(b as int, e as int)]
                    + words_from(s@, e as int));
            }
            i = e;
        }
    }
    proof {
        assert(views(res@) + words_from(s@, i as int) =~= views(res@));
    }
    res
}

/// Appends `c` to `s`: `String::push`.
#[verifier::external_body]
fn push_char(s: &mut String, c: char)
    ensures
        final(s)@ == old(s)@.push(c),
{
    s.push(c);
}

/// A string holding the characters of `v`.
pub fn string_of(v: &Vec<char>) -> (s: String)
    ensures
        s@ == v@,
{
    let mut s = String::new();
    let mut k: usize = 0;
    while k < v.len()
        invariant
            k <= v.len(),
            s@ == v@.take(k as int),
        decreases v.len() - k,
    {
        push_char(&mut s, v[k]);
        proof {
            assert(v@.take(k as int).push(v@[k as int]) =~= v@.take(k + 1));
        }
        k = k + 1;
    }
    proof {
        assert(v@.take(v.len() as int) =~= v@);
    }
    s
}

/// An owned copy of `s`.
pub fn owned(s: &str) -> (r: String)
    ensures
        r@ == s@,
{
    s.to_owned()
}

/// `s` without its leading and trailing whitespace, as `str::trim` gives it.
pub open spec fn trim(s: Seq<char>) -> Seq<char> {
    let b = find_from(s, 0, non_ws_pred());
    if b >= s.len() {
        seq![]
    } else {
        s.subrange(b, trim_end(s, s.len() as int))
    }
}

/// One past the last non-whitespace character below `j`, or 0.
pub open spec fn trim_end(s: Seq<char>, j: int) -> int
    decreases j,
{
    if j <= 0 {
        0
    } else if !is_ws(s[j - 1]) {
        j
    } else {
        trim_end(s, j - 1)
    }
}

proof fn lemma_trim_end(s: Seq<char>, j: int, k: int)
    requires
        0 <= k < j <= s.len(),
        !is_ws(s[k]),
    ensures
        k < trim_end(s, j) <= j,
    decreases j,
{
    if is_ws(s[j - 1]) {
        lemma_trim_end(s, j - 1, k);
    }
}

/// `s` without its leading and trailing whitespace.
pub fn trim_chars(s: &Vec<char>) -> (r: Vec<char>)
    ensures
        r@ == trim(s@),
{
    let b = find_non_ws(s, 0);
    proof {
        lemma_find_from(s@, 0, non_ws_pred());
    }
    if b >= s.len() {
        return Vec::new();
    }
    let mut e = s.len();
    proof {
        lemma_trim_end(s@, s.len() as int, b as int);
    }
    while is_whitespace(s[e - 1])
        invariant
            b < e <= s.len(),
            !is_ws(s@[b as int]),
            trim_end(s@, e as int) == trim_end(s@, s.len() as int),
        decreases e,
    {
        proof {
            lemma_trim_end(s@, (e - 1) as int, b as int);
        }
        e = e - 1;
    }
    copy_range(s, b, e)
}

/// `p` is a prefix of `s`.
pub open spec fn has_prefix(s: Seq<char>, p: Seq<char>) -> bool {
    p.len() <= s.len() && s.take(p.len() as int) == p
}

/// `p` occurs in `s` as a contiguous run.
pub open spec fn contains_seq(s: Seq<char>, p: Seq<char>) -> bool {
    exists|i: int| 0 <= i && i + p.len() <= s.len() && #[trigger] s.subrange(i, i + p.len()) == p
}

/// `p` occurs in `s` at index `i`.
pub fn occurs_at(s: &Vec<char>, p: &Vec<char>, i: usize) -> (b: bool)
    requires
        i <= s.len(),
    ensures
        b == (i + p.len() <= s.len() && s@.subrange(i as int, i + p.len()) == p@),
{
    if p.len() > s.len() - i {
        return false;
    }
    let mut k: usize = 0;
    while k < p.len()
        invariant
            i + p.len() <= s.len(),
            k <= p.len(),
            s@.subrange(i as int, i + k) == p@.take(k as int),
        decreases p.len() - k,
    {
        if s[i + k] != p[k] {
            proof {
                assert(s@.subrange(i as int, i + p.len())[k as int] == s@[i + k]);
            }
            return false;
        }
        proof {
            assert(s@.subrange(i as int, i + k + 1) =~= s@.subrange(i as int, i + k).push(s@[i + k]));
            assert(p@.take(k + 1) =~= p@.take(k as int).push(p@[k as int]));
        }
        k = k + 1;
    }
    proof {
        assert(p@.take(p.len() as int) =~= p@);
    }
    true
}

/// `p` is a prefix of `s` (`str::starts_with`).
pub fn starts_with(s: &Vec<char>, p: &Vec<char>) -> (b: bool)
    ensures
        b == has_prefix(s@, p@),
{
    let r = occurs_at(s, p, 0);
    proof {
        assert(s@.subrange(0, p.len() as int) =~= s@.take(p.len() as int));
    }
    r
}

/// `p` occurs in `s` (`str::contains`).
pub fn contains(s: &Vec<char>, p: &Vec<char>) -> (b: bool)
    ensures
        b == contains_seq(s@, p@),
{
    if p.len() > s.len() {
        return false;
    }
    let last = s.len() - p.len();
    let mut i: usize = 0;
    loop
        invariant
            i <= last,
            last + p.len() == s.len(),
            forall|j: int| 0 <= j < i ==> #[trigger] s@.subrange(j, j + p.len()) != p@,
        ensures
            forall|j: int| 0 <= j <= last ==> #[trigger] s@.subrange(j, j + p.len()) != p@,
        decreases last - i,
    {
        if occurs_at(s, p, i) {
            return true;
        }
        if i == last {
            break;
        }
        i = i + 1;
    }
    false
}

/// The two sequences are equal.
pub fn chars_eq(a: &Vec<char>, b: &Vec<char>) -> (r: bool)
    ensures
        r == (a@ == b@),
{
    if a.len() != b.len() {
        return false;
    }
    let r = occurs_at(a, b, 0);
    proof {
        assert(a@.subrange(0, b.len() as int) =~= a@);
    }
    r
}

/// The lower-case mapping of `s` as `str::to_lowercase` computes it (full
/// Unicode case mapping, which can change a text's length).
pub uninterp spec fn lowercase(s: Seq<char>) -> Seq<char>;

/// The upper-case mapping of `s` as `str::to_uppercase` computes it.
pub uninterp spec fn uppercase(s: Seq<char>) -> Seq<char>;

/// Every character is ASCII.
pub open spec fn is_ascii_text(s: Seq<char>) -> bool {
    forall|i: int| 0 <= i < s.len() ==> (#[trigger] s[i] as u32) < 128
}

/// The ASCII upper case of `c`: `a`..`z` become `A`..`Z`, others stay.
pub open spec fn ascii_upper_char(c: char) -> char {
    if 'a' <= c <= 'z' {
        ((c as u32) - 32) as char
    } else {
        c
    }
}

/// The ASCII lower case of `c`: `A`..`Z` become `a`..`z`, others stay.
pub open spec fn ascii_lower_char(c: char) -> char {
    if 'A' <= c <= 'Z' {
        ((c as u32) + 32) as char
    } else {
        c
    }
}

/// `str::to_lowercase`: a function of the text alone; on an ASCII text, the
/// ASCII lower case of each character.
#[verifier::external_body]
pub(crate) fn to_lowercase(s: &str) -> (r: String)
    ensures
        r@ == lowercase(s@),
        is_ascii_text(s@) ==> r@ == s@.map_values(|c: char| ascii_lower_char(c)),
{
    s.to_lowercase()
}

/// `str::to_uppercase`: a function of the text alone; on an ASCII text, the
/// ASCII upper case of each character.
#[verifier::external_body]
pub(crate) fn to_uppercase(s: &str) -> (r: String)
    ensures
        r@ == uppercase(s@),
        is_ascii_text(s@) ==> r@ == s@.map_values(|c: char| ascii_upper_char(c)),
{
    s.to_uppercase()
}

} // verus!
