use vstd::prelude::*;

verus! {

/// Appends one character to a string (`String::push`).
#[verifier::external_body]
pub(crate) fn push_char(s: &mut String, c: char)
    ensures
        final(s)@ == old(s)@.push(c),
{
    s.push(c);
}

/// The characters of `s`, in order.
pub fn chars_of(s: &str) -> (v: Vec<char>)
    ensures
        v@ == s@,
{
    let mut v: Vec<char> = Vec::new();
    for c in it: s.chars()
        invariant
            v@ == it.seq().take(it.index() as int),
            it.seq() == s@,
    {
        v.push(c);
    }
    v
}

/// The string made of the characters `v[lo..hi]`.
pub fn string_of(v: &Vec<char>, lo: usize, hi: usize) -> (s: String)
    requires
        lo <= hi <= v@.len(),
    ensures
        s@ == v@.subrange(lo as int, hi as int),
{
    let mut s = String::new();
    let mut i = lo;
    while i < hi
        invariant
            lo <= i <= hi <= v@.len(),
            s@ == v@.subrange(lo as int, i as int),
        decreases hi - i,
    {
        push_char(&mut s, v[i]);
        assert(v@.subrange(lo as int, i + 1) =~= v@.subrange(lo as int, i as int).push(v@[i as int]));
        i = i + 1;
    }
    s
}

/// Whether two strings hold the same characters.
pub fn str_eq(a: &str, b: &str) -> (r: bool)
    ensures
        r == (a@ == b@),
{
    let x = chars_of(a);
    let y = chars_of(b);
    if x.len() != y.len() {
        return false;
    }
    let mut i: usize = 0;
    while i < x.len()
        invariant
            x@ == a@,
            y@ == b@,
            x@.len() == y@.len(),
            i <= x@.len(),
            forall|j: int| 0 <= j < i ==> x@[j] == y@[j],
        decreases x@.len() - i,
    {
        if x[i] != y[i] {
            return false;
        }
        i = i + 1;
    }
    assert(x@ =~= y@);
    true
}

/// The characters of each string.
pub open spec fn views(v: Seq<String>) -> Seq<Seq<char>> {
    Seq::new(v.len(), |i: int| v[i]@)
}

/// Unicode white space (the `White_Space` property), as `char::is_whitespace` tests it.
pub open spec fn is_ws(c: char) -> bool {
    ||| c == ' '
    ||| ('\t' <= c && c <= '\r')
    ||| c == '\u{85}'
    ||| c == '\u{a0}'
    ||| c == '\u{1680}'
    ||| ('\u{2000}' <= c && c <= '\u{200a}')
    ||| c == '\u{2028}'
    ||| c == '\u{2029}'
    ||| c == '\u{202f}'
    ||| c == '\u{205f}'
    ||| c == '\u{3000}'
}

/// Whether `c` is white space.
pub fn is_whitespace(c: char) -> (r: bool)
    ensures
        r == is_ws(c),
{
    c == ' ' || ('\t' <= c && c <= '\r') || c == '\u{85}' || c == '\u{a0}' || c == '\u{1680}'
        || ('\u{2000}' <= c && c <= '\u{200a}') || c == '\u{2028}' || c == '\u{2029}'
        || c == '\u{202f}' || c == '\u{205f}' || c == '\u{3000}'
}

/// Whether the separator `sep` occurs in `s` at position `j`.
pub open spec fn occurs_at(s: Seq<char>, sep: Seq<char>, j: int) -> bool {
    0 <= j && j + sep.len() <= s.len() && s.subrange(j, j + sep.len()) == sep
}

/// The first position at or after `i` where `sep` occurs, or `s.len()` if none.
pub open spec fn find_from(s: Seq<char>, sep: Seq<char>, i: int) -> int
    decreases s.len() - i,
{
    if i < 0 || sep.len() == 0 || i + sep.len() > s.len() {
        s.len() as int
    } else if occurs_at(s, sep, i) {
        i
    } else {
        find_from(s, sep, i + 1)
    }
}

/// The pieces of `s[i..]` between the (non-overlapping, leftmost-first)
/// occurrences of the non-empty separator `sep`, as `str::split` yields them.
pub open spec fn split_from(s: Seq<char>, sep: Seq<char>, i: int) -> Seq<Seq<char>>
    decreases s.len() - i,
{
    let j = find_from(s, sep, i);
    if i < 0 || sep.len() == 0 || j >= s.len() || i > s.len() || j < i || j + sep.len() > s.len() {
        seq![s.subrange(i, s.len() as int)]
    } else {
        seq![s.subrange(i, j)].add(split_from(s, sep, j + sep.len()))
    }
}

/// `s.split(sep)`.
pub open spec fn split_on(s: Seq<char>, sep: Seq<char>) -> Seq<Seq<char>> {
    split_from(s, sep, 0)
}

pub(crate) proof fn lemma_find_from_bounds(s: Seq<char>, sep: Seq<char>, i: int)
    requires
        0 <= i <= s.len(),
        sep.len() > 0,
    ensures
        i <= find_from(s, sep, i) <= s.len(),
        find_from(s, sep, i) < s.len() ==> occurs_at(s, sep, find_from(s, sep, i)),
        forall|k: int| i <= k < find_from(s, sep, i) ==> !occurs_at(s, sep, k),
    decreases s.len() - i,
{
    if i + sep.len() > s.len() {
        assert forall|k: int| i <= k < s.len() implies !occurs_at(s, sep, k) by {}
    } else if occurs_at(s, sep, i) {
    } else {
        lemma_find_from_bounds(s, sep, i + 1);
    }
}

fn occurs(v: &Vec<char>, sep: &Vec<char>, j: usize) -> (r: bool)
    requires
        j <= v@.len(),
    ensures
        r == occurs_at(v@, sep@, j as int),
{
    if sep.len() > v.len() - j {
        return false;
    }
    let mut k: usize = 0;
    while k < sep.len()
        invariant
            j + sep@.len() <= v@.len() <= usize::MAX,
            k <= sep@.len(),
            forall|m: int| 0 <= m < k ==> v@[j + m] == sep@[m],
        decreases sep@.len() - k,
    {
        let idx: usize = j + k;
        if v[idx] != sep[k] {
            assert(v@.subrange(j as int, j + sep@.len())[k as int] != sep@[k as int]);
            return false;
        }
        k = k + 1;
    }
    assert(v@.subrange(j as int, j + sep@.len()) =~= sep@);
    true
}

/// Splits `s` at each occurrence of the non-empty separator `sep`, as `str::split` does.
pub fn split_by(s: &str, sep: &str) -> (r: Vec<String>)
    requires
        sep@.len() > 0,
    ensures
        views(r@) == split_on(s@, sep@),
        r@.len() >= 1,
{
    let v = chars_of(s);
    let p = chars_of(sep);
    let mut pieces: Vec<String> = Vec::new();
    let mut i: usize = 0;
    loop
        invariant
            v@ == s@,
            p@ == sep@,
            p@.len() > 0,
            i <= v@.len(),
            views(pieces@) + split_from(v@, p@, i as int) == split_on(v@, p@),
        decreases v@.len() - i,
    {
        let mut j: usize = i;
        while j < v.len() && !occurs(&v, &p, j)
            invariant
                v@ == s@,
                p@ == sep@,
                i <= j <= v@.len(),
                forall|k: int| i <= k < j ==> !occurs_at(v@, p@, k),
            decreases v@.len() - j,
        {
            j = j + 1;
        }
        proof {
            lemma_find_from_bounds(v@, p@, i as int);
            lemma_find_is_first(v@, p@, i as int, j as int);
        }
        if j >= v.len() {
            let piece = string_of(&v, i, v.len());
            let ghost before = views(pieces@);
            pieces.push(piece);
            assert(views(pieces@) =~= before.push(piece@));
            assert(views(pieces@) =~= before + split_from(v@, p@, i as int));
            return pieces;
        }
        let piece = string_of(&v, i, j);
        let ghost before = views(pieces@);
        pieces.push(piece);
        assert(views(pieces@) =~= before.push(piece@));
        assert(split_from(v@, p@, i as int) == seq![piece@].add(split_from(v@, p@, j + p@.len())));
        assert(before + split_from(v@, p@, i as int) =~= views(pieces@) + split_from(v@, p@, j + p@.len()));
        i = j + p.len();
    }
}

/// A position from which no occurrence is found before `j`, where there is one
/// (or the end), is the position `find_from` finds.
proof fn lemma_find_is_first(s: Seq<char>, sep: Seq<char>, i: int, j: int)
    requires
        0 <= i <= j <= s.len(),
        forall|k: int| i <= k < j ==> !occurs_at(s, sep, k),
        j < s.len() ==> occurs_at(s, sep, j),
        sep.len() > 0,
    ensures
        j < s.len() ==> find_from(s, sep, i) == j,
        j == s.len() ==> find_from(s, sep, i) == s.len(),
    decreases j - i,
{
    if i < j {
        assert(!occurs_at(s, sep, i));
        if i + sep.len() > s.len() {
            if j < s.len() {
                assert(occurs_at(s, sep, j));
            }
        } else {
            lemma_find_is_first(s, sep, i + 1, j);
        }
    } else {
        if j == s.len() {
        }
    }
}

/// The first position at or after `i` that is not white space (or the end).
pub open spec fn skip_ws(s: Seq<char>, i: int) -> int
    decreases s.len() - i,
{
    if i < 0 || i >= s.len() || !is_ws(s[i]) {
        i
    } else {
        skip_ws(s, i + 1)
    }
}

/// The first position at or after `i` that is white space (or the end).
pub open spec fn skip_word(s: Seq<char>, i: int) -> int
    decreases s.len() - i,
{
    if i < 0 || i >= s.len() || is_ws(s[i]) {
        i
    } else {
        skip_word(s, i + 1)
    }
}

/// The end of `s[..j]` once its trailing white space is dropped.
pub open spec fn trim_end_at(s: Seq<char>, j: int) -> int
    decreases j,
{
    if j <= 0 || j > s.len() || !is_ws(s[j - 1]) {
        j
    } else {
        trim_end_at(s, j - 1)
    }
}

/// `s` without leading and trailing white space (`str::trim`).
pub open spec fn trimmed(s: Seq<char>) -> Seq<char> {
    let a = skip_ws(s, 0);
    let b = trim_end_at(s, s.len() as int);
    if a >= b { Seq::empty() } else { s.subrange(a, b) }
}

/// The white-space separated words of `s[i..]` (`str::split_whitespace`).
pub open spec fn words_from(s: Seq<char>, i: int) -> Seq<Seq<char>>
    decreases s.len() - i,
{
    let a = skip_ws(s, i);
    if i < 0 || a >= s.len() || a < i {
        Seq::empty()
    } else {
        let b = skip_word(s, a);
        if b <= a || b > s.len() {
            Seq::empty()
        } else {
            seq![s.subrange(a, b)].add(words_from(s, b))
        }
    }
}

/// The white-space separated words of `s`.
pub open spec fn words(s: Seq<char>) -> Seq<Seq<char>> {
    words_from(s, 0)
}

proof fn lemma_skip_ws(s: Seq<char>, i: int)
    requires
        0 <= i <= s.len(),
    ensures
        i <= skip_ws(s, i) <= s.len(),
        skip_ws(s, i) < s.len() ==> !is_ws(s[skip_ws(s, i)]),
        forall|k: int| i <= k < skip_ws(s, i) ==> is_ws(s[k]),
    decreases s.len() - i,
{
    if i < s.len() && is_ws(s[i]) {
        lemma_skip_ws(s, i + 1);
    }
}

proof fn lemma_skip_word(s: Seq<char>, i: int)
    requires
        0 <= i <= s.len(),
    ensures
        i <= skip_word(s, i) <= s.len(),
        skip_word(s, i) < s.len() ==> is_ws(s[skip_word(s, i)]),
        forall|k: int| i <= k < skip_word(s, i) ==> !is_ws(s[k]),
    decreases s.len() - i,
{
    if i < s.len() && !is_ws(s[i]) {
        lemma_skip_word(s, i + 1);
    }
}

proof fn lemma_trim_end(s: Seq<char>, j: int)
    requires
        0 <= j <= s.len(),
    ensures
        0 <= trim_end_at(s, j) <= j,
        trim_end_at(s, j) > 0 ==> !is_ws(s[trim_end_at(s, j) - 1]),
        forall|k: int| trim_end_at(s, j) <= k < j ==> is_ws(s[k]),
    decreases j,
{
    if j > 0 && is_ws(s[j - 1]) {
        lemma_trim_end(s, j - 1);
    }
}

fn skip_ws_exec(v: &Vec<char>, i: usize) -> (r: usize)
    requires
        i <= v@.len(),
    ensures
        r == skip_ws(v@, i as int),
    decreases v@.len() - i,
{
    if i < v.len() && is_whitespace(v[i]) {
        skip_ws_exec(v, i + 1)
    } else {
        i
    }
}

fn skip_word_exec(v: &Vec<char>, i: usize) -> (r: usize)
    requires
        i <= v@.len(),
    ensures
        r == skip_word(v@, i as int),
    decreases v@.len() - i,
{
    if i < v.len() && !is_whitespace(v[i]) {
        skip_word_exec(v, i + 1)
    } else {
        i
    }
}

fn trim_end_exec(v: &Vec<char>, j: usize) -> (r: usize)
    requires
        j <= v@.len(),
    ensures
        r == trim_end_at(v@, j as int),
    decreases j,
{
    if j > 0 && is_whitespace(v[j - 1]) {
        trim_end_exec(v, j - 1)
    } else {
        j
    }
}

/// `s` without leading and trailing white space.
pub fn trim(s: &str) -> (r: String)
    ensures
        r@ == trimmed(s@),
{
    let v = chars_of(s);
    let a = skip_ws_exec(&v, 0);
    let b = trim_end_exec(&v, v.len());
    proof {
        lemma_skip_ws(v@, 0);
        lemma_trim_end(v@, v@.len() as int);
    }
    if a >= b {
        String::new()
    } else {
        string_of(&v, a, b)
    }
}

/// The white-space separated words of `s`.
pub fn split_whitespace(s: &str) -> (r: Vec<String>)
    ensures
        views(r@) == words(s@),
{
    let v = chars_of(s);
    let mut out: Vec<String> = Vec::new();
    let mut i: usize = 0;
    loop
        invariant
            v@ == s@,
            i <= v@.len(),
            views(out@) + words_from(v@, i as int) == words(v@),
        decreases v@.len() - i,
    {
        let a = skip_ws_exec(&v, i);
        proof { lemma_skip_ws(v@, i as int); }
        if a >= v.len() {
            assert(words_from(v@, i as int) =~= Seq::<Seq<char>>::empty());
            assert(views(out@) + words_from(v@, i as int) =~= views(out@));
            return out;
        }
        let b = skip_word_exec(&v, a);
        proof { lemma_skip_word(v@, a as int); }
        let w = string_of(&v, a, b);
        let ghost before = views(out@);
        out.push(w);
        assert(views(out@) =~= before.push(w@));
        assert(words_from(v@, i as int) == seq![w@].add(words_from(v@, b as int)));
        assert(before + words_from(v@, i as int) =~= views(out@) + words_from(v@, b as int));
        i = b;
    }
}

/// `s` with every white-space character removed.
pub open spec fn no_ws(s: Seq<char>) -> Seq<char> {
    s.filter(|c: char| !is_ws(c))
}

/// `s` with every white-space character removed.
pub fn remove_whitespace(s: &str) -> (r: String)
    ensures
        r@ == no_ws(s@),
{
    let v = chars_of(s);
    let mut out = String::new();
    let mut i: usize = 0;
    while i < v.len()
        invariant
            i <= v@.len(),
            out@ == no_ws(v@.take(i as int)),
        decreases v@.len() - i,
    {
        let c = v[i];
        proof {
            reveal_with_fuel(Seq::filter, 1);
            assert(v@.take(i + 1).drop_last() =~= v@.take(i as int));
        }
        if !is_whitespace(c) {
            push_char(&mut out, c);
        }
        i = i + 1;
    }
    assert(v@.take(v@.len() as int) =~= v@);
    out
}

/// Whether `s` begins with `p` (`str::starts_with`).
pub fn has_prefix(s: &str, p: &str) -> (r: bool)
    ensures
        r == (p@.len() <= s@.len() && s@.take(p@.len() as int) == p@),
{
    let a = chars_of(s);
    let b = chars_of(p);
    if b.len() > a.len() {
        return false;
    }
    let mut k: usize = 0;
    while k < b.len()
        invariant
            a@ == s@,
            b@ == p@,
            b@.len() <= a@.len(),
            k <= b@.len(),
            forall|q: int| 0 <= q < k ==> a@[q] == b@[q],
        decreases b@.len() - k,
    {
        if a[k] != b[k] {
            assert(s@.take(p@.len() as int)[k as int] != p@[k as int]);
            return false;
        }
        k = k + 1;
    }
    assert(s@.take(p@.len() as int) =~= p@);
    true
}

/// Whether `s` ends with `p` (`str::ends_with`).
pub fn has_suffix(s: &str, p: &str) -> (r: bool)
    ensures
        r == (p@.len() <= s@.len() && s@.skip(s@.len() - p@.len()) == p@),
{
    let a = chars_of(s);
    let b = chars_of(p);
    if b.len() > a.len() {
        return false;
    }
    let off = a.len() - b.len();
    let mut k: usize = 0;
    while k < b.len()
        invariant
            a@ == s@,
            b@ == p@,
            b@.len() <= a@.len(),
            a@.len() <= usize::MAX,
            off == a@.len() - b@.len(),
            k <= b@.len(),
            forall|q: int| 0 <= q < k ==> a@[off + q] == b@[q],
        decreases b@.len() - k,
    {
        if a[off + k] != b[k] {
            assert(s@.skip(off as int)[k as int] != p@[k as int]);
            return false;
        }
        k = k + 1;
    }
    assert(s@.skip(off as int) =~= p@);
    true
}

} // verus!
