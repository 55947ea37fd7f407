//! Text as sequences of characters: search, trimming and replacement.
//!
//! Every operation works on `char` positions; a `String` is turned into a
//! `Vec<char>` at the boundary and back again.
use vstd::prelude::*;

verus! {

/// std's `String::push`: the character is added at the end of the string, as
/// its documentation says.
pub assume_specification[ std::string::String::push ](s: &mut std::string::String, ch: char)
    ensures
        final(s)@ == old(s)@.push(ch),
;

/// The characters of `s`, in order.
pub fn to_chars(s: &str) -> (r: Vec<char>)
    ensures
        r@ == s@,
{
    let mut r: Vec<char> = Vec::new();
    for c in it: s.chars()
        invariant
            r@ == it.seq().take(it.index() as int),
            it.seq() == s@,
    {
        r.push(c);
    }
    r
}

/// The string made of the characters of `v`, in order.
pub fn from_chars(v: &[char]) -> (r: String)
    ensures
        r@ == v@,
{
    let mut r = String::new();
    let mut i: usize = 0;
    while i < v.len()
        invariant
            i <= v.len(),
            r@ == v@.take(i as int),
        decreases v.len() - i,
    {
        r.push(v[i]);
        i += 1;
        assert(v@.take(i as int) == v@.take(i - 1).push(v@[i - 1]));
    }
    assert(v@.take(v.len() as int) == v@);
    r
}

/// Unicode `White_Space`, the set that `str::trim` strips.
pub open spec fn is_space(c: char) -> bool {
    ||| ('\u{9}' <= c && c <= '\u{d}')
    ||| c == ' '
    ||| c == '\u{85}'
    ||| c == '\u{a0}'
    ||| c == '\u{1680}'
    ||| ('\u{2000}' <= c && c <= '\u{200a}')
    ||| c == '\u{2028}'
    ||| c == '\u{2029}'
    ||| c == '\u{202f}'
    ||| c == '\u{205f}'
    ||| c == '\u{3000}'
}

pub fn char_is_space(c: char) -> (r: bool)
    ensures
        r == is_space(c),
{
    ('\u{9}' <= c && c <= '\u{d}') || c == ' ' || c == '\u{85}' || c == '\u{a0}' || c
        == '\u{1680}' || ('\u{2000}' <= c && c <= '\u{200a}') || c == '\u{2028}' || c
        == '\u{2029}' || c == '\u{202f}' || c == '\u{205f}' || c == '\u{3000}'
}

/// The text holds nothing but white space (its trimmed form is empty).
pub open spec fn is_blank(s: Seq<char>) -> bool {
    forall|i: int| 0 <= i < s.len() ==> #[trigger] is_space(s[i])
}

/// The text without its trailing white space.
pub open spec fn trim_end(s: Seq<char>) -> Seq<char>
    decreases s.len(),
{
    if s.len() > 0 && is_space(s.last()) {
        trim_end(s.drop_last())
    } else {
        s
    }
}

pub proof fn lemma_trim_end_prefix(s: Seq<char>)
    ensures
        trim_end(s).len() <= s.len(),
        trim_end(s) == s.take(trim_end(s).len() as int),
        trim_end(s).len() > 0 ==> !is_space(trim_end(s).last()),
        trim_end(s).len() == 0 <==> is_blank(s),
        forall|i: int| trim_end(s).len() <= i < s.len() ==> #[trigger] is_space(s[i]),
    decreases s.len(),
{
    if s.len() > 0 && is_space(s.last()) {
        lemma_trim_end_prefix(s.drop_last());
        assert(s.drop_last().take(trim_end(s).len() as int) == s.take(trim_end(s).len() as int));
        if trim_end(s).len() == 0 {
            assert forall|i: int| 0 <= i < s.len() implies #[trigger] is_space(s[i]) by {
                if i < s.len() - 1 {
                    assert(is_space(s.drop_last()[i]));
                }
            }
        }
        assert forall|i: int| trim_end(s).len() <= i < s.len() implies #[trigger] is_space(s[i]) by {
            if i < s.len() - 1 {
                assert(is_space(s.drop_last()[i]));
            }
        }
        if is_blank(s) {
            assert forall|i: int| 0 <= i < s.drop_last().len() implies #[trigger] is_space(
                s.drop_last()[i],
            ) by {
                assert(is_space(s[i]));
            }
        }
    } else {
        assert(s.take(s.len() as int) == s);
        if s.len() > 0 {
            assert(!is_space(s[s.len() - 1]));
        }
    }
}

/// Number of characters left when the trailing white space of `s` is cut.
pub fn trim_end_len(s: &[char]) -> (n: usize)
    ensures
        n <= s.len(),
        n == trim_end(s@).len(),
        s@.take(n as int) == trim_end(s@),
{
    proof {
        lemma_trim_end_prefix(s@);
    }
    let mut n = s.len();
    assert(s@.take(n as int) == s@);
    while n > 0 && char_is_space(s[n - 1])
        invariant
            n <= s.len(),
            trim_end(s@) == trim_end(s@.take(n as int)),
        decreases n,
    {
        assert(s@.take(n as int).drop_last() == s@.take(n - 1));
        n -= 1;
    }
    proof {
        assert(trim_end(s@.take(n as int)) == s@.take(n as int));
    }
    n
}

/// The text without its leading white space.
pub open spec fn trim_start(s: Seq<char>) -> Seq<char>
    decreases s.len(),
{
    if s.len() > 0 && is_space(s[0]) {
        trim_start(s.skip(1))
    } else {
        s
    }
}

/// Number of leading white-space characters of `s`.
pub fn trim_start_len(s: &[char]) -> (n: usize)
    ensures
        n <= s.len(),
        s@.skip(n as int) == trim_start(s@),
{
    let mut n: usize = 0;
    assert(s@.skip(0) == s@);
    while n < s.len() && char_is_space(s[n])
        invariant
            n <= s.len(),
            trim_start(s@) == trim_start(s@.skip(n as int)),
        decreases s.len() - n,
    {
        assert(s@.skip(n as int).skip(1) == s@.skip(n + 1));
        n += 1;
    }
    n
}

/// `str::trim`: the text without its leading and trailing white space.
pub fn trim(s: &str) -> (r: String)
    ensures
        r@ == trim_start(trim_end(s@)),
{
    let v = to_chars(s);
    let e = trim_end_len(&v);
    let t = slice_vec(&v, 0, e);
    assert(v@.subrange(0, e as int) == trim_end(s@));
    let b = trim_start_len(&t);
    let u = slice_vec(&t, b, t.len());
    assert(t@.subrange(b as int, t@.len() as int) == t@.skip(b as int));
    from_chars(&u)
}

pub fn blank(s: &[char]) -> (r: bool)
    ensures
        r == is_blank(s@),
{
    let mut i: usize = 0;
    while i < s.len()
        invariant
            i <= s.len(),
            forall|j: int| 0 <= j < i ==> #[trigger] is_space(s@[j]),
        decreases s.len() - i,
    {
        if !char_is_space(s[i]) {
            return false;
        }
        i += 1;
    }
    true
}

/// `pat` stands in `s` at position `i`.
pub open spec fn occurs_at(s: Seq<char>, pat: Seq<char>, i: int) -> bool {
    0 <= i && i + pat.len() <= s.len() && s.subrange(i, i + pat.len()) == pat
}

/// `pat` stands somewhere in `s`.
pub open spec fn contains(s: Seq<char>, pat: Seq<char>) -> bool {
    exists|i: int| occurs_at(s, pat, i)
}

/// `i` is the first position at which `pat` stands in `s`.
pub open spec fn is_first_occurrence(s: Seq<char>, pat: Seq<char>, i: int) -> bool {
    occurs_at(s, pat, i) && forall|j: int| 0 <= j < i ==> !occurs_at(s, pat, j)
}

/// The first position of `pat` in `s`, as `str::find` gives it (counted in characters).
pub open spec fn first_index(s: Seq<char>, pat: Seq<char>) -> Option<int> {
    if contains(s, pat) {
        Some(choose|i: int| is_first_occurrence(s, pat, i))
    } else {
        None
    }
}

pub proof fn lemma_first_exists(s: Seq<char>, pat: Seq<char>, k: int)
    requires
        occurs_at(s, pat, k),
    ensures
        exists|i: int| is_first_occurrence(s, pat, i),
    decreases k,
{
    if exists|j: int| 0 <= j < k && occurs_at(s, pat, j) {
        let j = choose|j: int| 0 <= j < k && occurs_at(s, pat, j);
        lemma_first_exists(s, pat, j);
    } else {
        assert(is_first_occurrence(s, pat, k));
    }
}

pub proof fn lemma_first_unique(s: Seq<char>, pat: Seq<char>, i: int, j: int)
    requires
        is_first_occurrence(s, pat, i),
        is_first_occurrence(s, pat, j),
    ensures
        i == j,
{
    if i < j {
        assert(!occurs_at(s, pat, i));
    } else if j < i {
        assert(!occurs_at(s, pat, j));
    }
}

/// `first_index` is exactly the first occurrence, when there is one.
pub proof fn lemma_first_index(s: Seq<char>, pat: Seq<char>)
    ensures
        match first_index(s, pat) {
            Some(i) => is_first_occurrence(s, pat, i),
            None => forall|j: int| !occurs_at(s, pat, j),
        },
        forall|i: int| is_first_occurrence(s, pat, i) ==> first_index(s, pat) == Some(i),
{
    if contains(s, pat) {
        let k = choose|k: int| occurs_at(s, pat, k);
        lemma_first_exists(s, pat, k);
        let i = choose|i: int| is_first_occurrence(s, pat, i);
        assert forall|j: int| is_first_occurrence(s, pat, j) implies first_index(s, pat) == Some(
            j,
        ) by {
            lemma_first_unique(s, pat, i, j);
        }
    }
}

fn matches_at(s: &[char], pat: &[char], i: usize) -> (r: bool)
    requires
        i <= s.len(),
    ensures
        r == occurs_at(s@, pat@, i as int),
{
    if pat.len() > s.len() - i {
        return false;
    }
    let mut k: usize = 0;
    while k < pat.len()
        invariant
            i + pat.len() <= s.len(),
            k <= pat.len(),
            forall|m: int| 0 <= m < k ==> s@[i + m] == pat@[m],
        decreases pat.len() - k,
    {
        if s[i + k] != pat[k] {
            assert(s@.subrange(i as int, i + pat.len())[k as int] != pat@[k as int]);
            return false;
        }
        k += 1;
    }
    assert(s@.subrange(i as int, i + pat.len()) == pat@);
    true
}

/// The first position of `pat` in `s`, as `str::find` gives it.
pub fn find(s: &[char], pat: &[char]) -> (r: Option<usize>)
    ensures
        r == (match first_index(s@, pat@) {
            Some(i) => Some(i as usize),
            None => None::<usize>,
        }),
        r matches Some(i) ==> is_first_occurrence(s@, pat@, i as int),
{
    proof {
        lemma_first_index(s@, pat@);
    }
    let mut i: usize = 0;
    loop
        invariant
            i <= s.len(),
            forall|j: int| 0 <= j < i ==> !occurs_at(s@, pat@, j),
        ensures
            forall|j: int| 0 <= j <= s.len() ==> !occurs_at(s@, pat@, j),
        decreases s.len() - i,
    {
        if matches_at(s, pat, i) {
            assert(is_first_occurrence(s@, pat@, i as int));
            return Some(i);
        }
        if i == s.len() {
            break;
        }
        i += 1;
    }
    assert forall|j: int| !occurs_at(s@, pat@, j) by {
        if 0 <= j && j <= s.len() {
        } else if j > s.len() {
            assert(j + pat@.len() > s@.len());
        }
    }
    None
}

pub fn contains_exec(s: &[char], pat: &[char]) -> (r: bool)
    ensures
        r == contains(s@, pat@),
{
    proof {
        lemma_first_index(s@, pat@);
    }
    match find(s, pat) {
        Some(_) => true,
        None => false,
    }
}

/// `str::replace`: every non-overlapping occurrence of `from`, leftmost first,
/// is replaced by `to`; an empty `from` matches before every character and at
/// the end.
pub open spec fn replace_all(s: Seq<char>, from: Seq<char>, to: Seq<char>) -> Seq<char>
    decreases s.len(), 1nat,
{
    if from.len() == 0 {
        replace_empty(s, to)
    } else if s.len() == 0 {
        s
    } else if occurs_at(s, from, 0) {
        to + replace_all(s.skip(from.len() as int), from, to)
    } else {
        seq![s[0]] + replace_all(s.skip(1), from, to)
    }
}

pub open spec fn replace_empty(s: Seq<char>, to: Seq<char>) -> Seq<char>
    decreases s.len(), 0nat,
{
    if s.len() == 0 {
        to
    } else {
        to + seq![s[0]] + replace_empty(s.skip(1), to)
    }
}

/// `str::replace`.
pub fn replace(s: &[char], from: &[char], to: &[char]) -> (r: Vec<char>)
    ensures
        r@ == replace_all(s@, from@, to@),
{
    let mut out: Vec<char> = Vec::new();
    let mut i: usize = 0;
    assert(s@.skip(0) == s@);
    if from.len() == 0 {
        while i < s.len()
            invariant
                from@.len() == 0,
                i <= s.len(),
                out@ + replace_empty(s@.skip(i as int), to@) == replace_all(s@, from@, to@),
            decreases s.len() - i,
        {
            let ghost before = out@;
            assert(s@.skip(i as int).skip(1) == s@.skip(i + 1));
            push_all(&mut out, to);
            out.push(s[i]);
            i += 1;
            assert(before + replace_empty(s@.skip(i - 1), to@) == out@ + replace_empty(
                s@.skip(i as int),
                to@,
            ));
        }
        push_all(&mut out, to);
        assert(s@.skip(i as int).len() == 0);
        return out;
    }
    while i < s.len()
        invariant
            from@.len() > 0,
            i <= s.len(),
            out@ + replace_all(s@.skip(i as int), from@, to@) == replace_all(s@, from@, to@),
        decreases s.len() - i,
    {
        let ghost before = out@;
        let ghost rest = s@.skip(i as int);
        if matches_at(s, from, i) {
            assert(rest.subrange(0, from@.len() as int) == s@.subrange(
                i as int,
                i + from@.len(),
            ));
            assert(rest.skip(from@.len() as int) == s@.skip(i + from@.len()));
            push_all(&mut out, to);
            i += from.len();
        } else {
            assert(!occurs_at(rest, from@, 0)) by {
                if occurs_at(rest, from@, 0) {
                    assert(rest.subrange(0, from@.len() as int) == s@.subrange(
                        i as int,
                        i + from@.len(),
                    ));
                }
            }
            assert(rest.skip(1) == s@.skip(i + 1));
            out.push(s[i]);
            i += 1;
        }
        assert(before + replace_all(rest, from@, to@) == out@ + replace_all(
            s@.skip(i as int),
            from@,
            to@,
        ));
    }
    assert(s@.skip(i as int).len() == 0);
    assert(out@ + Seq::<char>::empty() == out@);
    out
}

/// Appends every character of `src` to `dst`.
pub fn push_all(dst: &mut Vec<char>, src: &[char])
    ensures
        final(dst)@ == old(dst)@ + src@,
{
    let mut i: usize = 0;
    while i < src.len()
        invariant
            i <= src.len(),
            dst@ == old(dst)@ + src@.take(i as int),
        decreases src.len() - i,
    {
        dst.push(src[i]);
        i += 1;
        assert(src@.take(i as int) == src@.take(i - 1).push(src@[i - 1]));
    }
    assert(src@.take(src.len() as int) == src@);
}

/// `s` begins with `p`.
pub open spec fn starts_with(s: Seq<char>, p: Seq<char>) -> bool {
    p.len() <= s.len() && s.take(p.len() as int) == p
}

/// `s` ends with `p`.
pub open spec fn ends_with(s: Seq<char>, p: Seq<char>) -> bool {
    p.len() <= s.len() && s.skip(s.len() - p.len()) == p
}

pub fn starts_with_exec(s: &[char], p: &[char]) -> (r: bool)
    ensures
        r == starts_with(s@, p@),
{
    let r = matches_at(s, p, 0);
    proof {
        if r {
            assert(s@.take(p@.len() as int) == s@.subrange(0, p@.len() as int));
        } else if starts_with(s@, p@) {
            assert(s@.take(p@.len() as int) == s@.subrange(0, p@.len() as int));
        }
    }
    r
}

pub fn ends_with_exec(s: &[char], p: &[char]) -> (r: bool)
    ensures
        r == ends_with(s@, p@),
{
    if p.len() > s.len() {
        return false;
    }
    let r = matches_at(s, p, s.len() - p.len());
    proof {
        assert(s@.skip(s@.len() - p@.len()) == s@.subrange(
            s@.len() - p@.len(),
            (s@.len() - p@.len()) + p@.len(),
        ));
    }
    r
}

/// The characters of `s` from `start` (inclusive) to `end` (exclusive).
pub fn slice_vec(s: &[char], start: usize, end: usize) -> (r: Vec<char>)
    requires
        start <= end <= s.len(),
    ensures
        r@ == s@.subrange(start as int, end as int),
{
    let mut r: Vec<char> = Vec::new();
    let mut i = start;
    while i < end
        invariant
            start <= i <= end <= s.len(),
            r@ == s@.subrange(start as int, i as int),
        decreases end - i,
    {
        r.push(s[i]);
        i += 1;
        assert(s@.subrange(start as int, i as int) == s@.subrange(start as int, i - 1).push(
            s@[i - 1],
        ));
    }
    r
}

} // verus!

verus! {

/// The two texts are the same.
pub fn same_text(a: &str, b: &str) -> (r: bool)
    ensures
        r == (a@ == b@),
{
    let x = String::from_str(a);
    let y = String::from_str(b);
    x == y
}

/// `a` followed by `b`.
pub fn concat(a: &str, b: &str) -> (r: String)
    ensures
        r@ == a@ + b@,
{
    let mut r = String::from_str(a);
    r.append(b);
    r
}

/// The texts joined, with `sep` between each two of them.
pub open spec fn joined(parts: Seq<Seq<char>>, sep: Seq<char>) -> Seq<char>
    decreases parts.len(),
{
    if parts.len() == 0 {
        Seq::empty()
    } else if parts.len() == 1 {
        parts[0]
    } else {
        joined(parts.drop_last(), sep) + sep + parts.last()
    }
}

/// `slice::join`: the texts joined with `sep` between each two of them.
pub fn join(parts: &Vec<String>, sep: &str) -> (r: String)
    ensures
        r@ == joined(parts@.map_values(|s: String| s@), sep@),
{
    let ghost views = parts@.map_values(|s: String| s@);
    let mut r = String::new();
    let mut i: usize = 0;
    while i < parts.len()
        invariant
            i <= parts.len(),
            views == parts@.map_values(|s: String| s@),
            r@ == joined(views.take(i as int), sep@),
        decreases parts.len() - i,
    {
        if i > 0 {
            r.append(sep);
        }
        r.append(parts[i].as_str());
        proof {
            assert(views.take(i + 1).drop_last() == views.take(i as int));
            if i == 0 {
                assert(views.take(1) == seq![views[0]]);
            }
        }
        i += 1;
    }
    assert(views.take(parts.len() as int) == views);
    r
}

} // verus!

verus! {

/// An optional text as an optional sequence of characters.
pub open spec fn opt_view(o: Option<String>) -> Option<Seq<char>> {
    match o {
        Some(s) => Some(s@),
        None => None,
    }
}

/// An optional pair of texts as an optional pair of sequences.
pub open spec fn opt_pair_view(o: Option<(String, String)>) -> Option<(Seq<char>, Seq<char>)> {
    match o {
        Some((a, b)) => Some((a@, b@)),
        None => None,
    }
}

} // verus!

verus! {

/// The last position of `c` in `s`.
pub open spec fn last_index(s: Seq<char>, c: char) -> Option<int>
    decreases s.len(),
{
    if s.len() == 0 {
        None
    } else if s.last() == c {
        Some(s.len() - 1)
    } else {
        last_index(s.drop_last(), c)
    }
}

/// What follows the last `c` in `s`, or all of `s` when it holds no `c`
/// (`rsplit_once`).
pub fn after_last(s: &str, c: char) -> (r: String)
    ensures
        r@ == match last_index(s@, c) {
            Some(i) => s@.skip(i + 1),
            None => s@,
        },
{
    let v = to_chars(s);
    let mut n = v.len();
    assert(v@.take(n as int) == v@);
    while n > 0 && v[n - 1] != c
        invariant
            n <= v.len(),
            last_index(v@, c) == last_index(v@.take(n as int), c),
        decreases n,
    {
        assert(v@.take(n as int).drop_last() == v@.take(n - 1));
        n -= 1;
    }
    if n == 0 {
        return String::from_str(s);
    }
    assert(v@.take(n as int).last() == c);
    let r = slice_vec(&v, n, v.len());
    assert(v@.subrange(n as int, v@.len() as int) == v@.skip(n as int));
    from_chars(&r)
}

} // verus!
