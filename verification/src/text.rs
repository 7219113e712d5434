//! Character-level helpers: views of strings as `Seq<char>`, and the few
//! character classes the name rules need.

use vstd::prelude::*;

verus! {

/// `String::push`: trusted to leave the string's old characters followed
/// by `c`, as its documentation says.
#[verifier::external_body]
pub(crate) fn push_char(s: &mut String, c: char)
    ensures
        final(s)@ == old(s)@.push(c),
{
    s.push(c);
}

/// The characters of a string slice, in order.
pub fn chars_of(s: &str) -> (v: Vec<char>)
    ensures
        v@ == s@,
{
    let mut v: Vec<char> = Vec::new();
    for c in it: s.chars()
        invariant
            v@ == it.seq().take(it.index() as int),
    {
        v.push(c);
    }
    v
}

} // verus!

verus! {

/// A string holding exactly the given characters.
pub fn string_from_chars(v: &[char]) -> (s: String)
    ensures
        s@ == v@,
{
    let mut s = String::new();
    let mut i: usize = 0;
    while i < v.len()
        invariant
            i <= v@.len(),
            s@ == v@.take(i as int),
        decreases v@.len() - i,
    {
        push_char(&mut s, v[i]);
        i = i + 1;
        assert(v@.take(i as int) =~= v@.take((i - 1) as int).push(v@[i - 1]));
    }
    assert(v@.take(v@.len() as int) =~= v@);
    s
}

/// Unicode `White_Space` (the class that `char::is_whitespace` and
/// `str::trim` use).
pub open spec fn is_white_space(c: char) -> bool {
    let u = c as u32;
    ||| 0x09 <= u <= 0x0d
    ||| u == 0x20
    ||| u == 0x85
    ||| u == 0xa0
    ||| u == 0x1680
    ||| 0x2000 <= u <= 0x200a
    ||| u == 0x2028
    ||| u == 0x2029
    ||| u == 0x202f
    ||| u == 0x205f
    ||| u == 0x3000
}

/// Unicode general category `Cc` (the class that `char::is_control` tests).
pub open spec fn is_control(c: char) -> bool {
    let u = c as u32;
    u <= 0x1f || (0x7f <= u <= 0x9f)
}

/// Drops leading white space.
pub open spec fn trim_start(s: Seq<char>) -> Seq<char>
    decreases s.len(),
{
    if s.len() > 0 && is_white_space(s[0]) {
        trim_start(s.drop_first())
    } else {
        s
    }
}

/// Drops trailing white space.
pub open spec fn trim_end(s: Seq<char>) -> Seq<char>
    decreases s.len(),
{
    if s.len() > 0 && is_white_space(s.last()) {
        trim_end(s.drop_last())
    } else {
        s
    }
}

/// What `str::trim` leaves of a string.
pub open spec fn trim(s: Seq<char>) -> Seq<char> {
    trim_end(trim_start(s))
}

pub fn is_white_space_char(c: char) -> (b: bool)
    ensures
        b == is_white_space(c),
{
    let u = c as u32;
    (0x09 <= u && u <= 0x0d) || u == 0x20 || u == 0x85 || u == 0xa0 || u == 0x1680
        || (0x2000 <= u && u <= 0x200a) || u == 0x2028 || u == 0x2029 || u == 0x202f
        || u == 0x205f || u == 0x3000
}

pub fn is_control_char(c: char) -> (b: bool)
    ensures
        b == is_control(c),
{
    let u = c as u32;
    u <= 0x1f || (0x7f <= u && u <= 0x9f)
}

proof fn lemma_trim_start_skip(s: Seq<char>, i: int)
    requires
        0 <= i <= s.len(),
        forall|j: int| 0 <= j < i ==> is_white_space(#[trigger] s[j]),
    ensures
        trim_start(s) == trim_start(s.subrange(i, s.len() as int)),
    decreases i,
{
    if i > 0 {
        assert(s.subrange(1, s.len() as int) =~= s.drop_first());
        lemma_trim_start_skip(s.drop_first(), i - 1);
        assert(s.drop_first().subrange(i - 1, s.drop_first().len() as int) =~= s.subrange(
            i,
            s.len() as int,
        ));
    } else {
        assert(s.subrange(0, s.len() as int) =~= s);
    }
}

proof fn lemma_trim_end_cut(s: Seq<char>, k: int)
    requires
        0 <= k <= s.len(),
        forall|j: int| k <= j < s.len() ==> is_white_space(#[trigger] s[j]),
    ensures
        trim_end(s) == trim_end(s.take(k)),
    decreases s.len() - k,
{
    if k < s.len() {
        assert(s.drop_last().take(k) =~= s.take(k));
        lemma_trim_end_cut(s.drop_last(), k);
    } else {
        assert(s.take(k) =~= s);
    }
}

/// The bounds `(lo, hi)` of what `str::trim` keeps.
pub fn trim_bounds(v: &[char]) -> (r: (usize, usize))
    ensures
        r.0 <= r.1 <= v@.len(),
        v@.subrange(r.0 as int, r.1 as int) == trim(v@),
{
    let n = v.len();
    let mut lo: usize = 0;
    while lo < n && is_white_space_char(v[lo])
        invariant
            lo <= n == v@.len(),
            forall|j: int| 0 <= j < lo ==> is_white_space(#[trigger] v@[j]),
        decreases n - lo,
    {
        lo = lo + 1;
    }
    proof {
        lemma_trim_start_skip(v@, lo as int);
        if lo < n {
            assert(trim_start(v@.subrange(lo as int, n as int)) == v@.subrange(lo as int, n as int));
        } else {
            assert(v@.subrange(lo as int, n as int).len() == 0);
        }
    }
    let ghost t = v@.subrange(lo as int, n as int);
    let mut hi: usize = n;
    while hi > lo && is_white_space_char(v[hi - 1])
        invariant
            lo <= hi <= n == v@.len(),
            t == v@.subrange(lo as int, n as int),
            forall|j: int| hi <= j < n ==> is_white_space(#[trigger] v@[j]),
        decreases hi,
    {
        hi = hi - 1;
    }
    proof {
        assert forall|j: int| (hi - lo) <= j < t.len() implies is_white_space(#[trigger] t[j]) by {
            assert(t[j] == v@[j + lo]);
        }
        lemma_trim_end_cut(t, hi - lo);
        assert(t.take(hi - lo) =~= v@.subrange(lo as int, hi as int));
        let u = v@.subrange(lo as int, hi as int);
        if hi > lo {
            assert(!is_white_space(u.last()));
        }
    }
    (lo, hi)
}

} // verus!

verus! {

/// What `str::trim` returns, as an owned string.
pub fn trim_string(s: &str) -> (r: String)
    ensures
        r@ == trim(s@),
{
    let v = chars_of(s);
    let (lo, hi) = trim_bounds(&v);
    let mut r = String::new();
    let mut i = lo;
    while i < hi
        invariant
            lo <= i <= hi <= v@.len(),
            r@ == v@.subrange(lo as int, i as int),
        decreases hi - i,
    {
        push_char(&mut r, v[i]);
        i = i + 1;
        assert(r@ =~= v@.subrange(lo as int, i as int));
    }
    r
}

/// Two strings with the same characters.
pub fn same_text(a: &String, b: &String) -> (r: bool)
    ensures
        r == (a@ == b@),
{
    a.eq(b)
}

/// `a` followed by `b`.
pub fn joined(a: &str, b: &str) -> (r: String)
    ensures
        r@ == a@ + b@,
{
    let mut r = String::from_str(a);
    r.append(b);
    r
}

/// `a`, `b` and `c` in a row.
pub fn joined3(a: &str, b: &str, c: &str) -> (r: String)
    ensures
        r@ == a@ + b@ + c@,
{
    let mut r = String::from_str(a);
    r.append(b);
    r.append(c);
    r
}

/// Unicode lower case of a whole string, as `str::to_lowercase` gives it.
pub uninterp spec fn lowercase(s: Seq<char>) -> Seq<char>;

/// `str::to_lowercase`: trusted to return [`lowercase`] of the argument's
/// characters, a name for the result; which characters the Unicode case
/// tables map to which is not stated here.
#[verifier::external_body]
pub fn to_lowercase(s: &str) -> (r: String)
    ensures
        r@ == lowercase(s@),
{
    s.to_lowercase()
}

/// Number of UTF-16 code units that encode `s` (`encode_utf16().count()`).
pub open spec fn utf16_len(s: Seq<char>) -> nat
    decreases s.len(),
{
    if s.len() == 0 {
        0
    } else {
        utf16_len(s.drop_last()) + if (s.last() as u32) >= 0x10000 { 2nat } else { 1nat }
    }
}

} // verus!

verus! {

/// `p` begins `s`.
pub open spec fn is_prefix(p: Seq<char>, s: Seq<char>) -> bool {
    p.len() <= s.len() && s.take(p.len() as int) == p
}

/// `needle` occurs in `s` at some position (`str::contains`).
pub open spec fn occurs_in(needle: Seq<char>, s: Seq<char>) -> bool {
    exists|i: int|
        0 <= i && i + needle.len() <= s.len() && #[trigger] s.subrange(i, i + needle.len()) == needle
}

/// Whether `s[at..]` begins with `p`.
fn matches_at(s: &[char], at: usize, p: &[char]) -> (r: bool)
    requires
        at <= s@.len(),
    ensures
        r == (at + p@.len() <= s@.len() && s@.subrange(at as int, at + p@.len()) == p@),
{
    if p.len() > s.len() - at {
        return false;
    }
    let mut i: usize = 0;
    while i < p.len()
        invariant
            at + p@.len() <= s.len(),
            i <= p@.len(),
            forall|j: int| 0 <= j < i ==> s@[at + j] == p@[j],
        decreases p@.len() - i,
    {
        if s[at + i] != p[i] {
            assert(s@.subrange(at as int, at + p@.len())[i as int] != p@[i as int]);
            return false;
        }
        i = i + 1;
    }
    assert(s@.subrange(at as int, at + p@.len()) =~= p@);
    true
}

/// Whether `s` begins with `p` (`str::starts_with`).
pub fn starts_with_chars(s: &[char], p: &[char]) -> (r: bool)
    ensures
        r == is_prefix(p@, s@),
{
    let r = matches_at(s, 0, p);
    assert(s@.take(p@.len() as int) =~= s@.subrange(0, p@.len() as int));
    r
}

/// Whether `needle` occurs in `s` (`str::contains`).
pub fn contains_chars(s: &[char], needle: &[char]) -> (r: bool)
    ensures
        r == occurs_in(needle@, s@),
{
    if needle.len() > s.len() {
        return false;
    }
    if needle.len() == 0 {
        assert(s@.subrange(0int, 0int + needle@.len()) =~= needle@);
        return true;
    }
    let last = s.len() - needle.len();
    let mut i: usize = 0;
    while i <= last
        invariant
            last + needle@.len() == s.len(),
            needle@.len() > 0,
            i <= last + 1,
            forall|j: int| 0 <= j < i ==> #[trigger] s@.subrange(j, j + needle@.len()) != needle@,
        decreases last + 1 - i,
    {
        if matches_at(s, i, needle) {
            return true;
        }
        i = i + 1;
    }
    false
}

} // verus!

verus! {

/// The pieces of `s` between occurrences of `sep` (`str::split`); there is
/// always at least one piece.
pub open spec fn split_on(s: Seq<char>, sep: char) -> Seq<Seq<char>>
    decreases s.len(),
{
    if s.len() == 0 {
        seq![Seq::empty()]
    } else if s[0] == sep {
        seq![Seq::empty()] + split_on(s.drop_first(), sep)
    } else {
        let rest = split_on(s.drop_first(), sep);
        rest.update(0, seq![s[0]] + rest[0])
    }
}

pub proof fn lemma_split_on_nonempty(s: Seq<char>, sep: char)
    ensures
        split_on(s, sep).len() >= 1,
    decreases s.len(),
{
    if s.len() > 0 {
        lemma_split_on_nonempty(s.drop_first(), sep);
    }
}

/// `l` with `c` put in front of its first piece.
pub open spec fn prefix_first(c: Seq<char>, l: Seq<Seq<char>>) -> Seq<Seq<char>> {
    l.update(0, c + l[0])
}

/// The pieces of `s` between occurrences of `sep`.
pub fn split_chars(s: &[char], sep: char) -> (r: Vec<Vec<char>>)
    ensures
        r@.map_values(|p: Vec<char>| p@) == split_on(s@, sep),
{
    let mut pieces: Vec<Vec<char>> = Vec::new();
    let mut current: Vec<char> = Vec::new();
    let mut i: usize = 0;
    proof {
        lemma_split_on_nonempty(s@, sep);
        assert(s@.skip(0) =~= s@);
        assert(prefix_first(current@, split_on(s@, sep)) =~= split_on(s@, sep));
    }
    while i < s.len()
        invariant
            i <= s@.len(),
            split_on(s@, sep) == pieces@.map_values(|p: Vec<char>| p@) + prefix_first(
                current@,
                split_on(s@.skip(i as int), sep),
            ),
        decreases s@.len() - i,
    {
        let ghost tail = s@.skip(i as int);
        proof {
            assert(tail.drop_first() =~= s@.skip(i + 1));
            assert(tail[0] == s@[i as int]);
            lemma_split_on_nonempty(s@.skip(i + 1), sep);
        }
        if s[i] == sep {
            let ghost old_pieces = pieces@.map_values(|p: Vec<char>| p@);
            let ghost old_current = current@;
            pieces.push(current);
            current = Vec::new();
            proof {
                let rest = split_on(s@.skip(i + 1), sep);
                assert(split_on(tail, sep) == seq![Seq::<char>::empty()] + rest);
                assert(pieces@.map_values(|p: Vec<char>| p@) =~= old_pieces.push(old_current));
                assert(prefix_first(current@, rest) =~= rest);
                assert(prefix_first(old_current, seq![Seq::<char>::empty()] + rest) =~= seq![old_current] + rest);
                assert(old_pieces + (seq![old_current] + rest) =~= old_pieces.push(old_current) + rest);
            }
        } else {
            let ghost old_current = current@;
            current.push(s[i]);
            proof {
                let rest = split_on(s@.skip(i + 1), sep);
                assert(split_on(tail, sep) == rest.update(0, seq![s@[i as int]] + rest[0]));
                assert(current@ == old_current.push(s@[i as int]));
                assert(old_current + (seq![s@[i as int]] + rest[0]) =~= current@ + rest[0]);
                assert(prefix_first(old_current, rest.update(0, seq![s@[i as int]] + rest[0])) =~= prefix_first(current@, rest));
            }
        }
        i = i + 1;
    }
    let ghost before = pieces@.map_values(|p: Vec<char>| p@);
    let ghost last = current@;
    pieces.push(current);
    proof {
        assert(s@.skip(s@.len() as int) =~= Seq::<char>::empty());
        assert(prefix_first(last, seq![Seq::<char>::empty()]) =~= seq![last]);
        assert(pieces@.map_values(|p: Vec<char>| p@) =~= before.push(last));
    }
    pieces
}

} // verus!

verus! {

proof fn lemma_trim_start_first(s: Seq<char>)
    ensures
        trim_start(s).len() > 0 ==> !is_white_space(trim_start(s)[0]),
        trim_start(s).len() <= s.len(),
    decreases s.len(),
{
    if s.len() > 0 && is_white_space(s[0]) {
        lemma_trim_start_first(s.drop_first());
    }
}

proof fn lemma_trim_end_prefix(s: Seq<char>)
    ensures
        trim_end(s).len() <= s.len(),
        trim_end(s) == s.take(trim_end(s).len() as int),
        trim_end(s).len() > 0 ==> !is_white_space(trim_end(s).last()),
    decreases s.len(),
{
    if s.len() > 0 && is_white_space(s.last()) {
        lemma_trim_end_prefix(s.drop_last());
        assert(s.drop_last().take(trim_end(s).len() as int) =~= s.take(trim_end(s).len() as int));
    } else {
        assert(s.take(s.len() as int) =~= s);
    }
}

/// Trimming twice is trimming once.
pub proof fn lemma_trim_idempotent(s: Seq<char>)
    ensures
        trim(trim(s)) == trim(s),
{
    let u = trim_start(s);
    let t = trim_end(u);
    lemma_trim_start_first(s);
    lemma_trim_end_prefix(u);
    if t.len() > 0 {
        assert(t[0] == u[0]);
        assert(trim_start(t) == t);
        assert(trim_end(t) == t);
    } else {
        assert(trim_start(t) == t);
        assert(trim_end(t) == t);
    }
}

} // verus!

verus! {

/// Each text in lower case (`str::to_lowercase` of each).
pub fn lowercase_all(v: &Vec<String>) -> (r: Vec<String>)
    ensures
        r@.len() == v@.len(),
        forall|i: int| 0 <= i < v@.len() ==> (#[trigger] r@[i])@ == lowercase(v@[i]@),
{
    let mut r: Vec<String> = Vec::new();
    let mut i: usize = 0;
    while i < v.len()
        invariant
            i <= v@.len(),
            r@.len() == i,
            forall|j: int| 0 <= j < i ==> (#[trigger] r@[j])@ == lowercase(v@[j]@),
        decreases v@.len() - i,
    {
        r.push(to_lowercase(v[i].as_str()));
        i = i + 1;
    }
    r
}

/// Whether one of `candidates` has exactly the characters of `s`.
pub fn is_among(s: &String, candidates: &Vec<String>) -> (r: bool)
    ensures
        r == exists|i: int| 0 <= i < candidates@.len() && (#[trigger] candidates@[i])@ == s@,
{
    let mut i: usize = 0;
    while i < candidates.len()
        invariant
            i <= candidates@.len(),
            forall|j: int| 0 <= j < i ==> (#[trigger] candidates@[j])@ != s@,
        decreases candidates@.len() - i,
    {
        if same_text(&candidates[i], s) {
            return true;
        }
        i = i + 1;
    }
    false
}

/// Whether one of `needles` occurs in `text`.
pub fn occurs_in_any(text: &String, needles: &Vec<String>) -> (r: bool)
    ensures
        r == exists|i: int| 0 <= i < needles@.len() && occurs_in((#[trigger] needles@[i])@, text@),
{
    let text_chars = chars_of(text.as_str());
    let mut i: usize = 0;
    while i < needles.len()
        invariant
            i <= needles@.len(),
            text_chars@ == text@,
            forall|j: int| 0 <= j < i ==> !occurs_in((#[trigger] needles@[j])@, text@),
        decreases needles@.len() - i,
    {
        let needle_chars = chars_of(needles[i].as_str());
        if contains_chars(&text_chars, &needle_chars) {
            return true;
        }
        i = i + 1;
    }
    false
}

} // verus!
