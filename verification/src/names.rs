//! Folder-name rules shared by Windows and macOS, and the names given to
//! duplicates and to partially written files.

use vstd::prelude::*;
use crate::text::{chars_of, is_control, is_control_char, string_from_chars, trim, trim_bounds};

verus! {

/// Why a folder name is refused.
#[derive(Clone, Copy, Debug, PartialEq, Eq, Structural)]
pub enum NameProblem {
    /// Empty after trimming, or `.` / `..`.
    Blank,
    /// Ends with a dot or a space.
    BadEnding,
    /// Holds a character Windows refuses in names, or a control character.
    ForbiddenCharacter,
    /// A device name Windows reserves (`CON`, `COM1`, ...), whatever follows
    /// the first dot.
    Reserved,
}

/// Characters Windows refuses in a file or folder name.
pub open spec fn is_forbidden_name_char(c: char) -> bool {
    ||| c == '<'
    ||| c == '>'
    ||| c == ':'
    ||| c == '"'
    ||| c == '/'
    ||| c == '\\'
    ||| c == '|'
    ||| c == '?'
    ||| c == '*'
    ||| is_control(c)
}

/// What comes before the first dot (all of `s` when it has none).
pub open spec fn stem_before_dot(s: Seq<char>) -> Seq<char>
    decreases s.len(),
{
    if s.len() == 0 {
        s
    } else if s[0] == '.' {
        Seq::empty()
    } else {
        seq![s[0]] + stem_before_dot(s.drop_first())
    }
}

/// `char::to_ascii_uppercase`.
pub open spec fn ascii_upper(c: char) -> char {
    if 'a' <= c <= 'z' {
        ((c as u32) - 32) as char
    } else {
        c
    }
}

pub open spec fn ascii_upper_seq(s: Seq<char>) -> Seq<char> {
    s.map_values(|c: char| ascii_upper(c))
}

/// The device names Windows reserves: `CON`, `PRN`, `AUX`, `NUL`,
/// `COM1`..`COM9`, `LPT1`..`LPT9` (already upper-cased).
pub open spec fn is_reserved_device_name(u: Seq<char>) -> bool {
    ||| u == seq!['C', 'O', 'N']
    ||| u == seq!['P', 'R', 'N']
    ||| u == seq!['A', 'U', 'X']
    ||| u == seq!['N', 'U', 'L']
    ||| (u.len() == 4 && (u.take(3) == seq!['C', 'O', 'M'] || u.take(3) == seq!['L', 'P', 'T'])
        && '1' <= u[3] <= '9')
}

/// The first rule a folder name breaks, checked on the name with the
/// surrounding white space removed.
pub open spec fn name_problem(name: Seq<char>) -> Option<NameProblem> {
    let t = trim(name);
    if t.len() == 0 || t == seq!['.'] || t == seq!['.', '.'] {
        Some(NameProblem::Blank)
    } else if t.last() == '.' || t.last() == ' ' {
        Some(NameProblem::BadEnding)
    } else if exists|i: int| 0 <= i < t.len() && is_forbidden_name_char(#[trigger] t[i]) {
        Some(NameProblem::ForbiddenCharacter)
    } else if is_reserved_device_name(ascii_upper_seq(stem_before_dot(t))) {
        Some(NameProblem::Reserved)
    } else {
        None
    }
}

/// The message shown for each problem.
pub open spec fn problem_message(p: NameProblem) -> Seq<char> {
    match p {
        NameProblem::Blank => "Informe um nome de pasta válido."@,
        NameProblem::BadEnding => "O nome não pode terminar com ponto ou espaço."@,
        NameProblem::ForbiddenCharacter => "O nome contém caracteres que não são permitidos no Windows."@,
        NameProblem::Reserved => "Esse nome é reservado pelo Windows."@,
    }
}

impl NameProblem {
    /// The message shown to the user.
    pub fn message(&self) -> (m: String)
        ensures
            m@ == problem_message(*self),
    {
        match self {
            NameProblem::Blank => String::from_str("Informe um nome de pasta válido."),
            NameProblem::BadEnding => String::from_str(
                "O nome não pode terminar com ponto ou espaço.",
            ),
            NameProblem::ForbiddenCharacter => String::from_str(
                "O nome contém caracteres que não são permitidos no Windows.",
            ),
            NameProblem::Reserved => String::from_str("Esse nome é reservado pelo Windows."),
        }
    }
}

pub fn is_forbidden_name_character(c: char) -> (b: bool)
    ensures
        b == is_forbidden_name_char(c),
{
    c == '<' || c == '>' || c == ':' || c == '"' || c == '/' || c == '\\' || c == '|' || c == '?'
        || c == '*' || is_control_char(c)
}

pub fn to_ascii_upper(c: char) -> (u: char)
    ensures
        u == ascii_upper(c),
{
    if 'a' <= c && c <= 'z' {
        ((c as u8) - 32) as char
    } else {
        c
    }
}

proof fn lemma_stem_step(s: Seq<char>, i: int)
    requires
        0 <= i < s.len(),
        forall|j: int| 0 <= j < i ==> s[j] != '.',
    ensures
        stem_before_dot(s) == s.take(i) + stem_before_dot(s.subrange(i, s.len() as int)),
    decreases i,
{
    if i == 0 {
        assert(s.take(0) + s =~= s);
        assert(s.subrange(0, s.len() as int) =~= s);
    } else {
        lemma_stem_step(s.drop_first(), i - 1);
        assert(s.drop_first().subrange(i - 1, s.drop_first().len() as int) =~= s.subrange(
            i,
            s.len() as int,
        ));
        assert(seq![s[0]] + s.drop_first().take(i - 1) =~= s.take(i));
    }
}

/// Upper-cased (ASCII only) characters of `t` before its first dot.
fn upper_stem(t: &[char]) -> (u: Vec<char>)
    ensures
        u@ == ascii_upper_seq(stem_before_dot(t@)),
{
    let mut u: Vec<char> = Vec::new();
    let mut i: usize = 0;
    while i < t.len() && t[i] != '.'
        invariant
            i <= t@.len(),
            forall|j: int| 0 <= j < i ==> t@[j] != '.',
            u@ == ascii_upper_seq(t@.take(i as int)),
        decreases t@.len() - i,
    {
        u.push(to_ascii_upper(t[i]));
        i = i + 1;
        assert(ascii_upper_seq(t@.take(i as int)) =~= ascii_upper_seq(t@.take((i - 1) as int)).push(
            ascii_upper(t@[i - 1]),
        ));
    }
    proof {
        let rest = t@.subrange(i as int, t@.len() as int);
        if i < t@.len() {
            lemma_stem_step(t@, i as int);
            assert(rest[0] == '.');
            assert(stem_before_dot(rest) == Seq::<char>::empty());
            assert(stem_before_dot(t@) =~= t@.take(i as int));
        } else {
            assert(t@.take(i as int) =~= t@);
            assert forall|k: int| 0 <= k <= t@.len() implies stem_before_dot(#[trigger] t@.skip(k))
                == t@.skip(k) by {
                lemma_stem_no_dot(t@.skip(k));
            }
            assert(t@.skip(0) =~= t@);
        }
    }
    u
}

proof fn lemma_stem_no_dot(s: Seq<char>)
    requires
        forall|j: int| 0 <= j < s.len() ==> s[j] != '.',
    ensures
        stem_before_dot(s) == s,
    decreases s.len(),
{
    if s.len() > 0 {
        lemma_stem_no_dot(s.drop_first());
        assert(seq![s[0]] + s.drop_first() =~= s);
    }
}

fn is_reserved_device(u: &[char]) -> (b: bool)
    ensures
        b == is_reserved_device_name(u@),
{
    let n = u.len();
    let r = if n == 3 {
        (u[0] == 'C' && u[1] == 'O' && u[2] == 'N') || (u[0] == 'P' && u[1] == 'R' && u[2] == 'N')
            || (u[0] == 'A' && u[1] == 'U' && u[2] == 'X') || (u[0] == 'N' && u[1] == 'U' && u[2]
            == 'L')
    } else if n == 4 {
        ((u[0] == 'C' && u[1] == 'O' && u[2] == 'M') || (u[0] == 'L' && u[1] == 'P' && u[2]
            == 'T')) && '1' <= u[3] && u[3] <= '9'
    } else {
        false
    };
    proof {
        if n == 3 {
            if u[0] == 'C' && u[1] == 'O' && u[2] == 'N' { assert(u@ =~= seq!['C', 'O', 'N']); }
            if u[0] == 'P' && u[1] == 'R' && u[2] == 'N' { assert(u@ =~= seq!['P', 'R', 'N']); }
            if u[0] == 'A' && u[1] == 'U' && u[2] == 'X' { assert(u@ =~= seq!['A', 'U', 'X']); }
            if u[0] == 'N' && u[1] == 'U' && u[2] == 'L' { assert(u@ =~= seq!['N', 'U', 'L']); }
        }
        if n == 4 {
            if u[0] == 'C' && u[1] == 'O' && u[2] == 'M' { assert(u@.take(3) =~= seq!['C', 'O', 'M']); }
            if u[0] == 'L' && u[1] == 'P' && u[2] == 'T' { assert(u@.take(3) =~= seq!['L', 'P', 'T']); }
            if u@.take(3) == seq!['C', 'O', 'M'] { assert(u@.take(3)[0] == 'C'); assert(u@.take(3)[1] == 'O'); assert(u@.take(3)[2] == 'M'); }
            if u@.take(3) == seq!['L', 'P', 'T'] { assert(u@.take(3)[0] == 'L'); assert(u@.take(3)[1] == 'P'); assert(u@.take(3)[2] == 'T'); }
        }
        if u@ == seq!['C', 'O', 'N'] || u@ == seq!['P', 'R', 'N'] || u@ == seq!['A', 'U', 'X'] || u@ == seq!['N', 'U', 'L'] {
            assert(n == 3);
        }
    }
    r
}

/// The first rule that the trimmed name breaks, if any.
pub fn windows_name_problem(name: &str) -> (p: Option<NameProblem>)
    ensures
        p == name_problem(name@),
{
    let v = chars_of(name);
    let (lo, hi) = trim_bounds(&v);
    let t = slice_range(&v, lo, hi);
    let n = t.len();
    if n == 0 || (n == 1 && t[0] == '.') || (n == 2 && t[0] == '.' && t[1] == '.') {
        proof {
            if n == 1 { assert(t@ =~= seq!['.']); }
            if n == 2 { assert(t@ =~= seq!['.', '.']); }
        }
        return Some(NameProblem::Blank);
    }
    proof {
        if t@ == seq!['.'] { assert(t@[0] == '.'); }
        if t@ == seq!['.', '.'] { assert(t@[0] == '.' && t@[1] == '.'); }
    }
    if t[n - 1] == '.' || t[n - 1] == ' ' {
        return Some(NameProblem::BadEnding);
    }
    let mut i: usize = 0;
    while i < n
        invariant
            i <= n == t@.len(),
            t@ == trim(name@),
            n > 0,
            t@ != seq!['.'],
            t@ != seq!['.', '.'],
            t@.last() != '.' && t@.last() != ' ',
            forall|j: int| 0 <= j < i ==> !is_forbidden_name_char(#[trigger] t@[j]),
        decreases n - i,
    {
        if is_forbidden_name_character(t[i]) {
            assert(is_forbidden_name_char(t@[i as int]));
            return Some(NameProblem::ForbiddenCharacter);
        }
        i = i + 1;
    }
    let u = upper_stem(&t);
    if is_reserved_device(&u) {
        return Some(NameProblem::Reserved);
    }
    None
}

/// The characters `v[lo..hi]`.
pub fn slice_range(v: &[char], lo: usize, hi: usize) -> (r: Vec<char>)
    requires
        lo <= hi <= v@.len(),
    ensures
        r@ == v@.subrange(lo as int, hi as int),
{
    let mut r: Vec<char> = Vec::new();
    let mut i = lo;
    while i < hi
        invariant
            lo <= i <= hi <= v@.len(),
            r@ == v@.subrange(lo as int, i as int),
        decreases hi - i,
    {
        r.push(v[i]);
        i = i + 1;
        assert(r@ =~= v@.subrange(lo as int, i as int));
    }
    r
}

/// Checks that a folder name is valid on Windows (and so portable):
/// `Ok` exactly when the name breaks no rule, else the message of the
/// first rule it breaks.
pub fn validate_windows_name(name: &str) -> (r: Result<(), String>)
    ensures
        r is Ok <==> name_problem(name@) is None,
        r matches Err(m) ==> (name_problem(name@) matches Some(p) && m@ == problem_message(p)),
{
    match windows_name_problem(name) {
        None => Ok(()),
        Some(p) => Err(p.message()),
    }
}

} // verus!

verus! {

/// The decimal digit for `d < 10`.
pub open spec fn digit_char(d: nat) -> char {
    ((48 + d) as u32) as char
}

/// The decimal writing of `n`, without leading zeros.
pub open spec fn decimal(n: nat) -> Seq<char>
    decreases n,
{
    if n < 10 {
        seq![digit_char(n)]
    } else {
        decimal(n / 10).push(digit_char(n % 10))
    }
}

proof fn lemma_decimal_len(n: nat)
    ensures
        decimal(n).len() >= 1,
        n < 10 <==> decimal(n).len() == 1,
    decreases n,
{
    if n >= 10 {
        lemma_decimal_len(n / 10);
    }
}

/// Different numbers are written differently.
pub proof fn lemma_decimal_injective(a: nat, b: nat)
    requires
        decimal(a) == decimal(b),
    ensures
        a == b,
    decreases a,
{
    lemma_decimal_len(a);
    lemma_decimal_len(b);
    if a < 10 || b < 10 {
        assert(decimal(a)[0] == decimal(b)[0]);
        assert(a < 10 && b < 10);
        assert(decimal(a)[0] == digit_char(a));
        assert(decimal(b)[0] == digit_char(b));
        assert(digit_char(a) as u32 == 48 + a);
        assert(digit_char(b) as u32 == 48 + b);
    } else {
        assert(decimal(a) == decimal(a / 10).push(digit_char(a % 10)));
        assert(decimal(b) == decimal(b / 10).push(digit_char(b % 10)));
        assert(decimal(a).last() == decimal(b).last());
        assert(decimal(a).last() == digit_char(a % 10));
        assert(decimal(b).last() == digit_char(b % 10));
        assert(digit_char(a % 10) == digit_char(b % 10));
        assert(digit_char(a % 10) as u32 == 48 + a % 10);
        assert(digit_char(b % 10) as u32 == 48 + b % 10);
        assert(a % 10 == b % 10);
        assert(decimal(a).drop_last() =~= decimal(a / 10));
        assert(decimal(b).drop_last() =~= decimal(b / 10));
        lemma_decimal_injective(a / 10, b / 10);
        assert(a == 10 * (a / 10) + a % 10);
        assert(b == 10 * (b / 10) + b % 10);
    }
}

/// The position of the last dot, if any.
pub open spec fn last_dot(s: Seq<char>) -> Option<int>
    decreases s.len(),
{
    if s.len() == 0 {
        None
    } else if s.last() == '.' {
        Some(s.len() - 1)
    } else {
        last_dot(s.drop_last())
    }
}

/// `Path::file_stem` and `Path::extension` of a file name; a name without
/// a dot, or whose only dot leads it, or `..`, has no extension.
pub open spec fn split_file_name(name: Seq<char>) -> (Seq<char>, Option<Seq<char>>) {
    if name == seq!['.', '.'] {
        (name, None)
    } else {
        match last_dot(name) {
            None => (name, None),
            Some(k) => if k == 0 {
                (name, None)
            } else {
                (name.take(k), Some(name.skip(k + 1)))
            },
        }
    }
}

/// The stem used for duplicates: the name's stem, or `arquivo` when there
/// is no name.
pub open spec fn duplicate_stem(name: Seq<char>) -> (Seq<char>, Option<Seq<char>>) {
    if name.len() == 0 {
        ("arquivo"@, None)
    } else {
        split_file_name(name)
    }
}

/// `"{stem} ({index}).{extension}"`, or `"{stem} ({index})"` without an
/// extension.
pub open spec fn duplicate_name(stem: Seq<char>, ext: Option<Seq<char>>, index: nat) -> Seq<char> {
    stem + seq![' ', '('] + decimal(index) + seq![')'] + match ext {
        Some(e) => seq!['.'] + e,
        None => Seq::empty(),
    }
}

proof fn lemma_duplicate_name_injective(stem: Seq<char>, ext: Option<Seq<char>>, a: nat, b: nat)
    requires
        duplicate_name(stem, ext, a) == duplicate_name(stem, ext, b),
    ensures
        a == b,
{
    let p = stem + seq![' ', '('];
    let sa = duplicate_name(stem, ext, a);
    let sb = duplicate_name(stem, ext, b);
    let tail = seq![')'] + match ext {
        Some(e) => seq!['.'] + e,
        None => Seq::empty(),
    };
    assert(sa =~= p + decimal(a) + tail);
    assert(sb =~= p + decimal(b) + tail);
    assert(decimal(a).len() == decimal(b).len());
    assert(sa.subrange(p.len() as int, (p.len() + decimal(a).len()) as int) =~= decimal(a));
    assert(sb.subrange(p.len() as int, (p.len() + decimal(b).len()) as int) =~= decimal(b));
    lemma_decimal_injective(a, b);
}

/// The texts of a list of strings.
pub open spec fn texts(v: Seq<String>) -> Seq<Seq<char>> {
    v.map_values(|s: String| s@)
}

fn digit_of(d: u64) -> (c: char)
    requires
        d < 10,
    ensures
        c == digit_char(d as nat),
{
    ((48 + d) as u8) as char
}

/// The decimal writing of `n`.
pub fn decimal_chars(n: u64) -> (v: Vec<char>)
    ensures
        v@ == decimal(n as nat),
    decreases n,
{
    if n < 10 {
        let mut v: Vec<char> = Vec::new();
        v.push(digit_of(n));
        assert(v@ =~= seq![digit_char(n as nat)]);
        v
    } else {
        let mut v = decimal_chars(n / 10);
        v.push(digit_of(n % 10));
        v
    }
}

fn push_all(v: &mut Vec<char>, s: &[char])
    ensures
        final(v)@ == old(v)@ + s@,
{
    let mut i: usize = 0;
    while i < s.len()
        invariant
            i <= s@.len(),
            v@ == old(v)@ + s@.take(i as int),
        decreases s@.len() - i,
    {
        v.push(s[i]);
        i = i + 1;
        assert(v@ =~= old(v)@ + s@.take(i as int));
    }
    assert(s@.take(s@.len() as int) =~= s@);
}

/// Stem and extension of a file name, as `Path::file_stem` and
/// `Path::extension` give them.
pub fn split_name(name: &[char]) -> (r: (Vec<char>, Option<Vec<char>>))
    ensures
        r.0@ == split_file_name(name@).0,
        match r.1 {
            Some(e) => split_file_name(name@).1 == Some(e@),
            None => split_file_name(name@).1 is None,
        },
{
    let n = name.len();
    if n == 2 && name[0] == '.' && name[1] == '.' {
        assert(name@ =~= seq!['.', '.']);
        return (slice_range(name, 0, n), None);
    }
    assert(name@ != seq!['.', '.']) by {
        if name@ == seq!['.', '.'] {
            assert(name@[0] == '.' && name@[1] == '.');
        }
    }
    let mut k = n;
    assert(name@.take(n as int) =~= name@);
    while k > 0 && name[k - 1] != '.'
        invariant
            k <= n == name@.len(),
            last_dot(name@) == last_dot(name@.take(k as int)),
        decreases k,
    {
        assert(name@.take(k as int).drop_last() =~= name@.take(k - 1));
        k = k - 1;
    }
    proof {
        assert(name@.take(n as int) =~= name@);
    }
    if k == 0 {
        assert(last_dot(name@.take(0)) is None);
        (slice_range(name, 0, n), None)
    } else if k == 1 {
        assert(last_dot(name@.take(1)) == Some(0int));
        (slice_range(name, 0, n), None)
    } else {
        assert(last_dot(name@.take(k as int)) == Some(k - 1));
        (slice_range(name, 0, k - 1), Some(slice_range(name, k, n)))
    }
}

/// The duplicate name with the given index.
pub fn make_duplicate_name(stem: &[char], ext: &Option<Vec<char>>, index: u64) -> (r: Vec<char>)
    ensures
        r@ == duplicate_name(
            stem@,
            match ext {
                Some(e) => Some(e@),
                None => None,
            },
            index as nat,
        ),
{
    let mut r: Vec<char> = Vec::new();
    push_all(&mut r, stem);
    r.push(' ');
    r.push('(');
    let d = decimal_chars(index);
    push_all(&mut r, &d);
    r.push(')');
    match ext {
        Some(e) => {
            r.push('.');
            push_all(&mut r, e);
        },
        None => {},
    }
    assert(r@ =~= duplicate_name(
        stem@,
        match ext {
            Some(e) => Some(e@),
            None => None,
        },
        index as nat,
    ));
    r
}

/// The characters of an optional character vector.
pub open spec fn opt_chars(o: Option<Vec<char>>) -> Option<Seq<char>> {
    match o {
        Some(e) => Some(e@),
        None => None,
    }
}

/// A search for the name a copy takes when its desired path may be taken.
/// The candidate under probe is the desired path itself at index 0, and
/// the duplicate name with index `k` at `k >= 1`; the caller answers for
/// each candidate whether it exists on the file system.
pub struct RenameSearch {
    stem: Vec<char>,
    ext: Option<Vec<char>>,
    index: u64,
}

/// The mathematical value of a [`RenameSearch`].
pub struct RenameView {
    pub stem: Seq<char>,
    pub ext: Option<Seq<char>>,
    pub index: nat,
}

impl View for RenameSearch {
    type V = RenameView;

    closed spec fn view(&self) -> RenameView {
        RenameView { stem: self.stem@, ext: opt_chars(self.ext), index: self.index as nat }
    }
}

impl RenameSearch {
    /// Starts the search for a copy whose desired file name is `file_name`
    /// (empty for a path without a name); the desired path is probed first.
    pub fn new(file_name: &str) -> (r: Self)
        ensures
            (r@.stem, r@.ext) == duplicate_stem(file_name@),
            r@.index == 0,
    {
        let name = chars_of(file_name);
        let (stem, ext) = if name.len() == 0 {
            (chars_of("arquivo"), None)
        } else {
            split_name(&name)
        };
        RenameSearch { stem, ext, index: 0 }
    }

    /// The index of the candidate under probe.
    pub fn index(&self) -> (r: u64)
        ensures
            r == self@.index,
    {
        self.index
    }
}

/// One step of the search: the state after the candidate under probe was
/// answered to exist (`exists`) or not.
pub open spec fn rename_step(s: RenameView, exists: bool) -> RenameView {
    if exists {
        RenameView { index: s.index + 1, ..s }
    } else {
        s
    }
}

/// Takes the file system's answer for the candidate under probe. When it
/// does not exist, the search ends (`None`): the copy takes that candidate
/// (the desired path at index 0). When it exists, the next duplicate name,
/// `"{stem} ({k}).{ext}"` (or `"{stem} ({k})"`) with `k` one more, is
/// returned to be probed in the same folder.
pub fn renamed_path(search: &mut RenameSearch, exists: bool) -> (r: Option<String>)
    requires
        old(search)@.index < u64::MAX,
    ensures
        final(search)@ == rename_step(old(search)@, exists),
        !exists ==> r is None,
        exists ==> (r matches Some(n) && n@ == duplicate_name(
            old(search)@.stem,
            old(search)@.ext,
            old(search)@.index + 1,
        )),
{
    if !exists {
        return None;
    }
    search.index = search.index + 1;
    let name = make_duplicate_name(&search.stem, &search.ext, search.index);
    Some(string_from_chars(&name))
}

/// The states reached from `s` by the answers `answers`, in order.
pub open spec fn rename_run(s: RenameView, answers: Seq<bool>) -> RenameView
    decreases answers.len(),
{
    if answers.len() == 0 {
        s
    } else {
        rename_step(rename_run(s, answers.drop_last()), answers.last())
    }
}

/// While every candidate probed is answered to exist, each answer moves the
/// search to the next index: from the desired path (index 0), after `n`
/// such answers the candidate under probe is the `n`-th duplicate name. As
/// a `false` answer leaves the search where it is, the copy takes the first
/// candidate in this order that does not exist.
pub proof fn lemma_rename_probes_in_order(s: RenameView, answers: Seq<bool>)
    requires
        forall|i: int| 0 <= i < answers.len() ==> #[trigger] answers[i],
    ensures
        rename_run(s, answers) == (RenameView { index: s.index + answers.len(), ..s }),
    decreases answers.len(),
{
    if answers.len() > 0 {
        lemma_rename_probes_in_order(s, answers.drop_last());
        assert(answers.last());
    }
}

/// The search never proposes the same name twice.
pub proof fn lemma_duplicate_names_differ(stem: Seq<char>, ext: Option<Seq<char>>, a: nat, b: nat)
    requires
        a != b,
    ensures
        duplicate_name(stem, ext, a) != duplicate_name(stem, ext, b),
{
    if duplicate_name(stem, ext, a) == duplicate_name(stem, ext, b) {
        lemma_duplicate_name_injective(stem, ext, a, b);
    }
}

} // verus!

verus! {

/// A folder name is judged on its trimmed form only: white space around
/// it never changes the verdict.
pub proof fn lemma_name_rules_ignore_surrounding_space(name: Seq<char>)
    ensures
        name_problem(name) == name_problem(trim(name)),
{
    crate::text::lemma_trim_idempotent(name);
}

/// An accepted name is a single path component: once trimmed it is not
/// `.` or `..` and holds no `/`, `\` or `:`; so joining it to a folder can
/// never climb out of that folder or name another drive.
pub proof fn lemma_accepted_name_is_one_component(name: Seq<char>)
    requires
        name_problem(name) is None,
    ensures
        trim(name).len() > 0,
        trim(name) != seq!['.'],
        trim(name) != seq!['.', '.'],
        forall|i: int|
            0 <= i < trim(name).len() ==> #[trigger] trim(name)[i] != '/' && trim(name)[i] != '\\'
                && trim(name)[i] != ':',
{
    assert forall|i: int| 0 <= i < trim(name).len() implies #[trigger] trim(name)[i] != '/'
        && trim(name)[i] != '\\' && trim(name)[i] != ':' by {
        assert(!is_forbidden_name_char(trim(name)[i]));
    }
}

} // verus!
