//! Character-level helpers shared by the readouts: classes of characters,
//! runs of a class, trimming, and the splitting of a text into lines and
//! into words.

use vstd::prelude::*;

verus! {

/// Appends one character to a string.
///
/// Trusted: `String::push` of the standard library, which is documented to
/// append the given character to the end of the string.
#[verifier::external_body]
pub(crate) fn push_char(s: &mut String, c: char)
    ensures
        final(s)@ == old(s)@.push(c),
{
    s.push(c);
}

/// The characters of `s`, in order.
pub fn chars_of(s: &str) -> (v: Vec<char>)
    ensures
        v@ == s@,
{
    let mut v: Vec<char> = Vec::new();
    for c in it: s.chars()
        invariant
            v@ == it.seq().take(it.index()),
            it.seq() == s@,
    {
        v.push(c);
    }
    v
}

/// The string made of the characters of `v`, in order.
pub fn string_of(v: &Vec<char>) -> (s: String)
    ensures
        s@ == v@,
{
    let mut s = String::new();
    let mut i: usize = 0;
    while i < v.len()
        invariant
            i <= v.len(),
            s@ == v@.take(i as int),
        decreases v.len() - i,
    {
        push_char(&mut s, v[i]);
        i += 1;
    }
    s
}

/// The characters `v[from..to]`, copied.
pub fn slice_of(v: &Vec<char>, from: usize, to: usize) -> (r: Vec<char>)
    requires
        from <= to <= v.len(),
    ensures
        r@ == v@.subrange(from as int, to as int),
{
    let mut r: Vec<char> = Vec::new();
    let mut i: usize = from;
    while i < to
        invariant
            from <= i <= to <= v.len(),
            r@ == v@.subrange(from as int, i as int),
        decreases to - i,
    {
        r.push(v[i]);
        i += 1;
    }
    r
}

/// The character sequences held by a vector of character vectors.
pub open spec fn rows(v: Seq<Vec<char>>) -> Seq<Seq<char>> {
    Seq::new(v.len(), |i: int| v[i]@)
}

/// The characters of an optional character vector.
pub open spec fn opt_row(o: Option<Vec<char>>) -> Option<Seq<char>> {
    match o {
        Some(v) => Some(v@),
        None => None,
    }
}

/// The characters of an optional string slice.
pub open spec fn opt_text(o: Option<&str>) -> Option<Seq<char>> {
    match o {
        Some(s) => Some(s@),
        None => None,
    }
}

/// The character sequences held by a vector of strings.
pub open spec fn texts(v: Seq<String>) -> Seq<Seq<char>> {
    Seq::new(v.len(), |i: int| v[i]@)
}

/// The code point of `c`.
pub fn code_point(c: char) -> (n: u32)
    ensures
        n == c as int,
{
    c as u32
}

/// Whether `c` is white space: the code points that carry the Unicode
/// property `White_Space`.
pub open spec fn is_whitespace(c: char) -> bool {
    let n = c as int;
    ||| 0x09 <= n <= 0x0D
    ||| n == 0x20
    ||| n == 0x85
    ||| n == 0xA0
    ||| n == 0x1680
    ||| 0x2000 <= n <= 0x200A
    ||| n == 0x2028
    ||| n == 0x2029
    ||| n == 0x202F
    ||| n == 0x205F
    ||| n == 0x3000
}

/// Decides `is_whitespace`.
pub fn is_whitespace_char(c: char) -> (b: bool)
    ensures
        b == is_whitespace(c),
{
    let n: u32 = code_point(c);
    (0x09 <= n && n <= 0x0D) || n == 0x20 || n == 0x85 || n == 0xA0 || n == 0x1680 || (0x2000 <= n
        && n <= 0x200A) || n == 0x2028 || n == 0x2029 || n == 0x202F || n == 0x205F || n == 0x3000
}

/// A set of characters, given by a rule.
#[derive(Clone, Copy, Debug)]
pub enum CharClass {
    /// The white-space characters.
    Whitespace,
    /// Every character that is not white space.
    Visible,
    /// The one character given.
    Is(char),
    /// Every character but the one given.
    Except(char),
}

impl CharClass {
    /// Whether `c` belongs to the class.
    pub open spec fn holds(self, c: char) -> bool {
        match self {
            CharClass::Whitespace => is_whitespace(c),
            CharClass::Visible => !is_whitespace(c),
            CharClass::Is(x) => c == x,
            CharClass::Except(x) => c != x,
        }
    }

    /// Decides `holds`.
    pub fn test(&self, c: char) -> (b: bool)
        ensures
            b == self.holds(c),
    {
        match *self {
            CharClass::Whitespace => is_whitespace_char(c),
            CharClass::Visible => !is_whitespace_char(c),
            CharClass::Is(x) => c == x,
            CharClass::Except(x) => c != x,
        }
    }
}

/// The length of the longest prefix of `s` whose characters all belong to
/// `class`.
pub open spec fn run_len(s: Seq<char>, class: CharClass) -> nat
    decreases s.len(),
{
    if s.len() > 0 && class.holds(s[0]) {
        1 + run_len(s.skip(1), class)
    } else {
        0
    }
}

/// The length of the longest suffix of `s` whose characters all belong to
/// `class`.
pub open spec fn run_len_back(s: Seq<char>, class: CharClass) -> nat
    decreases s.len(),
{
    if s.len() > 0 && class.holds(s.last()) {
        1 + run_len_back(s.drop_last(), class)
    } else {
        0
    }
}

/// A leading run lies within the sequence, holds only members of the class,
/// and is followed by a character outside it or by the end.
pub proof fn lemma_run_len(s: Seq<char>, class: CharClass)
    ensures
        run_len(s, class) <= s.len(),
        forall|j: int| 0 <= j < run_len(s, class) ==> class.holds(#[trigger] s[j]),
        run_len(s, class) < s.len() ==> !class.holds(s[run_len(s, class) as int]),
    decreases s.len(),
{
    if s.len() > 0 && class.holds(s[0]) {
        let t = s.skip(1);
        lemma_run_len(t, class);
        assert forall|j: int| 0 <= j < run_len(s, class) implies class.holds(#[trigger] s[j]) by {
            if j > 0 {
                assert(s[j] == t[j - 1]);
            }
        }
        if run_len(s, class) < s.len() {
            assert(s[run_len(s, class) as int] == t[run_len(t, class) as int]);
        }
    }
}

/// The leading run is the only length with the properties that
/// `lemma_run_len` states.
pub proof fn lemma_run_len_is(s: Seq<char>, class: CharClass, k: int)
    requires
        0 <= k <= s.len(),
        forall|j: int| 0 <= j < k ==> class.holds(#[trigger] s[j]),
        k < s.len() ==> !class.holds(s[k]),
    ensures
        run_len(s, class) == k,
    decreases s.len(),
{
    if k > 0 {
        let t = s.skip(1);
        assert(class.holds(s[0]));
        assert forall|j: int| 0 <= j < k - 1 implies class.holds(#[trigger] t[j]) by {
            assert(t[j] == s[j + 1]);
        }
        if k - 1 < t.len() {
            assert(t[k - 1] == s[k]);
        }
        lemma_run_len_is(t, class, k - 1);
    }
}

/// A trailing run lies within the sequence, holds only members of the
/// class, and is preceded by a character outside it or by the start.
pub proof fn lemma_run_len_back(s: Seq<char>, class: CharClass)
    ensures
        run_len_back(s, class) <= s.len(),
        forall|j: int|
            s.len() - run_len_back(s, class) <= j < s.len() ==> class.holds(#[trigger] s[j]),
        run_len_back(s, class) < s.len() ==> !class.holds(
            s[s.len() - run_len_back(s, class) - 1],
        ),
    decreases s.len(),
{
    if s.len() > 0 && class.holds(s.last()) {
        let t = s.drop_last();
        lemma_run_len_back(t, class);
        assert forall|j: int|
            s.len() - run_len_back(s, class) <= j < s.len() implies class.holds(
            #[trigger] s[j],
        ) by {
            if j < s.len() - 1 {
                assert(s[j] == t[j]);
            }
        }
        if run_len_back(s, class) < s.len() {
            assert(s[s.len() - run_len_back(s, class) - 1] == t[t.len() - run_len_back(t, class)
                - 1]);
        }
    }
}

/// The trailing run is the only length with the properties that
/// `lemma_run_len_back` states.
pub proof fn lemma_run_len_back_is(s: Seq<char>, class: CharClass, k: int)
    requires
        0 <= k <= s.len(),
        forall|j: int| s.len() - k <= j < s.len() ==> class.holds(#[trigger] s[j]),
        k < s.len() ==> !class.holds(s[s.len() - k - 1]),
    ensures
        run_len_back(s, class) == k,
    decreases s.len(),
{
    if k > 0 {
        let t = s.drop_last();
        assert(class.holds(s[s.len() - 1]));
        assert forall|j: int| t.len() - (k - 1) <= j < t.len() implies class.holds(
            #[trigger] t[j],
        ) by {
            assert(t[j] == s[j]);
        }
        if k - 1 < t.len() {
            assert(t[t.len() - (k - 1) - 1] == s[s.len() - k - 1]);
        }
        lemma_run_len_back_is(t, class, k - 1);
    }
}

/// The end of the run of `class` that starts at `from`, looking no further
/// than `to`.
pub fn run_end(v: &Vec<char>, from: usize, to: usize, class: CharClass) -> (end: usize)
    requires
        from <= to <= v.len(),
    ensures
        from <= end <= to,
        end == from + run_len(v@.subrange(from as int, to as int), class),
{
    let mut i: usize = from;
    while i < to && class.test(v[i])
        invariant
            from <= i <= to <= v.len(),
            forall|j: int| from <= j < i ==> class.holds(#[trigger] v@[j]),
        decreases to - i,
    {
        i += 1;
    }
    proof {
        let s = v@.subrange(from as int, to as int);
        assert forall|j: int| 0 <= j < i - from implies class.holds(#[trigger] s[j]) by {
            assert(s[j] == v@[from + j]);
        }
        lemma_run_len_is(s, class, i - from);
    }
    i
}

/// The start of the run of `class` that ends at `to`, looking no further
/// back than `from`.
pub fn run_start(v: &Vec<char>, from: usize, to: usize, class: CharClass) -> (start: usize)
    requires
        from <= to <= v.len(),
    ensures
        from <= start <= to,
        start == to - run_len_back(v@.subrange(from as int, to as int), class),
{
    let mut i: usize = to;
    while i > from && class.test(v[i - 1])
        invariant
            from <= i <= to <= v.len(),
            forall|j: int| i <= j < to ==> class.holds(#[trigger] v@[j]),
        decreases i,
    {
        i -= 1;
    }
    proof {
        let s = v@.subrange(from as int, to as int);
        assert forall|j: int| s.len() - (to - i) <= j < s.len() implies class.holds(
            #[trigger] s[j],
        ) by {
            assert(s[j] == v@[from + j]);
        }
        lemma_run_len_back_is(s, class, to - i);
    }
    i
}

/// `s` without its leading and trailing white space.
pub open spec fn trim(s: Seq<char>) -> Seq<char> {
    let t = s.skip(run_len(s, CharClass::Whitespace) as int);
    t.take(t.len() - run_len_back(t, CharClass::Whitespace))
}

/// Trims white space from both ends.
pub fn trimmed(v: &Vec<char>) -> (r: Vec<char>)
    ensures
        r@ == trim(v@),
{
    let n = v.len();
    let a = run_end(v, 0, n, CharClass::Whitespace);
    let b = run_start(v, a, n, CharClass::Whitespace);
    proof {
        assert(v@.subrange(0, n as int) =~= v@);
        let t = v@.skip(a as int);
        assert(t =~= v@.subrange(a as int, n as int));
        assert(t.take(b - a) =~= v@.subrange(a as int, b as int));
    }
    slice_of(v, a, b)
}

/// `s` without its last character, if that character is `c`.
pub open spec fn strip_last(s: Seq<char>, c: char) -> Seq<char> {
    if s.len() > 0 && s.last() == c {
        s.drop_last()
    } else {
        s
    }
}

/// `s` without one trailing line feed, if it ends in one.
pub open spec fn pop_newline(s: Seq<char>) -> Seq<char> {
    strip_last(s, '\n')
}

/// Removes one trailing line feed, if there is one.
pub fn without_newline(v: &Vec<char>) -> (r: Vec<char>)
    ensures
        r@ == pop_newline(v@),
{
    let n = v.len();
    if n > 0 && v[n - 1] == '\n' {
        slice_of(v, 0, n - 1)
    } else {
        proof {
            assert(v@.subrange(0, n as int) =~= v@);
        }
        slice_of(v, 0, n)
    }
}

/// `s` without the first occurrence of `c`, if it holds one.
pub open spec fn remove_first(s: Seq<char>, c: char) -> Seq<char> {
    let k = run_len(s, CharClass::Except(c)) as int;
    if k < s.len() {
        s.take(k) + s.skip(k + 1)
    } else {
        s
    }
}

/// Removes the first occurrence of `c`, if there is one.
pub fn without_first(v: &Vec<char>, c: char) -> (r: Vec<char>)
    ensures
        r@ == remove_first(v@, c),
{
    let n = v.len();
    let k = run_end(v, 0, n, CharClass::Except(c));
    proof {
        assert(v@.subrange(0, n as int) =~= v@);
    }
    let mut r: Vec<char> = Vec::new();
    let mut i: usize = 0;
    while i < n
        invariant
            i <= n == v.len(),
            k <= n,
            i <= k ==> r@ == v@.take(i as int),
            i > k ==> r@ == v@.take(k as int) + v@.subrange(k + 1, i as int),
        decreases n - i,
    {
        if i != k {
            r.push(v[i]);
        }
        proof {
            if i < k {
                assert(v@.take(i as int).push(v@[i as int]) =~= v@.take(i + 1));
            } else if i == k {
                assert(v@.take(k as int) + v@.subrange(k + 1, i + 1) =~= v@.take(k as int));
            } else {
                assert((v@.take(k as int) + v@.subrange(k + 1, i as int)).push(v@[i as int])
                    =~= v@.take(k as int) + v@.subrange(k + 1, i + 1));
            }
        }
        i += 1;
    }
    proof {
        if k == n {
            assert(v@.take(n as int) =~= v@);
        }
    }
    r
}

/// Whether `v` starts with the characters of `prefix`.
pub fn starts_with(v: &Vec<char>, prefix: &Vec<char>) -> (b: bool)
    ensures
        b == prefix@.is_prefix_of(v@),
{
    if prefix.len() > v.len() {
        return false;
    }
    let mut i: usize = 0;
    while i < prefix.len()
        invariant
            i <= prefix.len() <= v.len(),
            forall|j: int| 0 <= j < i ==> prefix@[j] == v@[j],
        decreases prefix.len() - i,
    {
        if prefix[i] != v[i] {
            proof {
                assert(v@.subrange(0, prefix.len() as int)[i as int] == v@[i as int]);
            }
            return false;
        }
        i += 1;
    }
    proof {
        assert(prefix@ =~= v@.subrange(0, prefix.len() as int));
    }
    true
}

/// Whether `a` and `b` hold the same characters.
pub fn same_chars(a: &Vec<char>, b: &Vec<char>) -> (r: bool)
    ensures
        r == (a@ == b@),
{
    if a.len() != b.len() {
        return false;
    }
    let mut i: usize = 0;
    while i < a.len()
        invariant
            i <= a.len() == b.len(),
            forall|j: int| 0 <= j < i ==> a@[j] == b@[j],
        decreases a.len() - i,
    {
        if a[i] != b[i] {
            return false;
        }
        i += 1;
    }
    proof {
        assert(a@ =~= b@);
    }
    true
}

/// The code point of `c`, with the upper-case letters of ASCII mapped to
/// their lower-case forms.
pub open spec fn fold_case(c: char) -> int {
    let n = c as int;
    if 0x41 <= n <= 0x5A {
        n + 0x20
    } else {
        n
    }
}

/// Computes `fold_case`.
pub fn folded(c: char) -> (n: u32)
    ensures
        n == fold_case(c),
{
    let n: u32 = code_point(c);
    if 0x41 <= n && n <= 0x5A {
        n + 0x20
    } else {
        n
    }
}

/// Whether `a` and `b` are equal up to the case of ASCII letters.
pub open spec fn same_ignoring_case(a: Seq<char>, b: Seq<char>) -> bool {
    &&& a.len() == b.len()
    &&& forall|i: int| 0 <= i < a.len() ==> fold_case(#[trigger] a[i]) == fold_case(b[i])
}

/// Decides `same_ignoring_case`.
pub fn equals_ignoring_case(a: &Vec<char>, b: &Vec<char>) -> (r: bool)
    ensures
        r == same_ignoring_case(a@, b@),
{
    if a.len() != b.len() {
        return false;
    }
    let mut i: usize = 0;
    while i < a.len()
        invariant
            i <= a.len() == b.len(),
            forall|j: int| 0 <= j < i ==> fold_case(#[trigger] a@[j]) == fold_case(b@[j]),
        decreases a.len() - i,
    {
        if folded(a[i]) != folded(b[i]) {
            return false;
        }
        i += 1;
    }
    true
}

} // verus!
