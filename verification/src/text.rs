//! Character-sequence utilities used by the matching, naming and parsing logic.
//!
//! Strings are modelled by their view, a `Seq<char>`. The Unicode-dependent
//! behaviour of `std` that takes tables to state (case mapping, the
//! alphanumeric class) is named by uninterpreted spec functions and reached
//! through small wrappers; whitespace and control characters are stated here.
use vstd::prelude::*;

verus! {

broadcast use vstd::string::group_string_axioms;

/// What `char::is_alphanumeric` answers for `c`.
pub uninterp spec fn spec_char_is_alphanumeric(c: char) -> bool;

/// Whether `c` has the Unicode White_Space property (what `char::is_whitespace`
/// answers): U+0009 to U+000D, U+0020, U+0085, U+00A0, U+1680, U+2000 to
/// U+200A, U+2028, U+2029, U+202F, U+205F and U+3000.
pub open spec fn white_space(c: char) -> bool {
    let n = c as u32;
    (9 <= n <= 13) || n == 32 || n == 0x85 || n == 0xA0 || n == 0x1680 || (0x2000 <= n <= 0x200A)
        || n == 0x2028 || n == 0x2029 || n == 0x202F || n == 0x205F || n == 0x3000
}

/// Whether `c` is in the Unicode general category Cc (what `char::is_control`
/// answers): U+0000 to U+001F and U+007F to U+009F.
pub open spec fn control_char(c: char) -> bool {
    let n = c as u32;
    n <= 0x1F || (0x7F <= n <= 0x9F)
}

/// The characters of `str::to_lowercase` applied to a string with characters `s`.
pub uninterp spec fn spec_str_lowercase(s: Seq<char>) -> Seq<char>;

/// The characters of `str::to_uppercase` applied to a string with characters `s`.
pub uninterp spec fn spec_str_uppercase(s: Seq<char>) -> Seq<char>;

/// Calls `char::is_alphanumeric` (Unicode Alphabetic or Numeric property).
/// Claimed: the answer depends on the character alone, and among ASCII
/// characters exactly the letters and digits are alphanumeric.
#[verifier::external_body]
pub(crate) fn char_is_alphanumeric(c: char) -> (b: bool)
    ensures
        b == spec_char_is_alphanumeric(c),
        (c as u32) < 128 ==> (b <==> is_ascii_alnum(c)),
{
    c.is_alphanumeric()
}

/// Whether `c` is whitespace, as `char::is_whitespace` answers.
pub fn char_is_whitespace(c: char) -> (b: bool)
    ensures
        b == white_space(c),
{
    let n = c as u32;
    (9 <= n && n <= 13) || n == 32 || n == 0x85 || n == 0xA0 || n == 0x1680 || (0x2000 <= n && n
        <= 0x200A) || n == 0x2028 || n == 0x2029 || n == 0x202F || n == 0x205F || n == 0x3000
}

/// Whether `c` is a control character, as `char::is_control` answers.
pub fn char_is_control(c: char) -> (b: bool)
    ensures
        b == control_char(c),
{
    let n = c as u32;
    n <= 0x1F || (0x7F <= n && n <= 0x9F)
}

/// Whether every character of `s` is ASCII.
pub open spec fn all_ascii(s: Seq<char>) -> bool {
    forall|i: int| 0 <= i < s.len() ==> (#[trigger] s[i] as u32) < 128
}

/// A character raised the way `char::to_ascii_uppercase` does.
pub open spec fn ascii_upper(c: char) -> char {
    if 'a' <= c && c <= 'z' {
        ((c as u32) - 32) as char
    } else {
        c
    }
}

/// Whether `s` holds no ASCII capital letter.
pub open spec fn no_ascii_capital(s: Seq<char>) -> bool {
    forall|i: int| 0 <= i < s.len() ==> !('A' <= #[trigger] s[i] && s[i] <= 'Z')
}

/// `s` with every ASCII capital lowered.
pub open spec fn lowered(s: Seq<char>) -> Seq<char> {
    s.map_values(|c: char| ascii_lower(c))
}

/// `s` with every ASCII small letter raised.
pub open spec fn raised(s: Seq<char>) -> Seq<char> {
    s.map_values(|c: char| ascii_upper(c))
}

/// On ASCII text, changing case keeps the text ASCII, and lowering forgets
/// any earlier raising or lowering (and raising any earlier lowering).
pub proof fn lemma_ascii_case(s: Seq<char>)
    requires
        all_ascii(s),
    ensures
        all_ascii(lowered(s)),
        all_ascii(raised(s)),
        lowered(raised(s)) == lowered(s),
        lowered(lowered(s)) == lowered(s),
        raised(lowered(s)) == raised(s),
{
    assert(lowered(raised(s)) =~= lowered(s));
    assert(lowered(lowered(s)) =~= lowered(s));
    assert(raised(lowered(s)) =~= raised(s));
}

/// Calls `str::to_lowercase`. Claimed: the result depends on the input alone;
/// it is no shorter than the input (each character lowers to one or more, as
/// the documentation of `char::to_lowercase` says); it holds no ASCII capital
/// (an ASCII capital lowers to its small letter, and no character lowers to
/// an ASCII capital); and on an all-ASCII string it lowers each ASCII capital
/// and keeps every other character (the ASCII letters' Unicode lowercase
/// mapping; the documentation's examples "HELLO" and "hello").
#[verifier::external_body]
pub(crate) fn str_to_lowercase(s: &str) -> (r: String)
    ensures
        r@ == spec_str_lowercase(s@),
        r@.len() >= s@.len(),
        no_ascii_capital(r@),
        all_ascii(s@) ==> r@ == lowered(s@),
{
    s.to_lowercase()
}

/// Calls `str::to_uppercase`. Claimed: the result depends on the input alone;
/// it is no shorter than the input (each character raises to one or more, as
/// the documentation of `char::to_uppercase` says); and on an all-ASCII string it raises each ASCII small letter and keeps every
/// other character (the ASCII letters' Unicode uppercase mapping; the
/// documentation's example "hello" and "HELLO").
#[verifier::external_body]
pub(crate) fn str_to_uppercase(s: &str) -> (r: String)
    ensures
        r@ == spec_str_uppercase(s@),
        r@.len() >= s@.len(),
        all_ascii(s@) ==> r@ == raised(s@),
{
    s.to_uppercase()
}

/// Calls `String::push`, which appends one character.
#[verifier::external_body]
pub(crate) fn string_push(s: &mut String, c: char)
    ensures
        final(s)@ == old(s)@.push(c),
{
    s.push(c);
}

/// Whether `n` occurs in `h` starting at position `i`.
pub open spec fn matches_at(h: Seq<char>, n: Seq<char>, i: int) -> bool {
    0 <= i && i + n.len() <= h.len() && h.subrange(i, i + n.len()) == n
}

/// The first position at or after `i` where `n` occurs in `h`.
pub open spec fn find_from(h: Seq<char>, n: Seq<char>, i: int) -> Option<int>
    decreases h.len() + 1 - i,
{
    if i < 0 || i + n.len() > h.len() {
        None
    } else if matches_at(h, n, i) {
        Some(i)
    } else {
        find_from(h, n, i + 1)
    }
}

/// The first position where `n` occurs in `h` (`str::find`).
pub open spec fn find(h: Seq<char>, n: Seq<char>) -> Option<int> {
    find_from(h, n, 0)
}

/// Whether `n` occurs in `h` (`str::contains`).
pub open spec fn contains(h: Seq<char>, n: Seq<char>) -> bool {
    find(h, n) is Some
}

/// Whether `h` begins with `n`.
pub open spec fn starts_with(h: Seq<char>, n: Seq<char>) -> bool {
    n.len() <= h.len() && h.take(n.len() as int) == n
}

/// Whether `h` ends with `n`.
pub open spec fn ends_with(h: Seq<char>, n: Seq<char>) -> bool {
    n.len() <= h.len() && h.skip(h.len() - n.len()) == n
}

/// `s` without its leading whitespace.
pub open spec fn trim_start(s: Seq<char>) -> Seq<char>
    decreases s.len(),
{
    if s.len() > 0 && white_space(s[0]) {
        trim_start(s.drop_first())
    } else {
        s
    }
}

/// `s` without its trailing whitespace.
pub open spec fn trim_end(s: Seq<char>) -> Seq<char>
    decreases s.len(),
{
    if s.len() > 0 && white_space(s.last()) {
        trim_end(s.drop_last())
    } else {
        s
    }
}

/// `s` without leading and trailing whitespace (`str::trim`).
pub open spec fn trim(s: Seq<char>) -> Seq<char> {
    trim_end(trim_start(s))
}

/// A character lowered the way `char::to_ascii_lowercase` does.
pub open spec fn ascii_lower(c: char) -> char {
    if 'A' <= c && c <= 'Z' {
        ((c as u32) + 32) as char
    } else {
        c
    }
}

/// Whether `c` is an ASCII letter or digit.
pub open spec fn is_ascii_alnum(c: char) -> bool {
    ('a' <= c && c <= 'z') || ('A' <= c && c <= 'Z') || ('0' <= c && c <= '9')
}

/// The characters of `s`, in order.
pub fn chars_of(s: &str) -> (v: Vec<char>)
    ensures
        v@ == s@,
{
    let mut v: Vec<char> = Vec::new();
    for c in it: s.chars()
        invariant
            v@ == it.seq().take(it.index() as int),
    {
        v.push(c);
    }
    v
}

/// A `String` holding the characters `v`.
pub fn string_of(v: &Vec<char>) -> (s: String)
    ensures
        s@ == v@,
{
    let mut s = String::new();
    let mut i: usize = 0;
    while i < v.len()
        invariant
            i <= v.len(),
            s@ == v@.take(i as int),
        decreases v.len() - i,
    {
        string_push(&mut s, v[i]);
        i = i + 1;
        assert(v@.take(i as int) == v@.take((i - 1) as int).push(v@[i - 1]));
    }
    assert(v@.take(v.len() as int) == v@);
    s
}

/// The lowercase characters of `s` (`str::to_lowercase`).
pub fn lower_chars(s: &str) -> (v: Vec<char>)
    ensures
        v@ == spec_str_lowercase(s@),
        v@.len() >= s@.len(),
        no_ascii_capital(v@),
        all_ascii(s@) ==> v@ == lowered(s@),
{
    let l = str_to_lowercase(s);
    chars_of(l.as_str())
}

/// Whether `n` occurs in `h` at position `i`.
pub fn matches_at_exec(h: &Vec<char>, n: &Vec<char>, i: usize) -> (b: bool)
    ensures
        b == matches_at(h@, n@, i as int),
{
    if i > h.len() || n.len() > h.len() - i {
        return false;
    }
    let mut j: usize = 0;
    while j < n.len()
        invariant
            i + n.len() <= h.len(),
            j <= n.len(),
            forall|k: int| 0 <= k < j ==> h@[i + k] == n@[k],
        decreases n.len() - j,
    {
        if h[i + j] != n[j] {
            assert(h@.subrange(i as int, i + n.len())[j as int] != n@[j as int]);
            return false;
        }
        j = j + 1;
    }
    assert(h@.subrange(i as int, i + n.len()) =~= n@);
    true
}

/// The first position at or after `from` where `n` occurs in `h`.
pub fn find_from_exec(h: &Vec<char>, n: &Vec<char>, from: usize) -> (r: Option<usize>)
    ensures
        match r {
            Some(p) => find_from(h@, n@, from as int) == Some(p as int),
            None => find_from(h@, n@, from as int) is None,
        },
{
    if n.len() == 0 {
        if from <= h.len() {
            assert(h@.subrange(from as int, from as int) =~= n@);
            return Some(from);
        }
        return None;
    }
    let mut i = from;
    while i <= h.len() && n.len() <= h.len() - i
        invariant
            from <= i,
            n.len() >= 1,
            find_from(h@, n@, from as int) == find_from(h@, n@, i as int),
        decreases h.len() + 1 - i,
    {
        if matches_at_exec(h, n, i) {
            return Some(i);
        }
        i = i + 1;
    }
    None
}

/// The first position where `n` occurs in `h`.
pub fn find_exec(h: &Vec<char>, n: &Vec<char>) -> (r: Option<usize>)
    ensures
        match r {
            Some(p) => find(h@, n@) == Some(p as int),
            None => find(h@, n@) is None,
        },
{
    find_from_exec(h, n, 0)
}

/// Whether `n` occurs in `h`.
pub fn contains_exec(h: &Vec<char>, n: &Vec<char>) -> (b: bool)
    ensures
        b == contains(h@, n@),
{
    find_exec(h, n).is_some()
}

/// Whether the characters `h` contain the string `n`.
pub fn contains_str(h: &Vec<char>, n: &str) -> (b: bool)
    ensures
        b == contains(h@, n@),
{
    let nv = chars_of(n);
    contains_exec(h, &nv)
}

/// Whether `h` begins with `n`.
pub fn starts_with_exec(h: &Vec<char>, n: &Vec<char>) -> (b: bool)
    ensures
        b == starts_with(h@, n@),
{
    let b = matches_at_exec(h, n, 0);
    proof {
        if n@.len() <= h@.len() {
            assert(h@.subrange(0, n@.len() as int) == h@.take(n@.len() as int));
        }
    }
    b
}

/// Whether `h` ends with `n`.
pub fn ends_with_exec(h: &Vec<char>, n: &Vec<char>) -> (b: bool)
    ensures
        b == ends_with(h@, n@),
{
    if n.len() > h.len() {
        return false;
    }
    let b = matches_at_exec(h, n, h.len() - n.len());
    proof {
        assert(h@.subrange(h@.len() - n@.len(), h@.len() as int) == h@.skip(h@.len() - n@.len()));
    }
    b
}

/// The characters `v[a..b]`.
pub fn slice_chars(v: &Vec<char>, a: usize, b: usize) -> (r: Vec<char>)
    requires
        a <= b <= v.len(),
    ensures
        r@ == v@.subrange(a as int, b as int),
{
    let mut r: Vec<char> = Vec::new();
    let mut i = a;
    while i < b
        invariant
            a <= i <= b <= v.len(),
            r@ == v@.subrange(a as int, i as int),
        decreases b - i,
    {
        r.push(v[i]);
        i = i + 1;
        assert(r@ =~= v@.subrange(a as int, i as int));
    }
    r
}

pub proof fn lemma_trim_start_skip(s: Seq<char>, i: int)
    requires
        0 <= i <= s.len(),
        forall|k: int| 0 <= k < i ==> white_space(#[trigger] s[k]),
    ensures
        trim_start(s) == trim_start(s.skip(i)),
    decreases i,
{
    if i > 0 {
        assert(s.drop_first().skip(i - 1) =~= s.skip(i));
        assert forall|k: int| 0 <= k < i - 1 implies white_space(
            #[trigger] s.drop_first()[k],
        ) by {
            assert(s.drop_first()[k] == s[k + 1]);
        }
        lemma_trim_start_skip(s.drop_first(), i - 1);
    } else {
        assert(s.skip(0) =~= s);
    }
}

pub proof fn lemma_trim_end_take(s: Seq<char>, j: int)
    requires
        0 <= j <= s.len(),
        forall|k: int| j <= k < s.len() ==> white_space(#[trigger] s[k]),
    ensures
        trim_end(s) == trim_end(s.take(j)),
    decreases s.len() - j,
{
    if j < s.len() {
        assert(s.drop_last().take(j) =~= s.take(j));
        assert forall|k: int| j <= k < s.drop_last().len() implies white_space(
            #[trigger] s.drop_last()[k],
        ) by {
            assert(s.drop_last()[k] == s[k]);
        }
        lemma_trim_end_take(s.drop_last(), j);
    } else {
        assert(s.take(j) =~= s);
    }
}

/// The characters of `v` without leading and trailing whitespace.
pub fn trim_chars(v: &Vec<char>) -> (r: Vec<char>)
    ensures
        r@ == trim(v@),
{
    let mut i: usize = 0;
    while i < v.len() && char_is_whitespace(v[i])
        invariant
            i <= v.len(),
            forall|k: int| 0 <= k < i ==> white_space(#[trigger] v@[k]),
        decreases v.len() - i,
    {
        i = i + 1;
    }
    proof {
        lemma_trim_start_skip(v@, i as int);
    }
    let ghost t = v@.skip(i as int);
    let mut j: usize = v.len();
    while j > i && char_is_whitespace(v[j - 1])
        invariant
            i <= j <= v.len(),
            t == v@.skip(i as int),
            forall|k: int| j - i <= k < t.len() ==> white_space(#[trigger] t[k]),
        decreases j - i,
    {
        j = j - 1;
    }
    proof {
        lemma_trim_end_take(t, j - i);
        assert(t.take(j - i) =~= v@.subrange(i as int, j as int));
        if j > i {
            assert(!white_space(t.take(j - i).last()));
        }
        if i < v.len() {
            assert(!white_space(t[0]));
        }
    }
    slice_chars(v, i, j)
}

/// `s` without leading and trailing whitespace, as characters.
pub fn trim_str(s: &str) -> (r: Vec<char>)
    ensures
        r@ == trim(s@),
{
    let v = chars_of(s);
    trim_chars(&v)
}

/// Whether two character sequences are equal.
pub fn chars_eq(a: &Vec<char>, b: &Vec<char>) -> (r: bool)
    ensures
        r == (a@ == b@),
{
    if a.len() != b.len() {
        return false;
    }
    let mut i: usize = 0;
    while i < a.len()
        invariant
            a.len() == b.len(),
            i <= a.len(),
            forall|k: int| 0 <= k < i ==> a@[k] == b@[k],
        decreases a.len() - i,
    {
        if a[i] != b[i] {
            return false;
        }
        i = i + 1;
    }
    assert(a@ =~= b@);
    true
}

/// The concatenation of `a` and `b`.
pub fn concat_chars(a: &Vec<char>, b: &Vec<char>) -> (r: Vec<char>)
    ensures
        r@ == a@ + b@,
{
    let mut r = a.clone();
    let mut i: usize = 0;
    while i < b.len()
        invariant
            i <= b.len(),
            r@ == a@ + b@.take(i as int),
        decreases b.len() - i,
    {
        r.push(b[i]);
        i = i + 1;
        assert(r@ =~= a@ + b@.take(i as int));
    }
    assert(b@.take(b.len() as int) =~= b@);
    r
}

/// Appends the characters of `s` to `v`.
pub fn push_str_chars(v: &mut Vec<char>, s: &str)
    ensures
        final(v)@ == old(v)@ + s@,
{
    let sv = chars_of(s);
    let mut i: usize = 0;
    while i < sv.len()
        invariant
            i <= sv.len(),
            sv@ == s@,
            v@ == old(v)@ + sv@.take(i as int),
        decreases sv.len() - i,
    {
        v.push(sv[i]);
        i = i + 1;
        assert(v@ =~= old(v)@ + sv@.take(i as int));
    }
    assert(sv@.take(sv.len() as int) =~= sv@);
}

/// Appends the characters `s` to `v`.
pub fn push_chars(v: &mut Vec<char>, s: &Vec<char>)
    ensures
        final(v)@ == old(v)@ + s@,
{
    let mut i: usize = 0;
    while i < s.len()
        invariant
            i <= s.len(),
            v@ == old(v)@ + s@.take(i as int),
        decreases s.len() - i,
    {
        v.push(s[i]);
        i = i + 1;
        assert(v@ =~= old(v)@ + s@.take(i as int));
    }
    assert(s@.take(s.len() as int) =~= s@);
}

/// The number of leading characters of `t` that are not whitespace.
pub open spec fn leading_word_len(t: Seq<char>) -> nat
    decreases t.len(),
{
    if t.len() > 0 && !white_space(t[0]) {
        1 + leading_word_len(t.drop_first())
    } else {
        0
    }
}

pub proof fn lemma_trim_start_shape(s: Seq<char>)
    ensures
        trim_start(s).len() <= s.len(),
        trim_start(s) == s.skip(s.len() - trim_start(s).len()),
        trim_start(s).len() > 0 ==> !white_space(trim_start(s)[0]),
    decreases s.len(),
{
    if s.len() > 0 && white_space(s[0]) {
        lemma_trim_start_shape(s.drop_first());
        assert(s.drop_first().skip(s.drop_first().len() - trim_start(s).len()) =~= s.skip(
            s.len() - trim_start(s).len(),
        ));
    } else {
        assert(s.skip(0) =~= s);
    }
}

pub proof fn lemma_leading_word_len(t: Seq<char>)
    ensures
        leading_word_len(t) <= t.len(),
        t.len() > 0 && !white_space(t[0]) ==> leading_word_len(t) >= 1,
        forall|k: int| 0 <= k < leading_word_len(t) ==> !white_space(#[trigger] t[k]),
        leading_word_len(t) < t.len() ==> white_space(t[leading_word_len(t) as int]),
    decreases t.len(),
{
    if t.len() > 0 && !white_space(t[0]) {
        lemma_leading_word_len(t.drop_first());
        assert forall|k: int| 0 <= k < leading_word_len(t) implies !white_space(
            #[trigger] t[k],
        ) by {
            if k > 0 {
                assert(t[k] == t.drop_first()[k - 1]);
            }
        }
    }
}

pub proof fn lemma_leading_word_len_exact(t: Seq<char>, m: int)
    requires
        0 <= m <= t.len(),
        forall|k: int| 0 <= k < m ==> !white_space(#[trigger] t[k]),
        m == t.len() || white_space(t[m]),
    ensures
        leading_word_len(t) == m,
    decreases m,
{
    if m > 0 {
        assert forall|k: int| 0 <= k < m - 1 implies !white_space(
            #[trigger] t.drop_first()[k],
        ) by {
            assert(t.drop_first()[k] == t[k + 1]);
        }
        if m < t.len() {
            assert(t.drop_first()[m - 1] == t[m]);
        }
        lemma_leading_word_len_exact(t.drop_first(), m - 1);
    }
}

/// The whitespace-separated words of `s` (`str::split_whitespace`).
pub open spec fn words(s: Seq<char>) -> Seq<Seq<char>>
    decreases s.len(),
{
    let t = trim_start(s);
    if t.len() == 0 {
        seq![]
    } else {
        let n = leading_word_len(t);
        proof {
            lemma_trim_start_shape(s);
            lemma_leading_word_len(t);
        }
        seq![t.take(n as int)] + words(t.skip(n as int))
    }
}

/// The words `ws` joined by single spaces (`[..].join(" ")`).
pub open spec fn join_space(ws: Seq<Seq<char>>) -> Seq<char>
    decreases ws.len(),
{
    if ws.len() == 0 {
        seq![]
    } else if ws.len() == 1 {
        ws[0]
    } else {
        join_space(ws.drop_last()) + seq![' '] + ws.last()
    }
}

/// `s` with its words separated by single spaces and no whitespace around them.
pub open spec fn collapse_spaces(s: Seq<char>) -> Seq<char> {
    join_space(words(s))
}

/// Whether every character of `s` satisfies `p`.
pub open spec fn all_chars(s: Seq<char>, p: spec_fn(char) -> bool) -> bool {
    forall|i: int| 0 <= i < s.len() ==> p(#[trigger] s[i])
}

proof fn lemma_words_keep(s: Seq<char>, p: spec_fn(char) -> bool)
    requires
        all_chars(s, p),
    ensures
        forall|j: int| 0 <= j < words(s).len() ==> all_chars(#[trigger] words(s)[j], p),
    decreases s.len(),
{
    let t = trim_start(s);
    lemma_trim_start_shape(s);
    if t.len() > 0 {
        let n = leading_word_len(t);
        lemma_leading_word_len(t);
        assert forall|i: int| 0 <= i < t.len() implies p(#[trigger] t[i]) by {
            assert(t[i] == s[i + (s.len() - t.len())]);
        }
        let rest = t.skip(n as int);
        assert forall|i: int| 0 <= i < rest.len() implies p(#[trigger] rest[i]) by {
            assert(rest[i] == t[i + n]);
        }
        lemma_words_keep(rest, p);
        assert(words(s) == seq![t.take(n as int)] + words(rest));
        assert forall|j: int| 0 <= j < words(s).len() implies all_chars(#[trigger] words(s)[j], p) by {
            if j > 0 {
                assert(words(s)[j] == words(rest)[j - 1]);
            } else {
                assert forall|i: int| 0 <= i < t.take(n as int).len() implies p(
                    #[trigger] t.take(n as int)[i],
                ) by {
                    assert(t.take(n as int)[i] == t[i]);
                }
            }
        }
    }
}

proof fn lemma_join_keep(ws: Seq<Seq<char>>, p: spec_fn(char) -> bool)
    requires
        p(' '),
        forall|j: int| 0 <= j < ws.len() ==> all_chars(#[trigger] ws[j], p),
    ensures
        all_chars(join_space(ws), p),
    decreases ws.len(),
{
    if ws.len() > 1 {
        let init = ws.drop_last();
        assert forall|j: int| 0 <= j < init.len() implies all_chars(#[trigger] init[j], p) by {
            assert(init[j] == ws[j]);
        }
        lemma_join_keep(init, p);
        let a = join_space(init);
        let l = ws.last();
        assert(all_chars(l, p)) by {
            assert(l == ws[ws.len() - 1]);
        }
        let r = a + seq![' '] + l;
        assert forall|i: int| 0 <= i < r.len() implies p(#[trigger] r[i]) by {
            if i < a.len() {
                assert(r[i] == a[i]);
            } else if i == a.len() {
                assert(r[i] == ' ');
            } else {
                assert(r[i] == l[i - a.len() - 1]);
            }
        }
    } else if ws.len() == 1 {
        assert(all_chars(ws[0], p));
    }
}

/// Collapsing whitespace keeps a property that every character of the text
/// and the space have.
pub proof fn lemma_collapse_keeps(s: Seq<char>, p: spec_fn(char) -> bool)
    requires
        p(' '),
        all_chars(s, p),
    ensures
        all_chars(collapse_spaces(s), p),
{
    lemma_words_keep(s, p);
    lemma_join_keep(words(s), p);
}

/// Whether `s` has two spaces at positions `i` and `i + 1`.
pub open spec fn double_space_at(s: Seq<char>, i: int) -> bool {
    s[i] == ' ' && s[i + 1] == ' '
}

/// Whether `s` neither begins nor ends with a space and holds no two spaces
/// in a row.
pub open spec fn well_spaced(s: Seq<char>) -> bool {
    &&& s.len() > 0 ==> s[0] != ' ' && s[s.len() - 1] != ' '
    &&& forall|i: int| 0 <= i < s.len() - 1 ==> !#[trigger] double_space_at(s, i)
}

proof fn lemma_words_shape(s: Seq<char>)
    ensures
        forall|j: int| 0 <= j < words(s).len() ==> (#[trigger] words(s)[j]).len() > 0 && all_chars(
            words(s)[j],
            |c: char| !white_space(c),
        ),
    decreases s.len(),
{
    let t = trim_start(s);
    lemma_trim_start_shape(s);
    if t.len() > 0 {
        let n = leading_word_len(t);
        lemma_leading_word_len(t);
        let rest = t.skip(n as int);
        lemma_words_shape(rest);
        assert(words(s) == seq![t.take(n as int)] + words(rest));
        assert forall|j: int| 0 <= j < words(s).len() implies (#[trigger] words(s)[j]).len() > 0
            && all_chars(words(s)[j], |c: char| !white_space(c)) by {
            if j > 0 {
                assert(words(s)[j] == words(rest)[j - 1]);
            } else {
                assert forall|i: int| 0 <= i < t.take(n as int).len() implies !white_space(
                    #[trigger] t.take(n as int)[i],
                ) by {
                    assert(t.take(n as int)[i] == t[i]);
                }
            }
        }
    }
}

proof fn lemma_join_spaced(ws: Seq<Seq<char>>)
    requires
        forall|j: int| 0 <= j < ws.len() ==> (#[trigger] ws[j]).len() > 0 && all_chars(ws[j], |c: char| c != ' '),
    ensures
        well_spaced(join_space(ws)),
        ws.len() > 0 ==> join_space(ws).len() > 0,
    decreases ws.len(),
{
    if ws.len() > 1 {
        let init = ws.drop_last();
        assert forall|j: int| 0 <= j < init.len() implies (#[trigger] init[j]).len() > 0 && all_chars(
            init[j],
            |c: char| c != ' ',
        ) by {
            assert(init[j] == ws[j]);
        }
        lemma_join_spaced(init);
        let a = join_space(init);
        let l = ws.last();
        assert(l == ws[ws.len() - 1]);
        assert(l.len() > 0 && all_chars(l, |c: char| c != ' '));
        let r = a + seq![' '] + l;
        assert(r[0] == a[0]);
        assert(r[r.len() - 1] == l[l.len() - 1]);
        assert forall|i: int| 0 <= i < r.len() - 1 implies !#[trigger] double_space_at(r, i) by {
            if i < a.len() - 1 {
                assert(r[i] == a[i] && r[i + 1] == a[i + 1]);
                assert(!double_space_at(a, i));
            } else if i == a.len() - 1 {
                assert(r[i] == a[a.len() - 1]);
            } else if i == a.len() {
                assert(r[i + 1] == l[0]);
            } else {
                assert(r[i] == l[i - a.len() - 1]);
            }
        }
    } else if ws.len() == 1 {
        let w = ws[0];
        assert(all_chars(w, |c: char| c != ' '));
        assert forall|i: int| 0 <= i < w.len() - 1 implies !#[trigger] double_space_at(w, i) by {
            assert(w[i] != ' ');
        }
    }
}

/// Collapsing whitespace leaves a text without leading, trailing or doubled
/// spaces, whose characters are spaces or non-whitespace characters of the
/// text that have whatever property `q` all its characters have.
pub proof fn lemma_collapse_clean(s: Seq<char>, q: spec_fn(char) -> bool)
    requires
        all_chars(s, q),
    ensures
        well_spaced(collapse_spaces(s)),
        all_chars(collapse_spaces(s), |c: char| c == ' ' || (q(c) && !white_space(c))),
{
    lemma_words_keep(s, q);
    lemma_words_shape(s);
    let ws = words(s);
    let p = |c: char| c == ' ' || (q(c) && !white_space(c));
    assert forall|j: int| 0 <= j < ws.len() implies (#[trigger] ws[j]).len() > 0 && all_chars(
        ws[j],
        |c: char| c != ' ',
    ) && all_chars(ws[j], p) by {
        assert(all_chars(ws[j], q));
        assert(all_chars(ws[j], |c: char| !white_space(c)));
        assert forall|i: int| 0 <= i < ws[j].len() implies #[trigger] ws[j][i] != ' ' && p(ws[j][i]) by {
            assert(q(ws[j][i]));
            assert(!white_space(ws[j][i]));
        }
    }
    lemma_join_spaced(ws);
    assert(p(' '));
    lemma_join_keep(ws, p);
}

/// The views of a vector of character vectors.
pub open spec fn views(v: Seq<Vec<char>>) -> Seq<Seq<char>> {
    v.map_values(|w: Vec<char>| w@)
}

pub proof fn lemma_words_skip_space(s: Seq<char>)
    requires
        s.len() > 0,
        white_space(s[0]),
    ensures
        words(s) == words(s.drop_first()),
{
    assert(trim_start(s) == trim_start(s.drop_first()));
}

/// The whitespace-separated words of `v`.
pub fn split_whitespace(v: &Vec<char>) -> (r: Vec<Vec<char>>)
    ensures
        views(r@) == words(v@),
{
    let mut out: Vec<Vec<char>> = Vec::new();
    let mut i: usize = 0;
    proof {
        assert(v@.skip(0) =~= v@);
    }
    while i < v.len()
        invariant
            i <= v.len(),
            words(v@) == views(out@) + words(v@.skip(i as int)),
        decreases v.len() - i,
    {
        if char_is_whitespace(v[i]) {
            proof {
                lemma_words_skip_space(v@.skip(i as int));
                assert(v@.skip(i as int).drop_first() =~= v@.skip(i + 1));
            }
            i = i + 1;
        } else {
            let mut j = i;
            while j < v.len() && !char_is_whitespace(v[j])
                invariant
                    i <= j <= v.len(),
                    forall|k: int| i <= k < j ==> !white_space(#[trigger] v@[k]),
                decreases v.len() - j,
            {
                j = j + 1;
            }
            let word = slice_chars(v, i, j);
            proof {
                let t = v@.skip(i as int);
                assert(trim_start(t) == t);
                assert forall|k: int| 0 <= k < j - i implies !white_space(
                    #[trigger] t[k],
                ) by {
                    assert(t[k] == v@[i + k]);
                }
                if j < v.len() {
                    assert(t[j - i] == v@[j as int]);
                }
                lemma_leading_word_len_exact(t, j - i);
                assert(t.take(j - i) =~= word@);
                assert(t.skip(j - i) =~= v@.skip(j as int));
                assert(views(out@.push(word)) =~= views(out@) + seq![word@]);
            }
            out.push(word);
            i = j;
        }
    }
    proof {
        assert(v@.skip(i as int).len() == 0);
        assert(views(out@) + seq![] =~= views(out@));
    }
    out
}

/// The words `ws` joined by single spaces.
pub fn join_with_space(ws: &Vec<Vec<char>>) -> (r: Vec<char>)
    ensures
        r@ == join_space(views(ws@)),
{
    let mut r: Vec<char> = Vec::new();
    let mut i: usize = 0;
    while i < ws.len()
        invariant
            i <= ws.len(),
            r@ == join_space(views(ws@.take(i as int))),
        decreases ws.len() - i,
    {
        let ghost before = views(ws@.take(i as int));
        let ghost after = views(ws@.take(i + 1));
        assert(after.drop_last() =~= before);
        assert(after.last() == ws@[i as int]@);
        if i > 0 {
            r.push(' ');
        }
        push_chars(&mut r, &ws[i]);
        i = i + 1;
        proof {
            if i == 1 {
                assert(r@ =~= after[0]);
            } else {
                assert(r@ =~= join_space(before) + seq![' '] + after.last());
            }
        }
    }
    assert(ws@.take(ws.len() as int) =~= ws@);
    r
}

/// `v` with its words separated by single spaces.
pub fn collapse_spaces_exec(v: &Vec<char>) -> (r: Vec<char>)
    ensures
        r@ == collapse_spaces(v@),
{
    let ws = split_whitespace(v);
    join_with_space(&ws)
}

/// The pieces of `s` between occurrences of the nonempty delimiter `d` (`str::split`).
pub open spec fn split_on(s: Seq<char>, d: Seq<char>) -> Seq<Seq<char>>
    decreases s.len(),
{
    if d.len() == 0 {
        seq![s]
    } else {
        match find(s, d) {
            Some(p) => {
                proof {
                    lemma_find_bounds(s, d, 0);
                }
                seq![s.take(p)] + split_on(s.skip(p + d.len()), d)
            },
            None => seq![s],
        }
    }
}

pub proof fn lemma_find_bounds(h: Seq<char>, n: Seq<char>, i: int)
    ensures
        find_from(h, n, i) matches Some(p) ==> i <= p && p + n.len() <= h.len() && matches_at(h, n, p),
    decreases h.len() + 1 - i,
{
    if i < 0 || i + n.len() > h.len() {
    } else if matches_at(h, n, i) {
    } else {
        lemma_find_bounds(h, n, i + 1);
    }
}

/// The pieces of `s` between occurrences of the nonempty delimiter `d`.
pub fn split_on_exec(s: &Vec<char>, d: &Vec<char>) -> (r: Vec<Vec<char>>)
    requires
        d.len() > 0,
    ensures
        views(r@) == split_on(s@, d@),
{
    let mut out: Vec<Vec<char>> = Vec::new();
    let mut rest = s.clone();
    loop
        invariant
            d.len() > 0,
            split_on(s@, d@) == views(out@) + split_on(rest@, d@),
        decreases rest.len(),
    {
        match find_exec(&rest, d) {
            Some(p) => {
                proof {
                    lemma_find_bounds(rest@, d@, 0);
                }
                let piece = slice_chars(&rest, 0, p);
                let next = slice_chars(&rest, p + d.len(), rest.len());
                proof {
                    assert(piece@ =~= rest@.take(p as int));
                    assert(next@ =~= rest@.skip(p + d.len()));
                    assert(views(out@.push(piece)) =~= views(out@) + seq![piece@]);
                }
                out.push(piece);
                rest = next;
            },
            None => {
                proof {
                    assert(views(out@.push(rest)) =~= views(out@) + seq![rest@]);
                }
                out.push(rest);
                return out;
            },
        }
    }
}

/// The concatenation of five strings.
pub fn concat5(a: &str, b: &str, c: &str, d: &str, e: &str) -> (r: String)
    ensures
        r@ == a@ + b@ + c@ + d@ + e@,
{
    let mut v: Vec<char> = Vec::new();
    push_str_chars(&mut v, a);
    push_str_chars(&mut v, b);
    push_str_chars(&mut v, c);
    push_str_chars(&mut v, d);
    push_str_chars(&mut v, e);
    assert(v@ =~= a@ + b@ + c@ + d@ + e@);
    string_of(&v)
}

/// The concatenation of seven strings.
pub fn concat7(a: &str, b: &str, c: &str, d: &str, e: &str, f: &str, g: &str) -> (r: String)
    ensures
        r@ == a@ + b@ + c@ + d@ + e@ + f@ + g@,
{
    let mut v: Vec<char> = Vec::new();
    push_str_chars(&mut v, a);
    push_str_chars(&mut v, b);
    push_str_chars(&mut v, c);
    push_str_chars(&mut v, d);
    push_str_chars(&mut v, e);
    push_str_chars(&mut v, f);
    push_str_chars(&mut v, g);
    assert(v@ =~= a@ + b@ + c@ + d@ + e@ + f@ + g@);
    string_of(&v)
}

/// The concatenation of three strings.
pub fn concat3(a: &str, b: &str, c: &str) -> (r: String)
    ensures
        r@ == a@ + b@ + c@,
{
    let mut v: Vec<char> = Vec::new();
    push_str_chars(&mut v, a);
    push_str_chars(&mut v, b);
    push_str_chars(&mut v, c);
    assert(v@ =~= a@ + b@ + c@);
    string_of(&v)
}

/// The number of bytes UTF-8 takes for `c`.
pub open spec fn utf8_width(c: char) -> nat {
    if (c as u32) < 0x80 {
        1
    } else if (c as u32) < 0x800 {
        2
    } else if (c as u32) < 0x10000 {
        3
    } else {
        4
    }
}

/// The number of bytes UTF-8 takes for `s` (`str::len`).
pub open spec fn utf8_byte_len(s: Seq<char>) -> nat
    decreases s.len(),
{
    if s.len() == 0 {
        0
    } else {
        utf8_byte_len(s.drop_last()) + utf8_width(s.last())
    }
}

/// The number of bytes UTF-8 takes for the characters `v`.
pub fn utf8_byte_len_exec(v: &Vec<char>) -> (n: u128)
    ensures
        n == utf8_byte_len(v@),
        n <= 4 * v.len(),
{
    let mut n: u128 = 0;
    let mut i: usize = 0;
    while i < v.len()
        invariant
            i <= v.len(),
            n == utf8_byte_len(v@.take(i as int)),
            n <= 4 * i,
        decreases v.len() - i,
    {
        assert(v@.take(i + 1).drop_last() =~= v@.take(i as int));
        let c = v[i] as u32;
        let w: u128 = if c < 0x80 {
            1
        } else if c < 0x800 {
            2
        } else if c < 0x10000 {
            3
        } else {
            4
        };
        n = n + w;
        i = i + 1;
    }
    assert(v@.take(v.len() as int) =~= v@);
    n
}

/// The concatenation of two strings.
pub fn concat2(a: &str, b: &str) -> (r: String)
    ensures
        r@ == a@ + b@,
{
    let mut v: Vec<char> = Vec::new();
    push_str_chars(&mut v, a);
    push_str_chars(&mut v, b);
    string_of(&v)
}

/// `s` with every occurrence of the nonempty `from` replaced by `to`,
/// scanning left to right (`str::replace`).
pub open spec fn replace_all(s: Seq<char>, from: Seq<char>, to: Seq<char>) -> Seq<char>
    decreases s.len(),
{
    if from.len() == 0 {
        s
    } else {
        match find(s, from) {
            Some(p) => {
                proof {
                    lemma_find_bounds(s, from, 0);
                }
                s.take(p) + to + replace_all(s.skip(p + from.len()), from, to)
            },
            None => s,
        }
    }
}

/// `s` with every occurrence of the nonempty `from` replaced by `to`.
pub fn replace_all_exec(s: &Vec<char>, from: &Vec<char>, to: &Vec<char>) -> (r: Vec<char>)
    requires
        from.len() > 0,
    ensures
        r@ == replace_all(s@, from@, to@),
{
    let mut out: Vec<char> = Vec::new();
    let mut rest = s.clone();
    loop
        invariant
            from.len() > 0,
            replace_all(s@, from@, to@) == out@ + replace_all(rest@, from@, to@),
        decreases rest.len(),
    {
        match find_exec(&rest, from) {
            Some(p) => {
                proof {
                    lemma_find_bounds(rest@, from@, 0);
                }
                let piece = slice_chars(&rest, 0, p);
                let next = slice_chars(&rest, p + from.len(), rest.len());
                let ghost before = out@;
                push_chars(&mut out, &piece);
                push_chars(&mut out, to);
                proof {
                    assert(out@ + replace_all(next@, from@, to@) =~= before + replace_all(rest@, from@, to@));
                }
                rest = next;
            },
            None => {
                push_chars(&mut out, &rest);
                return out;
            },
        }
    }
}

/// The characters of `s` after its last `c` (all of `s` when there is none):
/// the first item of `str::rsplit(c)`.
pub open spec fn after_last(s: Seq<char>, c: char) -> Seq<char>
    decreases s.len(),
{
    if s.len() == 0 {
        s
    } else if s.last() == c {
        Seq::empty()
    } else {
        after_last(s.drop_last(), c).push(s.last())
    }
}

/// The characters of `s` before its last `c`, if it has one: the first part
/// of `str::rsplit_once(c)`.
pub open spec fn before_last(s: Seq<char>, c: char) -> Option<Seq<char>>
    decreases s.len(),
{
    if s.len() == 0 {
        None
    } else if s.last() == c {
        Some(s.drop_last())
    } else {
        before_last(s.drop_last(), c)
    }
}

/// The position of the last `c` in `s`.
pub open spec fn last_index(s: Seq<char>, c: char) -> Option<int>
    decreases s.len(),
{
    if s.len() == 0 {
        None
    } else if s.last() == c {
        Some(s.len() - 1)
    } else {
        last_index(s.drop_last(), c)
    }
}

pub proof fn lemma_last_index(s: Seq<char>, c: char)
    ensures
        match last_index(s, c) {
            Some(i) => 0 <= i < s.len() && s[i] == c && before_last(s, c) == Some(s.take(i))
                && after_last(s, c) == s.skip(i + 1)
                && forall|j: int| i < j < s.len() ==> s[j] != c,
            None => before_last(s, c) is None && after_last(s, c) == s
                && forall|j: int| 0 <= j < s.len() ==> s[j] != c,
        },
    decreases s.len(),
{
    if s.len() > 0 {
        let t = s.drop_last();
        lemma_last_index(t, c);
        if s.last() != c {
            match last_index(t, c) {
                Some(i) => {
                    assert(t.take(i) =~= s.take(i));
                    assert(t.skip(i + 1).push(s.last()) =~= s.skip(i + 1));
                    assert forall|j: int| i < j < s.len() implies s[j] != c by {
                        if j < s.len() - 1 {
                            assert(s[j] == t[j]);
                        }
                    }
                },
                None => {
                    assert(t.push(s.last()) =~= s);
                    assert forall|j: int| 0 <= j < s.len() implies s[j] != c by {
                        if j < s.len() - 1 {
                            assert(s[j] == t[j]);
                        }
                    }
                },
            }
        } else {
            assert(s.skip(s.len() as int) =~= Seq::<char>::empty());
            assert(s.take(s.len() - 1) =~= t);
        }
    }
}

/// The position of the last `c` in `v`.
pub fn last_index_exec(v: &Vec<char>, c: char) -> (r: Option<usize>)
    ensures
        r matches Some(i) ==> last_index(v@, c) == Some(i as int) && i < v.len(),
        r is None ==> last_index(v@, c) is None,
{
    let mut i: usize = v.len();
    assert(v@.take(i as int) =~= v@);
    while i > 0
        invariant
            i <= v.len(),
            last_index(v@, c) == last_index(v@.take(i as int), c),
        decreases i,
    {
        assert(v@.take(i as int).drop_last() =~= v@.take(i - 1));
        if v[i - 1] == c {
            return Some(i - 1);
        }
        i = i - 1;
    }
    None
}

/// The characters of `v` after its last `c` (`str::rsplit(c).next()`).
pub fn after_last_exec(v: &Vec<char>, c: char) -> (r: Vec<char>)
    ensures
        r@ == after_last(v@, c),
{
    proof {
        lemma_last_index(v@, c);
    }
    match last_index_exec(v, c) {
        Some(i) => slice_chars(v, i + 1, v.len()),
        None => v.clone(),
    }
}

/// The characters of `v` before its last `c` (`str::rsplit_once(c)`).
pub fn before_last_exec(v: &Vec<char>, c: char) -> (r: Option<Vec<char>>)
    ensures
        match r {
            Some(b) => before_last(v@, c) == Some(b@),
            None => before_last(v@, c) is None,
        },
{
    proof {
        lemma_last_index(v@, c);
    }
    match last_index_exec(v, c) {
        Some(i) => Some(slice_chars(v, 0, i)),
        None => None,
    }
}

/// The decimal digit for `d < 10`.
pub open spec fn digit_char(d: nat) -> char {
    if d == 0 {
        '0'
    } else if d == 1 {
        '1'
    } else if d == 2 {
        '2'
    } else if d == 3 {
        '3'
    } else if d == 4 {
        '4'
    } else if d == 5 {
        '5'
    } else if d == 6 {
        '6'
    } else if d == 7 {
        '7'
    } else if d == 8 {
        '8'
    } else {
        '9'
    }
}

/// The decimal representation of `n`, without leading zeros.
pub open spec fn decimal(n: nat) -> Seq<char>
    decreases n,
{
    if n < 10 {
        seq![digit_char(n)]
    } else {
        decimal(n / 10).push(digit_char(n % 10))
    }
}

fn digit_char_exec(d: u64) -> (c: char)
    requires
        d < 10,
    ensures
        c == digit_char(d as nat),
{
    match d {
        0 => '0',
        1 => '1',
        2 => '2',
        3 => '3',
        4 => '4',
        5 => '5',
        6 => '6',
        7 => '7',
        8 => '8',
        _ => '9',
    }
}

/// The decimal representation of `n` (as `ToString` writes an integer).
pub fn decimal_chars(n: u64) -> (r: Vec<char>)
    ensures
        r@ == decimal(n as nat),
    decreases n,
{
    if n < 10 {
        let mut v: Vec<char> = Vec::new();
        v.push(digit_char_exec(n));
        assert(v@ =~= seq![digit_char(n as nat)]);
        v
    } else {
        let mut v = decimal_chars(n / 10);
        v.push(digit_char_exec(n % 10));
        v
    }
}

/// Whether `c` is an ASCII decimal digit.
pub open spec fn is_digit(c: char) -> bool {
    '0' <= c && c <= '9'
}

/// The value of the decimal digits `s`.
pub open spec fn digits_value(s: Seq<char>) -> nat
    decreases s.len(),
{
    if s.len() == 0 {
        0
    } else {
        10 * digits_value(s.drop_last()) + ((s.last() as u32) - ('0' as u32)) as nat
    }
}

/// `s` without a leading sign character.
pub open spec fn unsigned_part(s: Seq<char>) -> Seq<char> {
    if s.len() > 0 && (s[0] == '-' || s[0] == '+') {
        s.skip(1)
    } else {
        s
    }
}

/// What `str::parse::<i64>` accepts and gives: an optional sign, then one or
/// more ASCII digits whose value fits in `i64`.
pub open spec fn parse_i64(s: Seq<char>) -> Option<i64> {
    let neg = s.len() > 0 && s[0] == '-';
    let body = unsigned_part(s);
    if body.len() == 0 || !(forall|i: int| 0 <= i < body.len() ==> is_digit(#[trigger] body[i])) {
        None
    } else {
        let v: int = if neg {
            -digits_value(body)
        } else {
            digits_value(body) as int
        };
        if i64::MIN <= v && v <= i64::MAX {
            Some(v as i64)
        } else {
            None
        }
    }
}

/// Parses a decimal `i64` as `str::parse::<i64>` does.
pub fn parse_i64_exec(s: &str) -> (r: Option<i64>)
    ensures
        r == parse_i64(s@),
{
    let v = chars_of(s);
    let neg = v.len() > 0 && v[0] == '-';
    let start: usize = if v.len() > 0 && (v[0] == '-' || v[0] == '+') {
        1
    } else {
        0
    };
    let body = slice_chars(&v, start, v.len());
    assert(body@ =~= unsigned_part(s@));
    if body.len() == 0 {
        return None;
    }
    let bound: u128 = 9223372036854775808;
    let mut acc: u128 = 0;
    let mut over = false;
    let mut i: usize = 0;
    while i < body.len()
        invariant
            i <= body.len(),
            body@ == unsigned_part(s@),
            bound == 9223372036854775808,
            forall|k: int| 0 <= k < i ==> is_digit(#[trigger] body@[k]),
            !over ==> acc == digits_value(body@.take(i as int)) && acc <= bound,
            over ==> digits_value(body@.take(i as int)) > bound,
        decreases body.len() - i,
    {
        let c = body[i];
        if !('0' <= c && c <= '9') {
            assert(!is_digit(unsigned_part(s@)[i as int]));
            return None;
        }
        assert(body@.take(i + 1).drop_last() =~= body@.take(i as int));
        let d = (c as u32 - '0' as u32) as u128;
        if !over {
            let next = acc * 10 + d;
            if next > bound {
                over = true;
            } else {
                acc = next;
            }
        }
        i = i + 1;
    }
    assert(body@.take(body.len() as int) =~= body@);
    if over {
        None
    } else if neg {
        if acc == bound {
            Some(-9223372036854775807i64 - 1)
        } else {
            let a = acc as i64;
            Some(-a)
        }
    } else if acc == bound {
        None
    } else {
        Some(acc as i64)
    }
}

/// Whether two strings hold the same characters.
pub fn str_eq(a: &str, b: &str) -> (r: bool)
    ensures
        r == (a@ == b@),
{
    let av = chars_of(a);
    let bv = chars_of(b);
    chars_eq(&av, &bv)
}

proof fn lemma_trim_start_suffix(s: Seq<char>)
    ensures
        exists|a: int| 0 <= a <= s.len() && trim_start(s) == s.skip(a),
    decreases s.len(),
{
    if s.len() > 0 && white_space(s[0]) {
        lemma_trim_start_suffix(s.drop_first());
        let a = choose|a: int| 0 <= a <= s.drop_first().len() && trim_start(s.drop_first()) == s.drop_first().skip(a);
        assert(s.drop_first().skip(a) =~= s.skip(a + 1));
    } else {
        assert(s.skip(0) =~= s);
    }
}

proof fn lemma_trim_end_prefix(s: Seq<char>)
    ensures
        exists|b: int| 0 <= b <= s.len() && trim_end(s) == s.take(b),
    decreases s.len(),
{
    if s.len() > 0 && white_space(s.last()) {
        lemma_trim_end_prefix(s.drop_last());
        let b = choose|b: int| 0 <= b <= s.drop_last().len() && trim_end(s.drop_last()) == s.drop_last().take(b);
        assert(s.drop_last().take(b) =~= s.take(b));
    } else {
        assert(s.take(s.len() as int) =~= s);
    }
}

/// Every character of `trim(s)` is a character of `s`.
pub proof fn lemma_trim_shape_sub(s: Seq<char>)
    ensures
        forall|i: int| 0 <= i < trim(s).len() ==> exists|j: int| 0 <= j < s.len() && s[j] == #[trigger] trim(s)[i],
{
    lemma_trim_start_suffix(s);
    let a = choose|a: int| 0 <= a <= s.len() && trim_start(s) == s.skip(a);
    let t = trim_start(s);
    lemma_trim_end_prefix(t);
    let b = choose|b: int| 0 <= b <= t.len() && trim_end(t) == t.take(b);
    assert forall|i: int| 0 <= i < trim(s).len() implies exists|j: int| 0 <= j < s.len() && s[j] == #[trigger] trim(s)[i] by {
        assert(trim(s)[i] == t[i]);
        assert(t[i] == s[a + i]);
    }
}

} // verus!
