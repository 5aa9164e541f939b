//! Matching of external (online) tracks against the local library.
//!
//! Titles and artists are compared after normalisation: lowercasing, folding
//! common accented letters, dropping bracketed suffixes and featured-artist
//! credits, replacing punctuation by spaces and dropping a leading article.
//! Durations are carried in milliseconds.
use vstd::prelude::*;
use crate::text;

verus! {

/// How an external track relates to the local library.
#[derive(Clone, Copy, PartialEq, Eq, Debug, Structural)]
pub enum MatchStatus {
    ExactMatch,
    LikelyMatch,
    PossibleMatch,
    NotFound,
}

/// The wire name of a match status.
pub open spec fn match_status_name(s: MatchStatus) -> Seq<char> {
    match s {
        MatchStatus::ExactMatch => "EXACT_MATCH"@,
        MatchStatus::LikelyMatch => "LIKELY_MATCH"@,
        MatchStatus::PossibleMatch => "POSSIBLE_MATCH"@,
        MatchStatus::NotFound => "NOT_FOUND"@,
    }
}

impl MatchStatus {
    /// The wire name of this status.
    pub fn as_str(&self) -> (r: &'static str)
        ensures
            r@ == match_status_name(*self),
    {
        match self {
            MatchStatus::ExactMatch => "EXACT_MATCH",
            MatchStatus::LikelyMatch => "LIKELY_MATCH",
            MatchStatus::PossibleMatch => "POSSIBLE_MATCH",
            MatchStatus::NotFound => "NOT_FOUND",
        }
    }
}

/// The outcome of matching one external track.
/// `confidence_permille` is the confidence in thousandths (1000 = certain).
#[derive(Clone, Debug)]
pub struct MatchResult {
    pub status: MatchStatus,
    pub confidence_permille: u32,
    pub matched_track_id: Option<String>,
    pub explanation: String,
}

/// The mathematical content of a [`MatchResult`].
pub struct MatchResultView {
    pub status: MatchStatus,
    pub confidence_permille: u32,
    pub matched_track_id: Option<Seq<char>>,
    pub explanation: Seq<char>,
}

pub open spec fn opt_view(o: Option<String>) -> Option<Seq<char>> {
    match o {
        Some(s) => Some(s@),
        None => None,
    }
}

impl View for MatchResult {
    type V = MatchResultView;

    open spec fn view(&self) -> MatchResultView {
        MatchResultView {
            status: self.status,
            confidence_permille: self.confidence_permille,
            matched_track_id: opt_view(self.matched_track_id),
            explanation: self.explanation@,
        }
    }
}

/// A local library track offered as a match candidate.
#[derive(Clone, Debug)]
pub struct LocalTrackCandidate {
    pub id: String,
    pub title: String,
    pub artist: String,
    pub duration_ms: u64,
    pub is_lofi: bool,
}

/// The mathematical content of a [`LocalTrackCandidate`].
pub struct CandidateView {
    pub id: Seq<char>,
    pub title: Seq<char>,
    pub artist: Seq<char>,
    pub duration_ms: u64,
    pub is_lofi: bool,
}

impl View for LocalTrackCandidate {
    type V = CandidateView;

    open spec fn view(&self) -> CandidateView {
        CandidateView {
            id: self.id@,
            title: self.title@,
            artist: self.artist@,
            duration_ms: self.duration_ms,
            is_lofi: self.is_lofi,
        }
    }
}

/// Namespace of the fuzzy track matching operations.
pub struct FuzzyTrackMatcher;

// ---------------------------------------------------------------- normalisation

/// The base letter of a Latin letter that carries a diacritic (acute, grave,
/// circumflex, tilde, diaeresis, ring, cedilla, caron, breve, macron, ogonek,
/// dot, stroke, horn, hook, double acute and the like), in lowercase, for the
/// Latin-1, Latin Extended-A, Latin Extended-B and Latin Extended Additional
/// letters; any other character is itself.
pub open spec fn fold_accent(c: char) -> char {
    let n = c as u32;
    if (0xC0 <= n <= 0xC5) || (0xE0 <= n <= 0xE5) || (0x100 <= n <= 0x105) || (0x1CD <= n <= 0x1CE) || (0x1DE <= n <= 0x1E1) || (0x1FA <= n <= 0x1FB) || (0x200 <= n <= 0x203) || (0x226 <= n <= 0x227) || (0x1E00 <= n <= 0x1E01) || n == 0x1E9A || (0x1EA0 <= n <= 0x1EB7) {
        'a'
    } else if (0x1E02 <= n <= 0x1E07) {
        'b'
    } else if n == 0xC7 || n == 0xE7 || (0x106 <= n <= 0x10D) || (0x1E08 <= n <= 0x1E09) {
        'c'
    } else if (0x10E <= n <= 0x111) || (0x1E0A <= n <= 0x1E13) {
        'd'
    } else if (0xC8 <= n <= 0xCB) || (0xE8 <= n <= 0xEB) || (0x112 <= n <= 0x11B) || (0x204 <= n <= 0x207) || (0x228 <= n <= 0x229) || (0x1E14 <= n <= 0x1E1D) || (0x1EB8 <= n <= 0x1EC7) {
        'e'
    } else if (0x1E1E <= n <= 0x1E1F) {
        'f'
    } else if (0x11C <= n <= 0x123) || (0x1E4 <= n <= 0x1E7) || (0x1F4 <= n <= 0x1F5) || (0x1E20 <= n <= 0x1E21) {
        'g'
    } else if (0x124 <= n <= 0x127) || (0x21E <= n <= 0x21F) || (0x1E22 <= n <= 0x1E2B) || n == 0x1E96 {
        'h'
    } else if (0xCC <= n <= 0xCF) || (0xEC <= n <= 0xEF) || (0x128 <= n <= 0x131) || (0x1CF <= n <= 0x1D0) || (0x208 <= n <= 0x20B) || (0x1E2C <= n <= 0x1E2F) || (0x1EC8 <= n <= 0x1ECB) {
        'i'
    } else if (0x134 <= n <= 0x135) || n == 0x1F0 {
        'j'
    } else if (0x136 <= n <= 0x137) || (0x1E8 <= n <= 0x1E9) || (0x1E30 <= n <= 0x1E35) {
        'k'
    } else if (0x139 <= n <= 0x142) || (0x1E36 <= n <= 0x1E3D) {
        'l'
    } else if (0x1E3E <= n <= 0x1E43) {
        'm'
    } else if n == 0xD1 || n == 0xF1 || (0x143 <= n <= 0x149) || (0x1F8 <= n <= 0x1F9) || (0x1E44 <= n <= 0x1E4B) {
        'n'
    } else if (0xD2 <= n <= 0xD6) || n == 0xD8 || (0xF2 <= n <= 0xF6) || n == 0xF8 || (0x14C <= n <= 0x151) || (0x1A0 <= n <= 0x1A1) || (0x1D1 <= n <= 0x1D2) || (0x1EA <= n <= 0x1ED) || (0x1FE <= n <= 0x1FF) || (0x20C <= n <= 0x20F) || (0x22A <= n <= 0x231) || (0x1E4C <= n <= 0x1E53) || (0x1ECC <= n <= 0x1EE3) {
        'o'
    } else if (0x1E54 <= n <= 0x1E57) {
        'p'
    } else if (0x154 <= n <= 0x159) || (0x210 <= n <= 0x213) || (0x1E58 <= n <= 0x1E5F) {
        'r'
    } else if (0x15A <= n <= 0x161) || (0x218 <= n <= 0x219) || (0x1E60 <= n <= 0x1E69) {
        's'
    } else if (0x162 <= n <= 0x167) || (0x21A <= n <= 0x21B) || (0x1E6A <= n <= 0x1E71) || n == 0x1E97 {
        't'
    } else if (0xD9 <= n <= 0xDC) || (0xF9 <= n <= 0xFC) || (0x168 <= n <= 0x173) || (0x1AF <= n <= 0x1B0) || (0x1D3 <= n <= 0x1DC) || (0x214 <= n <= 0x217) || (0x1E72 <= n <= 0x1E7B) || (0x1EE4 <= n <= 0x1EF1) {
        'u'
    } else if (0x1E7C <= n <= 0x1E7F) {
        'v'
    } else if (0x174 <= n <= 0x175) || (0x1E80 <= n <= 0x1E89) || n == 0x1E98 {
        'w'
    } else if (0x1E8A <= n <= 0x1E8D) {
        'x'
    } else if n == 0xDD || n == 0xFD || n == 0xFF || (0x176 <= n <= 0x178) || (0x232 <= n <= 0x233) || (0x1E8E <= n <= 0x1E8F) || n == 0x1E99 || (0x1EF2 <= n <= 0x1EF9) {
        'y'
    } else if (0x179 <= n <= 0x17E) || (0x1E90 <= n <= 0x1E95) {
        'z'
    } else {
        c
    }
}

/// Whether `c` is a combining diacritical mark (U+0300 to U+036F).
pub open spec fn combining_mark(c: char) -> bool {
    0x300 <= (c as u32) <= 0x36F
}

/// Whether `c` is a letter with a diacritic or a combining diacritical mark.
pub open spec fn has_diacritic(c: char) -> bool {
    fold_accent(c) != c || combining_mark(c)
}

/// `s` without its combining diacritical marks.
pub open spec fn drop_marks(s: Seq<char>) -> Seq<char>
    decreases s.len(),
{
    if s.len() == 0 {
        seq![]
    } else if combining_mark(s.last()) {
        drop_marks(s.drop_last())
    } else {
        drop_marks(s.drop_last()).push(s.last())
    }
}

/// `s` with its diacritics removed: letters folded to their base letter and
/// combining marks dropped.
pub open spec fn without_diacritics(s: Seq<char>) -> Seq<char> {
    drop_marks(s.map_values(|c: char| fold_accent(c)))
}

/// `s` cut before the first occurrence of `pat`, if any.
pub open spec fn cut_before(s: Seq<char>, pat: Seq<char>) -> Seq<char> {
    match text::find(s, pat) {
        Some(p) => s.take(p),
        None => s,
    }
}

/// `s` cut before a featured-artist marker (" feat.", else " ft.", else " feat ").
pub open spec fn strip_featuring(s: Seq<char>) -> Seq<char> {
    match text::find(s, " feat."@) {
        Some(p) => s.take(p),
        None => match text::find(s, " ft."@) {
            Some(p) => s.take(p),
            None => cut_before(s, " feat "@),
        },
    }
}

/// Letters, digits and whitespace are kept; anything else becomes a space.
pub open spec fn keep_word_char(c: char) -> char {
    if text::spec_char_is_alphanumeric(c) || text::white_space(c) {
        c
    } else {
        ' '
    }
}

/// `s` without a leading "the ", "a " or "an ".
pub open spec fn strip_article(s: Seq<char>) -> Seq<char> {
    if text::starts_with(s, "the "@) {
        s.skip("the "@.len() as int)
    } else if text::starts_with(s, "a "@) {
        s.skip("a "@.len() as int)
    } else if text::starts_with(s, "an "@) {
        s.skip("an "@.len() as int)
    } else {
        s
    }
}

/// The normal form of a title or artist name.
pub open spec fn normalized(s: Seq<char>) -> Seq<char> {
    normalized_lowered(text::spec_str_lowercase(s))
}

/// The normal form of a title or artist name already in lowercase.
pub open spec fn normalized_lowered(l: Seq<char>) -> Seq<char> {
    let folded = without_diacritics(l);
    let unbracketed = cut_before(cut_before(folded, seq!['(']), seq!['[']);
    let plain = strip_featuring(unbracketed).map_values(|c: char| keep_word_char(c));
    strip_article(text::collapse_spaces(plain))
}

proof fn lemma_fold_settles(c: char)
    ensures
        combining_mark(fold_accent(c)) == combining_mark(c),
        !combining_mark(c) ==> !has_diacritic(fold_accent(c)),
{
}

/// Whether `r` is a prefix of `s`.
pub open spec fn prefix_of(r: Seq<char>, s: Seq<char>) -> bool {
    r.len() <= s.len() && forall|i: int| 0 <= i < r.len() ==> #[trigger] r[i] == s[i]
}

proof fn lemma_cut_is_prefix(s: Seq<char>, pat: Seq<char>)
    ensures
        prefix_of(cut_before(s, pat), s),
{
    text::lemma_find_bounds(s, pat, 0);
}

proof fn lemma_featuring_is_prefix(s: Seq<char>)
    ensures
        prefix_of(strip_featuring(s), s),
{
    text::lemma_find_bounds(s, " feat."@, 0);
    text::lemma_find_bounds(s, " ft."@, 0);
    lemma_cut_is_prefix(s, " feat "@);
}

proof fn lemma_drop_marks_clean(s: Seq<char>)
    requires
        forall|i: int| 0 <= i < s.len() ==> !combining_mark(s[i]) ==> !has_diacritic(#[trigger] s[i]),
    ensures
        forall|i: int| 0 <= i < drop_marks(s).len() ==> !has_diacritic(#[trigger] drop_marks(s)[i]),
    decreases s.len(),
{
    if s.len() > 0 {
        let init = s.drop_last();
        assert forall|i: int| 0 <= i < init.len() implies !combining_mark(init[i]) ==> !has_diacritic(
            #[trigger] init[i],
        ) by {
            assert(init[i] == s[i]);
        }
        lemma_drop_marks_clean(init);
        let last = s[s.len() - 1];
        assert(s.last() == last);
        if !combining_mark(last) {
            assert(!has_diacritic(last));
            let r = drop_marks(init).push(last);
            assert(drop_marks(s) == r);
            assert forall|i: int| 0 <= i < r.len() implies !has_diacritic(#[trigger] r[i]) by {
                if i < r.len() - 1 {
                    assert(r[i] == drop_marks(init)[i]);
                }
            }
        }
    }
}

/// No diacritic survives normalisation: the normal form holds no letter
/// with a diacritic and no combining mark (so "dvořák" becomes "dvorak").
pub proof fn law_normal_form_has_no_diacritics(l: Seq<char>)
    ensures
        forall|i: int| 0 <= i < normalized_lowered(l).len() ==> !has_diacritic(#[trigger] normalized_lowered(l)[i]),
{
    let p = |c: char| !has_diacritic(c);
    let m = l.map_values(|c: char| fold_accent(c));
    assert forall|i: int| 0 <= i < m.len() implies !combining_mark(m[i]) ==> !has_diacritic(#[trigger] m[i]) by {
        assert(m[i] == fold_accent(l[i]));
        lemma_fold_settles(l[i]);
    }
    lemma_drop_marks_clean(m);
    let folded = without_diacritics(l);
    assert(text::all_chars(folded, p));
    let a = cut_before(folded, seq!['(']);
    lemma_cut_is_prefix(folded, seq!['(']);
    assert(text::all_chars(a, p)) by {
        assert forall|i: int| 0 <= i < a.len() implies p(#[trigger] a[i]) by {
            assert(a[i] == folded[i]);
        }
    }
    let b = cut_before(a, seq!['[']);
    lemma_cut_is_prefix(a, seq!['[']);
    assert(text::all_chars(b, p)) by {
        assert forall|i: int| 0 <= i < b.len() implies p(#[trigger] b[i]) by {
            assert(b[i] == a[i]);
        }
    }
    let c = strip_featuring(b);
    lemma_featuring_is_prefix(b);
    assert(text::all_chars(c, p)) by {
        assert forall|i: int| 0 <= i < c.len() implies p(#[trigger] c[i]) by {
            assert(c[i] == b[i]);
        }
    }
    let d = c.map_values(|x: char| keep_word_char(x));
    assert(text::all_chars(d, p)) by {
        assert forall|i: int| 0 <= i < d.len() implies p(#[trigger] d[i]) by {
            assert(d[i] == keep_word_char(c[i]));
        }
    }
    assert(p(' '));
    text::lemma_collapse_keeps(d, p);
    let e = text::collapse_spaces(d);
    let r = strip_article(e);
    assert(r == normalized_lowered(l));
    assert forall|i: int| 0 <= i < r.len() implies !has_diacritic(#[trigger] r[i]) by {
        let k = e.len() - r.len();
        assert(r[i] == e[i + k]);
        assert(p(e[i + k]));
    }
}

/// The shape of a normal form: single spaces between words and none around
/// them, every character a letter, a digit or a space, no ASCII capital and
/// no diacritic.
pub open spec fn tidy_normal_form(r: Seq<char>) -> bool {
    &&& text::well_spaced(r)
    &&& forall|i: int|
        0 <= i < r.len() ==> (text::spec_char_is_alphanumeric(#[trigger] r[i]) || r[i] == ' ') && !(
        'A' <= r[i] && r[i] <= 'Z') && !has_diacritic(r[i])
}

proof fn lemma_fold_keeps_small(c: char)
    ensures
        !('A' <= c && c <= 'Z') ==> !('A' <= fold_accent(c) && fold_accent(c) <= 'Z'),
{
}

proof fn lemma_article_keeps(e: Seq<char>, q: spec_fn(char) -> bool)
    requires
        text::well_spaced(e),
        text::all_chars(e, q),
    ensures
        text::well_spaced(strip_article(e)),
        text::all_chars(strip_article(e), q),
{
    reveal_strlit("the ");
    reveal_strlit("a ");
    reveal_strlit("an ");
    let r = strip_article(e);
    let k = e.len() - r.len();
    assert(r == e.skip(k));
    if k > 0 {
        assert(e[k - 1] == ' ') by {
            if text::starts_with(e, "the "@) {
                assert(e.take(4)[3] == ' ');
            } else if text::starts_with(e, "a "@) {
                assert(e.take(2)[1] == ' ');
            } else {
                assert(e.take(3)[2] == ' ');
            }
        }
        if r.len() > 0 {
            assert(!text::double_space_at(e, k - 1));
            assert(r[0] == e[k]);
            assert(r[r.len() - 1] == e[e.len() - 1]);
        }
    }
    assert forall|i: int| 0 <= i < r.len() - 1 implies !#[trigger] text::double_space_at(r, i) by {
        assert(r[i] == e[i + k] && r[i + 1] == e[i + k + 1]);
        assert(!text::double_space_at(e, i + k));
    }
    assert forall|i: int| 0 <= i < r.len() implies q(#[trigger] r[i]) by {
        assert(r[i] == e[i + k]);
    }
}

/// A normal form has single spaces between its words and none around them,
/// and holds only letters, digits and spaces, none of them an ASCII capital
/// when the text it was made of held none (as a lowercased text does) and
/// none with a diacritic.
pub proof fn law_normal_form_is_tidy(l: Seq<char>)
    requires
        text::no_ascii_capital(l),
    ensures
        tidy_normal_form(normalized_lowered(l)),
{
    law_normal_form_has_no_diacritics(l);
    let q0 = |c: char| !('A' <= c && c <= 'Z') && !has_diacritic(c);
    let m = l.map_values(|c: char| fold_accent(c));
    assert forall|i: int| 0 <= i < m.len() implies q0(#[trigger] m[i]) || combining_mark(m[i]) by {
        assert(m[i] == fold_accent(l[i]));
        lemma_fold_keeps_small(l[i]);
        lemma_fold_settles(l[i]);
    }
    lemma_drop_marks_small(m);
    let folded = without_diacritics(l);
    let a = cut_before(folded, seq!['(']);
    lemma_cut_is_prefix(folded, seq!['(']);
    let b = cut_before(a, seq!['[']);
    lemma_cut_is_prefix(a, seq!['[']);
    let c = strip_featuring(b);
    lemma_featuring_is_prefix(b);
    let d = c.map_values(|x: char| keep_word_char(x));
    let q = |x: char| (text::spec_char_is_alphanumeric(x) || text::white_space(x)) && q0(x);
    assert forall|i: int| 0 <= i < d.len() implies q(#[trigger] d[i]) by {
        assert(c[i] == b[i] && b[i] == a[i] && a[i] == folded[i]);
        assert(q0(folded[i]));
        assert(d[i] == keep_word_char(c[i]));
        assert(q0(' ')) by {
            assert(fold_accent(' ') == ' ');
        }
    }
    text::lemma_collapse_clean(d, q);
    let e = text::collapse_spaces(d);
    let p = |x: char| x == ' ' || (q(x) && !text::white_space(x));
    lemma_article_keeps(e, p);
    let r = strip_article(e);
    assert(r == normalized_lowered(l));
    assert forall|i: int| 0 <= i < r.len() implies (text::spec_char_is_alphanumeric(#[trigger] r[i]) || r[i]
        == ' ') && !('A' <= r[i] && r[i] <= 'Z') && !has_diacritic(r[i]) by {
        assert(p(r[i]));
        if r[i] == ' ' {
            assert(fold_accent(' ') == ' ');
        }
    }
}

proof fn lemma_drop_marks_small(s: Seq<char>)
    requires
        forall|i: int| 0 <= i < s.len() ==> !('A' <= #[trigger] s[i] && s[i] <= 'Z') && !has_diacritic(s[i])
            || combining_mark(s[i]),
    ensures
        forall|i: int| 0 <= i < drop_marks(s).len() ==> !('A' <= #[trigger] drop_marks(s)[i] && drop_marks(s)[i]
            <= 'Z') && !has_diacritic(drop_marks(s)[i]),
    decreases s.len(),
{
    if s.len() > 0 {
        let init = s.drop_last();
        assert forall|i: int| 0 <= i < init.len() implies !('A' <= #[trigger] init[i] && init[i] <= 'Z')
            && !has_diacritic(init[i]) || combining_mark(init[i]) by {
            assert(init[i] == s[i]);
        }
        lemma_drop_marks_small(init);
        let last = s[s.len() - 1];
        assert(s.last() == last);
        if !combining_mark(last) {
            let r = drop_marks(init).push(last);
            assert(drop_marks(s) == r);
            assert forall|i: int| 0 <= i < r.len() implies !('A' <= #[trigger] r[i] && r[i] <= 'Z')
                && !has_diacritic(r[i]) by {
                if i < r.len() - 1 {
                    assert(r[i] == drop_marks(init)[i]);
                }
            }
        }
    }
}

fn fold_accent_exec(c: char) -> (r: char)
    ensures
        r == fold_accent(c),
{
    let n = c as u32;
    if (0xC0 <= n && n <= 0xC5) || (0xE0 <= n && n <= 0xE5) || (0x100 <= n && n <= 0x105) || (0x1CD <= n && n <= 0x1CE) || (0x1DE <= n && n <= 0x1E1) || (0x1FA <= n && n <= 0x1FB) || (0x200 <= n && n <= 0x203) || (0x226 <= n && n <= 0x227) || (0x1E00 <= n && n <= 0x1E01) || n == 0x1E9A || (0x1EA0 <= n && n <= 0x1EB7) {
        'a'
    } else if (0x1E02 <= n && n <= 0x1E07) {
        'b'
    } else if n == 0xC7 || n == 0xE7 || (0x106 <= n && n <= 0x10D) || (0x1E08 <= n && n <= 0x1E09) {
        'c'
    } else if (0x10E <= n && n <= 0x111) || (0x1E0A <= n && n <= 0x1E13) {
        'd'
    } else if (0xC8 <= n && n <= 0xCB) || (0xE8 <= n && n <= 0xEB) || (0x112 <= n && n <= 0x11B) || (0x204 <= n && n <= 0x207) || (0x228 <= n && n <= 0x229) || (0x1E14 <= n && n <= 0x1E1D) || (0x1EB8 <= n && n <= 0x1EC7) {
        'e'
    } else if (0x1E1E <= n && n <= 0x1E1F) {
        'f'
    } else if (0x11C <= n && n <= 0x123) || (0x1E4 <= n && n <= 0x1E7) || (0x1F4 <= n && n <= 0x1F5) || (0x1E20 <= n && n <= 0x1E21) {
        'g'
    } else if (0x124 <= n && n <= 0x127) || (0x21E <= n && n <= 0x21F) || (0x1E22 <= n && n <= 0x1E2B) || n == 0x1E96 {
        'h'
    } else if (0xCC <= n && n <= 0xCF) || (0xEC <= n && n <= 0xEF) || (0x128 <= n && n <= 0x131) || (0x1CF <= n && n <= 0x1D0) || (0x208 <= n && n <= 0x20B) || (0x1E2C <= n && n <= 0x1E2F) || (0x1EC8 <= n && n <= 0x1ECB) {
        'i'
    } else if (0x134 <= n && n <= 0x135) || n == 0x1F0 {
        'j'
    } else if (0x136 <= n && n <= 0x137) || (0x1E8 <= n && n <= 0x1E9) || (0x1E30 <= n && n <= 0x1E35) {
        'k'
    } else if (0x139 <= n && n <= 0x142) || (0x1E36 <= n && n <= 0x1E3D) {
        'l'
    } else if (0x1E3E <= n && n <= 0x1E43) {
        'm'
    } else if n == 0xD1 || n == 0xF1 || (0x143 <= n && n <= 0x149) || (0x1F8 <= n && n <= 0x1F9) || (0x1E44 <= n && n <= 0x1E4B) {
        'n'
    } else if (0xD2 <= n && n <= 0xD6) || n == 0xD8 || (0xF2 <= n && n <= 0xF6) || n == 0xF8 || (0x14C <= n && n <= 0x151) || (0x1A0 <= n && n <= 0x1A1) || (0x1D1 <= n && n <= 0x1D2) || (0x1EA <= n && n <= 0x1ED) || (0x1FE <= n && n <= 0x1FF) || (0x20C <= n && n <= 0x20F) || (0x22A <= n && n <= 0x231) || (0x1E4C <= n && n <= 0x1E53) || (0x1ECC <= n && n <= 0x1EE3) {
        'o'
    } else if (0x1E54 <= n && n <= 0x1E57) {
        'p'
    } else if (0x154 <= n && n <= 0x159) || (0x210 <= n && n <= 0x213) || (0x1E58 <= n && n <= 0x1E5F) {
        'r'
    } else if (0x15A <= n && n <= 0x161) || (0x218 <= n && n <= 0x219) || (0x1E60 <= n && n <= 0x1E69) {
        's'
    } else if (0x162 <= n && n <= 0x167) || (0x21A <= n && n <= 0x21B) || (0x1E6A <= n && n <= 0x1E71) || n == 0x1E97 {
        't'
    } else if (0xD9 <= n && n <= 0xDC) || (0xF9 <= n && n <= 0xFC) || (0x168 <= n && n <= 0x173) || (0x1AF <= n && n <= 0x1B0) || (0x1D3 <= n && n <= 0x1DC) || (0x214 <= n && n <= 0x217) || (0x1E72 <= n && n <= 0x1E7B) || (0x1EE4 <= n && n <= 0x1EF1) {
        'u'
    } else if (0x1E7C <= n && n <= 0x1E7F) {
        'v'
    } else if (0x174 <= n && n <= 0x175) || (0x1E80 <= n && n <= 0x1E89) || n == 0x1E98 {
        'w'
    } else if (0x1E8A <= n && n <= 0x1E8D) {
        'x'
    } else if n == 0xDD || n == 0xFD || n == 0xFF || (0x176 <= n && n <= 0x178) || (0x232 <= n && n <= 0x233) || (0x1E8E <= n && n <= 0x1E8F) || n == 0x1E99 || (0x1EF2 <= n && n <= 0x1EF9) {
        'y'
    } else if (0x179 <= n && n <= 0x17E) || (0x1E90 <= n && n <= 0x1E95) {
        'z'
    } else {
        c
    }
}

fn fold_accents_exec(v: &Vec<char>) -> (r: Vec<char>)
    ensures
        r@ == without_diacritics(v@),
{
    let mut r: Vec<char> = Vec::new();
    let mut i: usize = 0;
    while i < v.len()
        invariant
            i <= v.len(),
            r@ == without_diacritics(v@.take(i as int)),
        decreases v.len() - i,
    {
        let c = v[i];
        let ghost before = v@.take(i as int).map_values(|c: char| fold_accent(c));
        assert(v@.take(i + 1).map_values(|c: char| fold_accent(c)) =~= before.push(fold_accent(c)));
        assert(before.push(fold_accent(c)).drop_last() =~= before);
        let f = fold_accent_exec(c);
        let code = f as u32;
        if !(0x300 <= code && code <= 0x36F) {
            r.push(f);
        }
        i = i + 1;
    }
    assert(v@.take(v.len() as int) =~= v@);
    r
}

fn keep_word_chars_exec(v: &Vec<char>) -> (r: Vec<char>)
    ensures
        r@ == v@.map_values(|c: char| keep_word_char(c)),
{
    let mut r: Vec<char> = Vec::new();
    let mut i: usize = 0;
    while i < v.len()
        invariant
            i <= v.len(),
            r@ == v@.take(i as int).map_values(|c: char| keep_word_char(c)),
        decreases v.len() - i,
    {
        let c = v[i];
        let k = if text::char_is_alphanumeric(c) || text::char_is_whitespace(c) {
            c
        } else {
            ' '
        };
        r.push(k);
        i = i + 1;
        assert(r@ =~= v@.take(i as int).map_values(|c: char| keep_word_char(c)));
    }
    assert(v@.take(v.len() as int) =~= v@);
    r
}

fn cut_before_exec(v: Vec<char>, pat: &str) -> (r: Vec<char>)
    ensures
        r@ == cut_before(v@, pat@),
{
    let p = text::chars_of(pat);
    match text::find_exec(&v, &p) {
        Some(i) => {
            proof {
                text::lemma_find_bounds(v@, p@, 0);
            }
            text::slice_chars(&v, 0, i)
        },
        None => v,
    }
}

fn strip_featuring_exec(v: Vec<char>) -> (r: Vec<char>)
    ensures
        r@ == strip_featuring(v@),
{
    let p1 = text::chars_of(" feat.");
    match text::find_exec(&v, &p1) {
        Some(i) => {
            proof {
                text::lemma_find_bounds(v@, p1@, 0);
            }
            text::slice_chars(&v, 0, i)
        },
        None => {
            let p2 = text::chars_of(" ft.");
            match text::find_exec(&v, &p2) {
                Some(i) => {
                    proof {
                        text::lemma_find_bounds(v@, p2@, 0);
                    }
                    text::slice_chars(&v, 0, i)
                },
                None => cut_before_exec(v, " feat "),
            }
        },
    }
}

fn strip_prefix_or_keep(v: &Vec<char>, pat: &str) -> (r: Option<Vec<char>>)
    ensures
        match r {
            Some(t) => text::starts_with(v@, pat@) && t@ == v@.skip(pat@.len() as int),
            None => !text::starts_with(v@, pat@),
        },
{
    let p = text::chars_of(pat);
    if text::starts_with_exec(v, &p) {
        Some(text::slice_chars(v, p.len(), v.len()))
    } else {
        None
    }
}

fn strip_article_exec(v: Vec<char>) -> (r: Vec<char>)
    ensures
        r@ == strip_article(v@),
{
    match strip_prefix_or_keep(&v, "the ") {
        Some(t) => t,
        None => match strip_prefix_or_keep(&v, "a ") {
            Some(t) => t,
            None => match strip_prefix_or_keep(&v, "an ") {
                Some(t) => t,
                None => v,
            },
        },
    }
}

/// The normal form of `s`, as characters.
pub fn normalize_chars(s: &str) -> (r: Vec<char>)
    ensures
        r@ == normalized(s@),
        tidy_normal_form(r@),
{
    let lowered = text::lower_chars(s);
    proof {
        law_normal_form_is_tidy(lowered@);
    }
    normalize_lowered_chars(&lowered)
}

/// The normal form of a title or artist name already in lowercase.
pub fn normalize_lowercase(lowercase: &str) -> (r: String)
    ensures
        r@ == normalized_lowered(lowercase@),
{
    let v = text::chars_of(lowercase);
    let n = normalize_lowered_chars(&v);
    text::string_of(&n)
}

fn normalize_lowered_chars(lowered: &Vec<char>) -> (r: Vec<char>)
    ensures
        r@ == normalized_lowered(lowered@),
{
    let folded = fold_accents_exec(lowered);
    let a = cut_before_exec(folded, "(");
    let b = cut_before_exec(a, "[");
    proof {
        reveal_strlit("(");
        reveal_strlit("[");
        assert("("@ == seq!['(']);
        assert("["@ == seq!['[']);
    }
    let c = strip_featuring_exec(b);
    let d = keep_word_chars_exec(&c);
    let e = text::collapse_spaces_exec(&d);
    strip_article_exec(e)
}

impl FuzzyTrackMatcher {
    /// Normalises a title or artist name for comparison.
    pub fn normalize_string(s: &str) -> (r: String)
        ensures
            r@ == normalized(s@),
            tidy_normal_form(r@),
    {
        let v = normalize_chars(s);
        text::string_of(&v)
    }
}

// ---------------------------------------------------------------- predicates

/// Whether a title, artist, genre or context names lofi music.
pub open spec fn lofi_indicator(s: Seq<char>) -> bool {
    lofi_in_lowered(text::spec_str_lowercase(s))
}

/// Whether a text already in lowercase names lofi music.
pub open spec fn lofi_in_lowered(l: Seq<char>) -> bool {
    text::contains(l, "lofi"@) || text::contains(l, "lo-fi"@) || text::contains(l, "lo fi"@)
        || text::contains(l, "chillhop"@) || text::contains(l, "chill beat"@) || text::contains(
        l,
        "sleep beat"@,
    ) || text::contains(l, "lofi hip hop"@)
}

/// The trimmed, nonempty pieces of `ps`, in order.
pub open spec fn clean_pieces(ps: Seq<Seq<char>>) -> Seq<Seq<char>>
    decreases ps.len(),
{
    if ps.len() == 0 {
        seq![]
    } else {
        let t = text::trim(ps.last());
        clean_pieces(ps.drop_last()) + if t.len() > 0 {
            seq![t]
        } else {
            seq![]
        }
    }
}

/// Every item of `list` split on `d`, trimmed, with empty pieces dropped.
pub open spec fn split_list(list: Seq<Seq<char>>, d: Seq<char>) -> Seq<Seq<char>>
    decreases list.len(),
{
    if list.len() == 0 {
        seq![]
    } else {
        split_list(list.drop_last(), d) + clean_pieces(text::split_on(list.last(), d))
    }
}

/// The individual credits of an artist string, split on the collaboration
/// delimiters ",", "&", "/", " and ", " x ", " with ", " feat ", " ft ".
pub open spec fn credits(a: Seq<char>) -> Seq<Seq<char>> {
    let l0 = split_list(seq![a], ","@);
    let l1 = split_list(l0, "&"@);
    let l2 = split_list(l1, "/"@);
    let l3 = split_list(l2, " and "@);
    let l4 = split_list(l3, " x "@);
    let l5 = split_list(l4, " with "@);
    let l6 = split_list(l5, " feat "@);
    split_list(l6, " ft "@)
}

/// The nonempty normal forms of the items of `list`, in order.
pub open spec fn normalize_all(list: Seq<Seq<char>>) -> Seq<Seq<char>>
    decreases list.len(),
{
    if list.len() == 0 {
        seq![]
    } else {
        let n = normalized(list.last());
        normalize_all(list.drop_last()) + if n.len() > 0 {
            seq![n]
        } else {
            seq![]
        }
    }
}

/// Whether two artist strings name the same artist, allowing for collaboration credits.
pub open spec fn artists_match(a1: Seq<char>, a2: Seq<char>) -> bool {
    let n1 = normalized(a1);
    let n2 = normalized(a2);
    if n1.len() == 0 || n2.len() == 0 {
        false
    } else if n1 == n2 {
        true
    } else {
        let l1 = normalize_all(credits(a1));
        let l2 = normalize_all(credits(a2));
        exists|i: int, j: int|
            0 <= i < l1.len() && 0 <= j < l2.len() && #[trigger] l1[i] == #[trigger] l2[j]
                && utf8_two_bytes(l1[i])
    }
}

/// Whether the UTF-8 encoding of `s` takes at least two bytes: two or more
/// characters, or a single non-ASCII one.
pub open spec fn utf8_two_bytes(s: Seq<char>) -> bool {
    s.len() >= 2 || (s.len() == 1 && (s[0] as u32) >= 0x80)
}

/// How many words of `w1` also occur in `w2`.
pub open spec fn count_common(w1: Seq<Seq<char>>, w2: Seq<Seq<char>>) -> nat
    decreases w1.len(),
{
    if w1.len() == 0 {
        0
    } else {
        count_common(w1.drop_last(), w2) + if w2.contains(w1.last()) {
            1nat
        } else {
            0nat
        }
    }
}

/// Whether two song titles match: equal normal forms, or both of several
/// words with at least 80% of the longer one's words in common.
pub open spec fn titles_match(t1: Seq<char>, t2: Seq<char>) -> bool {
    let n1 = normalized(t1);
    let n2 = normalized(t2);
    if n1.len() == 0 || n2.len() == 0 {
        false
    } else if n1 == n2 {
        true
    } else {
        let w1 = text::words(n1);
        let w2 = text::words(n2);
        if w1.len() > 1 && w2.len() > 1 {
            let m = if w1.len() >= w2.len() {
                w1.len()
            } else {
                w2.len()
            };
            !(count_common(w1, w2) * 5 < 4 * m)
        } else {
            false
        }
    }
}

/// Two titles with different normal forms match exactly when both have
/// several words and the words they share are at least 80% of the words of
/// the longer one (so a title never matches itself extended by more than a
/// quarter more words: "Hello World" does not match "Hello World Tour").
pub proof fn law_titles_match_by_most_words_of_longer(t1: Seq<char>, t2: Seq<char>)
    requires
        normalized(t1) != normalized(t2),
    ensures
        ({
            let w1 = text::words(normalized(t1));
            let w2 = text::words(normalized(t2));
            let c = count_common(w1, w2);
            titles_match(t1, t2) <==> (normalized(t1).len() > 0 && normalized(t2).len() > 0 && w1.len() > 1
                && w2.len() > 1 && 5 * c >= 4 * w1.len() && 5 * c >= 4 * w2.len())
        }),
{
}

/// Two titles with the same non-empty normal form always match.
pub proof fn law_titles_with_same_normal_form_match(t1: Seq<char>, t2: Seq<char>)
    requires
        normalized(t1) == normalized(t2),
        normalized(t1).len() > 0,
    ensures
        titles_match(t1, t2),
{
}

fn contains_lit(h: &Vec<char>, n: &str) -> (b: bool)
    ensures
        b == text::contains(h@, n@),
{
    text::contains_str(h, n)
}

fn clean_pieces_exec(ps: &Vec<Vec<char>>, out: &mut Vec<Vec<char>>)
    ensures
        text::views(final(out)@) == text::views(old(out)@) + clean_pieces(text::views(ps@)),
{
    let mut i: usize = 0;
    while i < ps.len()
        invariant
            i <= ps.len(),
            text::views(out@) == text::views(old(out)@) + clean_pieces(text::views(ps@.take(i as int))),
        decreases ps.len() - i,
    {
        let t = text::trim_chars(&ps[i]);
        proof {
            assert(text::views(ps@.take(i + 1)).drop_last() =~= text::views(ps@.take(i as int)));
            assert(text::views(ps@.take(i + 1)).last() == ps@[i as int]@);
        }
        if t.len() > 0 {
            proof {
                assert(text::views(out@.push(t)) =~= text::views(out@) + seq![t@]);
            }
            out.push(t);
        }
        i = i + 1;
        proof {
            assert(text::views(out@) =~= text::views(old(out)@) + clean_pieces(text::views(ps@.take(i as int))));
        }
    }
    assert(ps@.take(ps.len() as int) =~= ps@);
}

fn split_list_exec(list: &Vec<Vec<char>>, d: &str) -> (r: Vec<Vec<char>>)
    requires
        d@.len() > 0,
    ensures
        text::views(r@) == split_list(text::views(list@), d@),
{
    let dv = text::chars_of(d);
    let mut out: Vec<Vec<char>> = Vec::new();
    let mut i: usize = 0;
    while i < list.len()
        invariant
            i <= list.len(),
            dv@ == d@,
            dv@.len() > 0,
            text::views(out@) == split_list(text::views(list@.take(i as int)), d@),
        decreases list.len() - i,
    {
        let pieces = text::split_on_exec(&list[i], &dv);
        clean_pieces_exec(&pieces, &mut out);
        proof {
            assert(text::views(list@.take(i + 1)).drop_last() =~= text::views(list@.take(i as int)));
            assert(text::views(list@.take(i + 1)).last() == list@[i as int]@);
        }
        i = i + 1;
    }
    assert(list@.take(list.len() as int) =~= list@);
    out
}

fn credits_exec(a: &str) -> (r: Vec<Vec<char>>)
    ensures
        text::views(r@) == credits(a@),
{
    let mut l: Vec<Vec<char>> = Vec::new();
    l.push(text::chars_of(a));
    proof {
        assert(text::views(l@) =~= seq![a@]);
        reveal_strlit(",");
        reveal_strlit("&");
        reveal_strlit("/");
        reveal_strlit(" and ");
        reveal_strlit(" x ");
        reveal_strlit(" with ");
        reveal_strlit(" feat ");
        reveal_strlit(" ft ");
    }
    let l0 = split_list_exec(&l, ",");
    let l1 = split_list_exec(&l0, "&");
    let l2 = split_list_exec(&l1, "/");
    let l3 = split_list_exec(&l2, " and ");
    let l4 = split_list_exec(&l3, " x ");
    let l5 = split_list_exec(&l4, " with ");
    let l6 = split_list_exec(&l5, " feat ");
    split_list_exec(&l6, " ft ")
}

fn normalize_all_exec(list: &Vec<Vec<char>>) -> (r: Vec<Vec<char>>)
    ensures
        text::views(r@) == normalize_all(text::views(list@)),
{
    let mut out: Vec<Vec<char>> = Vec::new();
    let mut i: usize = 0;
    while i < list.len()
        invariant
            i <= list.len(),
            text::views(out@) == normalize_all(text::views(list@.take(i as int))),
        decreases list.len() - i,
    {
        let s = text::string_of(&list[i]);
        let n = normalize_chars(s.as_str());
        proof {
            assert(text::views(list@.take(i + 1)).drop_last() =~= text::views(list@.take(i as int)));
            assert(text::views(list@.take(i + 1)).last() == list@[i as int]@);
        }
        if n.len() > 0 {
            proof {
                assert(text::views(out@.push(n)) =~= text::views(out@) + seq![n@]);
            }
            out.push(n);
        }
        i = i + 1;
        proof {
            assert(text::views(out@) =~= normalize_all(text::views(list@.take(i as int))));
        }
    }
    assert(list@.take(list.len() as int) =~= list@);
    out
}

fn has_word(ws: &Vec<Vec<char>>, w: &Vec<char>) -> (b: bool)
    ensures
        b == text::views(ws@).contains(w@),
{
    let mut i: usize = 0;
    while i < ws.len()
        invariant
            i <= ws.len(),
            forall|k: int| 0 <= k < i ==> ws@[k]@ != w@,
        decreases ws.len() - i,
    {
        if text::chars_eq(&ws[i], w) {
            assert(text::views(ws@)[i as int] == w@);
            return true;
        }
        i = i + 1;
    }
    assert forall|k: int| 0 <= k < text::views(ws@).len() implies text::views(ws@)[k] != w@ by {
        assert(text::views(ws@)[k] == ws@[k]@);
    }
    false
}

fn count_common_exec(w1: &Vec<Vec<char>>, w2: &Vec<Vec<char>>) -> (r: usize)
    ensures
        r == count_common(text::views(w1@), text::views(w2@)),
{
    let mut c: usize = 0;
    let mut i: usize = 0;
    while i < w1.len()
        invariant
            i <= w1.len(),
            c == count_common(text::views(w1@.take(i as int)), text::views(w2@)),
            c <= i,
        decreases w1.len() - i,
    {
        proof {
            assert(text::views(w1@.take(i + 1)).drop_last() =~= text::views(w1@.take(i as int)));
            assert(text::views(w1@.take(i + 1)).last() == w1@[i as int]@);
        }
        if has_word(w2, &w1[i]) {
            c = c + 1;
        }
        i = i + 1;
    }
    assert(w1@.take(w1.len() as int) =~= w1@);
    c
}

fn lofi_in_lowercase_chars(l: &Vec<char>) -> (b: bool)
    ensures
        b == lofi_in_lowered(l@),
{
    contains_lit(l, "lofi") || contains_lit(l, "lo-fi") || contains_lit(l, "lo fi") || contains_lit(
        l,
        "chillhop",
    ) || contains_lit(l, "chill beat") || contains_lit(l, "sleep beat") || contains_lit(l, "lofi hip hop")
}

impl FuzzyTrackMatcher {
    /// Whether a title, artist, genre or context names lofi music.
    pub fn is_lofi_indicator(s: &str) -> (b: bool)
        ensures
            b == lofi_indicator(s@),
    {
        let l = text::lower_chars(s);
        lofi_in_lowercase_chars(&l)
    }

    /// Whether a text already in lowercase names lofi music.
    pub fn is_lofi_lowercase(lowercase: &str) -> (b: bool)
        ensures
            b == lofi_in_lowered(lowercase@),
    {
        let l = text::chars_of(lowercase);
        lofi_in_lowercase_chars(&l)
    }

    /// Whether two artist strings name the same artist, allowing for collaboration credits.
    pub fn artists_match(a1: &str, a2: &str) -> (b: bool)
        ensures
            b == artists_match(a1@, a2@),
    {
        let norm1 = normalize_chars(a1);
        let norm2 = normalize_chars(a2);
        if norm1.len() == 0 || norm2.len() == 0 {
            return false;
        }
        if text::chars_eq(&norm1, &norm2) {
            return true;
        }
        let c1 = credits_exec(a1);
        let c2 = credits_exec(a2);
        let l1 = normalize_all_exec(&c1);
        let l2 = normalize_all_exec(&c2);
        let ghost v1 = text::views(l1@);
        let ghost v2 = text::views(l2@);
        let mut i: usize = 0;
        while i < l1.len()
            invariant
                i <= l1.len(),
                v1 == text::views(l1@),
                v2 == text::views(l2@),
                v1 == normalize_all(credits(a1@)),
                v2 == normalize_all(credits(a2@)),
                normalized(a1@).len() > 0 && normalized(a2@).len() > 0,
                normalized(a1@) != normalized(a2@),
                forall|x: int, y: int|
                    0 <= x < i && 0 <= y < v2.len() ==> !(#[trigger] v1[x] == #[trigger] v2[y]
                        && utf8_two_bytes(v1[x])),
            decreases l1.len() - i,
        {
            let mut j: usize = 0;
            while j < l2.len()
                invariant
                    i < l1.len(),
                    j <= l2.len(),
                    v1 == text::views(l1@),
                    v2 == text::views(l2@),
                    v1 == normalize_all(credits(a1@)),
                    v2 == normalize_all(credits(a2@)),
                    normalized(a1@).len() > 0 && normalized(a2@).len() > 0,
                    normalized(a1@) != normalized(a2@),
                    forall|x: int, y: int|
                        0 <= x < i && 0 <= y < v2.len() ==> !(#[trigger] v1[x] == #[trigger] v2[y]
                            && utf8_two_bytes(v1[x])),
                    forall|y: int|
                        0 <= y < j ==> !(v1[i as int] == #[trigger] v2[y] && utf8_two_bytes(v1[i as int])),
                decreases l2.len() - j,
            {
                assert(v1[i as int] == l1@[i as int]@);
                assert(v2[j as int] == l2@[j as int]@);
                if text::chars_eq(&l1[i], &l2[j]) {
                    let w = &l1[i];
                    assert(w@ == v1[i as int]);
                    if w.len() >= 2 || (w.len() == 1 && (w[0] as u32) >= 0x80) {
                        assert(v1[i as int] == v2[j as int] && utf8_two_bytes(v1[i as int]));
                        assert(exists|x: int, y: int|
                            0 <= x < v1.len() && 0 <= y < v2.len() && #[trigger] v1[x] == #[trigger] v2[y]
                                && utf8_two_bytes(v1[x]));
                        return true;
                    }
                }
                j = j + 1;
            }
            i = i + 1;
        }
        false
    }

    /// Whether two song titles match.
    pub fn titles_match(t1: &str, t2: &str) -> (b: bool)
        ensures
            b == titles_match(t1@, t2@),
    {
        let norm1 = normalize_chars(t1);
        let norm2 = normalize_chars(t2);
        if norm1.len() == 0 || norm2.len() == 0 {
            return false;
        }
        if text::chars_eq(&norm1, &norm2) {
            return true;
        }
        let words1 = text::split_whitespace(&norm1);
        let words2 = text::split_whitespace(&norm2);
        if words1.len() > 1 && words2.len() > 1 {
            let common = count_common_exec(&words1, &words2);
            let m = if words1.len() >= words2.len() {
                words1.len()
            } else {
                words2.len()
            };
            if (common as u128) * 5 < 4 * (m as u128) {
                return false;
            }
            return true;
        }
        false
    }
}

// ---------------------------------------------------------------- best match

/// Whether an external duration is close to a local one: a preview (unknown,
/// or at most 35 s) always is; otherwise the two may differ by at most 12 s.
pub open spec fn duration_close(ext: Option<u64>, local: u64) -> bool {
    match ext {
        None => true,
        Some(d) => d <= 35000 || (if d >= local {
            d - local
        } else {
            local - d
        }) <= 12000,
    }
}

/// Whether a lookup is in lofi mode.
pub open spec fn query_is_lofi(title: Seq<char>, artist: Seq<char>, lofi_context: bool) -> bool {
    lofi_context || lofi_indicator(title) || lofi_indicator(artist)
}

/// A candidate's role for a lookup: 1 title, artist and duration agree; 2 title
/// and artist agree but the duration does not; 3 in lofi mode, a lofi track
/// with the same title by another artist; 0 none of these.
pub open spec fn candidate_kind(
    title: Seq<char>,
    artist: Seq<char>,
    dur: Option<u64>,
    lofi: bool,
    c: CandidateView,
) -> int {
    if !titles_match(title, c.title) {
        0
    } else if artists_match(artist, c.artist) {
        if duration_close(dur, c.duration_ms) {
            1
        } else {
            2
        }
    } else if lofi && c.is_lofi {
        3
    } else {
        0
    }
}

/// The first position at or after `k` of a candidate of the given kind.
pub open spec fn first_of_kind(
    title: Seq<char>,
    artist: Seq<char>,
    dur: Option<u64>,
    lofi: bool,
    cands: Seq<CandidateView>,
    kind: int,
    k: int,
) -> Option<int>
    decreases cands.len() - k,
{
    if k < 0 || k >= cands.len() {
        None
    } else if candidate_kind(title, artist, dur, lofi, cands[k]) == kind {
        Some(k)
    } else {
        first_of_kind(title, artist, dur, lofi, cands, kind, k + 1)
    }
}

pub open spec fn candidate_views(s: Seq<LocalTrackCandidate>) -> Seq<CandidateView> {
    s.map_values(|c: LocalTrackCandidate| c@)
}

/// The result of the lookup of an external track among local candidates:
/// the first candidate whose title, artist and duration agree; else the first
/// whose title and artist agree; else, in lofi mode, the first lofi track with
/// the same title; else not found.
pub open spec fn best_match(
    title: Seq<char>,
    artist: Seq<char>,
    dur: Option<u64>,
    lofi_context: bool,
    cands: Seq<CandidateView>,
) -> MatchResultView {
    let lofi = query_is_lofi(title, artist, lofi_context);
    match first_of_kind(title, artist, dur, lofi, cands, 1, 0) {
        Some(i) => MatchResultView {
            status: MatchStatus::ExactMatch,
            confidence_permille: 1000,
            matched_track_id: Some(cands[i].id),
            explanation: "Exact match for '"@ + cands[i].title + "' by '"@ + cands[i].artist + "'"@,
        },
        None => match first_of_kind(title, artist, dur, lofi, cands, 2, 0) {
            Some(i) => MatchResultView {
                status: MatchStatus::ExactMatch,
                confidence_permille: 950,
                matched_track_id: Some(cands[i].id),
                explanation: "Title and artist match for '"@ + cands[i].title + "' by '"@
                    + cands[i].artist + "'"@,
            },
            None => match first_of_kind(title, artist, dur, lofi, cands, 3, 0) {
                Some(i) => MatchResultView {
                    status: MatchStatus::LikelyMatch,
                    confidence_permille: 850,
                    matched_track_id: Some(cands[i].id),
                    explanation: "Lofi track matched by title '"@ + cands[i].title
                        + "' (library artist '"@ + cands[i].artist + "', requested '"@ + artist
                        + "')"@,
                },
                None => MatchResultView {
                    status: MatchStatus::NotFound,
                    confidence_permille: 0,
                    matched_track_id: None,
                    explanation: if lofi {
                        "No matching lofi track found in library"@
                    } else {
                        "Exact match for '"@ + title + "' by '"@ + artist + "' not in library"@
                    },
                },
            },
        },
    }
}

fn duration_close_exec(ext: Option<u64>, local: u64) -> (b: bool)
    ensures
        b == duration_close(ext, local),
{
    match ext {
        None => true,
        Some(d) => {
            let diff = if d >= local {
                d - local
            } else {
                local - d
            };
            d <= 35000 || diff <= 12000
        },
    }
}

impl FuzzyTrackMatcher {
    /// Finds the single best matching local track for an external track.
    /// A regular song needs its title and artist to match; a lofi song may
    /// instead match a lofi track of the same title by another artist.
    pub fn find_best_match(
        ext_title: &str,
        ext_artist: &str,
        ext_duration_ms: Option<u64>,
        is_lofi_context: bool,
        candidates: &Vec<LocalTrackCandidate>,
    ) -> (r: MatchResult)
        ensures
            r@ == best_match(
                ext_title@,
                ext_artist@,
                ext_duration_ms,
                is_lofi_context,
                candidate_views(candidates@),
            ),
    {
        let is_lofi = is_lofi_context || Self::is_lofi_indicator(ext_title)
            || Self::is_lofi_indicator(ext_artist);
        let ghost cv = candidate_views(candidates@);
        let ghost t = ext_title@;
        let ghost a = ext_artist@;
        let mut weak: Option<usize> = None;
        let mut lofi_pick: Option<usize> = None;
        let mut i: usize = 0;
        while i < candidates.len()
            invariant
                i <= candidates.len(),
                cv == candidate_views(candidates@),
                t == ext_title@,
                a == ext_artist@,
                is_lofi == query_is_lofi(t, a, is_lofi_context),
                first_of_kind(t, a, ext_duration_ms, is_lofi, cv, 1, 0) == first_of_kind(
                    t,
                    a,
                    ext_duration_ms,
                    is_lofi,
                    cv,
                    1,
                    i as int,
                ),
                match weak {
                    Some(w) => w < i && first_of_kind(t, a, ext_duration_ms, is_lofi, cv, 2, 0)
                        == Some(w as int),
                    None => first_of_kind(t, a, ext_duration_ms, is_lofi, cv, 2, 0)
                        == first_of_kind(t, a, ext_duration_ms, is_lofi, cv, 2, i as int),
                },
                match lofi_pick {
                    Some(w) => w < i && first_of_kind(t, a, ext_duration_ms, is_lofi, cv, 3, 0)
                        == Some(w as int),
                    None => first_of_kind(t, a, ext_duration_ms, is_lofi, cv, 3, 0)
                        == first_of_kind(t, a, ext_duration_ms, is_lofi, cv, 3, i as int),
                },
            decreases candidates.len() - i,
        {
            let c = &candidates[i];
            assert(cv[i as int] == c@);
            let title_ok = Self::titles_match(ext_title, c.title.as_str());
            if title_ok {
                let artist_ok = Self::artists_match(ext_artist, c.artist.as_str());
                if artist_ok {
                    if duration_close_exec(ext_duration_ms, c.duration_ms) {
                        let expl = text::concat5(
                            "Exact match for '",
                            c.title.as_str(),
                            "' by '",
                            c.artist.as_str(),
                            "'",
                        );
                        return MatchResult {
                            status: MatchStatus::ExactMatch,
                            confidence_permille: 1000,
                            matched_track_id: Some(c.id.clone()),
                            explanation: expl,
                        };
                    } else if weak.is_none() {
                        weak = Some(i);
                    }
                } else if is_lofi && c.is_lofi && lofi_pick.is_none() {
                    lofi_pick = Some(i);
                }
            }
            i = i + 1;
        }
        match weak {
            Some(w) => {
                let c = &candidates[w];
                assert(cv[w as int] == c@);
                let expl = text::concat5(
                    "Title and artist match for '",
                    c.title.as_str(),
                    "' by '",
                    c.artist.as_str(),
                    "'",
                );
                return MatchResult {
                    status: MatchStatus::ExactMatch,
                    confidence_permille: 950,
                    matched_track_id: Some(c.id.clone()),
                    explanation: expl,
                };
            },
            None => {},
        }
        match lofi_pick {
            Some(w) => {
                let c = &candidates[w];
                assert(cv[w as int] == c@);
                let expl = text::concat7(
                    "Lofi track matched by title '",
                    c.title.as_str(),
                    "' (library artist '",
                    c.artist.as_str(),
                    "', requested '",
                    ext_artist,
                    "')",
                );
                return MatchResult {
                    status: MatchStatus::LikelyMatch,
                    confidence_permille: 850,
                    matched_track_id: Some(c.id.clone()),
                    explanation: expl,
                };
            },
            None => {},
        }
        let expl = if is_lofi {
            text::string_of(&text::chars_of("No matching lofi track found in library"))
        } else {
            text::concat5("Exact match for '", ext_title, "' by '", ext_artist, "' not in library")
        };
        MatchResult {
            status: MatchStatus::NotFound,
            confidence_permille: 0,
            matched_track_id: None,
            explanation: expl,
        }
    }
}

} // verus!
