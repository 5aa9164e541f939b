//! Genre keyword logic and online-search helpers of the discovery coordinator.
use vstd::prelude::*;
use crate::text;

verus! {

/// Whether the lowercase form of `genre` contains `kw`.
pub open spec fn mentions(g: Seq<char>, kw: Seq<char>) -> bool {
    text::contains(g, kw)
}

/// The iTunes Store genre ID for a genre name, by keyword.
pub open spec fn itunes_genre_id(genre: Seq<char>) -> Option<u32> {
    genre_id_of_lowered(text::spec_str_lowercase(genre))
}

/// The iTunes Store genre ID for an already lowercased genre name, by keyword.
pub open spec fn genre_id_of_lowered(g: Seq<char>) -> Option<u32> {
    if mentions(g, "hip hop"@) || mentions(g, "hip-hop"@) || mentions(g, "rap"@) {
        Some(18)
    } else if mentions(g, "pop"@) && !mentions(g, "k-pop"@) && !mentions(g, "j-pop"@) {
        Some(14)
    } else if mentions(g, "electro"@) || mentions(g, "dance"@) || mentions(g, "electronic"@) || mentions(g, "house"@)
        || mentions(g, "edm"@) {
        Some(7)
    } else if mentions(g, "alt"@) {
        Some(20)
    } else if mentions(g, "rock"@) || mentions(g, "metal"@) {
        Some(21)
    } else if mentions(g, "r&b"@) || mentions(g, "soul"@) {
        Some(15)
    } else if mentions(g, "soundtrack"@) || mentions(g, "film"@) || mentions(g, "game"@) {
        Some(24)
    } else if mentions(g, "country"@) {
        Some(6)
    } else if mentions(g, "jazz"@) {
        Some(11)
    } else if mentions(g, "classical"@) {
        Some(5)
    } else if mentions(g, "reggae"@) {
        Some(16)
    } else {
        None
    }
}

fn h(g: &Vec<char>, kw: &str) -> (b: bool)
    ensures
        b == mentions(g@, kw@),
{
    text::contains_str(g, kw)
}

/// Maps common genre names and keywords to iTunes Store genre IDs, the
/// name compared in lowercase.
pub fn map_genre_to_itunes_genre_id(genre: &str) -> (r: Option<u32>)
    ensures
        r == itunes_genre_id(genre@),
        text::all_ascii(genre@) ==> r == genre_id_of_lowered(text::lowered(genre@)),
{
    let g = text::lower_chars(genre);
    genre_id_of_lowercase_chars(&g)
}

/// The iTunes Store genre ID for a genre name already in lowercase.
pub fn genre_id_for_lowercase(lowercase_genre: &str) -> (r: Option<u32>)
    ensures
        r == genre_id_of_lowered(lowercase_genre@),
{
    let g = text::chars_of(lowercase_genre);
    genre_id_of_lowercase_chars(&g)
}

fn genre_id_of_lowercase_chars(g: &Vec<char>) -> (r: Option<u32>)
    ensures
        r == genre_id_of_lowered(g@),
{
    if h(g, "hip hop") || h(g, "hip-hop") || h(g, "rap") {
        Some(18)
    } else if h(g, "pop") && !h(g, "k-pop") && !h(g, "j-pop") {
        Some(14)
    } else if h(g, "electro") || h(g, "dance") || h(g, "electronic") || h(g, "house") || h(
        g,
        "edm",
    ) {
        Some(7)
    } else if h(g, "alt") {
        Some(20)
    } else if h(g, "rock") || h(g, "metal") {
        Some(21)
    } else if h(g, "r&b") || h(g, "soul") {
        Some(15)
    } else if h(g, "soundtrack") || h(g, "film") || h(g, "game") {
        Some(24)
    } else if h(g, "country") {
        Some(6)
    } else if h(g, "jazz") {
        Some(11)
    } else if h(g, "classical") {
        Some(5)
    } else if h(g, "reggae") {
        Some(16)
    } else {
        None
    }
}

pub open spec fn rap_family(g: Seq<char>) -> bool {
    mentions(g, "hip-hop"@) || mentions(g, "hip hop"@) || mentions(g, "rap"@)
}

pub open spec fn electronic_family(g: Seq<char>) -> bool {
    mentions(g, "dance"@) || mentions(g, "electronic"@) || mentions(g, "electro"@)
}

pub open spec fn rock_family(g: Seq<char>) -> bool {
    mentions(g, "rock"@) || mentions(g, "alternative"@)
}

pub open spec fn rnb_family(g: Seq<char>) -> bool {
    mentions(g, "r&b"@) || mentions(g, "soul"@)
}

pub open spec fn asian_family(g: Seq<char>) -> bool {
    mentions(g, "asian"@) || mentions(g, "j-pop"@) || mentions(g, "anime"@) || mentions(g, "k-pop"@) || mentions(
        g,
        "japanese"@,
    )
}

pub open spec fn latin_family(g: Seq<char>) -> bool {
    mentions(g, "brazil"@) || mentions(g, "latin"@) || mentions(g, "samba"@) || mentions(g, "bossa"@)
}

pub open spec fn indian_family(g: Seq<char>) -> bool {
    mentions(g, "bollywood"@) || mentions(g, "indian"@) || mentions(g, "desi"@) || mentions(g, "hindi"@) || mentions(
        g,
        "punjabi"@,
    )
}

pub open spec fn malayalam_candidate(g: Seq<char>) -> bool {
    mentions(g, "malayalam"@) || mentions(g, "regional indian"@) || mentions(g, "indian"@)
}

pub open spec fn malayalam_listener(g: Seq<char>) -> bool {
    mentions(g, "malayalam"@) || mentions(g, "asian"@) || mentions(g, "indian"@) || mentions(g, "soundtrack"@)
}

/// Whether a candidate genre fuzzily matches a user's library genre: equal or
/// one containing the other (case-insensitively), or both in one genre family.
pub open spec fn genres_match(candidate: Seq<char>, user: Seq<char>) -> bool {
    lowered_genres_match(text::spec_str_lowercase(candidate), text::spec_str_lowercase(user))
}

/// The genre match on genre names already in lowercase.
pub open spec fn lowered_genres_match(cg: Seq<char>, ug: Seq<char>) -> bool {
    if cg.len() == 0 || ug.len() == 0 {
        false
    } else if cg == ug || mentions(cg, ug) || mentions(ug, cg) {
        true
    } else {
        (rap_family(cg) && rap_family(ug)) || (electronic_family(cg) && electronic_family(ug)) || (
        rock_family(cg) && rock_family(ug)) || (rnb_family(cg) && rnb_family(ug)) || (asian_family(
            cg,
        ) && asian_family(ug)) || (latin_family(cg) && latin_family(ug)) || (indian_family(cg)
            && indian_family(ug)) || (malayalam_candidate(cg) && malayalam_listener(ug))
    }
}

/// Checks if a candidate genre fuzzily matches a user's library genre. An
/// empty genre matches nothing; a non-empty genre matches itself.
pub fn genre_matches(candidate_genre: &str, user_genre: &str) -> (b: bool)
    ensures
        b == genres_match(candidate_genre@, user_genre@),
        text::all_ascii(candidate_genre@) && text::all_ascii(user_genre@) ==> b == lowered_genres_match(
            text::lowered(candidate_genre@),
            text::lowered(user_genre@),
        ),
        candidate_genre@.len() == 0 || user_genre@.len() == 0 ==> !b,
        candidate_genre@ == user_genre@ && candidate_genre@.len() > 0 ==> b,
{
    let cg = text::lower_chars(candidate_genre);
    let ug = text::lower_chars(user_genre);
    lowercase_genres_match_chars(&cg, &ug)
}

/// The genre match on genre names already in lowercase.
pub fn genres_match_lowercase(candidate_lowercase: &str, user_lowercase: &str) -> (b: bool)
    ensures
        b == lowered_genres_match(candidate_lowercase@, user_lowercase@),
{
    let cg = text::chars_of(candidate_lowercase);
    let ug = text::chars_of(user_lowercase);
    lowercase_genres_match_chars(&cg, &ug)
}

fn lowercase_genres_match_chars(cg: &Vec<char>, ug: &Vec<char>) -> (b: bool)
    ensures
        b == lowered_genres_match(cg@, ug@),
{
    if cg.len() == 0 || ug.len() == 0 {
        return false;
    }
    if text::chars_eq(cg, ug) || text::contains_exec(cg, ug) || text::contains_exec(ug, cg) {
        return true;
    }
    let rap = (h(cg, "hip-hop") || h(cg, "hip hop") || h(cg, "rap")) && (h(ug, "hip-hop") || h(
        ug,
        "hip hop",
    ) || h(ug, "rap"));
    let electronic = (h(cg, "dance") || h(cg, "electronic") || h(cg, "electro")) && (h(
        ug,
        "dance",
    ) || h(ug, "electronic") || h(ug, "electro"));
    let rock = (h(cg, "rock") || h(cg, "alternative")) && (h(ug, "rock") || h(
        ug,
        "alternative",
    ));
    let rnb = (h(cg, "r&b") || h(cg, "soul")) && (h(ug, "r&b") || h(ug, "soul"));
    let asian = (h(cg, "asian") || h(cg, "j-pop") || h(cg, "anime") || h(cg, "k-pop") || h(
        cg,
        "japanese",
    )) && (h(ug, "asian") || h(ug, "j-pop") || h(ug, "anime") || h(ug, "k-pop") || h(
        ug,
        "japanese",
    ));
    let latin = (h(cg, "brazil") || h(cg, "latin") || h(cg, "samba") || h(cg, "bossa")) && (h(
        ug,
        "brazil",
    ) || h(ug, "latin") || h(ug, "samba") || h(ug, "bossa"));
    let indian = (h(cg, "bollywood") || h(cg, "indian") || h(cg, "desi") || h(cg, "hindi")
        || h(cg, "punjabi")) && (h(ug, "bollywood") || h(ug, "indian") || h(ug, "desi") || h(
        ug,
        "hindi",
    ) || h(ug, "punjabi"));
    let malayalam = (h(cg, "malayalam") || h(cg, "regional indian") || h(cg, "indian")) && (h(
        ug,
        "malayalam",
    ) || h(ug, "asian") || h(ug, "indian") || h(ug, "soundtrack"));
    rap || electronic || rock || rnb || asian || latin || indian || malayalam
}

/// Every genre name maps to no ID or to one of the twelve store genres, and a
/// name that mentions rap or hip hop always maps to Hip-Hop/Rap (18).
pub proof fn law_genre_ids_are_store_genres(g: Seq<char>)
    ensures
        genre_id_of_lowered(g) matches Some(id) ==> (id == 5 || id == 6 || id == 7 || id == 11 || id
            == 14 || id == 15 || id == 16 || id == 18 || id == 20 || id == 21 || id == 24),
        rap_family(g) ==> genre_id_of_lowered(g) == Some(18u32),
{
}

/// On ASCII names the genre ID ignores case: the name in capitals maps as
/// the name itself does.
pub proof fn law_genre_id_ignores_ascii_case(g: Seq<char>)
    requires
        text::all_ascii(g),
    ensures
        text::all_ascii(text::raised(g)),
        genre_id_of_lowered(text::lowered(text::raised(g))) == genre_id_of_lowered(text::lowered(g)),
{
    text::lemma_ascii_case(g);
}

/// An empty genre matches nothing, and a non-empty lowercase genre matches
/// itself.
pub proof fn law_genre_match_empty_and_reflexive(cg: Seq<char>, ug: Seq<char>)
    ensures
        cg.len() == 0 || ug.len() == 0 ==> !lowered_genres_match(cg, ug),
        cg.len() > 0 ==> lowered_genres_match(cg, cg),
{
}

/// On ASCII names the genre match ignores case: a candidate in capitals and
/// a user genre in small letters match as the names themselves do.
pub proof fn law_genre_match_ignores_ascii_case(c: Seq<char>, u: Seq<char>)
    requires
        text::all_ascii(c),
        text::all_ascii(u),
    ensures
        text::all_ascii(text::raised(c)),
        text::all_ascii(text::lowered(u)),
        lowered_genres_match(text::lowered(text::raised(c)), text::lowered(text::lowered(u)))
            == lowered_genres_match(text::lowered(c), text::lowered(u)),
{
    text::lemma_ascii_case(c);
    text::lemma_ascii_case(u);
}

// ---------------------------------------------------------------- URL encoding

/// Whether a byte is left as is by query percent-encoding (RFC 3986 unreserved).
pub open spec fn unreserved(b: u8) -> bool {
    (97 <= b <= 122) || (65 <= b <= 90) || (48 <= b <= 57) || b == 45 || b == 95 || b == 46 || b
        == 126
}

/// The upper-case hexadecimal digit of a value below 16.
pub open spec fn hex_digit(n: u8) -> char {
    if n < 10 {
        ((48 + n) as u8) as char
    } else {
        ((55 + n) as u8) as char
    }
}

/// The encoding of one byte: itself if unreserved, else "%XY" (a space is "%20").
pub open spec fn encode_byte(b: u8) -> Seq<char> {
    if unreserved(b) {
        seq![b as char]
    } else {
        seq!['%', hex_digit(b / 16), hex_digit(b % 16)]
    }
}

/// The query encoding of a byte sequence.
pub open spec fn url_encoded(bytes: Seq<u8>) -> Seq<char>
    decreases bytes.len(),
{
    if bytes.len() == 0 {
        seq![]
    } else {
        url_encoded(bytes.drop_last()) + encode_byte(bytes.last())
    }
}

fn hex_digit_exec(n: u8) -> (c: char)
    requires
        n < 16,
    ensures
        c == hex_digit(n),
{
    if n < 10 {
        (48 + n) as char
    } else {
        (55 + n) as char
    }
}

/// Percent-encodes a search query (RFC 3986): unreserved bytes are kept and
/// every other byte of the UTF-8 form becomes `%XY` in upper-case hex.
pub fn url_encode(input: &str) -> (r: String)
    ensures
        r@ == url_encoded(vstd::utf8::encode_utf8(input@)),
{
    let bytes = input.as_bytes();
    let mut out: Vec<char> = Vec::new();
    let mut i: usize = 0;
    while i < bytes.len()
        invariant
            i <= bytes.len(),
            bytes@ == vstd::utf8::encode_utf8(input@),
            out@ == url_encoded(bytes@.take(i as int)),
        decreases bytes.len() - i,
    {
        let b = bytes[i];
        assert(bytes@.take(i + 1).drop_last() =~= bytes@.take(i as int));
        let ghost before = out@;
        if (97 <= b && b <= 122) || (65 <= b && b <= 90) || (48 <= b && b <= 57) || b == 45 || b
            == 95 || b == 46 || b == 126 {
            out.push(b as char);
        } else {
            out.push('%');
            out.push(hex_digit_exec(b / 16));
            out.push(hex_digit_exec(b % 16));
        }
        assert(out@ =~= before + encode_byte(b));
        i = i + 1;
    }
    assert(bytes@.take(bytes.len() as int) =~= bytes@);
    text::string_of(&out)
}

} // verus!
