//! Cover art and lyrics of local tracks: the image files looked for beside a
//! track, the data URL an image becomes, and how embedded lyrics are told
//! apart (time-synced or plain).
use vstd::prelude::*;
use crate::text;
use crate::matcher::opt_view;
use base64::Engine;

verus! {

/// The character of a 6-bit value in the standard base64 alphabet
/// (A-Z, a-z, 0-9, '+', '/').
pub open spec fn base64_digit(v: int) -> char {
    if v < 26 {
        (65 + v) as char
    } else if v < 52 {
        (97 + (v - 26)) as char
    } else if v < 62 {
        (48 + (v - 52)) as char
    } else if v == 62 {
        '+'
    } else {
        '/'
    }
}

/// The standard padded base64 text of `bytes`: each group of three bytes
/// becomes four characters of the standard alphabet, and a last group of one
/// or two bytes becomes two or three characters followed by "==" or "=".
pub open spec fn base64_of(bytes: Seq<u8>) -> Seq<char>
    decreases bytes.len(),
{
    if bytes.len() == 0 {
        seq![]
    } else if bytes.len() == 1 {
        let a = bytes[0] as int;
        seq![base64_digit(a / 4), base64_digit((a % 4) * 16), '=', '=']
    } else if bytes.len() == 2 {
        let a = bytes[0] as int;
        let b = bytes[1] as int;
        seq![base64_digit(a / 4), base64_digit((a % 4) * 16 + b / 16), base64_digit((b % 16) * 4), '=']
    } else {
        let a = bytes[0] as int;
        let b = bytes[1] as int;
        let c = bytes[2] as int;
        seq![
            base64_digit(a / 4),
            base64_digit((a % 4) * 16 + b / 16),
            base64_digit((b % 16) * 4 + c / 64),
            base64_digit(c % 64),
        ] + base64_of(bytes.skip(3))
    }
}

/// Base64 text has four characters for every three bytes, begun groups
/// counted whole.
pub proof fn lemma_base64_length(bytes: Seq<u8>)
    ensures
        base64_of(bytes).len() == 4 * ((bytes.len() + 2) / 3),
    decreases bytes.len(),
{
    if bytes.len() > 2 {
        lemma_base64_length(bytes.skip(3));
    }
}

/// Calls `base64::engine::general_purpose::STANDARD.encode`, the standard
/// alphabet with padding. The call panics when the encoded length overflows
/// `usize`, which `requires` rules out.
#[verifier::external_body]
fn base64_standard(bytes: &[u8]) -> (r: String)
    requires
        bytes@.len() <= usize::MAX / 2,
    ensures
        r@ == base64_of(bytes@),
{
    base64::engine::general_purpose::STANDARD.encode(bytes)
}

/// The image files looked for beside a track, in order.
pub open spec fn cover_file_names() -> Seq<Seq<char>> {
    seq!["cover.jpg"@, "folder.jpg"@, "album.jpg"@, "cover.png"@, "folder.png"@, "front.jpg"@, "front.png"@]
}

/// The image files looked for beside a track, in order.
pub fn cover_candidates() -> (r: Vec<String>)
    ensures
        r@.map_values(|s: String| s@) == cover_file_names(),
{
    let mut r: Vec<String> = Vec::new();
    r.push("cover.jpg".to_string());
    r.push("folder.jpg".to_string());
    r.push("album.jpg".to_string());
    r.push("cover.png".to_string());
    r.push("folder.png".to_string());
    r.push("front.jpg".to_string());
    r.push("front.png".to_string());
    assert(r@.map_values(|s: String| s@) =~= cover_file_names());
    r
}

/// The type of an image file: PNG by its ".png" ending, else JPEG.
pub open spec fn image_mime_of(name: Seq<char>) -> Seq<char> {
    if text::ends_with(name, ".png"@) {
        "image/png"@
    } else {
        "image/jpeg"@
    }
}

/// The type of an image file.
pub fn image_mime(name: &str) -> (r: String)
    ensures
        r@ == image_mime_of(name@),
{
    let nv = text::chars_of(name);
    let png = text::chars_of(".png");
    if text::ends_with_exec(&nv, &png) {
        "image/png".to_string()
    } else {
        "image/jpeg".to_string()
    }
}

/// The type of an embedded picture: its declared type, else JPEG.
pub fn picture_mime(declared: &Option<String>) -> (r: String)
    ensures
        r@ == match opt_view(*declared) {
            Some(m) => m,
            None => "image/jpeg"@,
        },
{
    match declared {
        Some(m) => m.clone(),
        None => "image/jpeg".to_string(),
    }
}

/// The data URL of an image: "data:", its type, ";base64,", and its bytes in
/// base64.
pub fn image_data_url(mime: &str, bytes: &Vec<u8>) -> (r: String)
    requires
        bytes@.len() <= usize::MAX / 2,
    ensures
        r@ == "data:"@ + mime@ + ";base64,"@ + base64_of(bytes@),
{
    let encoded = base64_standard(bytes.as_slice());
    let head = text::concat3("data:", mime, ";base64,");
    text::concat2(head.as_str(), encoded.as_str())
}

/// Whether lyrics are time-synced: they hold both `[` and `]`.
pub open spec fn synced_lyrics(l: Seq<char>) -> bool {
    l.contains('[') && l.contains(']')
}

/// The plain and the synced lyrics of embedded lyrics text: the text goes to
/// one of the two, by whether it is time-synced.
pub fn split_lyrics(lyrics: String) -> (r: (Option<String>, Option<String>))
    ensures
        synced_lyrics(lyrics@) ==> r.0 is None && opt_view(r.1) == Some(lyrics@),
        !synced_lyrics(lyrics@) ==> opt_view(r.0) == Some(lyrics@) && r.1 is None,
{
    let v = text::chars_of(lyrics.as_str());
    let mut open = false;
    let mut close = false;
    let mut i: usize = 0;
    while i < v.len()
        invariant
            i <= v.len(),
            v@ == lyrics@,
            open == (exists|k: int| 0 <= k < i && v@[k] == '['),
            close == (exists|k: int| 0 <= k < i && v@[k] == ']'),
        decreases v.len() - i,
    {
        if v[i] == '[' {
            open = true;
        }
        if v[i] == ']' {
            close = true;
        }
        i = i + 1;
    }
    if open && close {
        (None, Some(lyrics))
    } else {
        (Some(lyrics), None)
    }
}

} // verus!
