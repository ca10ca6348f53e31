//! Text operations that outside crates and std perform for the engine.
//! Each wrapper carries the contract the engine relies on; results that no
//! short formula can state are given a name instead.

use vstd::prelude::*;

verus! {

/// What `str::to_lowercase` returns for a text; it depends on the characters
/// alone.
pub uninterp spec fn lower_of(s: Seq<char>) -> Seq<char>;

/// What `html_escape::decode_html_entities` returns for a text; it depends on
/// the characters alone.
pub uninterp spec fn html_decoded(s: Seq<char>) -> Seq<char>;

/// What `voca_rs::strip::strip_tags` returns for a text; it depends on the
/// characters alone.
pub uninterp spec fn tags_stripped(s: Seq<char>) -> Seq<char>;

/// The weighted character count that `egg_mode_text::character_count` gives a
/// text when every link weighs 23; it depends on the characters alone.
pub uninterp spec fn tweet_weight_of(s: Seq<char>) -> nat;

/// The number of grapheme clusters that `unicode_segmentation` counts in a
/// text; it depends on the characters alone.
pub uninterp spec fn grapheme_tally(s: Seq<char>) -> nat;

/// Relies on `str::chars`: it yields exactly the characters of the string,
/// which are the string's view.
#[verifier::external_body]
pub fn str_chars(s: &str) -> (r: Vec<char>)
    ensures
        r@ == s@,
{
    s.chars().collect()
}

/// Relies on `String: FromIterator<char>`: collecting characters builds the
/// string of exactly those characters.
#[verifier::external_body]
pub fn chars_string(v: &Vec<char>) -> (r: String)
    ensures
        r@ == v@,
{
    v.iter().collect()
}

/// Relies on `str::to_lowercase`, whose result is a function of the
/// characters alone; an empty text stays empty.
#[verifier::external_body]
pub fn lowercase_chars(v: &Vec<char>) -> (r: Vec<char>)
    ensures
        r@ == lower_of(v@),
        v@.len() == 0 ==> r@.len() == 0,
{
    let s: String = v.iter().collect();
    s.to_lowercase().chars().collect()
}

/// Relies on `html_escape::decode_html_entities`, which decodes entity
/// references; its result is a function of the characters alone, and an empty
/// text stays empty.
#[verifier::external_body]
pub fn decode_entities_chars(v: &Vec<char>) -> (r: Vec<char>)
    ensures
        r@ == html_decoded(v@),
        v@.len() == 0 ==> r@.len() == 0,
{
    let s: String = v.iter().collect();
    html_escape::decode_html_entities(&s).chars().collect()
}

/// Relies on `voca_rs::strip::strip_tags`, which removes HTML tags
/// best-effort; its result is a function of the characters alone, and an
/// empty text stays empty.
#[verifier::external_body]
pub fn strip_tags_chars(v: &Vec<char>) -> (r: Vec<char>)
    ensures
        r@ == tags_stripped(v@),
        v@.len() == 0 ==> r@.len() == 0,
{
    let s: String = v.iter().collect();
    voca_rs::strip::strip_tags(&s).chars().collect()
}

/// Relies on `egg_mode_text::character_count` with both link weights at 23;
/// its result is a function of the characters alone, and an empty text
/// counts 0.
#[verifier::external_body]
pub fn tweet_weight(v: &Vec<char>) -> (r: usize)
    ensures
        r == tweet_weight_of(v@),
        v@.len() == 0 ==> r == 0,
{
    let s: String = v.iter().collect();
    egg_mode_text::character_count(&s, 23, 23)
}

/// Relies on `unicode_segmentation::UnicodeSegmentation::graphemes` with
/// extended clusters; its count is a function of the characters alone, and an
/// empty text counts 0.
#[verifier::external_body]
pub fn grapheme_count(v: &Vec<char>) -> (r: usize)
    ensures
        r == grapheme_tally(v@),
        v@.len() == 0 ==> r == 0,
{
    let s: String = v.iter().collect();
    unicode_segmentation::UnicodeSegmentation::graphemes(s.as_str(), true).count()
}

} // verus!
