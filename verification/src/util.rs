//! Small helpers: numbers read from text, URLs with an API key, and ids read
//! from file names.

use vstd::prelude::*;
use vstd::string::*;
use url::Url;
use rand::rngs::StdRng;
use crate::rng::random_in_range;
use crate::paths::{is_simple_path, last_segment, name_stem, occurs_in, path_file_name, path_file_stem};

verus! {

/// The text of a URL that carries one more query pair `name=value`, or `None`
/// when `url` does not parse as a URL. Computed by the `url` crate.
pub uninterp spec fn url_with_pair(url: Seq<char>, name: Seq<char>, value: Seq<char>) -> Option<Seq<char>>;

/// `url::Url::parse`, then `query_pairs_mut().append_pair(name, value)`, then
/// the URL's text; `None` when the URL does not parse.
#[verifier::external_body]
fn append_query_pair(url: &str, name: &str, value: &str) -> (r: Option<String>)
    ensures
        r matches Some(s) ==> url_with_pair(url@, name@, value@) == Some(s@),
        r is None ==> url_with_pair(url@, name@, value@) is None,
{
    match Url::parse(url) {
        Ok(mut parsed) => {
            parsed.query_pairs_mut().append_pair(name, value);
            Some(parsed.to_string())
        },
        Err(_) => None,
    }
}

/// The name of the query parameter that carries an API key.
pub open spec fn api_key_param() -> Seq<char> {
    "apikey"@
}

/// The URL with `apikey=<api_key>` added to its query. The URL must parse.
pub fn add_api_key(url: &str, api_key: &str) -> (r: String)
    requires
        url_with_pair(url@, api_key_param(), api_key@) is Some,
    ensures
        url_with_pair(url@, api_key_param(), api_key@) == Some(r@),
{
    match append_query_pair(url, "apikey", api_key) {
        Some(s) => s,
        None => {
            proof {
                assert(false);
            }
            String::new()
        },
    }
}

/// The URL with `apikey=<api_key>` added to its query, or `None` when the URL
/// does not parse.
pub fn try_add_api_key(url: &str, api_key: &str) -> (r: Option<String>)
    ensures
        r matches Some(s) ==> url_with_pair(url@, api_key_param(), api_key@) == Some(s@),
        r is None ==> url_with_pair(url@, api_key_param(), api_key@) is None,
{
    append_query_pair(url, "apikey", api_key)
}

/// The value of a run of decimal digits.
pub open spec fn digits_value(s: Seq<char>) -> int
    decreases s.len(),
{
    if s.len() == 0 {
        0
    } else {
        digits_value(s.drop_last()) * 10 + (s.last() as int - '0' as int)
    }
}

/// Every character is a decimal digit.
pub open spec fn all_digits(s: Seq<char>) -> bool {
    forall|i: int| 0 <= i < s.len() ==> '0' <= #[trigger] s[i] <= '9'
}

/// The sign and the digits of a number's text: a leading `-` or `+` is the
/// sign, the rest are the digits.
pub open spec fn split_sign(s: Seq<char>) -> (bool, Seq<char>) {
    if s.len() > 0 && s[0] == '-' {
        (true, s.drop_first())
    } else if s.len() > 0 && s[0] == '+' {
        (false, s.drop_first())
    } else {
        (false, s)
    }
}

/// What std's `str::parse::<i64>` gives: an optional sign followed by at least
/// one decimal digit, whose value fits in an `i64`.
pub open spec fn parsed_i64(s: Seq<char>) -> Option<i64> {
    let (negative, digits) = split_sign(s);
    let magnitude = digits_value(digits);
    let value = if negative { -magnitude } else { magnitude };
    if digits.len() == 0 || !all_digits(digits) || value < i64::MIN || value > i64::MAX {
        None
    } else {
        Some(value as i64)
    }
}

proof fn lemma_digits_value_nonneg(s: Seq<char>)
    requires
        all_digits(s),
    ensures
        digits_value(s) >= 0,
    decreases s.len(),
{
    if s.len() > 0 {
        assert(all_digits(s.drop_last())) by {
            assert forall|i: int| 0 <= i < s.drop_last().len() implies '0' <= #[trigger] s.drop_last()[i] <= '9' by {
                assert(s.drop_last()[i] == s[i]);
            }
        }
        lemma_digits_value_nonneg(s.drop_last());
    }
}

/// Reads a whole text as an `i64`, as std's `str::parse::<i64>` does.
pub fn parse_i64(text: &str) -> (r: Option<i64>)
    ensures
        r == parsed_i64(text@),
{
    let len = text.unicode_len();
    let mut start: usize = 0;
    let mut negative = false;
    if len > 0 {
        let c = text.get_char(0);
        if c == '-' {
            negative = true;
            start = 1;
        } else if c == '+' {
            start = 1;
        }
    }
    let ghost digits = split_sign(text@).1;
    proof {
        assert(digits =~= text@.subrange(start as int, len as int));
        assert(negative == split_sign(text@).0);
    }
    if start == len {
        return None;
    }
    // The magnitude of the digits read so far, while it stays within 2^63.
    let mut magnitude: u64 = 0;
    let mut too_large = false;
    let mut i: usize = start;
    while i < len
        invariant
            len == text@.len(),
            start <= i <= len,
            digits == text@.subrange(start as int, len as int),
            digits == split_sign(text@).1,
            negative == split_sign(text@).0,
            all_digits(digits.take(i - start)),
            !too_large ==> magnitude == digits_value(digits.take(i - start)) && magnitude <= 0x8000_0000_0000_0000u64,
            too_large ==> digits_value(digits.take(i - start)) > 0x8000_0000_0000_0000u64,
        decreases len - i,
    {
        let c = text.get_char(i);
        let ghost prefix = digits.take(i - start);
        let ghost next = digits.take(i + 1 - start);
        proof {
            assert(c == digits[i - start]);
            assert(next.drop_last() =~= prefix);
            assert(next.last() == c);
        }
        if c < '0' || c > '9' {
            proof {
                assert(!all_digits(digits));
                assert(split_sign(text@).1 == digits);
                assert(parsed_i64(text@) is None);
            }
            return None;
        }
        proof {
            assert(all_digits(next)) by {
                assert forall|k: int| 0 <= k < next.len() implies '0' <= #[trigger] next[k] <= '9' by {
                    if k < prefix.len() {
                        assert(next[k] == prefix[k]);
                    }
                }
            }
            lemma_digits_value_nonneg(prefix);
        }
        let d = (c as u32 - '0' as u32) as u64;
        if !too_large {
            if magnitude > 0x0CCC_CCCC_CCCC_CCCCu64 || (magnitude == 0x0CCC_CCCC_CCCC_CCCCu64 && d > 8) {
                too_large = true;
            } else {
                magnitude = magnitude * 10 + d;
            }
        }
        i = i + 1;
    }
    proof {
        assert(digits.take(len - start) =~= digits);
    }
    if too_large {
        return None;
    }
    if negative {
        if magnitude == 0x8000_0000_0000_0000u64 {
            Some(i64::MIN)
        } else {
            Some(-(magnitude as i64))
        }
    } else {
        if magnitude > 0x7FFF_FFFF_FFFF_FFFFu64 {
            None
        } else {
            Some(magnitude as i64)
        }
    }
}

/// The text before the first `_`, if the text holds one.
pub open spec fn before_underscore(s: Seq<char>) -> Option<Seq<char>> {
    if exists|i: int| 0 <= i < s.len() && s[i] == '_' {
        let k = choose|i: int| 0 <= i < s.len() && s[i] == '_' && forall|j: int| 0 <= j < i ==> s[j] != '_';
        Some(s.take(k))
    } else {
        None
    }
}

/// The text before the first `_` of `text`, if there is one.
pub fn prefix_before_underscore(text: &str) -> (r: Option<String>)
    ensures
        r matches Some(p) ==> exists|k: int|
            0 <= k < text@.len() && text@[k] == '_' && (forall|j: int| 0 <= j < k ==> text@[j] != '_') && p@
                == text@.take(k),
        r is None ==> forall|j: int| 0 <= j < text@.len() ==> text@[j] != '_',
        r matches Some(p) ==> before_underscore(text@) == Some(p@),
        r is None ==> before_underscore(text@) is None,
{
    let len = text.unicode_len();
    let mut i: usize = 0;
    while i < len
        invariant
            len == text@.len(),
            0 <= i <= len,
            forall|j: int| 0 <= j < i ==> text@[j] != '_',
        decreases len - i,
    {
        if text.get_char(i) == '_' {
            let prefix = text.substring_char(0, i);
            let p = String::from_str(prefix);
            proof {
                assert(text@.subrange(0, i as int) =~= text@.take(i as int));
                let t = text@;
                assert(0 <= i < t.len() && t[i as int] == '_' && forall|j: int| 0 <= j < i ==> t[j] != '_');
                let k = choose|k: int| 0 <= k < t.len() && t[k] == '_' && forall|j: int| 0 <= j < k ==> t[j] != '_';
                if k < i {
                    assert(t[k] != '_');
                } else if k > i {
                    assert(t[i as int] != '_');
                }
                assert(k == i);
            }
            return Some(p);
        }
        i = i + 1;
    }
    None
}

/// The file name of a path: its final component, if that is a name. For a
/// simple path (see `is_simple_path`) it is the text after the last `/`.
pub fn file_name_of(path: &str) -> (r: Option<String>)
    ensures
        r matches Some(name) ==> occurs_in(name@, path@),
        is_simple_path(path@) ==> (r matches Some(name) && name@ == last_segment(path@)),
{
    path_file_name(path)
}

/// The id of the video whose preview image a path names: the part of the file
/// stem before the first `_`.
pub fn video_id_from_path(path: &str) -> (r: Option<String>)
    ensures
        r matches Some(id) ==> occurs_in(id@, path@),
        r matches Some(id) ==> exists|stem: Seq<char>| occurs_in(stem, path@) && before_underscore(stem) == Some(id@),
        is_simple_path(path@) ==> match before_underscore(name_stem(last_segment(path@))) {
            Some(id) => r matches Some(x) && x@ == id,
            None => r is None,
        },
{
    let stem = path_file_stem(path);
    match stem {
        Some(stem) => {
            let r = prefix_before_underscore(stem.as_str());
            proof {
                if r is Some {
                    let id = r->0;
                    let k = choose|k: int|
                        0 <= k < stem@.len() && stem@[k] == '_' && (forall|j: int| 0 <= j < k ==> stem@[j] != '_')
                            && id@ == stem@.take(k);
                    let i = choose|i: int|
                        0 <= i && i + stem@.len() <= path@.len() && #[trigger] path@.subrange(i, i + stem@.len()) == stem@;
                    assert(path@.subrange(i, i + k) =~= id@);
                    assert(occurs_in(stem@, path@) && before_underscore(stem@) == Some(id@));
                }
            }
            r
        },
        None => None,
    }
}

/// An id made of two adjectives and an animal, joined by `-`.
pub open spec fn id_from_words(adjective1: Seq<char>, adjective2: Seq<char>, animal: Seq<char>) -> Seq<char> {
    adjective1 + "-"@ + adjective2 + "-"@ + animal
}

/// A random word of the list.
fn pick_word(words: &Vec<String>, rng: &mut StdRng) -> (r: String)
    requires
        words@.len() > 0,
    ensures
        exists|i: int| 0 <= i < words@.len() && r@ == #[trigger] words@[i]@,
{
    let i = random_in_range(rng, 0, words.len());
    let word = words[i].clone();
    assert(word@ == words@[i as int]@);
    word
}

/// A readable random id such as `brave-quiet-otter`: two adjectives and an
/// animal, each drawn from its list (the adjectives independently), joined by
/// `-`. Both lists must hold a word.
pub fn generate_id(adjectives: &Vec<String>, animals: &Vec<String>, rng: &mut StdRng) -> (r: String)
    requires
        adjectives@.len() > 0,
        animals@.len() > 0,
    ensures
        exists|i: int, j: int, k: int|
            0 <= i < adjectives@.len() && 0 <= j < adjectives@.len() && 0 <= k < animals@.len() && r@
                == id_from_words(#[trigger] adjectives@[i]@, #[trigger] adjectives@[j]@, #[trigger] animals@[k]@),
{
    let adjective1 = pick_word(adjectives, rng);
    let adjective2 = pick_word(adjectives, rng);
    let animal = pick_word(animals, rng);
    let mut id = adjective1;
    id.append("-");
    id.append(adjective2.as_str());
    id.append("-");
    id.append(animal.as_str());
    proof {
        let i = choose|i: int| 0 <= i < adjectives@.len() && adjective1@ == #[trigger] adjectives@[i]@;
        let j = choose|j: int| 0 <= j < adjectives@.len() && adjective2@ == #[trigger] adjectives@[j]@;
        let k = choose|k: int| 0 <= k < animals@.len() && animal@ == #[trigger] animals@[k]@;
        assert(id@ =~= id_from_words(adjectives@[i]@, adjectives@[j]@, animals@[k]@));
    }
    id
}

} // verus!
