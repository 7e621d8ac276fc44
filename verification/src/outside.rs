//! What the library takes from other crates and from the parts of the standard library that have no
//! specification: the items whose contracts are stated here and not proved.
use crate::pattern;
use crate::region;
use crate::reply;
use crate::text;
use base64::Engine;
use vstd::prelude::*;
use vstd::string::*;
use vstd::utf8::*;

verus! {

/// `String::push`: the character stands at the end of the string, after what it held.
pub assume_specification[ String::push ](s: &mut String, c: char)
    ensures
        final(s)@ == old(s)@.push(c),
;

/// Standard base64, with padding, of `bytes`.
pub uninterp spec fn base64_encoded(bytes: Seq<u8>) -> Seq<char>;

/// The bytes that `text` is the standard base64 of, with canonical padding; `None` when it is not
/// the base64 of anything.
pub uninterp spec fn base64_decoded(text: Seq<u8>) -> Option<Seq<u8>>;

/// Whether the base64 of `len` bytes fits a string.
pub open spec fn base64_fits(len: nat) -> bool {
    (len + 2) / 3 * 4 <= isize::MAX
}

/// `base64`'s `Engine::encode` of the `STANDARD` engine, which gives four characters for each three
/// bytes begun and which `Engine::decode` of the same engine undoes. It panics where the text would
/// be larger than an allocation can be.
#[verifier::external_body]
pub(crate) fn base64_encode(bytes: &[u8]) -> (text: String)
    requires
        base64_fits(bytes@.len()),
    ensures
        text@ == base64_encoded(bytes@),
        text@.len() == (bytes@.len() + 2) / 3 * 4,
        base64_decoded(encode_utf8(text@)) == Some(bytes@),
{
    base64::engine::general_purpose::STANDARD.encode(bytes)
}

/// `base64`'s `Engine::decode` of the `STANDARD` engine, with its error dropped. Nothing decodes to
/// nothing.
#[verifier::external_body]
pub(crate) fn base64_decode(text: &[u8]) -> (bytes: Option<Vec<u8>>)
    ensures
        bytes is Some <==> base64_decoded(text@) is Some,
        bytes matches Some(b) ==> base64_decoded(text@) == Some(b@),
        text@.len() == 0 ==> bytes is Some && bytes->0@.len() == 0,
{
    base64::engine::general_purpose::STANDARD.decode(text).ok()
}

/// `String::from_utf8`, with its error dropped: the text that the bytes encode when they are valid
/// UTF-8, and `None` when they are not.
#[verifier::external_body]
pub(crate) fn utf8_text(bytes: Vec<u8>) -> (text: Option<String>)
    ensures
        text is Some <==> valid_utf8(bytes@),
        text matches Some(t) ==> t@ == decode_utf8(bytes@),
{
    String::from_utf8(bytes).ok()
}

/// The text that `bytes` encode, with replacement characters for what is not UTF-8.
pub uninterp spec fn utf8_lossy(bytes: Seq<u8>) -> Seq<char>;

/// `String::from_utf8_lossy`: the text that the bytes encode when they are valid UTF-8. Where the
/// replacement characters stand when they are not is only named.
#[verifier::external_body]
pub(crate) fn lossy_text(bytes: &[u8]) -> (text: String)
    ensures
        text@ == utf8_lossy(bytes@),
        valid_utf8(bytes@) ==> text@ == decode_utf8(bytes@),
{
    String::from_utf8_lossy(bytes).into_owned()
}

/// The text that an optional string holds.
pub open spec fn optional_text(s: Option<String>) -> Option<Seq<char>> {
    match s {
        Some(s) => Some(s@),
        None => None,
    }
}

/// What the first group of the regular expression `pattern` takes from `text` where the expression
/// first matches; `None` when it does not match.
pub uninterp spec fn regex_group(pattern: Seq<char>, text: Seq<char>) -> Option<Seq<char>>;

/// `regex`'s `Regex::new` and `Regex::captures`, and group 1 of the match.
///
/// A group is a part of the text. Each expression holds words that no match can do without, in
/// whatever case where the expression ignores case. Where a text holds what an expression is meant
/// for, and nothing before it that could match, the group is taken from there. What the endpoint
/// expression takes is [`region::region_group`]. What the others take, beyond that, is only named.
#[verifier::external_body]
pub(crate) fn first_group(pattern: &str, text: &str) -> (group: Option<String>)
    requires
        pattern::is_pattern(pattern@),
    ensures
        optional_text(group) == regex_group(pattern@, text@),
        group matches Some(g) ==> text::occurs(g@, text@),
        pattern@ == pattern::PERCENT@ && group is Some ==> text::mentions(text@, "%"@),
        pattern@ == pattern::SPEED@ && group is Some ==> text::mentions(text@, "b/s"@),
        pattern@ == pattern::TOTAL_1X@ && group is Some ==> text::mentions(text@, "total"@)
            && text::mentions(text@, "num:"@),
        pattern@ == pattern::TOTAL_2X@ && group is Some ==> text::mentions(text@, "total"@),
        pattern@ == pattern::OK_1X@ && group is Some ==> text::mentions(text@, "num:"@),
        pattern@ == pattern::OK_2X@ && group is Some ==> text::mentions(text@, "done:("@),
        pattern@ == pattern::OBJECTS@ && group is Some ==> text::mentions(text@, "number"@),
        pattern@ == pattern::PERCENT@ ==> forall|
            a: Seq<char>,
            n: Seq<char>,
            gap: Seq<char>,
            b: Seq<char>,
        | #[trigger]
            pattern::has_percent(text@, a, n, gap, b) ==> optional_text(group) == Some(n),
        pattern@ == pattern::SPEED@ ==> forall|
            a: Seq<char>,
            n: Seq<char>,
            gap: Seq<char>,
            unit: Seq<char>,
            b: Seq<char>,
        | #[trigger]
            pattern::has_speed(text@, a, n, gap, unit, b) ==> optional_text(group) == Some(
                n + gap + unit,
            ),
        pattern@ == pattern::TOTAL_1X@ ==> forall|a: Seq<char>, n: Seq<char>, b: Seq<char>| #[trigger]
            pattern::has_total_1x(text@, a, n, b) ==> optional_text(group) == Some(n),
        pattern@ == pattern::TOTAL_2X@ ==> forall|a: Seq<char>, n: Seq<char>, b: Seq<char>| #[trigger]
            pattern::has_total_2x(text@, a, n, b) ==> optional_text(group) == Some(n),
        pattern@ == pattern::OK_1X@ ==> forall|a: Seq<char>, n: Seq<char>, b: Seq<char>| #[trigger]
            pattern::has_ok_1x(text@, a, n, b) ==> optional_text(group) == Some(n),
        pattern@ == pattern::OK_2X@ ==> forall|a: Seq<char>, n: Seq<char>, b: Seq<char>| #[trigger]
            pattern::has_ok_2x(text@, a, n, b) ==> optional_text(group) == Some(n),
        pattern@ == pattern::OBJECTS@ ==> forall|a: Seq<char>, n: Seq<char>, b: Seq<char>| #[trigger]
            pattern::has_objects(text@, a, n, b) ==> optional_text(group) == Some(n),
        pattern@ == pattern::REGION@ ==> optional_text(group) == region::region_group(text@),
{
    let expression = regex::Regex::new(pattern).expect("valid regex");
    match expression.captures(text) {
        Some(groups) => match groups.get(1) {
            Some(found) => Some(found.as_str().to_owned()),
            None => None,
        },
        None => None,
    }
}

/// A value of JSON, as `serde_json` holds it.
#[verifier::external_type_specification]
#[verifier::external_body]
pub struct ExValue(serde_json::Value);

/// The first value of JSON in `text`, or what is wrong with it; `None` when there is none.
pub uninterp spec fn first_json(text: Seq<char>) -> Option<Result<serde_json::Value, Seq<char>>>;

/// What a reading of JSON says, with the text of the error.
pub open spec fn json_reading(reading: Option<Result<serde_json::Value, String>>) -> Option<
    Result<serde_json::Value, Seq<char>>,
> {
    match reading {
        Some(Ok(value)) => Some(Ok(value)),
        Some(Err(error)) => Some(Err(error@)),
        None => None,
    }
}

/// `serde_json`'s `StreamDeserializer::next` at the start of a text, with its error as text.
///
/// It gives nothing exactly where the text holds nothing but the white space of JSON. A number with a
/// round bracket right behind it is no value. Once a value was read, what follows makes no difference,
/// if the value ends by itself or white space comes next. The value and the error are otherwise only
/// named.
#[verifier::external_body]
pub(crate) fn read_json(text: &str) -> (reading: Option<Result<serde_json::Value, String>>)
    ensures
        json_reading(reading) == first_json(text@),
        reading is None <==> reply::is_blank_json(text@),
        reply::starts_with_time(text@) ==> reading is Some && reading->0 is Err,
        reading is Some && reading->0 is Ok ==> forall|rest: Seq<char>|
            reply::may_follow(text@, rest) ==> #[trigger] first_json(text@ + rest) == json_reading(
                reading,
            ),
{
    let mut stream = serde_json::Deserializer::from_str(text).into_iter::<serde_json::Value>();
    match stream.next() {
        Some(Ok(value)) => Some(Ok(value)),
        Some(Err(error)) => Some(Err(error.to_string())),
        None => None,
    }
}

/// `serde_json`'s `Value::from` of the unit, which is null: the value that is read from `null`.
#[verifier::external_body]
pub(crate) fn json_null() -> (value: serde_json::Value)
    ensures
        first_json("null"@) == Some(Ok::<serde_json::Value, Seq<char>>(value)),
{
    serde_json::Value::from(())
}

/// A text that may be missing, and a reading of JSON, say what they hold.
pub proof fn lemma_readings_say_what_they_hold(s: String, value: serde_json::Value)
    ensures
        optional_text(Some(s)) == Some(s@),
        optional_text(None) is None,
        json_reading(Some(Ok(value))) == Some(Ok::<serde_json::Value, Seq<char>>(value)),
        json_reading(Some(Err(s))) == Some(Err::<serde_json::Value, Seq<char>>(s@)),
        json_reading(None) is None,
{
}

} // verus!
