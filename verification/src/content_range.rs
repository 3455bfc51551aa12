//! The size of a file, as the `Content-Range` field of a response states it.
use hyper::header::{HeaderMap, HeaderValue, ToStrError};
use vstd::prelude::*;

verus! {

/// `hyper::header::HeaderMap`, the fields of a response.
#[verifier::external_type_specification]
#[verifier::external_body]
#[verifier::reject_recursive_types(T)]
pub struct ExHeaderMap<T>(HeaderMap<T>);

/// `hyper::header::HeaderValue`, the value of a field.
#[verifier::external_type_specification]
#[verifier::external_body]
pub struct ExHeaderValue(HeaderValue);

/// `hyper::header::ToStrError`, which tells that a value is no plain text.
#[verifier::external_type_specification]
#[verifier::external_body]
pub struct ExToStrError(ToStrError);

/// What `headers` holds: for the lower-case name of each field that is present,
/// the bytes of its first value.
pub uninterp spec fn header_fields(headers: HeaderMap<HeaderValue>) -> Map<Seq<char>, Seq<u8>>;

/// The bytes that `value` holds.
pub uninterp spec fn header_bytes(value: HeaderValue) -> Seq<u8>;

/// `HeaderMap::get` for the key `CONTENT_RANGE`, whose name is `content-range`.
/// It gives the first value of that field, and `None` exactly where the field
/// is absent.
#[verifier::external_body]
fn content_range(headers: &HeaderMap<HeaderValue>) -> (value: Option<&HeaderValue>)
    ensures
        match value {
            Some(v) => header_fields(*headers).contains_pair("content-range"@, header_bytes(*v)),
            None => !header_fields(*headers).contains_key("content-range"@),
        },
{
    headers.get(hyper::header::CONTENT_RANGE)
}

/// A printable ASCII character, a space or a tab.
pub open spec fn is_visible(byte: u8) -> bool {
    32 <= byte < 127 || byte == 9
}

/// `bytes`, read as ASCII.
pub open spec fn ascii_text(bytes: Seq<u8>) -> Seq<char> {
    Seq::new(bytes.len(), |i: int| bytes[i] as char)
}

/// `HeaderValue::to_str` gives the bytes of the value as text where each of them
/// is a visible ASCII character, a space or a tab, and an error otherwise.
pub assume_specification[ HeaderValue::to_str ](value: &HeaderValue) -> (text: Result<
    &str,
    ToStrError,
>)
    ensures
        text is Ok <==> forall|i: int|
            0 <= i < header_bytes(*value).len() ==> is_visible(#[trigger] header_bytes(*value)[i]),
        text matches Ok(t) ==> t@ == ascii_text(header_bytes(*value)),
;

/// The part of `text` behind its last slash: all of it where it has none.
pub open spec fn last_part(text: Seq<char>) -> Seq<char> {
    match text.index_of_last('/') {
        Some(i) => text.skip(i + 1),
        None => text,
    }
}

pub open spec fn is_digit(c: char) -> bool {
    '0' <= c <= '9'
}

pub open spec fn digit_value(c: char) -> nat {
    (c as int - '0' as int) as nat
}

/// The number that `digits` denote in base ten.
pub open spec fn decimal_value(digits: Seq<char>) -> nat
    decreases digits.len(),
{
    if digits.len() == 0 {
        0
    } else {
        10 * decimal_value(digits.drop_last()) + digit_value(digits.last())
    }
}

/// `text` without the plus sign that it may begin with.
pub open spec fn without_plus(text: Seq<char>) -> Seq<char> {
    if text.len() > 0 && text[0] == '+' {
        text.skip(1)
    } else {
        text
    }
}

/// The number that `text` states: an optional plus sign, then one or more digits,
/// for a number that a `usize` can hold.
pub open spec fn stated_number(text: Seq<char>) -> Option<usize> {
    let digits = without_plus(text);
    if digits.len() > 0 && (forall|i: int| 0 <= i < digits.len() ==> is_digit(#[trigger] digits[i]))
        && decimal_value(digits) <= usize::MAX {
        Some(decimal_value(digits) as usize)
    } else {
        None
    }
}

/// The file size in the text of a `Content-Range` field, such as 1000 in
/// `bytes 0-499/1000`.
pub open spec fn stated_file_size(text: Seq<char>) -> Option<usize> {
    stated_number(last_part(text))
}

/// The file size in the fields of a response: none where the `Content-Range` field
/// is absent, is not plain text, or ends in no number behind its last slash.
pub open spec fn file_size_of_fields(fields: Map<Seq<char>, Seq<u8>>) -> Option<usize> {
    let bytes = fields["content-range"@];
    if fields.contains_key("content-range"@) && (forall|i: int|
        0 <= i < bytes.len() ==> is_visible(#[trigger] bytes[i])) {
        stated_file_size(ascii_text(bytes))
    } else {
        None
    }
}

proof fn lemma_last_part_push(text: Seq<char>, c: char)
    ensures
        last_part(text.push(c)) == if c == '/' {
            Seq::<char>::empty()
        } else {
            last_part(text).push(c)
        },
{
    let pushed = text.push(c);
    text.index_of_last_ensures('/');
    pushed.index_of_last_ensures('/');
    assert(pushed[text.len() as int] == c);
    match text.index_of_last('/') {
        Some(i) => {
            assert(pushed[i] == '/');
            if c != '/' {
                let j = pushed.index_of_last('/')->0;
                assert(text[j] == '/');
                assert(i == j);
                assert(pushed.skip(i + 1) =~= text.skip(i + 1).push(c));
            }
        },
        None => {
            if c != '/' && pushed.contains('/') {
                let j = pushed.index_of_last('/')->0;
                assert(text[j] == '/');
            }
        },
    }
    if c == '/' {
        assert(pushed.skip(pushed.len() as int) =~= Seq::<char>::empty());
    }
}

proof fn lemma_prefix_value(digits: Seq<char>, i: int)
    requires
        0 <= i <= digits.len(),
    ensures
        decimal_value(digits.take(i)) <= decimal_value(digits),
    decreases digits.len(),
{
    if i == digits.len() {
        assert(digits.take(i) =~= digits);
    } else {
        lemma_prefix_value(digits.drop_last(), i);
        assert(digits.drop_last().take(i) =~= digits.take(i));
    }
}

/// Parses a number, as [`stated_number`] says.
fn parse_number(text: &Vec<char>) -> (number: Option<usize>)
    ensures
        number == stated_number(text@),
{
    let first: usize = if text.len() > 0 && text[0] == '+' {
        1
    } else {
        0
    };
    let ghost digits = without_plus(text@);
    assert(digits =~= text@.skip(first as int));
    if first == text.len() {
        return None;
    }
    let mut value: usize = 0;
    let mut i: usize = first;
    assert(digits.take(0) =~= Seq::<char>::empty());
    while i < text.len()
        invariant
            first <= i <= text.len(),
            first <= 1,
            digits == text@.skip(first as int),
            digits == without_plus(text@),
            forall|j: int| 0 <= j < i - first ==> is_digit(#[trigger] digits[j]),
            value == decimal_value(digits.take(i - first)),
        decreases text.len() - i,
    {
        let c = text[i];
        assert(digits[i - first] == c);
        if c < '0' || '9' < c {
            return None;
        }
        let digit: usize = (c as u32 - '0' as u32) as usize;
        proof {
            let next = digits.take(i - first + 1);
            assert(next.drop_last() =~= digits.take(i - first));
            assert(decimal_value(next) == 10 * value + digit);
            lemma_prefix_value(digits, i - first + 1);
        }
        if value > (usize::MAX - digit) / 10 {
            return None;
        }
        value = value * 10 + digit;
        i = i + 1;
    }
    assert(digits.take(digits.len() as int) =~= digits);
    Some(value)
}

/// Reads the size of a file out of the text of a `Content-Range` field: what stands
/// behind its last slash.
pub fn file_size_in_text(text: &str) -> (size: Option<usize>)
    ensures
        size == stated_file_size(text@),
{
    let mut part: Vec<char> = Vec::new();
    proof {
        Seq::<char>::empty().index_of_last_ensures('/');
        assert(text@.take(0) =~= Seq::<char>::empty());
    }
    for c in it: text.chars()
        invariant
            it.seq() == text@,
            part@ == last_part(text@.take(it.index() as int)),
    {
        proof {
            let i = it.index() as int;
            lemma_last_part_push(text@.take(i), c);
            assert(text@.take(i + 1) =~= text@.take(i).push(c));
        }
        if c == '/' {
            part.clear();
        } else {
            part.push(c);
        }
    }
    assert(text@.take(text@.len() as int) =~= text@);
    parse_number(&part)
}

/// Reads the size of a file out of the fields of a response.
pub fn file_size(headers: &HeaderMap<HeaderValue>) -> (size: Option<usize>)
    ensures
        size == file_size_of_fields(header_fields(*headers)),
{
    match content_range(headers) {
        None => None,
        Some(value) => match value.to_str() {
            Err(_) => None,
            Ok(text) => file_size_in_text(text),
        },
    }
}

/// The digits of `number` in base ten, without a leading zero.
pub open spec fn decimal_text(number: nat) -> Seq<char>
    decreases number,
{
    let digit = ('0' as int + number % 10) as char;
    if number < 10 {
        seq![digit]
    } else {
        decimal_text(number / 10).push(digit)
    }
}

proof fn lemma_decimal_text(number: nat)
    ensures
        decimal_text(number).len() > 0,
        forall|i: int|
            0 <= i < decimal_text(number).len() ==> is_digit(#[trigger] decimal_text(number)[i]),
        decimal_value(decimal_text(number)) == number,
    decreases number,
{
    let text = decimal_text(number);
    if number < 10 {
        assert(text.drop_last() =~= Seq::<char>::empty());
        assert(decimal_value(text.drop_last()) == 0);
    } else {
        lemma_decimal_text(number / 10);
        assert(text.drop_last() =~= decimal_text(number / 10));
    }
}

/// Whatever range a `Content-Range` field names, the size that it gives behind the
/// slash is the size that is read out of it.
pub proof fn law_stated_size_is_read(range: Seq<char>, size: usize)
    ensures
        stated_file_size(range.push('/') + decimal_text(size as nat)) == Some(size),
{
    let digits = decimal_text(size as nat);
    let text = range.push('/') + digits;
    lemma_decimal_text(size as nat);
    text.index_of_last_ensures('/');
    assert(text[range.len() as int] == '/');
    let i = text.index_of_last('/')->0;
    if i > range.len() {
        assert(text[i] == digits[i - range.len() - 1]);
    }
    assert(last_part(text) =~= digits);
}

/// A response whose `Content-Range` field is plain text that ends in a slash and a size
/// states that size, whatever else it holds.
pub proof fn law_response_states_size(
    fields: Map<Seq<char>, Seq<u8>>,
    range: Seq<char>,
    size: usize,
)
    requires
        fields.contains_key("content-range"@),
        forall|i: int|
            0 <= i < fields["content-range"@].len() ==> is_visible(
                #[trigger] fields["content-range"@][i],
            ),
        ascii_text(fields["content-range"@]) == range.push('/') + decimal_text(size as nat),
    ensures
        file_size_of_fields(fields) == Some(size),
{
    law_stated_size_is_read(range, size);
}

/// The size of a file stands behind the last slash, whatever comes before it. A text without a
/// slash is all size.
pub proof fn law_size_stands_behind_the_last_slash(before: Seq<char>, after: Seq<char>)
    requires
        forall|i: int| 0 <= i < after.len() ==> #[trigger] after[i] != '/',
    ensures
        stated_file_size(before.push('/') + after) == stated_number(after),
        stated_file_size(after) == stated_number(after),
{
    let text = before.push('/') + after;
    text.index_of_last_ensures('/');
    assert(text[before.len() as int] == '/');
    let i = text.index_of_last('/')->0;
    if i > before.len() {
        assert(text[i] == after[i - before.len() - 1]);
    }
    assert(last_part(text) =~= after);
    after.index_of_last_ensures('/');
    assert(last_part(after) == after);
}

/// A digit alone states its value.
pub proof fn law_one_digit_states_its_value(c: char)
    requires
        48 <= c as int <= 57,
    ensures
        stated_number(seq![c]) matches Some(number) && number == c as int - 48,
{
    assert(seq![c].drop_last() =~= Seq::<char>::empty());
    assert(decimal_value(seq![c].drop_last()) == 0);
    assert(seq![c][0] == c);
}

/// A further digit makes a number ten times as large and adds its value. Where that is more
/// than a `usize` can hold, no number is stated.
pub proof fn law_further_digit_shifts_the_number(text: Seq<char>, number: usize, c: char)
    requires
        stated_number(text) == Some(number),
        48 <= c as int <= 57,
    ensures
        match stated_number(text.push(c)) {
            Some(larger) => larger == 10 * number + (c as int - 48),
            None => 10 * number + (c as int - 48) > usize::MAX,
        },
{
    let digits = without_plus(text);
    let more = without_plus(text.push(c));
    assert(text.len() > 0);
    assert(text.push(c)[0] == text[0]);
    assert(more =~= digits.push(c));
    assert(more.drop_last() =~= digits);
    assert forall|i: int| 0 <= i < more.len() implies is_digit(#[trigger] more[i]) by {
        if i < digits.len() {
            assert(more[i] == digits[i]);
        }
    }
}

/// Digits that are too large a number stay so with a further one.
pub proof fn law_too_large_a_number_stays_so(text: Seq<char>, c: char)
    requires
        text.len() > 0,
        forall|i: int| 0 <= i < text.len() ==> 48 <= #[trigger] text[i] as int <= 57,
        stated_number(text) is None,
    ensures
        stated_number(text.push(c)) is None,
{
    let more = text.push(c);
    assert(more[0] == text[0]);
    assert(without_plus(more) == more);
    assert(more.drop_last() =~= text);
    assert forall|i: int| 0 <= i < text.len() implies is_digit(#[trigger] text[i]) by {
        assert(48 <= text[i] as int <= 57);
    }
}

/// A text that states a number is digits, at least one of them, behind at most one plus sign.
pub proof fn law_number_is_made_of_digits(text: Seq<char>)
    requires
        stated_number(text) is Some,
    ensures
        text.len() > 0,
        text[0] == '+' || 48 <= text[0] as int <= 57,
        text[0] == '+' ==> text.len() > 1,
        forall|i: int| 0 < i < text.len() ==> 48 <= #[trigger] text[i] as int <= 57,
{
    let digits = without_plus(text);
    assert forall|i: int| 0 < i < text.len() implies 48 <= #[trigger] text[i] as int <= 57 by {
        if text[0] == '+' {
            assert(is_digit(digits[i - 1]));
        } else {
            assert(is_digit(digits[i]));
        }
    }
    assert(is_digit(digits[0]));
}

/// A plus sign in front of a text that has none there changes nothing.
pub proof fn law_plus_sign_changes_nothing(text: Seq<char>)
    requires
        text.len() > 0,
        text[0] != '+',
    ensures
        stated_number(seq!['+'] + text) == stated_number(text),
{
    assert((seq!['+'] + text).skip(1) =~= text);
}

/// A response states the size that the text of its `Content-Range` field states, where each
/// byte of the field is a printable ASCII character, a space or a tab. Else, and without the
/// field, it states none.
pub proof fn law_response_states_what_its_field_states(
    fields: Map<Seq<char>, Seq<u8>>,
    text: Seq<char>,
)
    requires
        text.len() == fields["content-range"@].len(),
        forall|i: int|
            0 <= i < text.len() ==> #[trigger] text[i] as int == fields["content-range"@][i],
    ensures
        file_size_of_fields(fields) == if fields.contains_key("content-range"@) && (forall|i: int|
            0 <= i < text.len() ==> 32 <= #[trigger] text[i] as int <= 126 || text[i] as int == 9) {
            stated_file_size(text)
        } else {
            None
        },
{
    let bytes = fields["content-range"@];
    assert forall|i: int| 0 <= i < text.len() implies text[i] == #[trigger] ascii_text(
        bytes,
    )[i] by {
        assert(text[i] as int == bytes[i]);
    }
    assert(text =~= ascii_text(bytes));
    if forall|i: int| 0 <= i < bytes.len() ==> is_visible(#[trigger] bytes[i]) {
        assert forall|i: int| 0 <= i < text.len() implies 32 <= #[trigger] text[i] as int <= 126
            || text[i] as int == 9 by {
            assert(is_visible(bytes[i]));
        }
    }
    if forall|i: int|
        0 <= i < text.len() ==> 32 <= #[trigger] text[i] as int <= 126 || text[i] as int == 9 {
        assert forall|i: int| 0 <= i < bytes.len() implies is_visible(#[trigger] bytes[i]) by {
            assert(text[i] as int == bytes[i]);
        }
    }
}

} // verus!
