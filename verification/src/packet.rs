//! Framing of messages on a stream: a header that gives the length of
//! the content in bytes, a blank line, then the content.

use crate::text::{chars_of, has_prefix, prefix_at, push_char, string_of};
use vstd::prelude::*;
use vstd::utf8::{char_is_scalar, encode_scalar, encode_utf8};

verus! {

/// A message taken from the front of a stream, and what follows it.
#[derive(Debug, Clone, PartialEq)]
pub struct Packet {
    pub decoded: String,
    pub remaining: String,
}

/// The number of bytes that a character takes in UTF-8.
pub open spec fn width(c: char) -> nat {
    encode_scalar(c as u32).len()
}

/// The number of bytes that a text takes in UTF-8.
pub open spec fn byte_length(s: Seq<char>) -> nat {
    encode_utf8(s).len()
}

/// How many characters from the front of `s` fit into `budget` bytes.
pub open spec fn fitting(s: Seq<char>, budget: nat) -> nat
    decreases s.len(),
{
    if s.len() == 0 || width(s[0]) > budget {
        0
    } else {
        1 + fitting(s.skip(1), (budget - width(s[0])) as nat)
    }
}

/// The decimal digit for a number below ten.
pub open spec fn digit(d: nat) -> char {
    if d == 0 {
        '0'
    } else if d == 1 {
        '1'
    } else if d == 2 {
        '2'
    } else if d == 3 {
        '3'
    } else if d == 4 {
        '4'
    } else if d == 5 {
        '5'
    } else if d == 6 {
        '6'
    } else if d == 7 {
        '7'
    } else if d == 8 {
        '8'
    } else {
        '9'
    }
}

/// A number in decimal, without leading zeros.
pub open spec fn decimal(n: nat) -> Seq<char>
    decreases n,
{
    if n < 10 {
        seq![digit(n)]
    } else {
        decimal(n / 10).push(digit(n % 10))
    }
}

/// The number that a decimal digit stands for.
pub open spec fn digit_value(c: char) -> Option<nat> {
    if c == '0' {
        Some(0)
    } else if c == '1' {
        Some(1)
    } else if c == '2' {
        Some(2)
    } else if c == '3' {
        Some(3)
    } else if c == '4' {
        Some(4)
    } else if c == '5' {
        Some(5)
    } else if c == '6' {
        Some(6)
    } else if c == '7' {
        Some(7)
    } else if c == '8' {
        Some(8)
    } else if c == '9' {
        Some(9)
    } else {
        None
    }
}

/// The number that a run of decimal digits stands for, after the digits
/// that gave `so_far`; nothing where a character is no digit.
pub open spec fn digits_value(s: Seq<char>, so_far: nat) -> Option<nat>
    decreases s.len(),
{
    if s.len() == 0 {
        Some(so_far)
    } else {
        match digit_value(s[0]) {
            None => None,
            Some(d) => digits_value(s.skip(1), so_far * 10 + d),
        }
    }
}

/// The length that a text stands for: decimal digits, at least one, after
/// an optional `+`, and no more than a `usize` holds.
pub open spec fn length_parsed(s: Seq<char>) -> Option<nat> {
    let digits = if s.len() > 0 && s[0] == '+' {
        s.skip(1)
    } else {
        s
    };
    if digits.len() == 0 {
        None
    } else {
        match digits_value(digits, 0) {
            Some(n) => if n <= usize::MAX {
                Some(n)
            } else {
                None
            },
            None => None,
        }
    }
}

/// Whether `c` is white space: one of the characters with the Unicode
/// property White_Space.
pub open spec fn whitespace(c: char) -> bool {
    let code = c as int;
    ||| 0x09 <= code <= 0x0D
    ||| code == 0x20
    ||| code == 0x85
    ||| code == 0xA0
    ||| code == 0x1680
    ||| 0x2000 <= code <= 0x200A
    ||| code == 0x2028
    ||| code == 0x2029
    ||| code == 0x202F
    ||| code == 0x205F
    ||| code == 0x3000
}

/// Whether `c` is white space.
pub fn is_whitespace(c: char) -> (r: bool)
    ensures
        r == whitespace(c),
{
    let code = c as u32;
    (0x09 <= code && code <= 0x0D) || code == 0x20 || code == 0x85 || code == 0xA0 || code
        == 0x1680 || (0x2000 <= code && code <= 0x200A) || code == 0x2028 || code == 0x2029
        || code == 0x202F || code == 0x205F || code == 0x3000
}

/// How many characters at the front of `s` are white space.
pub open spec fn leading_space(s: Seq<char>) -> nat
    decreases s.len(),
{
    if s.len() > 0 && whitespace(s[0]) {
        1 + leading_space(s.skip(1))
    } else {
        0
    }
}

/// How many characters at the end of `s` are white space.
pub open spec fn trailing_space(s: Seq<char>) -> nat
    decreases s.len(),
{
    if s.len() > 0 && whitespace(s.last()) {
        1 + trailing_space(s.drop_last())
    } else {
        0
    }
}

/// `s` without the white space at its front and at its end.
pub open spec fn trimmed(s: Seq<char>) -> Seq<char> {
    let rest = s.skip(leading_space(s) as int);
    rest.take(rest.len() - trailing_space(rest))
}

/// Where `needle` first occurs in `hay`, looking from `from` on; nothing
/// where it does not occur.
pub open spec fn position_from(hay: Seq<char>, needle: Seq<char>, from: int) -> Option<int>
    decreases hay.len() - from,
{
    if from < 0 || from > hay.len() {
        None
    } else if has_prefix(hay.skip(from), needle) {
        Some(from)
    } else if from == hay.len() {
        None
    } else {
        position_from(hay, needle, from + 1)
    }
}

/// Where `needle` first occurs in `hay`.
pub open spec fn position(hay: Seq<char>, needle: Seq<char>) -> Option<int> {
    position_from(hay, needle, 0)
}

/// The packet that frames `content`.
pub open spec fn packet_text(content: Seq<char>) -> Seq<char> {
    "Content-Length: "@ + decimal(byte_length(content)) + "\r\n\r\n"@ + content
}

/// What introduces the length of the content.
pub open spec fn length_key() -> Seq<char> {
    "Content-Length:"@
}

/// What ends the header: a blank line.
pub open spec fn header_end() -> Seq<char> {
    "\r\n\r\n"@
}

/// Message of the error for a length that is no number.
pub open spec fn not_a_length_message(text: Seq<char>) -> Seq<char> {
    "Expected usize for content length, got '"@ + text + "'"@
}

/// Message of the error for content that is shorter than its length says.
pub open spec fn too_short_message(length: nat) -> Seq<char> {
    "Message too short, expected "@ + decimal(length) + " characters"@
}

/// Whether the stream can be read: where the length key and the end of
/// the header are both there, the end does not come before the key is
/// over; and where the content is as long as the length says, the length
/// ends between two characters.
pub open spec fn well_framed(s: Seq<char>) -> bool {
    match (position(s, length_key()), position(s, header_end())) {
        (Some(key), Some(end)) => {
            &&& key + length_key().len() <= end
            &&& match length_parsed(trimmed(s.subrange(key + length_key().len(), end))) {
                None => true,
                Some(length) => {
                    let rest = s.skip(end + header_end().len());
                    &&& byte_length(s.take(end + header_end().len())) + length <= usize::MAX
                    &&& byte_length(rest) >= length ==> byte_length(
                        rest.take(fitting(rest, length) as int),
                    ) == length
                },
            }
        },
        _ => true,
    }
}

/// What reading a packet from the front of a stream gives. The length is
/// what stands between the first length key and the first end of a header,
/// white space aside. The content is the text of that many bytes after the
/// end of the header; it is given without the white space around it, and
/// with it what follows it in the stream.
pub open spec fn packet_read(s: Seq<char>) -> Result<(Seq<char>, Seq<char>), Seq<char>> {
    match position(s, length_key()) {
        None => Err("'Content-Length' not found"@),
        Some(key) => match position(s, header_end()) {
            None => Err("'\\r\\n\\r\\n' not found"@),
            Some(end) => {
                let text = trimmed(s.subrange(key + length_key().len(), end));
                match length_parsed(text) {
                    None => Err(not_a_length_message(text)),
                    Some(length) => {
                        let rest = s.skip(end + header_end().len());
                        if byte_length(rest) < length {
                            Err(too_short_message(length))
                        } else {
                            let count = fitting(rest, length) as int;
                            Ok((trimmed(rest.take(count)), rest.skip(count)))
                        }
                    },
                }
            },
        },
    }
}

/// The value, or the message where there is none.
fn get_value<T>(value: Option<T>, msg: &str) -> (r: Result<T, String>)
    ensures
        match r {
            Ok(v) => value == Some(v),
            Err(e) => value is None && e@ == msg@,
        },
{
    match value {
        Some(v) => Ok(v),
        None => Err(String::from_str(msg)),
    }
}

/// The number of bytes that a character takes in UTF-8.
fn width_of(c: char) -> (r: usize)
    ensures
        r == width(c),
        1 <= r <= 4,
{
    proof {
        char_is_scalar(c);
    }
    let code = c as u32;
    if code < 0x80 {
        1
    } else if code < 0x800 {
        2
    } else if code < 0x10000 {
        3
    } else {
        4
    }
}

/// The decimal digit for a number below ten.
fn digit_of(d: usize) -> (r: char)
    requires
        d < 10,
    ensures
        r == digit(d as nat),
{
    if d == 0 {
        '0'
    } else if d == 1 {
        '1'
    } else if d == 2 {
        '2'
    } else if d == 3 {
        '3'
    } else if d == 4 {
        '4'
    } else if d == 5 {
        '5'
    } else if d == 6 {
        '6'
    } else if d == 7 {
        '7'
    } else if d == 8 {
        '8'
    } else {
        '9'
    }
}

/// The number that a decimal digit stands for.
fn value_of(c: char) -> (r: Option<usize>)
    ensures
        match r {
            Some(d) => digit_value(c) == Some(d as nat) && d < 10,
            None => digit_value(c) is None,
        },
{
    if c == '0' {
        Some(0)
    } else if c == '1' {
        Some(1)
    } else if c == '2' {
        Some(2)
    } else if c == '3' {
        Some(3)
    } else if c == '4' {
        Some(4)
    } else if c == '5' {
        Some(5)
    } else if c == '6' {
        Some(6)
    } else if c == '7' {
        Some(7)
    } else if c == '8' {
        Some(8)
    } else if c == '9' {
        Some(9)
    } else {
        None
    }
}

/// A number in decimal.
pub fn decimal_text(n: usize) -> (r: String)
    ensures
        r@ == decimal(n as nat),
    decreases n,
{
    if n < 10 {
        let mut out = String::new();
        push_char(&mut out, digit_of(n));
        out
    } else {
        let mut out = decimal_text(n / 10);
        push_char(&mut out, digit_of(n % 10));
        out
    }
}

/// A text takes the bytes of its first character and those of the rest.
pub proof fn lemma_byte_length_first(s: Seq<char>)
    requires
        s.len() > 0,
    ensures
        byte_length(s) == width(s[0]) + byte_length(s.skip(1)),
{
    assert(s.drop_first() == s.skip(1));
}

/// The packet that frames `string`.
pub fn serialize_packet(string: &str) -> (r: String)
    requires
        byte_length(string@) <= usize::MAX,
    ensures
        r@ == packet_text(string@),
{
    let mut out = String::from_str("Content-Length: ");
    let digits = decimal_text(string.len());
    out.append(digits.as_str());
    out.append("\r\n\r\n");
    out.append(string);
    out
}

/// Where `needle` first occurs in `hay`.
fn find(hay: &Vec<char>, needle: &Vec<char>) -> (r: Option<usize>)
    ensures
        match r {
            Some(at) => position(hay@, needle@) == Some(at as int) && at + needle.len()
                <= hay.len(),
            None => position(hay@, needle@) is None,
        },
{
    let mut at: usize = 0;
    while at < hay.len()
        invariant
            at <= hay.len(),
            position(hay@, needle@) == position_from(hay@, needle@, at as int),
        decreases hay.len() - at,
    {
        if prefix_at(hay, at, needle) {
            return Some(at);
        }
        at += 1;
    }
    if prefix_at(hay, at, needle) {
        Some(at)
    } else {
        None
    }
}

/// The characters from `from` up to `to`, without the white space at
/// their front and at their end.
fn trim_range(v: &Vec<char>, from: usize, to: usize) -> (r: Vec<char>)
    requires
        from <= to <= v.len(),
    ensures
        r@ == trimmed(v@.subrange(from as int, to as int)),
{
    let ghost s = v@.subrange(from as int, to as int);
    let mut start: usize = from;
    assert(s.skip(0) == s);
    while start < to && is_whitespace(v[start])
        invariant
            from <= start <= to <= v.len(),
            s == v@.subrange(from as int, to as int),
            leading_space(s) == (start - from) + leading_space(s.skip(start - from)),
        decreases to - start,
    {
        assert(s.skip(start - from)[0] == v@[start as int]);
        assert(s.skip(start - from).skip(1) == s.skip(start - from + 1));
        start += 1;
    }
    assert(start < to ==> s.skip(start - from)[0] == v@[start as int]);
    assert(leading_space(s) == start - from);
    let ghost rest = s.skip(start - from);
    let mut end: usize = to;
    assert(rest.take(rest.len() as int) == rest);
    while end > start && is_whitespace(v[end - 1])
        invariant
            from <= start <= end <= to <= v.len(),
            s == v@.subrange(from as int, to as int),
            rest == s.skip(start - from),
            trailing_space(rest) == (to - end) + trailing_space(rest.take(end - start)),
        decreases end - start,
    {
        assert(rest.take(end - start).last() == v@[end - 1]);
        assert(rest.take(end - start).drop_last() == rest.take(end - start - 1));
        end -= 1;
    }
    assert(end > start ==> rest.take(end - start).last() == v@[end - 1]);
    assert(trailing_space(rest) == to - end);
    let mut out: Vec<char> = Vec::new();
    let mut i: usize = start;
    while i < end
        invariant
            start <= i <= end <= v.len(),
            out@ == v@.subrange(start as int, i as int),
        decreases end - i,
    {
        out.push(v[i]);
        i += 1;
    }
    assert(out@ =~= rest.take(rest.len() - trailing_space(rest)));
    out
}

/// The length that the characters stand for.
#[verifier::loop_isolation(false)]
fn parse_length(v: &Vec<char>) -> (r: Option<usize>)
    ensures
        match r {
            Some(n) => length_parsed(v@) == Some(n as nat),
            None => length_parsed(v@) is None,
        },
{
    let start: usize = if v.len() > 0 && v[0] == '+' {
        1
    } else {
        0
    };
    if start == v.len() {
        return None;
    }
    let ghost digits = v@.skip(start as int);
    let mut total: usize = 0;
    let mut i: usize = start;
    assert(digits.skip(0) == digits);
    assert(v@.skip(0) == v@);
    while i < v.len()
        invariant
            start <= i <= v.len(),
            digits == v@.skip(start as int),
            digits_value(digits, 0) == digits_value(digits.skip(i - start), total as nat),
        decreases v.len() - i,
    {
        assert(digits.skip(i - start)[0] == v@[i as int]);
        assert(digits.skip(i - start).skip(1) == digits.skip(i - start + 1));
        match value_of(v[i]) {
            None => {
                return None;
            },
            Some(d) => {
                if total > (usize::MAX - d) / 10 {
                    proof {
                        lemma_digits_grow(digits.skip(i - start + 1), (total * 10 + d) as nat);
                        assert(total * 10 + d > usize::MAX);
                    }
                    return None;
                }
                total = total * 10 + d;
            },
        }
        i += 1;
    }
    Some(total)
}

/// Further digits never make a number smaller.
pub proof fn lemma_digits_grow(s: Seq<char>, so_far: nat)
    ensures
        match digits_value(s, so_far) {
            Some(n) => n >= so_far,
            None => true,
        },
    decreases s.len(),
{
    if s.len() > 0 {
        match digit_value(s[0]) {
            None => {},
            Some(d) => {
                lemma_digits_grow(s.skip(1), so_far * 10 + d);
            },
        }
    }
}

/// The characters from `from` on.
fn tail(v: &Vec<char>, from: usize) -> (r: Vec<char>)
    requires
        from <= v.len(),
    ensures
        r@ == v@.skip(from as int),
{
    let mut out: Vec<char> = Vec::new();
    let mut i: usize = from;
    while i < v.len()
        invariant
            from <= i <= v.len(),
            out@ == v@.subrange(from as int, i as int),
        decreases v.len() - i,
    {
        out.push(v[i]);
        i += 1;
    }
    assert(out@ =~= v@.skip(from as int));
    out
}

/// Reads a packet from the front of a stream.
pub fn read_packet(string: &str) -> (r: Result<Packet, String>)
    requires
        well_framed(string@),
    ensures
        match r {
            Ok(packet) => packet_read(string@) == Ok::<_, Seq<char>>(
                (packet.decoded@, packet.remaining@),
            ),
            Err(message) => packet_read(string@) == Err::<(Seq<char>, Seq<char>), _>(message@),
        },
{
    let v = chars_of(string);
    let content_length_key = chars_of("Content-Length:");
    let content_length_index = get_value(
        find(&v, &content_length_key),
        "'Content-Length' not found",
    )?;

    let content_length_index = content_length_index + content_length_key.len();

    let return_key = chars_of("\r\n\r\n");
    let end_index = get_value(find(&v, &return_key), "'\\r\\n\\r\\n' not found")?;

    let content_length = trim_range(&v, content_length_index, end_index);
    let content_length = match parse_length(&content_length) {
        Some(n) => n,
        None => {
            let mut message = String::from_str("Expected usize for content length, got '");
            let text = string_of(&content_length);
            message.append(text.as_str());
            message.append("'");
            return Err(message);
        },
    };

    let content_start = end_index + return_key.len();
    let ghost rest = v@.skip(content_start as int);
    let mut content_end: usize = content_start;
    let mut left: usize = content_length;
    assert(rest.skip(0) == rest);
    assert(rest.take(0) =~= Seq::empty());
    while content_end < v.len() && width_of(v[content_end]) <= left
        invariant
            content_start <= content_end <= v.len(),
            left <= content_length,
            rest == v@.skip(content_start as int),
            fitting(rest, content_length as nat) == (content_end - content_start) + fitting(
                rest.skip(content_end - content_start),
                left as nat,
            ),
            byte_length(rest) == (content_length - left) + byte_length(
                rest.skip(content_end - content_start),
            ),
        decreases v.len() - content_end,
    {
        let ghost here = rest.skip(content_end - content_start);
        assert(here[0] == v@[content_end as int]);
        assert(here.skip(1) == rest.skip(content_end - content_start + 1));
        proof {
            lemma_byte_length_first(here);
        }
        left -= width_of(v[content_end]);
        content_end += 1;
    }
    let ghost here = rest.skip(content_end - content_start);
    proof {
        if content_end < v.len() {
            assert(here[0] == v@[content_end as int]);
            lemma_byte_length_first(here);
        } else {
            assert(here =~= Seq::empty());
        }
    }
    if content_end == v.len() && left > 0 {
        let mut message = String::from_str("Message too short, expected ");
        let digits = decimal_text(content_length);
        message.append(digits.as_str());
        message.append(" characters");
        return Err(message);
    }
    assert(fitting(rest, content_length as nat) == content_end - content_start);
    assert(rest.take(content_end - content_start) == v@.subrange(
        content_start as int,
        content_end as int,
    ));
    assert(rest.skip(content_end - content_start) == v@.skip(content_end as int));

    let content = trim_range(&v, content_start, content_end);
    let remaining = tail(&v, content_end);

    Ok(Packet { decoded: string_of(&content), remaining: string_of(&remaining) })
}

} // verus!
