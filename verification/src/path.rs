//! Paths into a document: `user.profile.name`, `items[0].id`.
//!
//! A path is cut at each dot. A segment names a member of an object, or, in
//! the form `name[3]`, an item of the array that is the member `name`.

use vstd::prelude::*;
use crate::json::Json;
use crate::json::JsonValue;
use crate::text::chars_of;

verus! {

/// The value of a decimal digit.
pub open spec fn digit_value(c: char) -> Option<nat> {
    if '0' <= c <= '9' {
        Some((c as int - '0' as int) as nat)
    } else {
        None
    }
}

/// The number that a non-empty run of decimal digits writes. Nothing for
/// other text.
pub open spec fn decimal_value(s: Seq<char>) -> Option<nat>
    decreases s.len(),
{
    if s.len() == 0 {
        None
    } else if s.len() == 1 {
        digit_value(s[0])
    } else {
        match (decimal_value(s.drop_last()), digit_value(s.last())) {
            (Some(n), Some(d)) => Some(n * 10 + d),
            _ => None,
        }
    }
}

/// The number that `digits` write, where it fits the machine's word.
pub fn parse_index(digits: &Vec<char>) -> (r: Option<usize>)
    ensures
        match r {
            Some(n) => decimal_value(digits@) == Some(n as nat),
            None => decimal_value(digits@) is None || decimal_value(digits@)->0 > usize::MAX,
        },
{
    if digits.len() == 0 {
        return None;
    }
    let mut acc: usize = 0;
    let mut i: usize = 0;
    let mut fits = true;
    while i < digits.len()
        invariant
            i <= digits.len(),
            0 < digits.len(),
            i == 0 ==> acc == 0 && fits,
            i > 0 ==> match decimal_value(digits@.take(i as int)) {
                Some(n) => if fits {
                    n == acc
                } else {
                    n > usize::MAX
                },
                None => false,
            },
        decreases digits.len() - i,
    {
        let c = digits[i];
        proof {
            assert(digits@.take(i + 1).drop_last() =~= digits@.take(i as int));
            assert(digits@.take(i + 1).last() == c);
            assert(digits@.take(i + 1).len() == i + 1);
        }
        if c < '0' || c > '9' {
            proof {
                lemma_decimal_prefix(digits@, i + 1);
            }
            return None;
        }
        let d: usize = (c as u32 - '0' as u32) as usize;
        if fits {
            if acc > (usize::MAX - d) / 10 {
                fits = false;
            } else {
                acc = acc * 10 + d;
            }
        }
        i += 1;
    }
    proof {
        assert(digits@.take(digits.len() as int) =~= digits@);
    }
    if fits {
        Some(acc)
    } else {
        None
    }
}

/// Text with a prefix that writes no number writes none itself.
pub proof fn lemma_decimal_prefix(s: Seq<char>, k: int)
    requires
        0 < k <= s.len(),
        decimal_value(s.take(k)) is None,
    ensures
        decimal_value(s) is None,
    decreases s.len(),
{
    if k < s.len() {
        assert(s.drop_last().take(k) =~= s.take(k));
        lemma_decimal_prefix(s.drop_last(), k);
    } else {
        assert(s.take(k) =~= s);
    }
}

/// The place of the first dot in `s`, or the length of `s` where it has
/// none.
pub open spec fn first_dot(s: Seq<char>) -> int
    decreases s.len(),
{
    if s.len() == 0 {
        0
    } else if s[0] == '.' {
        0
    } else {
        1 + first_dot(s.drop_first())
    }
}

/// The segments of a path: the text between its dots. A path without a dot
/// is one segment, be it empty.
pub open spec fn segments(path: Seq<char>) -> Seq<Seq<char>>
    decreases path.len(),
{
    let d = first_dot(path);
    if 0 <= d < path.len() {
        seq![path.take(d)] + segments(path.skip(d + 1))
    } else {
        seq![path]
    }
}

/// The first dot lies within the text, and nothing before it is a dot.
pub proof fn lemma_first_dot(s: Seq<char>)
    ensures
        0 <= first_dot(s) <= s.len(),
        first_dot(s) < s.len() ==> s[first_dot(s)] == '.',
        forall|i: int| 0 <= i < first_dot(s) ==> s[i] != '.',
    decreases s.len(),
{
    if s.len() > 0 && s[0] != '.' {
        lemma_first_dot(s.drop_first());
        assert forall|i: int| 0 <= i < first_dot(s) implies s[i] != '.' by {
            if i > 0 {
                assert(s.drop_first()[i - 1] == s[i]);
            }
        }
    }
}

/// The first dot is the first place that holds one.
pub proof fn lemma_first_dot_is(s: Seq<char>, d: int)
    requires
        0 <= d <= s.len(),
        d < s.len() ==> s[d] == '.',
        forall|i: int| 0 <= i < d ==> s[i] != '.',
    ensures
        first_dot(s) == d,
{
    lemma_first_dot(s);
    let f = first_dot(s);
    if f < d {
        assert(s[f] != '.');
    } else if d < f {
        assert(s[d] != '.');
    }
}

/// What the pattern `^(\w+)\[(\d+)\]$` of the regex crate captures in a
/// segment: the name before the bracket and the digits within, or nothing
/// where the segment is not of that form.
pub uninterp spec fn indexed_segment(part: Seq<char>) -> Option<(Seq<char>, Seq<char>)>;

/// The texts of a pair of captures.
pub open spec fn captures_view(c: Option<(String, String)>) -> Option<(Seq<char>, Seq<char>)> {
    match c {
        Some((a, b)) => Some((a@, b@)),
        None => None,
    }
}

/// A letter or a digit of ASCII, or the underscore.
pub open spec fn ascii_word(c: char) -> bool {
    ('a' <= c && c <= 'z') || ('A' <= c && c <= 'Z') || ('0' <= c && c <= '9') || c == '_'
}

/// A digit of ASCII.
pub open spec fn ascii_digit(c: char) -> bool {
    '0' <= c && c <= '9'
}

/// The place of the first opening bracket in `s`, or the length of `s`
/// where it has none.
pub open spec fn first_bracket(s: Seq<char>) -> int
    decreases s.len(),
{
    if s.len() == 0 {
        0
    } else if s[0] == '[' {
        0
    } else {
        1 + first_bracket(s.drop_first())
    }
}

/// A segment in the plain form `name[digits]`: a name of ASCII letters,
/// digits and underscores, and ASCII digits between brackets at the end.
/// The name and the digits, or nothing for a segment of another form.
pub open spec fn plain_segment(part: Seq<char>) -> Option<(Seq<char>, Seq<char>)> {
    let n = part.len();
    let p = first_bracket(part);
    if 0 < p && p + 2 < n && part[n - 1] == ']' && (forall|j: int|
        0 <= j < p ==> ascii_word(#[trigger] part[j])) && (forall|j: int|
        p < j < n - 1 ==> ascii_digit(#[trigger] part[j])) {
        Some((part.take(p), part.subrange(p + 1, n - 1)))
    } else {
        None
    }
}

/// What the segment pattern captures in a segment. A segment in the plain
/// form gives its name and its digits; one that does not end in a closing
/// bracket gives nothing; of any other the pattern itself decides.
pub open spec fn segment_captures(part: Seq<char>) -> Option<(Seq<char>, Seq<char>)> {
    match plain_segment(part) {
        Some(c) => Some(c),
        None => if part.len() == 0 || part.last() != ']' {
            None
        } else {
            indexed_segment(part)
        },
    }
}

/// `Regex::captures` of the regex crate with the pattern `^(\w+)\[(\d+)\]$`.
/// The contract says what the pattern shows. It matches the whole segment:
/// a match is the first capture, an opening bracket, the second capture and
/// a closing bracket, with neither capture empty, so a segment that does
/// not end in a closing bracket has none. ASCII letters, digits and the
/// underscore are word characters and ASCII digits are digits, and no word
/// character is a bracket, so a segment in the plain form is matched, with
/// its name and its digits as the captures. For every other segment the
/// contract names the result.
#[verifier::external_body]
pub(crate) fn match_indexed_segment(part: &str) -> (r: Option<(String, String)>)
    ensures
        captures_view(r) == match plain_segment(part@) {
            Some(c) => Some(c),
            None => if part@.len() == 0 || part@.last() != ']' {
                None
            } else {
                indexed_segment(part@)
            },
        },
        r matches Some(c) ==> part@ == c.0@ + seq!['['] + c.1@ + seq![']'] && c.0@.len() > 0
            && c.1@.len() > 0,
{
    let re = regex::Regex::new(r"^(\w+)\[(\d+)\]$").ok()?;
    let caps = re.captures(part)?;
    Some((caps.get(1)?.as_str().to_string(), caps.get(2)?.as_str().to_string()))
}

/// One segment down from `current`, given what the segment pattern captured
/// in it.
pub open spec fn step_spec(
    current: Json,
    part: Seq<char>,
    captures: Option<(Seq<char>, Seq<char>)>,
) -> Option<Json> {
    match captures {
        Some((name, digits)) => match (current.member(name), decimal_value(digits)) {
            (Some(v), Some(n)) => v.item(n as int),
            _ => None,
        },
        None => current.member(part),
    }
}

/// All segments down from `current`.
pub open spec fn follow(current: Json, parts: Seq<Seq<char>>) -> Option<Json>
    decreases parts.len(),
{
    if parts.len() == 0 {
        Some(current)
    } else {
        match step_spec(current, parts[0], segment_captures(parts[0])) {
            Some(next) => follow(next, parts.drop_first()),
            None => None,
        }
    }
}

/// The value at `path` in `obj`, or nothing where a segment finds none.
pub open spec fn nested_value(obj: Json, path: Seq<char>) -> Option<Json> {
    follow(obj, segments(path))
}

/// The value of an optional document.
pub open spec fn value_view(v: Option<JsonValue>) -> Option<Json> {
    match v {
        Some(x) => Some(x@),
        None => None,
    }
}

/// The value of an optional reference to a document.
pub open spec fn ref_view(v: Option<&JsonValue>) -> Option<Json> {
    match v {
        Some(x) => Some(x@),
        None => None,
    }
}

/// One segment down from `current`: the member `part`, or, where the
/// segment pattern captured a name and digits, the item of the member of
/// that name at the place the digits write.
pub fn step_into<'a>(
    current: &'a JsonValue,
    part: &str,
    captures: &Option<(String, String)>,
) -> (r: Option<&'a JsonValue>)
    ensures
        ref_view(r) == step_spec(current@, part@, captures_view(*captures)),
{
    match captures {
        Some((name, digits)) => {
            let written = chars_of(digits.as_str());
            let index = parse_index(&written);
            match (current.get(name.as_str()), index) {
                (Some(member), Some(n)) => member.get_index(n),
                (Some(member), None) => {
                    proof {
                        match member {
                            JsonValue::Array(items) => {
                                assert(member@ == Json::Array(crate::json::items_view(items@)));
                                assert(crate::json::items_view(items@).len() == items@.len());
                                assert(items.len() == items@.len());
                            },
                            _ => {
                                assert(!(member@ is Array));
                            },
                        }
                        assert(decimal_value(digits@) matches Some(n) ==> member@.item(n as int)
                            is None);
                    }
                    None
                },
                _ => None,
            }
        },
        None => current.get(part),
    }
}

/// The value at `path` in `obj`: a copy of it, or nothing where a segment
/// finds none.
pub fn get_nested_value(obj: &JsonValue, path: &str) -> (r: Option<JsonValue>)
    ensures
        value_view(r) == nested_value(obj@, path@),
{
    let chars = chars_of(path);
    let n = chars.len();
    let mut current = obj;
    let mut start: usize = 0;
    proof {
        assert(path@.skip(0) =~= path@);
    }
    loop
        invariant
            chars@ == path@,
            n == chars.len(),
            start <= n,
            nested_value(obj@, path@) == follow(current@, segments(path@.skip(start as int))),
        decreases n - start,
    {
        let mut end: usize = start;
        while end < n && chars[end] != '.'
            invariant
                start <= end <= n,
                n == chars.len(),
                forall|i: int| start <= i < end ==> chars@[i] != '.',
            decreases n - end,
        {
            end += 1;
        }
        let ghost rest = path@.skip(start as int);
        proof {
            assert forall|i: int| 0 <= i < end - start implies rest[i] != '.' by {
                assert(rest[i] == chars@[start + i]);
            }
            lemma_first_dot_is(rest, end - start);
            let piece = path@.subrange(start as int, end as int);
            assert(rest.take(end - start) =~= piece);
            let parts = segments(rest);
            if end < n {
                let tail = segments(path@.skip(end + 1));
                assert(rest.skip(end - start + 1) =~= path@.skip(end + 1));
                assert(parts == seq![piece] + tail);
                assert(parts.drop_first() =~= tail);
            } else {
                assert(rest =~= piece);
                assert(parts == seq![piece]);
                assert(parts.drop_first() =~= Seq::<Seq<char>>::empty());
            }
            assert(parts[0] == piece);
            assert(follow(current@, parts) == match step_spec(
                current@,
                piece,
                segment_captures(piece),
            ) {
                Some(next) => follow(next, parts.drop_first()),
                None => None,
            });
        }
        let part = path.substring_char(start, end);
        let captures = match_indexed_segment(part);
        match step_into(current, part, &captures) {
            Some(next) => {
                current = next;
            },
            None => {
                return None;
            },
        }
        if end == n {
            proof {
                assert(follow(current@, Seq::<Seq<char>>::empty()) == Some(current@));
            }
            return Some(current.clone());
        }
        start = end + 1;
    }
}

} // verus!
