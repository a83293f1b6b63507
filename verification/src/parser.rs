//! The small grammar of reward texts: `value [object info] -> description`
//! for keys, anything else for plain rewards.

use vstd::prelude::*;
use vstd::string::*;
use crate::models::ObjectType;
use crate::text::{
    chars_of, contains, find, first_position, lowered, occurs_in, slice_of, string_of, to_lower,
    trim, trimmed,
};

verus! {

/// The pattern of a key: an optional value without `[`, an optional
/// bracketed segment, the arrow, and an optional description.
pub const KEY_PATTERN: &'static str =
    r"^(?P<value>[^\[]+)?(?P<object_info>\[.+\])?\s*->\s*(?P<description>.+)?";

/// What the regular expression `pattern` captures in `text`: nothing at all
/// where the pattern does not compile; else nothing where it finds no match;
/// else the text of the whole match followed by that of each group, in the
/// order in which the groups open, with nothing for a group that took no part.
pub uninterp spec fn pattern_groups(pattern: Seq<char>, text: Seq<char>) -> Option<
    Option<Seq<Option<Seq<char>>>>,
>;

/// `regex::Regex::new` on the pattern, then `Regex::captures` on the text:
/// `None` where the pattern does not compile, else the leftmost match with
/// the text of each of its groups, or `None` inside where nothing matches.
/// The result depends on the pattern and the text alone.
#[verifier::external_body]
fn capture_groups(pattern: &str, text: &str) -> (found: Option<Option<Vec<Option<String>>>>)
    ensures
        found.deep_view() == pattern_groups(pattern@, text@),
{
    let compiled = regex::Regex::new(pattern).ok()?;
    Some(
        compiled.captures(text).map(
            |found| found.iter().map(|group| group.map(|part| part.as_str().to_string())).collect(),
        ),
    )
}

/// What the key pattern captures in a reward text, or nothing.
pub open spec fn key_groups(text: Seq<char>) -> Option<Seq<Option<Seq<char>>>> {
    match pattern_groups(KEY_PATTERN@, text) {
        Some(found) => found,
        None => None,
    }
}

/// A reward text taken apart.
#[derive(Clone, Debug)]
pub struct ParsedInput {
    pub value: String,
    pub description: Option<String>,
    pub object_info: Option<String>,
    pub object_type: ObjectType,
}

/// A reward text taken apart, as plain values.
pub struct ParsedText {
    pub value: Seq<char>,
    pub description: Option<Seq<char>>,
    pub object_info: Option<Seq<char>>,
    pub object_type: ObjectType,
}

impl View for ParsedInput {
    type V = ParsedText;

    open spec fn view(&self) -> ParsedText {
        ParsedText {
            value: self.value@,
            description: self.description.deep_view(),
            object_info: self.object_info.deep_view(),
            object_type: self.object_type,
        }
    }
}

/// The arrow that parts a key from its description.
pub open spec fn arrow() -> Seq<char> {
    "->"@
}

/// Whether the text, read without regard to the case of its ASCII letters,
/// speaks of a pre-order.
pub open spec fn mentions_preorder(text: Seq<char>) -> bool {
    occurs_in(lowered(text), "pre-order"@) || occurs_in(lowered(text), "preorder"@)
}

/// The text of group `number` of a match of the key pattern, which has the
/// whole match and three groups; nothing where there is no such match.
pub open spec fn group_text(groups: Option<Seq<Option<Seq<char>>>>, number: int) -> Option<
    Seq<char>,
> {
    match groups {
        Some(found) if found.len() == 4 && 1 <= number <= 3 => found[number],
        _ => None,
    }
}

/// The key with the given parts: a pre-order where its description says
/// so, else a plain key.
pub open spec fn key_of(
    value: Seq<char>,
    object_info: Option<Seq<char>>,
    description: Option<Seq<char>>,
) -> ParsedText {
    ParsedText {
        value,
        description,
        object_info,
        object_type: if description is Some && mentions_preorder(description->Some_0) {
            ObjectType::KeyPreorder
        } else {
            ObjectType::Key
        },
    }
}

/// The key that a match of the key pattern describes: its value is the
/// first group trimmed (the whole text where the group took no part), its
/// object info the second group trimmed, its description the third group
/// trimmed.
pub open spec fn key_of_groups(
    text: Seq<char>,
    groups: Option<Seq<Option<Seq<char>>>>,
) -> ParsedText {
    key_of(
        match group_text(groups, 1) {
            Some(part) => trimmed(part),
            None => text,
        },
        match group_text(groups, 2) {
            Some(part) => Some(trimmed(part)),
            None => None,
        },
        match group_text(groups, 3) {
            Some(part) => Some(trimmed(part)),
            None => None,
        },
    )
}

/// The key that a text with the arrow describes where the key pattern does
/// not match it: the text is cut at its first arrow; the value is what
/// stands before the arrow, trimmed, and the description what stands behind
/// it, trimmed, where anything is left of it. Such a key has no object info.
pub open spec fn key_of_halves(text: Seq<char>) -> ParsedText {
    let at = first_position(text, arrow());
    let behind = trimmed(text.subrange(at + arrow().len(), text.len() as int));
    key_of(
        trimmed(text.subrange(0, at)),
        None,
        if behind.len() > 0 {
            Some(behind)
        } else {
            None
        },
    )
}

/// Whether the groups are those of a match of the key pattern: the whole
/// match and its three groups.
pub open spec fn is_key_match(groups: Option<Seq<Option<Seq<char>>>>) -> bool {
    groups is Some && groups->Some_0.len() == 4
}

/// What a reward text means, given what the key pattern captured in it.
///
/// A text without the arrow is a plain reward whose value is the whole text.
/// A text with the arrow is a key: the one that the match describes, or,
/// where the pattern did not match, the one that the two halves of the text
/// describe.
pub open spec fn parsed(text: Seq<char>, groups: Option<Seq<Option<Seq<char>>>>) -> ParsedText {
    if !occurs_in(text, arrow()) {
        ParsedText {
            value: text,
            description: None,
            object_info: None,
            object_type: ObjectType::Other,
        }
    } else if is_key_match(groups) {
        key_of_groups(text, groups)
    } else {
        key_of_halves(text)
    }
}

/// Whether the text, read without regard to the case of its ASCII letters,
/// speaks of a pre-order.
pub fn is_preorder_text(text: &Vec<char>) -> (preorder: bool)
    ensures
        preorder == mentions_preorder(text@),
{
    let low = to_lower(text);
    contains(&low, &chars_of("pre-order")) || contains(&low, &chars_of("preorder"))
}

/// The trimmed text of one group, where the group took part in the match.
fn trimmed_group(group: &Option<String>) -> (part: Option<Vec<char>>)
    ensures
        part.deep_view() == match group.deep_view() {
            Some(found) => Some(trimmed(found)),
            None => None,
        },
{
    match group {
        Some(found) => Some(trim(&chars_of(found.as_str()))),
        None => None,
    }
}

/// The key with the given parts.
fn make_key(
    value: String,
    object_info: Option<Vec<char>>,
    description: Option<Vec<char>>,
) -> (input: ParsedInput)
    ensures
        input@ == key_of(value@, object_info.deep_view(), description.deep_view()),
{
    let object_type = match &description {
        Some(words) => if is_preorder_text(words) {
            ObjectType::KeyPreorder
        } else {
            ObjectType::Key
        },
        None => ObjectType::Key,
    };
    let input = ParsedInput {
        value,
        description: match &description {
            Some(part) => Some(string_of(part)),
            None => None,
        },
        object_info: match &object_info {
            Some(part) => Some(string_of(part)),
            None => None,
        },
        object_type,
    };
    proof {
        let expected = key_of(input.value@, object_info.deep_view(), description.deep_view());
        assert(input@.description == expected.description);
        assert(input@.object_info == expected.object_info);
        assert(input@.object_type == expected.object_type);
    }
    input
}

/// Takes a reward text apart, given what the key pattern captured in it.
pub fn parse_groups(text: &str, groups: &Option<Vec<Option<String>>>) -> (input: ParsedInput)
    ensures
        input@ == parsed(text@, groups.deep_view()),
{
    let chars = chars_of(text);
    let marker = chars_of("->");
    if !contains(&chars, &marker) {
        return ParsedInput {
            value: text.to_owned(),
            description: None,
            object_info: None,
            object_type: ObjectType::Other,
        };
    }
    if let Some(found) = groups {
        if found.len() == 4 {
            assert(groups.deep_view()->Some_0.len() == 4);
            assert(forall|k: int| 0 <= k < 4
                ==> groups.deep_view()->Some_0[k] == found@[k].deep_view());
            let value = match trimmed_group(&found[1]) {
                Some(part) => string_of(&part),
                None => text.to_owned(),
            };
            assert(value@ == match group_text(groups.deep_view(), 1) {
                Some(part) => trimmed(part),
                None => text@,
            });
            return make_key(value, trimmed_group(&found[2]), trimmed_group(&found[3]));
        }
    }
    assert(!is_key_match(groups.deep_view())) by {
        if groups is Some {
            assert(groups.deep_view()->Some_0.len() == groups->Some_0.len());
        }
    }
    let at = find(&chars, &marker);
    let value = trim(&slice_of(&chars, 0, at));
    let behind = trim(&slice_of(&chars, at + marker.len(), chars.len()));
    let description = if behind.len() > 0 {
        Some(behind)
    } else {
        None
    };
    let object_info: Option<Vec<char>> = None;
    assert(object_info.deep_view() == None::<Seq<char>>);
    assert(description.deep_view() == key_of_halves(text@).description);
    make_key(string_of(&value), object_info, description)
}

/// Takes a reward text apart.
///
/// A text that holds the arrow is matched against the key pattern; where the
/// pattern finds nothing, the text is cut at its first arrow into the value
/// and the description of a key.
pub fn parse_message(text: &str) -> (input: ParsedInput)
    ensures
        input@ == parsed(text@, key_groups(text@)),
{
    let groups = match capture_groups(KEY_PATTERN, text) {
        Some(found) => found,
        None => None,
    };
    parse_groups(text, &groups)
}

/// A text with the arrow is always a key or a pre-order, and a text without
/// it is always a plain reward, whatever the pattern captured.
pub proof fn lemma_arrow_decides_type(text: Seq<char>, groups: Option<Seq<Option<Seq<char>>>>)
    ensures
        occurs_in(text, arrow()) ==> parsed(text, groups).object_type == ObjectType::Key || parsed(
            text,
            groups,
        ).object_type == ObjectType::KeyPreorder,
        !occurs_in(text, arrow()) ==> parsed(text, groups).object_type == ObjectType::Other,
{
}

} // verus!
