//! Users, as the API gives them out, and the rules that their fields obey.

use crate::validation::InvalidField;
use vstd::prelude::*;

verus! {

/// How the address of an icon begins.
pub const ICON_SCHEME: &'static str = "data:image/";

/// What stands between the kind of an image and its data.
pub const ICON_ENCODING: &'static str = ";base64, ";

/// An ASCII letter or an ASCII digit.
pub open spec fn is_letter_or_digit(c: char) -> bool {
    ||| 'a' <= c <= 'z'
    ||| 'A' <= c <= 'Z'
    ||| '0' <= c <= '9'
}

/// A character that the name of a user may hold: an ASCII letter, an ASCII
/// digit, an underscore, a dot, or a hyphen.
pub open spec fn is_username_character(c: char) -> bool {
    is_letter_or_digit(c) || c == '_' || c == '.' || c == '-'
}

/// A character that the kind of an image may hold: a lower-case ASCII letter
/// or an ASCII digit.
pub open spec fn is_kind_character(c: char) -> bool {
    'a' <= c <= 'z' || '0' <= c <= '9'
}

/// A character that the data of an image may hold: an ASCII letter, an ASCII
/// digit, or a slash.
pub open spec fn is_data_character(c: char) -> bool {
    is_letter_or_digit(c) || c == '/'
}

/// The name of a user: made of the characters that it may hold, one of them
/// at least a letter or a digit.
pub open spec fn is_username(name: Seq<char>) -> bool {
    &&& forall|i: int| 0 <= i < name.len() ==> is_username_character(#[trigger] name[i])
    &&& exists|i: int| 0 <= i < name.len() && is_letter_or_digit(#[trigger] name[i])
}

/// Whether the text is the given kind and data of an image, written as a
/// data address.
pub open spec fn is_icon_of(icon: Seq<char>, kind: Seq<char>, data: Seq<char>) -> bool {
    &&& icon == ICON_SCHEME@ + kind + ICON_ENCODING@ + data
    &&& kind.len() >= 1
    &&& forall|i: int| 0 <= i < kind.len() ==> is_kind_character(#[trigger] kind[i])
    &&& data.len() >= 1
    &&& forall|i: int| 0 <= i < data.len() ==> is_data_character(#[trigger] data[i])
}

/// An icon: `data:image/`, the kind of the image, `;base64, `, and the data
/// of the image; neither the kind nor the data is empty.
pub open spec fn is_icon(icon: Seq<char>) -> bool {
    exists|kind: Seq<char>, data: Seq<char>| #[trigger] is_icon_of(icon, kind, data)
}

/// Whether the text is the name of a user.
pub fn check_username(name: &str) -> (valid: bool)
    ensures
        valid == is_username(name@),
{
    let mut allowed = true;
    let mut found = false;
    for c in it: name.chars()
        invariant
            it.seq() == name@,
            allowed == forall|i: int|
                0 <= i < it.index() ==> is_username_character(#[trigger] name@[i]),
            found == exists|i: int| 0 <= i < it.index() && is_letter_or_digit(#[trigger] name@[i]),
    {
        let ghost index = it.index() as int;
        let plain = (c >= 'a' && c <= 'z') || (c >= 'A' && c <= 'Z') || (c >= '0' && c <= '9');
        if plain {
            assert(is_letter_or_digit(name@[index]));
            found = true;
        } else if !(c == '_' || c == '.' || c == '-') {
            allowed = false;
        }
    }
    allowed && found
}

/// The characters of a text, in order.
fn characters(text: &str) -> (list: Vec<char>)
    ensures
        list@ == text@,
{
    let mut list: Vec<char> = Vec::new();
    for c in it: text.chars()
        invariant
            it.seq() == text@,
            list@ == text@.take(it.index() as int),
    {
        proof {
            assert(text@.take(it.index() + 1) == text@.take(it.index() as int).push(c));
        }
        list.push(c);
    }
    proof {
        assert(text@.take(text@.len() as int) == text@);
    }
    list
}

/// Whether `part` stands in `text` at the place `at`.
fn stands_at(text: &Vec<char>, at: usize, part: &Vec<char>) -> (stands: bool)
    requires
        at <= text@.len(),
    ensures
        stands == (at + part@.len() <= text@.len() && text@.subrange(
            at as int,
            at + part@.len(),
        ) == part@),
{
    let total = text.len();
    let length = part.len();
    if length > total - at {
        return false;
    }
    let mut i: usize = 0;
    while i < length
        invariant
            i <= length,
            length == part@.len(),
            total == text@.len(),
            at + length <= total,
            forall|j: int| 0 <= j < i ==> text@[at + j] == part@[j],
        decreases length - i,
    {
        if text[at + i] != part[i] {
            assert(text@.subrange(at as int, at + part@.len())[i as int] != part@[i as int]);
            return false;
        }
        i = i + 1;
    }
    assert(text@.subrange(at as int, at + part@.len()) =~= part@);
    true
}

/// Where the characters of the kind of an image stop, from the place
/// `from` on.
fn kind_end(text: &Vec<char>, from: usize) -> (end: usize)
    requires
        from <= text@.len(),
    ensures
        from <= end <= text@.len(),
        forall|i: int| from <= i < end ==> is_kind_character(#[trigger] text@[i]),
        end < text@.len() ==> !is_kind_character(text@[end as int]),
{
    let mut end: usize = from;
    while end < text.len() && ((text[end] >= 'a' && text[end] <= 'z') || (text[end] >= '0'
        && text[end] <= '9'))
        invariant
            from <= end <= text@.len(),
            forall|i: int| from <= i < end ==> is_kind_character(#[trigger] text@[i]),
        decreases text@.len() - end,
    {
        end = end + 1;
    }
    end
}

/// Whether the data of an image may hold every character from the place
/// `from` on.
fn data_to_end(text: &Vec<char>, from: usize) -> (all: bool)
    requires
        from <= text@.len(),
    ensures
        all == forall|i: int| from <= i < text@.len() ==> is_data_character(#[trigger] text@[i]),
{
    let mut i: usize = from;
    while i < text.len()
        invariant
            from <= i <= text@.len(),
            forall|j: int| from <= j < i ==> is_data_character(#[trigger] text@[j]),
        decreases text@.len() - i,
    {
        let c = text[i];
        let accepted = (c >= 'a' && c <= 'z') || (c >= 'A' && c <= 'Z') || (c >= '0' && c <= '9')
            || c == '/';
        if !accepted {
            return false;
        }
        i = i + 1;
    }
    true
}

/// Where the kind of the image ends, in an icon of that kind and data.
proof fn lemma_kind_end(icon: Seq<char>, kind: Seq<char>, data: Seq<char>, end: int)
    requires
        is_icon_of(icon, kind, data),
        ICON_SCHEME@.len() <= end <= icon.len(),
        forall|i: int| ICON_SCHEME@.len() <= i < end ==> is_kind_character(#[trigger] icon[i]),
        end < icon.len() ==> !is_kind_character(icon[end]),
    ensures
        end == ICON_SCHEME@.len() + kind.len(),
{
    reveal_strlit("data:image/");
    reveal_strlit(";base64, ");
    let scheme = ICON_SCHEME@.len() as int;
    let stop = scheme + kind.len() as int;
    assert(icon[stop] == ICON_ENCODING@[0]);
    assert(!is_kind_character(icon[stop]));
    if end < stop {
        assert(icon[end] == kind[end - scheme]);
    }
}

/// Whether the text is an icon.
pub fn check_icon(icon: &str) -> (valid: bool)
    ensures
        valid == is_icon(icon@),
{
    let text = characters(icon);
    let scheme = characters(ICON_SCHEME);
    let encoding = characters(ICON_ENCODING);
    proof {
        reveal_strlit("data:image/");
        reveal_strlit(";base64, ");
    }
    if !stands_at(&text, 0, &scheme) {
        assert(!is_icon(icon@)) by {
            if is_icon(icon@) {
                let (kind, data) = choose|kind: Seq<char>, data: Seq<char>| #[trigger]
                    is_icon_of(icon@, kind, data);
                assert(icon@.subrange(0, scheme@.len() as int) =~= scheme@);
            }
        }
        return false;
    }
    let end = kind_end(&text, scheme.len());
    if end == scheme.len() || !stands_at(&text, end, &encoding) {
        assert(!is_icon(icon@)) by {
            if is_icon(icon@) {
                let (kind, data) = choose|kind: Seq<char>, data: Seq<char>| #[trigger]
                    is_icon_of(icon@, kind, data);
                lemma_kind_end(icon@, kind, data, end as int);
                assert(icon@.subrange(end as int, end + encoding@.len()) =~= encoding@);
            }
        }
        return false;
    }
    let total = text.len();
    let start = end + encoding.len();
    if start == total || !data_to_end(&text, start) {
        assert(!is_icon(icon@)) by {
            if is_icon(icon@) {
                let (kind, data) = choose|kind: Seq<char>, data: Seq<char>| #[trigger]
                    is_icon_of(icon@, kind, data);
                lemma_kind_end(icon@, kind, data, end as int);
                assert forall|i: int| start <= i < icon@.len() implies is_data_character(
                    #[trigger] icon@[i],
                ) by {
                    assert(icon@[i] == data[i - start]);
                }
            }
        }
        return false;
    }
    proof {
        let kind = text@.subrange(scheme@.len() as int, end as int);
        let data = text@.subrange(start as int, text@.len() as int);
        assert(icon@ =~= ICON_SCHEME@ + kind + ICON_ENCODING@ + data) by {
            assert(text@.subrange(0, scheme@.len() as int) == scheme@);
            assert(text@.subrange(end as int, start as int) == encoding@);
        }
        assert(is_icon_of(icon@, kind, data));
    }
    true
}

/// A user, as the API gives it out.
#[derive(Debug, PartialEq, Eq)]
pub struct UserResponse {
    pub id: i32,
    pub username: String,
    pub icon: Option<String>,
}

impl UserResponse {
    /// The rules of this type: an identifier of at least one, the name of a
    /// user, and, where there is one, an icon. The first field that breaks
    /// them, in the order in which they are declared, is the error.
    pub open spec fn check(&self) -> Result<(), InvalidField> {
        if self.id < 1 {
            Err(InvalidField::Id)
        } else if !is_username(self.username@) {
            Err(InvalidField::Username)
        } else if self.icon matches Some(icon) && !is_icon(icon@) {
            Err(InvalidField::Icon)
        } else {
            Ok(())
        }
    }

    /// Checks the fields against the rules of this type.
    pub fn validate(&self) -> (checked: Result<(), InvalidField>)
        ensures
            checked == self.check(),
    {
        if self.id < 1 {
            return Err(InvalidField::Id);
        }
        if !check_username(self.username.as_str()) {
            return Err(InvalidField::Username);
        }
        match &self.icon {
            Some(icon) => {
                if !check_icon(icon.as_str()) {
                    return Err(InvalidField::Icon);
                }
            },
            None => {},
        }
        Ok(())
    }
}

} // verus!
