//! Canonical ASCII hostnames.

use vstd::prelude::*;
use vstd::utf8::is_ascii_chars;

use crate::address::{ip_literal, parse_ip, IpAddress};

verus! {

/// The most characters that a hostname may have.
pub const MAX_HOSTNAME: usize = 253;

/// The most characters that one label of a hostname may have.
pub const MAX_LABEL: usize = 63;

/// The lower-case form of an ASCII letter, and any other character itself.
pub open spec fn lower_char(ch: char) -> char {
    if 'A' <= ch <= 'Z' {
        (ch as u8 + 32) as char
    } else {
        ch
    }
}

pub open spec fn lower_text(text: Seq<char>) -> Seq<char> {
    Seq::new(text.len(), |i: int| lower_char(text[i]))
}

/// The text without one trailing dot.
pub open spec fn without_final_dot(text: Seq<char>) -> Seq<char> {
    if text.len() > 0 && text.last() == '.' {
        text.drop_last()
    } else {
        text
    }
}

/// The parts of the text between its dots. A text has one part more than dots.
pub open spec fn labels(text: Seq<char>) -> Seq<Seq<char>>
    decreases text.len(),
{
    if text.len() == 0 {
        seq![Seq::<char>::empty()]
    } else {
        let before = labels(text.drop_last());
        if text.last() == '.' {
            before.push(Seq::empty())
        } else {
            before.drop_last().push(before.last().push(text.last()))
        }
    }
}

/// A lower-case letter, a digit or a hyphen.
pub open spec fn label_char(ch: char) -> bool {
    'a' <= ch <= 'z' || '0' <= ch <= '9' || ch == '-'
}

/// One to 63 label characters, with no hyphen at either end.
pub open spec fn valid_label(label: Seq<char>) -> bool {
    &&& 1 <= label.len() <= MAX_LABEL
    &&& label[0] != '-'
    &&& label.last() != '-'
    &&& forall|i: int| 0 <= i < label.len() ==> label_char(#[trigger] label[i])
}

pub open spec fn valid_labels(text: Seq<char>) -> bool {
    forall|i: int| 0 <= i < labels(text).len() ==> valid_label(#[trigger] labels(text)[i])
}

/// The canonical form of a hostname: lower case, without a trailing dot. `None`
/// for what is no ASCII DNS name, and for the textual form of an IP address,
/// given what the text without its trailing dot is as one.
pub open spec fn canonical_given(text: Seq<char>, literal: Option<IpAddress>) -> Option<Seq<char>> {
    let name = without_final_dot(text);
    if 0 < name.len() <= MAX_HOSTNAME && is_ascii_chars(name) && literal is None && valid_labels(
        lower_text(name),
    ) {
        Some(lower_text(name))
    } else {
        None
    }
}

/// The canonical form of a hostname.
pub open spec fn canonical_name(text: Seq<char>) -> Option<Seq<char>> {
    canonical_given(text, ip_literal(without_final_dot(text)))
}

/// Check every label of an ASCII text.
fn has_valid_labels(text: &str) -> (valid: bool)
    requires
        is_ascii_chars(text@),
    ensures
        valid == valid_labels(text@),
{
    let len: usize = text.unicode_len();
    let mut start: usize = 0;
    let mut i: usize = 0;
    let mut done_valid: bool = true;
    let mut chars_valid: bool = true;
    proof {
        assert(text@.take(0) =~= Seq::<char>::empty());
        assert(text@.subrange(0, 0) =~= Seq::<char>::empty());
    }
    while i < len
        invariant
            start <= i <= len,
            len == text@.len(),
            is_ascii_chars(text@),
            labels(text@.take(i as int)).len() > 0,
            labels(text@.take(i as int)).last() == text@.subrange(start as int, i as int),
            done_valid == forall|j: int|
                0 <= j < labels(text@.take(i as int)).len() - 1 ==> valid_label(
                    #[trigger] labels(text@.take(i as int))[j],
                ),
            chars_valid == forall|j: int| start <= j < i ==> label_char(#[trigger] text@[j]),
        decreases len - i,
    {
        let ghost before = labels(text@.take(i as int));
        let ghost label = text@.subrange(start as int, i as int);
        let byte: u8 = text.get_ascii(i);
        proof {
            assert(text@.take(i + 1).drop_last() =~= text@.take(i as int));
            assert(text@.take(i + 1).last() == text@[i as int]);
        }
        if byte == 46 {
            let label_valid: bool = label_bounds_valid(text, start, i) && chars_valid;
            proof {
                assert(label_valid == valid_label(label)) by {
                    lemma_label_valid(text@, start as int, i as int);
                }
                let after = labels(text@.take(i + 1));
                assert(after =~= before.push(Seq::empty()));
                assert(before[before.len() - 1] == label);
                if done_valid && label_valid {
                    assert forall|j: int| 0 <= j < after.len() - 1 implies valid_label(
                        #[trigger] after[j],
                    ) by {
                        assert(after[j] == before[j]);
                    }
                } else if !done_valid {
                    let j = choose|j: int|
                        0 <= j < before.len() - 1 && !valid_label(#[trigger] before[j]);
                    assert(after[j] == before[j]);
                } else {
                    assert(after[before.len() - 1] == label);
                }
                assert(text@.subrange(i + 1, i + 1) =~= Seq::<char>::empty());
            }
            done_valid = done_valid && label_valid;
            chars_valid = true;
            start = i + 1;
        } else {
            proof {
                let after = labels(text@.take(i + 1));
                assert(after =~= before.drop_last().push(label.push(text@[i as int])));
                assert(label.push(text@[i as int]) =~= text@.subrange(start as int, i + 1));
                assert forall|j: int| 0 <= j < after.len() - 1 implies after[j] == before[j] by {}
                if !done_valid {
                    let j = choose|j: int|
                        0 <= j < before.len() - 1 && !valid_label(#[trigger] before[j]);
                    assert(after[j] == before[j]);
                }
            }
            chars_valid = chars_valid && (97 <= byte && byte <= 122 || 48 <= byte && byte <= 57
                || byte == 45);
        }
        i += 1;
    }
    let last_valid: bool = label_bounds_valid(text, start, len) && chars_valid;
    proof {
        assert(text@.take(len as int) =~= text@);
        lemma_label_valid(text@, start as int, len as int);
        let all = labels(text@);
        assert(all[all.len() - 1] == text@.subrange(start as int, len as int));
        if done_valid && last_valid {
            assert forall|j: int| 0 <= j < all.len() implies valid_label(#[trigger] all[j]) by {}
        }
    }
    done_valid && last_valid
}

/// The bounds on one label that do not concern its inner characters.
spec fn bounds_valid(text: Seq<char>, start: int, end: int) -> bool {
    1 <= end - start <= MAX_LABEL && text[start] != '-' && text[end - 1] != '-'
}

fn label_bounds_valid(text: &str, start: usize, end: usize) -> (valid: bool)
    requires
        is_ascii_chars(text@),
        start <= end <= text@.len(),
    ensures
        valid == bounds_valid(text@, start as int, end as int),
{
    start < end && end - start <= MAX_LABEL && text.get_ascii(start) != 45 && text.get_ascii(
        end - 1,
    ) != 45
}

proof fn lemma_label_valid(text: Seq<char>, start: int, end: int)
    requires
        0 <= start <= end <= text.len(),
    ensures
        valid_label(text.subrange(start, end)) == (bounds_valid(text, start, end) && forall|j: int|
            start <= j < end ==> label_char(#[trigger] text[j])),
{
    let label = text.subrange(start, end);
    assert forall|j: int| start <= j < end implies #[trigger] text[j] == label[j - start] by {}
    if valid_label(label) {
        assert forall|j: int| start <= j < end implies label_char(#[trigger] text[j]) by {
            assert(label_char(label[j - start]));
        }
    }
}

/// The lower-case form of an ASCII text.
pub fn to_ascii_lowercase(text: &str) -> (lower: String)
    requires
        is_ascii_chars(text@),
    ensures
        lower@ == lower_text(text@),
{
    let len: usize = text.unicode_len();
    let mut lower = String::new();
    let mut i: usize = 0;
    while i < len
        invariant
            i <= len,
            len == text@.len(),
            is_ascii_chars(text@),
            lower@ =~= lower_text(text@).take(i as int),
        decreases len - i,
    {
        let byte: u8 = text.get_ascii(i);
        if 65 <= byte && byte <= 90 {
            lower.push((byte + 32) as char);
        } else {
            lower.push(byte as char);
        }
        i += 1;
    }
    assert(lower_text(text@).take(len as int) =~= lower_text(text@));
    lower
}

proof fn lemma_lower_is_ascii(text: Seq<char>)
    requires
        is_ascii_chars(text),
    ensures
        is_ascii_chars(lower_text(text)),
{
    assert forall|i: int| 0 <= i < lower_text(text).len() implies '\0' <= #[trigger] lower_text(
        text,
    )[i] <= '\u{7f}' by {
        assert('\0' <= text[i] <= '\u{7f}');
    }
}

/// The text without one trailing dot.
pub fn strip_final_dot(value: &str) -> (name: &str)
    ensures
        name@ == without_final_dot(value@),
{
    let len: usize = value.unicode_len();
    if len > 0 && value.get_char(len - 1) == '.' {
        let name = value.substring_char(0, len - 1);
        assert(name@ =~= without_final_dot(value@));
        name
    } else {
        value
    }
}

/// The canonical form of a hostname, where the text is one, given what it is
/// without its trailing dot as an IP address.
pub fn canonical_hostname_given(value: &str, literal: Option<IpAddress>) -> (name: Option<String>)
    ensures
        match name {
            Some(name) => canonical_given(value@, literal) == Some(name@),
            None => canonical_given(value@, literal) is None,
        },
{
    let name = strip_final_dot(value);
    if !name.is_ascii() {
        return None;
    }
    let len: usize = name.unicode_len();
    if len == 0 || len > MAX_HOSTNAME || literal.is_some() {
        return None;
    }
    let lower = to_ascii_lowercase(name);
    proof {
        lemma_lower_is_ascii(name@);
    }
    if has_valid_labels(lower.as_str()) {
        Some(lower)
    } else {
        None
    }
}

/// The canonical form of a hostname, where the text is one.
pub fn canonical_hostname(value: &str) -> (name: Option<String>)
    ensures
        match name {
            Some(name) => canonical_name(value@) == Some(name@),
            None => canonical_name(value@) is None,
        },
{
    canonical_hostname_given(value, parse_ip(strip_final_dot(value)))
}

/// A trailing dot names the same host.
pub proof fn law_trailing_dot_names_the_same_host(text: Seq<char>)
    requires
        text.len() > 0,
        text.last() != '.',
    ensures
        canonical_name(text.push('.')) == canonical_name(text),
{
    assert(text.push('.').drop_last() =~= text);
}

/// A canonical name is its own canonical form, unless its text happens to be
/// the textual form of an IP address.
pub proof fn law_canonical_name_is_idempotent(text: Seq<char>)
    requires
        canonical_name(text) is Some,
        ip_literal(canonical_name(text)->0) is None,
    ensures
        canonical_name(canonical_name(text)->0) == canonical_name(text),
{
    let source = without_final_dot(text);
    let name = lower_text(source);
    assert(lower_text(name) =~= name);
    lemma_lower_is_ascii(source);
    assert(valid_label(labels(name)[labels(name).len() - 1])) by {
        assert(labels(name).len() > 0);
    }
    assert(name.last() != '.');
    assert(without_final_dot(name) == name);
}

/// Letter case does not distinguish hosts: two texts with the same lower-case
/// form, neither of them the textual form of an IP address, have the same
/// canonical form.
pub proof fn law_letter_case_is_ignored(left: Seq<char>, right: Seq<char>)
    requires
        lower_text(without_final_dot(left)) == lower_text(without_final_dot(right)),
        is_ascii_chars(without_final_dot(left)) == is_ascii_chars(without_final_dot(right)),
        ip_literal(without_final_dot(left)) is None,
        ip_literal(without_final_dot(right)) is None,
    ensures
        canonical_name(left) == canonical_name(right),
{
    assert(lower_text(without_final_dot(left)).len() == without_final_dot(left).len());
    assert(lower_text(without_final_dot(right)).len() == without_final_dot(right).len());
}

/// Capital letters become the small letters of the same place in the alphabet,
/// and no other character changes.
pub proof fn law_lower_case_letters(ch: char, place: int)
    ensures
        0 <= place < 26 ==> lower_char((65 + place) as u8 as char) == (97 + place) as u8 as char,
        !('A' <= ch <= 'Z') ==> lower_char(ch) == ch,
{
    if 0 <= place < 26 {
        let capital = (65 + place) as u8;
        assert('A' <= capital as char <= 'Z');
    }
}

/// Labels with dots between them.
pub open spec fn dotted_labels(parts: Seq<Seq<char>>) -> Seq<char>
    decreases parts.len(),
{
    if parts.len() == 0 {
        Seq::empty()
    } else if parts.len() == 1 {
        parts[0]
    } else {
        dotted_labels(parts.drop_last()) + seq!['.'] + parts.last()
    }
}

/// Whether a text holds no dot.
pub open spec fn dotless(text: Seq<char>) -> bool {
    forall|i: int| 0 <= i < text.len() ==> #[trigger] text[i] != '.'
}

proof fn lemma_some_label(text: Seq<char>)
    ensures
        labels(text).len() > 0,
    decreases text.len(),
{
    if text.len() > 0 {
        lemma_some_label(text.drop_last());
    }
}

proof fn lemma_labels_grow(text: Seq<char>, tail: Seq<char>)
    requires
        dotless(tail),
    ensures
        labels(text + tail) == labels(text).drop_last().push(labels(text).last() + tail),
    decreases tail.len(),
{
    lemma_some_label(text);
    if tail.len() == 0 {
        assert(text + tail =~= text);
        assert(labels(text).last() + tail =~= labels(text).last());
        assert(labels(text) =~= labels(text).drop_last().push(labels(text).last()));
    } else {
        let head = tail.drop_last();
        assert(dotless(head)) by {
            assert forall|i: int| 0 <= i < head.len() implies #[trigger] head[i] != '.' by {
                assert(head[i] == tail[i]);
            }
        }
        lemma_labels_grow(text, head);
        assert((text + tail).drop_last() =~= text + head);
        assert((text + tail).last() == tail[tail.len() - 1]);
        let before = labels(text + head);
        assert(before.last() =~= labels(text).last() + head);
        assert(before.drop_last() =~= labels(text).drop_last());
        assert(before.last().push(tail.last()) =~= labels(text).last() + tail);
    }
}

proof fn lemma_labels_of_dotted(parts: Seq<Seq<char>>)
    requires
        parts.len() > 0,
        forall|i: int| 0 <= i < parts.len() ==> dotless(#[trigger] parts[i]),
    ensures
        labels(dotted_labels(parts)) == parts,
    decreases parts.len(),
{
    let last = parts.last();
    assert(dotless(parts[parts.len() - 1]));
    if parts.len() == 1 {
        lemma_labels_grow(Seq::empty(), last);
        assert(Seq::<char>::empty() + last =~= last);
        assert(labels(Seq::<char>::empty()) =~= seq![Seq::<char>::empty()]);
        assert(labels(last) =~= parts);
    } else {
        let before = parts.drop_last();
        assert forall|i: int| 0 <= i < before.len() implies dotless(#[trigger] before[i]) by {
            assert(before[i] == parts[i]);
        }
        lemma_labels_of_dotted(before);
        let head = dotted_labels(before) + seq!['.'];
        assert(head.drop_last() =~= dotted_labels(before));
        assert(labels(head) =~= before.push(Seq::empty()));
        lemma_labels_grow(head, last);
        assert(Seq::<char>::empty() + last =~= last);
        assert(labels(head).drop_last() =~= before);
        assert(labels(head + last) =~= parts);
    }
}

/// The parts of a name between its dots are what it was put together from.
pub proof fn law_labels_are_the_parts_between_dots(parts: Seq<Seq<char>>)
    requires
        parts.len() > 0,
        forall|i: int| 0 <= i < parts.len() ==> dotless(#[trigger] parts[i]),
    ensures
        labels(dotted_labels(parts)) == parts,
{
    lemma_labels_of_dotted(parts);
}

/// Whether a text can be one label of a canonical name: one to 63 small letters,
/// digits and hyphens, with no hyphen first or last.
pub open spec fn plain_label(part: Seq<char>) -> bool {
    &&& 1 <= part.len() <= 63
    &&& part[0] != '-' && part[part.len() - 1] != '-'
    &&& forall|i: int|
        0 <= i < part.len() ==> ('a' <= #[trigger] part[i] <= 'z' || '0' <= part[i] <= '9'
            || part[i] == '-')
}

/// Labels with dots between them, up to 253 characters together, are a canonical
/// name as they are, unless they spell an IP address; with more characters they
/// are none.
pub proof fn law_plain_labels_are_canonical_names(parts: Seq<Seq<char>>)
    requires
        parts.len() > 0,
        forall|i: int| 0 <= i < parts.len() ==> plain_label(#[trigger] parts[i]),
    ensures
        canonical_name(dotted_labels(parts)) == (if dotted_labels(parts).len() <= 253
            && ip_literal(dotted_labels(parts)) is None {
            Some(dotted_labels(parts))
        } else {
            None
        }),
{
    let text = dotted_labels(parts);
    assert forall|i: int| 0 <= i < parts.len() implies dotless(#[trigger] parts[i]) by {
        assert(plain_label(parts[i]));
    }
    lemma_labels_of_dotted(parts);
    lemma_plain_characters(parts);
    lemma_ends_plainly(parts);
    assert(lower_text(text) =~= text);
    assert(is_ascii_chars(text));
    assert(without_final_dot(text) == text);
    assert(valid_labels(text)) by {
        assert forall|i: int| 0 <= i < labels(text).len() implies valid_label(
            #[trigger] labels(text)[i],
        ) by {
            assert(plain_label(parts[i]));
        }
    }
}

proof fn lemma_plain_characters(parts: Seq<Seq<char>>)
    requires
        parts.len() > 0,
        forall|i: int| 0 <= i < parts.len() ==> plain_label(#[trigger] parts[i]),
    ensures
        forall|i: int|
            0 <= i < dotted_labels(parts).len() ==> ('a' <= #[trigger] dotted_labels(parts)[i]
                <= 'z' || '0' <= dotted_labels(parts)[i] <= '9' || dotted_labels(parts)[i] == '-'
                || dotted_labels(parts)[i] == '.'),
    decreases parts.len(),
{
    assert(plain_label(parts[parts.len() - 1]));
    if parts.len() > 1 {
        let before = parts.drop_last();
        assert forall|i: int| 0 <= i < before.len() implies plain_label(#[trigger] before[i]) by {
            assert(before[i] == parts[i]);
        }
        lemma_plain_characters(before);
        let text = dotted_labels(parts);
        let head = dotted_labels(before);
        let last = parts[parts.len() - 1];
        assert forall|i: int| 0 <= i < text.len() implies ('a' <= #[trigger] text[i] <= 'z' || '0'
            <= text[i] <= '9' || text[i] == '-' || text[i] == '.') by {
            if i < head.len() {
                assert(text[i] == head[i]);
            } else if i > head.len() {
                assert(text[i] == last[i - head.len() - 1]);
            }
        }
    }
}

proof fn lemma_ends_plainly(parts: Seq<Seq<char>>)
    requires
        parts.len() > 0,
        forall|i: int| 0 <= i < parts.len() ==> plain_label(#[trigger] parts[i]),
    ensures
        dotted_labels(parts).len() > 0,
        dotted_labels(parts).last() != '.',
{
    let last = parts[parts.len() - 1];
    assert(plain_label(last));
    assert(last[last.len() - 1] != '.');
    assert(dotted_labels(parts).last() == last[last.len() - 1]);
}

/// A canonical name consists of plain labels with dots between them, and of at
/// most 253 characters. It is the lower-case form of the text without its final
/// dot, and no text that spells an IP address has one.
pub proof fn law_canonical_names_consist_of_plain_labels(text: Seq<char>, at: int)
    requires
        canonical_name(text) is Some,
    ensures
        ({
            let name = canonical_name(text)->0;
            &&& 0 < name.len() <= 253
            &&& name == lower_text(without_final_dot(text))
            &&& 0 <= at < labels(name).len() ==> plain_label(labels(name)[at])
            &&& ip_literal(without_final_dot(text)) is None
        }),
{
    let name = canonical_name(text)->0;
    if 0 <= at < labels(name).len() {
        let label = labels(name)[at];
        assert(valid_label(label));
        assert forall|i: int| 0 <= i < label.len() implies ('a' <= #[trigger] label[i] <= 'z'
            || '0' <= label[i] <= '9' || label[i] == '-') by {
            assert(label_char(label[i]));
        }
    }
}

} // verus!
