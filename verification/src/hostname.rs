//! The hostname that a client may be registered under.

use vstd::prelude::*;

verus! {

/// The longest label of a domain name.
pub const MAX_LABEL_LEN: usize = 63;

/// Whether `c` has the Unicode property `White_Space`.
pub open spec fn is_white(c: char) -> bool {
    ||| '\u{9}' <= c <= '\u{d}'
    ||| c == ' '
    ||| c == '\u{85}'
    ||| c == '\u{a0}'
    ||| c == '\u{1680}'
    ||| '\u{2000}' <= c <= '\u{200a}'
    ||| c == '\u{2028}'
    ||| c == '\u{2029}'
    ||| c == '\u{202f}'
    ||| c == '\u{205f}'
    ||| c == '\u{3000}'
}

/// Whether `c` may stand in a label: an ASCII letter or digit, or a hyphen.
pub open spec fn is_label_char(c: char) -> bool {
    ||| 'a' <= c <= 'z'
    ||| 'A' <= c <= 'Z'
    ||| '0' <= c <= '9'
    ||| c == '-'
}

/// The characters before the first dot.
pub open spec fn first_label(name: Seq<char>) -> Seq<char>
    decreases name.len(),
{
    if name.len() == 0 || name[0] == '.' {
        Seq::empty()
    } else {
        seq![name[0]] + first_label(name.drop_first())
    }
}

/// A text without the white space before it and behind it.
pub open spec fn trimmed(text: Seq<char>) -> Seq<char>
    decreases text.len(),
{
    if text.len() > 0 && is_white(text[0]) {
        trimmed(text.drop_first())
    } else if text.len() > 0 && is_white(text.last()) {
        trimmed(text.drop_last())
    } else {
        text
    }
}

/// Whether a label may be registered: it has 1 to 63 characters, each of which
/// may stand in a label, and a hyphen neither begins nor ends it.
pub open spec fn is_valid_label(label: Seq<char>) -> bool {
    &&& 0 < label.len() <= MAX_LABEL_LEN
    &&& label[0] != '-'
    &&& label.last() != '-'
    &&& forall|i: int| 0 <= i < label.len() ==> is_label_char(#[trigger] label[i])
}

/// The small letter of an ASCII capital; any other character itself.
pub open spec fn ascii_lower(c: char) -> char {
    if 'A' <= c <= 'Z' {
        (c as u32 + 32) as char
    } else {
        c
    }
}

/// The hostname that a raw name stands for: its first label, trimmed and in
/// small letters, if that is a valid label.
pub open spec fn sanitized(raw: Seq<char>) -> Option<Seq<char>> {
    let label = trimmed(first_label(raw));
    if is_valid_label(label) {
        Some(label.map_values(|c: char| ascii_lower(c)))
    } else {
        None
    }
}

fn has_white_space(c: char) -> (r: bool)
    ensures
        r == is_white(c),
{
    (c >= '\u{9}' && c <= '\u{d}') || c == ' ' || c == '\u{85}' || c == '\u{a0}' || c == '\u{1680}'
        || (c >= '\u{2000}' && c <= '\u{200a}') || c == '\u{2028}' || c == '\u{2029}' || c
        == '\u{202f}' || c == '\u{205f}' || c == '\u{3000}'
}

fn may_stand_in_label(c: char) -> (r: bool)
    ensures
        r == is_label_char(c),
{
    (c >= 'a' && c <= 'z') || (c >= 'A' && c <= 'Z') || (c >= '0' && c <= '9') || c == '-'
}

/// `str::to_ascii_lowercase`: ASCII letters are mapped to small letters, and
/// every other character is kept.
#[verifier::external_body]
fn to_ascii_lowercase(text: &str) -> (r: String)
    ensures
        r@ == text@.map_values(|c: char| ascii_lower(c)),
{
    text.to_ascii_lowercase()
}

proof fn lemma_first_label(name: Seq<char>, dot: int)
    requires
        0 <= dot <= name.len(),
        forall|i: int| 0 <= i < dot ==> #[trigger] name[i] != '.',
        dot < name.len() ==> name[dot] == '.',
    ensures
        first_label(name) == name.take(dot),
    decreases name.len(),
{
    if name.len() == 0 || name[0] == '.' {
        assert(name.take(dot) =~= Seq::empty());
    } else {
        let rest = name.drop_first();
        assert forall|i: int| 0 <= i < dot - 1 implies #[trigger] rest[i] != '.' by {
            assert(rest[i] == name[i + 1]);
        }
        lemma_first_label(rest, dot - 1);
        assert(name.take(dot) =~= seq![name[0]] + rest.take(dot - 1));
    }
}

proof fn lemma_trimmed_step(text: Seq<char>, from: int, to: int)
    requires
        0 <= from < to <= text.len(),
    ensures
        is_white(text[from]) ==> trimmed(text.subrange(from, to)) == trimmed(
            text.subrange(from + 1, to),
        ),
        !is_white(text[from]) && is_white(text[to - 1]) ==> trimmed(text.subrange(from, to))
            == trimmed(text.subrange(from, to - 1)),
        !is_white(text[from]) && !is_white(text[to - 1]) ==> trimmed(text.subrange(from, to))
            == text.subrange(from, to),
{
    let part = text.subrange(from, to);
    assert(part.drop_first() =~= text.subrange(from + 1, to));
    assert(part.drop_last() =~= text.subrange(from, to - 1));
}

/// Reads the hostname that a raw name stands for.
pub fn sanitize_hostname(raw: &str) -> (r: Option<String>)
    ensures
        match r {
            Some(name) => sanitized(raw@) == Some(name@),
            None => sanitized(raw@) is None,
        },
{
    let len: usize = raw.unicode_len();
    let mut to: usize = 0;
    while to < len && raw.get_char(to) != '.'
        invariant
            len == raw@.len(),
            to <= len,
            forall|i: int| 0 <= i < to ==> #[trigger] raw@[i] != '.',
        decreases len - to,
    {
        to += 1;
    }
    let ghost label = raw@.take(to as int);
    proof {
        lemma_first_label(raw@, to as int);
        assert(label =~= raw@.subrange(0, to as int));
    }
    let mut from: usize = 0;
    while from < to && has_white_space(raw.get_char(from))
        invariant
            len == raw@.len(),
            from <= to <= len,
            trimmed(label) == trimmed(raw@.subrange(from as int, to as int)),
        decreases to - from,
    {
        proof {
            lemma_trimmed_step(raw@, from as int, to as int);
        }
        from += 1;
    }
    while from < to && has_white_space(raw.get_char(to - 1))
        invariant
            len == raw@.len(),
            from <= to <= len,
            from < to ==> !is_white(raw@[from as int]),
            trimmed(label) == trimmed(raw@.subrange(from as int, to as int)),
        decreases to - from,
    {
        proof {
            lemma_trimmed_step(raw@, from as int, to as int);
        }
        to -= 1;
    }
    let ghost core = raw@.subrange(from as int, to as int);
    proof {
        if from < to {
            lemma_trimmed_step(raw@, from as int, to as int);
        }
        assert(trimmed(label) == core);
    }
    if from == to || to - from > MAX_LABEL_LEN {
        return None;
    }
    if raw.get_char(from) == '-' || raw.get_char(to - 1) == '-' {
        return None;
    }
    let mut i: usize = from;
    while i < to
        invariant
            len == raw@.len(),
            from <= i <= to <= len,
            core == raw@.subrange(from as int, to as int),
            trimmed(first_label(raw@)) == core,
            forall|j: int| 0 <= j < i - from ==> is_label_char(#[trigger] core[j]),
        decreases to - i,
    {
        if !may_stand_in_label(raw.get_char(i)) {
            assert(!is_label_char(core[i - from]));
            return None;
        }
        i += 1;
    }
    Some(to_ascii_lowercase(raw.substring_char(from, to)))
}

/// A hostname that was granted is granted unchanged when it is sent again.
pub proof fn law_sanitizing_is_idempotent(raw: Seq<char>)
    requires
        sanitized(raw) is Some,
    ensures
        sanitized(sanitized(raw)->0) == sanitized(raw),
{
    let label = trimmed(first_label(raw));
    let name = label.map_values(|c: char| ascii_lower(c));
    assert forall|i: int| 0 <= i < name.len() implies is_label_char(#[trigger] name[i])
        && ascii_lower(name[i]) == name[i] && name[i] != '.' && !is_white(name[i]) by {
        assert(is_label_char(label[i]));
    }
    lemma_first_label(name, name.len() as int);
    assert(name.take(name.len() as int) =~= name);
    assert(trimmed(name) == name);
    assert(name.map_values(|c: char| ascii_lower(c)) =~= name);
}

} // verus!
