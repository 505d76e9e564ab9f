//! Small operations on text.

use vstd::prelude::*;

verus! {

/// The contents of a list of strings.
pub open spec fn texts(list: Seq<String>) -> Seq<Seq<char>> {
    list.map_values(|item: String| item@)
}

/// Tells whether two strings are the same.
pub fn same_text(a: &str, b: &str) -> (same: bool)
    ensures
        same == (a@ == b@),
{
    broadcast use vstd::utf8::encode_utf8_decode_utf8;

    let x = a.as_bytes();
    let y = b.as_bytes();
    assert(a@ == vstd::utf8::decode_utf8(x@));
    assert(b@ == vstd::utf8::decode_utf8(y@));
    if x.len() != y.len() {
        return false;
    }
    let mut i: usize = 0;
    while i < x.len()
        invariant
            i <= x@.len(),
            x@.len() == y@.len(),
            a@ == b@ ==> x@ == y@,
            forall|j: int| 0 <= j < i ==> x@[j] == y@[j],
        decreases x.len() - i,
    {
        if x[i] != y[i] {
            return false;
        }
        i = i + 1;
    }
    assert(x@ =~= y@);
    true
}

/// The parts of a text before and after the first occurrence of a character.
pub open spec fn split_first(s: Seq<char>, separator: char) -> Option<(Seq<char>, Seq<char>)>
    decreases s.len(),
{
    if s.len() == 0 {
        None
    } else if s[0] == separator {
        Some((Seq::empty(), s.skip(1)))
    } else {
        match split_first(s.skip(1), separator) {
            Some((head, tail)) => Some((seq![s[0]] + head, tail)),
            None => None,
        }
    }
}

/// The parts of a text are what the separator, put between them, makes the text of again, and the
/// separator does not occur in the first part.
pub proof fn law_split_first(head: Seq<char>, separator: char, tail: Seq<char>)
    requires
        !head.contains(separator),
    ensures
        split_first(head + seq![separator] + tail, separator) == Some((head, tail)),
    decreases head.len(),
{
    let s = head + seq![separator] + tail;
    if head.len() == 0 {
        assert(s[0] == separator);
        assert(s.skip(1) =~= tail);
        assert(head =~= Seq::empty());
    } else {
        assert(head.contains(head[0]));
        assert(s[0] == head[0]);
        let rest = head.skip(1);
        assert(!rest.contains(separator)) by {
            if rest.contains(separator) {
                let i = choose|i: int| 0 <= i < rest.len() && rest[i] == separator;
                assert(head[i + 1] == separator);
            }
        }
        assert(s.skip(1) =~= rest + seq![separator] + tail);
        law_split_first(rest, separator, tail);
        assert(seq![head[0]] + rest =~= head);
    }
}

/// A text has parts exactly if the separator occurs in it.
pub proof fn law_split_first_none(s: Seq<char>, separator: char)
    ensures
        split_first(s, separator) is None <==> !s.contains(separator),
    decreases s.len(),
{
    if s.len() > 0 {
        if s[0] == separator {
            assert(s.contains(s[0]));
        } else {
            let rest = s.skip(1);
            law_split_first_none(rest, separator);
            if rest.contains(separator) {
                let i = choose|i: int| 0 <= i < rest.len() && rest[i] == separator;
                assert(s[i + 1] == separator);
            }
            if s.contains(separator) {
                let i = choose|i: int| 0 <= i < s.len() && s[i] == separator;
                assert(rest[i - 1] == separator);
            }
        }
    }
}

/// Splits a string at the first occurrence of a character, which belongs to neither part.
pub fn split_once<'a>(s: &'a str, separator: char) -> (parts: Option<(&'a str, &'a str)>)
    ensures
        match parts {
            Some((head, tail)) => split_first(s@, separator) == Some((head@, tail@)),
            None => split_first(s@, separator) is None,
        },
{
    let n = s.unicode_len();
    let mut i: usize = 0;
    while i < n
        invariant
            i <= n,
            n == s@.len(),
            forall|j: int| 0 <= j < i ==> s@[j] != separator,
        decreases n - i,
    {
        if s.get_char(i) == separator {
            let head = s.substring_char(0, i);
            let tail = s.substring_char(i + 1, n);
            proof {
                assert(s@ =~= head@ + seq![separator] + tail@);
                law_split_first(head@, separator, tail@);
            }
            return Some((head, tail));
        }
        i = i + 1;
    }
    proof {
        law_split_first_none(s@, separator);
    }
    None
}

/// Calls `std::str::from_utf8`.
///
/// Trusted: it succeeds exactly if the bytes are valid UTF-8, and then returns the characters that
/// they encode.
#[verifier::external_body]
pub(crate) fn from_utf8(bytes: &[u8]) -> (text: Option<&str>)
    ensures
        match text {
            Some(text) => {
                &&& vstd::utf8::valid_utf8(bytes@)
                &&& text@ == vstd::utf8::decode_utf8(bytes@)
            },
            None => !vstd::utf8::valid_utf8(bytes@),
        },
{
    std::str::from_utf8(bytes).ok()
}

/// Whether a character ends a line.
pub open spec fn is_line_end(c: char) -> bool {
    c == '\n' || c == '\r'
}

/// A text without the line ends at its end.
pub open spec fn without_line_end(s: Seq<char>) -> Seq<char>
    decreases s.len(),
{
    if s.len() > 0 && is_line_end(s.last()) {
        without_line_end(s.drop_last())
    } else {
        s
    }
}

/// Removes the line ends at the end of a string.
pub fn trim_line_end<'a>(s: &'a str) -> (trimmed: &'a str)
    ensures
        trimmed@ == without_line_end(s@),
{
    let n = s.unicode_len();
    let mut end: usize = n;
    assert(s@.take(n as int) =~= s@);
    while end > 0 && (s.get_char(end - 1) == '\n' || s.get_char(end - 1) == '\r')
        invariant
            end <= n,
            n == s@.len(),
            without_line_end(s@.take(end as int)) == without_line_end(s@),
        decreases end,
    {
        assert(s@.take(end as int).drop_last() =~= s@.take(end - 1));
        end = end - 1;
    }
    assert(s@.subrange(0, end as int) =~= s@.take(end as int));
    s.substring_char(0, end)
}

} // verus!
