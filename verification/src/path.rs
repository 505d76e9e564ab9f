//! Unix paths as byte strings.
//!
//! A path is a sequence of pieces separated by slashes. Its components are its pieces without the
//! empty ones and without `.`, except that a leading slash and a leading `.` count as components of
//! their own. Two paths are the same path when their components are the same.

use vstd::prelude::*;
use vstd::slice::{slice_subrange, slice_to_vec};

verus! {

/// The byte that separates the pieces of a path.
pub const SLASH: u8 = 0x2f;

/// The byte that names the current directory.
pub const DOT: u8 = 0x2e;

/// The byte that names the home directory.
pub const TILDE: u8 = 0x7e;

/// The contents of a list of byte strings.
pub open spec fn byte_strings(list: Seq<Vec<u8>>) -> Seq<Seq<u8>> {
    list.map_values(|item: Vec<u8>| item@)
}

/// Length of the first piece of a path: the number of bytes before its first slash.
pub open spec fn piece_len(s: Seq<u8>) -> int
    decreases s.len(),
{
    if s.len() == 0 || s[0] == SLASH {
        0
    } else {
        1 + piece_len(s.skip(1))
    }
}

/// The first piece of a path.
pub open spec fn first_piece(s: Seq<u8>) -> Seq<u8> {
    s.take(piece_len(s))
}

/// What follows the first piece of a path and the slash behind it.
pub open spec fn after_piece(s: Seq<u8>) -> Seq<u8> {
    if piece_len(s) < s.len() {
        s.skip(piece_len(s) + 1)
    } else {
        Seq::empty()
    }
}

/// Whether a piece names something, rather than standing for a repeated slash or for the directory
/// that it is in.
pub open spec fn is_named(piece: Seq<u8>) -> bool {
    piece.len() > 0 && piece != seq![DOT]
}

proof fn lemma_piece_len(s: Seq<u8>)
    ensures
        0 <= piece_len(s) <= s.len(),
        piece_len(s) < s.len() ==> s[piece_len(s)] == SLASH,
        forall|i: int| 0 <= i < piece_len(s) ==> s[i] != SLASH,
        s.len() > 0 ==> after_piece(s).len() < s.len(),
    decreases s.len(),
{
    if s.len() > 0 && s[0] != SLASH {
        lemma_piece_len(s.skip(1));
        assert forall|i: int| 0 <= i < piece_len(s) implies s[i] != SLASH by {
            if i > 0 {
                assert(s.skip(1)[i - 1] == s[i]);
            }
        }
    }
}

proof fn lemma_piece_len_is(s: Seq<u8>, n: int)
    requires
        0 <= n <= s.len(),
        n < s.len() ==> s[n] == SLASH,
        forall|i: int| 0 <= i < n ==> s[i] != SLASH,
    ensures
        piece_len(s) == n,
{
    lemma_piece_len(s);
    if piece_len(s) < n {
        assert(s[piece_len(s)] != SLASH);
    }
}

/// The pieces of a path that name something, in order.
pub open spec fn named_pieces(s: Seq<u8>) -> Seq<Seq<u8>>
    decreases s.len(),
    via named_pieces_decreases
{
    if s.len() == 0 {
        Seq::empty()
    } else if is_named(first_piece(s)) {
        seq![first_piece(s)] + named_pieces(after_piece(s))
    } else {
        named_pieces(after_piece(s))
    }
}

#[via_fn]
proof fn named_pieces_decreases(s: Seq<u8>) {
    lemma_piece_len(s);
}

/// Whether a path starts at the root directory.
pub open spec fn is_absolute(s: Seq<u8>) -> bool {
    s.len() > 0 && s[0] == SLASH
}

/// The components of a path.
pub open spec fn path_components(s: Seq<u8>) -> Seq<Seq<u8>> {
    if is_absolute(s) {
        seq![seq![SLASH]] + named_pieces(s)
    } else if first_piece(s) == seq![DOT] {
        seq![seq![DOT]] + named_pieces(s)
    } else {
        named_pieces(s)
    }
}

/// Returns the components of a path.
pub fn components(path: &[u8]) -> (parts: Vec<Vec<u8>>)
    ensures
        byte_strings(parts@) == path_components(path@),
{
    let mut parts: Vec<Vec<u8>> = Vec::new();
    let ghost lead = path_components(path@).take(
        path_components(path@).len() - named_pieces(path@).len(),
    );
    proof {
        lemma_piece_len(path@);
    }
    if path.len() > 0 && path[0] == SLASH {
        parts.push(vec![SLASH]);
        assert(parts@[0]@ =~= seq![SLASH]);
        assert(byte_strings(parts@) =~= lead);
    } else if path.len() > 0 && path[0] == DOT && (path.len() == 1 || path[1] == SLASH) {
        parts.push(vec![DOT]);
        assert(parts@[0]@ =~= seq![DOT]);
        proof {
            lemma_piece_len_is(path@, 1);
            assert(first_piece(path@) =~= seq![DOT]);
        }
        assert(byte_strings(parts@) =~= lead);
    } else {
        assert(first_piece(path@) != seq![DOT]) by {
            if first_piece(path@) == seq![DOT] {
                assert(seq![DOT].len() == 1);
                assert(first_piece(path@)[0] == DOT);
            }
        }
        assert(byte_strings(parts@) =~= lead);
    }
    let mut start: usize = 0;
    assert(path@.skip(0) == path@);
    while start < path.len()
        invariant
            start <= path.len(),
            byte_strings(parts@) + named_pieces(path@.skip(start as int)) == lead + named_pieces(path@),
        decreases path.len() - start,
    {
        let ghost rest = path@.skip(start as int);
        let ghost before = byte_strings(parts@);
        let end = piece_end(path, start);
        let piece = slice_subrange(path, start, end);
        proof {
            assert(piece@ == first_piece(rest));
            lemma_piece_len(rest);
        }
        if is_named_range(path, start, end) {
            parts.push(slice_to_vec(piece));
            assert(byte_strings(parts@) =~= before.push(piece@));
            assert(before + (seq![piece@] + named_pieces(after_piece(rest))) =~= before.push(
                piece@,
            ) + named_pieces(after_piece(rest)));
        }
        start = if end < path.len() { end + 1 } else { end };
        assert(path@.skip(start as int) =~= after_piece(rest));
    }
    assert(path@.skip(start as int) =~= Seq::<u8>::empty());
    assert(byte_strings(parts@) =~= path_components(path@));
    parts
}

fn piece_end(path: &[u8], start: usize) -> (end: usize)
    requires
        start <= path@.len(),
    ensures
        start <= end <= path@.len(),
        end - start == piece_len(path@.skip(start as int)),
{
    let mut end = start;
    while end < path.len() && path[end] != SLASH
        invariant
            start <= end <= path@.len(),
            forall|i: int| start <= i < end ==> path@[i] != SLASH,
        decreases path.len() - end,
    {
        end = end + 1;
    }
    proof {
        lemma_piece_len_is(path@.skip(start as int), end - start);
    }
    end
}

/// Whether a component is the name of a file or directory, rather than a step to the root, to the
/// current directory or to the parent directory.
pub open spec fn is_file_name(name: Seq<u8>) -> bool {
    &&& is_named(name)
    &&& name != seq![DOT, DOT]
    &&& !name.contains(SLASH)
}

/// The last component of a path, if it is the name of a file or directory.
pub open spec fn path_file_name(s: Seq<u8>) -> Option<Seq<u8>> {
    let parts = path_components(s);
    if parts.len() > 0 && is_file_name(parts.last()) {
        Some(parts.last())
    } else {
        None
    }
}

/// Tells whether `name` can stand for an entry of a directory.
pub fn is_entry_name(name: &[u8]) -> (yes: bool)
    ensures
        yes == is_file_name(name@),
{
    let n = name.len();
    proof {
        if n == 1 && name@[0] == DOT {
            assert(name@ =~= seq![DOT]);
        }
        if n == 2 && name@[0] == DOT && name@[1] == DOT {
            assert(name@ =~= seq![DOT, DOT]);
        }
    }
    if n == 0 || (n == 1 && name[0] == DOT) || (n == 2 && name[0] == DOT && name[1] == DOT) {
        return false;
    }
    let end = piece_end(name, 0);
    proof {
        assert(name@.skip(0) =~= name@);
        lemma_piece_len(name@);
        assert(name@ != seq![DOT]) by {
            assert(seq![DOT].len() == 1 && seq![DOT][0] == DOT);
        }
        assert(name@ != seq![DOT, DOT]) by {
            assert(seq![DOT, DOT].len() == 2 && seq![DOT, DOT][0] == DOT && seq![DOT, DOT][1]
                == DOT);
        }
        if end < n {
            assert(name@[end as int] == SLASH);
        }
    }
    end == n
}

/// Returns the name of the file or directory that a path leads to.
///
/// There is none if the path ends at the root, at `.` or at `..`.
pub fn file_name(path: &[u8]) -> (name: Option<Vec<u8>>)
    ensures
        match name {
            Some(name) => path_file_name(path@) == Some(name@),
            None => path_file_name(path@) is None,
        },
{
    let mut parts = components(path);
    let ghost all = parts@;
    match parts.pop() {
        Some(last) => {
            assert(byte_strings(all).last() == last@);
            if is_entry_name(last.as_slice()) {
                Some(last)
            } else {
                None
            }
        },
        None => None,
    }
}

/// The path that `name` leads to when it is followed from `base`.
pub open spec fn joined(base: Seq<u8>, name: Seq<u8>) -> Seq<u8> {
    if is_absolute(name) {
        name
    } else if base.len() > 0 && base.last() != SLASH {
        base + seq![SLASH] + name
    } else {
        base + name
    }
}

/// Appends `name` to the path `base`.
pub fn join(base: &[u8], name: &[u8]) -> (path: Vec<u8>)
    ensures
        path@ == joined(base@, name@),
{
    if name.len() > 0 && name[0] == SLASH {
        return slice_to_vec(name);
    }
    let mut path = slice_to_vec(base);
    if base.len() > 0 && base[base.len() - 1] != SLASH {
        path.push(SLASH);
        assert(path@ =~= base@ + seq![SLASH]);
    }
    let mut tail = slice_to_vec(name);
    path.append(&mut tail);
    path
}

/// A path without the pieces before its first named piece.
pub open spec fn trim_front(s: Seq<u8>) -> Seq<u8>
    decreases s.len(),
    via trim_front_decreases
{
    if s.len() == 0 || is_named(first_piece(s)) {
        s
    } else {
        trim_front(after_piece(s))
    }
}

#[via_fn]
proof fn trim_front_decreases(s: Seq<u8>) {
    lemma_piece_len(s);
}

/// Where the last piece of a path starts: behind its last slash.
pub open spec fn last_piece_start(s: Seq<u8>) -> int
    decreases s.len(),
{
    if s.len() == 0 || s.last() == SLASH {
        s.len() as int
    } else {
        last_piece_start(s.drop_last())
    }
}

/// The last piece of a path.
pub open spec fn last_piece(s: Seq<u8>) -> Seq<u8> {
    s.skip(last_piece_start(s))
}

/// What comes before the last piece of a path and the slash in front of it.
pub open spec fn before_last_piece(s: Seq<u8>) -> Seq<u8> {
    if last_piece_start(s) > 0 {
        s.take(last_piece_start(s) - 1)
    } else {
        Seq::empty()
    }
}

proof fn lemma_last_piece(s: Seq<u8>)
    ensures
        0 <= last_piece_start(s) <= s.len(),
        last_piece_start(s) > 0 ==> s[last_piece_start(s) - 1] == SLASH,
        forall|i: int| last_piece_start(s) <= i < s.len() ==> s[i] != SLASH,
        s.len() > 0 ==> before_last_piece(s).len() < s.len(),
    decreases s.len(),
{
    if s.len() > 0 && s.last() != SLASH {
        lemma_last_piece(s.drop_last());
        assert forall|i: int| last_piece_start(s) <= i < s.len() implies s[i] != SLASH by {
            if i < s.len() - 1 {
                assert(s.drop_last()[i] == s[i]);
            }
        }
    }
}

proof fn lemma_last_piece_start_is(s: Seq<u8>, n: int)
    requires
        0 <= n <= s.len(),
        n > 0 ==> s[n - 1] == SLASH,
        forall|i: int| n <= i < s.len() ==> s[i] != SLASH,
    ensures
        last_piece_start(s) == n,
{
    lemma_last_piece(s);
    if last_piece_start(s) > n {
        assert(s[last_piece_start(s) - 1] != SLASH);
    }
}

/// A path without the pieces behind its last named piece.
pub open spec fn trim_back(s: Seq<u8>) -> Seq<u8>
    decreases s.len(),
    via trim_back_decreases
{
    if s.len() == 0 || is_named(last_piece(s)) {
        s
    } else {
        trim_back(before_last_piece(s))
    }
}

#[via_fn]
proof fn trim_back_decreases(s: Seq<u8>) {
    lemma_last_piece(s);
}

/// A remote path in the form that the server handles correctly.
///
/// The empty path and the home directory become the current directory, and a path below the home
/// directory becomes a path below the current directory. Any other path stays as it is.
pub open spec fn sanitized(s: Seq<u8>) -> Seq<u8> {
    let parts = path_components(s);
    if parts.len() == 0 || parts == seq![seq![TILDE]] || parts == seq![seq![DOT]] {
        seq![DOT]
    } else if parts[0] == seq![TILDE] {
        seq![DOT, SLASH] + trim_back(trim_front(after_piece(s)))
    } else {
        s
    }
}

fn front_trimmed(path: &[u8], from: usize) -> (start: usize)
    requires
        from <= path@.len(),
    ensures
        from <= start <= path@.len(),
        path@.skip(start as int) == trim_front(path@.skip(from as int)),
{
    let mut start = from;
    while start < path.len()
        invariant
            from <= start <= path@.len(),
            trim_front(path@.skip(start as int)) == trim_front(path@.skip(from as int)),
        decreases path.len() - start,
    {
        let ghost rest = path@.skip(start as int);
        let end = piece_end(path, start);
        if is_named_range(path, start, end) {
            assert(path@.subrange(start as int, end as int) =~= first_piece(rest));
            return start;
        }
        proof {
            assert(path@.subrange(start as int, end as int) =~= first_piece(rest));
            lemma_piece_len(rest);
        }
        start = if end < path.len() { end + 1 } else { end };
        assert(path@.skip(start as int) =~= after_piece(rest));
    }
    start
}

fn back_trimmed(path: &[u8], from: usize) -> (end: usize)
    requires
        from <= path@.len(),
    ensures
        from <= end <= path@.len(),
        path@.subrange(from as int, end as int) == trim_back(path@.skip(from as int)),
{
    let mut end = path.len();
    assert(path@.subrange(from as int, end as int) =~= path@.skip(from as int));
    while end > from
        invariant
            from <= end <= path@.len(),
            trim_back(path@.subrange(from as int, end as int)) == trim_back(
                path@.skip(from as int),
            ),
        decreases end,
    {
        let ghost rest = path@.subrange(from as int, end as int);
        let mut start = end;
        while start > from && path[start - 1] != SLASH
            invariant
                from <= start <= end <= path@.len(),
                forall|i: int| start <= i < end ==> path@[i] != SLASH,
            decreases start,
        {
            start = start - 1;
        }
        proof {
            lemma_last_piece_start_is(rest, start - from);
            lemma_last_piece(rest);
            assert(path@.subrange(start as int, end as int) =~= last_piece(rest));
        }
        if is_named_range(path, start, end) {
            return end;
        }
        end = if start > from { start - 1 } else { from };
        assert(path@.subrange(from as int, end as int) =~= before_last_piece(rest));
    }
    end
}

fn is_named_range(path: &[u8], start: usize, end: usize) -> (named: bool)
    requires
        start <= end <= path@.len(),
    ensures
        named == is_named(path@.subrange(start as int, end as int)),
{
    let ghost piece = path@.subrange(start as int, end as int);
    proof {
        if piece.len() == 1 && piece[0] == DOT {
            assert(piece =~= seq![DOT]);
        }
    }
    end - start > 1 || (end - start == 1 && path[start] != DOT)
}

/// Canonicalizes a path by removing unwanted prefixes.
pub fn sanitize_sftp_path(path: &[u8]) -> (clean: Vec<u8>)
    ensures
        clean@ == sanitized(path@),
{
    let parts = components(path);
    let ghost all = path_components(path@);
    // Map empty path or home directory to current directory
    let first_is_tilde = parts.len() > 0 && parts[0].len() == 1 && parts[0][0] == TILDE;
    let first_is_dot = parts.len() > 0 && parts[0].len() == 1 && parts[0][0] == DOT;
    proof {
        if all.len() > 0 {
            assert(all[0] == parts@[0]@);
            if first_is_tilde {
                assert(all[0] =~= seq![TILDE]);
            } else {
                assert(all[0] != seq![TILDE]) by {
                    assert(seq![TILDE].len() == 1 && seq![TILDE][0] == TILDE);
                }
            }
            if first_is_dot {
                assert(all[0] =~= seq![DOT]);
            } else {
                assert(all[0] != seq![DOT]) by {
                    assert(seq![DOT].len() == 1 && seq![DOT][0] == DOT);
                }
            }
            assert(seq![seq![TILDE]][0] == seq![TILDE]);
            assert(seq![seq![DOT]][0] == seq![DOT]);
            if all.len() == 1 {
                assert(all =~= seq![all[0]]);
            }
        }
    }
    if parts.len() == 0 || (parts.len() == 1 && (first_is_tilde || first_is_dot)) {
        let clean = vec![DOT];
        assert(clean@ =~= seq![DOT]);
        return clean;
    }
    // Convert a tilde prefix into current directory
    if first_is_tilde {
        let first = piece_end(path, 0);
        let from = if first < path.len() { first + 1 } else { first };
        assert(path@.skip(0) =~= path@);
        assert(path@.skip(from as int) =~= after_piece(path@));
        let start = front_trimmed(path, from);
        let end = back_trimmed(path, start);
        let mut clean = vec![DOT, SLASH];
        let mut tail = slice_to_vec(slice_subrange(path, start, end));
        clean.append(&mut tail);
        assert(clean@ =~= seq![DOT, SLASH] + trim_back(trim_front(after_piece(path@))));
        return clean;
    }
    slice_to_vec(path)
}

proof fn lemma_first_piece_of_concat(a: Seq<u8>, b: Seq<u8>)
    ensures
        piece_len(a + seq![SLASH] + b) == piece_len(a),
        first_piece(a + seq![SLASH] + b) == first_piece(a),
        after_piece(a + seq![SLASH] + b) == (if piece_len(a) < a.len() {
            after_piece(a) + seq![SLASH] + b
        } else {
            b
        }),
{
    let s = a + seq![SLASH] + b;
    let n = piece_len(a);
    lemma_piece_len(a);
    assert(s[a.len() as int] == SLASH);
    assert forall|i: int| 0 <= i < n implies s[i] != SLASH by {
        assert(s[i] == a[i]);
    }
    lemma_piece_len_is(s, n);
    assert(first_piece(s) =~= first_piece(a));
    if n < a.len() {
        assert(after_piece(s) =~= after_piece(a) + seq![SLASH] + b);
    } else {
        assert(after_piece(s) =~= b);
    }
}

/// A slash between two paths separates their named pieces.
proof fn lemma_named_pieces_of_concat(a: Seq<u8>, b: Seq<u8>)
    ensures
        named_pieces(a + seq![SLASH] + b) == named_pieces(a) + named_pieces(b),
    decreases a.len(),
{
    let s = a + seq![SLASH] + b;
    lemma_first_piece_of_concat(a, b);
    lemma_piece_len(a);
    assert(s.len() > 0);
    if a.len() == 0 {
        assert(first_piece(s) =~= Seq::<u8>::empty());
        assert(named_pieces(a) + named_pieces(b) =~= named_pieces(b));
    } else {
        if piece_len(a) < a.len() {
            lemma_named_pieces_of_concat(after_piece(a), b);
        }
        assert(named_pieces(after_piece(s)) =~= named_pieces(after_piece(a)) + named_pieces(b));
        assert(named_pieces(s) =~= named_pieces(a) + named_pieces(b));
    }
}

proof fn lemma_named_pieces_of_piece(p: Seq<u8>)
    requires
        !p.contains(SLASH),
    ensures
        first_piece(p) == p,
        named_pieces(p) == (if is_named(p) {
            seq![p]
        } else {
            Seq::empty()
        }),
{
    assert forall|i: int| 0 <= i < p.len() implies p[i] != SLASH by {
        assert(p.contains(p[i]));
    }
    lemma_piece_len_is(p, p.len() as int);
    assert(first_piece(p) =~= p);
    assert(named_pieces(Seq::<u8>::empty()) =~= Seq::empty());
    if is_named(p) {
        assert(named_pieces(p) =~= seq![p]);
    }
}

proof fn lemma_trim_front(s: Seq<u8>)
    ensures
        named_pieces(trim_front(s)) == named_pieces(s),
    decreases s.len(),
{
    if s.len() > 0 && !is_named(first_piece(s)) {
        lemma_piece_len(s);
        lemma_trim_front(after_piece(s));
    }
}

proof fn lemma_trim_back(s: Seq<u8>)
    ensures
        named_pieces(trim_back(s)) == named_pieces(s),
    decreases s.len(),
{
    if s.len() > 0 && !is_named(last_piece(s)) {
        lemma_last_piece(s);
        let start = last_piece_start(s);
        let piece = last_piece(s);
        lemma_trim_back(before_last_piece(s));
        lemma_named_pieces_of_piece(piece);
        if start > 0 {
            assert(s =~= before_last_piece(s) + seq![SLASH] + piece);
            lemma_named_pieces_of_concat(before_last_piece(s), piece);
            assert(named_pieces(s) =~= named_pieces(before_last_piece(s)));
        } else {
            assert(s =~= piece);
        }
    }
}

/// In terms of components, a sanitized path differs from the path only in its first component: a
/// leading `~` is replaced by `.`, and the empty path by `.` alone.
pub proof fn law_sanitized_components(s: Seq<u8>)
    ensures
        path_components(sanitized(s)) == (if path_components(s).len() == 0 {
            seq![seq![DOT]]
        } else if path_components(s)[0] == seq![TILDE] {
            path_components(s).update(0, seq![DOT])
        } else {
            path_components(s)
        }),
{
    let parts = path_components(s);
    lemma_dot();
    assert(seq![DOT] != seq![TILDE]) by {
        assert(seq![DOT][0] != seq![TILDE][0]);
    }
    assert(seq![SLASH] != seq![TILDE]) by {
        assert(seq![SLASH][0] != seq![TILDE][0]);
    }
    if parts.len() > 0 && parts[0] == seq![TILDE] {
        lemma_tilde(s);
        if parts == seq![seq![TILDE]] {
            assert(parts.update(0, seq![DOT]) =~= seq![seq![DOT]]);
        } else {
            assert(parts != seq![seq![DOT]]) by {
                assert(seq![seq![DOT]][0] == seq![DOT]);
            }
            let rest = trim_back(trim_front(after_piece(s)));
            lemma_trim_front(after_piece(s));
            lemma_trim_back(trim_front(after_piece(s)));
            let clean = sanitized(s);
            assert(clean =~= seq![DOT] + seq![SLASH] + rest);
            lemma_named_pieces_of_concat(seq![DOT], rest);
            lemma_first_piece_of_concat(seq![DOT], rest);
            assert(clean[0] == DOT);
            assert(path_components(clean) =~= parts.update(0, seq![DOT]));
        }
    }
}

proof fn lemma_dot()
    ensures
        first_piece(seq![DOT]) == seq![DOT],
        named_pieces(seq![DOT]) == Seq::<Seq<u8>>::empty(),
        path_components(seq![DOT]) == seq![seq![DOT]],
{
    assert(!seq![DOT].contains(SLASH));
    lemma_named_pieces_of_piece(seq![DOT]);
    assert(path_components(seq![DOT]) =~= seq![seq![DOT]]);
}

proof fn lemma_tilde(s: Seq<u8>)
    requires
        path_components(s).len() > 0,
        path_components(s)[0] == seq![TILDE],
    ensures
        first_piece(s) == seq![TILDE],
        path_components(s) == seq![seq![TILDE]] + named_pieces(after_piece(s)),
{
    lemma_piece_len(s);
    assert(seq![TILDE][0] == TILDE);
    assert(seq![SLASH][0] == SLASH);
    assert(seq![DOT][0] == DOT);
    assert(!is_absolute(s));
    assert(first_piece(s) != seq![DOT]);
    assert(s.len() > 0);
    assert(first_piece(s).len() > 0);
}

/// Sanitizing a path a second time changes nothing.
pub proof fn law_sanitized_idempotent(s: Seq<u8>)
    ensures
        sanitized(sanitized(s)) == sanitized(s),
{
    let parts = path_components(s);
    law_sanitized_components(s);
    lemma_dot();
    assert(seq![DOT] != seq![TILDE]) by {
        assert(seq![DOT][0] != seq![TILDE][0]);
    }
    if parts.len() > 0 && parts[0] == seq![TILDE] && parts != seq![seq![TILDE]] {
        lemma_tilde(s);
        let clean = path_components(sanitized(s));
        assert(clean[0] == seq![DOT]);
        assert(clean.len() == parts.len());
        if parts.len() == 1 {
            assert(parts =~= seq![seq![TILDE]]);
        }
        assert(clean != seq![seq![TILDE]]) by {
            assert(seq![seq![TILDE]][0] == seq![TILDE]);
        }
        assert(clean != seq![seq![DOT]]);
    }
}

/// A sanitized path is never empty and never leads through the home directory.
pub proof fn law_sanitized_start(s: Seq<u8>)
    ensures
        sanitized(s).len() > 0,
        path_components(sanitized(s)).len() > 0,
        path_components(sanitized(s))[0] != seq![TILDE],
{
    law_sanitized_components(s);
    assert(seq![DOT][0] != seq![TILDE][0]);
    if sanitized(s).len() == 0 {
        assert(path_components(s).len() == 0);
    }
}

/// Joining the name of an entry to a path adds that name as the last component.
pub proof fn law_joined_components(base: Seq<u8>, name: Seq<u8>)
    requires
        is_file_name(name),
    ensures
        path_components(joined(base, name)) == path_components(base).push(name),
        path_file_name(joined(base, name)) == Some(name),
{
    let path = joined(base, name);
    assert(!is_absolute(name)) by {
        if is_absolute(name) {
            assert(name.contains(name[0]));
        }
    }
    lemma_named_pieces_of_piece(name);
    lemma_piece_len(base);
    if base.len() == 0 {
        assert(path =~= name);
        assert(first_piece(base) != seq![DOT]) by {
            assert(first_piece(base).len() == 0 && seq![DOT].len() == 1);
        }
        assert(path_components(base) =~= Seq::empty());
        assert(path_components(path) =~= seq![name]);
    } else {
        let stem = if base.last() == SLASH { base.drop_last() } else { base };
        assert(path =~= stem + seq![SLASH] + name);
        lemma_named_pieces_of_concat(stem, name);
        lemma_first_piece_of_concat(stem, name);
        if base.last() == SLASH {
            assert(base =~= stem + seq![SLASH] + Seq::<u8>::empty());
            lemma_named_pieces_of_concat(stem, Seq::<u8>::empty());
            lemma_first_piece_of_concat(stem, Seq::<u8>::empty());
            assert(named_pieces(base) =~= named_pieces(stem));
        }
        assert(path[0] == base[0]);
        assert(path_components(path) =~= path_components(base).push(name));
    }
}

/// Whether a path is `base` itself or leads to something below it.
pub open spec fn is_within(base: Seq<u8>, path: Seq<u8>) -> bool {
    path_components(base).is_prefix_of(path_components(path))
}

/// Joining the name of an entry to a path never leaves the directory that the path is in.
pub proof fn law_joined_within(base: Seq<u8>, path: Seq<u8>, name: Seq<u8>)
    requires
        is_within(base, path),
        is_file_name(name),
    ensures
        is_within(base, joined(path, name)),
{
    law_joined_components(path, name);
}

/// A path that is within a sanitized path needs no sanitizing once a name is joined to it.
pub proof fn law_sanitized_joined(target: Seq<u8>, path: Seq<u8>, name: Seq<u8>)
    requires
        is_within(sanitized(target), path),
        is_file_name(name),
    ensures
        sanitized(joined(path, name)) == joined(path, name),
{
    law_sanitized_start(target);
    law_joined_components(path, name);
    let parts = path_components(joined(path, name));
    assert(parts.len() >= 2);
    assert(parts[0] == path_components(sanitized(target))[0]);
    assert(seq![seq![TILDE]].len() == 1);
    assert(seq![seq![DOT]].len() == 1);
}

/// Every name that is not empty, holds no slash and is neither `.` nor `..` can stand for an entry of a
/// directory, whatever other bytes it holds, and nothing else can.
pub proof fn law_entry_names(name: Seq<u8>)
    ensures
        is_file_name(name) <==> {
            &&& name.len() > 0
            &&& name != seq![0x2eu8]
            &&& name != seq![0x2eu8, 0x2e]
            &&& forall|i: int| 0 <= i < name.len() ==> name[i] != 0x2f
        },
{
    if name.contains(0x2f) {
        let i = choose|i: int| 0 <= i < name.len() && name[i] == 0x2f;
        assert(name[i] == 0x2f);
    } else {
        assert forall|i: int| 0 <= i < name.len() implies name[i] != 0x2f by {
            assert(name.contains(name[i]));
        }
    }
}

/// A path is taken apart at its slashes: a piece behind the last slash is a component of its own unless
/// it is empty or `.`, and what is in front of the slash has the components that it has without it. A
/// slash with nothing in front of it is the component of the root.
pub proof fn law_components(base: Seq<u8>, piece: Seq<u8>)
    requires
        forall|i: int| 0 <= i < piece.len() ==> piece[i] != 0x2f,
    ensures
        path_components(piece) == if piece.len() == 0 {
            Seq::empty()
        } else {
            seq![piece]
        },
        base.len() > 0 ==> path_components(base + seq![0x2f] + piece) == if piece.len() == 0 || piece
            == seq![0x2eu8] {
            path_components(base)
        } else {
            path_components(base).push(piece)
        },
        path_components(seq![0x2f] + piece) == if piece.len() == 0 || piece == seq![0x2eu8] {
            seq![seq![0x2fu8]]
        } else {
            seq![seq![0x2fu8], piece]
        },
{
    assert(!piece.contains(SLASH));
    lemma_named_pieces_of_piece(piece);
    lemma_piece_len(piece);
    assert(seq![DOT].len() == 1);
    if piece == seq![DOT] {
        assert(path_components(piece) =~= seq![piece]);
    } else {
        assert(first_piece(piece) == piece);
        if piece.len() > 0 {
            assert(piece[0] != SLASH);
            assert(path_components(piece) =~= seq![piece]);
        } else {
            assert(path_components(piece) =~= Seq::empty());
        }
    }
    let path = base + seq![SLASH] + piece;
    lemma_named_pieces_of_concat(base, piece);
    lemma_first_piece_of_concat(base, piece);
    if base.len() > 0 {
        assert(path[0] == base[0]);
        if is_named(piece) {
            assert(path_components(path) =~= path_components(base).push(piece));
        } else {
            assert(path_components(path) =~= path_components(base));
        }
    }
    let rooted = seq![SLASH] + piece;
    let none = Seq::<u8>::empty();
    assert(rooted =~= none + seq![SLASH] + piece);
    lemma_named_pieces_of_concat(none, piece);
    assert(rooted[0] == SLASH);
    if is_named(piece) {
        assert(path_components(rooted) =~= seq![seq![SLASH], piece]);
    } else {
        assert(path_components(rooted) =~= seq![seq![SLASH]]);
    }
}

/// The file name of a path is the piece behind its last slash. If that piece is empty or `.`, it is the
/// file name of what is in front of the slash, and if it is `..`, there is none.
pub proof fn law_path_file_name(base: Seq<u8>, piece: Seq<u8>)
    requires
        forall|i: int| 0 <= i < piece.len() ==> piece[i] != 0x2f,
    ensures
        path_file_name(piece) == if piece.len() == 0 || piece == seq![0x2eu8] || piece == seq![
            0x2eu8,
            0x2e,
        ] {
            None
        } else {
            Some(piece)
        },
        path_file_name(base + seq![0x2f] + piece) == if piece.len() == 0 || piece == seq![0x2eu8] {
            path_file_name(base)
        } else if piece == seq![0x2eu8, 0x2e] {
            None
        } else {
            Some(piece)
        },
{
    law_components(base, piece);
    law_entry_names(piece);
    let root = seq![0x2fu8];
    assert(root[0] == 0x2f);
    law_entry_names(root);
    if base.len() == 0 {
        assert(base + seq![0x2f] + piece =~= seq![0x2f] + piece);
        law_components(Seq::empty(), Seq::empty());
        assert(base =~= Seq::empty());
    }
}

/// A path joined with an absolute one is that path, and a name joined to nothing is the name. Otherwise
/// the name comes behind the base, with a single slash between them.
pub proof fn law_joined(base: Seq<u8>, name: Seq<u8>)
    ensures
        joined(base, seq![0x2f] + name) == seq![0x2f] + name,
        name.len() == 0 || name[0] != 0x2f ==> {
            &&& joined(Seq::empty(), name) == name
            &&& joined(base + seq![0x2f], name) == base + seq![0x2f] + name
            &&& base.len() > 0 && base.last() != 0x2f ==> joined(base, name) == base + seq![0x2f]
                + name
        },
{
    assert((seq![SLASH] + name)[0] == SLASH);
    assert((base + seq![SLASH]).last() == SLASH);
    assert(Seq::<u8>::empty() + name =~= name);
}

proof fn lemma_trim_front_of_concat(a: Seq<u8>, b: Seq<u8>)
    requires
        named_pieces(a).len() > 0,
    ensures
        trim_front(a + seq![SLASH] + b) == trim_front(a) + seq![SLASH] + b,
        trim_front(a).len() > 0,
    decreases a.len(),
{
    lemma_first_piece_of_concat(a, b);
    lemma_piece_len(a);
    if !is_named(first_piece(a)) {
        if piece_len(a) >= a.len() {
            assert(named_pieces(after_piece(a)).len() == 0);
        }
        lemma_trim_front_of_concat(after_piece(a), b);
    }
}

proof fn lemma_trim_back_of_concat(a: Seq<u8>, piece: Seq<u8>)
    requires
        !piece.contains(SLASH),
        !is_named(piece),
    ensures
        trim_back(a + seq![SLASH] + piece) == trim_back(a),
{
    let s = a + seq![SLASH] + piece;
    assert(s[a.len() as int] == SLASH);
    assert forall|i: int| a.len() + 1 <= i < s.len() implies s[i] != SLASH by {
        assert(piece.contains(piece[i - a.len() - 1]));
    }
    lemma_last_piece_start_is(s, a.len() as int + 1);
    assert(last_piece(s) =~= piece);
    assert(before_last_piece(s) =~= a);
}

/// A path that leads neither through the home directory nor just to the current directory is left as it
/// is, byte for byte, and a path that leads just to one of the two becomes `.`.
pub proof fn law_sanitized_elsewhere(s: Seq<u8>)
    ensures
        path_components(s).len() == 0 ==> sanitized(s) == seq![0x2eu8],
        path_components(s) == seq![seq![0x2eu8]] ==> sanitized(s) == seq![0x2eu8],
        path_components(s) == seq![seq![0x7eu8]] ==> sanitized(s) == seq![0x2eu8],
        path_components(s).len() > 0 && path_components(s)[0] != seq![0x7eu8] && path_components(s)
            != seq![seq![0x2eu8]] ==> sanitized(s) == s,
{
    assert(seq![seq![TILDE]][0] == seq![TILDE]);
}

/// Below the home directory, the `~` becomes `.` and the rest stays as it is, byte for byte, if it
/// neither starts nor ends with a slash or with a piece that is just `.`.
pub proof fn law_sanitized_below_home(rest: Seq<u8>)
    requires
        rest.len() > 0,
        rest[0] != 0x2f,
        rest.last() != 0x2f,
        rest[0] == 0x2e ==> rest.len() > 1 && rest[1] != 0x2f,
        rest.last() == 0x2e ==> rest.len() > 1 && rest[rest.len() - 2] != 0x2f,
    ensures
        sanitized(seq![0x7e, 0x2f] + rest) == seq![0x2e, 0x2f] + rest,
{
    let s = seq![TILDE, SLASH] + rest;
    lemma_home(rest);
    lemma_piece_len(rest);
    lemma_last_piece(rest);
    assert(is_named(first_piece(rest))) by {
        if first_piece(rest) == seq![DOT] {
            assert(seq![DOT].len() == 1 && seq![DOT][0] == DOT);
            assert(first_piece(rest)[0] == rest[0]);
        }
    }
    assert(is_named(last_piece(rest))) by {
        let start = last_piece_start(rest);
        assert(start < rest.len());
        if last_piece(rest) == seq![DOT] {
            assert(seq![DOT].len() == 1 && seq![DOT][0] == DOT);
            assert(last_piece(rest).last() == rest.last());
        }
    }
    assert(named_pieces(rest).len() > 0);
    assert(trim_back(trim_front(rest)) == rest);
}

proof fn lemma_home(rest: Seq<u8>)
    ensures
        first_piece(seq![TILDE, SLASH] + rest) == seq![TILDE],
        after_piece(seq![TILDE, SLASH] + rest) == rest,
        path_components(seq![TILDE, SLASH] + rest) == seq![seq![TILDE]] + named_pieces(rest),
        sanitized(seq![TILDE, SLASH] + rest) == if named_pieces(rest).len() == 0 {
            seq![DOT]
        } else {
            seq![DOT, SLASH] + trim_back(trim_front(rest))
        },
{
    let home = seq![TILDE];
    let s = seq![TILDE, SLASH] + rest;
    assert(s =~= home + seq![SLASH] + rest);
    assert(!home.contains(SLASH));
    assert(home[0] == TILDE && seq![DOT][0] == DOT);
    lemma_named_pieces_of_piece(home);
    lemma_first_piece_of_concat(home, rest);
    lemma_named_pieces_of_concat(home, rest);
    lemma_piece_len_is(home, 1);
    assert(s[0] == TILDE);
    let parts = path_components(s);
    assert(parts =~= seq![home] + named_pieces(rest));
    if named_pieces(rest).len() == 0 {
        assert(parts =~= seq![home]);
    } else {
        assert(parts.len() > 1);
        assert(parts[0] == home);
    }
}

/// Below the home directory, slashes and pieces that are just `.` make no difference at the start and
/// at the end of the rest.
pub proof fn law_sanitized_ends(rest: Seq<u8>)
    ensures
        sanitized(seq![0x7e, 0x2f] + (seq![0x2f] + rest)) == sanitized(seq![0x7e, 0x2f] + rest),
        sanitized(seq![0x7e, 0x2f] + (seq![0x2e, 0x2f] + rest)) == sanitized(
            seq![0x7e, 0x2f] + rest,
        ),
        sanitized(seq![0x7e, 0x2f] + (rest + seq![0x2f])) == sanitized(seq![0x7e, 0x2f] + rest),
        sanitized(seq![0x7e, 0x2f] + (rest + seq![0x2f, 0x2e])) == sanitized(
            seq![0x7e, 0x2f] + rest,
        ),
{
    let none = Seq::<u8>::empty();
    let dot = seq![DOT];
    lemma_dot();
    lemma_home(rest);
    assert(!none.contains(SLASH));
    assert(!dot.contains(SLASH));
    lemma_named_pieces_of_piece(none);
    // In front of the rest
    let slashed = seq![SLASH] + rest;
    assert(slashed =~= none + seq![SLASH] + rest);
    lemma_home(slashed);
    lemma_named_pieces_of_concat(none, rest);
    lemma_first_piece_of_concat(none, rest);
    assert(named_pieces(slashed) =~= named_pieces(rest));
    assert(trim_front(slashed) == trim_front(rest));
    let dotted = seq![DOT, SLASH] + rest;
    assert(dotted =~= dot + seq![SLASH] + rest);
    lemma_home(dotted);
    lemma_named_pieces_of_concat(dot, rest);
    lemma_first_piece_of_concat(dot, rest);
    lemma_piece_len_is(dot, 1);
    assert(named_pieces(dotted) =~= named_pieces(rest));
    assert(trim_front(dotted) == trim_front(rest));
    // Behind the rest
    let ended = rest + seq![SLASH];
    assert(ended =~= rest + seq![SLASH] + none);
    lemma_home(ended);
    lemma_named_pieces_of_concat(rest, none);
    assert(named_pieces(ended) =~= named_pieces(rest));
    let pointed = rest + seq![SLASH, DOT];
    assert(pointed =~= rest + seq![SLASH] + dot);
    lemma_home(pointed);
    lemma_named_pieces_of_concat(rest, dot);
    assert(named_pieces(pointed) =~= named_pieces(rest));
    if named_pieces(rest).len() > 0 {
        lemma_trim_front_of_concat(rest, none);
        lemma_trim_front_of_concat(rest, dot);
        lemma_trim_back_of_concat(trim_front(rest), none);
        lemma_trim_back_of_concat(trim_front(rest), dot);
    }
}

} // verus!
