//! Paths as texts whose components a slash separates.
//!
//! A path is read by its components: separators that follow one another
//! count as one, a separator at the end counts for nothing, and a component
//! `.` is passed over unless the path starts with it. Two paths that read
//! the same are the same path.

use crate::utils::text::{from_chars, to_chars};
use vstd::prelude::*;

verus! {

/// What separates the components of a path.
pub const SEPARATOR: char = '/';

/// The part that stands for the root of an absolute path. No component is
/// like it, since no component holds a separator.
pub open spec fn root() -> Seq<char> {
    seq![SEPARATOR]
}

/// The component that stands for the directory itself.
pub open spec fn current() -> Seq<char> {
    seq!['.']
}

/// The component that stands for the directory above.
pub open spec fn upward() -> Seq<char> {
    seq!['.', '.']
}

/// A path cut at its separators: the runs of other characters that a
/// separator has ended, in order, and the run that none has ended yet.
pub open spec fn cut(path: Seq<char>) -> (Seq<Seq<char>>, Seq<char>)
    decreases path.len(),
{
    if path.len() == 0 {
        (Seq::empty(), Seq::empty())
    } else {
        let (ended, run) = cut(path.drop_last());
        if path.last() == SEPARATOR {
            (
                if run.len() > 0 {
                    ended.push(run)
                } else {
                    ended
                },
                Seq::empty(),
            )
        } else {
            (ended, run.push(path.last()))
        }
    }
}

/// The pieces of a path: its runs of characters other than the separator, in
/// order. None of them is empty.
pub open spec fn pieces(path: Seq<char>) -> Seq<Seq<char>> {
    let (ended, run) = cut(path);
    if run.len() > 0 {
        ended.push(run)
    } else {
        ended
    }
}

/// The path starts at the root.
pub open spec fn is_absolute(path: Seq<char>) -> bool {
    path.len() > 0 && path[0] == SEPARATOR
}

/// The first `upto` pieces without those that read `.`; only the first piece
/// of a path that does not start at the root is kept though it reads so.
pub open spec fn kept(pieces: Seq<Seq<char>>, absolute: bool, upto: int) -> Seq<Seq<char>>
    decreases upto,
{
    if upto <= 0 {
        Seq::empty()
    } else {
        let before = kept(pieces, absolute, upto - 1);
        if pieces[upto - 1] != current() || (upto == 1 && !absolute) {
            before.push(pieces[upto - 1])
        } else {
            before
        }
    }
}

/// The components of a path, in order.
pub open spec fn components(path: Seq<char>) -> Seq<Seq<char>> {
    kept(pieces(path), is_absolute(path), pieces(path).len() as int)
}

/// The parts of a path: the root, where the path starts there, and then its
/// components.
pub open spec fn parts(path: Seq<char>) -> Seq<Seq<char>> {
    if is_absolute(path) {
        seq![root()] + components(path)
    } else {
        components(path)
    }
}

/// The texts with one separator between each two of them.
pub open spec fn joined(texts: Seq<Seq<char>>) -> Seq<char>
    decreases texts.len(),
{
    if texts.len() == 0 {
        Seq::empty()
    } else if texts.len() == 1 {
        texts[0]
    } else {
        joined(texts.drop_last()) + seq![SEPARATOR] + texts.last()
    }
}

/// The path that has the given parts, written with one separator between
/// its components.
pub open spec fn path_text(parts: Seq<Seq<char>>) -> Seq<char> {
    if parts.len() > 0 && parts[0] == root() {
        root() + joined(parts.drop_first())
    } else {
        joined(parts)
    }
}

/// A path written by its parts alone. Two paths have the same parts where
/// they read the same.
pub open spec fn normal_form(path: Seq<char>) -> Seq<char> {
    path_text(parts(path))
}

/// `front` are the first of `parts`.
pub open spec fn starts_with_parts(parts: Seq<Seq<char>>, front: Seq<Seq<char>>) -> bool {
    front.len() <= parts.len() && parts.take(front.len() as int) == front
}

/// `path` as seen from the directory `base`: the parts of `path` that follow
/// those of `base`, written as a path. `None` where the parts of `base` are
/// not the first parts of `path`.
pub open spec fn relative_to(path: Seq<char>, base: Seq<char>) -> Option<Seq<char>> {
    if starts_with_parts(parts(path), parts(base)) {
        Some(path_text(parts(path).skip(parts(base).len() as int)))
    } else {
        None
    }
}

/// The part is the name of a file or of a directory: not the root, and not
/// one of the two components that stand for a directory.
pub open spec fn is_name(part: Seq<char>) -> bool {
    part != root() && part != current() && part != upward()
}

/// The name of the file or directory that a path leads to: its last
/// component. A path without a component has none, and neither has one that
/// ends in the directory itself or the directory above.
pub open spec fn file_name_of(path: Seq<char>) -> Option<Seq<char>> {
    let parts = parts(path);
    if parts.len() > 0 && is_name(parts.last()) {
        Some(parts.last())
    } else {
        None
    }
}

/// The directory that holds what a path leads to: the path without its last
/// component. A path without a component, the root among them, is its own
/// directory.
pub open spec fn directory_of(path: Seq<char>) -> Seq<char> {
    let parts = parts(path);
    if parts.len() > 0 && parts.last() != root() {
        path_text(parts.drop_last())
    } else {
        path_text(parts)
    }
}

/// `relative` as seen from `directory`: a path that starts at the root stays
/// as it is, any other follows the directory.
pub open spec fn resolve_from(directory: Seq<char>, relative: Seq<char>) -> Seq<char> {
    if relative.len() > 0 && relative[0] == SEPARATOR {
        relative
    } else if directory.len() == 0 || directory.last() == SEPARATOR {
        directory + relative
    } else {
        directory + seq![SEPARATOR] + relative
    }
}

/// A path that does not start at the root and is not empty has a piece.
pub proof fn lemma_relative_path_has_a_piece(path: Seq<char>)
    requires
        path.len() > 0,
        path[0] != SEPARATOR,
    ensures
        cut(path).0.len() > 0 || cut(path).1.len() > 0,
        pieces(path).len() > 0,
    decreases path.len(),
{
    if path.len() > 1 {
        assert(path.drop_last()[0] == path[0]);
        lemma_relative_path_has_a_piece(path.drop_last());
    } else {
        assert(path.drop_last().len() == 0);
    }
}

/// What is kept of the first pieces does not depend on the pieces behind
/// them.
pub proof fn lemma_kept_of_the_first(
    pieces: Seq<Seq<char>>,
    longer: Seq<Seq<char>>,
    absolute: bool,
    upto: int,
)
    requires
        0 <= upto <= pieces.len() <= longer.len(),
        forall|i: int| 0 <= i < pieces.len() ==> pieces[i] == longer[i],
    ensures
        kept(longer, absolute, upto) == kept(pieces, absolute, upto),
    decreases upto,
{
    if upto > 0 {
        lemma_kept_of_the_first(pieces, longer, absolute, upto - 1);
    }
}

/// A separator at the end of a path counts for nothing: the path has the
/// parts that it has without it, and so the same name, the same directory
/// and the same place under any base.
pub proof fn lemma_separator_at_the_end(path: Seq<char>)
    requires
        path.len() > 0,
    ensures
        parts(path.push(SEPARATOR)) == parts(path),
        file_name_of(path.push(SEPARATOR)) == file_name_of(path),
        directory_of(path.push(SEPARATOR)) == directory_of(path),
        normal_form(path.push(SEPARATOR)) == normal_form(path),
        forall|other: Seq<char>|
            #[trigger] relative_to(path.push(SEPARATOR), other) == relative_to(path, other),
        forall|other: Seq<char>|
            #[trigger] relative_to(other, path.push(SEPARATOR)) == relative_to(other, path),
{
    let longer = path.push(SEPARATOR);
    assert(longer.drop_last() == path);
    assert(longer[0] == path[0]);
    assert(pieces(longer) == pieces(path));
}

/// A component `.` at the end of a path counts for nothing: the path has the
/// parts that it has without it.
pub proof fn lemma_current_at_the_end(path: Seq<char>)
    requires
        path.len() > 0,
    ensures
        parts(path.push(SEPARATOR).push('.')) == parts(path),
        file_name_of(path.push(SEPARATOR).push('.')) == file_name_of(path),
        normal_form(path.push(SEPARATOR).push('.')) == normal_form(path),
{
    let ended = path.push(SEPARATOR);
    let longer = ended.push('.');
    lemma_separator_at_the_end(path);
    assert(ended.drop_last() == path);
    assert(longer.drop_last() == ended);
    assert(longer[0] == path[0]);
    let before = pieces(path);
    assert(cut(ended) == (before, Seq::<char>::empty()));
    assert(Seq::<char>::empty().push('.') =~= current());
    assert(pieces(longer) == before.push(current()));
    let absolute = is_absolute(path);
    if !absolute {
        lemma_relative_path_has_a_piece(path);
    }
    lemma_kept_of_the_first(before, before.push(current()), absolute, before.len() as int);
}

/// The lower-case form of an ASCII letter; any other character as it is.
pub open spec fn ascii_lower(c: char) -> char {
    if 'A' <= c <= 'Z' {
        ((c as u8) + 32) as char
    } else {
        c
    }
}

/// Two texts are the same but for the case of their ASCII letters.
pub open spec fn same_ignoring_ascii_case(a: Seq<char>, b: Seq<char>) -> bool {
    a.len() == b.len() && forall|i: int| 0 <= i < a.len() ==> ascii_lower(a[i]) == ascii_lower(b[i])
}

/// The lower-case form of an ASCII letter; any other character as it is.
pub fn to_ascii_lower(c: char) -> (r: char)
    ensures
        r == ascii_lower(c),
{
    if 'A' <= c && c <= 'Z' {
        ((c as u8) + 32) as char
    } else {
        c
    }
}

/// Whether two texts are the same but for the case of their ASCII letters.
pub fn eq_ignore_ascii_case(a: &Vec<char>, b: &Vec<char>) -> (r: bool)
    ensures
        r == same_ignoring_ascii_case(a@, b@),
{
    if a.len() != b.len() {
        return false;
    }
    let mut i: usize = 0;
    while i < a.len()
        invariant
            a.len() == b.len(),
            i <= a.len(),
            forall|k: int| 0 <= k < i ==> ascii_lower(a@[k]) == ascii_lower(b@[k]),
        decreases a.len() - i,
    {
        if to_ascii_lower(a[i]) != to_ascii_lower(b[i]) {
            return false;
        }
        i += 1;
    }
    true
}

/// The texts that a list of parts holds, in order.
pub open spec fn parts_view(parts: Seq<Vec<char>>) -> Seq<Seq<char>> {
    parts.map_values(|p: Vec<char>| p@)
}

/// Whether two texts hold the same characters.
pub fn same_chars(a: &Vec<char>, b: &Vec<char>) -> (r: bool)
    ensures
        r == (a@ == b@),
{
    if a.len() != b.len() {
        return false;
    }
    let mut i: usize = 0;
    while i < a.len()
        invariant
            a.len() == b.len(),
            i <= a.len(),
            forall|k: int| 0 <= k < i ==> a@[k] == b@[k],
        decreases a.len() - i,
    {
        if a[i] != b[i] {
            return false;
        }
        i += 1;
    }
    proof {
        assert(a@ =~= b@);
    }
    true
}

/// A copy of a text.
pub fn copy_chars(v: &Vec<char>) -> (r: Vec<char>)
    ensures
        r@ == v@,
{
    let mut out: Vec<char> = Vec::new();
    let mut i: usize = 0;
    while i < v.len()
        invariant
            i <= v@.len(),
            out@ == v@.take(i as int),
        decreases v@.len() - i,
    {
        out.push(v[i]);
        proof {
            assert(v@.take(i + 1) == v@.take(i as int).push(v@[i as int]));
        }
        i += 1;
    }
    proof {
        assert(v@.take(v@.len() as int) == v@);
    }
    out
}

/// The pieces of a path.
pub fn path_pieces(path: &Vec<char>) -> (r: Vec<Vec<char>>)
    ensures
        parts_view(r@) == pieces(path@),
{
    let mut ended: Vec<Vec<char>> = Vec::new();
    let mut run: Vec<char> = Vec::new();
    let mut i: usize = 0;
    proof {
        assert(path@.take(0) =~= Seq::empty());
        assert(parts_view(ended@) =~= Seq::empty());
    }
    while i < path.len()
        invariant
            i <= path@.len(),
            cut(path@.take(i as int)) == (parts_view(ended@), run@),
        decreases path@.len() - i,
    {
        let c = path[i];
        proof {
            assert(path@.take(i + 1).drop_last() == path@.take(i as int));
            assert(path@.take(i + 1).last() == c);
        }
        if c == SEPARATOR {
            if run.len() > 0 {
                let ghost before = ended@;
                let ghost text = run@;
                ended.push(run);
                proof {
                    assert(parts_view(ended@) =~= parts_view(before).push(text));
                }
            }
            run = Vec::new();
        } else {
            run.push(c);
        }
        i += 1;
    }
    proof {
        assert(path@.take(path@.len() as int) == path@);
    }
    if run.len() > 0 {
        let ghost before = ended@;
        let ghost text = run@;
        ended.push(run);
        proof {
            assert(parts_view(ended@) =~= parts_view(before).push(text));
        }
    }
    ended
}

/// The parts of a path.
pub fn path_parts(path: &str) -> (r: Vec<Vec<char>>)
    ensures
        parts_view(r@) == parts(path@),
{
    let chars = to_chars(path);
    let found = path_pieces(&chars);
    let absolute = chars.len() > 0 && chars[0] == SEPARATOR;
    let mut out: Vec<Vec<char>> = Vec::new();
    if absolute {
        let mut first: Vec<char> = Vec::new();
        first.push(SEPARATOR);
        out.push(first);
    }
    let ghost front = parts_view(out@);
    let ghost all = pieces(path@);
    let mut k: usize = 0;
    proof {
        assert(front =~= if absolute {
            seq![root()]
        } else {
            Seq::empty()
        });
        assert(front + kept(all, absolute, 0) =~= front);
    }
    while k < found.len()
        invariant
            k <= found@.len(),
            all == parts_view(found@),
            parts_view(out@) == front + kept(all, absolute, k as int),
        decreases found@.len() - k,
    {
        let piece = &found[k];
        let reads_current = piece.len() == 1 && piece[0] == '.';
        proof {
            assert(all[k as int] == piece@);
            assert(reads_current == (piece@ == current())) by {
                if reads_current {
                    assert(piece@ =~= current());
                }
            }
        }
        if !reads_current || (k == 0 && !absolute) {
            let ghost before = out@;
            out.push(copy_chars(piece));
            proof {
                assert(parts_view(out@) =~= parts_view(before).push(piece@));
                assert(front + kept(all, absolute, k as int).push(piece@) =~= (front + kept(
                    all,
                    absolute,
                    k as int,
                )).push(piece@));
            }
        }
        k += 1;
    }
    out
}

/// The texts from the `from`-th on, with one separator between each two.
pub fn join_from(texts: &Vec<Vec<char>>, from: usize, out: &mut Vec<char>)
    requires
        from <= texts@.len(),
    ensures
        final(out)@ == old(out)@ + joined(parts_view(texts@).skip(from as int)),
{
    let ghost all = parts_view(texts@);
    let ghost start = out@;
    let mut k: usize = from;
    proof {
        assert(all.subrange(from as int, from as int) =~= Seq::empty());
        assert(start + Seq::<char>::empty() =~= start);
    }
    while k < texts.len()
        invariant
            from <= k <= texts@.len(),
            all == parts_view(texts@),
            out@ == start + joined(all.subrange(from as int, k as int)),
        decreases texts@.len() - k,
    {
        let ghost so_far = all.subrange(from as int, k as int);
        let ghost with_next = all.subrange(from as int, k + 1);
        proof {
            assert(with_next.drop_last() =~= so_far);
            assert(with_next.last() == texts@[k as int]@);
        }
        if k > from {
            out.push(SEPARATOR);
        }
        let ghost before = out@;
        let text = &texts[k];
        let mut i: usize = 0;
        while i < text.len()
            invariant
                i <= text@.len(),
                out@ == before + text@.take(i as int),
            decreases text@.len() - i,
        {
            out.push(text[i]);
            proof {
                assert(text@.take(i + 1) == text@.take(i as int).push(text@[i as int]));
            }
            i += 1;
        }
        proof {
            assert(text@.take(text@.len() as int) == text@);
            if k > from {
                assert(out@ =~= start + (joined(so_far) + seq![SEPARATOR] + text@));
            } else {
                assert(so_far.len() == 0);
                assert(out@ =~= start + text@);
            }
        }
        k += 1;
    }
    proof {
        assert(all.subrange(from as int, texts@.len() as int) =~= all.skip(from as int));
    }
}

/// The path that has the parts from the `from`-th on.
pub fn text_of_parts(parts: &Vec<Vec<char>>, from: usize) -> (r: String)
    requires
        from <= parts@.len(),
    ensures
        r@ == path_text(parts_view(parts@).skip(from as int)),
{
    let mut out: Vec<char> = Vec::new();
    let ghost rest = parts_view(parts@).skip(from as int);
    if from < parts.len() && parts[from].len() == 1 && parts[from][0] == SEPARATOR {
        out.push(SEPARATOR);
        proof {
            assert(rest[0] == parts@[from as int]@);
            assert(parts@[from as int]@ =~= root());
            assert(out@ =~= root());
            assert(rest.drop_first() =~= parts_view(parts@).skip(from + 1));
        }
        join_from(parts, from + 1, &mut out);
    } else {
        proof {
            if from < parts@.len() {
                assert(rest[0] == parts@[from as int]@);
                assert(rest[0] != root()) by {
                    if rest[0] == root() {
                        assert(root().len() == 1 && root()[0] == SEPARATOR);
                    }
                }
            }
            assert(Seq::<char>::empty() + joined(rest) =~= joined(rest));
        }
        join_from(parts, from, &mut out);
    }
    from_chars(&out)
}

/// A path written by its parts alone.
pub fn normal(path: &str) -> (r: String)
    ensures
        r@ == normal_form(path@),
{
    let parts = path_parts(path);
    proof {
        assert(parts_view(parts@).skip(0) =~= parts_view(parts@));
    }
    text_of_parts(&parts, 0)
}

/// The name of the file or directory that a path leads to.
pub fn file_name(path: &str) -> (r: Option<String>)
    ensures
        match r {
            Some(name) => file_name_of(path@) == Some(name@),
            None => file_name_of(path@).is_none(),
        },
{
    let parts = path_parts(path);
    if parts.len() == 0 {
        return None;
    }
    let last = &parts[parts.len() - 1];
    proof {
        assert(parts_view(parts@).last() == last@);
    }
    let is_root = last.len() == 1 && last[0] == SEPARATOR;
    let is_current = last.len() == 1 && last[0] == '.';
    let is_upward = last.len() == 2 && last[0] == '.' && last[1] == '.';
    proof {
        if is_root {
            assert(last@ =~= root());
        }
        if is_current {
            assert(last@ =~= current());
        }
        if is_upward {
            assert(last@ =~= upward());
        }
    }
    if is_root || is_current || is_upward {
        None
    } else {
        Some(from_chars(last))
    }
}

/// The directory that holds what a path leads to.
pub fn directory(path: &str) -> (r: String)
    ensures
        r@ == directory_of(path@),
{
    let mut parts = path_parts(path);
    let n = parts.len();
    let ghost all = parts_view(parts@);
    if n > 0 && !(parts[n - 1].len() == 1 && parts[n - 1][0] == SEPARATOR) {
        proof {
            assert(all.last() == parts@[n - 1]@);
            assert(all.last() != root()) by {
                if all.last() == root() {
                    assert(root().len() == 1 && root()[0] == SEPARATOR);
                }
            }
        }
        parts.pop();
        proof {
            assert(parts_view(parts@) =~= all.drop_last());
            assert(parts_view(parts@).skip(0) =~= parts_view(parts@));
        }
        text_of_parts(&parts, 0)
    } else {
        proof {
            if n > 0 {
                assert(all.last() == parts@[n - 1]@);
                assert(parts@[n - 1]@ =~= root());
            }
            assert(all.skip(0) =~= all);
        }
        text_of_parts(&parts, 0)
    }
}

/// A relative path as seen from a directory.
pub fn resolve(directory: &str, relative: &str) -> (r: String)
    ensures
        r@ == resolve_from(directory@, relative@),
{
    let dir = to_chars(directory);
    let rel = to_chars(relative);
    if rel.len() > 0 && rel[0] == SEPARATOR {
        return relative.to_owned();
    }
    let mut out = directory.to_owned();
    if dir.len() > 0 && dir[dir.len() - 1] != SEPARATOR {
        out.append("/");
        proof {
            reveal_strlit("/");
            assert("/"@ == seq![SEPARATOR]);
        }
    }
    out.append(relative);
    out
}

/// Whether the parts of `base` are the first parts of `path`.
pub fn starts_with(path: &Vec<Vec<char>>, base: &Vec<Vec<char>>) -> (r: bool)
    ensures
        r == starts_with_parts(parts_view(path@), parts_view(base@)),
{
    if base.len() > path.len() {
        return false;
    }
    let ghost p = parts_view(path@);
    let ghost b = parts_view(base@);
    let mut k: usize = 0;
    while k < base.len()
        invariant
            k <= base@.len() <= path@.len(),
            p == parts_view(path@),
            b == parts_view(base@),
            forall|j: int| 0 <= j < k ==> p[j] == b[j],
        decreases base@.len() - k,
    {
        if !same_chars(&path[k], &base[k]) {
            proof {
                assert(p.take(b.len() as int)[k as int] != b[k as int]);
            }
            return false;
        }
        k += 1;
    }
    proof {
        assert(p.take(b.len() as int) =~= b);
    }
    true
}

/// A path as seen from a base directory, where it lies under it.
pub fn relative(path: &str, base: &str) -> (r: Option<String>)
    ensures
        match r {
            Some(rel) => relative_to(path@, base@) == Some(rel@),
            None => relative_to(path@, base@).is_none(),
        },
{
    let p = path_parts(path);
    let b = path_parts(base);
    if starts_with(&p, &b) {
        Some(text_of_parts(&p, b.len()))
    } else {
        None
    }
}

} // verus!
