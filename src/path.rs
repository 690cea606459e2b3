//! Relative paths carried in transfer metadata, and where a received file is
//! written.
use vstd::prelude::*;
use crate::text::{
    contains_char, fields_of, lemma_char_in_some_field, lemma_fields_nonempty, split_fields, views,
};

verus! {

/// A component that names no directory step: empty, or `.`.
pub open spec fn is_skipped(c: Seq<char>) -> bool {
    c.len() == 0 || c == seq!['.']
}

/// A component that would climb out of the target directory, or that holds a
/// null byte.
pub open spec fn is_forbidden(c: Seq<char>) -> bool {
    c == seq!['.', '.'] || c.contains('\0')
}

/// The pieces of a path, where both `/` and `\` separate.
pub open spec fn raw_components(p: Seq<char>) -> Seq<Seq<char>> {
    fields_of(p, '/', '\\')
}

/// The components that are kept, in order.
pub open spec fn kept(parts: Seq<Seq<char>>) -> Seq<Seq<char>>
    decreases parts.len(),
{
    if parts.len() == 0 {
        Seq::empty()
    } else if is_skipped(parts.last()) {
        kept(parts.drop_last())
    } else {
        kept(parts.drop_last()).push(parts.last())
    }
}

/// Components joined with `/`.
pub open spec fn join_slash(parts: Seq<Seq<char>>) -> Seq<char>
    decreases parts.len(),
{
    if parts.len() == 0 {
        Seq::empty()
    } else if parts.len() == 1 {
        parts[0]
    } else {
        join_slash(parts.drop_last()) + seq!['/'] + parts.last()
    }
}

/// Whether some component of `p` is `..` or holds a null byte.
pub open spec fn is_traversal(p: Seq<char>) -> bool {
    exists|i: int| 0 <= i < raw_components(p).len() && is_forbidden(#[trigger] raw_components(p)[i])
}

/// What a relative path sanitizes to: rejected when it climbs out or holds a
/// null byte, or when nothing is left once empty and `.` components are
/// dropped; otherwise the remaining components joined with `/`.
pub open spec fn sanitized(p: Seq<char>) -> Option<Seq<char>> {
    if is_traversal(p) || kept(raw_components(p)).len() == 0 {
        None
    } else {
        Some(join_slash(kept(raw_components(p))))
    }
}

proof fn lemma_kept_step(parts: Seq<Seq<char>>, k: int)
    requires
        0 <= k < parts.len(),
    ensures
        kept(parts.subrange(0, k + 1)) == if is_skipped(parts[k]) {
            kept(parts.subrange(0, k))
        } else {
            kept(parts.subrange(0, k)).push(parts[k])
        },
{
    let next = parts.subrange(0, k + 1);
    assert(next.drop_last() =~= parts.subrange(0, k));
    assert(next.last() == parts[k]);
}

proof fn lemma_join_push(parts: Seq<Seq<char>>, c: Seq<char>)
    ensures
        join_slash(parts.push(c)) == if parts.len() == 0 {
            c
        } else {
            join_slash(parts) + seq!['/'] + c
        },
{
    let next = parts.push(c);
    assert(next.drop_last() =~= parts);
    if parts.len() == 0 {
        assert(next[0] == c);
    }
}

fn is_skipped_text(s: &str) -> (r: bool)
    ensures
        r == is_skipped(s@),
{
    let n = s.unicode_len();
    if n == 0 {
        return true;
    }
    if n == 1 && s.get_char(0) == '.' {
        assert(s@ =~= seq!['.']);
        return true;
    }
    false
}

fn is_forbidden_text(s: &str) -> (r: bool)
    ensures
        r == is_forbidden(s@),
{
    let n = s.unicode_len();
    if n == 2 && s.get_char(0) == '.' && s.get_char(1) == '.' {
        assert(s@ =~= seq!['.', '.']);
        return true;
    }
    contains_char(s, '\0')
}

/// Cleans a relative path received from a peer. Backslashes separate like
/// slashes; empty and `.` components are dropped. Returns `None` when a
/// component is `..` or holds a null byte, or when no component is left;
/// otherwise the kept components joined with `/`.
pub fn sanitize_relative_path(path: &str) -> (r: Option<String>)
    ensures
        r matches Some(s) ==> sanitized(path@) == Some(s@),
        r is None ==> sanitized(path@) is None,
{
    let parts = split_fields(path, '/', '\\');
    let ghost comps = raw_components(path@);
    let mut out = String::new();
    let mut count: usize = 0;
    let mut k: usize = 0;
    proof {
        assert(comps.subrange(0, 0) =~= Seq::<Seq<char>>::empty());
        reveal_strlit("/");
    }
    while k < parts.len()
        invariant
            views(parts@) == comps,
            comps == raw_components(path@),
            k <= parts.len(),
            count <= k,
            count == kept(comps.subrange(0, k as int)).len(),
            out@ == join_slash(kept(comps.subrange(0, k as int))),
            forall|j: int| 0 <= j < k ==> !is_forbidden(#[trigger] comps[j]),
            "/"@ == seq!['/'],
        decreases parts.len() - k,
    {
        let c = parts[k].as_str();
        assert(c@ == comps[k as int]);
        proof {
            lemma_kept_step(comps, k as int);
        }
        if is_forbidden_text(c) {
            assert(is_forbidden(raw_components(path@)[k as int]));
            return None;
        }
        if !is_skipped_text(c) {
            let ghost before = kept(comps.subrange(0, k as int));
            proof {
                lemma_join_push(before, c@);
            }
            if count > 0 {
                out.append("/");
            }
            out.append(c);
            count += 1;
        }
        k += 1;
    }
    proof {
        assert(comps.subrange(0, k as int) =~= comps);
    }
    if count == 0 {
        None
    } else {
        Some(out)
    }
}

/// A path with a `..` component, or with a null byte anywhere, is refused.
pub proof fn lemma_traversal_refused(p: Seq<char>)
    requires
        (exists|i: int|
            0 <= i < raw_components(p).len() && #[trigger] raw_components(p)[i] == seq!['.', '.'])
            || p.contains('\0'),
    ensures
        sanitized(p) is None,
{
    if p.contains('\0') {
        let k = choose|k: int| 0 <= k < p.len() && p[k] == '\0';
        lemma_char_in_some_field(p, '/', '\\', k);
        let j = choose|j: int|
            0 <= j < raw_components(p).len() && (#[trigger] raw_components(p)[j]).contains(p[k]);
        assert(is_forbidden(raw_components(p)[j]));
    }
}

/// The name a file is stored under when no relative path decides: the last
/// component of `name`, where both `/` and `\\` separate; `None` where that
/// component is empty, `.`, `..` or holds a null byte.
pub open spec fn flat_name(name: Seq<char>) -> Option<Seq<char>> {
    let c = raw_components(name).last();
    if is_skipped(c) || is_forbidden(c) {
        None
    } else {
        Some(c)
    }
}

/// See `flat_name`.
pub fn flat_name_of(name: &str) -> (r: Option<String>)
    ensures
        r matches Some(s) ==> flat_name(name@) == Some(s@),
        r is None ==> flat_name(name@) is None,
{
    let parts = split_fields(name, '/', '\\');
    proof {
        lemma_fields_nonempty(name@, '/', '\\');
    }
    let last = parts.len() - 1;
    let c = parts[last].as_str();
    assert(c@ == raw_components(name@).last());
    if is_skipped_text(c) || is_forbidden_text(c) {
        None
    } else {
        Some(String::from_str(c))
    }
}

} // verus!
