//! Character-level helpers shared by the wire formats.
use vstd::prelude::*;

verus! {

/// The pieces of `s` between separators, where a separator is any
/// character equal to `a` or `b`. Empty pieces are kept, so a string with
/// `k` separators has `k + 1` pieces.
pub open spec fn fields_of(s: Seq<char>, a: char, b: char) -> Seq<Seq<char>>
    decreases s.len(),
{
    if s.len() == 0 {
        seq![Seq::<char>::empty()]
    } else {
        let init = fields_of(s.drop_last(), a, b);
        let c = s.last();
        if c == a || c == b {
            init.push(Seq::<char>::empty())
        } else {
            init.update(init.len() - 1, init.last().push(c))
        }
    }
}

pub proof fn lemma_fields_nonempty(s: Seq<char>, a: char, b: char)
    ensures
        fields_of(s, a, b).len() >= 1,
    decreases s.len(),
{
    if s.len() > 0 {
        lemma_fields_nonempty(s.drop_last(), a, b);
    }
}

/// `t` holds neither `a` nor `b`.
pub open spec fn free_of(t: Seq<char>, a: char, b: char) -> bool {
    !t.contains(a) && !t.contains(b)
}

/// Appending text without separators extends the last field.
pub proof fn lemma_fields_extend(x: Seq<char>, t: Seq<char>, a: char, b: char)
    requires
        free_of(t, a, b),
    ensures
        fields_of(x + t, a, b) == fields_of(x, a, b).update(
            fields_of(x, a, b).len() - 1,
            fields_of(x, a, b).last() + t,
        ),
    decreases t.len(),
{
    lemma_fields_nonempty(x, a, b);
    let f = fields_of(x, a, b);
    if t.len() == 0 {
        assert(x + t =~= x);
        assert(f.last() + t =~= f.last());
        assert(f.update(f.len() - 1, f.last() + t) =~= f);
    } else {
        let u = t.drop_last();
        let c = t.last();
        assert(!u.contains(a) && !u.contains(b)) by {
            if u.contains(a) {
                let k = choose|k: int| 0 <= k < u.len() && u[k] == a;
                assert(t[k] == a);
            }
            if u.contains(b) {
                let k = choose|k: int| 0 <= k < u.len() && u[k] == b;
                assert(t[k] == b);
            }
        }
        assert(c != a && c != b) by {
            assert(t[t.len() - 1] == c);
        }
        lemma_fields_extend(x, u, a, b);
        assert((x + t).drop_last() =~= x + u);
        assert((x + t).last() == c);
        let g = fields_of(x + u, a, b);
        assert(g.last() == f.last() + u);
        assert(g.last().push(c) =~= f.last() + t);
        assert(fields_of(x + t, a, b) =~= f.update(f.len() - 1, f.last() + t));
    }
}

/// A separator starts a new, empty field.
pub proof fn lemma_fields_separator(x: Seq<char>, a: char, b: char)
    ensures
        fields_of(x.push(a), a, b) == fields_of(x, a, b).push(Seq::<char>::empty()),
{
    assert(x.push(a).drop_last() =~= x);
}

/// A character that is no separator lies in some field.
pub proof fn lemma_char_in_some_field(s: Seq<char>, a: char, b: char, k: int)
    requires
        0 <= k < s.len(),
        s[k] != a,
        s[k] != b,
    ensures
        exists|j: int|
            0 <= j < fields_of(s, a, b).len() && (#[trigger] fields_of(s, a, b)[j]).contains(s[k]),
    decreases s.len(),
{
    let init = fields_of(s.drop_last(), a, b);
    let f = fields_of(s, a, b);
    lemma_fields_nonempty(s.drop_last(), a, b);
    if k == s.len() - 1 {
        let j = init.len() - 1;
        assert(f[j] == init.last().push(s[k]));
        assert(f[j][f[j].len() - 1] == s[k]);
    } else {
        assert(s.drop_last()[k] == s[k]);
        lemma_char_in_some_field(s.drop_last(), a, b, k);
        let j = choose|j: int| 0 <= j < init.len() && (#[trigger] init[j]).contains(s[k]);
        let w = choose|w: int| 0 <= w < init[j].len() && init[j][w] == s[k];
        assert(f[j][w] == s[k]);
    }
}

/// The views of a vector of strings.
pub open spec fn views(v: Seq<String>) -> Seq<Seq<char>> {
    v.map_values(|p: String| p@)
}

/// Splits `s` into its fields (see `fields_of`).
pub fn split_fields(s: &str, a: char, b: char) -> (r: Vec<String>)
    ensures
        views(r@) == fields_of(s@, a, b),
{
    let n = s.unicode_len();
    let mut parts: Vec<String> = Vec::new();
    let mut start: usize = 0;
    let mut i: usize = 0;
    proof {
        assert(s@.subrange(0, 0) =~= Seq::<char>::empty());
        assert(views(parts@).push(s@.subrange(0, 0)) =~= seq![Seq::<char>::empty()]);
    }
    while i < n
        invariant
            n == s@.len(),
            start <= i <= n,
            views(parts@).push(s@.subrange(start as int, i as int)) == fields_of(
                s@.subrange(0, i as int),
                a,
                b,
            ),
        decreases n - i,
    {
        let c = s.get_char(i);
        let ghost prev = s@.subrange(0, i as int);
        let ghost cur = s@.subrange(0, i + 1);
        proof {
            assert(cur.drop_last() =~= prev);
            assert(cur.last() == c);
            lemma_fields_nonempty(prev, a, b);
        }
        if c == a || c == b {
            let piece = s.substring_char(start, i);
            let ghost before = views(parts@);
            parts.push(String::from_str(piece));
            start = i + 1;
            proof {
                assert(views(parts@) =~= before.push(piece@));
                assert(s@.subrange(start as int, i + 1) =~= Seq::<char>::empty());
            }
        } else {
            proof {
                assert(s@.subrange(start as int, i + 1) =~= s@.subrange(
                    start as int,
                    i as int,
                ).push(c));
            }
        }
        i += 1;
    }
    let last = s.substring_char(start, n);
    let ghost before = views(parts@);
    parts.push(String::from_str(last));
    proof {
        assert(views(parts@) =~= before.push(last@));
        assert(s@.subrange(0, n as int) =~= s@);
    }
    parts
}

/// Whether `s` holds the character `c`.
pub fn contains_char(s: &str, c: char) -> (r: bool)
    ensures
        r == s@.contains(c),
{
    let n = s.unicode_len();
    let mut i: usize = 0;
    while i < n
        invariant
            n == s@.len(),
            i <= n,
            forall|j: int| 0 <= j < i ==> s@[j] != c,
        decreases n - i,
    {
        if s.get_char(i) == c {
            return true;
        }
        i += 1;
    }
    false
}

/// Whether `s` is exactly the characters of `t`.
pub fn same_text(s: &str, t: &str) -> (r: bool)
    ensures
        r == (s@ == t@),
{
    let n = s.unicode_len();
    if n != t.unicode_len() {
        return false;
    }
    let mut i: usize = 0;
    while i < n
        invariant
            n == s@.len(),
            n == t@.len(),
            i <= n,
            forall|j: int| 0 <= j < i ==> s@[j] == t@[j],
        decreases n - i,
    {
        if s.get_char(i) != t.get_char(i) {
            return false;
        }
        i += 1;
    }
    assert(s@ =~= t@);
    true
}

/// Whether `s` begins with the characters of `p`.
pub fn starts_with_text(s: &str, p: &str) -> (r: bool)
    ensures
        r == (p@.len() <= s@.len() && s@.subrange(0, p@.len() as int) == p@),
{
    let n = p.unicode_len();
    if n > s.unicode_len() {
        return false;
    }
    let mut i: usize = 0;
    while i < n
        invariant
            n == p@.len(),
            n <= s@.len(),
            i <= n,
            forall|j: int| 0 <= j < i ==> s@[j] == p@[j],
        decreases n - i,
    {
        if s.get_char(i) != p.get_char(i) {
            assert(s@.subrange(0, n as int)[i as int] != p@[i as int]);
            return false;
        }
        i += 1;
    }
    assert(s@.subrange(0, n as int) =~= p@);
    true
}

} // verus!
