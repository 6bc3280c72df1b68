//! Character- and line-level text helpers: whitespace trimming, searching for
//! a separator character, splitting on a separator, and string equality.

use vstd::prelude::*;

verus! {

/// A character that trimming removes: the Unicode `White_Space` set, the same
/// set that `char::is_whitespace` recognizes.
pub open spec fn is_space_char(c: char) -> bool {
    c == ' ' || c == '\t' || c == '\n' || c == '\u{b}' || c == '\u{c}' || c == '\r'
        || c == '\u{85}' || c == '\u{a0}' || c == '\u{1680}'
        || c == '\u{2000}' || c == '\u{2001}' || c == '\u{2002}' || c == '\u{2003}'
        || c == '\u{2004}' || c == '\u{2005}' || c == '\u{2006}' || c == '\u{2007}'
        || c == '\u{2008}' || c == '\u{2009}' || c == '\u{200a}'
        || c == '\u{2028}' || c == '\u{2029}' || c == '\u{202f}' || c == '\u{205f}'
        || c == '\u{3000}'
}

pub fn is_space(c: char) -> (r: bool)
    ensures
        r == is_space_char(c),
{
    c == ' ' || c == '\t' || c == '\n' || c == '\u{b}' || c == '\u{c}' || c == '\r'
        || c == '\u{85}' || c == '\u{a0}' || c == '\u{1680}'
        || c == '\u{2000}' || c == '\u{2001}' || c == '\u{2002}' || c == '\u{2003}'
        || c == '\u{2004}' || c == '\u{2005}' || c == '\u{2006}' || c == '\u{2007}'
        || c == '\u{2008}' || c == '\u{2009}' || c == '\u{200a}'
        || c == '\u{2028}' || c == '\u{2029}' || c == '\u{202f}' || c == '\u{205f}'
        || c == '\u{3000}'
}

/// The position of the first occurrence of `c` in `s`, or `s.len()` when `c`
/// does not occur.
pub open spec fn first_idx(s: Seq<char>, c: char) -> int
    decreases s.len(),
{
    if s.len() == 0 {
        0
    } else if s[0] == c {
        0
    } else {
        1 + first_idx(s.drop_first(), c)
    }
}

pub proof fn lemma_first_idx_bounds(s: Seq<char>, c: char)
    ensures
        0 <= first_idx(s, c) <= s.len(),
        first_idx(s, c) < s.len() ==> s[first_idx(s, c)] == c,
        forall|i: int| 0 <= i < first_idx(s, c) ==> s[i] != c,
    decreases s.len(),
{
    if s.len() > 0 && s[0] != c {
        lemma_first_idx_bounds(s.drop_first(), c);
        assert forall|i: int| 0 <= i < first_idx(s, c) implies s[i] != c by {
            if i > 0 {
                assert(s.drop_first()[i - 1] != c);
            }
        }
    }
}

pub proof fn lemma_first_idx_found(s: Seq<char>, c: char, j: int)
    requires
        0 <= j < s.len(),
        s[j] == c,
        forall|i: int| 0 <= i < j ==> s[i] != c,
    ensures
        first_idx(s, c) == j,
    decreases s.len(),
{
    if j > 0 {
        assert(s[0] != c);
        assert(s.drop_first()[j - 1] == c);
        assert forall|i: int| 0 <= i < j - 1 implies s.drop_first()[i] != c by {
            assert(s[i + 1] != c);
        }
        lemma_first_idx_found(s.drop_first(), c, j - 1);
    }
}

pub proof fn lemma_first_idx_absent(s: Seq<char>, c: char)
    requires
        forall|i: int| 0 <= i < s.len() ==> s[i] != c,
    ensures
        first_idx(s, c) == s.len(),
    decreases s.len(),
{
    if s.len() > 0 {
        assert forall|i: int| 0 <= i < s.drop_first().len() implies s.drop_first()[i] != c by {
            assert(s[i + 1] != c);
        }
        lemma_first_idx_absent(s.drop_first(), c);
    }
}

/// The position of the first occurrence of `c` in `s`, if any.
pub fn find_char(s: &str, c: char) -> (r: Option<usize>)
    ensures
        match r {
            Some(j) => j < s@.len() && j == first_idx(s@, c),
            None => first_idx(s@, c) == s@.len(),
        },
{
    let n = s.unicode_len();
    let mut j: usize = 0;
    while j < n
        invariant
            j <= n,
            n == s@.len(),
            forall|i: int| 0 <= i < j ==> s@[i] != c,
        decreases n - j,
    {
        if s.get_char(j) == c {
            proof {
                lemma_first_idx_found(s@, c, j as int);
            }
            return Some(j);
        }
        j += 1;
    }
    proof {
        lemma_first_idx_absent(s@, c);
    }
    None
}

/// `s` with the leading run of whitespace characters removed.
pub open spec fn trim_start_spec(s: Seq<char>) -> Seq<char>
    decreases s.len(),
{
    if s.len() > 0 && is_space_char(s[0]) {
        trim_start_spec(s.drop_first())
    } else {
        s
    }
}

/// `s` with the trailing run of whitespace characters removed.
pub open spec fn trim_end_spec(s: Seq<char>) -> Seq<char>
    decreases s.len(),
{
    if s.len() > 0 && is_space_char(s.last()) {
        trim_end_spec(s.drop_last())
    } else {
        s
    }
}

/// `s` with surrounding whitespace removed.
pub open spec fn trimmed(s: Seq<char>) -> Seq<char> {
    trim_end_spec(trim_start_spec(s))
}

proof fn lemma_trim_start_prefix(s: Seq<char>, a: int)
    requires
        0 <= a <= s.len(),
        forall|i: int| 0 <= i < a ==> is_space_char(s[i]),
        a < s.len() ==> !is_space_char(s[a]),
    ensures
        trim_start_spec(s) == s.subrange(a, s.len() as int),
    decreases a,
{
    if a == 0 {
        assert(s.subrange(0, s.len() as int) =~= s);
    } else {
        assert(is_space_char(s[0]));
        let t = s.drop_first();
        assert forall|i: int| 0 <= i < a - 1 implies is_space_char(t[i]) by {
            assert(is_space_char(s[i + 1]));
        }
        lemma_trim_start_prefix(t, a - 1);
        assert(t.subrange(a - 1, t.len() as int) =~= s.subrange(a, s.len() as int));
    }
}

proof fn lemma_trim_end_suffix(s: Seq<char>, b: int)
    requires
        0 <= b <= s.len(),
        forall|i: int| b <= i < s.len() ==> is_space_char(s[i]),
        b > 0 ==> !is_space_char(s[b - 1]),
    ensures
        trim_end_spec(s) == s.subrange(0, b),
    decreases s.len() - b,
{
    if b == s.len() {
        assert(s.subrange(0, s.len() as int) =~= s);
    } else {
        assert(is_space_char(s.last()));
        let t = s.drop_last();
        lemma_trim_end_suffix(t, b);
        assert(t.subrange(0, b) =~= s.subrange(0, b));
    }
}

/// `s` with surrounding whitespace removed, as `str::trim` removes it.
pub fn trim(s: &str) -> (r: String)
    ensures
        r@ == trimmed(s@),
{
    let n = s.unicode_len();
    let mut a: usize = 0;
    while a < n && is_space(s.get_char(a))
        invariant
            a <= n,
            n == s@.len(),
            forall|i: int| 0 <= i < a ==> is_space_char(s@[i]),
        decreases n - a,
    {
        a += 1;
    }
    proof {
        lemma_trim_start_prefix(s@, a as int);
    }
    let mut b: usize = n;
    while b > a && is_space(s.get_char(b - 1))
        invariant
            a <= b <= n,
            n == s@.len(),
            forall|i: int| b <= i < n ==> is_space_char(s@[i]),
        decreases b,
    {
        b -= 1;
    }
    proof {
        let core = s@.subrange(a as int, s@.len() as int);
        assert forall|i: int| b - a <= i < core.len() implies is_space_char(core[i]) by {
            assert(is_space_char(s@[i + a]));
        }
        if b > a {
            assert(!is_space_char(core[b - a - 1]));
        }
        lemma_trim_end_suffix(core, b - a);
        assert(core.subrange(0, b - a) =~= s@.subrange(a as int, b as int));
    }
    let piece = s.substring_char(a, b);
    piece.to_owned()
}

/// `s` divided at every occurrence of `c`: one piece more than there are
/// occurrences, each piece free of `c`, in order.
pub open spec fn split_on(s: Seq<char>, c: char) -> Seq<Seq<char>>
    decreases s.len(),
{
    if s.len() == 0 {
        seq![Seq::<char>::empty()]
    } else if s[0] == c {
        seq![Seq::<char>::empty()] + split_on(s.drop_first(), c)
    } else {
        let rest = split_on(s.drop_first(), c);
        seq![seq![s[0]] + rest[0]] + rest.drop_first()
    }
}

pub proof fn lemma_split_on_len(s: Seq<char>, c: char)
    ensures
        split_on(s, c).len() >= 1,
    decreases s.len(),
{
    if s.len() > 0 {
        lemma_split_on_len(s.drop_first(), c);
    }
}

/// Dividing at the first occurrence of `c` peels off the first piece.
proof fn lemma_split_on_first(s: Seq<char>, c: char, j: int)
    requires
        0 <= j < s.len(),
        s[j] == c,
        forall|i: int| 0 <= i < j ==> s[i] != c,
    ensures
        split_on(s, c) == seq![s.subrange(0, j)] + split_on(
            s.subrange(j + 1, s.len() as int),
            c,
        ),
    decreases s.len(),
{
    if j == 0 {
        assert(s.subrange(0, 0) =~= Seq::<char>::empty());
        assert(s.subrange(1, s.len() as int) =~= s.drop_first());
    } else {
        let t = s.drop_first();
        assert(t[j - 1] == c);
        assert forall|i: int| 0 <= i < j - 1 implies t[i] != c by {
            assert(s[i + 1] != c);
        }
        lemma_split_on_first(t, c, j - 1);
        lemma_split_on_len(t.subrange(j as int, t.len() as int), c);
        assert(t.subrange(j as int, t.len() as int) =~= s.subrange(j + 1, s.len() as int));
        let rest = split_on(t, c);
        assert(rest[0] == t.subrange(0, j - 1));
        assert(seq![s[0]] + t.subrange(0, j - 1) =~= s.subrange(0, j));
        assert(rest.drop_first() =~~= split_on(s.subrange(j + 1, s.len() as int), c));
        assert(split_on(s, c) =~~= seq![s.subrange(0, j)] + split_on(
            s.subrange(j + 1, s.len() as int),
            c,
        ));
    }
}

/// A sequence without `c` is a single piece.
proof fn lemma_split_on_whole(s: Seq<char>, c: char)
    requires
        forall|i: int| 0 <= i < s.len() ==> s[i] != c,
    ensures
        split_on(s, c) == seq![s],
    decreases s.len(),
{
    if s.len() == 0 {
        assert(seq![Seq::<char>::empty()] =~~= seq![s]);
    } else {
        let t = s.drop_first();
        assert forall|i: int| 0 <= i < t.len() implies t[i] != c by {
            assert(s[i + 1] != c);
        }
        lemma_split_on_whole(t, c);
        assert(seq![s[0]] + t =~= s);
        assert(split_on(s, c) =~= seq![s]);
    }
}

/// The pieces of `s` around each `c`, each trimmed of surrounding whitespace.
pub open spec fn split_trimmed_spec(s: Seq<char>, c: char) -> Seq<Seq<char>> {
    split_on(s, c).map_values(|t: Seq<char>| trimmed(t))
}

/// Divides `s` at every occurrence of `c` and trims each piece.
pub fn split_trimmed(s: &str, c: char) -> (r: Vec<String>)
    ensures
        r.deep_view() == split_trimmed_spec(s@, c),
{
    let mut out: Vec<String> = Vec::new();
    let mut rest: &str = s;
    loop
        invariant
            split_trimmed_spec(s@, c) == out.deep_view() + split_trimmed_spec(rest@, c),
        decreases rest@.len(),
    {
        let ghost prev = rest@;
        let ghost prev_out = out.deep_view();
        match find_char(rest, c) {
            Some(j) => {
                let piece = rest.substring_char(0, j);
                out.push(trim(piece));
                let m = rest.unicode_len();
                rest = rest.substring_char(j + 1, m);
                proof {
                    lemma_first_idx_bounds(prev, c);
                    lemma_split_on_first(prev, c, j as int);
                    assert(out.deep_view() =~= prev_out + seq![trimmed(piece@)]);
                    assert(split_trimmed_spec(prev, c) =~= seq![trimmed(piece@)]
                        + split_trimmed_spec(rest@, c));
                    assert(out.deep_view() + split_trimmed_spec(rest@, c) =~= prev_out
                        + split_trimmed_spec(prev, c));
                }
            },
            None => {
                proof {
                    lemma_first_idx_bounds(prev, c);
                    lemma_split_on_whole(prev, c);
                    assert(split_trimmed_spec(prev, c) =~= seq![trimmed(prev)]);
                }
                out.push(trim(rest));
                proof {
                    assert(out.deep_view() =~= prev_out + seq![trimmed(prev)]);
                }
                return out;
            },
        }
    }
}

/// Character-by-character string equality, specified over the views.
pub fn str_eq(a: &str, b: &str) -> (r: bool)
    ensures
        r == (a@ == b@),
{
    let n = a.unicode_len();
    if n != b.unicode_len() {
        return false;
    }
    let mut i: usize = 0;
    while i < n
        invariant
            i <= n,
            n == a@.len(),
            n == b@.len(),
            forall|j: int| 0 <= j < i ==> a@[j] == b@[j],
        decreases n - i,
    {
        if a.get_char(i) != b.get_char(i) {
            return false;
        }
        i += 1;
    }
    proof {
        assert(a@ =~= b@);
    }
    true
}

} // verus!
