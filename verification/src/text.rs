//! Character-level text operations used to tidy up recognised speech:
//! removing every occurrence of a phrase, folding runs of spaces and
//! trimming surrounding whitespace, each stated over `Seq<char>`.

use vstd::prelude::*;

verus! {

/// The characters that carry the Unicode `White_Space` property, the set
/// that `char::is_whitespace` (and so `str::trim`) recognises.
pub open spec fn is_whitespace(c: char) -> bool {
    let u = c as u32;
    ||| 0x9 <= u <= 0xD
    ||| u == 0x20
    ||| u == 0x85
    ||| u == 0xA0
    ||| u == 0x1680
    ||| 0x2000 <= u <= 0x200A
    ||| u == 0x2028
    ||| u == 0x2029
    ||| u == 0x202F
    ||| u == 0x205F
    ||| u == 0x3000
}

/// `p` occurs in `s` starting at position `i`.
pub open spec fn occurs_at(s: Seq<char>, p: Seq<char>, i: int) -> bool {
    &&& 0 <= i
    &&& i + p.len() <= s.len()
    &&& s.subrange(i, i + p.len()) == p
}

/// `p` occurs somewhere in `s`.
pub open spec fn occurs_in(s: Seq<char>, p: Seq<char>) -> bool {
    exists|i: int| occurs_at(s, p, i)
}

/// `s` with every occurrence of `p` deleted, matched from the left and
/// without overlap (what `str::replace(p, "")` computes).
pub open spec fn remove_all(s: Seq<char>, p: Seq<char>) -> Seq<char>
    decreases s.len(),
{
    if p.len() == 0 || s.len() == 0 {
        s
    } else if occurs_at(s, p, 0) {
        remove_all(s.skip(p.len() as int), p)
    } else {
        seq![s[0]] + remove_all(s.skip(1), p)
    }
}

/// `s` after deleting each phrase of `ps` in turn, first to last.
pub open spec fn remove_each(s: Seq<char>, ps: Seq<Seq<char>>) -> Seq<char>
    decreases ps.len(),
{
    if ps.len() == 0 {
        s
    } else {
        remove_all(remove_each(s, ps.drop_last()), ps.last())
    }
}

/// `s` with every run of two or more spaces folded into a single space.
pub open spec fn collapse_spaces(s: Seq<char>) -> Seq<char>
    decreases s.len(),
{
    if s.len() < 2 {
        s
    } else if s[0] == ' ' && s[1] == ' ' {
        collapse_spaces(s.skip(1))
    } else {
        seq![s[0]] + collapse_spaces(s.skip(1))
    }
}

/// Two spaces stand next to each other somewhere in `s`.
pub open spec fn has_double_space(s: Seq<char>) -> bool {
    exists|i: int| 0 <= i && i + 1 < s.len() && #[trigger] s[i] == ' ' && s[i + 1] == ' '
}

/// `s` without its leading whitespace.
pub open spec fn trim_start(s: Seq<char>) -> Seq<char>
    decreases s.len(),
{
    if s.len() > 0 && is_whitespace(s[0]) {
        trim_start(s.skip(1))
    } else {
        s
    }
}

/// `s` without its trailing whitespace.
pub open spec fn trim_end(s: Seq<char>) -> Seq<char>
    decreases s.len(),
{
    if s.len() > 0 && is_whitespace(s.last()) {
        trim_end(s.drop_last())
    } else {
        s
    }
}

/// `s` without leading and trailing whitespace (what `str::trim` computes).
pub open spec fn trim(s: Seq<char>) -> Seq<char> {
    trim_end(trim_start(s))
}

/// Neither end of `s` is whitespace.
pub open spec fn is_trimmed(s: Seq<char>) -> bool {
    s.len() > 0 ==> !is_whitespace(s[0]) && !is_whitespace(s.last())
}

/// Whether `c` is whitespace in the sense of `char::is_whitespace`.
pub fn is_whitespace_char(c: char) -> (b: bool)
    ensures
        b == is_whitespace(c),
{
    let u = c as u32;
    (0x9 <= u && u <= 0xD) || u == 0x20 || u == 0x85 || u == 0xA0 || u == 0x1680 || (0x2000 <= u
        && u <= 0x200A) || u == 0x2028 || u == 0x2029 || u == 0x202F || u == 0x205F || u == 0x3000
}

/// The characters of `s`, in order.
pub fn chars_of(s: &str) -> (v: Vec<char>)
    ensures
        v@ == s@,
{
    let mut v: Vec<char> = Vec::new();
    for c in it: s.chars()
        invariant
            v@ == it.seq().take(it.index()),
    {
        v.push(c);
    }
    v
}

/// `String::from_iter` over characters: the string holds exactly `chars`.
#[verifier::external_body]
pub fn string_from_chars(chars: &Vec<char>) -> (s: String)
    ensures
        s@ == chars@,
{
    String::from_iter(chars)
}

/// The characters of `s` from `lo` up to, not including, `hi`.
fn copy_range(s: &Vec<char>, lo: usize, hi: usize) -> (v: Vec<char>)
    requires
        lo <= hi <= s.len(),
    ensures
        v@ == s@.subrange(lo as int, hi as int),
{
    let mut v: Vec<char> = Vec::new();
    let mut i = lo;
    while i < hi
        invariant
            lo <= i <= hi <= s.len(),
            v@ == s@.subrange(lo as int, i as int),
        decreases hi - i,
    {
        v.push(s[i]);
        i = i + 1;
        assert(v@ =~= s@.subrange(lo as int, i as int));
    }
    v
}

/// Whether `p` occurs in `s` starting at position `i`.
fn matches_at(s: &Vec<char>, i: usize, p: &Vec<char>) -> (r: bool)
    requires
        i <= s.len(),
    ensures
        r == occurs_at(s@, p@, i as int),
{
    if p.len() > s.len() - i {
        return false;
    }
    let mut j: usize = 0;
    while j < p.len()
        invariant
            i + p.len() <= s.len(),
            j <= p.len(),
            forall|k: int| 0 <= k < j ==> s@[i + k] == p@[k],
        decreases p.len() - j,
    {
        if s[i + j] != p[j] {
            assert(s@.subrange(i as int, i + p.len())[j as int] != p@[j as int]);
            return false;
        }
        j = j + 1;
    }
    assert(s@.subrange(i as int, i + p.len()) =~= p@);
    true
}

/// `s` with every occurrence of `p` deleted, left to right, without overlap.
pub fn remove_all_chars(s: &Vec<char>, p: &Vec<char>) -> (r: Vec<char>)
    ensures
        r@ == remove_all(s@, p@),
{
    let mut out: Vec<char> = Vec::new();
    let mut i: usize = 0;
    assert(s@.skip(0) =~= s@);
    while i < s.len()
        invariant
            i <= s.len(),
            remove_all(s@, p@) == out@ + remove_all(s@.skip(i as int), p@),
        decreases s.len() - i,
    {
        let ghost t = s@.skip(i as int);
        if p.len() > 0 && matches_at(s, i, p) {
            assert(occurs_at(t, p@, 0)) by {
                assert(t.subrange(0, p@.len() as int) =~= s@.subrange(i as int, i + p@.len()));
            }
            assert(t.skip(p@.len() as int) =~= s@.skip(i + p@.len()));
            i = i + p.len();
        } else {
            proof {
                if p@.len() > 0 {
                    assert(!occurs_at(t, p@, 0)) by {
                        if occurs_at(t, p@, 0) {
                            assert(t.subrange(0, p@.len() as int) =~= s@.subrange(
                                i as int,
                                i + p@.len(),
                            ));
                        }
                    }
                } else {
                    assert(t =~= seq![t[0]] + t.skip(1));
                }
            }
            assert(t.skip(1) =~= s@.skip(i + 1));
            out.push(s[i]);
            i = i + 1;
            assert(out@ + remove_all(s@.skip(i as int), p@) =~= out@.drop_last() + (seq![t[0]]
                + remove_all(t.skip(1), p@)));
        }
    }
    assert(s@.skip(i as int) =~= Seq::<char>::empty());
    assert(out@ + Seq::<char>::empty() =~= out@);
    out
}

/// `s` with every run of two or more spaces folded into one space.
pub fn collapse_spaces_chars(s: &Vec<char>) -> (r: Vec<char>)
    ensures
        r@ == collapse_spaces(s@),
{
    let mut out: Vec<char> = Vec::new();
    let mut i: usize = 0;
    let n = s.len();
    assert(s@.skip(0) =~= s@);
    while i < n
        invariant
            n == s.len(),
            i <= n,
            collapse_spaces(s@) == out@ + collapse_spaces(s@.skip(i as int)),
        decreases n - i,
    {
        let ghost t = s@.skip(i as int);
        assert(t.skip(1) =~= s@.skip(i + 1));
        if s[i] == ' ' && i + 1 < n && s[i + 1] == ' ' {
            i = i + 1;
        } else {
            proof {
                if t.len() < 2 {
                    assert(t =~= seq![t[0]] + t.skip(1));
                    assert(t.skip(1) =~= Seq::<char>::empty());
                }
            }
            out.push(s[i]);
            i = i + 1;
            assert(out@ + collapse_spaces(s@.skip(i as int)) =~= out@.drop_last() + (seq![t[0]]
                + collapse_spaces(t.skip(1))));
        }
    }
    assert(s@.skip(i as int) =~= Seq::<char>::empty());
    assert(out@ + Seq::<char>::empty() =~= out@);
    out
}

/// `s` without leading and trailing whitespace.
pub fn trim_chars(s: &Vec<char>) -> (r: Vec<char>)
    ensures
        r@ == trim(s@),
{
    let n = s.len();
    let mut lo: usize = 0;
    assert(s@.skip(0) =~= s@);
    while lo < n && is_whitespace_char(s[lo])
        invariant
            n == s.len(),
            lo <= n,
            trim_start(s@) == trim_start(s@.skip(lo as int)),
        decreases n - lo,
    {
        assert(s@.skip(lo as int).skip(1) =~= s@.skip(lo + 1));
        lo = lo + 1;
    }
    assert(trim_start(s@) =~= s@.subrange(lo as int, n as int));
    let mut hi: usize = n;
    while hi > lo && is_whitespace_char(s[hi - 1])
        invariant
            n == s.len(),
            lo <= hi <= n,
            trim(s@) == trim_end(s@.subrange(lo as int, hi as int)),
        decreases hi - lo,
    {
        assert(s@.subrange(lo as int, hi as int).drop_last() =~= s@.subrange(
            lo as int,
            hi - 1,
        ));
        hi = hi - 1;
    }
    copy_range(s, lo, hi)
}


/// Deleting a phrase never lengthens the text, and deleting a phrase that
/// does not occur leaves the text as it is.
pub proof fn lemma_remove_all(s: Seq<char>, p: Seq<char>)
    ensures
        remove_all(s, p).len() <= s.len(),
        !occurs_in(s, p) ==> remove_all(s, p) == s,
    decreases s.len(),
{
    if p.len() == 0 || s.len() == 0 {
    } else if occurs_at(s, p, 0) {
        lemma_remove_all(s.skip(p.len() as int), p);
    } else {
        let t = s.skip(1);
        lemma_remove_all(t, p);
        if !occurs_in(s, p) {
            assert(!occurs_in(t, p)) by {
                if occurs_in(t, p) {
                    let i = choose|i: int| occurs_at(t, p, i);
                    assert(s.subrange(i + 1, i + 1 + p.len()) =~= t.subrange(i, i + p.len()));
                    assert(occurs_at(s, p, i + 1));
                }
            }
            assert(s =~= seq![s[0]] + t);
        }
    }
}

/// Deleting several phrases in turn never lengthens the text, and leaves
/// it as it is when none of them occurs in it.
pub proof fn lemma_remove_each(s: Seq<char>, ps: Seq<Seq<char>>)
    ensures
        remove_each(s, ps).len() <= s.len(),
        (forall|k: int| 0 <= k < ps.len() ==> !occurs_in(s, #[trigger] ps[k])) ==> remove_each(
            s,
            ps,
        ) == s,
    decreases ps.len(),
{
    if ps.len() > 0 {
        let rest = ps.drop_last();
        lemma_remove_each(s, rest);
        lemma_remove_all(remove_each(s, rest), ps.last());
        if forall|k: int| 0 <= k < ps.len() ==> !occurs_in(s, #[trigger] ps[k]) {
            assert(forall|k: int| 0 <= k < rest.len() ==> !occurs_in(s, #[trigger] rest[k])) by {
                assert forall|k: int| 0 <= k < rest.len() implies !occurs_in(
                    s,
                    #[trigger] rest[k],
                ) by {
                    assert(rest[k] == ps[k]);
                }
            }
            assert(!occurs_in(s, ps[ps.len() - 1]));
        }
    }
}

/// Folding spaces keeps the first character, never lengthens the text,
/// leaves no two spaces side by side, and changes nothing in a text that
/// has no two spaces side by side.
pub proof fn lemma_collapse_spaces(s: Seq<char>)
    ensures
        s.len() > 0 ==> collapse_spaces(s).len() > 0 && collapse_spaces(s)[0] == s[0],
        collapse_spaces(s).len() <= s.len(),
        !has_double_space(collapse_spaces(s)),
        !has_double_space(s) ==> collapse_spaces(s) == s,
    decreases s.len(),
{
    if s.len() < 2 {
    } else {
        let t = s.skip(1);
        lemma_collapse_spaces(t);
        let c = collapse_spaces(t);
        if s[0] == ' ' && s[1] == ' ' {
            assert(has_double_space(s)) by {
                assert(s[0] == ' ' && s[0int + 1] == ' ');
            }
        } else {
            let r = seq![s[0]] + c;
            assert(collapse_spaces(s) == r);
            assert(!has_double_space(r)) by {
                if has_double_space(r) {
                    let i = choose|i: int|
                        0 <= i && i + 1 < r.len() && #[trigger] r[i] == ' ' && r[i + 1] == ' ';
                    if i == 0 {
                        assert(r[1] == c[0]);
                    } else {
                        assert(r[i] == c[i - 1]);
                        assert(r[i + 1] == c[(i - 1) + 1]);
                        assert(c[i - 1] == ' ');
                    }
                }
            }
            if !has_double_space(s) {
                assert(!has_double_space(t)) by {
                    if has_double_space(t) {
                        let i = choose|i: int|
                            0 <= i && i + 1 < t.len() && #[trigger] t[i] == ' ' && t[i + 1] == ' ';
                        assert(s[i + 1] == ' ' && s[(i + 1) + 1] == ' ');
                    }
                }
                assert(s =~= seq![s[0]] + t);
            }
        }
    }
}

/// Removing leading whitespace drops a prefix, after which the text does
/// not start with whitespace.
pub proof fn lemma_trim_start(s: Seq<char>) -> (k: int)
    ensures
        0 <= k <= s.len(),
        trim_start(s) == s.skip(k),
        trim_start(s).len() > 0 ==> !is_whitespace(trim_start(s)[0]),
        s.len() > 0 && !is_whitespace(s[0]) ==> k == 0,
        forall|i: int| 0 <= i < k ==> is_whitespace(#[trigger] s[i]),
    decreases s.len(),
{
    if s.len() > 0 && is_whitespace(s[0]) {
        let j = lemma_trim_start(s.skip(1));
        assert(s.skip(1).skip(j) =~= s.skip(j + 1));
        assert forall|i: int| 0 <= i < j + 1 implies is_whitespace(#[trigger] s[i]) by {
            if i > 0 {
                assert(s[i] == s.skip(1)[i - 1]);
            }
        }
        j + 1
    } else {
        assert(s.skip(0) =~= s);
        0
    }
}

/// Removing trailing whitespace drops a suffix, after which the text does
/// not end with whitespace.
pub proof fn lemma_trim_end(s: Seq<char>) -> (k: int)
    ensures
        0 <= k <= s.len(),
        trim_end(s) == s.take(k),
        trim_end(s).len() > 0 ==> !is_whitespace(trim_end(s).last()),
        s.len() > 0 && !is_whitespace(s.last()) ==> k == s.len(),
        forall|i: int| k <= i < s.len() ==> is_whitespace(#[trigger] s[i]),
    decreases s.len(),
{
    if s.len() > 0 && is_whitespace(s.last()) {
        let j = lemma_trim_end(s.drop_last());
        assert(s.drop_last().take(j) =~= s.take(j));
        assert forall|i: int| j <= i < s.len() implies is_whitespace(#[trigger] s[i]) by {
            if i < s.len() - 1 {
                assert(s[i] == s.drop_last()[i]);
            }
        }
        j
    } else {
        assert(s.take(s.len() as int) =~= s);
        s.len() as int
    }
}

/// Trimming keeps a contiguous piece of the text, cutting off only
/// whitespace, and the piece has no whitespace at either end; a text that
/// already has none is left as it is.
pub proof fn lemma_trim(s: Seq<char>) -> (bounds: (int, int))
    ensures
        0 <= bounds.0 <= bounds.1 <= s.len(),
        trim(s) == s.subrange(bounds.0, bounds.1),
        forall|i: int| 0 <= i < bounds.0 ==> is_whitespace(#[trigger] s[i]),
        forall|i: int| bounds.1 <= i < s.len() ==> is_whitespace(#[trigger] s[i]),
        is_trimmed(trim(s)),
        is_trimmed(s) ==> trim(s) == s,
{
    let a = lemma_trim_start(s);
    let u = trim_start(s);
    let b = lemma_trim_end(u);
    assert(u.take(b) =~= s.subrange(a, a + b));
    assert forall|i: int| a + b <= i < s.len() implies is_whitespace(#[trigger] s[i]) by {
        assert(s[i] == u[i - a]);
    }
    let r = trim(s);
    if r.len() > 0 {
        assert(r[0] == u[0]);
    }
    if is_trimmed(s) && s.len() > 0 {
        assert(u =~= s);
    }
    (a, a + b)
}

/// A piece cut out of a text without two spaces side by side has none
/// either.
pub proof fn lemma_subrange_keeps_single_spaces(s: Seq<char>, a: int, b: int)
    requires
        0 <= a <= b <= s.len(),
        !has_double_space(s),
    ensures
        !has_double_space(s.subrange(a, b)),
{
    let r = s.subrange(a, b);
    if has_double_space(r) {
        let i = choose|i: int| 0 <= i && i + 1 < r.len() && #[trigger] r[i] == ' ' && r[i + 1] == ' ';
        assert(s[a + i] == ' ' && s[(a + i) + 1] == ' ');
    }
}

/// One pass of replacing each pair of spaces, from the left and without
/// overlap, by a single space (what `str::replace("  ", " ")` computes).
pub open spec fn replace_space_pairs(s: Seq<char>) -> Seq<char>
    decreases s.len(),
{
    if s.len() < 2 {
        s
    } else if s[0] == ' ' && s[1] == ' ' {
        seq![' '] + replace_space_pairs(s.skip(2))
    } else {
        seq![s[0]] + replace_space_pairs(s.skip(1))
    }
}

/// How folding treats a character put in front of a text.
proof fn lemma_collapse_cons(c: char, x: Seq<char>)
    ensures
        x.len() == 0 ==> collapse_spaces(seq![c] + x) == seq![c],
        x.len() > 0 && c == ' ' && x[0] == ' ' ==> collapse_spaces(seq![c] + x)
            == collapse_spaces(x),
        x.len() > 0 && !(c == ' ' && x[0] == ' ') ==> collapse_spaces(seq![c] + x) == seq![c]
            + collapse_spaces(x),
{
    assert((seq![c] + x).skip(1) =~= x);
    if x.len() == 0 {
        assert(seq![c] + x =~= seq![c]);
    }
}

/// Replacing pairs of spaces after a character does not change how the
/// whole folds.
proof fn lemma_collapse_after_pair_pass(c: char, t: Seq<char>)
    ensures
        collapse_spaces(seq![c] + replace_space_pairs(t)) == collapse_spaces(seq![c] + t),
    decreases t.len(),
{
    if t.len() < 2 {
    } else if t[0] == ' ' && t[1] == ' ' {
        let u = t.skip(2);
        let rp = replace_space_pairs(u);
        lemma_collapse_after_pair_pass(' ', u);
        // seq![c] + t == seq![c] + (seq![' '] + (seq![' '] + u))
        assert(t =~= seq![' '] + (seq![' '] + u));
        assert(t.skip(1) =~= seq![' '] + u);
        lemma_collapse_cons(' ', seq![' '] + u);
        lemma_collapse_cons(c, t);
        lemma_collapse_cons(c, seq![' '] + rp);
        assert((seq![' '] + rp)[0] == ' ');
    } else {
        let t1 = t.skip(1);
        lemma_collapse_after_pair_pass(t[0], t1);
        assert(t =~= seq![t[0]] + t1);
        lemma_collapse_cons(c, t);
        lemma_collapse_cons(c, seq![t[0]] + replace_space_pairs(t1));
        assert((seq![t[0]] + replace_space_pairs(t1))[0] == t[0]);
    }
}

/// Folding runs of spaces is what repeating the pair replacement until no
/// pair is left produces: one pass of the replacement does not change how
/// the text folds, a text with no pair left folds to itself, and the folded
/// text has no pair left.
pub proof fn lemma_collapse_is_repeated_pair_replacement(s: Seq<char>)
    ensures
        collapse_spaces(replace_space_pairs(s)) == collapse_spaces(s),
        !has_double_space(s) ==> collapse_spaces(s) == s,
        !has_double_space(collapse_spaces(s)),
{
    lemma_collapse_spaces(s);
    if s.len() >= 2 {
        if s[0] == ' ' && s[1] == ' ' {
            let u = s.skip(2);
            lemma_collapse_after_pair_pass(' ', u);
            assert(s =~= seq![' '] + (seq![' '] + u));
            lemma_collapse_cons(' ', seq![' '] + u);
            assert(s.skip(1) =~= seq![' '] + u);
        } else {
            let t1 = s.skip(1);
            lemma_collapse_after_pair_pass(s[0], t1);
            assert(s =~= seq![s[0]] + t1);
        }
    }
}

/// Deleting a phrase removes its leftmost occurrence and carries on after
/// it: when the first occurrence of `p` in `x + p + y` is the one right
/// after `x`, what remains is `x` followed by `y` with `p` deleted.
pub proof fn lemma_remove_all_leftmost(x: Seq<char>, p: Seq<char>, y: Seq<char>)
    requires
        p.len() > 0,
        forall|i: int| 0 <= i < x.len() ==> !occurs_at(x + p + y, p, i),
    ensures
        remove_all(x + p + y, p) == x + remove_all(y, p),
    decreases x.len(),
{
    let s = x + p + y;
    if x.len() == 0 {
        assert(s =~= p + y);
        assert(s.subrange(0, p.len() as int) =~= p);
        assert(s.skip(p.len() as int) =~= y);
        assert(x + remove_all(y, p) =~= remove_all(y, p));
    } else {
        assert(!occurs_at(s, p, 0));
        let x1 = x.skip(1);
        assert(s.skip(1) =~= x1 + p + y);
        assert forall|i: int| 0 <= i < x1.len() implies !occurs_at(x1 + p + y, p, i) by {
            assert((x1 + p + y).subrange(i, i + p.len()) =~= s.subrange(i + 1, i + 1 + p.len()));
            assert(!occurs_at(s, p, i + 1));
        }
        lemma_remove_all_leftmost(x1, p, y);
        assert(x =~= seq![x[0]] + x1);
        assert(x + remove_all(y, p) =~= seq![x[0]] + (x1 + remove_all(y, p)));
    }
}

/// Deleting a list of phrases in turn deletes exactly one listed phrase
/// when it is the only one that occurs and its deletion brings none of the
/// later ones about: the result is the text with that phrase deleted.
pub proof fn lemma_remove_each_single(s: Seq<char>, ps: Seq<Seq<char>>, k: int)
    requires
        0 <= k < ps.len(),
        forall|j: int| 0 <= j < ps.len() && j != k ==> !occurs_in(s, #[trigger] ps[j]),
        forall|j: int| k < j < ps.len() ==> !occurs_in(remove_all(s, ps[k]), #[trigger] ps[j]),
    ensures
        remove_each(s, ps) == remove_all(s, ps[k]),
    decreases ps.len(),
{
    let rest = ps.drop_last();
    let last = ps.len() - 1;
    if k == last {
        assert forall|j: int| 0 <= j < rest.len() implies !occurs_in(s, #[trigger] rest[j]) by {
            assert(rest[j] == ps[j]);
        }
        lemma_remove_each(s, rest);
    } else {
        assert forall|j: int| 0 <= j < rest.len() && j != k implies !occurs_in(
            s,
            #[trigger] rest[j],
        ) by {
            assert(rest[j] == ps[j]);
        }
        assert forall|j: int| k < j < rest.len() implies !occurs_in(
            remove_all(s, rest[k]),
            #[trigger] rest[j],
        ) by {
            assert(rest[j] == ps[j]);
        }
        lemma_remove_each_single(s, rest, k);
        assert(!occurs_in(remove_all(s, ps[k]), ps[last]));
        lemma_remove_all(remove_all(s, ps[k]), ps[last]);
    }
}

} // verus!
