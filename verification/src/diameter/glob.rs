//! Shell-style patterns: `*` stands for any run of characters, `?` for one.

use crate::text::chars_of;
use vstd::prelude::*;

verus! {

/// Whether a text is an instance of a pattern.
pub open spec fn glob(p: Seq<char>, t: Seq<char>) -> bool
    decreases p.len() + t.len(),
{
    if p.len() == 0 {
        t.len() == 0
    } else if p[0] == '*' {
        glob(p.skip(1), t) || (t.len() > 0 && glob(p, t.skip(1)))
    } else {
        t.len() > 0 && (p[0] == '?' || p[0] == t[0]) && glob(p.skip(1), t.skip(1))
    }
}

/// The rest of the pattern matches the rest of the text.
spec fn rest_matches(p: Seq<char>, t: Seq<char>, i: int, j: int) -> bool {
    glob(p.skip(i), t.skip(j))
}

proof fn lemma_star(p: Seq<char>, t: Seq<char>, i: int, j: int)
    requires
        0 <= i < p.len(),
        0 <= j <= t.len(),
        p[i] == '*',
    ensures
        rest_matches(p, t, i, j) == (rest_matches(p, t, i + 1, j) || (j < t.len() && rest_matches(
            p,
            t,
            i,
            j + 1,
        ))),
{
    assert(p.skip(i).skip(1) =~= p.skip(i + 1));
    if j < t.len() {
        assert(t.skip(j).skip(1) =~= t.skip(j + 1));
    }
}

proof fn lemma_step(p: Seq<char>, t: Seq<char>, i: int, j: int)
    requires
        0 <= i < p.len(),
        0 <= j < t.len(),
        p[i] != '*',
    ensures
        rest_matches(p, t, i, j) == ((p[i] == '?' || p[i] == t[j]) && rest_matches(
            p,
            t,
            i + 1,
            j + 1,
        )),
{
    assert(p.skip(i).skip(1) =~= p.skip(i + 1));
    assert(t.skip(j).skip(1) =~= t.skip(j + 1));
}

/// A star may as well start its run earlier.
proof fn lemma_star_absorbs(p: Seq<char>, t: Seq<char>, i: int, j: int, m: int)
    requires
        0 <= i < p.len(),
        p[i] == '*',
        0 <= j <= m <= t.len(),
        rest_matches(p, t, i, m),
    ensures
        rest_matches(p, t, i, j),
    decreases m - j,
{
    if j < m {
        lemma_star_absorbs(p, t, i, j + 1, m);
        lemma_star(p, t, i, j);
    }
}

/// A stretch without stars takes as many characters as it has.
proof fn lemma_fixed_stretch(p: Seq<char>, t: Seq<char>, i: int, k: int, j: int)
    requires
        0 <= i <= k <= p.len(),
        0 <= j <= t.len(),
        forall|x: int| i <= x < k ==> p[x] != '*',
        rest_matches(p, t, i, j),
    ensures
        j + (k - i) <= t.len(),
        rest_matches(p, t, k, j + (k - i)),
    decreases k - i,
{
    if i < k {
        if j >= t.len() {
            assert(t.skip(j).len() == 0);
        } else {
            lemma_step(p, t, i, j);
            lemma_fixed_stretch(p, t, i + 1, k, j + 1);
        }
    }
}

/// A star's run ends somewhere: behind it the rest of the pattern matches.
proof fn lemma_star_run(p: Seq<char>, t: Seq<char>, i: int, j: int) -> (m: int)
    requires
        0 <= i < p.len(),
        p[i] == '*',
        0 <= j <= t.len(),
        rest_matches(p, t, i, j),
    ensures
        j <= m <= t.len(),
        rest_matches(p, t, i + 1, m),
    decreases t.len() - j,
{
    lemma_star(p, t, i, j);
    if rest_matches(p, t, i + 1, j) {
        j
    } else {
        lemma_star_run(p, t, i, j + 1)
    }
}

/// At a new star the alternative that an earlier star still had is covered.
proof fn lemma_earlier_star(p: Seq<char>, t: Seq<char>, star: int, from: int, i: int, j: int)
    requires
        0 <= star < i < p.len(),
        p[star] == '*',
        p[i] == '*',
        0 <= from < t.len(),
        j <= t.len(),
        j - from == i - (star + 1),
        forall|x: int| star < x < i ==> p[x] != '*',
        rest_matches(p, t, star, from + 1),
    ensures
        rest_matches(p, t, i, j),
{
    let m = lemma_star_run(p, t, star, from + 1);
    lemma_fixed_stretch(p, t, star + 1, i, m);
    lemma_star_absorbs(p, t, i, j, m + (i - (star + 1)));
}

/// Whether a text is an instance of a pattern. Only the last star seen is ever
/// gone back to.
pub fn glob_match(pattern: &Vec<char>, text: &Vec<char>) -> (r: bool)
    ensures
        r == glob(pattern@, text@),
{
    let mut p: usize = 0;
    let mut t: usize = 0;
    let mut star: Option<usize> = None;
    let mut star_t: usize = 0;
    let ghost (pat, txt) = (pattern@, text@);
    assert(pat.skip(0) =~= pat);
    assert(txt.skip(0) =~= txt);
    while t < text.len()
        invariant
            pat == pattern@,
            txt == text@,
            p <= pat.len(),
            t <= txt.len(),
            match star {
                None => glob(pat, txt) == rest_matches(pat, txt, p as int, t as int),
                Some(sp) => {
                    &&& sp < p
                    &&& pat[sp as int] == '*'
                    &&& star_t <= t
                    &&& t - star_t == p - (sp + 1)
                    &&& forall|x: int| sp < x < p ==> pat[x] != '*'
                    &&& glob(pat, txt) == (rest_matches(pat, txt, p as int, t as int) || (star_t
                        < txt.len() && rest_matches(pat, txt, sp as int, star_t + 1)))
                },
            },
        decreases
                txt.len() - (if star is Some {
                    star_t as int
                } else {
                    0
                }),
                pat.len() - (if star is Some {
                    star->0 + 1
                } else {
                    0
                }),
                txt.len() - t,
    {
        if p < pattern.len() && pattern[p] == '*' {
            proof {
                lemma_star(pat, txt, p as int, t as int);
                if star is Some && rest_matches(pat, txt, star->0 as int, star_t + 1) {
                    lemma_earlier_star(pat, txt, star->0 as int, star_t as int, p as int, t as int);
                }
            }
            star = Some(p);
            star_t = t;
            p += 1;
        } else if p < pattern.len() && (pattern[p] == '?' || pattern[p] == text[t]) {
            proof {
                lemma_step(pat, txt, p as int, t as int);
            }
            p += 1;
            t += 1;
        } else {
            proof {
                if p < pat.len() {
                    lemma_step(pat, txt, p as int, t as int);
                } else {
                    assert(pat.skip(p as int).len() == 0);
                }
                assert(!rest_matches(pat, txt, p as int, t as int));
            }
            match star {
                Some(sp) => {
                    proof {
                        lemma_star(pat, txt, sp as int, star_t + 1);
                    }
                    p = sp + 1;
                    star_t += 1;
                    t = star_t;
                },
                None => {
                    return false;
                },
            }
        }
    }
    proof {
        if star is Some && star_t < txt.len() && rest_matches(pat, txt, star->0 as int, star_t + 1) {
            let m = lemma_star_run(pat, txt, star->0 as int, star_t + 1);
            lemma_fixed_stretch(pat, txt, star->0 + 1, p as int, m);
        }
    }
    while p < pattern.len() && pattern[p] == '*'
        invariant
            pat == pattern@,
            txt == text@,
            p <= pat.len(),
            glob(pat, txt) == rest_matches(pat, txt, p as int, txt.len() as int),
        decreases pat.len() - p,
    {
        proof {
            lemma_star(pat, txt, p as int, txt.len() as int);
        }
        p += 1;
    }
    proof {
        assert(txt.skip(txt.len() as int).len() == 0);
        if p == pat.len() {
            assert(pat.skip(p as int).len() == 0);
        }
    }
    p == pattern.len()
}

/// Whether a value is an instance of a pattern.
pub fn fnmatch(value: &str, pattern: &str) -> (r: bool)
    ensures
        r == glob(pattern@, value@),
{
    glob_match(&chars_of(pattern), &chars_of(value))
}

/// A lone star matches every text.
pub proof fn star_matches_everything(t: Seq<char>)
    ensures
        glob(seq!['*'], t),
    decreases t.len(),
{
    reveal_with_fuel(glob, 2);
    assert(seq!['*'].skip(1) =~= Seq::<char>::empty());
    if t.len() > 0 {
        star_matches_everything(t.skip(1));
    }
}

/// A pattern without wildcards matches itself and nothing else.
pub proof fn plain_pattern_is_equality(p: Seq<char>, t: Seq<char>)
    requires
        forall|i: int| 0 <= i < p.len() ==> p[i] != '*' && p[i] != '?',
    ensures
        glob(p, t) == (p == t),
    decreases p.len(),
{
    if p.len() > 0 {
        if t.len() > 0 {
            plain_pattern_is_equality(p.skip(1), t.skip(1));
            if p.skip(1) == t.skip(1) && p[0] == t[0] {
                assert(p =~= seq![p[0]] + p.skip(1));
                assert(t =~= seq![t[0]] + t.skip(1));
            }
        }
    } else if t.len() == 0 {
        assert(p =~= t);
    }
}

} // verus!
