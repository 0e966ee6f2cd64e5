//! Score accumulation: two's-complement 32-bit sums of windowed weight
//! vectors, and the specification of what every gap of the score buffer
//! holds once a family of n-gram or dictionary matches has been added.

use crate::model::DictWeight;
use vstd::arithmetic::div_mod::{lemma_fundamental_div_mod, lemma_mod_multiples_vanish};
use vstd::prelude::*;

verus! {

/// The representative of `x` modulo 2^32 that lies in the range of `i32`.
pub open spec fn wrap32(x: int) -> int {
    let m = x % 0x1_0000_0000;
    if m >= 0x8000_0000 {
        m - 0x1_0000_0000
    } else {
        m
    }
}

/// Wrapping leaves a value that already fits in `i32` unchanged.
pub proof fn lemma_wrap32_id(x: int)
    requires
        -0x8000_0000 <= x < 0x8000_0000,
    ensures
        wrap32(x) == x,
{
    let m = 0x1_0000_0000int;
    if x >= 0 {
        lemma_mod_multiples_vanish(0, x, m);
    } else {
        lemma_mod_multiples_vanish(1, x, m);
    }
}

/// Wrapping an intermediate sum does not change the wrapped total.
pub proof fn lemma_wrap32_add(x: int, y: int)
    ensures
        wrap32(wrap32(x) + y) == wrap32(x + y),
{
    let m = 0x1_0000_0000int;
    let k: int = if x % m >= 0x8000_0000 {
        1
    } else {
        0
    };
    lemma_fundamental_div_mod(x, m);
    assert(wrap32(x) + y == m * (-(x / m) - k) + (x + y)) by {
        assert(x % m == x - m * (x / m));
    };
    lemma_mod_multiples_vanish(-(x / m) - k, x + y, m);
}

/// Adds with 32-bit two's-complement wrap-around.
pub fn wadd(a: i32, b: i32) -> (r: i32)
    ensures
        r as int == wrap32(a as int + b as int),
{
    let s: i64 = a as i64 + b as i64;
    proof {
        let m = 0x1_0000_0000int;
        if s > i32::MAX as i64 {
            lemma_mod_multiples_vanish(0, s as int, m);
        } else if s < i32::MIN as i64 {
            lemma_mod_multiples_vanish(1, s as int, m);
        } else {
            lemma_wrap32_id(s as int);
        }
    }
    if s > i32::MAX as i64 {
        (s - 0x1_0000_0000i64) as i32
    } else if s < i32::MIN as i64 {
        (s + 0x1_0000_0000i64) as i32
    } else {
        s as i32
    }
}

/// The contribution of a weight vector laid down starting at slot `lo`
/// to the slot `g`: the weight that falls on `g`, or zero.
pub open spec fn win_slot(w: Seq<i32>, lo: int, g: int) -> int {
    if lo <= g < lo + w.len() {
        w[g - lo] as int
    } else {
        0
    }
}

/// An occurrence of the pattern `p` in `hay` whose last element sits at
/// index `e`.
pub open spec fn matches_end<T>(p: Seq<T>, hay: Seq<T>, e: int) -> bool {
    &&& 1 <= p.len() <= e + 1
    &&& e < hay.len()
    &&& hay.subrange(e + 1 - p.len(), e + 1) == p
}

/// Sum of the contributions to slot `g` of every occurrence of `p` ending
/// below `ecnt`, each laying `w` down from slot `e - win`.
pub open spec fn entry_sum<T>(p: Seq<T>, w: Seq<i32>, hay: Seq<T>, win: int, g: int, ecnt: int) -> int
    decreases ecnt,
{
    if ecnt <= 0 {
        0
    } else {
        entry_sum(p, w, hay, win, g, ecnt - 1) + if matches_end(p, hay, ecnt - 1) {
            win_slot(w, ecnt - 1 - win, g)
        } else {
            0
        }
    }
}

/// Sum of `entry_sum` over the first `kcnt` patterns of a family.
pub open spec fn ngrams_sum<T>(
    pats: Seq<Vec<T>>,
    ws: Seq<Vec<i32>>,
    hay: Seq<T>,
    win: int,
    g: int,
    kcnt: int,
) -> int
    decreases kcnt,
{
    if kcnt <= 0 {
        0
    } else {
        ngrams_sum(pats, ws, hay, win, g, kcnt - 1) + entry_sum(
            pats[kcnt - 1]@,
            ws[kcnt - 1]@,
            hay,
            win,
            g,
            hay.len() as int,
        )
    }
}

/// Adds `w` into `ys` starting at slot `base`; writes that would fall past
/// the end of `ys` are dropped.
pub fn add_weights(ys: &mut Vec<i32>, base: usize, w: &Vec<i32>)
    ensures
        final(ys)@.len() == old(ys)@.len(),
        forall|t: int|
            0 <= t < old(ys)@.len() ==> final(ys)@[t] as int == wrap32(
                old(ys)@[t] + win_slot(w@, base as int, t),
            ),
{
    let ghost orig = ys@;
    let mut t: usize = base;
    while t < ys.len() && t - base < w.len()
        invariant
            base <= t,
            ys@.len() == orig.len(),
            t <= ys@.len() || t == base,
            forall|u: int|
                0 <= u < orig.len() ==> ys@[u] as int == (if base <= u < t && u - base < w@.len() {
                    wrap32(orig[u] + w@[u - base])
                } else {
                    orig[u] as int
                }),
        decreases ys@.len() - t,
    {
        let v = wadd(ys[t], w[t - base]);
        ys.set(t, v);
        t += 1;
    }
    proof {
        assert forall|u: int| 0 <= u < orig.len() implies final(ys)@[u] as int == wrap32(
            orig[u] + win_slot(w@, base as int, u),
        ) by {
            if base <= u < t && u - base < w@.len() {
            } else {
                assert(win_slot(w@, base as int, u) == 0);
                lemma_wrap32_id(orig[u] as int);
            }
        }
    }
}

/// Whether the characters of `p` occupy `hay[e + 1 - |p| .. e + 1]`.
pub fn is_match_end_chars(p: &Vec<char>, hay: &Vec<char>, e: usize) -> (r: bool)
    requires
        e < hay@.len(),
    ensures
        r == matches_end(p@, hay@, e as int),
{
    let m = p.len();
    if m == 0 {
        return false;
    }
    if m - 1 > e {
        return false;
    }
    let start = e - (m - 1);
    let mut j: usize = 0;
    while j < m
        invariant
            j <= m,
            m == p@.len(),
            1 <= m <= e + 1,
            e < hay@.len(),
            start == e + 1 - m,
            forall|k: int| 0 <= k < j ==> hay@[start + k] == p@[k],
        decreases m - j,
    {
        if hay[start + j] != p[j] {
            proof {
                assert(hay@.subrange(e + 1 - p@.len(), e + 1)[j as int] == hay@[start + j]);
            }
            return false;
        }
        j += 1;
    }
    proof {
        assert(hay@.subrange(e + 1 - p@.len(), e + 1) =~= p@);
    }
    true
}

/// Whether the bytes of `p` occupy `hay[e + 1 - |p| .. e + 1]`.
pub fn is_match_end_bytes(p: &Vec<u8>, hay: &Vec<u8>, e: usize) -> (r: bool)
    requires
        e < hay@.len(),
    ensures
        r == matches_end(p@, hay@, e as int),
{
    let m = p.len();
    if m == 0 {
        return false;
    }
    if m - 1 > e {
        return false;
    }
    let start = e - (m - 1);
    let mut j: usize = 0;
    while j < m
        invariant
            j <= m,
            m == p@.len(),
            1 <= m <= e + 1,
            e < hay@.len(),
            start == e + 1 - m,
            forall|k: int| 0 <= k < j ==> hay@[start + k] == p@[k],
        decreases m - j,
    {
        if hay[start + j] != p[j] {
            proof {
                assert(hay@.subrange(e + 1 - p@.len(), e + 1)[j as int] == hay@[start + j]);
            }
            return false;
        }
        j += 1;
    }
    proof {
        assert(hay@.subrange(e + 1 - p@.len(), e + 1) =~= p@);
    }
    true
}

/// The contribution of one dictionary word of length `m`, matched with its
/// last character at `e`, to the gap `g`: `right` on the gap before the
/// word, `inside` on its internal gaps, `left` on the gap after it.
pub open spec fn dict_slot(m: int, wt: DictWeight, e: int, g: int) -> int {
    (if g == e - m {
        wt.right as int
    } else {
        0
    }) + (if e - m < g < e {
        wt.inside as int
    } else {
        0
    }) + (if g == e {
        wt.left as int
    } else {
        0
    })
}

/// Sum of the contributions to gap `g` of every occurrence of the word `p`
/// ending below `ecnt`.
pub open spec fn dict_word_sum(
    p: Seq<char>,
    wt: DictWeight,
    hay: Seq<char>,
    g: int,
    ecnt: int,
) -> int
    decreases ecnt,
{
    if ecnt <= 0 {
        0
    } else {
        dict_word_sum(p, wt, hay, g, ecnt - 1) + if matches_end(p, hay, ecnt - 1) {
            dict_slot(p.len() as int, wt, ecnt - 1, g)
        } else {
            0
        }
    }
}

/// Sum of `dict_word_sum` over the first `kcnt` words of a dictionary.
pub open spec fn dict_sum(
    words: Seq<Vec<char>>,
    wts: Seq<DictWeight>,
    hay: Seq<char>,
    g: int,
    kcnt: int,
) -> int
    decreases kcnt,
{
    if kcnt <= 0 {
        0
    } else {
        dict_sum(words, wts, hay, g, kcnt - 1) + dict_word_sum(
            words[kcnt - 1]@,
            wts[kcnt - 1],
            hay,
            g,
            hay.len() as int,
        )
    }
}

/// Adds the three weights of one dictionary word of length `m`, matched
/// ending at character `e`, around its padded slots; writes that would fall
/// outside `ys` are dropped.
fn add_dict_word(ys: &mut Vec<i32>, padding: usize, e: usize, m: usize, wt: DictWeight)
    requires
        1 <= m <= e + 1,
        padding + e <= usize::MAX,
    ensures
        final(ys)@.len() == old(ys)@.len(),
        forall|t: int|
            0 <= t < old(ys)@.len() ==> final(ys)@[t] as int == wrap32(
                old(ys)@[t] + dict_slot(m as int, wt, (padding + e) as int, t),
            ),
{
    let ghost orig = ys@;
    let pe = padding + e;
    if pe >= m {
        let t = pe - m;
        if t < ys.len() {
            let v = wadd(ys[t], wt.right);
            ys.set(t, v);
        }
    }
    proof {
        assert forall|t: int| 0 <= t < orig.len() implies ys@[t] as int == wrap32(
            orig[t] + (if t == pe - m {
                wt.right as int
            } else {
                0
            }),
        ) by {
            if t != pe - m {
                lemma_wrap32_id(orig[t] as int);
            }
        }
    }
    let ghost after_r = ys@;
    let mut j: usize = 1;
    while j < m
        invariant
            1 <= j <= m || (m == 1 && j == 1),
            1 <= m <= e + 1,
            pe == padding + e,
            ys@.len() == orig.len(),
            forall|t: int|
                0 <= t < orig.len() ==> ys@[t] as int == wrap32(
                    orig[t] + (if t == pe - m {
                        wt.right as int
                    } else {
                        0
                    }) + (if pe - m < t < pe - m + j {
                        wt.inside as int
                    } else {
                        0
                    }),
                ),
        decreases m - j,
    {
        let t = if pe >= m {
            (pe - m) + j
        } else {
            j - 1
        };
        let ghost prev = ys@;
        if t < ys.len() {
            let v = wadd(ys[t], wt.inside);
            ys.set(t, v);
        }
        proof {
            assert(t == pe - m + j);
            assert forall|u: int| 0 <= u < orig.len() implies ys@[u] as int == wrap32(
                orig[u] + (if u == pe - m {
                    wt.right as int
                } else {
                    0
                }) + (if pe - m < u < pe - m + j + 1 {
                    wt.inside as int
                } else {
                    0
                }),
            ) by {
                let base = orig[u] + (if u == pe - m {
                    wt.right as int
                } else {
                    0
                });
                if u == t {
                    lemma_wrap32_add(base, wt.inside as int);
                }
            }
        }
        j += 1;
    }
    let ghost after_i = ys@;
    if pe < ys.len() {
        let v = wadd(ys[pe], wt.left);
        ys.set(pe, v);
    }
    proof {
        assert forall|t: int| 0 <= t < orig.len() implies ys@[t] as int == wrap32(
            orig[t] + dict_slot(m as int, wt, pe as int, t),
        ) by {
            let base = orig[t] + (if t == pe - m {
                wt.right as int
            } else {
                0
            }) + (if pe - m < t < pe {
                wt.inside as int
            } else {
                0
            });
            assert(after_i[t] as int == wrap32(base));
            if t == pe {
                lemma_wrap32_add(base, wt.left as int);
            }
        }
    }
}

/// Adds, for every occurrence of every dictionary word, its three weights
/// around the occurrence.
pub fn add_dict_scores(
    words: &Vec<Vec<char>>,
    wts: &Vec<DictWeight>,
    hay: &Vec<char>,
    padding: usize,
    ys: &mut Vec<i32>,
)
    requires
        words@.len() == wts@.len(),
        padding + hay@.len() <= usize::MAX,
    ensures
        final(ys)@.len() == old(ys)@.len(),
        forall|t: int|
            0 <= t < old(ys)@.len() ==> final(ys)@[t] as int == wrap32(
                old(ys)@[t] + dict_sum(words@, wts@, hay@, t - padding, words@.len() as int),
            ),
{
    let ghost orig = ys@;
    let mut k: usize = 0;
    while k < words.len()
        invariant
            k <= words@.len(),
            words@.len() == wts@.len(),
            padding + hay@.len() <= usize::MAX,
            ys@.len() == orig.len(),
            forall|t: int|
                0 <= t < orig.len() ==> ys@[t] as int == wrap32(
                    orig[t] + dict_sum(words@, wts@, hay@, t - padding, k as int),
                ),
        decreases words@.len() - k,
    {
        let mut e: usize = 0;
        while e < hay.len()
            invariant
                e <= hay@.len(),
                k < words@.len(),
                words@.len() == wts@.len(),
                padding + hay@.len() <= usize::MAX,
                ys@.len() == orig.len(),
                forall|t: int|
                    0 <= t < orig.len() ==> ys@[t] as int == wrap32(
                        orig[t] + dict_sum(words@, wts@, hay@, t - padding, k as int)
                            + dict_word_sum(words@[k as int]@, wts@[k as int], hay@, t - padding, e as int),
                    ),
            decreases hay@.len() - e,
        {
            if is_match_end_chars(&words[k], hay, e) {
                let ghost prev = ys@;
                let m = words[k].len();
                add_dict_word(ys, padding, e, m, wts[k]);
                proof {
                    assert forall|t: int| 0 <= t < orig.len() implies ys@[t] as int == wrap32(
                        orig[t] + dict_sum(words@, wts@, hay@, t - padding, k as int)
                            + dict_word_sum(words@[k as int]@, wts@[k as int], hay@, t - padding, e + 1),
                    ) by {
                        let s0 = orig[t] + dict_sum(words@, wts@, hay@, t - padding, k as int)
                            + dict_word_sum(words@[k as int]@, wts@[k as int], hay@, t - padding, e as int);
                        let d = dict_slot(m as int, wts@[k as int], (padding + e) as int, t);
                        assert(ys@[t] as int == wrap32(prev[t] + d));
                        lemma_wrap32_add(s0, d);
                        assert(dict_slot(m as int, wts@[k as int], e as int, t - padding) == d);
                    }
                }
            }
            e += 1;
        }
        k += 1;
    }
}

/// Adds, for every occurrence of every pattern, the pattern's weight vector
/// into `ys` starting at slot `padding + e - win`, where `e` is the index
/// of the occurrence's last character.
pub fn add_ngram_scores_chars(
    pats: &Vec<Vec<char>>,
    ws: &Vec<Vec<i32>>,
    hay: &Vec<char>,
    win: usize,
    padding: usize,
    ys: &mut Vec<i32>,
)
    requires
        win <= padding,
        pats@.len() == ws@.len(),
        padding + hay@.len() <= usize::MAX,
    ensures
        final(ys)@.len() == old(ys)@.len(),
        forall|t: int|
            0 <= t < old(ys)@.len() ==> final(ys)@[t] as int == wrap32(
                old(ys)@[t] + ngrams_sum(pats@, ws@, hay@, win as int, t - padding, pats@.len() as int),
            ),
{
    let ghost orig = ys@;
    let mut k: usize = 0;
    while k < pats.len()
        invariant
            k <= pats@.len(),
            pats@.len() == ws@.len(),
            win <= padding,
            padding + hay@.len() <= usize::MAX,
            ys@.len() == orig.len(),
            forall|t: int|
                0 <= t < orig.len() ==> ys@[t] as int == wrap32(
                    orig[t] + ngrams_sum(pats@, ws@, hay@, win as int, t - padding, k as int),
                ),
        decreases pats@.len() - k,
    {
        let mut e: usize = 0;
        while e < hay.len()
            invariant
                e <= hay@.len(),
                k < pats@.len(),
                pats@.len() == ws@.len(),
                win <= padding,
                padding + hay@.len() <= usize::MAX,
                ys@.len() == orig.len(),
                forall|t: int|
                    0 <= t < orig.len() ==> ys@[t] as int == wrap32(
                        orig[t] + ngrams_sum(pats@, ws@, hay@, win as int, t - padding, k as int)
                            + entry_sum(pats@[k as int]@, ws@[k as int]@, hay@, win as int, t - padding, e as int),
                    ),
            decreases hay@.len() - e,
        {
            if is_match_end_chars(&pats[k], hay, e) {
                let ghost prev = ys@;
                let base = padding + e - win;
                add_weights(ys, base, &ws[k]);
                proof {
                    assert forall|t: int| 0 <= t < orig.len() implies ys@[t] as int == wrap32(
                        orig[t] + ngrams_sum(pats@, ws@, hay@, win as int, t - padding, k as int)
                            + entry_sum(pats@[k as int]@, ws@[k as int]@, hay@, win as int, t - padding, e + 1),
                    ) by {
                        let s0 = orig[t] + ngrams_sum(pats@, ws@, hay@, win as int, t - padding, k as int)
                            + entry_sum(pats@[k as int]@, ws@[k as int]@, hay@, win as int, t - padding, e as int);
                        let d = win_slot(ws@[k as int]@, base as int, t);
                        assert(ys@[t] as int == wrap32(prev[t] + d));
                        lemma_wrap32_add(s0, d);
                        assert(win_slot(ws@[k as int]@, e - win, t - padding) == d);
                    }
                }
            }
            e += 1;
        }
        k += 1;
    }
}

/// Adds, for every occurrence of every pattern, the pattern's weight vector
/// into `ys` starting at slot `padding + e - win`, where `e` is the index
/// of the occurrence's last byte.
pub fn add_ngram_scores_bytes(
    pats: &Vec<Vec<u8>>,
    ws: &Vec<Vec<i32>>,
    hay: &Vec<u8>,
    win: usize,
    padding: usize,
    ys: &mut Vec<i32>,
)
    requires
        win <= padding,
        pats@.len() == ws@.len(),
        padding + hay@.len() <= usize::MAX,
    ensures
        final(ys)@.len() == old(ys)@.len(),
        forall|t: int|
            0 <= t < old(ys)@.len() ==> final(ys)@[t] as int == wrap32(
                old(ys)@[t] + ngrams_sum(pats@, ws@, hay@, win as int, t - padding, pats@.len() as int),
            ),
{
    let ghost orig = ys@;
    let mut k: usize = 0;
    while k < pats.len()
        invariant
            k <= pats@.len(),
            pats@.len() == ws@.len(),
            win <= padding,
            padding + hay@.len() <= usize::MAX,
            ys@.len() == orig.len(),
            forall|t: int|
                0 <= t < orig.len() ==> ys@[t] as int == wrap32(
                    orig[t] + ngrams_sum(pats@, ws@, hay@, win as int, t - padding, k as int),
                ),
        decreases pats@.len() - k,
    {
        let mut e: usize = 0;
        while e < hay.len()
            invariant
                e <= hay@.len(),
                k < pats@.len(),
                pats@.len() == ws@.len(),
                win <= padding,
                padding + hay@.len() <= usize::MAX,
                ys@.len() == orig.len(),
                forall|t: int|
                    0 <= t < orig.len() ==> ys@[t] as int == wrap32(
                        orig[t] + ngrams_sum(pats@, ws@, hay@, win as int, t - padding, k as int)
                            + entry_sum(pats@[k as int]@, ws@[k as int]@, hay@, win as int, t - padding, e as int),
                    ),
            decreases hay@.len() - e,
        {
            if is_match_end_bytes(&pats[k], hay, e) {
                let ghost prev = ys@;
                let base = padding + e - win;
                add_weights(ys, base, &ws[k]);
                proof {
                    assert forall|t: int| 0 <= t < orig.len() implies ys@[t] as int == wrap32(
                        orig[t] + ngrams_sum(pats@, ws@, hay@, win as int, t - padding, k as int)
                            + entry_sum(pats@[k as int]@, ws@[k as int]@, hay@, win as int, t - padding, e + 1),
                    ) by {
                        let s0 = orig[t] + ngrams_sum(pats@, ws@, hay@, win as int, t - padding, k as int)
                            + entry_sum(pats@[k as int]@, ws@[k as int]@, hay@, win as int, t - padding, e as int);
                        let d = win_slot(ws@[k as int]@, base as int, t);
                        assert(ys@[t] as int == wrap32(prev[t] + d));
                        lemma_wrap32_add(s0, d);
                        assert(win_slot(ws@[k as int]@, e - win, t - padding) == d);
                    }
                }
            }
            e += 1;
        }
        k += 1;
    }
}

} // verus!
