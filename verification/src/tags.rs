//! The tag listing: the distinct tags across all articles, sorted
//! case-insensitively.

use vstd::prelude::*;
use vstd::multiset::Multiset;
use crate::models::TagList;
use crate::store::{ArticleRow, Store};

verus! {

/// Whether some tag in `tags` has the given characters.
pub open spec fn tag_in_views(tags: Seq<String>, t: Seq<char>) -> bool {
    exists|k: int| 0 <= k < tags.len() && (#[trigger] tags[k])@ == t
}

/// Whether some article carries a tag with the given characters.
pub open spec fn tag_of_some_article(t: Seq<char>, articles: Seq<ArticleRow>) -> bool {
    exists|i: int, j: int|
        0 <= i < articles.len() && 0 <= j < (#[trigger] articles[i]).tag_list@.len() && (
        #[trigger] articles[i].tag_list@[j])@ == t
}

/// A character's code point, with an upper-case letter folded to its
/// lower-case counterpart.
pub open spec fn fold_code(c: char) -> int {
    if 65 <= c as int && c as int <= 90 {
        c as int + 32
    } else {
        c as int
    }
}

/// Case-insensitive lexicographic order on character sequences.
pub open spec fn lex_le(a: Seq<char>, b: Seq<char>) -> bool
    decreases a.len(),
{
    if a.len() == 0 {
        true
    } else if b.len() == 0 {
        false
    } else if fold_code(a[0]) < fold_code(b[0]) {
        true
    } else if fold_code(a[0]) > fold_code(b[0]) {
        false
    } else {
        lex_le(a.subrange(1, a.len() as int), b.subrange(1, b.len() as int))
    }
}

/// Law: the case-insensitive lexicographic order is total.
pub proof fn lemma_lex_total(a: Seq<char>, b: Seq<char>)
    ensures
        lex_le(a, b) || lex_le(b, a),
    decreases a.len(),
{
    if a.len() == 0 || b.len() == 0 {
    } else if fold_code(a[0]) == fold_code(b[0]) {
        lemma_lex_total(a.subrange(1, a.len() as int), b.subrange(1, b.len() as int));
    }
}

/// Law: the case-insensitive lexicographic order is transitive.
pub proof fn lemma_lex_trans(a: Seq<char>, b: Seq<char>, c: Seq<char>)
    requires
        lex_le(a, b),
        lex_le(b, c),
    ensures
        lex_le(a, c),
    decreases a.len(),
{
    if a.len() == 0 {
    } else if b.len() == 0 {
    } else if c.len() == 0 {
    } else {
        if fold_code(a[0]) == fold_code(b[0]) && fold_code(b[0]) == fold_code(c[0]) {
            lemma_lex_trans(
                a.subrange(1, a.len() as int),
                b.subrange(1, b.len() as int),
                c.subrange(1, c.len() as int),
            );
        }
    }
}

/// A character's code point with upper-case letters folded down.
fn fold_code_exec(c: char) -> (r: u32)
    ensures
        r as int == fold_code(c),
{
    let u = c as u32;
    if 65 <= u && u <= 90 {
        u + 32
    } else {
        u
    }
}

/// Decides the case-insensitive lexicographic order on strings.
fn str_lex_le(a: &str, b: &str) -> (r: bool)
    ensures
        r == lex_le(a@, b@),
    decreases a@.len(),
{
    let an = a.unicode_len();
    let bn = b.unicode_len();
    if an == 0 {
        true
    } else if bn == 0 {
        false
    } else {
        let fa = fold_code_exec(a.get_char(0));
        let fb = fold_code_exec(b.get_char(0));
        if fa < fb {
            true
        } else if fa > fb {
            false
        } else {
            str_lex_le(a.substring_char(1, an), b.substring_char(1, bn))
        }
    }
}

/// Decides whether some tag in the list has the same characters.
fn vec_contains_view(v: &Vec<String>, s: &str) -> (r: bool)
    ensures
        r == tag_in_views(v@, s@),
{
    let n = v.len();
    let mut k: usize = 0;
    while k < n
        invariant
            0 <= k <= n,
            n == v@.len(),
            forall|m: int| 0 <= m < k ==> (#[trigger] v@[m])@ != s@,
        decreases n - k,
    {
        if crate::text::str_eq(v[k].as_str(), s) {
            return true;
        }
        k += 1;
    }
    false
}

/// Two positions holding the same value put its count at two or more.
proof fn lemma_two_indexes_count(s: Seq<String>, k1: int, k2: int)
    requires
        0 <= k1 < k2 < s.len(),
        s[k1] == s[k2],
    ensures
        s.to_multiset().count(s[k1]) >= 2,
{
    s.to_multiset_ensures();
    let x = s[k1];
    let rest = s.remove(k1);
    rest.to_multiset_ensures();
    assert(rest.to_multiset() =~= s.to_multiset().remove(x));
    assert(rest[k2 - 1] == x);
    assert(rest.contains(x));
    assert(rest.to_multiset().count(x) > 0);
    assert(s.to_multiset().count(x) == rest.to_multiset().count(x) + 1) by {
        broadcast use vstd::multiset::group_multiset_axioms;

        assert(s.contains(x));
        assert(s.to_multiset().count(x) > 0);
    }
}

/// Sorts tags case-insensitively: the result is a permutation of the input
/// with the same tag views, sorted.
fn sort_tags(tags: Vec<String>) -> (r: Vec<String>)
    ensures
        r@.to_multiset() == tags@.to_multiset(),
        r@.len() == tags@.len(),
        forall|k1: int, k2: int|
            #![trigger r@[k1], r@[k2]]
            0 <= k1 < k2 < r@.len() ==> lex_le(r@[k1]@, r@[k2]@),
        forall|t: Seq<char>| tag_in_views(r@, t) == tag_in_views(tags@, t),
{
    broadcast use vstd::seq_lib::group_to_multiset_ensures;

    let mut rest = tags;
    let ghost gtags = rest@;
    let mut out: Vec<String> = Vec::new();
    let ghost total = rest@.to_multiset();
    proof {
        assert(out@.to_multiset().add(rest@.to_multiset()) =~= total);
    }
    while rest.len() > 0
        invariant
            out@.to_multiset().add(rest@.to_multiset()) == total,
            out@.len() + rest@.len() == gtags.len(),
            total == gtags.to_multiset(),
            forall|k1: int, k2: int|
                #![trigger out@[k1], out@[k2]]
                0 <= k1 < k2 < out@.len() ==> lex_le(out@[k1]@, out@[k2]@),
            forall|k1: int, k2: int|
                #![trigger out@[k1], rest@[k2]]
                0 <= k1 < out@.len() && 0 <= k2 < rest@.len() ==> lex_le(
                    out@[k1]@,
                    rest@[k2]@,
                ),
        decreases rest@.len(),
    {
        // select a least remaining tag
        let n = rest.len();
        let mut p: usize = 0;
        let mut k: usize = 1;
        proof {
            lemma_lex_total(rest@[0]@, rest@[0]@);
        }
        while k < n
            invariant
                1 <= k <= n,
                n == rest@.len(),
                p < k,
                forall|m: int| 0 <= m < k ==> lex_le(rest@[p as int]@, (#[trigger] rest@[m])@),
            decreases n - k,
        {
            if str_lex_le(rest[k].as_str(), rest[p].as_str()) {
                proof {
                    assert forall|m: int| 0 <= m < k + 1 implies lex_le(
                        rest@[k as int]@,
                        (#[trigger] rest@[m])@,
                    ) by {
                        if m < k {
                            lemma_lex_trans(rest@[k as int]@, rest@[p as int]@, rest@[m]@);
                        } else {
                            lemma_lex_total(rest@[k as int]@, rest@[k as int]@);
                        }
                    }
                }
                p = k;
            } else {
                proof {
                    lemma_lex_total(rest@[k as int]@, rest@[p as int]@);
                }
            }
            k += 1;
        }
        let ghost old_rest = rest@;
        let ghost old_out = out@;
        let x = rest.remove(p);
        out.push(x);
        proof {
            broadcast use vstd::multiset::group_multiset_axioms;

            old_rest.to_multiset_ensures();
            old_out.to_multiset_ensures();
            assert(old_rest.contains(old_rest[p as int]));
            assert(old_rest.to_multiset().count(old_rest[p as int]) > 0);
            assert(old_rest.remove(p as int).to_multiset() =~= old_rest.to_multiset().remove(
                old_rest[p as int],
            ));
            assert(forall|m: int| 0 <= m < p ==> rest@[m] == old_rest[m]);
            assert(forall|m: int| p <= m < rest@.len() ==> rest@[m] == old_rest[m + 1]);
            assert forall|y: String|
                out@.to_multiset().add(rest@.to_multiset()).count(y) == #[trigger] total.count(
                y,
            ) by {
                assert(old_out.to_multiset().add(old_rest.to_multiset()).count(y) == total.count(
                    y,
                ));
            }
            assert(out@.to_multiset().add(rest@.to_multiset()) =~= total);
        }
    }
    proof {
        assert(rest@.to_multiset() =~= Multiset::<String>::empty());
        assert(out@.to_multiset() =~= total);
        out@.to_multiset_ensures();
        gtags.to_multiset_ensures();
        assert forall|t: Seq<char>| tag_in_views(out@, t) == tag_in_views(gtags, t) by {
            if tag_in_views(out@, t) {
                let k = choose|k: int| 0 <= k < out@.len() && (#[trigger] out@[k])@ == t;
                assert(out@.contains(out@[k]));
                assert(out@.to_multiset().count(out@[k]) > 0);
                assert(gtags.to_multiset().count(out@[k]) > 0);
                assert(gtags.contains(out@[k]));
                let m = choose|m: int| 0 <= m < gtags.len() && gtags[m] == out@[k];
                assert(gtags[m]@ == t);
            }
            if tag_in_views(gtags, t) {
                let k = choose|k: int| 0 <= k < gtags.len() && (#[trigger] gtags[k])@ == t;
                assert(gtags.contains(gtags[k]));
                assert(gtags.to_multiset().count(gtags[k]) > 0);
                assert(out@.to_multiset().count(gtags[k]) > 0);
                assert(out@.contains(gtags[k]));
                let m = choose|m: int| 0 <= m < out@.len() && out@[m] == gtags[k];
                assert(out@[m]@ == t);
            }
        }
    }
    out
}

impl Store {
    /// The distinct tags across all articles, sorted case-insensitively:
    /// exactly the tag values that occur on some article, each once.
    #[verifier::rlimit(100)]
    #[verifier::spinoff_prover]
    pub fn get_tags(&self) -> (r: TagList)
        ensures
            forall|k: int|
                #![trigger r.tags@[k]]
                0 <= k < r.tags@.len() ==> tag_of_some_article(r.tags@[k]@, self.articles@),
            forall|i: int, j: int|
                #![trigger self.articles@[i].tag_list@[j]]
                (0 <= i < self.articles@.len() && 0 <= j < self.articles@[i].tag_list@.len())
                    ==> tag_in_views(r.tags@, self.articles@[i].tag_list@[j]@),
            forall|k1: int, k2: int|
                #![trigger r.tags@[k1], r.tags@[k2]]
                0 <= k1 < k2 < r.tags@.len() ==> r.tags@[k1]@ != r.tags@[k2]@,
            forall|k1: int, k2: int|
                #![trigger r.tags@[k1], r.tags@[k2]]
                0 <= k1 < k2 < r.tags@.len() ==> lex_le(r.tags@[k1]@, r.tags@[k2]@),
    {
        let mut collected: Vec<String> = Vec::new();
        let n = self.articles.len();
        let mut i: usize = 0;
        while i < n
            invariant
                0 <= i <= n,
                n == self.articles@.len(),
                forall|k: int|
                    #![trigger collected@[k]]
                    0 <= k < collected@.len() ==> tag_of_some_article(
                        collected@[k]@,
                        self.articles@,
                    ),
                forall|a: int, b: int|
                    #![trigger self.articles@[a].tag_list@[b]]
                    (0 <= a < i && 0 <= b < self.articles@[a].tag_list@.len()) ==> tag_in_views(
                        collected@,
                        self.articles@[a].tag_list@[b]@,
                    ),
                forall|k1: int, k2: int|
                    #![trigger collected@[k1], collected@[k2]]
                    0 <= k1 < k2 < collected@.len() ==> collected@[k1]@ != collected@[k2]@,
            decreases n - i,
        {
            let row_tags = &self.articles[i].tag_list;
            let m = row_tags.len();
            let mut j: usize = 0;
            while j < m
                invariant
                    0 <= j <= m,
                    0 <= i < n,
                    n == self.articles@.len(),
                    m == self.articles@[i as int].tag_list@.len(),
                    row_tags == &self.articles@[i as int].tag_list,
                    forall|k: int|
                        #![trigger collected@[k]]
                        0 <= k < collected@.len() ==> tag_of_some_article(
                            collected@[k]@,
                            self.articles@,
                        ),
                    forall|a: int, b: int|
                        #![trigger self.articles@[a].tag_list@[b]]
                        (0 <= a < i && 0 <= b < self.articles@[a].tag_list@.len())
                            ==> tag_in_views(collected@, self.articles@[a].tag_list@[b]@),
                    forall|b: int|
                        0 <= b < j ==> tag_in_views(
                            collected@,
                            (#[trigger] self.articles@[i as int].tag_list@[b])@,
                        ),
                    forall|k1: int, k2: int|
                        #![trigger collected@[k1], collected@[k2]]
                        0 <= k1 < k2 < collected@.len() ==> collected@[k1]@ != collected@[k2]@,
                decreases m - j,
            {
                let ghost old_collected = collected@;
                if !vec_contains_view(&collected, row_tags[j].as_str()) {
                    collected.push(row_tags[j].clone());
                    proof {
                        assert(tag_of_some_article(
                            collected@.last()@,
                            self.articles@,
                        )) by {
                            assert(self.articles@[i as int].tag_list@[j as int]@
                                == collected@.last()@);
                        }
                    }
                }
                proof {
                    assert(forall|k: int|
                        0 <= k < old_collected.len() ==> collected@[k] == old_collected[k]);
                    assert(tag_in_views(
                        collected@,
                        self.articles@[i as int].tag_list@[j as int]@,
                    )) by {
                        if tag_in_views(old_collected, self.articles@[i as int].tag_list@[j as int]@) {
                            let k = choose|k: int|
                                0 <= k < old_collected.len() && (#[trigger] old_collected[k])@
                                    == self.articles@[i as int].tag_list@[j as int]@;
                            assert(collected@[k]@ == self.articles@[i as int].tag_list@[j as int]@);
                        } else {
                            assert(collected@.last()@
                                == self.articles@[i as int].tag_list@[j as int]@);
                        }
                    }
                    assert forall|t: Seq<char>|
                        tag_in_views(old_collected, t) implies tag_in_views(collected@, t) by {
                        let k = choose|k: int|
                            0 <= k < old_collected.len() && (#[trigger] old_collected[k])@ == t;
                        assert(collected@[k]@ == t);
                    }
                }
                j += 1;
            }
            i += 1;
        }
        let ghost gcollected = collected@;
        let sorted = sort_tags(collected);
        proof {
            assert forall|k: int|
                0 <= k < sorted@.len() implies tag_of_some_article(
                (#[trigger] sorted@[k])@,
                self.articles@,
            ) by {
                assert(tag_in_views(sorted@, sorted@[k]@));
                assert(tag_in_views(gcollected, sorted@[k]@));
                let m = choose|m: int|
                    0 <= m < gcollected.len() && (#[trigger] gcollected[m])@ == sorted@[k]@;
            }
            assert forall|k1: int, k2: int|
                #![trigger sorted@[k1], sorted@[k2]]
                0 <= k1 < k2 < sorted@.len() implies sorted@[k1]@ != sorted@[k2]@ by {
                if sorted@[k1]@ == sorted@[k2]@ {
                    sorted@.to_multiset_ensures();
                    gcollected.to_multiset_ensures();
                    if sorted@[k1] == sorted@[k2] {
                        lemma_two_indexes_count(sorted@, k1, k2);
                        assert(gcollected.to_multiset().count(sorted@[k1]) >= 2);
                        let a1 = choose|a1: int|
                            0 <= a1 < gcollected.len() && gcollected[a1] == sorted@[k1];
                        let rest = gcollected.remove(a1);
                        rest.to_multiset_ensures();
                        assert(rest.to_multiset() =~= gcollected.to_multiset().remove(
                            sorted@[k1],
                        ));
                        assert(rest.to_multiset().count(sorted@[k1]) >= 1);
                        assert(rest.contains(sorted@[k1]));
                        let a2 = choose|a2: int|
                            0 <= a2 < rest.len() && rest[a2] == sorted@[k1];
                        if a2 < a1 {
                            assert(gcollected[a2] == sorted@[k1]);
                            assert(gcollected[a2]@ == gcollected[a1]@);
                        } else {
                            assert(gcollected[a2 + 1] == sorted@[k1]);
                            assert(gcollected[a2 + 1]@ == gcollected[a1]@);
                        }
                    } else {
                        // two distinct values with one view cannot both come
                        // from a view-distinct source
                        assert(sorted@.contains(sorted@[k1]));
                        assert(sorted@.contains(sorted@[k2]));
                        assert(gcollected.to_multiset().count(sorted@[k1]) > 0);
                        assert(gcollected.to_multiset().count(sorted@[k2]) > 0);
                        assert(gcollected.contains(sorted@[k1]));
                        assert(gcollected.contains(sorted@[k2]));
                        let a1 = choose|a1: int|
                            0 <= a1 < gcollected.len() && gcollected[a1] == sorted@[k1];
                        let a2 = choose|a2: int|
                            0 <= a2 < gcollected.len() && gcollected[a2] == sorted@[k2];
                        assert(a1 != a2);
                        assert(gcollected[a1]@ == gcollected[a2]@);
                    }
                }
            }
        }
        TagList { tags: sorted }
    }
}

} // verus!
