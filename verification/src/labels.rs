use vstd::prelude::*;
use vstd::utf8::char_u32_cast;

verus! {

/// Lexicographic order on character sequences, by code point: the order
/// backup-root labels are compared in. On the fixed-width, zero-padded
/// timestamp labels this coincides with chronological order.
pub open spec fn lex_le(a: Seq<char>, b: Seq<char>) -> bool
    decreases a.len(),
{
    if a.len() == 0 {
        true
    } else if b.len() == 0 {
        false
    } else if a[0] == b[0] {
        lex_le(a.skip(1), b.skip(1))
    } else {
        (a[0] as u32) < (b[0] as u32)
    }
}

/// Any two sequences are comparable.
pub proof fn lemma_lex_total(a: Seq<char>, b: Seq<char>)
    ensures
        lex_le(a, b) || lex_le(b, a),
    decreases a.len(),
{
    if a.len() > 0 && b.len() > 0 {
        if a[0] == b[0] {
            lemma_lex_total(a.skip(1), b.skip(1));
        } else {
            assert(a[0] as u32 != b[0] as u32) by {
                if a[0] as u32 == b[0] as u32 {
                    char_u32_cast(a[0], a[0] as u32);
                    char_u32_cast(b[0], b[0] as u32);
                }
            }
        }
    }
}

/// The order chains.
pub proof fn lemma_lex_transitive(a: Seq<char>, b: Seq<char>, c: Seq<char>)
    requires
        lex_le(a, b),
        lex_le(b, c),
    ensures
        lex_le(a, c),
    decreases a.len(),
{
    if a.len() == 0 {
    } else if b.len() == 0 {
    } else if c.len() == 0 {
    } else if a[0] == b[0] && b[0] == c[0] {
        lemma_lex_transitive(a.skip(1), b.skip(1), c.skip(1));
    }
}

/// The order is reflexive.
pub proof fn lemma_lex_refl(a: Seq<char>)
    ensures
        lex_le(a, a),
{
    lemma_lex_total(a, a);
}

/// Comparing two concatenations with equal-length left parts: equal left
/// parts hand the decision to the right parts, different left parts
/// decide it alone.
pub proof fn lemma_lex_concat(a1: Seq<char>, a2: Seq<char>, b1: Seq<char>, b2: Seq<char>)
    requires
        a1.len() == b1.len(),
    ensures
        a1 == b1 ==> lex_le(a1 + a2, b1 + b2) == lex_le(a2, b2),
        a1 != b1 ==> lex_le(a1 + a2, b1 + b2) == lex_le(a1, b1),
    decreases a1.len(),
{
    if a1.len() == 0 {
        assert(a1 =~= b1);
        assert(a1 + a2 =~= a2);
        assert(b1 + b2 =~= b2);
    } else {
        assert((a1 + a2)[0] == a1[0]);
        assert((b1 + b2)[0] == b1[0]);
        if a1[0] == b1[0] {
            assert((a1 + a2).skip(1) =~= a1.skip(1) + a2);
            assert((b1 + b2).skip(1) =~= b1.skip(1) + b2);
            lemma_lex_concat(a1.skip(1), a2, b1.skip(1), b2);
            if a1.skip(1) == b1.skip(1) {
                assert(a1 =~= seq![a1[0]] + a1.skip(1));
                assert(b1 =~= seq![b1[0]] + b1.skip(1));
                assert(a1 == b1);
            } else {
                assert(a1 != b1);
            }
        }
    }
}

/// Decide `lex_le` on two strings.
pub fn str_lex_le(a: &str, b: &str) -> (r: bool)
    ensures
        r == lex_le(a@, b@),
{
    let a_len = a.unicode_len();
    let b_len = b.unicode_len();
    proof {
        assert(a@.skip(0) =~= a@);
        assert(b@.skip(0) =~= b@);
    }
    let mut i: usize = 0;
    loop
        invariant
            0 <= i <= a_len,
            0 <= i <= b_len,
            a_len == a@.len(),
            b_len == b@.len(),
            lex_le(a@, b@) == lex_le(a@.skip(i as int), b@.skip(i as int)),
        decreases a_len - i,
    {
        if i == a_len {
            proof {
                assert(a@.skip(i as int).len() == 0);
            }
            return true;
        }
        if i == b_len {
            proof {
                assert(b@.skip(i as int).len() == 0);
                assert(a@.skip(i as int).len() > 0);
            }
            return false;
        }
        let ca = a.get_char(i);
        let cb = b.get_char(i);
        proof {
            assert(a@.skip(i as int)[0] == a@[i as int]);
            assert(b@.skip(i as int)[0] == b@[i as int]);
        }
        if ca != cb {
            return (ca as u32) < (cb as u32);
        }
        proof {
            assert(a@.skip(i as int).skip(1) =~= a@.skip(i as int + 1));
            assert(b@.skip(i as int).skip(1) =~= b@.skip(i as int + 1));
        }
        i += 1;
    }
}

/// Pick the backup root to revert to: the lexicographically greatest
/// label, which for timestamp labels is the most recent one. `None`
/// exactly when there is no backup at all.
pub fn select_latest(labels: &Vec<String>) -> (r: Option<usize>)
    ensures
        r is None <==> labels@.len() == 0,
        (r matches Some(best) ==> best < labels@.len() && forall|j: int|
            0 <= j < labels@.len() ==> lex_le((#[trigger] labels@[j])@, labels@[best as int]@)),
{
    let n = labels.len();
    if n == 0 {
        return None;
    }
    let mut best: usize = 0;
    proof {
        lemma_lex_total(labels@[0]@, labels@[0]@);
    }
    let mut i: usize = 1;
    while i < n
        invariant
            1 <= i <= n,
            n == labels@.len(),
            best < i,
            forall|j: int| 0 <= j < i ==> lex_le((#[trigger] labels@[j])@, labels@[best as int]@),
        decreases n - i,
    {
        let ghost old_best = best as int;
        if str_lex_le(labels[best].as_str(), labels[i].as_str()) {
            best = i;
            proof {
                assert forall|j: int|
                    0 <= j < i + 1 implies lex_le(
                    (#[trigger] labels@[j])@,
                    labels@[best as int]@,
                ) by {
                    if j < i {
                        lemma_lex_transitive(
                            labels@[j]@,
                            labels@[old_best]@,
                            labels@[best as int]@,
                        );
                    } else {
                        lemma_lex_total(labels@[j]@, labels@[j]@);
                    }
                }
            }
        } else {
            proof {
                lemma_lex_total(labels@[best as int]@, labels@[i as int]@);
            }
        }
        i += 1;
    }
    Some(best)
}

/// Newest first: every later entry is lexicographically no greater than
/// every earlier one.
pub open spec fn sorted_desc(s: Seq<Seq<char>>) -> bool {
    forall|i: int, j: int| 0 <= i < j < s.len() ==> lex_le(#[trigger] s[j], #[trigger] s[i])
}

/// Order the backup labels newest first, as the revert browser lists
/// them: a descending permutation of the input.
pub fn sort_labels_desc(labels: &Vec<String>) -> (r: Vec<String>)
    ensures
        sorted_desc(r@.map_values(|s: String| s@)),
        r@.map_values(|s: String| s@).to_multiset() == labels@.map_values(
            |s: String| s@,
        ).to_multiset(),
{
    broadcast use vstd::seq_lib::group_to_multiset_ensures;

    let ghost lm = labels@.map_values(|s: String| s@);
    let mut out: Vec<String> = Vec::new();
    let n = labels.len();
    let mut i: usize = 0;
    while i < n
        invariant
            0 <= i <= n,
            n == labels@.len(),
            lm == labels@.map_values(|s: String| s@),
            sorted_desc(out@.map_values(|s: String| s@)),
            out@.map_values(|s: String| s@).to_multiset() == lm.take(i as int).to_multiset(),
        decreases n - i,
    {
        let x = labels[i].clone();
        let ghost before = out@.map_values(|s: String| s@);
        let mut pos: usize = 0;
        while pos < out.len() && !str_lex_le(out[pos].as_str(), x.as_str())
            invariant
                0 <= pos <= out@.len(),
                i < labels@.len(),
                x == labels@[i as int],
                before == out@.map_values(|s: String| s@),
                forall|q: int| 0 <= q < pos ==> !lex_le(#[trigger] before[q], x@),
            decreases out@.len() - pos,
        {
            pos += 1;
        }
        let ghost at_end = pos == out@.len();
        out.insert(pos, x);
        proof {
            let after = out@.map_values(|s: String| s@);
            assert(after =~= before.insert(pos as int, labels@[i as int]@));
            let xx = labels@[i as int]@;
            assert forall|a: int, b: int|
                0 <= a < b < after.len() implies lex_le(#[trigger] after[b], #[trigger] after[a]) by {
                if b < pos {
                    assert(after[a] == before[a] && after[b] == before[b]);
                } else if a > pos {
                    assert(after[a] == before[a - 1] && after[b] == before[b - 1]);
                } else if a < pos && b == pos {
                    assert(after[a] == before[a] && after[b] == xx);
                    lemma_lex_total(before[a], xx);
                } else if a == pos && b > pos {
                    assert(after[a] == xx && after[b] == before[b - 1]);
                    assert(lex_le(before[pos as int], xx));
                    if b - 1 > pos {
                        lemma_lex_transitive(before[b - 1], before[pos as int], xx);
                    }
                } else {
                    assert(a < pos && b > pos);
                    assert(after[a] == before[a] && after[b] == before[b - 1]);
                }
            }
            vstd::seq_lib::to_multiset_insert(before, pos as int, xx);
            assert(lm.take(i as int + 1) =~= lm.take(i as int).push(xx));
            vstd::seq_lib::to_multiset_build(lm.take(i as int), xx);
        }
        i += 1;
    }
    proof {
        assert(lm.take(n as int) =~= lm);
    }
    out
}

} // verus!
