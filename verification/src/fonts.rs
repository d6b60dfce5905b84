//! The list of font families offered to the user: every family once, in
//! ascending order.

use vstd::prelude::*;

verus! {

/// The order of texts: by the first character in which they differ, a
/// character with the smaller code first; a text before each of its longer
/// continuations.
pub open spec fn precedes(a: Seq<char>, b: Seq<char>) -> bool
    decreases a.len(),
{
    if b.len() == 0 {
        false
    } else if a.len() == 0 {
        true
    } else if a[0] != b[0] {
        (a[0] as int) < (b[0] as int)
    } else {
        precedes(a.drop_first(), b.drop_first())
    }
}

/// Compares two texts with `<` on `str`, which orders texts by their bytes
/// and so by the codes of their characters.
#[verifier::external_body]
fn comes_before(a: &str, b: &str) -> (before: bool)
    ensures
        before == precedes(a@, b@),
{
    a < b
}

/// No text precedes itself.
pub proof fn lemma_precedes_irreflexive(a: Seq<char>)
    ensures
        !precedes(a, a),
    decreases a.len(),
{
    if a.len() > 0 {
        lemma_precedes_irreflexive(a.drop_first());
    }
}

/// Of two different texts one precedes the other.
pub proof fn lemma_precedes_total(a: Seq<char>, b: Seq<char>)
    ensures
        a == b || precedes(a, b) || precedes(b, a),
    decreases a.len(),
{
    if a.len() > 0 && b.len() > 0 {
        if a[0] == b[0] {
            lemma_precedes_total(a.drop_first(), b.drop_first());
            if a.drop_first() == b.drop_first() {
                assert(a =~= seq![a[0]] + a.drop_first());
                assert(b =~= seq![b[0]] + b.drop_first());
            }
        } else {
            assert(a[0] as int != b[0] as int);
        }
    } else if a.len() == 0 && b.len() == 0 {
        assert(a =~= b);
    }
}

/// What precedes a text precedes all that the text precedes.
pub proof fn lemma_precedes_transitive(a: Seq<char>, b: Seq<char>, c: Seq<char>)
    requires
        precedes(a, b),
        precedes(b, c),
    ensures
        precedes(a, c),
    decreases a.len(),
{
    if a.len() > 0 {
        if a[0] == b[0] && b[0] == c[0] {
            lemma_precedes_transitive(a.drop_first(), b.drop_first(), c.drop_first());
        }
    }
}

/// Each text precedes all that follow it.
pub open spec fn strictly_ascending(names: Seq<String>) -> bool {
    forall|i: int, j: int| 0 <= i < j < names.len() ==> precedes(#[trigger] names[i]@, #[trigger] names[j]@)
}

/// Whether `text` is the text of one of `names`.
pub open spec fn holds(names: Seq<String>, text: Seq<char>) -> bool {
    exists|i: int| 0 <= i < names.len() && #[trigger] names[i]@ == text
}

/// Lists the given family names in ascending order, each one once.
pub fn sorted_families(names: &Vec<String>) -> (families: Vec<String>)
    ensures
        strictly_ascending(families@),
        forall|i: int, j: int|
            0 <= i < j < families.len() ==> #[trigger] families[i]@ != #[trigger] families[j]@,
        forall|text: Seq<char>|
            #![trigger holds(families@, text)]
            #![trigger holds(names@, text)]
            holds(families@, text) <==> holds(names@, text),
{
    let mut families: Vec<String> = Vec::new();
    let mut n: usize = 0;
    while n < names.len()
        invariant
            0 <= n <= names.len(),
            strictly_ascending(families@),
            forall|text: Seq<char>|
                #![trigger holds(families@, text)]
                #![trigger holds(names@.subrange(0, n as int), text)]
                holds(families@, text) <==> holds(names@.subrange(0, n as int), text),
        decreases names.len() - n,
    {
        let name = &names[n];
        let ghost before = families@;
        let ghost seen = names@.subrange(0, n as int);
        let ghost seen_after = names@.subrange(0, n + 1);
        let mut at: usize = 0;
        #[verifier::loop_isolation(false)]
        while at < families.len() && comes_before(families[at].as_str(), name.as_str())
            invariant
                0 <= at <= families.len(),
                families@ == before,
                forall|k: int| 0 <= k < at ==> precedes(#[trigger] families@[k]@, name@),
            decreases families.len() - at,
        {
            at += 1;
        }
        let fresh = at == families.len() || comes_before(name.as_str(), families[at].as_str());
        if fresh {
            families.insert(at, name.clone());
            proof {
                let after = families@;
                assert forall|i: int, j: int| 0 <= i < j < after.len() implies precedes(
                    #[trigger] after[i]@,
                    #[trigger] after[j]@,
                ) by {
                    if j == at {
                        assert(after[i] == before[i]);
                    } else if i == at {
                        assert(after[j] == before[j - 1]);
                        if j - 1 > at {
                            lemma_precedes_transitive(name@, before[at as int]@, before[j - 1]@);
                        }
                    } else {
                        let bi = if i < at { i } else { i - 1 };
                        let bj = if j < at { j } else { j - 1 };
                        assert(after[i] == before[bi]);
                        assert(after[j] == before[bj]);
                    }
                }
                assert forall|text: Seq<char>| holds(after, text) <==> holds(
                    seen_after,
                    text,
                ) by {
                    if holds(after, text) {
                        let i = choose|i: int| 0 <= i < after.len() && #[trigger] after[i]@ == text;
                        if i == at {
                            assert(seen_after[n as int]@ == text);
                        } else {
                            let bi = if i < at { i } else { i - 1 };
                            assert(before[bi]@ == text);
                            assert(holds(before, text));
                            let k = choose|k: int| 0 <= k < seen.len() && #[trigger] seen[k]@ == text;
                            assert(seen_after[k]@ == text);
                        }
                    }
                    if holds(seen_after, text) {
                        let k = choose|k: int|
                            0 <= k < seen_after.len() && #[trigger] seen_after[k]@ == text;
                        if k == n {
                            assert(after[at as int]@ == text);
                        } else {
                            assert(seen[k]@ == text);
                            assert(holds(seen, text));
                            let i = choose|i: int| 0 <= i < before.len() && #[trigger] before[i]@ == text;
                            let ai = if i < at { i } else { i + 1 };
                            assert(after[ai]@ == text);
                        }
                    }
                }
            }
        } else {
            proof {
                lemma_precedes_total(name@, before[at as int]@);
                assert(before[at as int]@ == name@);
                assert forall|text: Seq<char>| holds(before, text) <==> holds(
                    seen_after,
                    text,
                ) by {
                    if holds(before, text) {
                        assert(holds(seen, text));
                        let k = choose|k: int| 0 <= k < seen.len() && #[trigger] seen[k]@ == text;
                        assert(seen_after[k]@ == text);
                    }
                    if holds(seen_after, text) {
                        let k = choose|k: int|
                            0 <= k < seen_after.len() && #[trigger] seen_after[k]@ == text;
                        if k == n {
                            assert(before[at as int]@ == text);
                        } else {
                            assert(seen[k]@ == text);
                        }
                    }
                }
            }
        }
        n += 1;
    }
    proof {
        assert(names@.subrange(0, n as int) =~= names@);
        assert forall|i: int, j: int| 0 <= i < j < families.len() implies #[trigger] families[i]@
            != #[trigger] families[j]@ by {
            lemma_precedes_irreflexive(families[i]@);
        }
    }
    families
}

} // verus!
