use vstd::prelude::*;
use core::cmp::Ordering;

verus! {

/// Lexicographic order on names, character by character, by code point.
/// On Rust strings this is the order of `str::cmp`, which compares UTF-8 bytes.
pub open spec fn name_lt(a: Seq<char>, b: Seq<char>) -> bool
    decreases a.len(),
{
    if a.len() == 0 {
        b.len() > 0
    } else if b.len() == 0 {
        false
    } else if a[0] != b[0] {
        (a[0] as int) < (b[0] as int)
    } else {
        name_lt(a.drop_first(), b.drop_first())
    }
}

pub proof fn lemma_name_lt_irreflexive(a: Seq<char>)
    ensures
        !name_lt(a, a),
    decreases a.len(),
{
    if a.len() > 0 {
        lemma_name_lt_irreflexive(a.drop_first());
    }
}

pub proof fn lemma_name_lt_total(a: Seq<char>, b: Seq<char>)
    ensures
        a == b || name_lt(a, b) || name_lt(b, a),
    decreases a.len(),
{
    if a.len() > 0 && b.len() > 0 {
        if a[0] == b[0] {
            lemma_name_lt_total(a.drop_first(), b.drop_first());
            if a.drop_first() == b.drop_first() {
                assert(a =~= seq![a[0]] + a.drop_first());
                assert(b =~= seq![b[0]] + b.drop_first());
            }
        } else {
            assert((a[0] as int) != (b[0] as int));
        }
    } else if a.len() == 0 && b.len() == 0 {
        assert(a =~= b);
    }
}

pub proof fn lemma_name_lt_asymmetric(a: Seq<char>, b: Seq<char>)
    ensures
        !(name_lt(a, b) && name_lt(b, a)),
    decreases a.len(),
{
    if a.len() > 0 && b.len() > 0 && a[0] == b[0] {
        lemma_name_lt_asymmetric(a.drop_first(), b.drop_first());
    }
}

pub proof fn lemma_name_lt_transitive(a: Seq<char>, b: Seq<char>, c: Seq<char>)
    requires
        name_lt(a, b),
        name_lt(b, c),
    ensures
        name_lt(a, c),
    decreases a.len(),
{
    if a.len() > 0 && b.len() > 0 && c.len() > 0 {
        if a[0] == b[0] && b[0] == c[0] {
            lemma_name_lt_transitive(a.drop_first(), b.drop_first(), c.drop_first());
        }
    }
}

/// Compares two names in the order of `name_lt`.
pub fn compare_names(a: &str, b: &str) -> (r: Ordering)
    ensures
        r == Ordering::Less <==> name_lt(a@, b@),
        r == Ordering::Equal <==> a@ == b@,
        r == Ordering::Greater <==> name_lt(b@, a@),
{
    let la = a.unicode_len();
    let lb = b.unicode_len();
    let mut i: usize = 0;
    proof {
        assert(a@.subrange(0, la as int) =~= a@);
        assert(b@.subrange(0, lb as int) =~= b@);
    }
    while i < la && i < lb
        invariant
            la == a@.len(),
            lb == b@.len(),
            i <= la,
            i <= lb,
            a@.subrange(0, i as int) == b@.subrange(0, i as int),
            name_lt(a@, b@) == name_lt(a@.subrange(i as int, la as int), b@.subrange(i as int, lb as int)),
            name_lt(b@, a@) == name_lt(b@.subrange(i as int, lb as int), a@.subrange(i as int, la as int)),
        decreases la - i,
    {
        let ca = a.get_char(i);
        let cb = b.get_char(i);
        let ghost sa = a@.subrange(i as int, la as int);
        let ghost sb = b@.subrange(i as int, lb as int);
        if ca != cb {
            proof {
                lemma_name_lt_asymmetric(a@, b@);
                assert(sa[0] == ca);
                assert(sb[0] == cb);
                assert(a@ != b@) by {
                    assert(a@[i as int] != b@[i as int]);
                }
            }
            if ca < cb {
                return Ordering::Less;
            } else {
                return Ordering::Greater;
            }
        }
        proof {
            assert(sa.drop_first() =~= a@.subrange(i + 1, la as int));
            assert(sb.drop_first() =~= b@.subrange(i + 1, lb as int));
            assert(a@.subrange(0, i + 1) =~= a@.subrange(0, i as int).push(ca));
            assert(b@.subrange(0, i + 1) =~= b@.subrange(0, i as int).push(cb));
        }
        i = i + 1;
    }
    proof {
        lemma_name_lt_asymmetric(a@, b@);
    }
    if la < lb {
        proof {
            assert(a@ =~= a@.subrange(0, i as int));
            assert(a@ != b@);
        }
        Ordering::Less
    } else if lb < la {
        proof {
            assert(b@ =~= b@.subrange(0, i as int));
            assert(a@ != b@);
        }
        Ordering::Greater
    } else {
        proof {
            assert(a@ =~= a@.subrange(0, i as int));
            assert(b@ =~= b@.subrange(0, i as int));
            lemma_name_lt_irreflexive(a@);
        }
        Ordering::Equal
    }
}

} // verus!
