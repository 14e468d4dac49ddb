//! Lexicographic order on member names, by Unicode scalar value.

use vstd::prelude::*;

verus! {

/// `a` sorts strictly before `b`: character by character, a proper prefix first.
pub open spec fn lex_lt(a: Seq<char>, b: Seq<char>) -> bool
    decreases a.len(),
{
    if a.len() == 0 {
        b.len() > 0
    } else if b.len() == 0 {
        false
    } else if a[0] != b[0] {
        (a[0] as int) < (b[0] as int)
    } else {
        lex_lt(a.drop_first(), b.drop_first())
    }
}

/// No name sorts before itself.
pub proof fn lemma_lex_irreflexive(a: Seq<char>)
    ensures
        !lex_lt(a, a),
    decreases a.len(),
{
    if a.len() > 0 {
        lemma_lex_irreflexive(a.drop_first());
    }
}

/// The order is transitive.
pub proof fn lemma_lex_transitive(a: Seq<char>, b: Seq<char>, c: Seq<char>)
    requires
        lex_lt(a, b),
        lex_lt(b, c),
    ensures
        lex_lt(a, c),
    decreases a.len(),
{
    if a.len() > 0 && b.len() > 0 && c.len() > 0 {
        if a[0] == b[0] && b[0] == c[0] {
            lemma_lex_transitive(a.drop_first(), b.drop_first(), c.drop_first());
        }
    }
}

/// Compares two names in the order `lex_lt`; `r == 0` when equal,
/// `r < 0` when `a` sorts first, `r > 0` when `b` does.
pub fn compare_names(a: &String, b: &String) -> (r: i8)
    ensures
        r == 0 <==> a@ == b@,
        r < 0 <==> lex_lt(a@, b@),
        r > 0 <==> lex_lt(b@, a@),
{
    let sa = a.as_str();
    let sb = b.as_str();
    let la = sa.unicode_len();
    let lb = sb.unicode_len();
    let mut i: usize = 0;
    while i < la && i < lb
        invariant
            la == a@.len(),
            lb == b@.len(),
            sa@ == a@,
            sb@ == b@,
            i <= la,
            i <= lb,
            a@.subrange(0, i as int) == b@.subrange(0, i as int),
        decreases la - i,
    {
        let ca = sa.get_char(i);
        let cb = sb.get_char(i);
        if ca != cb {
            proof {
                lemma_lex_after_common(a@, b@, i as nat);
                lemma_lex_after_common(b@, a@, i as nat);
            }
            if (ca as u32) < (cb as u32) {
                return -1;
            } else {
                return 1;
            }
        }
        proof {
            assert(a@.subrange(0, i + 1) =~= a@.subrange(0, i as int).push(ca));
            assert(b@.subrange(0, i + 1) =~= b@.subrange(0, i as int).push(cb));
        }
        i = i + 1;
    }
    proof {
        lemma_lex_after_common(a@, b@, i as nat);
        lemma_lex_after_common(b@, a@, i as nat);
        lemma_lex_irreflexive(a@);
    }
    if la == lb {
        proof {
            assert(a@ =~= a@.subrange(0, i as int));
            assert(b@ =~= b@.subrange(0, i as int));
        }
        0
    } else if la < lb {
        -1
    } else {
        1
    }
}

/// Past a common prefix of length `n`, the order is decided by what follows.
proof fn lemma_lex_after_common(a: Seq<char>, b: Seq<char>, n: nat)
    requires
        n <= a.len(),
        n <= b.len(),
        a.subrange(0, n as int) == b.subrange(0, n as int),
    ensures
        lex_lt(a, b) == lex_lt(a.subrange(n as int, a.len() as int), b.subrange(n as int, b.len() as int)),
    decreases n,
{
    if n > 0 {
        assert(a[0] == a.subrange(0, n as int)[0]);
        assert(b[0] == b.subrange(0, n as int)[0]);
        assert(a.drop_first().subrange(0, n - 1) =~= a.subrange(0, n as int).drop_first());
        assert(b.drop_first().subrange(0, n - 1) =~= b.subrange(0, n as int).drop_first());
        lemma_lex_after_common(a.drop_first(), b.drop_first(), (n - 1) as nat);
        assert(a.drop_first().subrange(n - 1, a.len() - 1) =~= a.subrange(n as int, a.len() as int));
        assert(b.drop_first().subrange(n - 1, b.len() - 1) =~= b.subrange(n as int, b.len() as int));
    } else {
        assert(a.subrange(0, a.len() as int) =~= a);
        assert(b.subrange(0, b.len() as int) =~= b);
    }
}

} // verus!
