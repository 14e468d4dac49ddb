//! Member kinds, and the members that a sequence of writes leaves.

use vstd::prelude::*;
use crate::order::{compare_names, lemma_lex_irreflexive, lemma_lex_transitive, lex_lt};

verus! {

/// How a member of the exported value is used.
#[derive(Clone, Copy, Debug, PartialEq, Eq, Structural)]
pub enum MemberType {
    /// Declared with receiver syntax: `function M:name() end`.
    Method,
    /// An anonymous function, or `function M.name() end`.
    Function,
    /// Anything else.
    Value,
}

/// The name of a member kind, as callers of the analysis receive it.
pub open spec fn label_of(t: MemberType) -> Seq<char> {
    match t {
        MemberType::Method => "Method"@,
        MemberType::Function => "Function"@,
        MemberType::Value => "Value"@,
    }
}

impl MemberType {
    /// The kind's name: `"Method"`, `"Function"` or `"Value"`.
    pub fn label(&self) -> (r: &'static str)
        ensures
            r@ == label_of(*self),
    {
        match self {
            MemberType::Method => "Method",
            MemberType::Function => "Function",
            MemberType::Value => "Value",
        }
    }
}


/// A name written with the two-underscore internal marker (`__index`).
pub open spec fn is_internal(name: Seq<char>) -> bool {
    name.len() >= 2 && name[0] == '_' && name[1] == '_'
}

/// The members that a sequence of writes leaves, in the order they were
/// made: a later write of a name replaces an earlier one, and internal
/// names are never recorded.
pub open spec fn shape_of(ws: Seq<(Seq<char>, MemberType)>) -> Map<Seq<char>, MemberType>
    decreases ws.len(),
{
    if ws.len() == 0 {
        Map::empty()
    } else {
        let prev = shape_of(ws.drop_last());
        if is_internal(ws.last().0) {
            prev
        } else {
            prev.insert(ws.last().0, ws.last().1)
        }
    }
}

/// What a list of executable entries holds, names as character sequences.
pub open spec fn entries_view(v: Seq<(String, MemberType)>) -> Seq<(Seq<char>, MemberType)> {
    v.map_values(|p: (String, MemberType)| (p.0@, p.1))
}

/// Names in `es` come in strictly increasing order.
pub open spec fn sorted_names(es: Seq<(Seq<char>, MemberType)>) -> bool {
    forall|i: int, j: int| 0 <= i < j < es.len() ==> lex_lt(#[trigger] es[i].0, #[trigger] es[j].0)
}

/// `es` lists the members of `m`, each once, in increasing order of names.
pub open spec fn lists(es: Seq<(Seq<char>, MemberType)>, m: Map<Seq<char>, MemberType>) -> bool {
    &&& sorted_names(es)
    &&& forall|i: int| 0 <= i < es.len() ==> #[trigger] m.contains_key(es[i].0) && m[es[i].0] == es[i].1
    &&& forall|k: Seq<char>| #[trigger] m.contains_key(k) ==> exists|i: int| 0 <= i < es.len() && es[i].0 == k
}

/// Tells whether a name carries the internal marker.
pub fn is_internal_name(name: &String) -> (r: bool)
    ensures
        r == is_internal(name@),
{
    let s = name.as_str();
    let n = s.unicode_len();
    n >= 2 && s.get_char(0) == '_' && s.get_char(1) == '_'
}

/// Records one member in a sorted listing, replacing an entry of the same name.
fn insert_member(
    es: &mut Vec<(String, MemberType)>,
    Ghost(m): Ghost<Map<Seq<char>, MemberType>>,
    name: String,
    kind: MemberType,
)
    requires
        lists(entries_view(old(es)@), m),
    ensures
        lists(entries_view(final(es)@), m.insert(name@, kind)),
{
    let ghost m2 = m.insert(name@, kind);
    let ghost k = name@;
    let mut p: usize = 0;
    loop
        invariant
            p <= es.len(),
            lists(entries_view(es@), m),
            k == name@,
            m2 == m.insert(k, kind),
            forall|i: int| 0 <= i < p ==> lex_lt(#[trigger] entries_view(es@)[i].0, k),
        decreases es.len() - p,
    {
        let ghost old_es = entries_view(es@);
        if p == es.len() {
            es.push((name, kind));
            proof {
                let ne = entries_view(es@);
                assert(ne =~= old_es.push((k, kind)));
                assert forall|k2: Seq<char>| #[trigger] m2.contains_key(k2) implies exists|i: int|
                    0 <= i < ne.len() && ne[i].0 == k2 by {
                    if k2 != k {
                        assert(m.contains_key(k2));
                        let i = choose|i: int| 0 <= i < old_es.len() && old_es[i].0 == k2;
                        assert(ne[i].0 == k2);
                    } else {
                        assert(ne[ne.len() - 1].0 == k2);
                    }
                }
                assert forall|i: int| 0 <= i < ne.len() implies #[trigger] m2.contains_key(ne[i].0)
                    && m2[ne[i].0] == ne[i].1 by {
                    if i < old_es.len() {
                        lemma_lex_irreflexive(k);
                        assert(lex_lt(old_es[i].0, k));
                    }
                }
            }
            return ;
        }
        let c = compare_names(&es[p].0, &name);
        if c == 0 {
            es.set(p, (name, kind));
            proof {
                let ne = entries_view(es@);
                assert(ne =~= old_es.update(p as int, (k, kind)));
                assert forall|k2: Seq<char>| #[trigger] m2.contains_key(k2) implies exists|i: int|
                    0 <= i < ne.len() && ne[i].0 == k2 by {
                    if k2 != k {
                        assert(m.contains_key(k2));
                        let i = choose|i: int| 0 <= i < old_es.len() && old_es[i].0 == k2;
                        assert(ne[i].0 == k2);
                    } else {
                        assert(ne[p as int].0 == k2);
                    }
                }
                assert forall|i: int| 0 <= i < ne.len() implies #[trigger] m2.contains_key(ne[i].0)
                    && m2[ne[i].0] == ne[i].1 by {
                    assert(old_es[p as int].0 == k);
                    if i != p {
                        assert(ne[i] == old_es[i]);
                        assert(m.contains_key(old_es[i].0));
                        if i < p {
                            assert(lex_lt(old_es[i].0, old_es[p as int].0));
                        } else {
                            assert(lex_lt(old_es[p as int].0, old_es[i].0));
                        }
                        lemma_lex_irreflexive(k);
                    }
                }
            }
            return ;
        }
        if c > 0 {
            es.insert(p, (name, kind));
            proof {
                let ne = entries_view(es@);
                assert(ne =~= old_es.insert(p as int, (k, kind)));
                assert forall|i: int, j: int| 0 <= i < j < ne.len() implies lex_lt(
                    #[trigger] ne[i].0,
                    #[trigger] ne[j].0,
                ) by {
                    if j == p {
                        assert(lex_lt(old_es[i].0, k));
                    } else if i == p {
                        assert(ne[j] == old_es[j - 1]);
                        if j - 1 > p {
                            assert(lex_lt(old_es[p as int].0, old_es[j - 1].0));
                            lemma_lex_transitive(k, old_es[p as int].0, old_es[j - 1].0);
                        }
                    } else {
                        let i0 = if i < p { i } else { i - 1 };
                        let j0 = if j < p { j } else { j - 1 };
                        assert(ne[i] == old_es[i0]);
                        assert(ne[j] == old_es[j0]);
                    }
                }
                assert forall|k2: Seq<char>| #[trigger] m2.contains_key(k2) implies exists|i: int|
                    0 <= i < ne.len() && ne[i].0 == k2 by {
                    if k2 != k {
                        assert(m.contains_key(k2));
                        let i = choose|i: int| 0 <= i < old_es.len() && old_es[i].0 == k2;
                        if i < p {
                            assert(ne[i].0 == k2);
                        } else {
                            assert(ne[i + 1].0 == k2);
                        }
                    } else {
                        assert(ne[p as int].0 == k2);
                    }
                }
                assert forall|i: int| 0 <= i < ne.len() implies #[trigger] m2.contains_key(ne[i].0)
                    && m2[ne[i].0] == ne[i].1 by {
                    if i != p {
                        let i0 = if i < p { i } else { i - 1 };
                        assert(ne[i] == old_es[i0]);
                        assert(m.contains_key(old_es[i0].0));
                        lemma_lex_irreflexive(k);
                        if i < p {
                            assert(lex_lt(old_es[i0].0, k));
                        }
                        if i > p {
                            assert(lex_lt(k, old_es[p as int].0));
                            if i0 > p {
                                assert(lex_lt(old_es[p as int].0, old_es[i0].0));
                                lemma_lex_transitive(k, old_es[p as int].0, old_es[i0].0);
                            }
                        }
                    }
                }
            }
            return ;
        }
        p = p + 1;
    }
}

/// Folds writes, in order, into a sorted listing of the members they leave.
pub fn shape_from_writes(ws: &Vec<(String, MemberType)>) -> (r: Vec<(String, MemberType)>)
    ensures
        lists(entries_view(r@), shape_of(entries_view(ws@))),
{
    let mut r: Vec<(String, MemberType)> = Vec::new();
    let mut i: usize = 0;
    proof {
        assert(entries_view(ws@).subrange(0, 0) =~= Seq::empty());
    }
    while i < ws.len()
        invariant
            i <= ws.len(),
            lists(entries_view(r@), shape_of(entries_view(ws@).subrange(0, i as int))),
        decreases ws.len() - i,
    {
        let ghost before = entries_view(ws@).subrange(0, i as int);
        proof {
            assert(entries_view(ws@).subrange(0, i + 1).drop_last() =~= before);
        }
        let name = ws[i].0.clone();
        let kind = ws[i].1;
        if !is_internal_name(&name) {
            insert_member(&mut r, Ghost(shape_of(before)), name, kind);
        }
        i = i + 1;
    }
    proof {
        assert(entries_view(ws@).subrange(0, ws.len() as int) =~= entries_view(ws@));
    }
    r
}

} // verus!
