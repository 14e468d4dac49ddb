//! Properties of member inference that hold for every chunk.

use vstd::prelude::*;
use crate::extract::{
    assignment_entries, block_entries, expr_entries, exprs_entries, fields_entries, module_dump,
    stmt_entries, stmts_entries, table_entries, table_shape, target_entries, value_at,
};
use crate::order::{lemma_lex_irreflexive, lemma_lex_transitive, lex_lt};
use crate::shape::{is_internal, lists, shape_of, MemberType};
use crate::syntax::{Block, Expr, Field, LastStmt, Stmt};

verus! {

/// A chunk whose last statement is not a `return` of at least one value has no shape.
pub proof fn lemma_no_return_no_shape(chunk: Block)
    requires
        !(chunk.last matches Some(LastStmt::Return(values)) && values@.len() > 0),
    ensures
        module_dump(chunk) is None,
{
}

/// A chunk that returns a table literal has exactly that literal's field
/// scan as its shape, whatever its other statements are.
pub proof fn lemma_table_return(chunk: Block, values: Vec<Expr>, fields: Vec<Field>)
    requires
        chunk.last == Some(LastStmt::Return(values)),
        values@.len() > 0,
        values@[0] == Expr::Table(fields),
    ensures
        module_dump(chunk) == Some(table_shape(fields@)),
{
}

/// No shape holds a name with the internal marker.
pub proof fn lemma_shape_of_public(ws: Seq<(Seq<char>, MemberType)>, k: Seq<char>)
    requires
        shape_of(ws).contains_key(k),
    ensures
        !is_internal(k),
    decreases ws.len(),
{
    if ws.len() > 0 && !(ws.last().0 == k && !is_internal(ws.last().0)) {
        lemma_shape_of_public(ws.drop_last(), k);
    }
}

/// Whatever a chunk is, no member name of its shape carries the internal marker.
pub proof fn lemma_no_internal_members(chunk: Block, k: Seq<char>)
    requires
        module_dump(chunk) matches Some(m) && m.contains_key(k),
    ensures
        !is_internal(k),
{
    match chunk.last {
        Some(LastStmt::Return(values)) => match values@[0] {
            Expr::Table(fs) => lemma_shape_of_public(table_entries(fs@, fs@.len() as int), k),
            Expr::Name(n) => lemma_shape_of_public(block_entries(n@, chunk), k),
            _ => {},
        },
        _ => {},
    }
}

/// A name that later writes set keeps the kind they gave it, whatever earlier writes did.
pub proof fn lemma_later_write_wins(
    a: Seq<(Seq<char>, MemberType)>,
    b: Seq<(Seq<char>, MemberType)>,
    k: Seq<char>,
)
    requires
        shape_of(b).contains_key(k),
    ensures
        shape_of(a + b).contains_key(k),
        shape_of(a + b)[k] == shape_of(b)[k],
    decreases b.len(),
{
    assert((a + b).drop_last() =~= a + b.drop_last());
    assert((a + b).last() == b.last());
    if !(b.last().0 == k && !is_internal(k)) {
        lemma_later_write_wins(a, b.drop_last(), k);
    }
}

/// A listing of a shape is unique: two sorted listings of one shape are equal,
/// so the order in which members come out depends on the shape alone.
pub proof fn lemma_listing_unique(
    a: Seq<(Seq<char>, MemberType)>,
    b: Seq<(Seq<char>, MemberType)>,
    m: Map<Seq<char>, MemberType>,
)
    requires
        lists(a, m),
        lists(b, m),
    ensures
        a == b,
    decreases a.len(),
{
    if a.len() == 0 {
        if b.len() > 0 {
            assert(m.contains_key(b[0].0));
        }
        assert(a =~= b);
    } else {
        assert(m.contains_key(a[0].0));
        let j = choose|j: int| 0 <= j < b.len() && b[j].0 == a[0].0;
        assert(m.contains_key(b[0].0));
        let i = choose|i: int| 0 <= i < a.len() && a[i].0 == b[0].0;
        if j > 0 {
            assert(lex_lt(b[0].0, b[j].0));
            if i > 0 {
                assert(lex_lt(a[0].0, a[i].0));
                lemma_lex_transitive(a[0].0, b[0].0, a[0].0);
            }
            lemma_lex_irreflexive(a[0].0);
        }
        let k = a[0].0;
        let m2 = m.remove(k);
        let a2 = a.drop_first();
        let b2 = b.drop_first();
        lemma_lex_irreflexive(k);
        assert forall|i: int| 0 <= i < a2.len() implies #[trigger] m2.contains_key(a2[i].0)
            && m2[a2[i].0] == a2[i].1 by {
            assert(a2[i] == a[i + 1]);
            assert(lex_lt(a[0].0, a[i + 1].0));
            assert(m.contains_key(a[i + 1].0));
        }
        assert forall|i: int| 0 <= i < b2.len() implies #[trigger] m2.contains_key(b2[i].0)
            && m2[b2[i].0] == b2[i].1 by {
            assert(b2[i] == b[i + 1]);
            assert(lex_lt(b[0].0, b[i + 1].0));
            assert(m.contains_key(b[i + 1].0));
        }
        assert forall|k2: Seq<char>| #[trigger] m2.contains_key(k2) implies exists|i: int|
            0 <= i < a2.len() && a2[i].0 == k2 by {
            assert(m.contains_key(k2));
            let i = choose|i: int| 0 <= i < a.len() && a[i].0 == k2;
            assert(a2[i - 1].0 == k2);
        }
        assert forall|k2: Seq<char>| #[trigger] m2.contains_key(k2) implies exists|i: int|
            0 <= i < b2.len() && b2[i].0 == k2 by {
            assert(m.contains_key(k2));
            let i = choose|i: int| 0 <= i < b.len() && b[i].0 == k2;
            assert(b2[i - 1].0 == k2);
        }
        assert forall|x: int, y: int| 0 <= x < y < a2.len() implies lex_lt(
            #[trigger] a2[x].0,
            #[trigger] a2[y].0,
        ) by {
            assert(a2[x] == a[x + 1] && a2[y] == a[y + 1]);
        }
        assert forall|x: int, y: int| 0 <= x < y < b2.len() implies lex_lt(
            #[trigger] b2[x].0,
            #[trigger] b2[y].0,
        ) by {
            assert(b2[x] == b[x + 1] && b2[y] == b[y + 1]);
        }
        lemma_listing_unique(a2, b2, m2);
        assert(b[0].0 == k);
        assert(a2 == b2);
        assert(0 <= j < b.len());
        assert(a2.len() == a.len() - 1 && b2.len() == b.len() - 1);
        assert(a.len() == b.len());
        assert(a[0].1 == m[k] && b[0].1 == m[k]);
        assert forall|x: int| 0 <= x < a.len() implies a[x] == b[x] by {
            if x > 0 {
                assert(a[x] == a2[x - 1] && b[x] == b2[x - 1]);
            }
        }
        assert(a =~= b);
    }
}

/// When a module declares `local base = { ... }`, then reassigns
/// `base = { ... }` and returns `base`, a name set by both table literals has
/// the kind that the later one gives it. (Writes made from inside functions
/// held by the later literal are left out: they come after it.)
pub proof fn lemma_reassigned_table_wins(
    chunk: Block,
    base: String,
    first: Vec<Field>,
    second: Vec<Field>,
    k: Seq<char>,
)
    requires
        chunk.stmts@.len() == 2,
        chunk.stmts@[0] matches Stmt::LocalAssignment { names, values } && names@ == seq![base]
            && values@ == seq![Expr::Table(first)],
        chunk.stmts@[1] matches Stmt::Assignment { targets, values } && targets@ == seq![Expr::Name(base)]
            && values@ == seq![Expr::Table(second)],
        chunk.last matches Some(LastStmt::Return(values)) && values@ == seq![Expr::Name(base)],
        fields_entries(base@, second@, second@.len() as int) == Seq::<(Seq<char>, MemberType)>::empty(),
        table_shape(first@).contains_key(k),
        table_shape(second@).contains_key(k),
    ensures
        module_dump(chunk) matches Some(m) && m.contains_key(k) && m[k] == table_shape(second@)[k],
{
    let ss = chunk.stmts@;
    let b = base@;
    let later = table_entries(second@, second@.len() as int);
    if let Stmt::Assignment { targets, values } = ss[1] {
        assert(assignment_entries(b, targets@, values@, 0) =~= seq![]);
        assert(value_at(values@, 0) == Some(Expr::Table(second)));
        assert(target_entries(b, targets@[0], value_at(values@, 0)) == later);
        assert(assignment_entries(b, targets@, values@, 1) =~= later);
        assert(exprs_entries(b, targets@, 0) =~= seq![]);
        assert(exprs_entries(b, targets@, 1) =~= seq![]);
        assert(exprs_entries(b, values@, 0) =~= seq![]);
        assert(values@[0] == Expr::Table(second));
        assert(expr_entries(b, values@[0]) == fields_entries(b, second@, second@.len() as int));
        assert(exprs_entries(b, values@, 1) =~= fields_entries(b, second@, second@.len() as int));
        assert(stmt_entries(b, ss[1]) =~= later);
    }
    let earlier = stmts_entries(b, ss, 1);
    assert(stmts_entries(b, ss, 2) == earlier + later);
    if let Some(LastStmt::Return(values)) = chunk.last {
        assert(exprs_entries(b, values@, 0) =~= seq![]);
        assert(exprs_entries(b, values@, 1) =~= seq![]);
    }
    assert(block_entries(b, chunk) =~= earlier + later);
    lemma_later_write_wins(earlier, later, k);
}

} // verus!
