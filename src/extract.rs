//! Member inference over a chunk's syntax tree.

use vstd::prelude::*;
use crate::shape::{entries_view, lists, shape_from_writes, shape_of, MemberType};
use crate::syntax::{Block, Expr, Field, FunctionName, LastStmt, Part, Stmt, Suffix};

verus! {

broadcast use vstd::std_specs::vec::group_vec_axioms;

/// The kind a member gets from the expression assigned to it.
pub open spec fn kind_of(e: Expr) -> MemberType {
    match e {
        Expr::Function(_) => MemberType::Function,
        _ => MemberType::Value,
    }
}

/// A string literal's text without its first and last character (the quotes).
pub open spec fn strip_quotes(s: Seq<char>) -> Seq<char> {
    if s.len() >= 2 {
        s.subrange(1, s.len() - 1)
    } else {
        Seq::empty()
    }
}

/// The member name that a key written in brackets stands for, if it is static.
pub open spec fn bracket_key(e: Expr) -> Option<Seq<char>> {
    match e {
        Expr::Str(t) => Some(strip_quotes(t@)),
        Expr::Number(t) => Some(t@),
        Expr::Symbol(t) => Some(t@),
        _ => None,
    }
}

/// The write that one table field makes, if any.
pub open spec fn field_entry(f: Field) -> Seq<(Seq<char>, MemberType)> {
    match f {
        Field::Named { name, value } => seq![(name@, kind_of(value))],
        Field::Keyed { key, value } => match bracket_key(key) {
            Some(k) => seq![(k, kind_of(value))],
            None => seq![],
        },
        Field::Positional(_) => seq![],
    }
}

/// The writes of the first `n` fields of a table literal, in source order.
pub open spec fn table_entries(fs: Seq<Field>, n: int) -> Seq<(Seq<char>, MemberType)>
    decreases n,
{
    if n <= 0 {
        seq![]
    } else {
        table_entries(fs, n - 1) + field_entry(fs[n - 1])
    }
}

/// The members a table literal gives: its field scan.
pub open spec fn table_shape(fs: Seq<Field>) -> Map<Seq<char>, MemberType> {
    shape_of(table_entries(fs, fs.len() as int))
}

/// `e` is the bare identifier `base`.
pub open spec fn is_base(e: Expr, base: Seq<char>) -> bool {
    e matches Expr::Name(n) && n@ == base
}

/// The member name that an index suffix selects, if it is static.
pub open spec fn index_key(s: Suffix) -> Option<Seq<char>> {
    match s {
        Suffix::Dot(name) => Some(name@),
        Suffix::Brackets(e) => bracket_key(e),
        Suffix::Call(_) => None,
    }
}

/// The writes that assigning `v` (absent when the value list is too short)
/// to the target `t` makes to the members of `base`.
pub open spec fn target_entries(base: Seq<char>, t: Expr, v: Option<Expr>) -> Seq<(Seq<char>, MemberType)> {
    match t {
        Expr::Name(n) => if n@ == base {
            match v {
                Some(Expr::Table(fs)) => table_entries(fs@, fs.len() as int),
                _ => seq![],
            }
        } else {
            seq![]
        },
        Expr::Suffixed { prefix, suffixes } => if is_base(*prefix, base) && suffixes.len() == 1 {
            match index_key(suffixes@[0]) {
                Some(k) => seq![(k, match v { Some(e) => kind_of(e), None => MemberType::Value })],
                None => seq![],
            }
        } else {
            seq![]
        },
        _ => seq![],
    }
}

/// The value at position `i` of a value list, if there is one.
pub open spec fn value_at(values: Seq<Expr>, i: int) -> Option<Expr> {
    if 0 <= i < values.len() {
        Some(values[i])
    } else {
        None
    }
}

/// The writes of the first `n` targets of an assignment.
pub open spec fn assignment_entries(base: Seq<char>, targets: Seq<Expr>, values: Seq<Expr>, n: int) -> Seq<
    (Seq<char>, MemberType),
>
    decreases n,
{
    if n <= 0 {
        seq![]
    } else {
        assignment_entries(base, targets, values, n - 1) + target_entries(base, targets[n - 1], value_at(values, n - 1))
    }
}

/// The writes of the first `n` names of a local declaration.
pub open spec fn local_entries(base: Seq<char>, names: Seq<String>, values: Seq<Expr>, n: int) -> Seq<
    (Seq<char>, MemberType),
>
    decreases n,
{
    if n <= 0 {
        seq![]
    } else {
        local_entries(base, names, values, n - 1) + if names[n - 1]@ == base {
            match value_at(values, n - 1) {
                Some(Expr::Table(fs)) => table_entries(fs@, fs.len() as int),
                _ => seq![],
            }
        } else {
            seq![]
        }
    }
}

/// The write that declaring a function under the name `f` makes to the members of `base`.
pub open spec fn function_name_entries(base: Seq<char>, f: FunctionName) -> Seq<(Seq<char>, MemberType)> {
    let ns = f.names@;
    if ns.len() == 0 || ns[0]@ != base {
        seq![]
    } else if ns.len() >= 3 {
        seq![(ns[1]@, MemberType::Value)]
    } else if ns.len() == 2 {
        if f.method is None {
            seq![(ns[1]@, MemberType::Function)]
        } else {
            seq![]
        }
    } else {
        match f.method {
            Some(m) => seq![(m@, MemberType::Method)],
            None => seq![],
        }
    }
}


/// Every write a walk of block `b` makes to the members of `base`: each
/// statement in source order, a statement's own write before those of the
/// blocks and expressions nested in it.
pub open spec fn block_entries(base: Seq<char>, b: Block) -> Seq<(Seq<char>, MemberType)>
    decreases b, 0int,
{
    stmts_entries(base, b.stmts@, b.stmts@.len() as int) + match b.last {
        Some(LastStmt::Return(values)) => exprs_entries(base, values@, values@.len() as int),
        _ => seq![],
    }
}

/// The writes of the first `n` statements of `ss`.
pub open spec fn stmts_entries(base: Seq<char>, ss: Seq<Stmt>, n: int) -> Seq<(Seq<char>, MemberType)>
    decreases ss, n,
{
    if n <= 0 || n > ss.len() {
        seq![]
    } else {
        stmts_entries(base, ss, n - 1) + stmt_entries(base, ss[n - 1])
    }
}

/// The writes of one statement and of what is nested in it.
pub open spec fn stmt_entries(base: Seq<char>, s: Stmt) -> Seq<(Seq<char>, MemberType)>
    decreases s, 0int,
{
    match s {
        Stmt::Assignment { targets, values } => assignment_entries(
            base,
            targets@,
            values@,
            targets@.len() as int,
        ) + exprs_entries(base, targets@, targets@.len() as int) + exprs_entries(
            base,
            values@,
            values@.len() as int,
        ),
        Stmt::LocalAssignment { names, values } => local_entries(
            base,
            names@,
            values@,
            names@.len() as int,
        ) + exprs_entries(base, values@, values@.len() as int),
        Stmt::FunctionDeclaration { name, body } => function_name_entries(base, name)
            + block_entries(base, body),
        Stmt::Compound { parts } => parts_entries(base, parts@, parts@.len() as int),
    }
}

/// The writes nested in the first `n` parts of a compound statement.
pub open spec fn parts_entries(base: Seq<char>, ps: Seq<Part>, n: int) -> Seq<(Seq<char>, MemberType)>
    decreases ps, n,
{
    if n <= 0 || n > ps.len() {
        seq![]
    } else {
        parts_entries(base, ps, n - 1) + match ps[n - 1] {
            Part::Expr(e) => expr_entries(base, e),
            Part::Block(b) => block_entries(base, b),
        }
    }
}

/// The writes nested in the first `n` expressions of `es`.
pub open spec fn exprs_entries(base: Seq<char>, es: Seq<Expr>, n: int) -> Seq<(Seq<char>, MemberType)>
    decreases es, n,
{
    if n <= 0 || n > es.len() {
        seq![]
    } else {
        exprs_entries(base, es, n - 1) + expr_entries(base, es[n - 1])
    }
}

/// The writes nested in an expression: in the bodies of the functions it holds.
pub open spec fn expr_entries(base: Seq<char>, e: Expr) -> Seq<(Seq<char>, MemberType)>
    decreases e, 0int,
{
    match e {
        Expr::Function(b) => block_entries(base, b),
        Expr::Table(fs) => fields_entries(base, fs@, fs@.len() as int),
        Expr::Suffixed { prefix, suffixes } => expr_entries(base, *prefix) + suffixes_entries(
            base,
            suffixes@,
            suffixes@.len() as int,
        ),
        Expr::BinOp { lhs, rhs } => expr_entries(base, *lhs) + expr_entries(base, *rhs),
        Expr::Other(es) => exprs_entries(base, es@, es@.len() as int),
        _ => seq![],
    }
}

/// The writes nested in the first `n` suffixes of `ss`.
pub open spec fn suffixes_entries(base: Seq<char>, ss: Seq<Suffix>, n: int) -> Seq<(Seq<char>, MemberType)>
    decreases ss, n,
{
    if n <= 0 || n > ss.len() {
        seq![]
    } else {
        suffixes_entries(base, ss, n - 1) + match ss[n - 1] {
            Suffix::Call(args) => exprs_entries(base, args@, args@.len() as int),
            Suffix::Dot(_) => seq![],
            Suffix::Brackets(e) => expr_entries(base, e),
        }
    }
}

/// The writes nested in the first `n` fields of a table literal.
pub open spec fn fields_entries(base: Seq<char>, fs: Seq<Field>, n: int) -> Seq<(Seq<char>, MemberType)>
    decreases fs, n,
{
    if n <= 0 || n > fs.len() {
        seq![]
    } else {
        fields_entries(base, fs, n - 1) + match fs[n - 1] {
            Field::Named { name: _, value } => expr_entries(base, value),
            Field::Keyed { key, value } => expr_entries(base, key) + expr_entries(base, value),
            Field::Positional(value) => expr_entries(base, value),
        }
    }
}


/// Classifies a member by the expression assigned to it.
pub fn member_type_from_value(value: &Expr) -> (r: MemberType)
    ensures
        r == kind_of(*value),
{
    match value {
        Expr::Function(_) => MemberType::Function,
        _ => MemberType::Value,
    }
}

fn strip_quotes_of(text: &String) -> (r: String)
    ensures
        r@ == strip_quotes(text@),
{
    let s = text.as_str();
    let n = s.unicode_len();
    if n >= 2 {
        s.substring_char(1, n - 1).to_owned()
    } else {
        String::new()
    }
}

/// The member name that a key in brackets stands for: a string literal's
/// contents, or a number or keyword literal as written; `None` for any other key.
pub fn extract_key_from_brackets(key: &Expr) -> (r: Option<String>)
    ensures
        match r {
            Some(s) => bracket_key(*key) == Some(s@),
            None => bracket_key(*key) is None,
        },
{
    match key {
        Expr::Str(t) => Some(strip_quotes_of(t)),
        Expr::Number(t) => Some(t.clone()),
        Expr::Symbol(t) => Some(t.clone()),
        _ => None,
    }
}

/// Appends the writes of a table literal's fields, in source order.
fn push_table_entries(fields: &Vec<Field>, out: &mut Vec<(String, MemberType)>)
    ensures
        entries_view(final(out)@) == entries_view(old(out)@) + table_entries(fields@, fields@.len() as int),
{
    let ghost start = entries_view(out@);
    let mut i: usize = 0;
    while i < fields.len()
        invariant
            i <= fields.len(),
            entries_view(out@) == start + table_entries(fields@, i as int),
        decreases fields.len() - i,
    {
        let ghost before = entries_view(out@);
        match &fields[i] {
            Field::Named { name, value } => {
                out.push((name.clone(), member_type_from_value(value)));
            },
            Field::Keyed { key, value } => {
                if let Some(k) = extract_key_from_brackets(key) {
                    out.push((k, member_type_from_value(value)));
                }
            },
            Field::Positional(_) => {},
        }
        proof {
            assert(entries_view(out@) =~= before + field_entry(fields@[i as int]));
            assert(start + table_entries(fields@, i + 1) =~= start + table_entries(fields@, i as int)
                + field_entry(fields@[i as int]));
        }
        i = i + 1;
    }
}

/// The field scan of a table literal: its statically named members, sorted by name.
pub fn members_from_table(fields: &Vec<Field>) -> (r: Vec<(String, MemberType)>)
    ensures
        lists(entries_view(r@), table_shape(fields@)),
{
    let mut ws: Vec<(String, MemberType)> = Vec::new();
    push_table_entries(fields, &mut ws);
    proof {
        assert(entries_view(ws@) =~= table_entries(fields@, fields@.len() as int));
    }
    shape_from_writes(&ws)
}


/// Appends the writes that an assignment's targets make to the members of `base`.
fn visit_assignment(
    base: &String,
    targets: &Vec<Expr>,
    values: &Vec<Expr>,
    out: &mut Vec<(String, MemberType)>,
)
    ensures
        entries_view(final(out)@) == entries_view(old(out)@) + assignment_entries(
            base@,
            targets@,
            values@,
            targets@.len() as int,
        ),
{
    let ghost start = entries_view(out@);
    let mut i: usize = 0;
    while i < targets.len()
        invariant
            i <= targets.len(),
            entries_view(out@) == start + assignment_entries(base@, targets@, values@, i as int),
        decreases targets.len() - i,
    {
        let ghost before = entries_view(out@);
        let assigned: Option<&Expr> = if i < values.len() {
            Some(&values[i])
        } else {
            None
        };
        match &targets[i] {
            Expr::Name(n) => {
                if n.eq(base) {
                    if let Some(Expr::Table(fs)) = assigned {
                        push_table_entries(fs, out);
                    }
                }
            },
            Expr::Suffixed { prefix, suffixes } => {
                if let Expr::Name(p) = &**prefix {
                    if p.eq(base) && suffixes.len() == 1 {
                        let key = match &suffixes[0] {
                            Suffix::Dot(name) => Some(name.clone()),
                            Suffix::Brackets(e) => extract_key_from_brackets(e),
                            Suffix::Call(_) => None,
                        };
                        if let Some(k) = key {
                            let kind = match assigned {
                                Some(v) => member_type_from_value(v),
                                None => MemberType::Value,
                            };
                            out.push((k, kind));
                        }
                    }
                }
            },
            _ => {},
        }
        proof {
            let t = target_entries(base@, targets@[i as int], value_at(values@, i as int));
            assert(entries_view(out@) =~= before + t);
            assert(start + assignment_entries(base@, targets@, values@, i + 1) =~= start
                + assignment_entries(base@, targets@, values@, i as int) + t);
        }
        i = i + 1;
    }
}

/// Appends the writes that a local declaration's names make to the members of `base`.
fn visit_local_assignment(
    base: &String,
    names: &Vec<String>,
    values: &Vec<Expr>,
    out: &mut Vec<(String, MemberType)>,
)
    ensures
        entries_view(final(out)@) == entries_view(old(out)@) + local_entries(
            base@,
            names@,
            values@,
            names@.len() as int,
        ),
{
    let ghost start = entries_view(out@);
    let mut i: usize = 0;
    while i < names.len()
        invariant
            i <= names.len(),
            entries_view(out@) == start + local_entries(base@, names@, values@, i as int),
        decreases names.len() - i,
    {
        let ghost before = entries_view(out@);
        if names[i].eq(base) && i < values.len() {
            if let Expr::Table(fs) = &values[i] {
                push_table_entries(fs, out);
            }
        }
        proof {
            let t = if names@[i as int]@ == base@ {
                match value_at(values@, i as int) {
                    Some(Expr::Table(fs)) => table_entries(fs@, fs.len() as int),
                    _ => seq![],
                }
            } else {
                seq![]
            };
            assert(entries_view(out@) =~= before + t);
            assert(start + local_entries(base@, names@, values@, i + 1) =~= start + local_entries(
                base@,
                names@,
                values@,
                i as int,
            ) + t);
        }
        i = i + 1;
    }
}

/// Appends the write that declaring a function under `name` makes to the members of `base`.
fn visit_function_name(base: &String, name: &FunctionName, out: &mut Vec<(String, MemberType)>)
    ensures
        entries_view(final(out)@) == entries_view(old(out)@) + function_name_entries(base@, *name),
{
    let ghost before = entries_view(out@);
    let names = &name.names;
    if names.len() == 0 || !names[0].eq(base) {
        // `function other()`: not a member of the returned value
    } else if names.len() >= 3 {
        out.push((names[1].clone(), MemberType::Value));
    } else if names.len() == 2 {
        if name.method.is_none() {
            out.push((names[1].clone(), MemberType::Function));
        }
    } else if let Some(m) = &name.method {
        out.push((m.clone(), MemberType::Method));
    }
    proof {
        assert(entries_view(out@) =~= before + function_name_entries(base@, *name));
    }
}


/// Appends every write that a walk of block `b` makes to the members of `base`.
fn walk_block(base: &String, b: &Block, out: &mut Vec<(String, MemberType)>)
    ensures
        entries_view(final(out)@) == entries_view(old(out)@) + block_entries(base@, *b),
    decreases *b, 0int,
{
    let ghost start = entries_view(out@);
    let mut i: usize = 0;
    while i < b.stmts.len()
        invariant
            i <= b.stmts.len(),
            entries_view(out@) == start + stmts_entries(base@, b.stmts@, i as int),
        decreases b.stmts.len() - i,
    {
        walk_stmt(base, &b.stmts[i], out);
        proof {
            assert(start + stmts_entries(base@, b.stmts@, i + 1) =~= start + stmts_entries(
                base@,
                b.stmts@,
                i as int,
            ) + stmt_entries(base@, b.stmts@[i as int]));
        }
        i = i + 1;
    }
    if let Some(LastStmt::Return(values)) = &b.last {
        walk_exprs(base, values, out);
    }
    proof {
        assert(entries_view(out@) =~= start + block_entries(base@, *b));
    }
}

/// Appends the writes of one statement and of what is nested in it.
fn walk_stmt(base: &String, s: &Stmt, out: &mut Vec<(String, MemberType)>)
    ensures
        entries_view(final(out)@) == entries_view(old(out)@) + stmt_entries(base@, *s),
    decreases *s, 0int,
{
    let ghost start = entries_view(out@);
    match s {
        Stmt::Assignment { targets, values } => {
            visit_assignment(base, targets, values, out);
            walk_exprs(base, targets, out);
            walk_exprs(base, values, out);
        },
        Stmt::LocalAssignment { names, values } => {
            visit_local_assignment(base, names, values, out);
            walk_exprs(base, values, out);
        },
        Stmt::FunctionDeclaration { name, body } => {
            visit_function_name(base, name, out);
            walk_block(base, body, out);
        },
        Stmt::Compound { parts } => walk_parts(base, parts, out),
    }
    proof {
        assert(entries_view(out@) =~= start + stmt_entries(base@, *s));
    }
}

/// Appends the writes nested in a list of expressions.
fn walk_exprs(base: &String, es: &Vec<Expr>, out: &mut Vec<(String, MemberType)>)
    ensures
        entries_view(final(out)@) == entries_view(old(out)@) + exprs_entries(base@, es@, es@.len() as int),
    decreases *es, 0int,
{
    let ghost start = entries_view(out@);
    let mut i: usize = 0;
    while i < es.len()
        invariant
            i <= es.len(),
            entries_view(out@) == start + exprs_entries(base@, es@, i as int),
        decreases es.len() - i,
    {
        walk_expr(base, &es[i], out);
        proof {
            assert(start + exprs_entries(base@, es@, i + 1) =~= start + exprs_entries(
                base@,
                es@,
                i as int,
            ) + expr_entries(base@, es@[i as int]));
        }
        i = i + 1;
    }
}

/// Appends the writes nested in an expression.
fn walk_expr(base: &String, e: &Expr, out: &mut Vec<(String, MemberType)>)
    ensures
        entries_view(final(out)@) == entries_view(old(out)@) + expr_entries(base@, *e),
    decreases *e, 0int,
{
    let ghost start = entries_view(out@);
    match e {
        Expr::Function(b) => walk_block(base, b, out),
        Expr::Table(fs) => walk_fields(base, fs, out),
        Expr::Suffixed { prefix, suffixes } => {
            walk_expr(base, prefix, out);
            walk_suffixes(base, suffixes, out);
        },
        Expr::BinOp { lhs, rhs } => {
            walk_expr(base, lhs, out);
            walk_expr(base, rhs, out);
        },
        Expr::Other(es) => walk_exprs(base, es, out),
        _ => {},
    }
    proof {
        assert(entries_view(out@) =~= start + expr_entries(base@, *e));
    }
}

/// Appends the writes nested in the parts of a compound statement.
fn walk_parts(base: &String, ps: &Vec<Part>, out: &mut Vec<(String, MemberType)>)
    ensures
        entries_view(final(out)@) == entries_view(old(out)@) + parts_entries(base@, ps@, ps@.len() as int),
    decreases *ps, 0int,
{
    let ghost start = entries_view(out@);
    let mut i: usize = 0;
    while i < ps.len()
        invariant
            i <= ps.len(),
            entries_view(out@) == start + parts_entries(base@, ps@, i as int),
        decreases ps.len() - i,
    {
        match &ps[i] {
            Part::Expr(e) => walk_expr(base, e, out),
            Part::Block(b) => walk_block(base, b, out),
        }
        proof {
            assert(start + parts_entries(base@, ps@, i + 1) =~= start + parts_entries(
                base@,
                ps@,
                i as int,
            ) + match ps@[i as int] {
                Part::Expr(e) => expr_entries(base@, e),
                Part::Block(b) => block_entries(base@, b),
            });
        }
        i = i + 1;
    }
}

/// Appends the writes nested in the fields of a table literal.
fn walk_fields(base: &String, fs: &Vec<Field>, out: &mut Vec<(String, MemberType)>)
    ensures
        entries_view(final(out)@) == entries_view(old(out)@) + fields_entries(base@, fs@, fs@.len() as int),
    decreases *fs, 0int,
{
    let ghost start = entries_view(out@);
    let mut i: usize = 0;
    while i < fs.len()
        invariant
            i <= fs.len(),
            entries_view(out@) == start + fields_entries(base@, fs@, i as int),
        decreases fs.len() - i,
    {
        match &fs[i] {
            Field::Named { name: _, value } => walk_expr(base, value, out),
            Field::Keyed { key, value } => {
                walk_expr(base, key, out);
                walk_expr(base, value, out);
            },
            Field::Positional(value) => walk_expr(base, value, out),
        }
        proof {
            assert(start + fields_entries(base@, fs@, i + 1) =~= start + fields_entries(
                base@,
                fs@,
                i as int,
            ) + match fs@[i as int] {
                Field::Named { name: _, value } => expr_entries(base@, value),
                Field::Keyed { key, value } => expr_entries(base@, key) + expr_entries(base@, value),
                Field::Positional(value) => expr_entries(base@, value),
            });
        }
        i = i + 1;
    }
}

/// Appends the writes nested in the suffixes of a suffixed expression.
fn walk_suffixes(base: &String, ss: &Vec<Suffix>, out: &mut Vec<(String, MemberType)>)
    ensures
        entries_view(final(out)@) == entries_view(old(out)@) + suffixes_entries(base@, ss@, ss@.len() as int),
    decreases *ss, 0int,
{
    let ghost start = entries_view(out@);
    let mut i: usize = 0;
    while i < ss.len()
        invariant
            i <= ss.len(),
            entries_view(out@) == start + suffixes_entries(base@, ss@, i as int),
        decreases ss.len() - i,
    {
        match &ss[i] {
            Suffix::Call(args) => walk_exprs(base, args, out),
            Suffix::Dot(_) => {},
            Suffix::Brackets(k) => walk_expr(base, k, out),
        }
        proof {
            assert(start + suffixes_entries(base@, ss@, i + 1) =~= start + suffixes_entries(
                base@,
                ss@,
                i as int,
            ) + match ss@[i as int] {
                Suffix::Call(args) => exprs_entries(base@, args@, args@.len() as int),
                Suffix::Dot(_) => seq![],
                Suffix::Brackets(k) => expr_entries(base@, k),
            });
        }
        i = i + 1;
    }
}

/// A parse failure: where it was found and what the parser said.
pub struct SyntaxError {
    pub line: usize,
    pub column: usize,
    pub message: String,
}

/// The result of analysing one module.
pub enum AnalysisOutcome {
    /// The text does not parse.
    SyntaxError(SyntaxError),
    /// The text parses, but what it returns has no shape that can be read statically.
    NoShape,
    /// The members of the returned value, sorted by name.
    Shape(Vec<(String, MemberType)>),
}

/// The members of the value a chunk returns, or `None` where they cannot be
/// read from its text. Only the first returned expression counts: a table
/// literal gives its field scan; a bare identifier gives what the walk of the
/// whole chunk writes to it; anything else gives `None`.
pub open spec fn module_dump(chunk: Block) -> Option<Map<Seq<char>, MemberType>> {
    match chunk.last {
        Some(LastStmt::Return(values)) => if values@.len() == 0 {
            None
        } else {
            match values@[0] {
                Expr::Table(fs) => Some(table_shape(fs@)),
                Expr::Name(n) => Some(shape_of(block_entries(n@, chunk))),
                _ => None,
            }
        },
        _ => None,
    }
}

/// Infers the members of the value that a chunk returns, sorted by name.
pub fn generate_module_dump(chunk: &Block) -> (r: Option<Vec<(String, MemberType)>>)
    ensures
        match module_dump(*chunk) {
            None => r is None,
            Some(m) => r matches Some(es) && lists(entries_view(es@), m),
        },
{
    if let Some(LastStmt::Return(values)) = &chunk.last {
        if values.len() == 0 {
            return None;
        }
        match &values[0] {
            Expr::Table(fs) => Some(members_from_table(fs)),
            Expr::Name(n) => {
                let mut ws: Vec<(String, MemberType)> = Vec::new();
                walk_block(n, chunk, &mut ws);
                proof {
                    assert(entries_view(ws@) =~= block_entries(n@, *chunk));
                }
                Some(shape_from_writes(&ws))
            },
            _ => None,
        }
    } else {
        None
    }
}

/// Analyses a parsed chunk, or passes on the parser's error.
pub fn analyze(parsed: Result<Block, SyntaxError>) -> (r: AnalysisOutcome)
    ensures
        match parsed {
            Err(e) => r == AnalysisOutcome::SyntaxError(e),
            Ok(chunk) => match module_dump(chunk) {
                None => r is NoShape,
                Some(m) => r matches AnalysisOutcome::Shape(es) && lists(entries_view(es@), m),
            },
        },
{
    match parsed {
        Err(e) => AnalysisOutcome::SyntaxError(e),
        Ok(chunk) => match generate_module_dump(&chunk) {
            None => AnalysisOutcome::NoShape,
            Some(es) => AnalysisOutcome::Shape(es),
        },
    }
}

} // verus!
