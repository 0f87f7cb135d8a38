use vstd::prelude::*;
use vstd::string::{StrSliceExecFns, StringExecFns};

use crate::builder::ChainBuilder;
use crate::join::{JoinBuilder, JoinStatement};
use crate::keys::{lemma_lex_sort_ensures, lex_sort, obj_keys_of, sort_strings, unique_keys};
use crate::operator::{op_is_bind, op_token, operator_to_sql, Operator};
use crate::strutil::{
    append_q_marks, build_q_marks_cs, extend_strings, join_strings, lemma_strs_deep, q_marks,
    q_marks_cs, sep_join, strs_deep, u64_to_dec,
};
use crate::types::{Client, Common, CompileError, Method, Select, Statement};
use crate::value::{
    lemma_obj_deep, lemma_vals_deep, lemma_vals_deep_concat, obj_deep, opt_vals_deep,
    push_dup_opt_values, push_dup_values, val_deep, vals_deep, DVal, Value,
};

verus! {

/// A compiled fragment: SQL text and the bind values it consumes, in order.
pub struct Frag {
    pub sql: Seq<char>,
    pub binds: Seq<DVal>,
}

/// The first of two possible errors.
pub open spec fn or_else(a: Option<CompileError>, b: Option<CompileError>) -> Option<
    CompileError,
> {
    match a {
        Option::Some(e) => Option::Some(e),
        Option::None => b,
    }
}

/// The connective emitted before node `i` of a condition sequence: nothing
/// for the first node or after an OR group, otherwise ` OR ` before an OR
/// group and ` AND ` before anything else.
pub open spec fn cond_conn(ss: Seq<Statement>, i: int) -> Seq<char> {
    if i == 0 || ss[i - 1] is OrChain {
        Seq::empty()
    } else if ss[i] is OrChain {
        " OR "@
    } else {
        " AND "@
    }
}

/// The SQL of a leaf condition.
pub open spec fn cond_value_sql(col: Seq<char>, op: Operator, v: Value) -> Seq<char> {
    col + " "@ + (if op == Operator::Between || op == Operator::NotBetween {
        op_token(op) + " ? AND ?"@
    } else {
        op_token(op) + (if op_is_bind(op) {
            match v {
                Value::Array(a) => " ("@ + q_marks(a@.len()) + ")"@,
                _ => " ?"@,
            }
        } else {
            Seq::empty()
        })
    })
}

/// The bind values of a leaf condition.
pub open spec fn cond_value_binds(op: Operator, v: Value) -> Seq<DVal> {
    if op == Operator::Between || op == Operator::NotBetween {
        match v {
            Value::Array(a) => vals_deep(a@),
            _ => Seq::empty(),
        }
    } else if op_is_bind(op) {
        match v {
            Value::Array(a) => vals_deep(a@),
            _ => seq![val_deep(v)],
        }
    } else {
        Seq::empty()
    }
}

/// Why one condition node cannot be compiled, if anything.
pub open spec fn cond_node_err(st: Statement) -> Option<CompileError>
    decreases st,
{
    match st {
        Statement::Value(_c, op, v) => if (op == Operator::Between || op == Operator::NotBetween)
            && !(v matches Value::Array(a) && a@.len() == 2) {
            Option::Some(CompileError::BetweenArity)
        } else {
            Option::None
        },
        Statement::Raw(_s, _b) => Option::None,
        Statement::SubChain(q) => conds_err(q.statement@),
        Statement::OrChain(q) => conds_err(q.statement@),
    }
}

/// Why a condition sequence cannot be compiled: the first error in order.
pub open spec fn conds_err(ss: Seq<Statement>) -> Option<CompileError>
    decreases ss, 1int,
{
    if ss.len() == 0 {
        Option::None
    } else {
        or_else(conds_err(ss.drop_last()), cond_node_err(ss.last()))
    }
}

/// The fragment of one condition node, without its connective.
pub open spec fn cond_node_frag(st: Statement) -> Frag
    decreases st,
{
    match st {
        Statement::Value(c, op, v) => Frag {
            sql: cond_value_sql(c@, op, v),
            binds: cond_value_binds(op, v),
        },
        Statement::Raw(s, b) => Frag { sql: s@, binds: opt_vals_deep(b) },
        Statement::SubChain(q) => {
            let inner = conds_frag(q.statement@);
            Frag {
                sql: if q.statement@.len() > 1 {
                    "("@ + inner.sql + ")"@
                } else {
                    inner.sql
                },
                binds: inner.binds,
            }
        },
        Statement::OrChain(q) => {
            let inner = conds_frag(q.statement@);
            Frag {
                sql: if q.statement@.len() > 1 {
                    "("@ + inner.sql + ")"@
                } else {
                    inner.sql
                },
                binds: inner.binds,
            }
        },
    }
}

/// The fragment of a condition sequence: each node's fragment, preceded by
/// its connective, with the bind values in left-to-right order.
pub open spec fn conds_frag(ss: Seq<Statement>) -> Frag
    decreases ss, 1int,
{
    if ss.len() == 0 {
        Frag { sql: Seq::empty(), binds: Seq::empty() }
    } else {
        let rest = conds_frag(ss.drop_last());
        let node = cond_node_frag(ss.last());
        Frag {
            sql: rest.sql + cond_conn(ss, ss.len() - 1) + node.sql,
            binds: rest.binds + node.binds,
        }
    }
}

/// An error in one node makes the first error of an error-free prefix.
proof fn lemma_conds_err_at(ss: Seq<Statement>, i: int)
    requires
        0 <= i < ss.len(),
        conds_err(ss.take(i)) is None,
        cond_node_err(ss[i]) is Some,
    ensures
        conds_err(ss) == cond_node_err(ss[i]),
    decreases ss.len(),
{
    if ss.len() == i + 1 {
        assert(ss.drop_last() =~= ss.take(i));
    } else {
        assert(ss.drop_last().take(i) =~= ss.take(i));
        lemma_conds_err_at(ss.drop_last(), i);
    }
}

/// Compiles one level of a condition sequence into SQL text and bind values.
///
/// Bind values appear in exactly the depth-first, left-to-right order of the
/// tree, matching the placeholders one to one.
#[verifier::loop_isolation(false)]
#[verifier::rlimit(100)]
pub fn statement_compiler(stmts: &Vec<Statement>) -> (r: Result<
    (String, Vec<Value>),
    CompileError,
>)
    ensures
        conds_err(stmts@) matches Some(e) ==> r == Err::<(String, Vec<Value>), CompileError>(e),
        conds_err(stmts@) is None ==> ({
            &&& r matches Ok(p)
            &&& p.0@ == conds_frag(stmts@).sql
            &&& vals_deep(p.1@) == conds_frag(stmts@).binds
        }),
    decreases stmts@,
{
    broadcast use lemma_vals_deep, lemma_vals_deep_concat, vstd::std_specs::vec::axiom_vec_index_decreases;

    let mut sql = String::new();
    let mut binds: Vec<Value> = Vec::new();
    let mut i: usize = 0;
    while i < stmts.len()
        invariant
            i <= stmts@.len(),
            conds_err(stmts@.take(i as int)) is None,
            sql@ == conds_frag(stmts@.take(i as int)).sql,
            vals_deep(binds@) == conds_frag(stmts@.take(i as int)).binds,
        decreases stmts@.len() - i,
    {
        proof {
            assert(stmts@.take((i + 1) as int).drop_last() =~= stmts@.take(i as int));
            assert(stmts@.take((i + 1) as int).last() == stmts@[i as int]);
        }
        let ghost pre_sql = sql@;
        let ghost pre_binds = vals_deep(binds@);
        let ghost conn = cond_conn(stmts@.take((i + 1) as int), i as int);
        // The connective: nothing first or after an OR group.
        let prev_is_or = if i > 0 {
            matches!(&stmts[i - 1], Statement::OrChain(_))
        } else {
            false
        };
        let node_is_or = matches!(&stmts[i], Statement::OrChain(_));
        if i > 0 && !prev_is_or {
            if node_is_or {
                sql.append(" OR ");
            } else {
                sql.append(" AND ");
            }
        }
        proof {
            assert(sql@ == pre_sql + conn);
        }
        match &stmts[i] {
            Statement::Value(col, op, v) => {
                let is_between = *op == Operator::Between || *op == Operator::NotBetween;
                if is_between {
                    let arity_ok = match v {
                        Value::Array(a) => a.len() == 2,
                        _ => false,
                    };
                    if !arity_ok {
                        proof {
                            lemma_conds_err_at(stmts@, i as int);
                        }
                        return Err(CompileError::BetweenArity);
                    }
                }
                let (tok, is_bind) = operator_to_sql(op);
                sql.append(col.as_str());
                sql.append(" ");
                sql.append(tok);
                if is_between {
                    sql.append(" ? AND ?");
                    if let Value::Array(a) = v {
                        push_dup_values(&mut binds, a);
                    }
                } else if is_bind {
                    match v {
                        Value::Array(a) => {
                            sql.append(" (");
                            append_q_marks(&mut sql, a.len());
                            sql.append(")");
                            push_dup_values(&mut binds, a);
                        },
                        _ => {
                            sql.append(" ?");
                            binds.push(v.duplicate());
                        },
                    }
                }
                proof {
                    let node = cond_node_frag(stmts@[i as int]);
                    assert(sql@ =~= pre_sql + conn + node.sql);
                    assert(vals_deep(binds@) =~= pre_binds + node.binds);
                }
            },
            Statement::Raw(s, b) => {
                sql.append(s.as_str());
                push_dup_opt_values(&mut binds, b);
                proof {
                    let node = cond_node_frag(stmts@[i as int]);
                    assert(sql@ =~= pre_sql + conn + node.sql);
                    assert(vals_deep(binds@) =~= pre_binds + node.binds);
                }
            },
            Statement::SubChain(q) => {
                let sub = match statement_compiler(&q.statement) {
                    Ok(p) => p,
                    Err(e) => {
                        proof {
                            lemma_conds_err_at(stmts@, i as int);
                        }
                        return Err(e);
                    },
                };
                if q.statement.len() > 1 {
                    sql.append("(");
                    sql.append(sub.0.as_str());
                    sql.append(")");
                } else {
                    sql.append(sub.0.as_str());
                }
                let mut sub_binds = sub.1;
                binds.append(&mut sub_binds);
                proof {
                    let node = cond_node_frag(stmts@[i as int]);
                    assert(sql@ =~= pre_sql + conn + node.sql);
                    assert(vals_deep(binds@) =~= pre_binds + node.binds);
                }
            },
            Statement::OrChain(q) => {
                let sub = match statement_compiler(&q.statement) {
                    Ok(p) => p,
                    Err(e) => {
                        proof {
                            lemma_conds_err_at(stmts@, i as int);
                        }
                        return Err(e);
                    },
                };
                if q.statement.len() > 1 {
                    sql.append("(");
                    sql.append(sub.0.as_str());
                    sql.append(")");
                } else {
                    sql.append(sub.0.as_str());
                }
                let mut sub_binds = sub.1;
                binds.append(&mut sub_binds);
                proof {
                    let node = cond_node_frag(stmts@[i as int]);
                    assert(sql@ =~= pre_sql + conn + node.sql);
                    assert(vals_deep(binds@) =~= pre_binds + node.binds);
                }
            },
        }
        i += 1;
    }
    proof {
        assert(stmts@.take(stmts@.len() as int) =~= stmts@);
    }
    Ok((sql, binds))
}

/// The connective before join condition `i`: the same tie-break as the
/// condition tree — nothing for the first condition or after an OR group,
/// ` OR ` before an OR group, ` AND ` before anything else.
pub open spec fn join_conn(js: Seq<JoinStatement>, i: int) -> Seq<char> {
    if i == 0 || js[i - 1] is OrChain {
        Seq::empty()
    } else if js[i] is OrChain {
        " OR "@
    } else {
        " AND "@
    }
}

/// The fragment of one join condition, without its connective.
pub open spec fn join_node_frag(st: JoinStatement) -> Frag
    decreases st,
{
    match st {
        JoinStatement::On(a, op, b) => Frag {
            sql: a@ + " "@ + op@ + " "@ + b@,
            binds: Seq::empty(),
        },
        JoinStatement::OnVal(c, op, v) => Frag {
            sql: c@ + " "@ + op@ + " ?"@,
            binds: seq![val_deep(v)],
        },
        JoinStatement::OnRaw(s, b) => Frag { sql: s@, binds: opt_vals_deep(b) },
        JoinStatement::OrChain(j) => {
            let inner = join_sub_frag(*j);
            Frag { sql: "("@ + inner.sql + ")"@, binds: inner.binds }
        },
    }
}

/// The fragment of a join compiled without its table prefix: its raw
/// override when set, otherwise its condition sequence.
pub open spec fn join_sub_frag(j: JoinBuilder) -> Frag
    decreases j,
{
    match j.raw {
        Option::Some(p) => Frag { sql: p.0@, binds: opt_vals_deep(p.1) },
        Option::None => join_stmts_frag(j.statement@),
    }
}

/// The fragment of a join condition sequence.
pub open spec fn join_stmts_frag(js: Seq<JoinStatement>) -> Frag
    decreases js, 1int,
{
    if js.len() == 0 {
        Frag { sql: Seq::empty(), binds: Seq::empty() }
    } else {
        let rest = join_stmts_frag(js.drop_last());
        let node = join_node_frag(js.last());
        Frag {
            sql: rest.sql + join_conn(js, js.len() - 1) + node.sql,
            binds: rest.binds + node.binds,
        }
    }
}

/// The joined table, with the statement's database prefix when set.
pub open spec fn join_table_sql(db: Option<String>, table: Seq<char>) -> Seq<char> {
    match db {
        Option::Some(d) => d@ + "."@ + table,
        Option::None => table,
    }
}

/// The fragment of one join: its raw override verbatim, or
/// `<join type> <table>[ AS alias] ON <conditions>`.
pub open spec fn join_one_frag(j: JoinBuilder, db: Option<String>) -> Frag
    decreases j,
{
    match j.raw {
        Option::Some(p) => Frag { sql: p.0@, binds: opt_vals_deep(p.1) },
        Option::None => {
            let stmts = join_stmts_frag(j.statement@);
            let alias = match j.as_name {
                Option::Some(n) => " AS "@ + n@,
                Option::None => Seq::<char>::empty(),
            };
            Frag {
                sql: j.join_type@ + " "@ + join_table_sql(db, j.table@) + alias + " ON "@
                    + stmts.sql,
                binds: stmts.binds,
            }
        },
    }
}

/// The fragment of a join sequence, entries separated by a single space.
pub open spec fn joins_frag(joins: Seq<JoinBuilder>, db: Option<String>) -> Frag
    decreases joins,
{
    if joins.len() == 0 {
        Frag { sql: Seq::empty(), binds: Seq::empty() }
    } else if joins.len() == 1 {
        join_one_frag(joins[0], db)
    } else {
        let rest = joins_frag(joins.drop_last(), db);
        let one = join_one_frag(joins.last(), db);
        Frag { sql: rest.sql + " "@ + one.sql, binds: rest.binds + one.binds }
    }
}

/// Compiles a join condition sequence (used inside `ON`).
#[verifier::loop_isolation(false)]
fn join_stmts_compiler(js: &Vec<JoinStatement>) -> (r: (String, Vec<Value>))
    ensures
        r.0@ == join_stmts_frag(js@).sql,
        vals_deep(r.1@) == join_stmts_frag(js@).binds,
    decreases js@,
{
    broadcast use lemma_vals_deep, lemma_vals_deep_concat, vstd::std_specs::vec::axiom_vec_index_decreases;

    let mut sql = String::new();
    let mut binds: Vec<Value> = Vec::new();
    let mut i: usize = 0;
    while i < js.len()
        invariant
            i <= js@.len(),
            sql@ == join_stmts_frag(js@.take(i as int)).sql,
            vals_deep(binds@) == join_stmts_frag(js@.take(i as int)).binds,
        decreases js@.len() - i,
    {
        proof {
            assert(js@.take((i + 1) as int).drop_last() =~= js@.take(i as int));
            assert(js@.take((i + 1) as int).last() == js@[i as int]);
        }
        let ghost pre_sql = sql@;
        let ghost pre_binds = vals_deep(binds@);
        let ghost conn = join_conn(js@.take((i + 1) as int), i as int);
        let prev_is_or = if i > 0 {
            matches!(&js[i - 1], JoinStatement::OrChain(_))
        } else {
            false
        };
        if i > 0 && !prev_is_or {
            if matches!(&js[i], JoinStatement::OrChain(_)) {
                sql.append(" OR ");
            } else {
                sql.append(" AND ");
            }
        }
        proof {
            assert(sql@ == pre_sql + conn);
        }
        match &js[i] {
            JoinStatement::On(a, op, b) => {
                sql.append(a.as_str());
                sql.append(" ");
                sql.append(op.as_str());
                sql.append(" ");
                sql.append(b.as_str());
                proof {
                    assert(sql@ =~= pre_sql + conn + join_node_frag(js@[i as int]).sql);
                    assert(vals_deep(binds@) =~= pre_binds + join_node_frag(
                        js@[i as int],
                    ).binds);
                }
            },
            JoinStatement::OnVal(c, op, v) => {
                sql.append(c.as_str());
                sql.append(" ");
                sql.append(op.as_str());
                sql.append(" ?");
                binds.push(v.duplicate());
                proof {
                    assert(sql@ =~= pre_sql + conn + join_node_frag(js@[i as int]).sql);
                    assert(vals_deep(binds@) =~= pre_binds + join_node_frag(
                        js@[i as int],
                    ).binds);
                }
            },
            JoinStatement::OnRaw(s, b) => {
                sql.append(s.as_str());
                push_dup_opt_values(&mut binds, b);
                proof {
                    assert(sql@ =~= pre_sql + conn + join_node_frag(js@[i as int]).sql);
                    assert(vals_deep(binds@) =~= pre_binds + join_node_frag(
                        js@[i as int],
                    ).binds);
                }
            },
            JoinStatement::OrChain(j) => {
                let sub: (String, Vec<Value>) = match &j.raw {
                    Option::Some(p) => {
                        let mut rb: Vec<Value> = Vec::new();
                        push_dup_opt_values(&mut rb, &p.1);
                        proof {
                            assert(vals_deep(Seq::<Value>::empty()) + opt_vals_deep(p.1)
                                =~= opt_vals_deep(p.1));
                        }
                        (p.0.clone(), rb)
                    },
                    Option::None => join_stmts_compiler(&j.statement),
                };
                sql.append("(");
                sql.append(sub.0.as_str());
                sql.append(")");
                let mut sub_binds = sub.1;
                binds.append(&mut sub_binds);
                proof {
                    assert(sql@ =~= pre_sql + conn + join_node_frag(js@[i as int]).sql);
                    assert(vals_deep(binds@) =~= pre_binds + join_node_frag(
                        js@[i as int],
                    ).binds);
                }
            },
        }
        i += 1;
    }
    proof {
        assert(js@.take(js@.len() as int) =~= js@);
    }
    (sql, binds)
}

/// Compiles the full join sequence of a statement.
#[verifier::loop_isolation(false)]
#[verifier::rlimit(100)]
pub fn join_compiler(joins: &Vec<JoinBuilder>, db: &Option<String>) -> (r: (String, Vec<Value>))
    ensures
        r.0@ == joins_frag(joins@, *db).sql,
        vals_deep(r.1@) == joins_frag(joins@, *db).binds,
{
    broadcast use lemma_vals_deep, lemma_vals_deep_concat;

    let mut sql = String::new();
    let mut binds: Vec<Value> = Vec::new();
    let mut i: usize = 0;
    while i < joins.len()
        invariant
            i <= joins@.len(),
            sql@ == joins_frag(joins@.take(i as int), *db).sql,
            vals_deep(binds@) == joins_frag(joins@.take(i as int), *db).binds,
        decreases joins@.len() - i,
    {
        proof {
            assert(joins@.take((i + 1) as int).drop_last() =~= joins@.take(i as int));
            assert(joins@.take((i + 1) as int).last() == joins@[i as int]);
            assert(joins@.take((i + 1) as int)[0] == joins@[0]);
        }
        let ghost pre_sql = sql@;
        let ghost pre_binds = vals_deep(binds@);
        if i > 0 {
            sql.append(" ");
        }
        let j = &joins[i];
        match &j.raw {
            Option::Some(p) => {
                sql.append(p.0.as_str());
                push_dup_opt_values(&mut binds, &p.1);
            },
            Option::None => {
                sql.append(j.join_type.as_str());
                sql.append(" ");
                match db {
                    Option::Some(d) => {
                        sql.append(d.as_str());
                        sql.append(".");
                        sql.append(j.table.as_str());
                    },
                    Option::None => {
                        sql.append(j.table.as_str());
                    },
                }
                match &j.as_name {
                    Option::Some(n) => {
                        sql.append(" AS ");
                        sql.append(n.as_str());
                    },
                    Option::None => {},
                }
                sql.append(" ON ");
                let on = join_stmts_compiler(&j.statement);
                sql.append(on.0.as_str());
                let mut on_binds = on.1;
                binds.append(&mut on_binds);
            },
        }
        proof {
            let one = join_one_frag(joins@[i as int], *db);
            if i > 0 {
                assert(sql@ =~= pre_sql + " "@ + one.sql);
                assert(vals_deep(binds@) =~= pre_binds + one.binds);
            } else {
                assert(sql@ =~= one.sql);
                assert(vals_deep(binds@) =~= one.binds);
            }
        }
        i += 1;
    }
    proof {
        assert(joins@.take(joins@.len() as int) =~= joins@);
    }
    (sql, binds)
}

/// The value of the first field with the given key, `Null` when absent.
pub open spec fn obj_lookup(f: Seq<(Seq<char>, DVal)>, k: Seq<char>) -> DVal
    decreases f.len(),
{
    if f.len() == 0 {
        DVal::Null
    } else if f.first().0 == k {
        f.first().1
    } else {
        obj_lookup(f.drop_first(), k)
    }
}

/// The values of the given keys, in key order.
pub open spec fn lookup_binds(f: Seq<(Seq<char>, DVal)>, keys: Seq<Seq<char>>) -> Seq<DVal>
    decreases keys.len(),
{
    if keys.len() == 0 {
        Seq::empty()
    } else {
        lookup_binds(f, keys.drop_last()).push(obj_lookup(f, keys.last()))
    }
}

/// Whether a string holds ` + ` or ` - `: such an UPDATE value is spliced in
/// as a raw arithmetic expression instead of being bound.
pub open spec fn has_incdec(s: Seq<char>) -> bool {
    exists|i: int|
        0 <= i && i + 3 <= s.len() && #[trigger] s[i] == ' ' && (s[i + 1] == '+' || s[i + 1]
            == '-') && s[i + 2] == ' '
}

/// The sorted column list of a payload object.
pub open spec fn payload_cols(f: Seq<(Seq<char>, DVal)>) -> Seq<Seq<char>> {
    lex_sort(obj_keys_of(f))
}

/// The `SET` list of an UPDATE: one `key = ?` entry per sorted key, except
/// that a string value holding ` + ` or ` - ` is spliced in verbatim.
pub open spec fn upd_frag(f: Seq<(Seq<char>, DVal)>, keys: Seq<Seq<char>>) -> Frag
    decreases keys.len(),
{
    if keys.len() == 0 {
        Frag { sql: Seq::empty(), binds: Seq::empty() }
    } else {
        let rest = upd_frag(f, keys.drop_last());
        let k = keys.last();
        let v = obj_lookup(f, k);
        let sep: Seq<char> = if keys.len() > 1 {
            ", "@
        } else {
            Seq::empty()
        };
        if v matches DVal::Str(sv) && has_incdec(sv) {
            Frag { sql: rest.sql + sep + k + " = "@ + v->Str_0, binds: rest.binds }
        } else {
            Frag { sql: rest.sql + sep + k + " = ?"@, binds: rest.binds.push(v) }
        }
    }
}

/// The table expression of a statement: the raw table expression when set,
/// else the table name with its optional database prefix.
pub open spec fn table_frag(b: ChainBuilder) -> Frag {
    match b.table_raw {
        Option::Some(p) => Frag { sql: p.0@, binds: opt_vals_deep(p.1) },
        Option::None => match b.table {
            Option::Some(t) => Frag {
                sql: match b.db {
                    Option::Some(d) => d@ + "."@ + t@,
                    Option::None => t@,
                },
                binds: Seq::empty(),
            },
            Option::None => Frag { sql: Seq::empty(), binds: Seq::empty() },
        },
    }
}

/// The parenthesized placeholder tuples of a multi-row INSERT.
pub open spec fn rows_marks(nrows: nat, ncols: nat) -> Seq<char>
    decreases nrows,
{
    if nrows == 0 {
        Seq::empty()
    } else if nrows == 1 {
        "("@ + q_marks_cs(ncols) + ")"@
    } else {
        rows_marks((nrows - 1) as nat, ncols) + ", ("@ + q_marks_cs(ncols) + ")"@
    }
}

/// The bind values of a multi-row INSERT: row by row, column by column.
pub open spec fn rows_binds(rows: Seq<Value>, cols: Seq<Seq<char>>) -> Seq<DVal>
    decreases rows.len(),
{
    if rows.len() == 0 {
        Seq::empty()
    } else {
        rows_binds(rows.drop_last(), cols) + (match rows.last() {
            Value::Object(f) => lookup_binds(obj_deep(f@), cols),
            _ => Seq::empty(),
        })
    }
}

/// Why one multi-row INSERT row is rejected, if anything: it must be an
/// object, with no duplicate keys, whose sorted key list equals the column
/// list derived from the first row.
pub open spec fn row_err(row: Value, cols: Seq<Seq<char>>) -> Option<CompileError> {
    match row {
        Value::Object(f) => if !unique_keys(obj_deep(f@)) {
            Option::Some(CompileError::DuplicateColumn)
        } else if payload_cols(obj_deep(f@)) != cols {
            Option::Some(CompileError::RowKeyMismatch)
        } else {
            Option::None
        },
        _ => Option::Some(CompileError::RowNotObject),
    }
}

/// The first rejected row's error.
pub open spec fn rows_err(rows: Seq<Value>, cols: Seq<Seq<char>>) -> Option<CompileError>
    decreases rows.len(),
{
    if rows.len() == 0 {
        Option::None
    } else {
        or_else(rows_err(rows.drop_last(), cols), row_err(rows.last(), cols))
    }
}

/// The column list of a multi-row INSERT: the first row's sorted keys.
pub open spec fn first_row_cols(rows: Seq<Value>) -> Seq<Seq<char>> {
    match rows[0] {
        Value::Object(f) => payload_cols(obj_deep(f@)),
        _ => Seq::empty(),
    }
}

/// The fragment of one select-list entry.
pub open spec fn select_entry_frag(e: Select, client: Client) -> Frag
    decreases e, 0int,
{
    match e {
        Select::Columns(cols) => Frag {
            sql: sep_join(strs_deep(cols@), ", "@),
            binds: Seq::empty(),
        },
        Select::Raw(sql, b) => Frag { sql: sql@, binds: opt_vals_deep(b) },
        Select::Builder(alias, cb) => {
            let inner = builder_frag(cb, client);
            Frag { sql: "("@ + inner.sql + ") AS "@ + alias@, binds: inner.binds }
        },
    }
}

/// The fragment of the select list, entries joined with `, `; a nested
/// statement's bind values are spliced in at its position.
pub open spec fn selects_frag(sel: Seq<Select>, client: Client) -> Frag
    decreases sel, 1int,
{
    if sel.len() == 0 {
        Frag { sql: Seq::empty(), binds: Seq::empty() }
    } else {
        let rest = selects_frag(sel.drop_last(), client);
        let one = select_entry_frag(sel.last(), client);
        let sep: Seq<char> = if sel.len() > 1 {
            ", "@
        } else {
            Seq::empty()
        };
        Frag { sql: rest.sql + sep + one.sql, binds: rest.binds + one.binds }
    }
}

/// Why one select-list entry is rejected, if anything.
pub open spec fn select_entry_err(e: Select, client: Client) -> Option<CompileError>
    decreases e, 0int,
{
    match e {
        Select::Builder(_alias, cb) => builder_err(cb, client),
        _ => Option::None,
    }
}

/// The first rejected select-list entry's error.
pub open spec fn selects_err(sel: Seq<Select>, client: Client) -> Option<CompileError>
    decreases sel, 1int,
{
    if sel.len() == 0 {
        Option::None
    } else {
        or_else(selects_err(sel.drop_last(), client), select_entry_err(sel.last(), client))
    }
}

/// The method fragment of a statement: the SELECT/INSERT/UPDATE/DELETE core,
/// before joins and clauses.
pub open spec fn method_frag(b: ChainBuilder, client: Client) -> Frag
    decreases b, 1int,
{
    let table = table_frag(b);
    match b.method {
        Method::Select => {
            let sel = selects_frag(b.select@, client);
            Frag {
                sql: (if b.is_distinct {
                    "SELECT DISTINCT "@
                } else {
                    "SELECT "@
                }) + (if b.select@.len() == 0 {
                    "*"@
                } else {
                    sel.sql
                }) + " FROM "@ + table.sql + (match b.as_name {
                    Option::Some(n) => " AS "@ + n@,
                    Option::None => Seq::<char>::empty(),
                }),
                binds: sel.binds + table.binds,
            }
        },
        Method::Insert => {
            match b.insert_update {
                Value::Object(fields) => {
                    let df = obj_deep(fields@);
                    let cols = payload_cols(df);
                    Frag {
                        sql: "INSERT INTO "@ + table.sql + " ("@ + sep_join(cols, ", "@)
                            + ") VALUES ("@ + q_marks_cs(cols.len()) + ")"@,
                        binds: table.binds + lookup_binds(df, cols),
                    }
                },
                _ => Frag { sql: Seq::empty(), binds: Seq::empty() },
            }
        },
        Method::InsertMany => {
            match b.insert_update {
                Value::Array(rows) => {
                    let cols = first_row_cols(rows@);
                    Frag {
                        sql: "INSERT INTO "@ + table.sql + " ("@ + sep_join(cols, ", "@)
                            + ") VALUES "@ + rows_marks(rows@.len(), cols.len()),
                        binds: table.binds + rows_binds(rows@, cols),
                    }
                },
                _ => Frag { sql: Seq::empty(), binds: Seq::empty() },
            }
        },
        Method::Update => {
            match b.insert_update {
                Value::Object(fields) => {
                    let df = obj_deep(fields@);
                    let upd = upd_frag(df, payload_cols(df));
                    Frag {
                        sql: "UPDATE "@ + table.sql + " SET "@ + upd.sql,
                        binds: table.binds + upd.binds,
                    }
                },
                _ => Frag { sql: Seq::empty(), binds: Seq::empty() },
            }
        },
        Method::Delete => Frag { sql: "DELETE FROM "@ + table.sql, binds: table.binds },
    }
}

/// Why the method core of a statement is rejected, if anything.
pub open spec fn method_err(b: ChainBuilder, client: Client) -> Option<CompileError>
    decreases b, 1int,
{
    match b.method {
        Method::Select => selects_err(b.select@, client),
        Method::Insert => match b.insert_update {
            Value::Object(fields) => if !unique_keys(obj_deep(fields@)) {
                Option::Some(CompileError::DuplicateColumn)
            } else {
                Option::None
            },
            _ => Option::Some(CompileError::PayloadNotObject),
        },
        Method::InsertMany => match b.insert_update {
            Value::Array(rows) => if rows@.len() == 0 {
                Option::Some(CompileError::NoRows)
            } else {
                rows_err(rows@, first_row_cols(rows@))
            },
            _ => Option::Some(CompileError::PayloadNotArray),
        },
        Method::Update => match b.insert_update {
            Value::Object(fields) => if !unique_keys(obj_deep(fields@)) {
                Option::Some(CompileError::DuplicateColumn)
            } else {
                Option::None
            },
            _ => Option::Some(CompileError::PayloadNotObject),
        },
        Method::Delete => Option::None,
    }
}

/// The accumulated common clauses of a statement.
pub struct CommonAcc {
    pub err: Option<CompileError>,
    pub sql_with: Frag,
    pub sql_union: Frag,
    pub limit: Option<usize>,
    pub offset: Option<usize>,
    pub group_by: Seq<Seq<char>>,
    pub group_by_raw: Frag,
    pub having: Frag,
    pub order_by: Seq<Seq<char>>,
    pub order_by_raw: Frag,
}

/// The empty accumulator.
pub open spec fn common_acc_empty() -> CommonAcc {
    CommonAcc {
        err: Option::None,
        sql_with: Frag { sql: Seq::empty(), binds: Seq::empty() },
        sql_union: Frag { sql: Seq::empty(), binds: Seq::empty() },
        limit: Option::None,
        offset: Option::None,
        group_by: Seq::empty(),
        group_by_raw: Frag { sql: Seq::empty(), binds: Seq::empty() },
        having: Frag { sql: Seq::empty(), binds: Seq::empty() },
        order_by: Seq::empty(),
        order_by_raw: Frag { sql: Seq::empty(), binds: Seq::empty() },
    }
}

/// Folds the common-clause sequence into the accumulator.
pub open spec fn commons_acc(cs: Seq<Common>, client: Client) -> CommonAcc
    decreases cs, 4int,
{
    if cs.len() == 0 {
        common_acc_empty()
    } else {
        let acc = commons_acc(cs.drop_last(), client);
        match cs.last() {
            Common::With(alias, recursive, cb) => {
                let inner = builder_frag(cb, client);
                CommonAcc {
                    err: or_else(acc.err, builder_err(cb, client)),
                    sql_with: Frag {
                        sql: (if acc.sql_with.sql.len() == 0 {
                            "WITH "@
                        } else {
                            acc.sql_with.sql + ", "@
                        }) + (if recursive {
                            "RECURSIVE "@
                        } else {
                            Seq::<char>::empty()
                        }) + alias@ + " AS ("@ + inner.sql + ")"@,
                        binds: acc.sql_with.binds + inner.binds,
                    },
                    ..acc
                }
            },
            Common::Union(is_all, cb) => {
                let inner = builder_frag(cb, client);
                CommonAcc {
                    err: or_else(acc.err, builder_err(cb, client)),
                    sql_union: Frag {
                        sql: acc.sql_union.sql + (if acc.sql_union.sql.len() > 0 {
                            " "@
                        } else {
                            Seq::<char>::empty()
                        }) + (if is_all {
                            "UNION ALL "@
                        } else {
                            "UNION "@
                        }) + inner.sql,
                        binds: acc.sql_union.binds + inner.binds,
                    },
                    ..acc
                }
            },
            Common::Limit(l) => CommonAcc { limit: Option::Some(l), ..acc },
            Common::Offset(o) => CommonAcc { offset: Option::Some(o), ..acc },
            Common::GroupBy(cols) => CommonAcc { group_by: acc.group_by + strs_deep(cols@), ..acc },
            Common::GroupByRaw(sql, b) => CommonAcc {
                group_by_raw: Frag {
                    sql: acc.group_by_raw.sql + sql@,
                    binds: acc.group_by_raw.binds + opt_vals_deep(b),
                },
                ..acc
            },
            Common::Having(sql, b) => CommonAcc {
                having: Frag {
                    sql: if acc.having.sql.len() == 0 {
                        sql@
                    } else {
                        acc.having.sql + " AND "@ + sql@
                    },
                    binds: acc.having.binds + opt_vals_deep(b),
                },
                ..acc
            },
            Common::OrderBy(col, dir) => CommonAcc {
                order_by: acc.order_by.push(col@ + " "@ + dir@),
                ..acc
            },
            Common::OrderByRaw(sql, b) => CommonAcc {
                order_by_raw: Frag {
                    sql: acc.order_by_raw.sql + sql@,
                    binds: acc.order_by_raw.binds + opt_vals_deep(b),
                },
                ..acc
            },
        }
    }
}

/// The trailing raw fragments, separated by single spaces.
pub open spec fn raws_frag(rs: Seq<(String, Option<Vec<Value>>)>) -> Frag
    decreases rs,
{
    if rs.len() == 0 {
        Frag { sql: Seq::empty(), binds: Seq::empty() }
    } else {
        let rest = raws_frag(rs.drop_last());
        let sep: Seq<char> = if rs.len() > 1 {
            " "@
        } else {
            Seq::empty()
        };
        Frag {
            sql: rest.sql + sep + rs.last().0@,
            binds: rest.binds + opt_vals_deep(rs.last().1),
        }
    }
}

/// The LIMIT/OFFSET text of a dialect: MySQL emits placeholders, SQLite
/// inlines the numbers as `LIMIT offset, count`.
pub open spec fn limoff_sql(client: Client, limit: Option<usize>, offset: Option<usize>) -> Seq<
    char,
> {
    if client == Client::Sqlite {
        match (limit, offset) {
            (Option::Some(l), Option::Some(o)) => " LIMIT "@ + crate::strutil::dec_nat(o as nat)
                + ", "@ + crate::strutil::dec_nat(l as nat),
            (Option::Some(l), Option::None) => " LIMIT "@ + crate::strutil::dec_nat(l as nat),
            (Option::None, Option::Some(o)) => " LIMIT "@ + crate::strutil::dec_nat(o as nat)
                + ", -1"@,
            (Option::None, Option::None) => Seq::empty(),
        }
    } else {
        (match limit {
            Option::Some(_) => " LIMIT ?"@,
            Option::None => Seq::<char>::empty(),
        }) + (match offset {
            Option::Some(_) => " OFFSET ?"@,
            Option::None => Seq::<char>::empty(),
        })
    }
}

/// The LIMIT/OFFSET bind values of a dialect: only MySQL binds them.
pub open spec fn limoff_binds(client: Client, limit: Option<usize>, offset: Option<usize>) -> Seq<
    DVal,
> {
    if client == Client::Sqlite {
        Seq::empty()
    } else {
        (match limit {
            Option::Some(l) => seq![DVal::UInt(l as u64)],
            Option::None => Seq::<DVal>::empty(),
        }) + (match offset {
            Option::Some(o) => seq![DVal::UInt(o as u64)],
            Option::None => Seq::<DVal>::empty(),
        })
    }
}

/// The compiled parts of a statement, before final assembly.
pub struct Parts {
    pub statement: Frag,
    pub method: Frag,
    pub join: Frag,
    pub raw: Frag,
    pub sql_with: Frag,
    pub sql_union: Frag,
    pub limit: Option<usize>,
    pub offset: Option<usize>,
    pub group_by: Seq<Seq<char>>,
    pub group_by_raw: Frag,
    pub having: Frag,
    pub order_by: Seq<Seq<char>>,
    pub order_by_raw: Frag,
}

/// The head of the assembly: WITH prologue, method core, joins.
pub open spec fn asm_head_sql(p: Parts) -> Seq<char> {
    (if p.sql_with.sql.len() > 0 {
        p.sql_with.sql + " "@
    } else {
        Seq::<char>::empty()
    }) + p.method.sql + (if p.join.sql.len() > 0 {
        " "@ + p.join.sql
    } else {
        Seq::<char>::empty()
    })
}

/// The middle of the assembly: WHERE, GROUP BY, HAVING, ORDER BY.
pub open spec fn asm_mid_sql(p: Parts) -> Seq<char> {
    (if p.statement.sql.len() > 0 {
        " WHERE "@ + p.statement.sql
    } else {
        Seq::<char>::empty()
    }) + (if p.group_by.len() > 0 {
        " GROUP BY "@ + sep_join(p.group_by, ", "@)
    } else {
        Seq::<char>::empty()
    }) + (if p.group_by_raw.sql.len() > 0 {
        " GROUP BY "@ + p.group_by_raw.sql
    } else {
        Seq::<char>::empty()
    }) + (if p.having.sql.len() > 0 {
        " HAVING "@ + p.having.sql
    } else {
        Seq::<char>::empty()
    }) + (if p.order_by.len() > 0 {
        " ORDER BY "@ + sep_join(p.order_by, ", "@)
    } else {
        Seq::<char>::empty()
    }) + (if p.order_by_raw.sql.len() > 0 {
        " ORDER BY "@ + p.order_by_raw.sql
    } else {
        Seq::<char>::empty()
    })
}

/// The tail of the assembly: LIMIT/OFFSET, UNION chain, trailing raw SQL.
pub open spec fn asm_tail_sql(client: Client, p: Parts) -> Seq<char> {
    limoff_sql(client, p.limit, p.offset) + (if p.sql_union.sql.len() > 0 {
        " "@ + p.sql_union.sql
    } else {
        Seq::<char>::empty()
    }) + (if p.raw.sql.len() > 0 {
        " "@ + p.raw.sql
    } else {
        Seq::<char>::empty()
    })
}

/// The final clause order: WITH, method, joins, WHERE, GROUP BY, HAVING,
/// ORDER BY, LIMIT/OFFSET, UNION, then trailing raw fragments.
pub open spec fn assemble_sql(client: Client, p: Parts) -> Seq<char> {
    asm_head_sql(p) + asm_mid_sql(p) + asm_tail_sql(client, p)
}

/// The bind values, accumulated in exactly the clause order of the text.
pub open spec fn assemble_binds(client: Client, p: Parts) -> Seq<DVal> {
    (p.sql_with.binds + p.method.binds + p.join.binds) + (p.statement.binds
        + p.group_by_raw.binds + p.having.binds + p.order_by_raw.binds) + (limoff_binds(
        client,
        p.limit,
        p.offset,
    ) + p.sql_union.binds + p.raw.binds)
}

/// The compiled parts of a statement.
pub open spec fn builder_parts(b: ChainBuilder, client: Client) -> Parts
    decreases b, 2int,
{
    let acc = commons_acc(b.query.query_common@, client);
    Parts {
        statement: conds_frag(b.query.statement@),
        method: method_frag(b, client),
        join: joins_frag(b.query.join@, b.db),
        raw: raws_frag(b.query.raw@),
        sql_with: acc.sql_with,
        sql_union: acc.sql_union,
        limit: acc.limit,
        offset: acc.offset,
        group_by: acc.group_by,
        group_by_raw: acc.group_by_raw,
        having: acc.having,
        order_by: acc.order_by,
        order_by_raw: acc.order_by_raw,
    }
}

/// The full compilation of a statement for a dialect.
pub open spec fn builder_frag(b: ChainBuilder, client: Client) -> Frag
    decreases b, 3int,
{
    let p = builder_parts(b, client);
    Frag { sql: assemble_sql(client, p), binds: assemble_binds(client, p) }
}

/// Why a statement is rejected, if anything: condition-tree errors first,
/// then the method core, then nested WITH/UNION statements.
pub open spec fn builder_err(b: ChainBuilder, client: Client) -> Option<CompileError>
    decreases b, 3int,
{
    or_else(
        conds_err(b.query.statement@),
        or_else(method_err(b, client), commons_acc(b.query.query_common@, client).err),
    )
}

/// The compilation of a statement under its own client.
pub open spec fn compile_err(b: ChainBuilder) -> Option<CompileError> {
    if b.client == Client::Postgres {
        Option::Some(CompileError::UnsupportedClient)
    } else {
        builder_err(b, b.client)
    }
}

/// The compiled SQL of a statement under its own client.
pub open spec fn compile_sql(b: ChainBuilder) -> Seq<char> {
    builder_frag(b, b.client).sql
}

/// The compiled bind values of a statement under its own client.
pub open spec fn compile_binds(b: ChainBuilder) -> Seq<DVal> {
    builder_frag(b, b.client).binds
}

/// Decides whether a string holds ` + ` or ` - `.
#[verifier::loop_isolation(false)]
pub fn has_incdec_str(s: &str) -> (r: bool)
    ensures
        r == has_incdec(s@),
{
    let n = s.unicode_len();
    if n < 3 {
        return false;
    }
    let last = n - 3;
    let mut i: usize = 0;
    while i <= last
        invariant
            n == s@.len(),
            n >= 3,
            last == n - 3,
            i <= last + 1,
            forall|k: int|
                0 <= k < i ==> !(#[trigger] s@[k] == ' ' && (s@[k + 1] == '+' || s@[k + 1] == '-')
                    && s@[k + 2] == ' '),
        decreases last + 1 - i,
    {
        let c0 = s.get_char(i);
        if c0 == ' ' {
            let c1 = s.get_char(i + 1);
            if c1 == '+' || c1 == '-' {
                let c2 = s.get_char(i + 2);
                if c2 == ' ' {
                    return true;
                }
            }
        }
        i += 1;
    }
    false
}

/// Appends the table expression and its bind values.
fn push_table_expr(sql: &mut String, binds: &mut Vec<Value>, b: &ChainBuilder)
    ensures
        final(sql)@ == old(sql)@ + table_frag(*b).sql,
        vals_deep(final(binds)@) == vals_deep(old(binds)@) + table_frag(*b).binds,
{
    broadcast use lemma_vals_deep;

    match &b.table_raw {
        Option::Some(p) => {
            sql.append(p.0.as_str());
            push_dup_opt_values(binds, &p.1);
        },
        Option::None => {
            match &b.table {
                Option::Some(t) => {
                    match &b.db {
                        Option::Some(d) => {
                            sql.append(d.as_str());
                            sql.append(".");
                            sql.append(t.as_str());
                            proof {
                                assert(sql@ =~= old(sql)@ + (d@ + "."@ + t@));
                            }
                        },
                        Option::None => {
                            sql.append(t.as_str());
                        },
                    }
                },
                Option::None => {},
            }
            proof {
                assert(vals_deep(binds@) =~= vals_deep(binds@) + Seq::<DVal>::empty());
                if b.table is None {
                    assert(sql@ =~= old(sql)@ + Seq::<char>::empty());
                }
            }
        },
    }
}

/// Decides whether the payload object's keys are pairwise distinct.
#[verifier::loop_isolation(false)]
fn check_unique_keys(fields: &Vec<(String, Value)>) -> (r: bool)
    ensures
        r == unique_keys(obj_deep(fields@)),
{
    proof {
        lemma_obj_deep(fields@);
    }
    let n = fields.len();
    let mut i: usize = 0;
    while i < n
        invariant
            i <= n,
            n == fields@.len(),
            forall|a: int, b: int|
                0 <= a < b < n && a < i ==> #[trigger] fields@[a].0@ != #[trigger] fields@[b].0@,
        decreases n - i,
    {
        let mut j: usize = i + 1;
        while j < n
            invariant
                i < n,
                i + 1 <= j <= n,
                n == fields@.len(),
                forall|b: int| i < b < j ==> fields@[i as int].0@ != #[trigger] fields@[b].0@,
            decreases n - j,
        {
            if fields[i].0.eq(&fields[j].0) {
                proof {
                    let df = obj_deep(fields@);
                    assert(df[i as int].0 == df[j as int].0);
                }
                return false;
            }
            j += 1;
        }
        i += 1;
    }
    proof {
        let df = obj_deep(fields@);
        assert forall|a: int, b: int| 0 <= a < b < df.len() implies df[a].0 != df[b].0 by {
            assert(fields@[a].0@ != fields@[b].0@);
        }
    }
    true
}

/// The lookup skips a prefix without the key.
proof fn lemma_obj_lookup_skip(f: Seq<(Seq<char>, DVal)>, k: Seq<char>, i: int)
    requires
        0 <= i <= f.len(),
        forall|j: int| 0 <= j < i ==> f[j].0 != k,
    ensures
        obj_lookup(f, k) == obj_lookup(f.skip(i), k),
    decreases i,
{
    if i == 0 {
        assert(f.skip(0) =~= f);
    } else {
        assert(f.drop_first().skip(i - 1) =~= f.skip(i));
        lemma_obj_lookup_skip(f.drop_first(), k, i - 1);
    }
}

/// The value of the first field with the given key.
#[verifier::loop_isolation(false)]
fn find_value(fields: &Vec<(String, Value)>, key: &String) -> (r: Option<Value>)
    ensures
        (r is Some) == (exists|j: int| 0 <= j < fields@.len() && fields@[j].0@ == key@),
        r matches Some(v) ==> val_deep(v) == obj_lookup(obj_deep(fields@), key@),
{
    proof {
        lemma_obj_deep(fields@);
    }
    let mut i: usize = 0;
    while i < fields.len()
        invariant
            i <= fields@.len(),
            forall|j: int| 0 <= j < i ==> #[trigger] fields@[j].0@ != key@,
        decreases fields@.len() - i,
    {
        if fields[i].0.eq(key) {
            let v = fields[i].1.duplicate();
            proof {
                let df = obj_deep(fields@);
                assert(forall|j: int| 0 <= j < i ==> df[j].0 != key@);
                lemma_obj_lookup_skip(df, key@, i as int);
                assert(df.skip(i as int).first() == df[i as int]);
            }
            return Some(v);
        }
        i += 1;
    }
    proof {
        assert forall|j: int| 0 <= j < fields@.len() implies fields@[j].0@ != key@ by {}
    }
    None
}

/// Every sorted column is a key of the object.
proof fn lemma_col_is_key(df: Seq<(Seq<char>, DVal)>, i: int)
    requires
        0 <= i < payload_cols(df).len(),
    ensures
        exists|j: int| 0 <= j < df.len() && df[j].0 == payload_cols(df)[i],
{
    broadcast use vstd::seq_lib::group_to_multiset_ensures;

    let keys = obj_keys_of(df);
    let cols = payload_cols(df);
    lemma_lex_sort_ensures(keys);
    assert(cols.contains(cols[i]));
    assert(cols.to_multiset().count(cols[i]) > 0);
    assert(keys.to_multiset().count(cols[i]) > 0);
    assert(keys.contains(cols[i]));
    let j = choose|j: int| 0 <= j < keys.len() && keys[j] == cols[i];
    assert(df[j].0 == cols[i]);
}

/// The sorted column list of a payload object, as strings.
#[verifier::loop_isolation(false)]
fn collect_sorted_keys(fields: &Vec<(String, Value)>) -> (r: Vec<String>)
    ensures
        strs_deep(r@) == payload_cols(obj_deep(fields@)),
{
    broadcast use lemma_obj_deep, lemma_strs_deep;

    let mut keys: Vec<String> = Vec::new();
    let mut i: usize = 0;
    while i < fields.len()
        invariant
            i <= fields@.len(),
            keys@.len() == i,
            forall|j: int| 0 <= j < i ==> keys@[j]@ == fields@[j].0@,
        decreases fields@.len() - i,
    {
        keys.push(fields[i].0.clone());
        i += 1;
    }
    proof {
        assert(strs_deep(keys@) =~= obj_keys_of(obj_deep(fields@)));
    }
    sort_strings(keys)
}

/// Appends the values of the given keys, in key order.
#[verifier::loop_isolation(false)]
fn append_payload_binds(binds: &mut Vec<Value>, fields: &Vec<(String, Value)>, keys: &Vec<String>)
    requires
        strs_deep(keys@) == payload_cols(obj_deep(fields@)),
    ensures
        vals_deep(final(binds)@) == vals_deep(old(binds)@) + lookup_binds(
            obj_deep(fields@),
            strs_deep(keys@),
        ),
{
    broadcast use lemma_vals_deep, lemma_strs_deep, lemma_obj_deep;

    let ghost df = obj_deep(fields@);
    let ghost cols = strs_deep(keys@);
    let mut i: usize = 0;
    while i < keys.len()
        invariant
            i <= keys@.len(),
            vals_deep(binds@) == vals_deep(old(binds)@) + lookup_binds(df, cols.take(i as int)),
        decreases keys@.len() - i,
    {
        proof {
            lemma_col_is_key(df, i as int);
        }
        let ghost prev_binds = binds@;
        match find_value(fields, &keys[i]) {
            Option::Some(v) => {
                proof {
                    assert(keys@[i as int]@ == cols[i as int]);
                    assert(val_deep(v) == obj_lookup(df, cols[i as int]));
                }
                binds.push(v);
                proof {
                    assert(vals_deep(binds@) =~= vals_deep(prev_binds).push(val_deep(v)));
                }
            },
            Option::None => {
                proof {
                    assert(false);
                }
            },
        }
        proof {
            assert(cols.take((i + 1) as int).drop_last() =~= cols.take(i as int));
            assert(cols.take((i + 1) as int).last() == cols[i as int]);
            assert(vals_deep(binds@) =~= vals_deep(old(binds)@) + lookup_binds(
                df,
                cols.take((i + 1) as int),
            ));
        }
        i += 1;
    }
    proof {
        assert(cols.take(cols.len() as int) =~= cols);
    }
}

/// An error in one select entry makes the first error of an error-free prefix.
proof fn lemma_selects_err_at(sel: Seq<Select>, client: Client, i: int)
    requires
        0 <= i < sel.len(),
        selects_err(sel.take(i), client) is None,
        select_entry_err(sel[i], client) is Some,
    ensures
        selects_err(sel, client) == select_entry_err(sel[i], client),
    decreases sel.len(),
{
    if sel.len() == i + 1 {
        assert(sel.drop_last() =~= sel.take(i));
    } else {
        assert(sel.drop_last().take(i) =~= sel.take(i));
        lemma_selects_err_at(sel.drop_last(), client, i);
    }
}

/// An error in one row makes the first error of an error-free prefix.
proof fn lemma_rows_err_at(rows: Seq<Value>, cols: Seq<Seq<char>>, i: int)
    requires
        0 <= i < rows.len(),
        rows_err(rows.take(i), cols) is None,
        row_err(rows[i], cols) is Some,
    ensures
        rows_err(rows, cols) == row_err(rows[i], cols),
    decreases rows.len(),
{
    if rows.len() == i + 1 {
        assert(rows.drop_last() =~= rows.take(i));
    } else {
        assert(rows.drop_last().take(i) =~= rows.take(i));
        lemma_rows_err_at(rows.drop_last(), cols, i);
    }
}

/// When no row is rejected, every row is acceptable.
proof fn lemma_rows_err_all(rows: Seq<Value>, cols: Seq<Seq<char>>, i: int)
    requires
        rows_err(rows, cols) is None,
        0 <= i < rows.len(),
    ensures
        row_err(rows[i], cols) is None,
    decreases rows.len(),
{
    if i < rows.len() - 1 {
        lemma_rows_err_all(rows.drop_last(), cols, i);
    }
}

/// Decides whether two string lists hold the same texts in the same order.
#[verifier::loop_isolation(false)]
fn str_vecs_equal(a: &Vec<String>, b: &Vec<String>) -> (r: bool)
    ensures
        r == (strs_deep(a@) == strs_deep(b@)),
{
    broadcast use lemma_strs_deep;

    if a.len() != b.len() {
        proof {
            assert(strs_deep(a@).len() != strs_deep(b@).len());
        }
        return false;
    }
    let mut i: usize = 0;
    while i < a.len()
        invariant
            a@.len() == b@.len(),
            i <= a@.len(),
            forall|j: int| 0 <= j < i ==> #[trigger] a@[j]@ == b@[j]@,
        decreases a@.len() - i,
    {
        if !a[i].eq(&b[i]) {
            proof {
                assert(strs_deep(a@)[i as int] != strs_deep(b@)[i as int]);
            }
            return false;
        }
        i += 1;
    }
    proof {
        assert(strs_deep(a@) =~= strs_deep(b@));
    }
    true
}


/// Appends one select-list entry (without its separator).
#[verifier::rlimit(100)]
fn append_select_entry(
    sql: &mut String,
    binds: &mut Vec<Value>,
    e: &Select,
    client: Client,
) -> (r: Result<(), CompileError>)
    ensures
        select_entry_err(*e, client) matches Some(err) ==> ({
            &&& r == Err::<(), CompileError>(err)
            &&& *final(sql) == *old(sql)
            &&& *final(binds) == *old(binds)
        }),
        select_entry_err(*e, client) is None ==> ({
            &&& r is Ok
            &&& final(sql)@ == old(sql)@ + select_entry_frag(*e, client).sql
            &&& vals_deep(final(binds)@) == vals_deep(old(binds)@) + select_entry_frag(
                *e,
                client,
            ).binds
        }),
    decreases *e, 1int,
{
    broadcast use lemma_vals_deep, lemma_vals_deep_concat;

    match e {
        Select::Columns(cols) => {
            let cs = join_strings(cols, ", ");
            sql.append(cs.as_str());
            proof {
                assert(vals_deep(binds@) =~= vals_deep(old(binds)@) + select_entry_frag(
                    *e,
                    client,
                ).binds);
            }
            Ok(())
        },
        Select::Raw(s2, b2) => {
            sql.append(s2.as_str());
            push_dup_opt_values(binds, b2);
            Ok(())
        },
        Select::Builder(alias, cb) => {
            let sub = match full_compile(cb, client) {
                Ok(p) => p,
                Err(err) => {
                    return Err(err);
                },
            };
            sql.append("(");
            sql.append(sub.0.as_str());
            sql.append(") AS ");
            sql.append(alias.as_str());
            let mut sub_binds = sub.1;
            binds.append(&mut sub_binds);
            proof {
                assert(sql@ =~= old(sql)@ + select_entry_frag(*e, client).sql);
                assert(vals_deep(binds@) =~= vals_deep(old(binds)@) + select_entry_frag(
                    *e,
                    client,
                ).binds);
            }
            Ok(())
        },
    }
}

/// Compiles the select core: `SELECT [DISTINCT] <list> FROM <table>[ AS alias]`.
#[verifier::loop_isolation(false)]
#[verifier::rlimit(100)]
fn compile_select_method(b: &ChainBuilder, client: Client) -> (r: Result<
    (String, Vec<Value>),
    CompileError,
>)
    requires
        b.method == Method::Select,
    ensures
        method_err(*b, client) matches Some(e) ==> r == Err::<(String, Vec<Value>), CompileError>(
            e,
        ),
        method_err(*b, client) is None ==> ({
            &&& r matches Ok(p)
            &&& p.0@ == method_frag(*b, client).sql
            &&& vals_deep(p.1@) == method_frag(*b, client).binds
        }),
    decreases *b, 0int,
{
    broadcast use lemma_vals_deep, lemma_vals_deep_concat, vstd::std_specs::vec::axiom_vec_index_decreases;

    let mut sql = String::new();
    let mut binds: Vec<Value> = Vec::new();
    if b.is_distinct {
        sql.append("SELECT DISTINCT ");
    } else {
        sql.append("SELECT ");
    }
    let ghost head = sql@;
    if b.select.len() == 0 {
        sql.append("*");
    } else {
        let mut i: usize = 0;
        proof {
            assert(head + selects_frag(b.select@.take(0), client).sql =~= head);
            assert(vals_deep(binds@) =~= selects_frag(b.select@.take(0), client).binds);
        }
        while i < b.select.len()
            invariant
                i <= b.select@.len(),
                selects_err(b.select@.take(i as int), client) is None,
                sql@ == head + selects_frag(b.select@.take(i as int), client).sql,
                vals_deep(binds@) == selects_frag(b.select@.take(i as int), client).binds,
            decreases b.select@.len() - i,
        {
            proof {
                assert(b.select@.take((i + 1) as int).drop_last() =~= b.select@.take(i as int));
                assert(b.select@.take((i + 1) as int).last() == b.select@[i as int]);
            }
            let ghost pre_sql = sql@;
            let ghost pre_binds = vals_deep(binds@);
            let ghost sep: Seq<char> = if i > 0 {
                ", "@
            } else {
                Seq::empty()
            };
            if i > 0 {
                sql.append(", ");
            }
            match append_select_entry(&mut sql, &mut binds, &b.select[i], client) {
                Ok(_u) => {},
                Err(e) => {
                    proof {
                        lemma_selects_err_at(b.select@, client, i as int);
                    }
                    return Err(e);
                },
            }
            proof {
                let f1 = selects_frag(b.select@.take((i + 1) as int), client);
                assert(sql@ =~= head + f1.sql);
                assert(vals_deep(binds@) =~= f1.binds);
            }
            i += 1;
        }
        proof {
            assert(b.select@.take(b.select@.len() as int) =~= b.select@);
        }
    }
    sql.append(" FROM ");
    push_table_expr(&mut sql, &mut binds, b);
    match &b.as_name {
        Option::Some(n) => {
            sql.append(" AS ");
            sql.append(n.as_str());
        },
        Option::None => {},
    }
    proof {
        assert(sql@ =~= method_frag(*b, client).sql);
        assert(vals_deep(binds@) =~= method_frag(*b, client).binds);
    }
    Ok((sql, binds))
}

/// Compiles the single-row INSERT core, with the columns in sorted key order.
#[verifier::rlimit(100)]
fn compile_insert_method(b: &ChainBuilder, client: Client) -> (r: Result<
    (String, Vec<Value>),
    CompileError,
>)
    requires
        b.method == Method::Insert,
    ensures
        method_err(*b, client) matches Some(e) ==> r == Err::<(String, Vec<Value>), CompileError>(
            e,
        ),
        method_err(*b, client) is None ==> ({
            &&& r matches Ok(p)
            &&& p.0@ == method_frag(*b, client).sql
            &&& vals_deep(p.1@) == method_frag(*b, client).binds
        }),
{
    broadcast use lemma_vals_deep, lemma_vals_deep_concat, lemma_strs_deep;

    let mut sql = String::new();
    let mut binds: Vec<Value> = Vec::new();
    match &b.insert_update {
        Value::Object(fields) => {
            if !check_unique_keys(fields) {
                return Err(CompileError::DuplicateColumn);
            }
            let keys = collect_sorted_keys(fields);
            sql.append("INSERT INTO ");
            push_table_expr(&mut sql, &mut binds, b);
            sql.append(" (");
            let cols_text = join_strings(&keys, ", ");
            sql.append(cols_text.as_str());
            sql.append(") VALUES (");
            let marks = build_q_marks_cs(keys.len());
            sql.append(marks.as_str());
            sql.append(")");
            append_payload_binds(&mut binds, fields, &keys);
            proof {
                assert(sql@ =~= method_frag(*b, client).sql);
                assert(vals_deep(binds@) =~= method_frag(*b, client).binds);
            }
            Ok((sql, binds))
        },
        _ => Err(CompileError::PayloadNotObject),
    }
}

/// Compiles the UPDATE core: `SET` entries in sorted key order, splicing
/// increment/decrement expressions verbatim.
#[verifier::loop_isolation(false)]
#[verifier::rlimit(100)]
fn compile_update_method(b: &ChainBuilder, client: Client) -> (r: Result<
    (String, Vec<Value>),
    CompileError,
>)
    requires
        b.method == Method::Update,
    ensures
        method_err(*b, client) matches Some(e) ==> r == Err::<(String, Vec<Value>), CompileError>(
            e,
        ),
        method_err(*b, client) is None ==> ({
            &&& r matches Ok(p)
            &&& p.0@ == method_frag(*b, client).sql
            &&& vals_deep(p.1@) == method_frag(*b, client).binds
        }),
{
    broadcast use lemma_vals_deep, lemma_vals_deep_concat, lemma_strs_deep, lemma_obj_deep;

    let mut sql = String::new();
    let mut binds: Vec<Value> = Vec::new();
    match &b.insert_update {
        Value::Object(fields) => {
            if !check_unique_keys(fields) {
                return Err(CompileError::DuplicateColumn);
            }
            let keys = collect_sorted_keys(fields);
            sql.append("UPDATE ");
            push_table_expr(&mut sql, &mut binds, b);
            sql.append(" SET ");
            let ghost head = sql@;
            let ghost table_binds = vals_deep(binds@);
            let ghost df = obj_deep(fields@);
            let ghost cols = strs_deep(keys@);
            let mut i: usize = 0;
            while i < keys.len()
                invariant
                    i <= keys@.len(),
                    sql@ == head + upd_frag(df, cols.take(i as int)).sql,
                    vals_deep(binds@) == table_binds + upd_frag(df, cols.take(i as int)).binds,
                decreases keys@.len() - i,
            {
                proof {
                    assert(cols.take((i + 1) as int).drop_last() =~= cols.take(i as int));
                    assert(cols.take((i + 1) as int).last() == cols[i as int]);
                    lemma_col_is_key(df, i as int);
                }
                let ghost pre_sql = sql@;
                let ghost pre_binds = vals_deep(binds@);
                if i > 0 {
                    sql.append(", ");
                }
                sql.append(keys[i].as_str());
                let v = match find_value(fields, &keys[i]) {
                    Option::Some(v) => v,
                    Option::None => {
                        proof {
                            assert(false);
                        }
                        vstd::pervasive::unreached()
                    },
                };
                let is_raw = match &v {
                    Value::Str(sv) => has_incdec_str(sv.as_str()),
                    _ => false,
                };
                if is_raw {
                    sql.append(" = ");
                    match &v {
                        Value::Str(sv) => {
                            sql.append(sv.as_str());
                        },
                        _ => {},
                    }
                } else {
                    sql.append(" = ?");
                    let ghost prev_binds = binds@;
                    binds.push(v);
                    proof {
                        assert(vals_deep(binds@) =~= vals_deep(prev_binds).push(
                            val_deep(binds@.last()),
                        ));
                    }
                }
                proof {
                    let e = upd_frag(df, cols.take((i + 1) as int));
                    assert(sql@ =~= head + e.sql);
                    assert(vals_deep(binds@) =~= table_binds + e.binds);
                }
                i += 1;
            }
            proof {
                assert(cols.take(cols.len() as int) =~= cols);
                assert(sql@ =~= method_frag(*b, client).sql);
                assert(vals_deep(binds@) =~= method_frag(*b, client).binds);
            }
            Ok((sql, binds))
        },
        _ => Err(CompileError::PayloadNotObject),
    }
}

/// Compiles the multi-row INSERT core: one sorted column list from the
/// first row, one placeholder tuple per row, after validating every row.
#[verifier::loop_isolation(false)]
#[verifier::rlimit(100)]
fn compile_insert_many_method(b: &ChainBuilder, client: Client) -> (r: Result<
    (String, Vec<Value>),
    CompileError,
>)
    requires
        b.method == Method::InsertMany,
    ensures
        method_err(*b, client) matches Some(e) ==> r == Err::<(String, Vec<Value>), CompileError>(
            e,
        ),
        method_err(*b, client) is None ==> ({
            &&& r matches Ok(p)
            &&& p.0@ == method_frag(*b, client).sql
            &&& vals_deep(p.1@) == method_frag(*b, client).binds
        }),
{
    broadcast use lemma_vals_deep, lemma_vals_deep_concat, lemma_strs_deep, lemma_obj_deep;

    let mut sql = String::new();
    let mut binds: Vec<Value> = Vec::new();
    match &b.insert_update {
        Value::Array(rows) => {
            if rows.len() == 0 {
                return Err(CompileError::NoRows);
            }
            let ghost gcols = first_row_cols(rows@);
            let cols_vec: Vec<String> = match &rows[0] {
                Value::Object(f0) => {
                    if !check_unique_keys(f0) {
                        proof {
                            assert(rows@.take(0).len() == 0);
                            lemma_rows_err_at(rows@, gcols, 0);
                        }
                        return Err(CompileError::DuplicateColumn);
                    }
                    collect_sorted_keys(f0)
                },
                _ => {
                    proof {
                        assert(rows@.take(0).len() == 0);
                        lemma_rows_err_at(rows@, gcols, 0);
                    }
                    return Err(CompileError::RowNotObject);
                },
            };
            proof {
                assert(strs_deep(cols_vec@) == gcols);
                assert(rows@.take(1).drop_last() =~= rows@.take(0));
                assert(rows@.take(1).last() == rows@[0]);
                assert(rows@.take(0).len() == 0);
                assert(row_err(rows@[0], gcols) is None);
            }
            let mut r: usize = 1;
            while r < rows.len()
                invariant
                    1 <= r <= rows@.len(),
                    rows_err(rows@.take(r as int), gcols) is None,
                decreases rows@.len() - r,
            {
                proof {
                    assert(rows@.take((r + 1) as int).drop_last() =~= rows@.take(r as int));
                    assert(rows@.take((r + 1) as int).last() == rows@[r as int]);
                }
                match &rows[r] {
                    Value::Object(f) => {
                        if !check_unique_keys(f) {
                            proof {
                                lemma_rows_err_at(rows@, gcols, r as int);
                            }
                            return Err(CompileError::DuplicateColumn);
                        }
                        let sk = collect_sorted_keys(f);
                        if !str_vecs_equal(&sk, &cols_vec) {
                            proof {
                                lemma_rows_err_at(rows@, gcols, r as int);
                            }
                            return Err(CompileError::RowKeyMismatch);
                        }
                    },
                    _ => {
                        proof {
                            lemma_rows_err_at(rows@, gcols, r as int);
                        }
                        return Err(CompileError::RowNotObject);
                    },
                }
                r += 1;
            }
            proof {
                assert(rows@.take(rows@.len() as int) =~= rows@);
            }
            sql.append("INSERT INTO ");
            push_table_expr(&mut sql, &mut binds, b);
            sql.append(" (");
            let cols_text = join_strings(&cols_vec, ", ");
            sql.append(cols_text.as_str());
            sql.append(") VALUES ");
            let ghost head = sql@;
            let ghost table_binds = vals_deep(binds@);
            let marks = build_q_marks_cs(cols_vec.len());
            let mut r2: usize = 0;
            proof {
                assert(gcols.len() == cols_vec@.len());
                assert(head + rows_marks(0, gcols.len()) =~= head);
                assert(vals_deep(binds@) =~= table_binds + rows_binds(rows@.take(0), gcols));
            }
            while r2 < rows.len()
                invariant
                    r2 <= rows@.len(),
                    rows_err(rows@, gcols) is None,
                    gcols.len() == cols_vec@.len(),
                    sql@ == head + rows_marks(r2 as nat, gcols.len()),
                    vals_deep(binds@) == table_binds + rows_binds(rows@.take(r2 as int), gcols),
                decreases rows@.len() - r2,
            {
                proof {
                    assert(rows@.take((r2 + 1) as int).drop_last() =~= rows@.take(r2 as int));
                    assert(rows@.take((r2 + 1) as int).last() == rows@[r2 as int]);
                    lemma_rows_err_all(rows@, gcols, r2 as int);
                }
                let ghost pre_sql = sql@;
                let ghost pre_binds = vals_deep(binds@);
                if r2 > 0 {
                    sql.append(", (");
                } else {
                    sql.append("(");
                }
                sql.append(marks.as_str());
                sql.append(")");
                match &rows[r2] {
                    Value::Object(f) => {
                        append_payload_binds(&mut binds, f, &cols_vec);
                    },
                    _ => {
                        proof {
                            assert(false);
                        }
                    },
                }
                proof {
                    assert(marks@ == q_marks_cs(gcols.len()));
                    if r2 > 0 {
                        assert(sql@ =~= pre_sql + ", ("@ + marks@ + ")"@);
                    } else {
                        assert(sql@ =~= head + "("@ + marks@ + ")"@);
                    }
                    assert(sql@ =~= head + rows_marks((r2 + 1) as nat, gcols.len()));
                    assert(vals_deep(binds@) =~= table_binds + rows_binds(
                        rows@.take((r2 + 1) as int),
                        gcols,
                    ));
                }
                r2 += 1;
            }
            proof {
                assert(rows@.take(rows@.len() as int) =~= rows@);
                assert(sql@ =~= method_frag(*b, client).sql);
                assert(vals_deep(binds@) =~= method_frag(*b, client).binds);
            }
            Ok((sql, binds))
        },
        _ => Err(CompileError::PayloadNotArray),
    }
}

/// Compiles the method core of a statement: the SELECT/INSERT/UPDATE/DELETE
/// text before joins and common clauses.
pub fn method_compiler(b: &ChainBuilder, client: Client) -> (r: Result<
    (String, Vec<Value>),
    CompileError,
>)
    ensures
        method_err(*b, client) matches Some(e) ==> r == Err::<(String, Vec<Value>), CompileError>(
            e,
        ),
        method_err(*b, client) is None ==> ({
            &&& r matches Ok(p)
            &&& p.0@ == method_frag(*b, client).sql
            &&& vals_deep(p.1@) == method_frag(*b, client).binds
        }),
    decreases *b, 1int,
{
    match b.method {
        Method::Select => compile_select_method(b, client),
        Method::Insert => compile_insert_method(b, client),
        Method::Update => compile_update_method(b, client),
        Method::InsertMany => compile_insert_many_method(b, client),
        Method::Delete => {
            let mut sql = String::new();
            let mut binds: Vec<Value> = Vec::new();
            sql.append("DELETE FROM ");
            push_table_expr(&mut sql, &mut binds, b);
            proof {
                assert(sql@ =~= method_frag(*b, client).sql);
            }
            Ok((sql, binds))
        },
    }
}

/// Why one common clause is rejected, if anything.
pub open spec fn common_err(c: Common, client: Client) -> Option<CompileError>
    decreases c, 5int,
{
    match c {
        Common::With(_a, _r, cb) => builder_err(cb, client),
        Common::Union(_all, cb) => builder_err(cb, client),
        _ => Option::None,
    }
}

/// The accumulator's error folds clause by clause.
proof fn lemma_commons_err_step(cs: Seq<Common>, client: Client)
    requires
        cs.len() > 0,
    ensures
        commons_acc(cs, client).err == or_else(
            commons_acc(cs.drop_last(), client).err,
            common_err(cs.last(), client),
        ),
{
}

/// An error in one clause makes the first error of an error-free prefix.
proof fn lemma_commons_err_at(cs: Seq<Common>, client: Client, i: int)
    requires
        0 <= i < cs.len(),
        commons_acc(cs.take(i), client).err is None,
        common_err(cs[i], client) is Some,
    ensures
        commons_acc(cs, client).err == common_err(cs[i], client),
    decreases cs.len(),
{
    lemma_commons_err_step(cs, client);
    if cs.len() == i + 1 {
        assert(cs.drop_last() =~= cs.take(i));
    } else {
        assert(cs.drop_last().take(i) =~= cs.take(i));
        lemma_commons_err_at(cs.drop_last(), client, i);
    }
}

/// Appends one WITH entry to the prologue.
fn push_with_entry(
    ws: &mut String,
    wb: &mut Vec<Value>,
    alias: &str,
    recursive: bool,
    inner: (String, Vec<Value>),
)
    ensures
        final(ws)@ == (if old(ws)@.len() == 0 {
            "WITH "@
        } else {
            old(ws)@ + ", "@
        }) + (if recursive {
            "RECURSIVE "@
        } else {
            Seq::<char>::empty()
        }) + alias@ + " AS ("@ + inner.0@ + ")"@,
        vals_deep(final(wb)@) == vals_deep(old(wb)@) + vals_deep(inner.1@),
{
    broadcast use lemma_vals_deep, lemma_vals_deep_concat;

    if ws.as_str().is_empty() {
        ws.append("WITH ");
        proof {
            assert(ws@ =~= "WITH "@);
        }
    } else {
        ws.append(", ");
    }
    if recursive {
        ws.append("RECURSIVE ");
    }
    ws.append(alias);
    ws.append(" AS (");
    ws.append(inner.0.as_str());
    ws.append(")");
    let mut ib = inner.1;
    wb.append(&mut ib);
    proof {
        assert(ws@ =~= (if old(ws)@.len() == 0 {
            "WITH "@
        } else {
            old(ws)@ + ", "@
        }) + (if recursive {
            "RECURSIVE "@
        } else {
            Seq::<char>::empty()
        }) + alias@ + " AS ("@ + inner.0@ + ")"@);
    }
}

/// Appends one UNION entry to the chain.
fn push_union_entry(us: &mut String, ub: &mut Vec<Value>, is_all: bool, inner: (String, Vec<Value>))
    ensures
        final(us)@ == old(us)@ + (if old(us)@.len() > 0 {
            " "@
        } else {
            Seq::<char>::empty()
        }) + (if is_all {
            "UNION ALL "@
        } else {
            "UNION "@
        }) + inner.0@,
        vals_deep(final(ub)@) == vals_deep(old(ub)@) + vals_deep(inner.1@),
{
    broadcast use lemma_vals_deep, lemma_vals_deep_concat;

    if !us.as_str().is_empty() {
        us.append(" ");
    }
    if is_all {
        us.append("UNION ALL ");
    } else {
        us.append("UNION ");
    }
    us.append(inner.0.as_str());
    let mut ib = inner.1;
    ub.append(&mut ib);
    proof {
        assert(us@ =~= old(us)@ + (if old(us)@.len() > 0 {
            " "@
        } else {
            Seq::<char>::empty()
        }) + (if is_all {
            "UNION ALL "@
        } else {
            "UNION "@
        }) + inner.0@);
    }
}

/// The common clauses of a statement, accumulated part by part.
struct CommonsOut {
    sql_with: (String, Vec<Value>),
    sql_union: (String, Vec<Value>),
    limit: Option<usize>,
    offset: Option<usize>,
    group_by: Vec<String>,
    group_by_raw: (String, Vec<Value>),
    having: (String, Vec<Value>),
    order_by: Vec<String>,
    order_by_raw: (String, Vec<Value>),
}

/// Compiles the common-clause sequence of a statement.
#[verifier::loop_isolation(false)]
#[verifier::rlimit(100)]
fn commons_compiler(cs: &Vec<Common>, client: Client) -> (r: Result<CommonsOut, CompileError>)
    ensures
        commons_acc(cs@, client).err matches Some(e) ==> r == Err::<CommonsOut, CompileError>(e),
        commons_acc(cs@, client).err is None ==> ({
            let acc = commons_acc(cs@, client);
            &&& r matches Ok(t)
            &&& pair_frag(t.sql_with) == acc.sql_with
            &&& pair_frag(t.sql_union) == acc.sql_union
            &&& t.limit == acc.limit
            &&& t.offset == acc.offset
            &&& strs_deep(t.group_by@) == acc.group_by
            &&& pair_frag(t.group_by_raw) == acc.group_by_raw
            &&& pair_frag(t.having) == acc.having
            &&& strs_deep(t.order_by@) == acc.order_by
            &&& pair_frag(t.order_by_raw) == acc.order_by_raw
        }),
    decreases cs@, 2int,
{
    broadcast use lemma_vals_deep, lemma_vals_deep_concat, lemma_strs_deep, vstd::std_specs::vec::axiom_vec_index_decreases;

    let mut with_sql = String::new();
    let mut with_binds: Vec<Value> = Vec::new();
    let mut union_sql = String::new();
    let mut union_binds: Vec<Value> = Vec::new();
    let mut limit: Option<usize> = None;
    let mut offset: Option<usize> = None;
    let mut group_by: Vec<String> = Vec::new();
    let mut group_raw_sql = String::new();
    let mut group_raw_binds: Vec<Value> = Vec::new();
    let mut having_sql = String::new();
    let mut having_binds: Vec<Value> = Vec::new();
    let mut order_by: Vec<String> = Vec::new();
    let mut order_raw_sql = String::new();
    let mut order_raw_binds: Vec<Value> = Vec::new();
    let mut i: usize = 0;
    while i < cs.len()
        invariant
            i <= cs@.len(),
            ({
                let acc = commons_acc(cs@.take(i as int), client);
                &&& acc.err is None
                &&& with_sql@ == acc.sql_with.sql
                &&& vals_deep(with_binds@) == acc.sql_with.binds
                &&& union_sql@ == acc.sql_union.sql
                &&& vals_deep(union_binds@) == acc.sql_union.binds
                &&& limit == acc.limit
                &&& offset == acc.offset
                &&& strs_deep(group_by@) == acc.group_by
                &&& group_raw_sql@ == acc.group_by_raw.sql
                &&& vals_deep(group_raw_binds@) == acc.group_by_raw.binds
                &&& having_sql@ == acc.having.sql
                &&& vals_deep(having_binds@) == acc.having.binds
                &&& strs_deep(order_by@) == acc.order_by
                &&& order_raw_sql@ == acc.order_by_raw.sql
                &&& vals_deep(order_raw_binds@) == acc.order_by_raw.binds
            }),
        decreases cs@.len() - i,
    {
        proof {
            assert(cs@.take((i + 1) as int).drop_last() =~= cs@.take(i as int));
            assert(cs@.take((i + 1) as int).last() == cs@[i as int]);
        }
        match &cs[i] {
            Common::With(alias, recursive, cb) => {
                let inner = match full_compile(cb, client) {
                    Ok(p) => p,
                    Err(e) => {
                        proof {
                            lemma_commons_err_at(cs@, client, i as int);
                        }
                        return Err(e);
                    },
                };
                proof {
                    assert(inner.0@ == builder_frag(*cb, client).sql);
                    assert(vals_deep(inner.1@) == builder_frag(*cb, client).binds);
                }
                push_with_entry(&mut with_sql, &mut with_binds, alias.as_str(), *recursive, inner);
                proof {
                    let acc1 = commons_acc(cs@.take((i + 1) as int), client);
                    assert(with_sql@ =~= acc1.sql_with.sql);
                    assert(vals_deep(with_binds@) =~= acc1.sql_with.binds);
                }
            },
            Common::Union(is_all, cb) => {
                let inner = match full_compile(cb, client) {
                    Ok(p) => p,
                    Err(e) => {
                        proof {
                            lemma_commons_err_at(cs@, client, i as int);
                        }
                        return Err(e);
                    },
                };
                proof {
                    assert(inner.0@ == builder_frag(*cb, client).sql);
                    assert(vals_deep(inner.1@) == builder_frag(*cb, client).binds);
                }
                push_union_entry(&mut union_sql, &mut union_binds, *is_all, inner);
                proof {
                    let acc1 = commons_acc(cs@.take((i + 1) as int), client);
                    assert(union_sql@ =~= acc1.sql_union.sql);
                    assert(vals_deep(union_binds@) =~= acc1.sql_union.binds);
                }
            },
            Common::Limit(l) => {
                limit = Some(*l);
            },
            Common::Offset(o) => {
                offset = Some(*o);
            },
            Common::GroupBy(cols) => {
                extend_strings(&mut group_by, cols);
            },
            Common::GroupByRaw(s2, b2) => {
                group_raw_sql.append(s2.as_str());
                push_dup_opt_values(&mut group_raw_binds, b2);
                proof {
                    let acc1 = commons_acc(cs@.take((i + 1) as int), client);
                    assert(group_raw_sql@ =~= acc1.group_by_raw.sql);
                    assert(vals_deep(group_raw_binds@) =~= acc1.group_by_raw.binds);
                }
            },
            Common::Having(s2, b2) => {
                if having_sql.as_str().is_empty() {
                    having_sql.append(s2.as_str());
                    proof {
                        assert(having_sql@ =~= s2@);
                    }
                } else {
                    having_sql.append(" AND ");
                    having_sql.append(s2.as_str());
                }
                push_dup_opt_values(&mut having_binds, b2);
                proof {
                    let acc1 = commons_acc(cs@.take((i + 1) as int), client);
                    assert(having_sql@ =~= acc1.having.sql);
                    assert(vals_deep(having_binds@) =~= acc1.having.binds);
                }
            },
            Common::OrderBy(c2, d2) => {
                let item = crate::strutil::concat3(c2.as_str(), " ", d2.as_str());
                order_by.push(item);
                proof {
                    assert(strs_deep(order_by@) =~= commons_acc(
                        cs@.take((i + 1) as int),
                        client,
                    ).order_by);
                }
            },
            Common::OrderByRaw(s2, b2) => {
                order_raw_sql.append(s2.as_str());
                push_dup_opt_values(&mut order_raw_binds, b2);
                proof {
                    let acc1 = commons_acc(cs@.take((i + 1) as int), client);
                    assert(order_raw_sql@ =~= acc1.order_by_raw.sql);
                    assert(vals_deep(order_raw_binds@) =~= acc1.order_by_raw.binds);
                }
            },
        }
        i += 1;
    }
    proof {
        assert(cs@.take(cs@.len() as int) =~= cs@);
    }
    Ok(
        CommonsOut {
            sql_with: (with_sql, with_binds),
            sql_union: (union_sql, union_binds),
            limit,
            offset,
            group_by,
            group_by_raw: (group_raw_sql, group_raw_binds),
            having: (having_sql, having_binds),
            order_by,
            order_by_raw: (order_raw_sql, order_raw_binds),
        },
    )
}

/// Compiles the trailing raw fragments of a statement.
#[verifier::loop_isolation(false)]
fn raws_compiler(rs: &Vec<(String, Option<Vec<Value>>)>) -> (r: (String, Vec<Value>))
    ensures
        r.0@ == raws_frag(rs@).sql,
        vals_deep(r.1@) == raws_frag(rs@).binds,
{
    broadcast use lemma_vals_deep, lemma_vals_deep_concat;

    let mut raw_sql = String::new();
    let mut raw_binds: Vec<Value> = Vec::new();
    let mut k: usize = 0;
    while k < rs.len()
        invariant
            k <= rs@.len(),
            raw_sql@ == raws_frag(rs@.take(k as int)).sql,
            vals_deep(raw_binds@) == raws_frag(rs@.take(k as int)).binds,
        decreases rs@.len() - k,
    {
        proof {
            assert(rs@.take((k + 1) as int).drop_last() =~= rs@.take(k as int));
            assert(rs@.take((k + 1) as int).last() == rs@[k as int]);
        }
        let ghost pre_sql = raw_sql@;
        let ghost pre_binds = vals_deep(raw_binds@);
        if k > 0 {
            raw_sql.append(" ");
        }
        raw_sql.append(rs[k].0.as_str());
        push_dup_opt_values(&mut raw_binds, &rs[k].1);
        proof {
            let f1 = raws_frag(rs@.take((k + 1) as int));
            assert(raw_sql@ =~= f1.sql);
            assert(vals_deep(raw_binds@) =~= f1.binds);
        }
        k += 1;
    }
    proof {
        assert(rs@.take(rs@.len() as int) =~= rs@);
    }
    (raw_sql, raw_binds)
}

/// A compiled statement, part by part, before final assembly.
#[derive(Debug)]
pub struct ToSql {
    pub statement: (String, Vec<Value>),
    pub method: (String, Vec<Value>),
    pub join: (String, Vec<Value>),
    pub raw: (String, Vec<Value>),
    pub sql_with: (String, Vec<Value>),
    pub sql_union: (String, Vec<Value>),
    pub limit: Option<usize>,
    pub offset: Option<usize>,
    pub group_by: Vec<String>,
    pub group_by_raw: (String, Vec<Value>),
    pub having: (String, Vec<Value>),
    pub order_by: Vec<String>,
    pub order_by_raw: (String, Vec<Value>),
}

/// The mathematical view of a part pair.
pub open spec fn pair_frag(p: (String, Vec<Value>)) -> Frag {
    Frag { sql: p.0@, binds: vals_deep(p.1@) }
}

/// The mathematical view of compiled parts.
pub open spec fn tosql_parts(t: ToSql) -> Parts {
    Parts {
        statement: pair_frag(t.statement),
        method: pair_frag(t.method),
        join: pair_frag(t.join),
        raw: pair_frag(t.raw),
        sql_with: pair_frag(t.sql_with),
        sql_union: pair_frag(t.sql_union),
        limit: t.limit,
        offset: t.offset,
        group_by: strs_deep(t.group_by@),
        group_by_raw: pair_frag(t.group_by_raw),
        having: pair_frag(t.having),
        order_by: strs_deep(t.order_by@),
        order_by_raw: pair_frag(t.order_by_raw),
    }
}

/// Compiles every part of a statement for a dialect.
#[verifier::rlimit(100)]
pub fn to_sql_parts(b: &ChainBuilder, client: Client) -> (r: Result<ToSql, CompileError>)
    ensures
        builder_err(*b, client) matches Some(e) ==> r == Err::<ToSql, CompileError>(e),
        builder_err(*b, client) is None ==> ({
            &&& r matches Ok(t)
            &&& tosql_parts(t) == builder_parts(*b, client)
        }),
    decreases *b, 2int,
{
    let statement = match statement_compiler(&b.query.statement) {
        Ok(p) => p,
        Err(e) => {
            return Err(e);
        },
    };
    let method = match method_compiler(b, client) {
        Ok(p) => p,
        Err(e) => {
            return Err(e);
        },
    };
    let join = join_compiler(&b.query.join, &b.db);
    let commons = match commons_compiler(&b.query.query_common, client) {
        Ok(c) => c,
        Err(e) => {
            return Err(e);
        },
    };
    let raw = raws_compiler(&b.query.raw);
    let t = ToSql {
        statement,
        method,
        join,
        raw,
        sql_with: commons.sql_with,
        sql_union: commons.sql_union,
        limit: commons.limit,
        offset: commons.offset,
        group_by: commons.group_by,
        group_by_raw: commons.group_by_raw,
        having: commons.having,
        order_by: commons.order_by,
        order_by_raw: commons.order_by_raw,
    };
    proof {
        assert(tosql_parts(t) == builder_parts(*b, client));
    }
    Ok(t)
}

/// Appends the WITH prologue, the method core and the joins.
#[verifier::rlimit(100)]
fn merge_head(
    sql: &mut String,
    binds: &mut Vec<Value>,
    sql_with: (String, Vec<Value>),
    method: (String, Vec<Value>),
    join: (String, Vec<Value>),
)
    ensures
        final(sql)@ == old(sql)@ + ((if sql_with.0@.len() > 0 {
            sql_with.0@ + " "@
        } else {
            Seq::<char>::empty()
        }) + method.0@ + (if join.0@.len() > 0 {
            " "@ + join.0@
        } else {
            Seq::<char>::empty()
        })),
        vals_deep(final(binds)@) == vals_deep(old(binds)@) + (vals_deep(sql_with.1@) + vals_deep(
            method.1@,
        ) + vals_deep(join.1@)),
{
    broadcast use lemma_vals_deep, lemma_vals_deep_concat;

    if !sql_with.0.as_str().is_empty() {
        sql.append(sql_with.0.as_str());
        sql.append(" ");
    }
    sql.append(method.0.as_str());
    if !join.0.as_str().is_empty() {
        sql.append(" ");
        sql.append(join.0.as_str());
    }
    let mut wb = sql_with.1;
    binds.append(&mut wb);
    let mut mb = method.1;
    binds.append(&mut mb);
    let mut jb = join.1;
    binds.append(&mut jb);
    proof {
        assert(sql@ =~= old(sql)@ + ((if sql_with.0@.len() > 0 {
            sql_with.0@ + " "@
        } else {
            Seq::<char>::empty()
        }) + method.0@ + (if join.0@.len() > 0 {
            " "@ + join.0@
        } else {
            Seq::<char>::empty()
        })));
        assert(vals_deep(binds@) =~= vals_deep(old(binds)@) + (vals_deep(sql_with.1@) + vals_deep(
            method.1@,
        ) + vals_deep(join.1@)));
    }
}

/// Appends WHERE and GROUP BY.
#[verifier::rlimit(100)]
fn merge_mid1(
    sql: &mut String,
    binds: &mut Vec<Value>,
    statement: (String, Vec<Value>),
    group_by: Vec<String>,
    group_by_raw: (String, Vec<Value>),
)
    ensures
        final(sql)@ == old(sql)@ + ((if statement.0@.len() > 0 {
            " WHERE "@ + statement.0@
        } else {
            Seq::<char>::empty()
        }) + (if strs_deep(group_by@).len() > 0 {
            " GROUP BY "@ + sep_join(strs_deep(group_by@), ", "@)
        } else {
            Seq::<char>::empty()
        }) + (if group_by_raw.0@.len() > 0 {
            " GROUP BY "@ + group_by_raw.0@
        } else {
            Seq::<char>::empty()
        })),
        vals_deep(final(binds)@) == vals_deep(old(binds)@) + (vals_deep(statement.1@) + vals_deep(
            group_by_raw.1@,
        )),
{
    broadcast use lemma_vals_deep, lemma_vals_deep_concat, lemma_strs_deep;

    if !statement.0.as_str().is_empty() {
        sql.append(" WHERE ");
        sql.append(statement.0.as_str());
    }
    if group_by.len() > 0 {
        sql.append(" GROUP BY ");
        let g = join_strings(&group_by, ", ");
        sql.append(g.as_str());
    }
    if !group_by_raw.0.as_str().is_empty() {
        sql.append(" GROUP BY ");
        sql.append(group_by_raw.0.as_str());
    }
    let mut sb = statement.1;
    binds.append(&mut sb);
    let mut gb = group_by_raw.1;
    binds.append(&mut gb);
    proof {
        assert(sql@ =~= old(sql)@ + ((if statement.0@.len() > 0 {
            " WHERE "@ + statement.0@
        } else {
            Seq::<char>::empty()
        }) + (if strs_deep(group_by@).len() > 0 {
            " GROUP BY "@ + sep_join(strs_deep(group_by@), ", "@)
        } else {
            Seq::<char>::empty()
        }) + (if group_by_raw.0@.len() > 0 {
            " GROUP BY "@ + group_by_raw.0@
        } else {
            Seq::<char>::empty()
        })));
        assert(vals_deep(binds@) =~= vals_deep(old(binds)@) + (vals_deep(statement.1@)
            + vals_deep(group_by_raw.1@)));
    }
}

/// Appends HAVING and ORDER BY.
#[verifier::rlimit(100)]
fn merge_mid2(
    sql: &mut String,
    binds: &mut Vec<Value>,
    having: (String, Vec<Value>),
    order_by: Vec<String>,
    order_by_raw: (String, Vec<Value>),
)
    ensures
        final(sql)@ == old(sql)@ + ((if having.0@.len() > 0 {
            " HAVING "@ + having.0@
        } else {
            Seq::<char>::empty()
        }) + (if strs_deep(order_by@).len() > 0 {
            " ORDER BY "@ + sep_join(strs_deep(order_by@), ", "@)
        } else {
            Seq::<char>::empty()
        }) + (if order_by_raw.0@.len() > 0 {
            " ORDER BY "@ + order_by_raw.0@
        } else {
            Seq::<char>::empty()
        })),
        vals_deep(final(binds)@) == vals_deep(old(binds)@) + (vals_deep(having.1@) + vals_deep(
            order_by_raw.1@,
        )),
{
    broadcast use lemma_vals_deep, lemma_vals_deep_concat, lemma_strs_deep;

    if !having.0.as_str().is_empty() {
        sql.append(" HAVING ");
        sql.append(having.0.as_str());
    }
    if order_by.len() > 0 {
        sql.append(" ORDER BY ");
        let o = join_strings(&order_by, ", ");
        sql.append(o.as_str());
    }
    if !order_by_raw.0.as_str().is_empty() {
        sql.append(" ORDER BY ");
        sql.append(order_by_raw.0.as_str());
    }
    let mut hb = having.1;
    binds.append(&mut hb);
    let mut ob = order_by_raw.1;
    binds.append(&mut ob);
    proof {
        assert(sql@ =~= old(sql)@ + ((if having.0@.len() > 0 {
            " HAVING "@ + having.0@
        } else {
            Seq::<char>::empty()
        }) + (if strs_deep(order_by@).len() > 0 {
            " ORDER BY "@ + sep_join(strs_deep(order_by@), ", "@)
        } else {
            Seq::<char>::empty()
        }) + (if order_by_raw.0@.len() > 0 {
            " ORDER BY "@ + order_by_raw.0@
        } else {
            Seq::<char>::empty()
        })));
        assert(vals_deep(binds@) =~= vals_deep(old(binds)@) + (vals_deep(having.1@) + vals_deep(
            order_by_raw.1@,
        )));
    }
}

/// Appends LIMIT/OFFSET, the UNION chain and the trailing raw fragments.
#[verifier::rlimit(100)]
fn merge_tail(
    sql: &mut String,
    binds: &mut Vec<Value>,
    limit: Option<usize>,
    offset: Option<usize>,
    sql_union: (String, Vec<Value>),
    raw: (String, Vec<Value>),
    client: Client,
)
    ensures
        final(sql)@ == old(sql)@ + (limoff_sql(client, limit, offset) + (if sql_union.0@.len()
            > 0 {
            " "@ + sql_union.0@
        } else {
            Seq::<char>::empty()
        }) + (if raw.0@.len() > 0 {
            " "@ + raw.0@
        } else {
            Seq::<char>::empty()
        })),
        vals_deep(final(binds)@) == vals_deep(old(binds)@) + (limoff_binds(client, limit, offset)
            + vals_deep(sql_union.1@) + vals_deep(raw.1@)),
{
    broadcast use lemma_vals_deep, lemma_vals_deep_concat;

    if matches!(client, Client::Sqlite) {
        match (limit, offset) {
            (Some(l), Some(o)) => {
                sql.append(" LIMIT ");
                let od = u64_to_dec(o as u64);
                sql.append(od.as_str());
                sql.append(", ");
                let ld = u64_to_dec(l as u64);
                sql.append(ld.as_str());
            },
            (Some(l), None) => {
                sql.append(" LIMIT ");
                let ld = u64_to_dec(l as u64);
                sql.append(ld.as_str());
            },
            (None, Some(o)) => {
                sql.append(" LIMIT ");
                let od = u64_to_dec(o as u64);
                sql.append(od.as_str());
                sql.append(", -1");
            },
            (None, None) => {},
        }
    } else {
        match limit {
            Some(l) => {
                sql.append(" LIMIT ?");
                binds.push(Value::UInt(l as u64));
            },
            None => {},
        }
        match offset {
            Some(o) => {
                sql.append(" OFFSET ?");
                binds.push(Value::UInt(o as u64));
            },
            None => {},
        }
    }
    let ghost mid_sql = sql@;
    let ghost mid_binds = vals_deep(binds@);
    proof {
        assert(mid_sql =~= old(sql)@ + limoff_sql(client, limit, offset));
        assert(mid_binds =~= vals_deep(old(binds)@) + limoff_binds(client, limit, offset));
    }
    if !sql_union.0.as_str().is_empty() {
        sql.append(" ");
        sql.append(sql_union.0.as_str());
    }
    if !raw.0.as_str().is_empty() {
        sql.append(" ");
        sql.append(raw.0.as_str());
    }
    let mut ub = sql_union.1;
    binds.append(&mut ub);
    let mut rb = raw.1;
    binds.append(&mut rb);
    proof {
        assert(sql@ =~= old(sql)@ + (limoff_sql(client, limit, offset) + (if sql_union.0@.len()
            > 0 {
            " "@ + sql_union.0@
        } else {
            Seq::<char>::empty()
        }) + (if raw.0@.len() > 0 {
            " "@ + raw.0@
        } else {
            Seq::<char>::empty()
        })));
        assert(vals_deep(binds@) =~= vals_deep(old(binds)@) + (limoff_binds(
            client,
            limit,
            offset,
        ) + vals_deep(sql_union.1@) + vals_deep(raw.1@)));
    }
}

/// Assembles the compiled parts into the final SQL text and bind list, in
/// the fixed clause order.
#[verifier::rlimit(100)]
pub fn merge_to_sql(t: ToSql, client: Client) -> (r: (String, Vec<Value>))
    ensures
        r.0@ == assemble_sql(client, tosql_parts(t)),
        vals_deep(r.1@) == assemble_binds(client, tosql_parts(t)),
{
    broadcast use lemma_vals_deep, lemma_vals_deep_concat;

    let ghost p = tosql_parts(t);
    let mut sql = String::new();
    let mut binds: Vec<Value> = Vec::new();
    let ToSql {
        statement,
        method,
        join,
        raw,
        sql_with,
        sql_union,
        limit,
        offset,
        group_by,
        group_by_raw,
        having,
        order_by,
        order_by_raw,
    } = t;

    merge_head(&mut sql, &mut binds, sql_with, method, join);
    proof {
        assert(sql@ =~= asm_head_sql(p));
    }
    let ghost sql1 = sql@;
    let ghost binds1 = vals_deep(binds@);
    merge_mid1(&mut sql, &mut binds, statement, group_by, group_by_raw);
    merge_mid2(&mut sql, &mut binds, having, order_by, order_by_raw);
    proof {
        assert(sql@ =~= sql1 + asm_mid_sql(p));
        assert(vals_deep(binds@) =~= binds1 + (p.statement.binds + p.group_by_raw.binds
            + p.having.binds + p.order_by_raw.binds));
    }
    let ghost sql2 = sql@;
    let ghost binds2 = vals_deep(binds@);
    merge_tail(&mut sql, &mut binds, limit, offset, sql_union, raw, client);
    proof {
        assert(sql@ =~= sql2 + asm_tail_sql(client, p));
        assert(sql@ =~= assemble_sql(client, p));
        assert(vals_deep(binds@) =~= assemble_binds(client, p));
    }
    (sql, binds)
}

/// Compiles a statement for a dialect: parts, then assembly.
pub fn full_compile(b: &ChainBuilder, client: Client) -> (r: Result<
    (String, Vec<Value>),
    CompileError,
>)
    ensures
        builder_err(*b, client) matches Some(e) ==> r == Err::<(String, Vec<Value>), CompileError>(
            e,
        ),
        builder_err(*b, client) is None ==> ({
            &&& r matches Ok(p)
            &&& p.0@ == builder_frag(*b, client).sql
            &&& vals_deep(p.1@) == builder_frag(*b, client).binds
        }),
    decreases *b, 3int,
{
    match to_sql_parts(b, client) {
        Ok(t) => Ok(merge_to_sql(t, client)),
        Err(e) => Err(e),
    }
}

} // verus!
