use vstd::prelude::*;

use crate::builder::ChainBuilder;
use crate::compile::{
    asm_head_sql, asm_mid_sql, asm_tail_sql, assemble_binds, assemble_sql, builder_err,
    builder_frag, builder_parts, common_err, commons_acc, compile_binds, compile_err, compile_sql,
    cond_conn, cond_node_err, cond_node_frag, conds_err, conds_frag, first_row_cols, has_incdec,
    join_conn, join_node_frag, join_one_frag, join_stmts_frag, join_sub_frag, join_table_sql,
    joins_frag, limoff_binds, limoff_sql, lookup_binds, method_err, method_frag, obj_lookup,
    or_else, payload_cols, raws_frag, row_err, rows_binds, rows_err,
    rows_marks, select_entry_err, select_entry_frag, selects_err, selects_frag, table_frag,
    upd_frag, CommonAcc, Frag, Parts,
};
use crate::join::{JoinBuilder, JoinStatement};
use crate::keys::{lemma_lex_sort_ensures, obj_keys_of};
use crate::strutil::{dec_digit, dec_nat, q_marks_cs, sep_join, strs_deep};
use crate::types::{Client, Common, Select};
use crate::value::{obj_deep, DVal};
use crate::operator::{op_is_bind, op_token, Operator};
use crate::strutil::q_marks;
use crate::types::{CompileError, Statement};
use crate::value::{lemma_vals_deep, lemma_obj_deep, opt_vals_deep, vals_deep, Value};

verus! {

/// The number of `?` placeholders in a piece of SQL text.
pub open spec fn count_q(s: Seq<char>) -> nat
    decreases s.len(),
{
    if s.len() == 0 {
        0
    } else {
        count_q(s.drop_last()) + (if s.last() == '?' {
            1nat
        } else {
            0nat
        })
    }
}

/// Placeholder counts add over concatenation.
pub broadcast proof fn lemma_count_q_concat(a: Seq<char>, b: Seq<char>)
    ensures
        #[trigger] count_q(a + b) == count_q(a) + count_q(b),
    decreases b.len(),
{
    if b.len() == 0 {
        assert(a + b =~= a);
    } else {
        assert((a + b).drop_last() =~= a + b.drop_last());
        assert((a + b).last() == b.last());
        lemma_count_q_concat(a, b.drop_last());
    }
}

/// Text without a question mark.
pub open spec fn clean(s: Seq<char>) -> bool {
    !s.contains('?')
}

/// Clean text holds no placeholder.
pub broadcast proof fn lemma_count_q_clean(s: Seq<char>)
    requires
        clean(s),
    ensures
        #[trigger] count_q(s) == 0,
    decreases s.len(),
{
    if s.len() > 0 {
        assert(!s.drop_last().contains('?')) by {
            assert(forall|i: int|
                0 <= i < s.drop_last().len() ==> s.drop_last()[i] == #[trigger] s[i]);
        }
        assert(s.last() != '?') by {
            assert(s[s.len() - 1] == s.last());
        }
        lemma_count_q_clean(s.drop_last());
    }
}

/// A single-character sequence counts itself.
proof fn lemma_count_q_one(c: char)
    ensures
        count_q(seq![c]) == (if c == '?' {
            1nat
        } else {
            0nat
        }),
{
    assert(seq![c].len() == 1);
    assert(seq![c].last() == c);
    assert(count_q(Seq::<char>::empty()) == 0);
    assert(seq![c].drop_last() =~= Seq::<char>::empty());
}

/// A placeholder list holds one placeholder per element.
pub proof fn lemma_count_q_marks(n: nat)
    ensures
        count_q(q_marks(n)) == n,
    decreases n,
{
    broadcast use lemma_count_q_concat;

    reveal_strlit("?");
    reveal_strlit(",?");
    if n == 0 {
    } else if n == 1 {
        assert("?"@ =~= seq!['?']);
        lemma_count_q_one('?');
    } else {
        lemma_count_q_marks((n - 1) as nat);
        assert(",?"@ =~= seq![','] + seq!['?']);
        lemma_count_q_one(',');
        lemma_count_q_one('?');
    }
}

/// The fixed pieces of condition text are placeholder-free, except for the
/// counted placeholder forms.
proof fn lemma_cond_literals()
    ensures
        clean(" AND "@),
        clean(" OR "@),
        clean(" "@),
        clean("("@),
        clean(")"@),
        clean(" ("@),
        count_q(" ?"@) == 1,
        count_q(" ? AND ?"@) == 2,
{
    broadcast use lemma_count_q_concat;

    reveal_strlit(" AND ");
    reveal_strlit(" OR ");
    reveal_strlit(" ");
    reveal_strlit("(");
    reveal_strlit(")");
    reveal_strlit(" (");
    reveal_strlit(" ?");
    reveal_strlit(" ? AND ?");
    assert(" ?"@ =~= seq![' '] + seq!['?']);
    lemma_count_q_one(' ');
    lemma_count_q_one('?');
    assert(count_q(seq![' ']) == 0);
    assert(count_q(seq!['?']) == 1);
    assert(" ? AND ?"@ =~= (seq![' '] + seq!['?']) + (seq![' ', 'A', 'N', 'D', ' '] + seq!['?']));
    assert(clean(seq![' ', 'A', 'N', 'D', ' ']));
    lemma_count_q_clean(seq![' ', 'A', 'N', 'D', ' ']);
}

/// Every operator token is placeholder-free.
proof fn lemma_op_token_clean(op: Operator)
    ensures
        clean(op_token(op)),
{
    reveal_strlit("=");
    reveal_strlit("!=");
    reveal_strlit("IN");
    reveal_strlit("NOT IN");
    reveal_strlit("IS NULL");
    reveal_strlit("IS NOT NULL");
    reveal_strlit("EXISTS");
    reveal_strlit("NOT EXISTS");
    reveal_strlit("BETWEEN");
    reveal_strlit("NOT BETWEEN");
    reveal_strlit("LIKE");
    reveal_strlit("NOT LIKE");
    reveal_strlit(">");
    reveal_strlit(">=");
    reveal_strlit("<");
    reveal_strlit("<=");
    reveal_strlit("<>");
}

/// A condition node whose identifiers hold no placeholder and whose raw
/// fragments carry as many bind values as placeholders.
pub open spec fn stmt_disciplined(st: Statement) -> bool
    decreases st,
{
    match st {
        Statement::Value(c, _op, _v) => clean(c@),
        Statement::Raw(s, b) => count_q(s@) == opt_vals_deep(b).len(),
        Statement::SubChain(q) => stmts_disciplined(q.statement@),
        Statement::OrChain(q) => stmts_disciplined(q.statement@),
    }
}

/// A condition sequence of disciplined nodes.
pub open spec fn stmts_disciplined(ss: Seq<Statement>) -> bool
    decreases ss, 1int,
{
    if ss.len() == 0 {
        true
    } else {
        stmts_disciplined(ss.drop_last()) && stmt_disciplined(ss.last())
    }
}

/// Bind/placeholder parity for one condition node: an acceptable,
/// disciplined node's text holds exactly one placeholder per bind value.
proof fn lemma_parity_cond_node(st: Statement)
    requires
        stmt_disciplined(st),
        cond_node_err(st) is None,
    ensures
        count_q(cond_node_frag(st).sql) == cond_node_frag(st).binds.len(),
    decreases st, 0int,
{
    broadcast use lemma_count_q_concat, lemma_count_q_clean, lemma_vals_deep;

    lemma_cond_literals();
    match st {
        Statement::Value(c, op, v) => {
            lemma_op_token_clean(op);
            if op == Operator::Between || op == Operator::NotBetween {
            } else if op_is_bind(op) {
                match v {
                    Value::Array(a) => {
                        lemma_count_q_marks(a@.len());
                    },
                    _ => {},
                }
            }
        },
        Statement::Raw(_s, _b) => {},
        Statement::SubChain(q) => {
            lemma_parity_conds(q.statement@);
        },
        Statement::OrChain(q) => {
            lemma_parity_conds(q.statement@);
        },
    }
}

/// Bind/placeholder parity for a condition sequence: for every disciplined,
/// acceptable condition tree, the compiled text holds exactly one `?` per
/// bind value, and the i-th placeholder is fed by the i-th bind value under
/// left-to-right reading order.
pub proof fn lemma_parity_conds(ss: Seq<Statement>)
    requires
        stmts_disciplined(ss),
        conds_err(ss) is None,
    ensures
        count_q(conds_frag(ss).sql) == conds_frag(ss).binds.len(),
    decreases ss, 1int,
{
    broadcast use lemma_count_q_concat, lemma_count_q_clean;

    lemma_cond_literals();
    if ss.len() > 0 {
        lemma_parity_conds(ss.drop_last());
        lemma_parity_cond_node(ss.last());
        assert(clean(cond_conn(ss, ss.len() - 1)));
    }
}

/// Clean pieces concatenate to clean text.
pub broadcast proof fn lemma_clean_concat(a: Seq<char>, b: Seq<char>)
    requires
        clean(a),
        clean(b),
    ensures
        #[trigger] clean(a + b),
{
    assert forall|i: int| 0 <= i < (a + b).len() implies (a + b)[i] != '?' by {
        if i < a.len() {
            assert(a[i] != '?');
        } else {
            assert(b[i - a.len()] != '?');
        }
    }
    assert(!(a + b).contains('?'));
}

/// A join of clean items with a clean separator is clean.
proof fn lemma_sep_join_clean(items: Seq<Seq<char>>, sep: Seq<char>)
    requires
        forall|i: int| 0 <= i < items.len() ==> clean(#[trigger] items[i]),
        clean(sep),
    ensures
        clean(sep_join(items, sep)),
    decreases items.len(),
{
    broadcast use lemma_clean_concat;

    if items.len() == 0 {
        assert(!sep_join(items, sep).contains('?'));
    } else if items.len() == 1 {
    } else {
        assert(forall|i: int|
            0 <= i < items.drop_last().len() ==> clean(#[trigger] items.drop_last()[i]));
        lemma_sep_join_clean(items.drop_last(), sep);
    }
}

/// A placeholder list with spaced commas holds one placeholder per element.
proof fn lemma_count_q_marks_cs(n: nat)
    ensures
        count_q(q_marks_cs(n)) == n,
    decreases n,
{
    broadcast use lemma_count_q_concat;

    reveal_strlit("?");
    reveal_strlit(", ?");
    if n == 0 {
    } else if n == 1 {
        assert("?"@ =~= seq!['?']);
        lemma_count_q_one('?');
    } else {
        lemma_count_q_marks_cs((n - 1) as nat);
        assert(", ?"@ =~= seq![','] + seq![' '] + seq!['?']);
        lemma_count_q_one(',');
        lemma_count_q_one(' ');
        lemma_count_q_one('?');
    }
}

/// A decimal rendering holds no placeholder.
proof fn lemma_dec_nat_clean(n: nat)
    ensures
        clean(dec_nat(n)),
    decreases n,
{
    broadcast use lemma_clean_concat;

    if n < 10 {
        assert(dec_digit(n) != '?');
        assert(!dec_nat(n).contains('?')) by {
            assert(dec_nat(n).len() == 1 && dec_nat(n)[0] == dec_digit(n));
        }
    } else {
        lemma_dec_nat_clean(n / 10);
        assert(dec_nat(n) =~= dec_nat(n / 10) + seq![dec_digit(n % 10)]);
        assert(clean(seq![dec_digit(n % 10)])) by {
            assert(dec_digit(n % 10) != '?');
            assert(!seq![dec_digit(n % 10)].contains('?'));
        }
    }
}

/// An optional name without a placeholder.
pub open spec fn opt_clean(o: Option<String>) -> bool {
    match o {
        Option::Some(s) => clean(s@),
        Option::None => true,
    }
}

/// A disciplined join condition: clean identifiers and balanced raw pieces.
pub open spec fn join_node_disc(st: JoinStatement) -> bool
    decreases st,
{
    match st {
        JoinStatement::On(a, op, b) => clean(a@) && clean(op@) && clean(b@),
        JoinStatement::OnVal(c, op, _v) => clean(c@) && clean(op@),
        JoinStatement::OnRaw(s, b) => count_q(s@) == opt_vals_deep(b).len(),
        JoinStatement::OrChain(j) => join_sub_disc(*j),
    }
}

/// A disciplined nested join group.
pub open spec fn join_sub_disc(j: JoinBuilder) -> bool
    decreases j,
{
    match j.raw {
        Option::Some(p) => count_q(p.0@) == opt_vals_deep(p.1).len(),
        Option::None => join_stmts_disc(j.statement@),
    }
}

/// A disciplined join condition sequence.
pub open spec fn join_stmts_disc(js: Seq<JoinStatement>) -> bool
    decreases js, 1int,
{
    if js.len() == 0 {
        true
    } else {
        join_stmts_disc(js.drop_last()) && join_node_disc(js.last())
    }
}

/// A disciplined join: a balanced raw override, or clean names with
/// disciplined conditions.
pub open spec fn join_one_disc(j: JoinBuilder) -> bool
    decreases j, 1int,
{
    match j.raw {
        Option::Some(p) => count_q(p.0@) == opt_vals_deep(p.1).len(),
        Option::None => {
            &&& clean(j.join_type@)
            &&& clean(j.table@)
            &&& opt_clean(j.as_name)
            &&& join_stmts_disc(j.statement@)
        },
    }
}

/// A disciplined join sequence.
pub open spec fn joins_disc(joins: Seq<JoinBuilder>) -> bool
    decreases joins, 2int,
{
    if joins.len() == 0 {
        true
    } else {
        joins_disc(joins.drop_last()) && join_one_disc(joins.last())
    }
}

proof fn lemma_parity_join_node(st: JoinStatement)
    requires
        join_node_disc(st),
    ensures
        count_q(join_node_frag(st).sql) == join_node_frag(st).binds.len(),
    decreases st, 0int,
{
    broadcast use lemma_count_q_concat, lemma_count_q_clean, lemma_vals_deep;

    lemma_cond_literals();
    match st {
        JoinStatement::OrChain(j) => {
            lemma_parity_join_sub(*j);
        },
        _ => {},
    }
}

proof fn lemma_parity_join_sub(j: JoinBuilder)
    requires
        join_sub_disc(j),
    ensures
        count_q(join_sub_frag(j).sql) == join_sub_frag(j).binds.len(),
    decreases j, 0int,
{
    match j.raw {
        Option::Some(_p) => {},
        Option::None => {
            lemma_parity_join_stmts(j.statement@);
        },
    }
}

proof fn lemma_parity_join_stmts(js: Seq<JoinStatement>)
    requires
        join_stmts_disc(js),
    ensures
        count_q(join_stmts_frag(js).sql) == join_stmts_frag(js).binds.len(),
    decreases js, 1int,
{
    broadcast use lemma_count_q_concat, lemma_count_q_clean;

    lemma_cond_literals();
    if js.len() > 0 {
        lemma_parity_join_stmts(js.drop_last());
        lemma_parity_join_node(js.last());
        assert(clean(join_conn(js, js.len() - 1)));
    }
}

proof fn lemma_parity_join_one(j: JoinBuilder, db: Option<String>)
    requires
        join_one_disc(j),
        opt_clean(db),
    ensures
        count_q(join_one_frag(j, db).sql) == join_one_frag(j, db).binds.len(),
    decreases j, 1int,
{
    broadcast use lemma_count_q_concat, lemma_count_q_clean, lemma_clean_concat;

    lemma_cond_literals();
    lemma_join_literals();
    match j.raw {
        Option::Some(_p) => {},
        Option::None => {
            lemma_parity_join_stmts(j.statement@);
            assert(clean(join_table_sql(db, j.table@)));
        },
    }
}

/// Bind/placeholder parity for the join sequence.
pub proof fn lemma_parity_joins(joins: Seq<JoinBuilder>, db: Option<String>)
    requires
        joins_disc(joins),
        opt_clean(db),
    ensures
        count_q(joins_frag(joins, db).sql) == joins_frag(joins, db).binds.len(),
    decreases joins, 2int,
{
    broadcast use lemma_count_q_concat, lemma_count_q_clean;

    lemma_cond_literals();
    if joins.len() == 1 {
        lemma_parity_join_one(joins[0], db);
    } else if joins.len() > 1 {
        lemma_parity_joins(joins.drop_last(), db);
        lemma_parity_join_one(joins.last(), db);
    }
}

/// The fixed join and method pieces are placeholder-free.
proof fn lemma_join_literals()
    ensures
        clean(" AS "@),
        clean(" ON "@),
        clean("."@),
        clean(", "@),
        clean("SELECT "@),
        clean("SELECT DISTINCT "@),
        clean("*"@),
        clean(" FROM "@),
        clean(") AS "@),
        clean("INSERT INTO "@),
        clean(") VALUES ("@),
        clean(") VALUES "@),
        clean(", ("@),
        clean("UPDATE "@),
        clean(" SET "@),
        clean(" = "@),
        count_q(" = ?"@) == 1,
        clean("DELETE FROM "@),
{
    broadcast use lemma_count_q_concat;

    reveal_strlit(" AS ");
    reveal_strlit(" ON ");
    reveal_strlit(".");
    reveal_strlit(", ");
    reveal_strlit("SELECT ");
    reveal_strlit("SELECT DISTINCT ");
    reveal_strlit("*");
    reveal_strlit(" FROM ");
    reveal_strlit(") AS ");
    reveal_strlit("INSERT INTO ");
    reveal_strlit(") VALUES (");
    reveal_strlit(") VALUES ");
    reveal_strlit(", (");
    reveal_strlit("UPDATE ");
    reveal_strlit(" SET ");
    reveal_strlit(" = ");
    reveal_strlit(" = ?");
    reveal_strlit("DELETE FROM ");
    assert(" = ?"@ =~= seq![' ', '=', ' '] + seq!['?']);
    lemma_count_q_one('?');
    assert(clean(seq![' ', '=', ' ']));
    lemma_count_q_clean(seq![' ', '=', ' ']);
}

/// A disciplined payload object: clean keys, and any value that would be
/// spliced as a raw increment/decrement expression is clean too.
pub open spec fn obj_disc(f: Seq<(Seq<char>, DVal)>) -> bool {
    forall|i: int|
        0 <= i < f.len() ==> clean((#[trigger] f[i]).0) && (f[i].1 matches DVal::Str(sv)
            && has_incdec(sv) ==> clean(f[i].1->Str_0))
}

/// A disciplined payload value for any write method.
pub open spec fn payload_disc(v: Value) -> bool {
    match v {
        Value::Object(fields) => obj_disc(obj_deep(fields@)),
        Value::Array(rows) => forall|r: int|
            0 <= r < rows@.len() ==> ((#[trigger] rows@[r]) matches Value::Object(f) ==> obj_disc(
                obj_deep(rows@[r]->Object_0@),
            )),
        _ => true,
    }
}

/// A disciplined select entry.
pub open spec fn select_entry_disc(e: Select) -> bool
    decreases e, 0int,
{
    match e {
        Select::Columns(cols) => forall|i: int|
            0 <= i < cols@.len() ==> clean((#[trigger] cols@[i])@),
        Select::Raw(sql, b) => count_q(sql@) == opt_vals_deep(b).len(),
        Select::Builder(alias, cb) => clean(alias@) && builder_disc(cb),
    }
}

/// A disciplined select list.
pub open spec fn selects_disc(sel: Seq<Select>) -> bool
    decreases sel, 1int,
{
    if sel.len() == 0 {
        true
    } else {
        selects_disc(sel.drop_last()) && select_entry_disc(sel.last())
    }
}

/// A disciplined common clause.
pub open spec fn common_disc(c: Common) -> bool
    decreases c, 5int,
{
    match c {
        Common::With(alias, _rec, cb) => clean(alias@) && builder_disc(cb),
        Common::Union(_all, cb) => builder_disc(cb),
        Common::Limit(_l) => true,
        Common::Offset(_o) => true,
        Common::GroupBy(cols) => forall|i: int|
            0 <= i < cols@.len() ==> clean((#[trigger] cols@[i])@),
        Common::GroupByRaw(sql, b) => count_q(sql@) == opt_vals_deep(b).len(),
        Common::Having(sql, b) => count_q(sql@) == opt_vals_deep(b).len(),
        Common::OrderBy(col, dir) => clean(col@) && clean(dir@),
        Common::OrderByRaw(sql, b) => count_q(sql@) == opt_vals_deep(b).len(),
    }
}

/// A disciplined common-clause sequence.
pub open spec fn commons_disc(cs: Seq<Common>) -> bool
    decreases cs, 6int,
{
    if cs.len() == 0 {
        true
    } else {
        commons_disc(cs.drop_last()) && common_disc(cs.last())
    }
}

/// Disciplined trailing raw fragments: each balanced.
pub open spec fn raws_disc(rs: Seq<(String, Option<Vec<Value>>)>) -> bool {
    forall|i: int| 0 <= i < rs.len() ==> count_q((#[trigger] rs[i]).0@) == opt_vals_deep(
        rs[i].1,
    ).len()
}

/// A disciplined table reference: a balanced raw expression, or clean names.
pub open spec fn table_disc(b: ChainBuilder) -> bool {
    match b.table_raw {
        Option::Some(p) => count_q(p.0@) == opt_vals_deep(p.1).len(),
        Option::None => opt_clean(b.table) && opt_clean(b.db),
    }
}

/// A disciplined statement: every identifier it renders is placeholder-free
/// and every raw fragment carries exactly one bind value per placeholder.
pub open spec fn builder_disc(b: ChainBuilder) -> bool
    decreases b, 4int,
{
    &&& stmts_disciplined(b.query.statement@)
    &&& joins_disc(b.query.join@)
    &&& opt_clean(b.db)
    &&& table_disc(b)
    &&& opt_clean(b.as_name)
    &&& selects_disc(b.select@)
    &&& payload_disc(b.insert_update)
    &&& commons_disc(b.query.query_common@)
    &&& raws_disc(b.query.raw@)
}

proof fn lemma_parity_table(b: ChainBuilder)
    requires
        table_disc(b),
    ensures
        count_q(table_frag(b).sql) == table_frag(b).binds.len(),
{
    broadcast use lemma_count_q_concat, lemma_count_q_clean, lemma_clean_concat;

    lemma_join_literals();
    match b.table_raw {
        Option::Some(_p) => {},
        Option::None => {
            assert(count_q(Seq::<char>::empty()) == 0);
        },
    }
}

proof fn lemma_lookup_binds_len(f: Seq<(Seq<char>, DVal)>, keys: Seq<Seq<char>>)
    ensures
        lookup_binds(f, keys).len() == keys.len(),
    decreases keys.len(),
{
    if keys.len() > 0 {
        lemma_lookup_binds_len(f, keys.drop_last());
    }
}

/// The sorted columns of a clean-keyed object are clean.
proof fn lemma_payload_cols_clean(f: Seq<(Seq<char>, DVal)>)
    requires
        obj_disc(f),
    ensures
        forall|i: int| 0 <= i < payload_cols(f).len() ==> clean(#[trigger] payload_cols(f)[i]),
        payload_cols(f).len() == f.len(),
{
    broadcast use vstd::seq_lib::group_to_multiset_ensures;

    let keys = obj_keys_of(f);
    lemma_lex_sort_ensures(keys);
    let cols = payload_cols(f);
    assert forall|i: int| 0 <= i < cols.len() implies clean(#[trigger] cols[i]) by {
        assert(cols.contains(cols[i]));
        assert(cols.to_multiset().count(cols[i]) > 0);
        assert(keys.to_multiset().count(cols[i]) > 0);
        assert(keys.contains(cols[i]));
        let j = choose|j: int| 0 <= j < keys.len() && keys[j] == cols[i];
        assert(clean(f[j].0));
    }
}

/// A looked-up value is one of the object's values, or `Null`.
proof fn lemma_obj_lookup_in(f: Seq<(Seq<char>, DVal)>, k: Seq<char>)
    ensures
        obj_lookup(f, k) == DVal::Null || exists|i: int|
            0 <= i < f.len() && (#[trigger] f[i]).1 == obj_lookup(f, k),
    decreases f.len(),
{
    if f.len() > 0 && f.first().0 != k {
        lemma_obj_lookup_in(f.drop_first(), k);
        if obj_lookup(f, k) != DVal::Null {
            let i = choose|i: int|
                0 <= i < f.drop_first().len() && (#[trigger] f.drop_first()[i]).1 == obj_lookup(
                    f.drop_first(),
                    k,
                );
            assert(f[i + 1].1 == obj_lookup(f, k));
        }
    }
}

/// Parity for the UPDATE `SET` list.
proof fn lemma_parity_upd(f: Seq<(Seq<char>, DVal)>, keys: Seq<Seq<char>>)
    requires
        obj_disc(f),
        forall|i: int| 0 <= i < keys.len() ==> clean(#[trigger] keys[i]),
    ensures
        count_q(upd_frag(f, keys).sql) == upd_frag(f, keys).binds.len(),
    decreases keys.len(),
{
    broadcast use lemma_count_q_concat, lemma_count_q_clean;

    lemma_join_literals();
    if keys.len() > 0 {
        lemma_parity_upd(f, keys.drop_last());
        let k = keys.last();
        let v = obj_lookup(f, k);
        if v matches DVal::Str(sv) && has_incdec(sv) {
            lemma_obj_lookup_in(f, k);
            assert(clean(v->Str_0));
        }
    }
}

/// Parity for the multi-row tuples: one placeholder per looked-up value.
proof fn lemma_parity_rows(rows: Seq<Value>, cols: Seq<Seq<char>>)
    requires
        rows_err(rows, cols) is None,
    ensures
        count_q(rows_marks(rows.len(), cols.len())) == rows_binds(rows, cols).len(),
    decreases rows.len(),
{
    broadcast use lemma_count_q_concat, lemma_count_q_clean;

    lemma_cond_literals();
    lemma_join_literals();
    if rows.len() > 0 {
        lemma_parity_rows(rows.drop_last(), cols);
        lemma_count_q_marks_cs(cols.len());
        assert(row_err(rows.last(), cols) is None);
        match rows.last() {
            Value::Object(f) => {
                lemma_lookup_binds_len(obj_deep(f@), cols);
                assert(payload_cols(obj_deep(f@)) == cols);
                broadcast use vstd::seq_lib::group_to_multiset_ensures;

                lemma_lex_sort_ensures(obj_keys_of(obj_deep(f@)));
            },
            _ => {},
        }
    }
}

proof fn lemma_parity_select_entry(e: Select, client: Client)
    requires
        select_entry_disc(e),
        select_entry_err(e, client) is None,
    ensures
        count_q(select_entry_frag(e, client).sql) == select_entry_frag(e, client).binds.len(),
    decreases e, 0int,
{
    broadcast use lemma_count_q_concat, lemma_count_q_clean;

    lemma_cond_literals();
    lemma_join_literals();
    match e {
        Select::Columns(cols) => {
            lemma_strs_deep_clean(cols@);
            lemma_sep_join_clean(strs_deep(cols@), ", "@);
        },
        Select::Raw(_s, _b) => {},
        Select::Builder(_alias, cb) => {
            lemma_parity_builder(cb, client);
        },
    }
}

/// The views of clean strings are clean, pointwise.
proof fn lemma_strs_deep_clean(cols: Seq<String>)
    requires
        forall|i: int| 0 <= i < cols.len() ==> clean((#[trigger] cols[i])@),
    ensures
        forall|i: int| 0 <= i < strs_deep(cols).len() ==> clean(#[trigger] strs_deep(cols)[i]),
{
    crate::strutil::lemma_strs_deep(cols);
}

proof fn lemma_parity_selects(sel: Seq<Select>, client: Client)
    requires
        selects_disc(sel),
        selects_err(sel, client) is None,
    ensures
        count_q(selects_frag(sel, client).sql) == selects_frag(sel, client).binds.len(),
    decreases sel, 1int,
{
    broadcast use lemma_count_q_concat, lemma_count_q_clean;

    lemma_join_literals();
    if sel.len() > 0 {
        lemma_parity_selects(sel.drop_last(), client);
        lemma_parity_select_entry(sel.last(), client);
    }
}

proof fn lemma_parity_method(b: ChainBuilder, client: Client)
    requires
        builder_disc(b),
        method_err(b, client) is None,
    ensures
        count_q(method_frag(b, client).sql) == method_frag(b, client).binds.len(),
    decreases b, 2int,
{
    broadcast use lemma_count_q_concat, lemma_count_q_clean;

    lemma_cond_literals();
    lemma_join_literals();
    lemma_parity_table(b);
    match b.method {
        crate::types::Method::Select => {
            lemma_parity_selects(b.select@, client);
        },
        crate::types::Method::Insert => {
            match b.insert_update {
                Value::Object(fields) => {
                    let df = obj_deep(fields@);
                    lemma_payload_cols_clean(df);
                    lemma_sep_join_clean(payload_cols(df), ", "@);
                    lemma_count_q_marks_cs(payload_cols(df).len());
                    lemma_lookup_binds_len(df, payload_cols(df));
                },
                _ => {},
            }
        },
        crate::types::Method::InsertMany => {
            match b.insert_update {
                Value::Array(rows) => {
                    let cols = first_row_cols(rows@);
                    match rows@[0] {
                        Value::Object(f0) => {
                            lemma_payload_cols_clean(obj_deep(f0@));
                        },
                        _ => {},
                    }
                    lemma_sep_join_clean(cols, ", "@);
                    lemma_parity_rows(rows@, cols);
                },
                _ => {},
            }
        },
        crate::types::Method::Update => {
            match b.insert_update {
                Value::Object(fields) => {
                    let df = obj_deep(fields@);
                    lemma_payload_cols_clean(df);
                    lemma_parity_upd(df, payload_cols(df));
                },
                _ => {},
            }
        },
        crate::types::Method::Delete => {},
    }
}

/// The fixed clause pieces are placeholder-free, except the bound LIMIT and
/// OFFSET tokens.
proof fn lemma_clause_literals()
    ensures
        clean("WITH "@),
        clean("RECURSIVE "@),
        clean(" AS ("@),
        clean("UNION "@),
        clean("UNION ALL "@),
        clean(" WHERE "@),
        clean(" GROUP BY "@),
        clean(" HAVING "@),
        clean(" ORDER BY "@),
        count_q(" LIMIT ?"@) == 1,
        count_q(" OFFSET ?"@) == 1,
        clean(" LIMIT "@),
        clean(", -1"@),
{
    broadcast use lemma_count_q_concat;

    reveal_strlit("WITH ");
    reveal_strlit("RECURSIVE ");
    reveal_strlit(" AS (");
    reveal_strlit("UNION ");
    reveal_strlit("UNION ALL ");
    reveal_strlit(" WHERE ");
    reveal_strlit(" GROUP BY ");
    reveal_strlit(" HAVING ");
    reveal_strlit(" ORDER BY ");
    reveal_strlit(" LIMIT ?");
    reveal_strlit(" OFFSET ?");
    reveal_strlit(" LIMIT ");
    reveal_strlit(", -1");
    assert(" LIMIT ?"@ =~= seq![' ', 'L', 'I', 'M', 'I', 'T', ' '] + seq!['?']);
    assert(" OFFSET ?"@ =~= seq![' ', 'O', 'F', 'F', 'S', 'E', 'T', ' '] + seq!['?']);
    lemma_count_q_one('?');
    assert(clean(seq![' ', 'L', 'I', 'M', 'I', 'T', ' ']));
    lemma_count_q_clean(seq![' ', 'L', 'I', 'M', 'I', 'T', ' ']);
    assert(clean(seq![' ', 'O', 'F', 'F', 'S', 'E', 'T', ' ']));
    lemma_count_q_clean(seq![' ', 'O', 'F', 'F', 'S', 'E', 'T', ' ']);
}

/// Parity for every accumulated common-clause fragment.
proof fn lemma_parity_commons(cs: Seq<Common>, client: Client)
    requires
        commons_disc(cs),
        commons_acc(cs, client).err is None,
    ensures
        ({
            let acc = commons_acc(cs, client);
            &&& count_q(acc.sql_with.sql) == acc.sql_with.binds.len()
            &&& count_q(acc.sql_union.sql) == acc.sql_union.binds.len()
            &&& count_q(acc.group_by_raw.sql) == acc.group_by_raw.binds.len()
            &&& count_q(acc.having.sql) == acc.having.binds.len()
            &&& count_q(acc.order_by_raw.sql) == acc.order_by_raw.binds.len()
            &&& forall|i: int| 0 <= i < acc.group_by.len() ==> clean(#[trigger] acc.group_by[i])
            &&& forall|i: int| 0 <= i < acc.order_by.len() ==> clean(#[trigger] acc.order_by[i])
        }),
    decreases cs, 7int,
{
    broadcast use lemma_count_q_concat, lemma_count_q_clean, lemma_clean_concat;

    lemma_cond_literals();
    lemma_join_literals();
    lemma_clause_literals();
    assert(count_q(Seq::<char>::empty()) == 0);
    if cs.len() > 0 {
        assert(commons_acc(cs, client).err == or_else(
            commons_acc(cs.drop_last(), client).err,
            common_err(cs.last(), client),
        ));
        lemma_parity_commons(cs.drop_last(), client);
        let acc = commons_acc(cs.drop_last(), client);
        assert(common_disc(cs.last()));
        match cs.last() {
            Common::With(alias, _rec, cb) => {
                assert(builder_disc(cb));
                lemma_parity_builder(cb, client);
            },
            Common::Union(_all, cb) => {
                assert(builder_disc(cb));
                lemma_parity_builder(cb, client);
            },
            Common::GroupBy(cols) => {
                assert(forall|i: int| 0 <= i < cols@.len() ==> clean((#[trigger] cols@[i])@));
                lemma_strs_deep_clean(cols@);
            },
            Common::OrderBy(col, dir) => {},
            _ => {},
        }
    }
}

/// Parity for the trailing raw fragments.
proof fn lemma_parity_raws(rs: Seq<(String, Option<Vec<Value>>)>)
    requires
        raws_disc(rs),
    ensures
        count_q(raws_frag(rs).sql) == raws_frag(rs).binds.len(),
    decreases rs.len(),
{
    broadcast use lemma_count_q_concat, lemma_count_q_clean, lemma_vals_deep;

    lemma_cond_literals();
    if rs.len() > 0 {
        lemma_parity_raws(rs.drop_last());
    }
}

/// Bind/placeholder parity for a whole compiled statement.
#[verifier::rlimit(100)]
proof fn lemma_parity_builder(b: ChainBuilder, client: Client)
    requires
        builder_disc(b),
        builder_err(b, client) is None,
    ensures
        count_q(builder_frag(b, client).sql) == builder_frag(b, client).binds.len(),
    decreases b, 4int,
{
    broadcast use lemma_count_q_concat, lemma_count_q_clean;

    lemma_cond_literals();
    lemma_join_literals();
    lemma_clause_literals();
    assert(count_q(Seq::<char>::empty()) == 0);
    let p = builder_parts(b, client);
    lemma_parity_conds(b.query.statement@);
    lemma_parity_method(b, client);
    lemma_parity_joins(b.query.join@, b.db);
    lemma_parity_commons(b.query.query_common@, client);
    lemma_parity_raws(b.query.raw@);
    lemma_sep_join_clean(p.group_by, ", "@);
    lemma_sep_join_clean(p.order_by, ", "@);
    if client == Client::Sqlite {
        match (p.limit, p.offset) {
            (Option::Some(l), Option::Some(o)) => {
                lemma_dec_nat_clean(l as nat);
                lemma_dec_nat_clean(o as nat);
            },
            (Option::Some(l), Option::None) => {
                lemma_dec_nat_clean(l as nat);
            },
            (Option::None, Option::Some(o)) => {
                lemma_dec_nat_clean(o as nat);
            },
            (Option::None, Option::None) => {},
        }
    }
    assert(count_q(limoff_sql(client, p.limit, p.offset)) == limoff_binds(
        client,
        p.limit,
        p.offset,
    ).len());
    assert(count_q(asm_head_sql(p)) == p.sql_with.binds.len() + p.method.binds.len()
        + p.join.binds.len());
    assert(count_q(asm_mid_sql(p)) == p.statement.binds.len() + p.group_by_raw.binds.len()
        + p.having.binds.len() + p.order_by_raw.binds.len());
    assert(count_q(asm_tail_sql(client, p)) == limoff_binds(client, p.limit, p.offset).len()
        + p.sql_union.binds.len() + p.raw.binds.len());
}

/// Bind/placeholder parity: for every disciplined statement that compiles —
/// identifiers without `?`, raw fragments carrying one bind value per
/// placeholder — the number of `?` tokens in the compiled SQL equals the
/// length of the bind list, so the i-th placeholder is fed by the i-th bind
/// value under left-to-right reading order.
pub proof fn lemma_bind_placeholder_parity(b: ChainBuilder)
    requires
        builder_disc(b),
        compile_err(b) is None,
    ensures
        count_q(compile_sql(b)) == compile_binds(b).len(),
{
    lemma_parity_builder(b, b.client);
}

} // verus!
