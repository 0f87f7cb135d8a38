use vstd::prelude::*;

use crate::builder::ChainBuilder;
use crate::compile::{
    asm_head_sql, asm_mid_sql, asm_tail_sql, assemble_binds, assemble_sql, builder_frag, builder_parts,
    commons_acc, compile_binds, compile_err, compile_sql, cond_conn, cond_node_err,
    cond_node_frag, conds_err, conds_frag, first_row_cols, limoff_binds, limoff_sql, lookup_binds,
    method_frag, obj_lookup, payload_cols, raws_frag, rows_binds, select_entry_frag, selects_frag,
    upd_frag,
};
use crate::keys::{lemma_lex_sort_ensures, lemma_lex_sorted_unique, obj_keys_of};
use crate::query::QueryBuilder;
use crate::strutil::dec_nat;
use crate::types::{Client, Common, Select, Statement};
use crate::value::{DVal, Value};

verus! {

/// Compilation is a pure read: any two results that `to_sql` can return for
/// the same unmodified statement carry the same SQL text and the same bind
/// values, in the same order.
pub proof fn lemma_compile_deterministic(
    b: ChainBuilder,
    sql1: Seq<char>,
    binds1: Seq<DVal>,
    sql2: Seq<char>,
    binds2: Seq<DVal>,
)
    requires
        sql1 == compile_sql(b),
        binds1 == compile_binds(b),
        sql2 == compile_sql(b),
        binds2 == compile_binds(b),
    ensures
        sql1 == sql2,
        binds1 == binds2,
{
}

/// The AND/OR tie-break: a condition sequence of a leaf followed by an OR
/// group holding one condition compiles to the leaf, ` OR `, and the group's
/// condition — no leading `AND` before the group, no trailing connective,
/// and no parentheses around the single grouped condition.  The bind values
/// are the leaf's, then the group's.
pub proof fn lemma_and_or_tiebreak(first: Statement, q: Box<QueryBuilder>, inner: Statement)
    requires
        !(first is OrChain),
        q.statement@ == seq![inner],
    ensures
        ({
            let ss = seq![first, Statement::OrChain(q)];
            &&& conds_frag(ss).sql == cond_node_frag(first).sql + " OR "@ + cond_node_frag(
                inner,
            ).sql
            &&& conds_frag(ss).binds == cond_node_frag(first).binds + cond_node_frag(inner).binds
        }),
{
    let ss = seq![first, Statement::OrChain(q)];
    assert(conds_frag(Seq::<Statement>::empty()).sql == Seq::<char>::empty());
    assert(conds_frag(Seq::<Statement>::empty()).binds == Seq::<DVal>::empty());
    assert(ss.drop_last() =~= seq![first]);
    assert(ss.last() == Statement::OrChain(q));
    let one = seq![first];
    assert(one.drop_last() =~= Seq::<Statement>::empty());
    assert(one.last() == first);
    assert(conds_frag(one).sql =~= cond_node_frag(first).sql);
    assert(conds_frag(one).binds =~= cond_node_frag(first).binds);
    assert(q.statement@.len() == 1);
    assert(conds_frag(q.statement@).sql =~= cond_node_frag(inner).sql) by {
        assert(q.statement@.drop_last() =~= Seq::<Statement>::empty());
        assert(q.statement@.last() == inner);
    }
    assert(conds_frag(q.statement@).binds =~= cond_node_frag(inner).binds) by {
        assert(q.statement@.drop_last() =~= Seq::<Statement>::empty());
        assert(q.statement@.last() == inner);
    }
    let orc = Statement::OrChain(q);
    assert(cond_node_frag(orc).sql == conds_frag(q.statement@).sql);
    assert(cond_node_frag(orc).binds == conds_frag(q.statement@).binds);
    assert(ss.len() == 2);
    assert(ss[0] == first && ss[1] == orc);
    assert(cond_conn(ss, 1) == " OR "@);
    assert(conds_frag(ss).sql == conds_frag(ss.drop_last()).sql + cond_conn(ss, 1)
        + cond_node_frag(ss.last()).sql);
    assert(conds_frag(ss.drop_last()) == conds_frag(one));
    assert(conds_frag(ss).sql =~= cond_node_frag(first).sql + " OR "@ + cond_node_frag(inner).sql);
    assert(conds_frag(ss).binds =~= cond_node_frag(first).binds + cond_node_frag(inner).binds);
}

/// A rejected condition node anywhere in the sequence rejects the sequence.
proof fn lemma_conds_err_some(ss: Seq<Statement>, i: int)
    requires
        0 <= i < ss.len(),
        cond_node_err(ss[i]) is Some,
    ensures
        conds_err(ss) is Some,
    decreases ss.len(),
{
    if i == ss.len() - 1 {
    } else {
        assert(ss.drop_last()[i] == ss[i]);
        lemma_conds_err_some(ss.drop_last(), i);
    }
}

/// A `BETWEEN`/`NOT BETWEEN` condition whose value is not a two-element
/// array makes the whole statement fail to compile, whatever else it holds:
/// it never silently compiles.
pub proof fn lemma_between_arity_rejected(b: ChainBuilder, i: int)
    requires
        0 <= i < b.query.statement@.len(),
        cond_node_err(b.query.statement@[i]) is Some,
    ensures
        compile_err(b) is Some,
{
    lemma_conds_err_some(b.query.statement@, i);
}

/// Nested subquery bind splicing: appending a sub-statement entry to a
/// select list appends `(…) AS alias` to the list's text and the nested
/// statement's bind values at exactly that position, after every earlier
/// entry's bind values.
pub proof fn lemma_subquery_bind_splicing(
    sel: Seq<Select>,
    alias: String,
    cb: ChainBuilder,
    client: crate::types::Client,
)
    ensures
        ({
            let whole = sel.push(Select::Builder(alias, cb));
            let sep: Seq<char> = if sel.len() > 0 {
                ", "@
            } else {
                Seq::empty()
            };
            &&& selects_frag(whole, client).sql == selects_frag(sel, client).sql + sep + "("@
                + builder_frag(cb, client).sql + ") AS "@ + alias@
            &&& selects_frag(whole, client).binds == selects_frag(sel, client).binds
                + builder_frag(cb, client).binds
        }),
{
    let whole = sel.push(Select::Builder(alias, cb));
    assert(selects_frag(Seq::<Select>::empty(), client).sql == Seq::<char>::empty());
    assert(whole.drop_last() =~= sel);
    assert(whole.last() == Select::Builder(alias, cb));
    let sep: Seq<char> = if sel.len() > 0 {
        ", "@
    } else {
        Seq::empty()
    };
    assert(select_entry_frag(whole.last(), client).sql == "("@ + builder_frag(cb, client).sql
        + ") AS "@ + alias@);
    assert(select_entry_frag(whole.last(), client).binds == builder_frag(cb, client).binds);
    assert(whole.len() == sel.len() + 1);
    assert(selects_frag(whole, client).sql == selects_frag(whole.drop_last(), client).sql + (
    if whole.len() > 1 {
        ", "@
    } else {
        Seq::<char>::empty()
    }) + select_entry_frag(whole.last(), client).sql);
    assert(selects_frag(whole.drop_last(), client) == selects_frag(sel, client));
    assert(selects_frag(whole, client).sql =~= selects_frag(sel, client).sql + sep + "("@
        + builder_frag(cb, client).sql + ") AS "@ + alias@);
    assert(selects_frag(whole, client).binds =~= selects_frag(sel, client).binds + builder_frag(
        cb,
        client,
    ).binds);
}

/// Two objects with the same keys, in whatever order, sort to the same
/// column list.
pub proof fn lemma_payload_cols_deterministic(
    f1: Seq<(Seq<char>, DVal)>,
    f2: Seq<(Seq<char>, DVal)>,
)
    requires
        obj_keys_of(f1).to_multiset() == obj_keys_of(f2).to_multiset(),
    ensures
        payload_cols(f1) == payload_cols(f2),
{
    lemma_lex_sort_ensures(obj_keys_of(f1));
    lemma_lex_sort_ensures(obj_keys_of(f2));
    lemma_lex_sorted_unique(payload_cols(f1), payload_cols(f2));
}

/// Objects that agree on every lookup yield the same bind values for any
/// column list.
proof fn lemma_lookup_binds_equal(
    f1: Seq<(Seq<char>, DVal)>,
    f2: Seq<(Seq<char>, DVal)>,
    keys: Seq<Seq<char>>,
)
    requires
        forall|k: Seq<char>| #[trigger] obj_lookup(f1, k) == obj_lookup(f2, k),
    ensures
        lookup_binds(f1, keys) == lookup_binds(f2, keys),
    decreases keys.len(),
{
    if keys.len() > 0 {
        lemma_lookup_binds_equal(f1, f2, keys.drop_last());
    }
}

/// Objects that agree on every lookup yield the same `SET` list for any
/// column list.
proof fn lemma_upd_frag_equal(
    f1: Seq<(Seq<char>, DVal)>,
    f2: Seq<(Seq<char>, DVal)>,
    keys: Seq<Seq<char>>,
)
    requires
        forall|k: Seq<char>| #[trigger] obj_lookup(f1, k) == obj_lookup(f2, k),
    ensures
        upd_frag(f1, keys) == upd_frag(f2, keys),
    decreases keys.len(),
{
    if keys.len() > 0 {
        lemma_upd_frag_equal(f1, f2, keys.drop_last());
    }
}

/// Sorted-column determinism for writes: two payload objects holding the
/// same key/value mapping — whatever the order their fields were inserted
/// in — compile to the same column list, the same bind values, and the same
/// `SET` list, because the column order is always the sorted key order.
pub proof fn lemma_write_payload_determinism(
    f1: Seq<(Seq<char>, DVal)>,
    f2: Seq<(Seq<char>, DVal)>,
)
    requires
        obj_keys_of(f1).to_multiset() == obj_keys_of(f2).to_multiset(),
        forall|k: Seq<char>| #[trigger] obj_lookup(f1, k) == obj_lookup(f2, k),
    ensures
        payload_cols(f1) == payload_cols(f2),
        lookup_binds(f1, payload_cols(f1)) == lookup_binds(f2, payload_cols(f2)),
        upd_frag(f1, payload_cols(f1)) == upd_frag(f2, payload_cols(f2)),
{
    lemma_payload_cols_deterministic(f1, f2);
    lemma_lookup_binds_equal(f1, f2, payload_cols(f1));
    lemma_upd_frag_equal(f1, f2, payload_cols(f1));
}

/// Compiling the same INSERT or UPDATE payload mapping twice — even from
/// objects whose fields sit in different orders — yields the same method
/// text and the same bind values, byte for byte, because the column order
/// is always the sorted key order.
pub proof fn lemma_write_method_determinism(
    b1: ChainBuilder,
    b2: ChainBuilder,
    client: Client,
)
    requires
        b2 == (ChainBuilder { insert_update: b2.insert_update, ..b1 }),
        b1.method == crate::types::Method::Insert || b1.method == crate::types::Method::Update,
        b1.insert_update matches Value::Object(g1) && b2.insert_update matches Value::Object(g2)
            && ({
            let f1 = crate::value::obj_deep(g1@);
            let f2 = crate::value::obj_deep(g2@);
            &&& obj_keys_of(f1).to_multiset() == obj_keys_of(f2).to_multiset()
            &&& forall|k: Seq<char>| #[trigger] obj_lookup(f1, k) == obj_lookup(f2, k)
        }),
    ensures
        method_frag(b1, client) == method_frag(b2, client),
{
    match (b1.insert_update, b2.insert_update) {
        (Value::Object(g1), Value::Object(g2)) => {
            let f1 = crate::value::obj_deep(g1@);
            let f2 = crate::value::obj_deep(g2@);
            lemma_write_payload_determinism(f1, f2);
            assert(method_frag(b1, client).sql =~= method_frag(b2, client).sql);
            assert(method_frag(b1, client).binds =~= method_frag(b2, client).binds);
        },
        _ => {},
    }
}

/// Whether two rows are objects holding the same key/value mapping.
pub open spec fn row_map_equal(v1: Value, v2: Value) -> bool {
    match (v1, v2) {
        (Value::Object(g1), Value::Object(g2)) => {
            let f1 = crate::value::obj_deep(g1@);
            let f2 = crate::value::obj_deep(g2@);
            &&& obj_keys_of(f1).to_multiset() == obj_keys_of(f2).to_multiset()
            &&& forall|k: Seq<char>| #[trigger] obj_lookup(f1, k) == obj_lookup(f2, k)
        },
        _ => false,
    }
}

/// Multi-row insert column consistency: two row lists whose corresponding
/// rows hold the same mappings produce the same column list and the same
/// bind values, row by row and column by column in the one sorted order.
pub proof fn lemma_insert_many_determinism(rows1: Seq<Value>, rows2: Seq<Value>)
    requires
        rows1.len() == rows2.len(),
        rows1.len() > 0,
        forall|r: int| 0 <= r < rows1.len() ==> row_map_equal(#[trigger] rows1[r], rows2[r]),
    ensures
        first_row_cols(rows1) == first_row_cols(rows2),
        rows_binds(rows1, first_row_cols(rows1)) == rows_binds(rows2, first_row_cols(rows2)),
{
    assert(row_map_equal(rows1[0], rows2[0]));
    match (rows1[0], rows2[0]) {
        (Value::Object(g1), Value::Object(g2)) => {
            lemma_payload_cols_deterministic(
                crate::value::obj_deep(g1@),
                crate::value::obj_deep(g2@),
            );
        },
        _ => {},
    }
    lemma_rows_binds_equal(rows1, rows2, first_row_cols(rows1), rows1.len() as int);
    assert(rows1.take(rows1.len() as int) =~= rows1);
    assert(rows2.take(rows2.len() as int) =~= rows2);
}

/// Row lists with matching mappings yield the same bind values.
proof fn lemma_rows_binds_equal(rows1: Seq<Value>, rows2: Seq<Value>, cols: Seq<Seq<char>>, n: int)
    requires
        rows1.len() == rows2.len(),
        0 <= n <= rows1.len(),
        forall|r: int| 0 <= r < rows1.len() ==> row_map_equal(#[trigger] rows1[r], rows2[r]),
    ensures
        rows_binds(rows1.take(n), cols) == rows_binds(rows2.take(n), cols),
    decreases n,
{
    if n == 0 {
        assert(rows1.take(0) =~= Seq::<Value>::empty());
        assert(rows2.take(0) =~= Seq::<Value>::empty());
    } else {
        lemma_rows_binds_equal(rows1, rows2, cols, n - 1);
        assert(rows1.take(n).drop_last() =~= rows1.take(n - 1));
        assert(rows2.take(n).drop_last() =~= rows2.take(n - 1));
        assert(rows1.take(n).last() == rows1[n - 1]);
        assert(rows2.take(n).last() == rows2[n - 1]);
        assert(row_map_equal(rows1[n - 1], rows2[n - 1]));
        match (rows1[n - 1], rows2[n - 1]) {
            (Value::Object(g1), Value::Object(g2)) => {
                lemma_lookup_binds_equal(
                    crate::value::obj_deep(g1@),
                    crate::value::obj_deep(g2@),
                    cols,
                );
            },
            _ => {},
        }
    }
}

/// A select list without nested statements compiles alike for every dialect.
proof fn lemma_selects_client_indep(sel: Seq<Select>, c1: Client, c2: Client)
    requires
        forall|i: int| 0 <= i < sel.len() ==> !(#[trigger] sel[i] is Builder),
    ensures
        selects_frag(sel, c1) == selects_frag(sel, c2),
    decreases sel.len(),
{
    if sel.len() > 0 {
        assert(forall|i: int|
            0 <= i < sel.drop_last().len() ==> !(#[trigger] sel.drop_last()[i] is Builder));
        lemma_selects_client_indep(sel.drop_last(), c1, c2);
        assert(!(sel.last() is Builder));
        assert(select_entry_frag(sel.last(), c1) == select_entry_frag(sel.last(), c2));
    }
}

/// A method core without nested select statements compiles alike for every
/// dialect.
proof fn lemma_method_client_indep(b: ChainBuilder, c1: Client, c2: Client)
    requires
        forall|i: int| 0 <= i < b.select@.len() ==> !(#[trigger] b.select@[i] is Builder),
    ensures
        method_frag(b, c1) == method_frag(b, c2),
{
    lemma_selects_client_indep(b.select@, c1, c2);
}

/// A common-clause sequence without WITH or UNION entries accumulates alike
/// for every dialect, and leaves the WITH and UNION fragments empty.
proof fn lemma_commons_client_indep(cs: Seq<Common>, c1: Client, c2: Client)
    requires
        forall|i: int|
            0 <= i < cs.len() ==> !((#[trigger] cs[i]) is With) && !(cs[i] is Union),
    ensures
        commons_acc(cs, c1) == commons_acc(cs, c2),
        commons_acc(cs, c1).sql_with.sql.len() == 0,
        commons_acc(cs, c1).sql_with.binds.len() == 0,
        commons_acc(cs, c1).sql_union.sql.len() == 0,
        commons_acc(cs, c1).sql_union.binds.len() == 0,
    decreases cs.len(),
{
    if cs.len() > 0 {
        assert(forall|i: int|
            0 <= i < cs.drop_last().len() ==> !((#[trigger] cs.drop_last()[i]) is With) && !(
            cs.drop_last()[i] is Union));
        lemma_commons_client_indep(cs.drop_last(), c1, c2);
        assert(!(cs.last() is With) && !(cs.last() is Union));
    }
}

/// Dialect LIMIT/OFFSET divergence: for the same statement — one without
/// nested select statements, WITH or UNION clauses or trailing raw SQL, and
/// with a limit and an offset set — the MySQL dialect appends
/// ` LIMIT ? OFFSET ?` and binds the two numbers, while the SQLite dialect
/// appends ` LIMIT offset, count` with the numbers inlined as literals and
/// binds nothing more; everything before that point is the same text with
/// the same bind values.
#[verifier::rlimit(100)]
pub proof fn lemma_dialect_limit_offset(b: ChainBuilder, l: usize, o: usize)
    requires
        forall|i: int| 0 <= i < b.select@.len() ==> !(#[trigger] b.select@[i] is Builder),
        forall|i: int|
            0 <= i < b.query.query_common@.len() ==> !((#[trigger] b.query.query_common@[i])
                is With) && !(b.query.query_common@[i] is Union),
        b.query.raw@.len() == 0,
        commons_acc(b.query.query_common@, Client::Mysql).limit == Some(l),
        commons_acc(b.query.query_common@, Client::Mysql).offset == Some(o),
    ensures
        ({
            let pm = builder_parts(b, Client::Mysql);
            let core_sql = asm_head_sql(pm) + asm_mid_sql(pm);
            let core_binds = (pm.sql_with.binds + pm.method.binds + pm.join.binds) + (
            pm.statement.binds + pm.group_by_raw.binds + pm.having.binds + pm.order_by_raw.binds);
            &&& builder_frag(b, Client::Mysql).sql == core_sql + " LIMIT ? OFFSET ?"@
            &&& builder_frag(b, Client::Mysql).binds == core_binds + seq![
                DVal::UInt(l as u64),
                DVal::UInt(o as u64),
            ]
            &&& builder_frag(b, Client::Sqlite).sql == core_sql + " LIMIT "@ + dec_nat(o as nat)
                + ", "@ + dec_nat(l as nat)
            &&& builder_frag(b, Client::Sqlite).binds == core_binds
        }),
{
    let cs = b.query.query_common@;
    lemma_method_client_indep(b, Client::Mysql, Client::Sqlite);
    lemma_commons_client_indep(cs, Client::Mysql, Client::Sqlite);
    let pm = builder_parts(b, Client::Mysql);
    let ps = builder_parts(b, Client::Sqlite);
    assert(ps == pm);
    assert(raws_frag(b.query.raw@).sql.len() == 0);
    assert(raws_frag(b.query.raw@).binds.len() == 0);
    let core_sql = asm_head_sql(pm) + asm_mid_sql(pm);
    reveal_strlit(" LIMIT ?");
    reveal_strlit(" OFFSET ?");
    reveal_strlit(" LIMIT ? OFFSET ?");
    assert(limoff_sql(Client::Mysql, pm.limit, pm.offset) =~= " LIMIT ? OFFSET ?"@);
    assert(asm_tail_sql(Client::Mysql, pm) =~= " LIMIT ? OFFSET ?"@);
    assert(asm_tail_sql(Client::Sqlite, pm) =~= " LIMIT "@ + dec_nat(o as nat) + ", "@ + dec_nat(
        l as nat,
    ));
    assert(assemble_sql(Client::Mysql, pm) =~= core_sql + " LIMIT ? OFFSET ?"@);
    assert(assemble_sql(Client::Sqlite, pm) =~= core_sql + " LIMIT "@ + dec_nat(o as nat) + ", "@
        + dec_nat(l as nat));
    let core_binds = (pm.sql_with.binds + pm.method.binds + pm.join.binds) + (pm.statement.binds
        + pm.group_by_raw.binds + pm.having.binds + pm.order_by_raw.binds);
    assert(limoff_binds(Client::Mysql, pm.limit, pm.offset) =~= seq![
        DVal::UInt(l as u64),
        DVal::UInt(o as u64),
    ]);
    assert(assemble_binds(Client::Mysql, pm) =~= core_binds + seq![
        DVal::UInt(l as u64),
        DVal::UInt(o as u64),
    ]);
    assert(assemble_binds(Client::Sqlite, pm) =~= core_binds);
}

} // verus!
