//! Assembly of a query result: an ordered column-to-type mapping with unique
//! keys, one ordered mapping per row over exactly the same keys, and the JSON
//! wire text of the whole.
//!
//! Column and row mappings insert like an insertion-ordered map: a repeated
//! key keeps its first position and takes the later value.
use vstd::prelude::*;
use vstd::string::*;
use crate::text::{json_string, append_json_string};
use crate::value::{JsonVal, val_text, append_value};

verus! {

pub struct ColumnType {
    pub name: String,
    pub data_type: String,
}

pub struct JsonField {
    pub key: String,
    pub value: JsonVal,
}

pub struct QueryResult {
    pub columns: Vec<ColumnType>,
    pub rows: Vec<Vec<JsonField>>,
}

pub open spec fn col_keys(cs: Seq<ColumnType>) -> Seq<Seq<char>> {
    cs.map_values(|c: ColumnType| c.name@)
}

pub open spec fn field_keys(fs: Seq<JsonField>) -> Seq<Seq<char>> {
    fs.map_values(|f: JsonField| f.key@)
}

/// The first position holding key `k`, or `-1`.
pub open spec fn find_key(ks: Seq<Seq<char>>, k: Seq<char>) -> int
    decreases ks.len(),
{
    if ks.len() == 0 {
        -1
    } else if ks[0] == k {
        0
    } else {
        let r = find_key(ks.drop_first(), k);
        if r < 0 {
            -1
        } else {
            r + 1
        }
    }
}

pub proof fn lemma_find_key(ks: Seq<Seq<char>>, k: Seq<char>)
    ensures
        find_key(ks, k) < 0 ==> forall|j: int| 0 <= j < ks.len() ==> ks[j] != k,
        find_key(ks, k) >= 0 ==> 0 <= find_key(ks, k) < ks.len() && ks[find_key(ks, k)] == k,
        find_key(ks, k) >= 0 ==> forall|j: int| 0 <= j < find_key(ks, k) ==> ks[j] != k,
        (exists|j: int| 0 <= j < ks.len() && ks[j] == k) ==> find_key(ks, k) >= 0,
    decreases ks.len(),
{
    if ks.len() > 0 && ks[0] != k {
        lemma_find_key(ks.drop_first(), k);
        assert(forall|j: int| 0 < j < ks.len() ==> ks[j] == ks.drop_first()[j - 1]);
        if exists|j: int| 0 <= j < ks.len() && ks[j] == k {
            let j = choose|j: int| 0 <= j < ks.len() && ks[j] == k;
            assert(ks.drop_first()[j - 1] == k);
        }
    }
}

/// Insert-or-update for the column mapping: a fresh name is appended, a
/// repeated one keeps its position and takes the new type.
pub open spec fn ins_col(cs: Seq<ColumnType>, c: ColumnType) -> Seq<ColumnType> {
    let i = find_key(col_keys(cs), c.name@);
    if i < 0 {
        cs.push(c)
    } else {
        cs.update(i, ColumnType { name: cs[i].name, data_type: c.data_type })
    }
}

pub open spec fn fold_cols(ps: Seq<ColumnType>) -> Seq<ColumnType>
    decreases ps.len(),
{
    if ps.len() == 0 {
        Seq::empty()
    } else {
        ins_col(fold_cols(ps.drop_last()), ps.last())
    }
}

/// Insert-or-update for one row's mapping, with the same rule.
pub open spec fn ins_field(fs: Seq<JsonField>, f: JsonField) -> Seq<JsonField> {
    let i = find_key(field_keys(fs), f.key@);
    if i < 0 {
        fs.push(f)
    } else {
        fs.update(i, JsonField { key: fs[i].key, value: f.value })
    }
}

pub open spec fn fold_fields(ps: Seq<JsonField>) -> Seq<JsonField>
    decreases ps.len(),
{
    if ps.len() == 0 {
        Seq::empty()
    } else {
        ins_field(fold_fields(ps.drop_last()), ps.last())
    }
}

pub proof fn lemma_ins_col_keys(cs: Seq<ColumnType>, c: ColumnType)
    ensures
        find_key(col_keys(cs), c.name@) < 0 ==> col_keys(ins_col(cs, c)) =~= col_keys(cs).push(
            c.name@,
        ),
        find_key(col_keys(cs), c.name@) >= 0 ==> col_keys(ins_col(cs, c)) =~= col_keys(cs),
{
    lemma_find_key(col_keys(cs), c.name@);
}

pub proof fn lemma_ins_field_keys(fs: Seq<JsonField>, f: JsonField)
    ensures
        find_key(field_keys(fs), f.key@) < 0 ==> field_keys(ins_field(fs, f)) =~= field_keys(
            fs,
        ).push(f.key@),
        find_key(field_keys(fs), f.key@) >= 0 ==> field_keys(ins_field(fs, f)) =~= field_keys(fs),
{
    lemma_find_key(field_keys(fs), f.key@);
}

/// Folding a row whose keys are the column names, in order, leaves exactly
/// the keys that folding the columns leaves.
pub proof fn lemma_fold_keys(meta: Seq<ColumnType>, fs: Seq<JsonField>)
    requires
        fs.len() == meta.len(),
        forall|i: int| 0 <= i < meta.len() ==> fs[i].key@ == meta[i].name@,
    ensures
        field_keys(fold_fields(fs)) =~= col_keys(fold_cols(meta)),
    decreases meta.len(),
{
    if meta.len() > 0 {
        assert(forall|i: int| 0 <= i < meta.len() - 1 ==> fs.drop_last()[i].key@
            == meta.drop_last()[i].name@);
        lemma_fold_keys(meta.drop_last(), fs.drop_last());
        let a = fold_cols(meta.drop_last());
        let b = fold_fields(fs.drop_last());
        assert(col_keys(a) == field_keys(b));
        lemma_ins_col_keys(a, meta.last());
        lemma_ins_field_keys(b, fs.last());
        assert(fs.last().key@ == meta.last().name@);
    }
}

/// Folded columns carry no repeated name.
pub proof fn lemma_fold_cols_unique(ps: Seq<ColumnType>)
    ensures
        forall|p: int, q: int|
            0 <= p < q < col_keys(fold_cols(ps)).len() ==> col_keys(fold_cols(ps))[p] != col_keys(
                fold_cols(ps),
            )[q],
    decreases ps.len(),
{
    if ps.len() > 0 {
        lemma_fold_cols_unique(ps.drop_last());
        let a = fold_cols(ps.drop_last());
        let c = ps.last();
        lemma_ins_col_keys(a, c);
        lemma_find_key(col_keys(a), c.name@);
        if find_key(col_keys(a), c.name@) < 0 {
            assert(forall|j: int| 0 <= j < col_keys(a).len() ==> col_keys(a)[j] != c.name@);
        }
    }
}

/// Insert-or-update into the column mapping.
pub fn imap_insert_col(m: &mut Vec<ColumnType>, c: ColumnType)
    ensures
        final(m)@ == ins_col(old(m)@, c),
{
    proof {
        lemma_find_key(col_keys(old(m)@), c.name@);
    }
    let n = m.len();
    let mut i: usize = 0;
    while i < n
        invariant
            i <= n,
            n == m@.len(),
            m@ == old(m)@,
            forall|j: int| 0 <= j < i ==> col_keys(m@)[j] != c.name@,
        decreases n - i,
    {
        let same = {
            let e = &m[i];
            e.name == c.name
        };
        if same {
            proof {
                lemma_find_key(col_keys(old(m)@), c.name@);
                assert(col_keys(old(m)@)[i as int] == c.name@);
                assert(find_key(col_keys(old(m)@), c.name@) == i);
            }
            let e = m.remove(i);
            m.insert(i, ColumnType { name: e.name, data_type: c.data_type });
            proof {
                assert(m@ =~= old(m)@.update(
                    i as int,
                    ColumnType { name: old(m)@[i as int].name, data_type: c.data_type },
                ));
            }
            return ;
        }
        i += 1;
    }
    proof {
        lemma_find_key(col_keys(old(m)@), c.name@);
        assert(find_key(col_keys(old(m)@), c.name@) < 0);
    }
    m.push(c);
}

/// Insert-or-update into one row's mapping.
pub fn imap_insert_field(m: &mut Vec<JsonField>, f: JsonField)
    ensures
        final(m)@ == ins_field(old(m)@, f),
{
    proof {
        lemma_find_key(field_keys(old(m)@), f.key@);
    }
    let n = m.len();
    let mut i: usize = 0;
    while i < n
        invariant
            i <= n,
            n == m@.len(),
            m@ == old(m)@,
            forall|j: int| 0 <= j < i ==> field_keys(m@)[j] != f.key@,
        decreases n - i,
    {
        let same = {
            let e = &m[i];
            e.key == f.key
        };
        if same {
            proof {
                lemma_find_key(field_keys(old(m)@), f.key@);
                assert(field_keys(old(m)@)[i as int] == f.key@);
                assert(find_key(field_keys(old(m)@), f.key@) == i);
            }
            let e = m.remove(i);
            m.insert(i, JsonField { key: e.key, value: f.value });
            proof {
                assert(m@ =~= old(m)@.update(
                    i as int,
                    JsonField { key: old(m)@[i as int].key, value: f.value },
                ));
            }
            return ;
        }
        i += 1;
    }
    proof {
        lemma_find_key(field_keys(old(m)@), f.key@);
        assert(find_key(field_keys(old(m)@), f.key@) < 0);
    }
    m.push(f);
}

/// One row's mapping before folding: the column names paired with the
/// row's decoded values, in column order.
pub open spec fn row_fields(meta: Seq<ColumnType>, vs: Seq<JsonVal>) -> Seq<JsonField> {
    Seq::new(meta.len(), |i: int| JsonField { key: meta[i].name, value: vs[i] })
}

/// Builds the result from the result set's column metadata and its decoded
/// cell values. Column types are taken from the first row's metadata only:
/// with zero rows the column mapping stays empty, a documented limitation
/// kept on purpose. Every row mapping ends up with exactly the column
/// mapping's keys, in the same order.
pub fn make_query_result(meta: Vec<ColumnType>, vals: Vec<Vec<JsonVal>>) -> (r: QueryResult)
    requires
        forall|i: int| 0 <= i < vals@.len() ==> (#[trigger] vals@[i])@.len() == meta@.len(),
    ensures
        r.rows@.len() == vals@.len(),
        vals@.len() == 0 ==> r.columns@ =~= Seq::<ColumnType>::empty(),
        vals@.len() > 0 ==> r.columns@ == fold_cols(meta@),
        forall|i: int|
            0 <= i < vals@.len() ==> (#[trigger] r.rows@[i])@ == fold_fields(
                row_fields(meta@, vals@[i]@),
            ),
        forall|i: int|
            0 <= i < r.rows@.len() ==> field_keys((#[trigger] r.rows@[i])@) =~= col_keys(
                r.columns@,
            ),
        forall|p: int, q: int|
            0 <= p < q < col_keys(r.columns@).len() ==> col_keys(r.columns@)[p] != col_keys(
                r.columns@,
            )[q],
{
    let ghost meta0 = meta@;
    if vals.len() == 0 {
        return QueryResult { columns: Vec::new(), rows: Vec::new() };
    }
    let mut columns: Vec<ColumnType> = Vec::new();
    let mut k: usize = 0;
    while k < meta.len()
        invariant
            k <= meta0.len(),
            meta@ == meta0,
            columns@ == fold_cols(meta0.take(k as int)),
        decreases meta0.len() - k,
    {
        let c = {
            let e = &meta[k];
            ColumnType { name: e.name.clone(), data_type: e.data_type.clone() }
        };
        proof {
            assert(c == meta0[k as int]);
            assert(meta0.take(k + 1).drop_last() =~= meta0.take(k as int));
        }
        imap_insert_col(&mut columns, c);
        k += 1;
    }
    proof {
        assert(meta0.take(meta0.len() as int) =~= meta0);
    }
    let mut vals = vals;
    let ghost vals0 = vals@;
    let mut rows: Vec<Vec<JsonField>> = Vec::new();
    while vals.len() > 0
        invariant
            rows@.len() + vals@.len() == vals0.len(),
            vals@ == vals0.skip(rows@.len() as int),
            meta@ == meta0,
            forall|i: int| 0 <= i < vals0.len() ==> (#[trigger] vals0[i])@.len() == meta0.len(),
            forall|i: int|
                0 <= i < rows@.len() ==> (#[trigger] rows@[i])@ == fold_fields(
                    row_fields(meta0, vals0[i]@),
                ),
        decreases vals@.len(),
    {
        let ghost done = rows@.len() as int;
        let mut rvals = vals.remove(0);
        let ghost rv0 = rvals@;
        proof {
            assert(rv0 == vals0[done]@);
            assert(vals@ =~= vals0.skip(done + 1));
        }
        let mut row: Vec<JsonField> = Vec::new();
        let mut k: usize = 0;
        while k < meta.len()
            invariant
                k <= meta0.len(),
                meta@ == meta0,
                rv0.len() == meta0.len(),
                rvals@ == rv0.skip(k as int),
                row@ == fold_fields(row_fields(meta0, rv0).take(k as int)),
            decreases meta0.len() - k,
        {
            let key = {
                let e = &meta[k];
                e.name.clone()
            };
            let v = rvals.remove(0);
            proof {
                assert(v == rv0[k as int]);
                assert(rvals@ =~= rv0.skip(k + 1));
                assert(row_fields(meta0, rv0).take(k + 1).drop_last() =~= row_fields(
                    meta0,
                    rv0,
                ).take(k as int));
                assert(row_fields(meta0, rv0).take(k + 1).last() == JsonField {
                    key: meta0[k as int].name,
                    value: rv0[k as int],
                });
            }
            imap_insert_field(&mut row, JsonField { key, value: v });
            k += 1;
        }
        proof {
            assert(row_fields(meta0, rv0).take(meta0.len() as int) =~= row_fields(meta0, rv0));
        }
        rows.push(row);
    }
    let r = QueryResult { columns, rows };
    proof {
        lemma_fold_cols_unique(meta0);
        assert forall|i: int| 0 <= i < r.rows@.len() implies field_keys((#[trigger] r.rows@[i])@)
            =~= col_keys(r.columns@) by {
            let fs = row_fields(meta0, vals0[i]@);
            assert(forall|j: int| 0 <= j < meta0.len() ==> fs[j].key@ == meta0[j].name@);
            lemma_fold_keys(meta0, fs);
        }
    }
    r
}

pub open spec fn col_entry(c: ColumnType) -> Seq<char> {
    json_string(c.name@) + ":"@ + json_string(c.data_type@)
}

pub open spec fn cols_text(cs: Seq<ColumnType>) -> Seq<char>
    decreases cs.len(),
{
    if cs.len() == 0 {
        Seq::empty()
    } else if cs.len() == 1 {
        col_entry(cs[0])
    } else {
        cols_text(cs.drop_last()) + ","@ + col_entry(cs.last())
    }
}

pub open spec fn field_entry(f: JsonField) -> Seq<char> {
    json_string(f.key@) + ":"@ + val_text(f.value)
}

pub open spec fn fields_text(fs: Seq<JsonField>) -> Seq<char>
    decreases fs.len(),
{
    if fs.len() == 0 {
        Seq::empty()
    } else if fs.len() == 1 {
        field_entry(fs[0])
    } else {
        fields_text(fs.drop_last()) + ","@ + field_entry(fs.last())
    }
}

pub open spec fn row_text(r: Seq<JsonField>) -> Seq<char> {
    "{"@ + fields_text(r) + "}"@
}

pub open spec fn rows_text(rs: Seq<Vec<JsonField>>) -> Seq<char>
    decreases rs.len(),
{
    if rs.len() == 0 {
        Seq::empty()
    } else if rs.len() == 1 {
        row_text(rs[0]@)
    } else {
        rows_text(rs.drop_last()) + ","@ + row_text(rs.last()@)
    }
}

/// The wire text: one JSON object holding the column mapping and the row
/// array, in that order, insertion order preserved throughout.
pub open spec fn query_result_text(qr: QueryResult) -> Seq<char> {
    "{\"columns\":{"@ + cols_text(qr.columns@) + "},\"rows\":["@ + rows_text(qr.rows@) + "]}"@
}

fn append_cols(out: &mut String, cs: &Vec<ColumnType>)
    ensures
        final(out)@ == old(out)@ + cols_text(cs@),
{
    let mut i: usize = 0;
    while i < cs.len()
        invariant
            i <= cs@.len(),
            out@ == old(out)@ + cols_text(cs@.take(i as int)),
        decreases cs@.len() - i,
    {
        if i > 0 {
            out.append(",");
        }
        let e = &cs[i];
        append_json_string(out, e.name.as_str());
        out.append(":");
        append_json_string(out, e.data_type.as_str());
        proof {
            assert(cs@.take(i + 1).drop_last() =~= cs@.take(i as int));
            assert(cs@.take(i + 1).last() == cs@[i as int]);
        }
        i += 1;
    }
    proof {
        assert(cs@.take(cs@.len() as int) =~= cs@);
    }
}

fn append_row(out: &mut String, fs: &Vec<JsonField>)
    ensures
        final(out)@ == old(out)@ + row_text(fs@),
{
    out.append("{");
    let ghost pre = out@;
    let mut i: usize = 0;
    while i < fs.len()
        invariant
            i <= fs@.len(),
            out@ == pre + fields_text(fs@.take(i as int)),
        decreases fs@.len() - i,
    {
        if i > 0 {
            out.append(",");
        }
        let e = &fs[i];
        append_json_string(out, e.key.as_str());
        out.append(":");
        append_value(out, &e.value);
        proof {
            assert(fs@.take(i + 1).drop_last() =~= fs@.take(i as int));
            assert(fs@.take(i + 1).last() == fs@[i as int]);
        }
        i += 1;
    }
    proof {
        assert(fs@.take(fs@.len() as int) =~= fs@);
    }
    out.append("}");
}

/// Serializes the result as its wire text.
pub fn encode_query_result(qr: &QueryResult) -> (r: String)
    ensures
        r@ == query_result_text(*qr),
{
    let mut out = String::new();
    out.append("{\"columns\":{");
    append_cols(&mut out, &qr.columns);
    out.append("},\"rows\":[");
    let ghost pre = out@;
    let mut i: usize = 0;
    while i < qr.rows.len()
        invariant
            i <= qr.rows@.len(),
            out@ == pre + rows_text(qr.rows@.take(i as int)),
        decreases qr.rows@.len() - i,
    {
        if i > 0 {
            out.append(",");
        }
        append_row(&mut out, &qr.rows[i]);
        proof {
            assert(qr.rows@.take(i + 1).drop_last() =~= qr.rows@.take(i as int));
            assert(qr.rows@.take(i + 1).last() == qr.rows@[i as int]);
        }
        i += 1;
    }
    proof {
        assert(qr.rows@.take(qr.rows@.len() as int) =~= qr.rows@);
    }
    out.append("]}");
    out
}

} // verus!
