//! The schema tree: folding the catalog's (schema, table) listing into
//! schema nodes, planning the per-table column lookups, attaching their
//! results, and the JSON wire text of the tree.
use vstd::prelude::*;
use vstd::string::*;
use crate::text::{json_string, append_json_string};

verus! {

#[derive(Clone)]
pub struct Column {
    pub name: String,
    pub data_type: String,
}

pub struct Table {
    pub name: String,
    pub columns: Vec<Column>,
}

pub struct Schema {
    pub name: String,
    pub tables: Vec<Table>,
}

/// One row of the catalog's table listing.
pub struct TablePair {
    pub schema: String,
    pub table: String,
}

pub open spec fn schema_names(ss: Seq<Schema>) -> Seq<Seq<char>> {
    ss.map_values(|s: Schema| s.name@)
}

pub open spec fn table_names(ts: Seq<Table>) -> Seq<Seq<char>> {
    ts.map_values(|t: Table| t.name@)
}

/// The distinct schema names of the listing, each at its first occurrence.
pub open spec fn occ_names(ps: Seq<TablePair>) -> Seq<Seq<char>>
    decreases ps.len(),
{
    if ps.len() == 0 {
        Seq::empty()
    } else {
        let r = occ_names(ps.drop_last());
        if r.contains(ps.last().schema@) {
            r
        } else {
            r.push(ps.last().schema@)
        }
    }
}

/// The table names listed under schema `s`, in listing order.
pub open spec fn tables_for(ps: Seq<TablePair>, s: Seq<char>) -> Seq<Seq<char>>
    decreases ps.len(),
{
    if ps.len() == 0 {
        Seq::empty()
    } else {
        let r = tables_for(ps.drop_last(), s);
        if ps.last().schema@ == s {
            r.push(ps.last().table@)
        } else {
            r
        }
    }
}

proof fn lemma_tables_for_unseen(ps: Seq<TablePair>, s: Seq<char>)
    requires
        !occ_names(ps).contains(s),
    ensures
        tables_for(ps, s) =~= Seq::<Seq<char>>::empty(),
    decreases ps.len(),
{
    if ps.len() > 0 {
        if !occ_names(ps.drop_last()).contains(ps.last().schema@) {
            assert(occ_names(ps).last() == ps.last().schema@);
        }
        assert(occ_names(ps.drop_last()).len() <= occ_names(ps).len());
        assert(forall|j: int|
            0 <= j < occ_names(ps.drop_last()).len() ==> occ_names(ps.drop_last())[j] == occ_names(
                ps,
            )[j]);
        if occ_names(ps.drop_last()).contains(s) {
            let j = choose|j: int|
                0 <= j < occ_names(ps.drop_last()).len() && occ_names(ps.drop_last())[j] == s;
            assert(occ_names(ps)[j] == s);
            assert(false);
        }
        lemma_tables_for_unseen(ps.drop_last(), s);
        assert(ps.last().schema@ != s);
    }
}

fn find_schema(acc: &Vec<Schema>, name: &String) -> (r: Option<usize>)
    ensures
        r is Some ==> 0 <= r.unwrap() < acc@.len() && acc@[r.unwrap() as int].name@ == name@
            && forall|j: int| 0 <= j < r.unwrap() ==> acc@[j].name@ != name@,
        r is None ==> forall|j: int| 0 <= j < acc@.len() ==> acc@[j].name@ != name@,
{
    let mut i: usize = 0;
    while i < acc.len()
        invariant
            i <= acc@.len(),
            forall|j: int| 0 <= j < i ==> acc@[j].name@ != name@,
        decreases acc@.len() - i,
    {
        let same = {
            let e = &acc[i];
            e.name == *name
        };
        if same {
            return Some(i);
        }
        i += 1;
    }
    None
}

/// Folds the catalog's (schema, table) pairs into the tree: the first pair
/// naming a schema appends its node, every pair appends a table node with
/// no columns yet. Schema names end up unique, in first-occurrence order;
/// each schema's tables keep listing order. An empty listing yields an
/// empty tree.
#[verifier::loop_isolation(false)]
pub fn build_tree(pairs: Vec<TablePair>) -> (r: Vec<Schema>)
    ensures
        schema_names(r@) =~= occ_names(pairs@),
        forall|p: int, q: int| 0 <= p < q < r@.len() ==> r@[p].name@ != r@[q].name@,
        forall|si: int|
            0 <= si < r@.len() ==> table_names(#[trigger] r@[si].tables@) =~= tables_for(
                pairs@,
                r@[si].name@,
            ),
        forall|si: int, ti: int|
            0 <= si < r@.len() && 0 <= ti < r@[si].tables@.len()
                ==> (#[trigger] r@[si].tables@[ti]).columns@.len() == 0,
        pairs@.len() == 0 ==> r@.len() == 0,
{
    let ghost ps0 = pairs@;
    let mut pairs = pairs;
    let mut acc: Vec<Schema> = Vec::new();
    let ghost mut i: int = 0;
    while pairs.len() > 0
        invariant
            0 <= i <= ps0.len(),
            pairs@ == ps0.skip(i),
            schema_names(acc@) =~= occ_names(ps0.take(i)),
            forall|p: int, q: int| 0 <= p < q < acc@.len() ==> acc@[p].name@ != acc@[q].name@,
            forall|si: int|
                0 <= si < acc@.len() ==> table_names(#[trigger] acc@[si].tables@) =~= tables_for(
                    ps0.take(i),
                    acc@[si].name@,
                ),
            forall|si: int, ti: int|
                0 <= si < acc@.len() && 0 <= ti < acc@[si].tables@.len()
                    ==> (#[trigger] acc@[si].tables@[ti]).columns@.len() == 0,
            i == 0 ==> acc@.len() == 0,
        decreases pairs@.len(),
    {
        let ghost accpre = acc@;
        let p = pairs.remove(0);
        proof {
            assert(p == ps0[i]);
            assert(pairs@ =~= ps0.skip(i + 1));
            assert(ps0.take(i + 1).drop_last() =~= ps0.take(i));
            assert(ps0.take(i + 1).last() == ps0[i]);
        }
        let found = find_schema(&acc, &p.schema);
        match found {
            Some(j) => {
                let mut s = acc.remove(j);
                s.tables.push(Table { name: p.table, columns: Vec::new() });
                acc.insert(j, s);
                proof {
                    assert(acc@[j as int].tables@ =~= accpre[j as int].tables@.push(
                        acc@[j as int].tables@.last(),
                    ));
                    assert(schema_names(accpre)[j as int] == p.schema@);
                    assert(schema_names(accpre).contains(p.schema@));
                    assert(occ_names(ps0.take(i + 1)) =~= occ_names(ps0.take(i)));
                    assert(schema_names(acc@) =~= schema_names(accpre));
                    assert forall|si: int| 0 <= si < acc@.len() implies table_names(
                        #[trigger] acc@[si].tables@,
                    ) =~= tables_for(ps0.take(i + 1), acc@[si].name@) by {
                        if si == j {
                            assert(table_names(acc@[si].tables@) =~= table_names(
                                accpre[si].tables@,
                            ).push(p.table@));
                        } else {
                            assert(acc@[si] == accpre[si]);
                            assert(acc@[si].name@ != p.schema@);
                        }
                    }
                }
            },
            None => {
                proof {
                    assert(forall|j: int|
                        0 <= j < accpre.len() ==> schema_names(accpre)[j] == accpre[j].name@);
                    assert(!schema_names(accpre).contains(p.schema@));
                    assert(!occ_names(ps0.take(i)).contains(p.schema@));
                    lemma_tables_for_unseen(ps0.take(i), p.schema@);
                }
                let mut ts: Vec<Table> = Vec::new();
                ts.push(Table { name: p.table, columns: Vec::new() });
                acc.push(Schema { name: p.schema, tables: ts });
                proof {
                    assert(schema_names(acc@) =~= schema_names(accpre).push(acc@.last().name@));
                    assert(occ_names(ps0.take(i + 1)) =~= occ_names(ps0.take(i)).push(
                        ps0[i].schema@,
                    ));
                    assert forall|si: int| 0 <= si < acc@.len() implies table_names(
                        #[trigger] acc@[si].tables@,
                    ) =~= tables_for(ps0.take(i + 1), acc@[si].name@) by {
                        if si < acc@.len() - 1 {
                            assert(acc@[si] == accpre[si]);
                            assert(acc@[si].name@ != p.schema@);
                        } else {
                            assert(table_names(acc@[si].tables@) =~= Seq::<
                                Seq<char>,
                            >::empty().push(p.table@));
                        }
                    }
                }
            },
        }
        proof {
            i = i + 1;
        }
    }
    proof {
        assert(ps0.take(ps0.len() as int) =~= ps0);
        assert(ps0.skip(i).len() == 0);
        assert(i == ps0.len());
    }
    acc
}

/// The table names to look columns up for, schema-major, in tree order.
pub fn planned_tables(tree: &Vec<Schema>) -> (r: Vec<Vec<String>>)
    ensures
        r@.len() == tree@.len(),
        forall|si: int|
            0 <= si < tree@.len() ==> (#[trigger] r@[si])@.len() == tree@[si].tables@.len(),
        forall|si: int, ti: int|
            0 <= si < tree@.len() && 0 <= ti < tree@[si].tables@.len()
                ==> (#[trigger] r@[si]@[ti])@ == tree@[si].tables@[ti].name@,
{
    let mut r: Vec<Vec<String>> = Vec::new();
    let mut si: usize = 0;
    while si < tree.len()
        invariant
            si <= tree@.len(),
            r@.len() == si,
            forall|sj: int| 0 <= sj < si ==> (#[trigger] r@[sj])@.len() == tree@[sj].tables@.len(),
            forall|sj: int, ti: int|
                0 <= sj < si && 0 <= ti < tree@[sj].tables@.len() ==> (#[trigger] r@[sj]@[ti])@
                    == tree@[sj].tables@[ti].name@,
        decreases tree@.len() - si,
    {
        let s = &tree[si];
        let mut names: Vec<String> = Vec::new();
        let mut ti: usize = 0;
        while ti < s.tables.len()
            invariant
                ti <= s.tables@.len(),
                names@.len() == ti,
                forall|tj: int|
                    0 <= tj < ti ==> (#[trigger] names@[tj])@ == s.tables@[tj].name@,
            decreases s.tables@.len() - ti,
        {
            let t = &s.tables[ti];
            names.push(t.name.clone());
            ti += 1;
        }
        r.push(names);
        si += 1;
    }
    r
}

/// The text of the catalog query that lists every schema's tables.
pub open spec fn tables_query_text() -> Seq<char> {
    "SELECT table_schema, table_name FROM information_schema.tables"@
}

pub fn tables_query() -> (r: String)
    ensures
        r@ == tables_query_text(),
{
    String::from_str("SELECT table_schema, table_name FROM information_schema.tables")
}

/// The text of the follow-up column lookup: filtered by table name alone,
/// not by schema, exactly as enumerated results expect it.
pub open spec fn column_query_text(table: Seq<char>) -> Seq<char> {
    "SELECT \"column_name\", \"data_type\" FROM \"information_schema\".\"columns\" WHERE \"table_name\" = '"@
        + table + "'"@
}

pub fn column_query(table: &str) -> (r: String)
    ensures
        r@ == column_query_text(table@),
{
    let head = String::from_str(
        "SELECT \"column_name\", \"data_type\" FROM \"information_schema\".\"columns\" WHERE \"table_name\" = '",
    );
    head.concat(table).concat("'")
}

/// Appends each table's looked-up columns to its node, schema-major, in
/// plan order. Names and shape stay as they were; each table's column list
/// grows by exactly its own lookup result.
#[verifier::loop_isolation(false)]
pub fn attach_columns(tree: Vec<Schema>, lists: Vec<Vec<Vec<Column>>>) -> (r: Vec<Schema>)
    requires
        lists@.len() == tree@.len(),
        forall|si: int|
            0 <= si < tree@.len() ==> (#[trigger] lists@[si])@.len() == tree@[si].tables@.len(),
    ensures
        r@.len() == tree@.len(),
        forall|si: int|
            0 <= si < tree@.len() ==> (#[trigger] r@[si]).name@ == tree@[si].name@
                && r@[si].tables@.len() == tree@[si].tables@.len(),
        forall|si: int, ti: int|
            0 <= si < tree@.len() && 0 <= ti < tree@[si].tables@.len()
                ==> (#[trigger] r@[si].tables@[ti]).name@ == tree@[si].tables@[ti].name@
                && r@[si].tables@[ti].columns@ == tree@[si].tables@[ti].columns@
                + (lists@[si])@[ti]@,
{
    let ghost tree0 = tree@;
    let ghost lists0 = lists@;
    let mut tree = tree;
    let mut lists = lists;
    let mut r: Vec<Schema> = Vec::new();
    while tree.len() > 0
        invariant
            r@.len() <= tree0.len(),
            tree@ == tree0.skip(r@.len() as int),
            lists@ == lists0.skip(r@.len() as int),
            forall|sj: int|
                0 <= sj < r@.len() ==> (#[trigger] r@[sj]).name@ == tree0[sj].name@
                    && r@[sj].tables@.len() == tree0[sj].tables@.len(),
            forall|sj: int, ti: int|
                0 <= sj < r@.len() && 0 <= ti < tree0[sj].tables@.len()
                    ==> (#[trigger] r@[sj].tables@[ti]).name@ == tree0[sj].tables@[ti].name@
                    && r@[sj].tables@[ti].columns@ == tree0[sj].tables@[ti].columns@
                    + (lists0[sj])@[ti]@,
        decreases tree@.len(),
    {
        let ghost si = r@.len() as int;
        let mut s = tree.remove(0);
        let mut ls = lists.remove(0);
        proof {
            assert(s == tree0[si]);
            assert(ls == lists0[si]);
            assert(tree@ =~= tree0.skip(si + 1));
            assert(lists@ =~= lists0.skip(si + 1));
        }
        let ghost st0 = s.tables@;
        let ghost ls0 = ls@;
        let mut ts: Vec<Table> = Vec::new();
        while s.tables.len() > 0
            invariant
                ts@.len() <= st0.len(),
                s.name@ == tree0[si].name@,
                s.tables@ == st0.skip(ts@.len() as int),
                ls@ == ls0.skip(ts@.len() as int),
                forall|tj: int|
                    0 <= tj < ts@.len() ==> (#[trigger] ts@[tj]).name@ == st0[tj].name@
                        && ts@[tj].columns@ == st0[tj].columns@ + ls0[tj]@,
            decreases s.tables@.len(),
        {
            let ghost ti = ts@.len() as int;
            let mut t = s.tables.remove(0);
            let mut cs = ls.remove(0);
            proof {
                assert(t == st0[ti]);
                assert(cs == ls0[ti]);
                assert(s.tables@ =~= st0.skip(ti + 1));
                assert(ls@ =~= ls0.skip(ti + 1));
            }
            t.columns.append(&mut cs);
            ts.push(t);
        }
        proof {
            assert(ts@.len() == st0.len());
        }
        r.push(Schema { name: s.name, tables: ts });
    }
    proof {
        assert(tree0.skip(r@.len() as int).len() == 0);
    }
    r
}

/// Two like-named tables receive identical column lists whenever every
/// table node starts empty and the per-table lookup is determined by the
/// table name alone — the enumeration's schema-unaware lookup, preserved
/// as-is.
pub proof fn lemma_like_named_tables_share_columns(
    tree: Seq<Schema>,
    lists: Seq<Vec<Vec<Column>>>,
    r: Seq<Schema>,
)
    requires
        lists.len() == tree.len(),
        r.len() == tree.len(),
        forall|si: int, ti: int|
            0 <= si < tree.len() && 0 <= ti < tree[si].tables@.len()
                ==> (#[trigger] tree[si].tables@[ti]).columns@.len() == 0,
        forall|si: int|
            0 <= si < tree.len() ==> (#[trigger] r[si]).tables@.len() == tree[si].tables@.len(),
        forall|si: int, ti: int|
            0 <= si < tree.len() && 0 <= ti < tree[si].tables@.len()
                ==> (#[trigger] r[si].tables@[ti]).name@ == tree[si].tables@[ti].name@
                && r[si].tables@[ti].columns@ == tree[si].tables@[ti].columns@
                + (lists[si])@[ti]@,
        forall|si: int, ti: int, sj: int, tj: int|
            0 <= si < tree.len() && 0 <= ti < tree[si].tables@.len() && 0 <= sj < tree.len() && 0
                <= tj < tree[sj].tables@.len() && (#[trigger] tree[si].tables@[ti]).name@
                == (#[trigger] tree[sj].tables@[tj]).name@ ==> (lists[si])@[ti]@
                == (lists[sj])@[tj]@,
    ensures
        forall|si: int, ti: int, sj: int, tj: int|
            0 <= si < r.len() && 0 <= ti < r[si].tables@.len() && 0 <= sj < r.len() && 0 <= tj
                < r[sj].tables@.len() && (#[trigger] r[si].tables@[ti]).name@
                == (#[trigger] r[sj].tables@[tj]).name@ ==> r[si].tables@[ti].columns@
                == r[sj].tables@[tj].columns@,
{
    assert forall|si: int, ti: int, sj: int, tj: int|
        0 <= si < r.len() && 0 <= ti < r[si].tables@.len() && 0 <= sj < r.len() && 0 <= tj
            < r[sj].tables@.len() && (#[trigger] r[si].tables@[ti]).name@
            == (#[trigger] r[sj].tables@[tj]).name@ implies r[si].tables@[ti].columns@
        == r[sj].tables@[tj].columns@ by {
        assert(tree[si].tables@[ti].name@ == tree[sj].tables@[tj].name@);
        assert((lists[si])@[ti]@ == (lists[sj])@[tj]@);
        assert(r[si].tables@[ti].columns@ =~= (lists[si])@[ti]@);
        assert(r[sj].tables@[tj].columns@ =~= (lists[sj])@[tj]@);
    }
}

pub open spec fn scol_obj(c: Column) -> Seq<char> {
    "{\"name\":"@ + json_string(c.name@) + ",\"data_type\":"@ + json_string(c.data_type@) + "}"@
}

pub open spec fn scols_text(cs: Seq<Column>) -> Seq<char>
    decreases cs.len(),
{
    if cs.len() == 0 {
        Seq::empty()
    } else if cs.len() == 1 {
        scol_obj(cs[0])
    } else {
        scols_text(cs.drop_last()) + ","@ + scol_obj(cs.last())
    }
}

pub open spec fn table_obj(t: Table) -> Seq<char> {
    "{\"name\":"@ + json_string(t.name@) + ",\"columns\":["@ + scols_text(t.columns@) + "]}"@
}

pub open spec fn tables_text(ts: Seq<Table>) -> Seq<char>
    decreases ts.len(),
{
    if ts.len() == 0 {
        Seq::empty()
    } else if ts.len() == 1 {
        table_obj(ts[0])
    } else {
        tables_text(ts.drop_last()) + ","@ + table_obj(ts.last())
    }
}

pub open spec fn schema_obj(s: Schema) -> Seq<char> {
    "{\"name\":"@ + json_string(s.name@) + ",\"tables\":["@ + tables_text(s.tables@) + "]}"@
}

pub open spec fn schemas_text(ss: Seq<Schema>) -> Seq<char>
    decreases ss.len(),
{
    if ss.len() == 0 {
        Seq::empty()
    } else if ss.len() == 1 {
        schema_obj(ss[0])
    } else {
        schemas_text(ss.drop_last()) + ","@ + schema_obj(ss.last())
    }
}

/// The wire text of the whole tree: a JSON array of schema objects, each
/// with its name and its table objects, each of those with its name and
/// its column objects.
pub open spec fn schema_tree_text(ss: Seq<Schema>) -> Seq<char> {
    "["@ + schemas_text(ss) + "]"@
}

fn append_scols(out: &mut String, cs: &Vec<Column>)
    ensures
        final(out)@ == old(out)@ + scols_text(cs@),
{
    let mut i: usize = 0;
    while i < cs.len()
        invariant
            i <= cs@.len(),
            out@ == old(out)@ + scols_text(cs@.take(i as int)),
        decreases cs@.len() - i,
    {
        if i > 0 {
            out.append(",");
        }
        let e = &cs[i];
        out.append("{\"name\":");
        append_json_string(out, e.name.as_str());
        out.append(",\"data_type\":");
        append_json_string(out, e.data_type.as_str());
        out.append("}");
        proof {
            assert(cs@.take(i + 1).drop_last() =~= cs@.take(i as int));
            assert(cs@.take(i + 1).last() == cs@[i as int]);
        }
        i += 1;
    }
    proof {
        assert(cs@.take(cs@.len() as int) =~= cs@);
    }
}

fn append_table(out: &mut String, t: &Table)
    ensures
        final(out)@ == old(out)@ + table_obj(*t),
{
    out.append("{\"name\":");
    append_json_string(out, t.name.as_str());
    out.append(",\"columns\":[");
    append_scols(out, &t.columns);
    out.append("]}");
}

fn append_schema(out: &mut String, s: &Schema)
    ensures
        final(out)@ == old(out)@ + schema_obj(*s),
{
    out.append("{\"name\":");
    append_json_string(out, s.name.as_str());
    out.append(",\"tables\":[");
    let ghost pre = out@;
    let mut i: usize = 0;
    while i < s.tables.len()
        invariant
            i <= s.tables@.len(),
            out@ == pre + tables_text(s.tables@.take(i as int)),
        decreases s.tables@.len() - i,
    {
        if i > 0 {
            out.append(",");
        }
        append_table(out, &s.tables[i]);
        proof {
            assert(s.tables@.take(i + 1).drop_last() =~= s.tables@.take(i as int));
            assert(s.tables@.take(i + 1).last() == s.tables@[i as int]);
        }
        i += 1;
    }
    proof {
        assert(s.tables@.take(s.tables@.len() as int) =~= s.tables@);
    }
    out.append("]}");
}

/// Serializes the tree as its wire text.
pub fn encode_schemas(ss: &Vec<Schema>) -> (r: String)
    ensures
        r@ == schema_tree_text(ss@),
{
    let mut out = String::new();
    out.append("[");
    let ghost pre = out@;
    let mut i: usize = 0;
    while i < ss.len()
        invariant
            i <= ss@.len(),
            out@ == pre + schemas_text(ss@.take(i as int)),
        decreases ss@.len() - i,
    {
        if i > 0 {
            out.append(",");
        }
        append_schema(&mut out, &ss[i]);
        proof {
            assert(ss@.take(i + 1).drop_last() =~= ss@.take(i as int));
            assert(ss@.take(i + 1).last() == ss@[i as int]);
        }
        i += 1;
    }
    proof {
        assert(ss@.take(ss@.len() as int) =~= ss@);
    }
    out.append("]");
    out
}

} // verus!
