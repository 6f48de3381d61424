//! The dynamically-typed cell values a query result can hold, and their JSON
//! text. `json`/`jsonb` cells carry a `serde_json::Value` through opaquely;
//! its rendered text is named, not restated.
use vstd::prelude::*;
use vstd::string::*;
use crate::text::{dec_int, dec_i64, json_string, append_json_string};

verus! {

#[verifier::external_type_specification]
#[verifier::external_body]
pub struct ExValue(serde_json::Value);

/// The compact JSON text that serde_json writes for a value: a function of
/// the value alone.
pub uninterp spec fn json_text_of(v: serde_json::Value) -> Seq<char>;

/// Relies on serde_json's `Display for Value`: it writes the value as
/// compact JSON text, determined by the value alone.
#[verifier::external_body]
fn json_value_text(v: &serde_json::Value) -> (r: String)
    ensures
        r@ == json_text_of(*v),
{
    v.to_string()
}

/// One decoded cell. `Num` holds a number token already rendered as JSON
/// text (both SQL float widths are handed over this way); it is emitted
/// verbatim.
pub enum JsonVal {
    Null,
    Bool(bool),
    Int(i64),
    Num(String),
    Str(String),
    Bytes(Vec<u8>),
    Json(serde_json::Value),
}

/// The byte values of a `bytea` cell, comma-separated, as JSON renders a
/// byte array.
pub open spec fn byte_items(b: Seq<u8>) -> Seq<char>
    decreases b.len(),
{
    if b.len() == 0 {
        Seq::empty()
    } else if b.len() == 1 {
        dec_int(b[0] as int)
    } else {
        byte_items(b.drop_last()) + seq![','] + dec_int(b.last() as int)
    }
}

/// The JSON text of one cell value.
pub open spec fn val_text(v: JsonVal) -> Seq<char> {
    match v {
        JsonVal::Null => "null"@,
        JsonVal::Bool(b) => if b {
            "true"@
        } else {
            "false"@
        },
        JsonVal::Int(n) => dec_int(n as int),
        JsonVal::Num(s) => s@,
        JsonVal::Str(s) => json_string(s@),
        JsonVal::Bytes(bs) => seq!['['] + byte_items(bs@) + seq![']'],
        JsonVal::Json(j) => json_text_of(j),
    }
}

/// Appends the JSON text of `v`.
pub fn append_value(out: &mut String, v: &JsonVal)
    ensures
        final(out)@ == old(out)@ + val_text(*v),
{
    match v {
        JsonVal::Null => {
            out.append("null");
        },
        JsonVal::Bool(b) => {
            if *b {
                out.append("true");
            } else {
                out.append("false");
            }
        },
        JsonVal::Int(n) => {
            let d = dec_i64(*n);
            out.append(d.as_str());
        },
        JsonVal::Num(s) => {
            out.append(s.as_str());
        },
        JsonVal::Str(s) => {
            append_json_string(out, s.as_str());
        },
        JsonVal::Bytes(bs) => {
            proof {
                reveal_strlit("[");
                reveal_strlit("]");
                reveal_strlit(",");
            }
            out.append("[");
            let mut j: usize = 0;
            while j < bs.len()
                invariant
                    j <= bs.len(),
                    out@ == old(out)@ + seq!['['] + byte_items(bs@.take(j as int)),
                decreases bs.len() - j,
            {
                proof {
                    reveal_strlit(",");
                }
                if j > 0 {
                    out.append(",");
                }
                let d = dec_i64(bs[j] as i64);
                out.append(d.as_str());
                proof {
                    assert(bs@.take(j + 1).drop_last() =~= bs@.take(j as int));
                    assert(bs@.take(j + 1).last() == bs@[j as int]);
                }
                j += 1;
            }
            proof {
                assert(bs@.take(bs@.len() as int) =~= bs@);
            }
            out.append("]");
        },
        JsonVal::Json(j) => {
            let t = json_value_text(j);
            out.append(t.as_str());
        },
    }
}

} // verus!
