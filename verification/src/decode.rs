//! The finite mapping from a column's declared database type to its decode
//! rule, and the null-tolerant decoding of one cell into a JSON value.
use vstd::prelude::*;
use vstd::string::*;
use crate::value::JsonVal;

verus! {

/// The decode rule a column type is dispatched to. Every type outside the
/// supported set maps to `Unsupported`, which decodes to JSON null.
#[derive(PartialEq, Eq, Structural, Clone, Copy, Debug)]
pub enum TypeKind {
    Int4,
    Int8,
    Float,
    Bool,
    Text,
    Bytes,
    Date,
    Timestamp,
    TimestampTz,
    Time,
    Uuid,
    Json,
    Unsupported,
}

/// The dispatch table over the wire type's canonical name: both integer
/// widths keep their width, both float widths share one rule, `varchar`
/// and `text` share the text rule, and `json`/`jsonb` pass through.
pub open spec fn kind_of_name(n: Seq<char>) -> TypeKind {
    if n == "int4"@ {
        TypeKind::Int4
    } else if n == "int8"@ {
        TypeKind::Int8
    } else if n == "float4"@ || n == "float8"@ {
        TypeKind::Float
    } else if n == "bool"@ {
        TypeKind::Bool
    } else if n == "varchar"@ || n == "text"@ {
        TypeKind::Text
    } else if n == "bytea"@ {
        TypeKind::Bytes
    } else if n == "date"@ {
        TypeKind::Date
    } else if n == "timestamp"@ {
        TypeKind::Timestamp
    } else if n == "timestamptz"@ {
        TypeKind::TimestampTz
    } else if n == "time"@ {
        TypeKind::Time
    } else if n == "uuid"@ {
        TypeKind::Uuid
    } else if n == "json"@ || n == "jsonb"@ {
        TypeKind::Json
    } else {
        TypeKind::Unsupported
    }
}

fn str_eq_lit(a: &str, b: &str) -> (r: bool)
    ensures
        r == (a@ == b@),
{
    let sa = a.to_owned();
    let sb = b.to_owned();
    sa == sb
}

/// Looks a declared type name up in the dispatch table.
pub fn kind_of_type(name: &str) -> (k: TypeKind)
    ensures
        k == kind_of_name(name@),
{
    if str_eq_lit(name, "int4") {
        TypeKind::Int4
    } else if str_eq_lit(name, "int8") {
        TypeKind::Int8
    } else if str_eq_lit(name, "float4") || str_eq_lit(name, "float8") {
        TypeKind::Float
    } else if str_eq_lit(name, "bool") {
        TypeKind::Bool
    } else if str_eq_lit(name, "varchar") || str_eq_lit(name, "text") {
        TypeKind::Text
    } else if str_eq_lit(name, "bytea") {
        TypeKind::Bytes
    } else if str_eq_lit(name, "date") {
        TypeKind::Date
    } else if str_eq_lit(name, "timestamp") {
        TypeKind::Timestamp
    } else if str_eq_lit(name, "timestamptz") {
        TypeKind::TimestampTz
    } else if str_eq_lit(name, "time") {
        TypeKind::Time
    } else if str_eq_lit(name, "uuid") {
        TypeKind::Uuid
    } else if str_eq_lit(name, "json") || str_eq_lit(name, "jsonb") {
        TypeKind::Json
    } else {
        TypeKind::Unsupported
    }
}

/// What the driver handed over for one cell, already read at the plain
/// type its column's kind calls for. `Absent` is a SQL null. `Number`
/// carries a float already rendered as a JSON number token; `Chars`
/// carries text, or the conventional string form of a date, time or
/// identifier value.
pub enum RawCell {
    Absent,
    Int32(i32),
    Int64(i64),
    Number(String),
    Truth(bool),
    Chars(String),
    Blob(Vec<u8>),
    Tree(serde_json::Value),
}

/// The decode rule: an unsupported column type yields JSON null whatever
/// the cell holds; a SQL null yields JSON null under every kind; a value
/// read at the kind's own type keeps its shape; a value whose shape does
/// not belong to the kind also collapses to JSON null.
pub open spec fn decode_spec(k: TypeKind, raw: RawCell) -> JsonVal {
    if k is Unsupported {
        JsonVal::Null
    } else {
        match raw {
            RawCell::Absent => JsonVal::Null,
            RawCell::Int32(x) => if k is Int4 {
                JsonVal::Int(x as i64)
            } else {
                JsonVal::Null
            },
            RawCell::Int64(x) => if k is Int8 {
                JsonVal::Int(x)
            } else {
                JsonVal::Null
            },
            RawCell::Number(s) => if k is Float {
                JsonVal::Num(s)
            } else {
                JsonVal::Null
            },
            RawCell::Truth(b) => if k is Bool {
                JsonVal::Bool(b)
            } else {
                JsonVal::Null
            },
            RawCell::Chars(s) => if k is Text || k is Date || k is Timestamp || k is TimestampTz
                || k is Time || k is Uuid {
                JsonVal::Str(s)
            } else {
                JsonVal::Null
            },
            RawCell::Blob(b) => if k is Bytes {
                JsonVal::Bytes(b)
            } else {
                JsonVal::Null
            },
            RawCell::Tree(v) => if k is Json {
                JsonVal::Json(v)
            } else {
                JsonVal::Null
            },
        }
    }
}

/// Decodes one cell under the column's kind.
pub fn decode_cell(k: TypeKind, raw: RawCell) -> (r: JsonVal)
    ensures
        r == decode_spec(k, raw),
{
    if let TypeKind::Unsupported = k {
        return JsonVal::Null;
    }
    match raw {
        RawCell::Absent => JsonVal::Null,
        RawCell::Int32(x) => if let TypeKind::Int4 = k {
            JsonVal::Int(x as i64)
        } else {
            JsonVal::Null
        },
        RawCell::Int64(x) => if let TypeKind::Int8 = k {
            JsonVal::Int(x)
        } else {
            JsonVal::Null
        },
        RawCell::Number(s) => if let TypeKind::Float = k {
            JsonVal::Num(s)
        } else {
            JsonVal::Null
        },
        RawCell::Truth(b) => if let TypeKind::Bool = k {
            JsonVal::Bool(b)
        } else {
            JsonVal::Null
        },
        RawCell::Chars(s) => match k {
            TypeKind::Text | TypeKind::Date | TypeKind::Timestamp | TypeKind::TimestampTz
                | TypeKind::Time | TypeKind::Uuid => JsonVal::Str(s),
            _ => JsonVal::Null,
        },
        RawCell::Blob(b) => if let TypeKind::Bytes = k {
            JsonVal::Bytes(b)
        } else {
            JsonVal::Null
        },
        RawCell::Tree(v) => if let TypeKind::Json = k {
            JsonVal::Json(v)
        } else {
            JsonVal::Null
        },
    }
}

} // verus!
