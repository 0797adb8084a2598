//! Trusted interface to the `toml` crate's document model.
//!
//! A parsed document is carried as an opaque `toml::Table`; the
//! accessors below hand its contents out as plain values. What a
//! document holds is named by the uninterpreted functions here — the
//! `toml` crate's parse and accessors are functions of the text and
//! the value alone — so the configuration readers built on these
//! accessors carry contracts over the named contents.

use vstd::prelude::*;

verus! {

/// The `toml` crate's key/value map type, carried opaquely.
#[verifier::external_type_specification]
#[verifier::external_body]
#[verifier::reject_recursive_types(K)]
#[verifier::reject_recursive_types(V)]
pub struct ExTomlMap<K, V>(toml::map::Map<K, V>);

/// The `toml` crate's value type, carried opaquely.
#[verifier::external_type_specification]
#[verifier::external_body]
pub struct ExTomlValue(toml::Value);

/// What `toml::from_str::<Table>` returns for a text: the parsed
/// document, or nothing when the text is malformed. Parsing is a
/// function of the text alone.
pub uninterp spec fn doc_of(s: Seq<char>) -> Option<toml::Table>;

/// What `toml::map::Map::get` returns for a table and a key; a lookup
/// is a function of the table and the key.
pub uninterp spec fn table_entry(t: toml::Table, key: Seq<char>) -> Option<toml::Value>;

/// What `toml::map::Map::keys` yields for a table, in the table's own
/// (lexicographic) order.
pub uninterp spec fn table_key_seq(t: toml::Table) -> Seq<Seq<char>>;

/// What `toml::Value::as_str` returns for a value.
pub uninterp spec fn str_payload(v: toml::Value) -> Option<Seq<char>>;

/// What `toml::Value::as_bool` returns for a value.
pub uninterp spec fn bool_payload(v: toml::Value) -> Option<bool>;

/// What `toml::Value::as_integer` returns for a value.
pub uninterp spec fn int_payload(v: toml::Value) -> Option<i64>;

/// What `toml::Value::as_array` holds for a value: the element values,
/// in order.
pub uninterp spec fn array_payload(v: toml::Value) -> Option<Seq<toml::Value>>;

/// What `toml::Value::as_table` holds for a value.
pub uninterp spec fn table_payload(v: toml::Value) -> Option<toml::Table>;

/// Relies on `toml::from_str` for `toml::Table`: parses a document or
/// reports the parse error rendered as text; the outcome is a
/// function of the text.
#[verifier::external_body]
pub fn parse_toml_table(s: &str) -> (r: Result<toml::Table, String>)
    ensures
        r is Ok <==> doc_of(s@) is Some,
        r matches Ok(t) ==> doc_of(s@) == Some(t),
{
    toml::from_str::<toml::Table>(s).map_err(|e| e.to_string())
}

/// Relies on `toml::map::Map::get`: looks a key up in a table.
#[verifier::external_body]
pub fn table_get<'a>(t: &'a toml::Table, key: &str) -> (r: Option<&'a toml::Value>)
    ensures
        match r {
            Some(v) => table_entry(*t, key@) == Some(*v),
            None => table_entry(*t, key@) is None,
        },
{
    t.get(key)
}

/// Relies on `toml::map::Map::keys`: the table's keys, in the table's
/// own (lexicographic) order.
#[verifier::external_body]
pub fn table_keys(t: &toml::Table) -> (r: Vec<String>)
    ensures
        r@.map_values(|k: String| k@) == table_key_seq(*t),
{
    t.keys().cloned().collect()
}

/// Relies on `toml::Value::as_str`: the string payload, if any.
#[verifier::external_body]
pub fn value_as_str(v: &toml::Value) -> (r: Option<String>)
    ensures
        match r {
            Some(s) => str_payload(*v) == Some(s@),
            None => str_payload(*v) is None,
        },
{
    match v.as_str() {
        Some(s) => Some(s.to_owned()),
        None => None,
    }
}

/// Relies on `toml::Value::as_bool`: the boolean payload, if any.
#[verifier::external_body]
pub fn value_as_bool(v: &toml::Value) -> (r: Option<bool>)
    ensures
        r == bool_payload(*v),
{
    v.as_bool()
}

/// Relies on `toml::Value::as_integer`: the integer payload, if any.
#[verifier::external_body]
pub fn value_as_integer(v: &toml::Value) -> (r: Option<i64>)
    ensures
        r == int_payload(*v),
{
    v.as_integer()
}

/// Relies on `toml::Value::as_array`: the array payload, if any.
#[verifier::external_body]
pub fn value_as_array<'a>(v: &'a toml::Value) -> (r: Option<&'a Vec<toml::Value>>)
    ensures
        match r {
            Some(vs) => array_payload(*v) == Some(vs@),
            None => array_payload(*v) is None,
        },
{
    v.as_array()
}

/// Relies on `toml::Value::as_table`: the table payload, if any.
#[verifier::external_body]
pub fn value_as_table<'a>(v: &'a toml::Value) -> (r: Option<&'a toml::Table>)
    ensures
        match r {
            Some(t) => table_payload(*v) == Some(*t),
            None => table_payload(*v) is None,
        },
{
    v.as_table()
}

/// The strings among a sequence of values, in order: the string
/// payloads, other values dropped.
pub open spec fn spec_strings_of(vs: Seq<toml::Value>) -> Seq<Seq<char>>
    decreases vs.len(),
{
    if vs.len() == 0 {
        Seq::empty()
    } else {
        let rest = spec_strings_of(vs.drop_last());
        match str_payload(vs.last()) {
            Some(s) => rest.push(s),
            None => rest,
        }
    }
}

/// The strings among an array's values, in order.
pub fn strings_of_array(vs: &Vec<toml::Value>) -> (r: Vec<String>)
    ensures
        r@.map_values(|s: String| s@) == spec_strings_of(vs@),
{
    let n = vs.len();
    let mut out: Vec<String> = Vec::new();
    let mut i: usize = 0;
    proof {
        assert(vs@.subrange(0, 0) =~= Seq::<toml::Value>::empty());
        assert(out@.map_values(|s: String| s@) =~= spec_strings_of(vs@.subrange(0, 0)));
    }
    while i < n
        invariant
            0 <= i <= n,
            n == vs@.len(),
            out@.map_values(|s: String| s@) == spec_strings_of(vs@.subrange(0, i as int)),
        decreases n - i,
    {
        proof {
            assert(vs@.subrange(0, i + 1).drop_last() =~= vs@.subrange(0, i as int));
            assert(vs@.subrange(0, i + 1).last() == vs@[i as int]);
        }
        let ghost old_out = out@;
        match value_as_str(&vs[i]) {
            Some(s) => {
                out.push(s);
                proof {
                    assert(out@.map_values(|s: String| s@) =~= old_out.map_values(
                        |s: String| s@,
                    ).push(str_payload(vs@[i as int])->0));
                }
            },
            None => {},
        }
        i = i + 1;
    }
    proof {
        assert(vs@.subrange(0, n as int) =~= vs@);
    }
    out
}

/// The string payload of a table entry, if present and a string.
pub open spec fn spec_str_entry(t: toml::Table, key: Seq<char>) -> Option<Seq<char>> {
    match table_entry(t, key) {
        Some(v) => str_payload(v),
        None => None,
    }
}

/// The string payload of a table entry, if present and a string.
pub fn table_get_str(t: &toml::Table, key: &str) -> (r: Option<String>)
    ensures
        match r {
            Some(s) => spec_str_entry(*t, key@) == Some(s@),
            None => spec_str_entry(*t, key@) is None,
        },
{
    match table_get(t, key) {
        Some(v) => value_as_str(v),
        None => None,
    }
}

/// The boolean payload of a table entry, if present and a boolean.
pub open spec fn spec_bool_entry(t: toml::Table, key: Seq<char>) -> Option<bool> {
    match table_entry(t, key) {
        Some(v) => bool_payload(v),
        None => None,
    }
}

/// The boolean payload of a table entry, if present and a boolean.
pub fn table_get_bool(t: &toml::Table, key: &str) -> (r: Option<bool>)
    ensures
        r == spec_bool_entry(*t, key@),
{
    match table_get(t, key) {
        Some(v) => value_as_bool(v),
        None => None,
    }
}

/// The strings of an array-valued table entry, or nothing when absent
/// or not an array.
pub open spec fn spec_str_array_entry(t: toml::Table, key: Seq<char>) -> Option<Seq<Seq<char>>> {
    match table_entry(t, key) {
        Some(v) => match array_payload(v) {
            Some(vs) => Some(spec_strings_of(vs)),
            None => None,
        },
        None => None,
    }
}

/// The string-array payload of a table entry: the strings among its
/// values, or nothing when absent or not an array.
pub fn table_get_str_array(t: &toml::Table, key: &str) -> (r: Option<Vec<String>>)
    ensures
        match r {
            Some(ss) => spec_str_array_entry(*t, key@) == Some(
                ss@.map_values(|s: String| s@),
            ),
            None => spec_str_array_entry(*t, key@) is None,
        },
{
    match table_get(t, key) {
        Some(v) => match value_as_array(v) {
            Some(vs) => Some(strings_of_array(vs)),
            None => None,
        },
        None => None,
    }
}

/// The table payload of a table entry, if present and a table.
pub open spec fn spec_table_entry(t: toml::Table, key: Seq<char>) -> Option<toml::Table> {
    match table_entry(t, key) {
        Some(v) => table_payload(v),
        None => None,
    }
}

/// The tables among a sequence of values, in order: the table
/// payloads, other values dropped.
pub open spec fn spec_tables_of(vs: Seq<toml::Value>) -> Seq<toml::Table>
    decreases vs.len(),
{
    if vs.len() == 0 {
        Seq::empty()
    } else {
        let rest = spec_tables_of(vs.drop_last());
        match table_payload(vs.last()) {
            Some(t) => rest.push(t),
            None => rest,
        }
    }
}

/// The tables of an array-valued entry: the table payloads of the
/// array's elements, or nothing at all when the entry is absent or not
/// an array.
pub open spec fn spec_array_tables_entry(t: toml::Table, key: Seq<char>) -> Seq<toml::Table> {
    match table_entry(t, key) {
        Some(v) => match array_payload(v) {
            Some(vs) => spec_tables_of(vs),
            None => Seq::empty(),
        },
        None => Seq::empty(),
    }
}

/// Reads the table-valued entries of an array-of-tables key.
pub fn tables_of<'a>(t: &'a toml::Table, key: &str) -> (r: Vec<&'a toml::Table>)
    ensures
        r@.map_values(|x: &toml::Table| *x) == spec_array_tables_entry(*t, key@),
{
    let mut out: Vec<&'a toml::Table> = Vec::new();
    let ghost m = |x: &toml::Table| *x;
    match table_get(t, key) {
        Some(v) => match value_as_array(v) {
            Some(vs) => {
                let n = vs.len();
                let mut i: usize = 0;
                proof {
                    assert(vs@.subrange(0, 0) =~= Seq::<toml::Value>::empty());
                    assert(out@.map_values(m) =~= spec_tables_of(vs@.subrange(0, 0)));
                }
                while i < n
                    invariant
                        0 <= i <= n,
                        n == vs@.len(),
                        m == |x: &toml::Table| *x,
                        out@.map_values(m) == spec_tables_of(vs@.subrange(0, i as int)),
                    decreases n - i,
                {
                    proof {
                        assert(vs@.subrange(0, i + 1).drop_last() =~= vs@.subrange(0, i as int));
                        assert(vs@.subrange(0, i + 1).last() == vs@[i as int]);
                    }
                    let ghost old_out = out@;
                    match value_as_table(&vs[i]) {
                        Some(entry) => {
                            out.push(entry);
                            proof {
                                assert(out@.map_values(m) =~= old_out.map_values(m).push(
                                    table_payload(vs@[i as int])->0,
                                ));
                            }
                        },
                        None => {},
                    }
                    i = i + 1;
                }
                proof {
                    assert(vs@.subrange(0, n as int) =~= vs@);
                }
            },
            None => {
                proof {
                    assert(out@.map_values(m) =~= Seq::<toml::Table>::empty());
                }
            },
        },
        None => {
            proof {
                assert(out@.map_values(m) =~= Seq::<toml::Table>::empty());
            }
        },
    }
    out
}

} // verus!
