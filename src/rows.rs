//! Materialization of result rows as a JSON array of objects.
use vstd::prelude::*;

verus! {

/// The quoted, escaped JSON string literal for a text (`serde_json::to_string`
/// on a `str`).
pub uninterp spec fn json_quoted(s: Seq<char>) -> Seq<char>;

/// `serde_json::Error`, the failure of a serialization, carried opaquely.
#[verifier::external_type_specification]
#[verifier::external_body]
pub struct ExJsonError(serde_json::Error);

/// Relies on `serde_json::to_string`, applied to a `str`: the JSON string
/// literal that encodes it. A `str` is written into a `Vec<u8>` by
/// `serialize_str`, which has no failing path, so the call always succeeds.
#[verifier::external_body]
fn quote_json(s: &str) -> (r: Result<String, serde_json::Error>)
    ensures
        r is Ok,
        r matches Ok(t) ==> t@ == json_quoted(s@),
{
    serde_json::to_string(s)
}

/// The JSON string literal for `s`.
fn quoted(s: &str) -> (r: String)
    ensures
        r@ == json_quoted(s@),
{
    match quote_json(s) {
        Ok(t) => t,
        Err(_) => {
            proof {
                assert(false);
            }
            String::new()
        },
    }
}

pub open spec fn digit_chars() -> Seq<char> {
    seq!['0', '1', '2', '3', '4', '5', '6', '7', '8', '9']
}

/// The decimal digits of a natural number, without leading zeros.
pub open spec fn nat_text(n: nat) -> Seq<char>
    decreases n,
{
    if n < 10 {
        seq![digit_chars()[n as int]]
    } else {
        nat_text(n / 10) + seq![digit_chars()[(n % 10) as int]]
    }
}

/// The decimal text of an integer, with a leading `-` when negative.
pub open spec fn int_text(n: int) -> Seq<char> {
    if n < 0 {
        seq!['-'] + nat_text((-n) as nat)
    } else {
        nat_text(n as nat)
    }
}

fn digit_text(d: u64) -> (r: &'static str)
    requires
        d < 10,
    ensures
        r@ == seq![digit_chars()[d as int]],
{
    proof {
        reveal_strlit("0123456789");
        assert("0123456789"@ =~= digit_chars());
    }
    let all = "0123456789";
    let r = all.substring_char(d as usize, d as usize + 1);
    proof {
        assert(r@ =~= seq![digit_chars()[d as int]]);
    }
    r
}

/// The decimal text of an integer.
pub fn decimal_text(n: i64) -> (r: String)
    ensures
        r@ == int_text(n as int),
{
    let neg = n < 0;
    let mut m: u64 = if neg {
        (0i128 - n as i128) as u64
    } else {
        n as u64
    };
    let ghost m0: nat = m as nat;
    let mut s = String::new();
    while m >= 10
        invariant
            nat_text(m0) == nat_text(m as nat) + s@,
        decreases m,
    {
        let d = m % 10;
        let mut t = digit_text(d).to_owned();
        t.append(s.as_str());
        proof {
            assert(nat_text(m as nat) == nat_text((m / 10) as nat) + seq![digit_chars()[d as int]]);
            assert(nat_text(m0) =~= nat_text((m / 10) as nat) + t@);
        }
        s = t;
        m = m / 10;
    }
    let mut t = digit_text(m).to_owned();
    t.append(s.as_str());
    proof {
        assert(nat_text(m0) =~= t@);
    }
    if neg {
        proof {
            reveal_strlit("-");
            assert("-"@ =~= seq!['-']);
        }
        let mut u = "-".to_owned();
        u.append(t.as_str());
        u
    } else {
        t
    }
}

/// What the driver yields for one cell when asked for each type in turn; a
/// float is given by its JSON number text and only when finite.
pub struct CellProbe {
    pub text: Option<String>,
    pub int32: Option<i32>,
    pub int64: Option<i64>,
    pub float_text: Option<String>,
    pub boolean: Option<bool>,
}

/// A typed scalar of a result row.
pub enum Scalar {
    Str(String),
    Int(i64),
    /// A finite float, by its JSON number text.
    Float(String),
    Bool(bool),
    Null,
}

/// The mathematical value of a [`Scalar`].
pub enum ScalarView {
    Str(Seq<char>),
    Int(int),
    Float(Seq<char>),
    Bool(bool),
    Null,
}

impl View for Scalar {
    type V = ScalarView;

    open spec fn view(&self) -> ScalarView {
        match self {
            Scalar::Str(s) => ScalarView::Str(s@),
            Scalar::Int(n) => ScalarView::Int(*n as int),
            Scalar::Float(t) => ScalarView::Float(t@),
            Scalar::Bool(b) => ScalarView::Bool(*b),
            Scalar::Null => ScalarView::Null,
        }
    }
}

/// The scalar a cell surfaces as: the first type present in the order
/// string, 32-bit integer, 64-bit integer, float, boolean; otherwise null.
pub open spec fn probe_outcome(p: CellProbe) -> ScalarView {
    match p.text {
        Some(s) => ScalarView::Str(s@),
        None => match p.int32 {
            Some(n) => ScalarView::Int(n as int),
            None => match p.int64 {
                Some(n) => ScalarView::Int(n as int),
                None => match p.float_text {
                    Some(t) => ScalarView::Float(t@),
                    None => match p.boolean {
                        Some(b) => ScalarView::Bool(b),
                        None => ScalarView::Null,
                    },
                },
            },
        },
    }
}

/// Picks the scalar a cell surfaces as.
pub fn row_to_json_value(p: &CellProbe) -> (r: Scalar)
    ensures
        r@ == probe_outcome(*p),
{
    match &p.text {
        Some(s) => Scalar::Str(s.clone()),
        None => match p.int32 {
            Some(n) => Scalar::Int(n as i64),
            None => match p.int64 {
                Some(n) => Scalar::Int(n),
                None => match &p.float_text {
                    Some(t) => Scalar::Float(t.clone()),
                    None => match p.boolean {
                        Some(b) => Scalar::Bool(b),
                        None => Scalar::Null,
                    },
                },
            },
        },
    }
}

/// A named cell of a result row.
pub struct Column {
    pub name: String,
    pub value: CellProbe,
}

/// A row's entry as a name and a scalar.
pub open spec fn column_entry(c: Column) -> (Seq<char>, ScalarView) {
    (c.name@, probe_outcome(c.value))
}

/// Where name `n` stands among the entries `d`, if it does.
pub open spec fn name_pos(d: Seq<(Seq<char>, ScalarView)>, n: Seq<char>) -> Option<int> {
    if exists|p: int| 0 <= p < d.len() && d[p].0 == n {
        Some(choose|p: int| 0 <= p < d.len() && d[p].0 == n)
    } else {
        None
    }
}

/// No name occurs twice.
pub open spec fn unique_names(d: Seq<(Seq<char>, ScalarView)>) -> bool {
    forall|i: int, j: int| 0 <= i < j < d.len() ==> #[trigger] d[i].0 != #[trigger] d[j].0
}

/// The entries of a row's object, in column order: a repeated column name
/// keeps the position where it first appeared and the value it last had.
pub open spec fn entries_of(row: Seq<Column>) -> Seq<(Seq<char>, ScalarView)>
    decreases row.len(),
{
    if row.len() == 0 {
        seq![]
    } else {
        let d = entries_of(row.drop_last());
        let e = column_entry(row.last());
        match name_pos(d, e.0) {
            Some(p) => d.update(p, e),
            None => d.push(e),
        }
    }
}

/// The JSON text of a scalar.
pub open spec fn scalar_json(v: ScalarView) -> Seq<char> {
    match v {
        ScalarView::Str(s) => json_quoted(s),
        ScalarView::Int(n) => int_text(n),
        ScalarView::Float(t) => t,
        ScalarView::Bool(b) => if b {
            "true"@
        } else {
            "false"@
        },
        ScalarView::Null => "null"@,
    }
}

pub open spec fn member_json(e: (Seq<char>, ScalarView)) -> Seq<char> {
    json_quoted(e.0) + seq![':'] + scalar_json(e.1)
}

/// The members of an object, separated by commas.
pub open spec fn members_json(d: Seq<(Seq<char>, ScalarView)>) -> Seq<char>
    decreases d.len(),
{
    if d.len() == 0 {
        seq![]
    } else if d.len() == 1 {
        member_json(d[0])
    } else {
        members_json(d.drop_last()) + seq![','] + member_json(d.last())
    }
}

/// The JSON object of one row.
pub open spec fn object_json(row: Seq<Column>) -> Seq<char> {
    seq!['{'] + members_json(entries_of(row)) + seq!['}']
}

/// The objects of several rows, separated by commas.
pub open spec fn objects_json(rows: Seq<Vec<Column>>) -> Seq<char>
    decreases rows.len(),
{
    if rows.len() == 0 {
        seq![]
    } else if rows.len() == 1 {
        object_json(rows[0]@)
    } else {
        objects_json(rows.drop_last()) + seq![','] + object_json(rows.last()@)
    }
}

/// The JSON array of rows.
pub open spec fn array_json(rows: Seq<Vec<Column>>) -> Seq<char> {
    seq!['['] + objects_json(rows) + seq![']']
}

/// The first result set that holds a row, or no rows when none does.
pub open spec fn first_rows(sets: Seq<Vec<Vec<Column>>>) -> Seq<Vec<Column>>
    decreases sets.len(),
{
    if sets.len() == 0 {
        seq![]
    } else if sets[0]@.len() > 0 {
        sets[0]@
    } else {
        first_rows(sets.subrange(1, sets.len() as int))
    }
}

/// The output of a query whose batch produced `sets`.
pub open spec fn query_json(sets: Seq<Vec<Vec<Column>>>) -> Seq<char> {
    array_json(first_rows(sets))
}

pub open spec fn entries_view(out: Seq<(String, Scalar)>) -> Seq<(Seq<char>, ScalarView)> {
    out.map_values(|e: (String, Scalar)| (e.0@, e.1@))
}

fn find_name(out: &Vec<(String, Scalar)>, name: &str) -> (r: Option<usize>)
    ensures
        r matches Some(p) ==> p < out@.len() && entries_view(out@)[p as int].0 == name@,
        r is None ==> forall|k: int|
            0 <= k < out@.len() ==> entries_view(out@)[k].0 != name@,
{
    let mut j: usize = 0;
    while j < out.len()
        invariant
            j <= out@.len(),
            forall|k: int| 0 <= k < j ==> entries_view(out@)[k].0 != name@,
        decreases out@.len() - j,
    {
        if crate::text::str_eq(out[j].0.as_str(), name) {
            return Some(j);
        }
        j = j + 1;
    }
    None
}

/// The entries of a row's object.
pub fn row_entries(row: &Vec<Column>) -> (r: Vec<(String, Scalar)>)
    ensures
        entries_view(r@) == entries_of(row@),
        unique_names(entries_view(r@)),
{
    let mut out: Vec<(String, Scalar)> = Vec::new();
    let mut i: usize = 0;
    while i < row.len()
        invariant
            i <= row@.len(),
            entries_view(out@) == entries_of(row@.subrange(0, i as int)),
            unique_names(entries_view(out@)),
        decreases row@.len() - i,
    {
        let c = &row[i];
        let ghost d = entries_view(out@);
        let ghost e = column_entry(*c);
        proof {
            assert(row@.subrange(0, i + 1).drop_last() =~= row@.subrange(0, i as int));
            assert(row@.subrange(0, i + 1).last() == *c);
        }
        let found = find_name(&out, c.name.as_str());
        let v = row_to_json_value(&c.value);
        match found {
            Some(p) => {
                proof {
                    let w = choose|q: int| 0 <= q < d.len() && d[q].0 == e.0;
                    assert(d[p as int].0 == e.0);
                    assert(w == p) by {
                        if w < p {
                            assert(d[w].0 != d[p as int].0);
                        } else if w > p {
                            assert(d[p as int].0 != d[w].0);
                        }
                    }
                }
                out.remove(p);
                out.insert(p, (c.name.clone(), v));
                proof {
                    assert(entries_view(out@) =~= d.update(p as int, e));
                }
            },
            None => {
                out.push((c.name.clone(), v));
                proof {
                    assert(entries_view(out@) =~= d.push(e));
                }
            },
        }
        i = i + 1;
    }
    proof {
        assert(row@.subrange(0, row@.len() as int) =~= row@);
    }
    out
}

/// The JSON text of a scalar.
pub fn scalar_text(v: &Scalar) -> (r: String)
    ensures
        r@ == scalar_json(v@),
{
    match v {
        Scalar::Str(s) => quoted(s.as_str()),
        Scalar::Int(n) => decimal_text(*n),
        Scalar::Float(t) => t.clone(),
        Scalar::Bool(b) => if *b {
            "true".to_owned()
        } else {
            "false".to_owned()
        },
        Scalar::Null => "null".to_owned(),
    }
}

/// The JSON object of one row.
pub fn row_to_json(row: &Vec<Column>) -> (r: String)
    ensures
        r@ == object_json(row@),
{
    let d = row_entries(row);
    let ghost dv = entries_view(d@);
    let mut body = String::new();
    let mut i: usize = 0;
    while i < d.len()
        invariant
            i <= d@.len(),
            dv == entries_view(d@),
            body@ == members_json(dv.subrange(0, i as int)),
        decreases d@.len() - i,
    {
        let key = quoted(d[i].0.as_str());
        let val = scalar_text(&d[i].1);
        proof {
            reveal_strlit(",");
            reveal_strlit(":");
            assert(","@ =~= seq![',']);
            assert(":"@ =~= seq![':']);
            assert(dv.subrange(0, i + 1).drop_last() =~= dv.subrange(0, i as int));
            assert(dv.subrange(0, i + 1).last() == dv[i as int]);
        }
        if i > 0 {
            body.append(",");
        }
        body.append(key.as_str());
        body.append(":");
        body.append(val.as_str());
        proof {
            if i == 0 {
                assert(dv.subrange(0, 1) =~= seq![dv[0]]);
            }
            assert(body@ =~= members_json(dv.subrange(0, i + 1)));
        }
        i = i + 1;
    }
    proof {
        reveal_strlit("{");
        reveal_strlit("}");
        assert("{"@ =~= seq!['{']);
        assert("}"@ =~= seq!['}']);
        assert(dv.subrange(0, d@.len() as int) =~= dv);
    }
    let mut out = "{".to_owned();
    out.append(body.as_str());
    out.append("}");
    proof {
        assert(out@ =~= object_json(row@));
    }
    out
}

/// The JSON array of the given rows.
pub fn rows_to_json(rows: &Vec<Vec<Column>>) -> (r: String)
    ensures
        r@ == array_json(rows@),
{
    let mut body = String::new();
    let mut i: usize = 0;
    while i < rows.len()
        invariant
            i <= rows@.len(),
            body@ == objects_json(rows@.subrange(0, i as int)),
        decreases rows@.len() - i,
    {
        let obj = row_to_json(&rows[i]);
        proof {
            reveal_strlit(",");
            assert(","@ =~= seq![',']);
            assert(rows@.subrange(0, i + 1).drop_last() =~= rows@.subrange(0, i as int));
            assert(rows@.subrange(0, i + 1).last() == rows@[i as int]);
        }
        if i > 0 {
            body.append(",");
        }
        body.append(obj.as_str());
        proof {
            if i == 0 {
                assert(rows@.subrange(0, 1) =~= seq![rows@[0]]);
            }
            assert(body@ =~= objects_json(rows@.subrange(0, i + 1)));
        }
        i = i + 1;
    }
    proof {
        reveal_strlit("[");
        reveal_strlit("]");
        assert("["@ =~= seq!['[']);
        assert("]"@ =~= seq![']']);
        assert(rows@.subrange(0, rows@.len() as int) =~= rows@);
    }
    let mut out = "[".to_owned();
    out.append(body.as_str());
    out.append("]");
    proof {
        assert(out@ =~= array_json(rows@));
    }
    out
}

/// The index of the first result set that holds a row, if any.
pub fn first_nonempty(sets: &Vec<Vec<Vec<Column>>>) -> (r: Option<usize>)
    ensures
        r matches Some(i) ==> i < sets@.len() && sets@[i as int]@.len() > 0 && first_rows(sets@)
            == sets@[i as int]@ && forall|j: int| 0 <= j < i ==> (#[trigger] sets@[j])@.len() == 0,
        r is None ==> first_rows(sets@) == Seq::<Vec<Column>>::empty(),
{
    let mut i: usize = 0;
    proof {
        assert(sets@.subrange(0, sets@.len() as int) =~= sets@);
    }
    while i < sets.len()
        invariant
            i <= sets@.len(),
            forall|j: int| 0 <= j < i ==> (#[trigger] sets@[j])@.len() == 0,
            first_rows(sets@) == first_rows(sets@.subrange(i as int, sets@.len() as int)),
        decreases sets@.len() - i,
    {
        proof {
            let rest = sets@.subrange(i as int, sets@.len() as int);
            assert(rest[0] == sets@[i as int]);
            assert(rest.subrange(1, rest.len() as int) =~= sets@.subrange(i + 1, sets@.len() as int));
        }
        if sets[i].len() > 0 {
            return Some(i);
        }
        i = i + 1;
    }
    None
}

/// The output of a query: the rows of the first result set that holds any,
/// as a JSON array of objects; an empty array when no set holds a row.
pub fn execute_select_query(sets: &Vec<Vec<Vec<Column>>>) -> (r: String)
    ensures
        r@ == query_json(sets@),
{
    match first_nonempty(sets) {
        Some(i) => rows_to_json(&sets[i]),
        None => {
            let none: Vec<Vec<Column>> = Vec::new();
            proof {
                assert(none@ =~= Seq::<Vec<Column>>::empty());
            }
            rows_to_json(&none)
        },
    }
}

/// When no result set holds a row, the query output is the empty array.
pub proof fn lemma_no_rows_empty_array(sets: Seq<Vec<Vec<Column>>>)
    requires
        forall|i: int| 0 <= i < sets.len() ==> (#[trigger] sets[i])@.len() == 0,
    ensures
        query_json(sets) == "[]"@,
{
    lemma_no_rows_first_rows(sets);
    reveal_strlit("[]");
    assert(array_json(seq![]) =~= "[]"@);
}

proof fn lemma_no_rows_first_rows(sets: Seq<Vec<Vec<Column>>>)
    requires
        forall|i: int| 0 <= i < sets.len() ==> (#[trigger] sets[i])@.len() == 0,
    ensures
        first_rows(sets) == Seq::<Vec<Column>>::empty(),
    decreases sets.len(),
{
    if sets.len() > 0 {
        let rest = sets.subrange(1, sets.len() as int);
        assert forall|i: int| 0 <= i < rest.len() implies (#[trigger] rest[i])@.len() == 0 by {
            assert(rest[i] == sets[i + 1]);
        }
        lemma_no_rows_first_rows(rest);
    }
}

/// A cell that reads both as a 32-bit integer and as a float (and not as
/// text) surfaces as an integer.
pub proof fn lemma_integer_before_float(p: CellProbe, n: i32)
    requires
        p.text is None,
        p.int32 == Some(n),
        p.float_text is Some,
    ensures
        probe_outcome(p) == ScalarView::Int(n as int),
{
}

} // verus!
