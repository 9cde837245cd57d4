//! Decoding of the service's flat `{id, val}` entry arrays against a static
//! table of known field ids, each with a field name and a value kind.

use crate::text::{decimal_value, integer_value, parse_decimal, parse_integer, Decimal};
use vstd::prelude::*;
use vstd::string::*;

verus! {

/// One `{id, val}` pair of a response array.
#[derive(Clone, Debug)]
pub struct FieldEntry {
    pub id: String,
    pub val: String,
}

impl View for FieldEntry {
    type V = (Seq<char>, Seq<char>);

    open spec fn view(&self) -> (Seq<char>, Seq<char>) {
        (self.id@, self.val@)
    }
}

impl FieldEntry {
    pub fn new(id: &str, val: &str) -> (r: Self)
        ensures
            r@ == (id@, val@),
    {
        FieldEntry { id: id.to_owned(), val: val.to_owned() }
    }
}

/// How the `val` text of a field is read.
#[derive(Clone, Copy, Debug, PartialEq, Eq, Structural)]
pub enum FieldKind {
    /// A fixed-point decimal (voltages, currents, frequencies).
    Decimal,
    /// A signed integer within `min..=max` (powers, percentages).
    Integer { min: i64, max: i64 },
    /// Text passed through unchanged (model names, firmware versions).
    Text,
}

/// One row of a field table: the id on the wire, the record field it fills,
/// and how its value is read.
#[derive(Clone, Debug)]
pub struct FieldSpec {
    pub id: String,
    pub name: String,
    pub kind: FieldKind,
}

impl View for FieldSpec {
    type V = (Seq<char>, Seq<char>, FieldKind);

    open spec fn view(&self) -> (Seq<char>, Seq<char>, FieldKind) {
        (self.id@, self.name@, self.kind)
    }
}

/// A decoded field value.
#[derive(Clone, Debug)]
pub enum FieldValue {
    Decimal(Decimal),
    Integer(i64),
    Text(String),
}

/// The mathematical value of a decoded field.
pub enum Reading {
    Decimal { mantissa: int, scale: nat },
    Integer(int),
    Text(Seq<char>),
}

pub open spec fn decimal_view(d: Decimal) -> Reading {
    Reading::Decimal { mantissa: d.mantissa as int, scale: d.scale as nat }
}

impl View for FieldValue {
    type V = Reading;

    open spec fn view(&self) -> Reading {
        match self {
            FieldValue::Decimal(d) => decimal_view(*d),
            FieldValue::Integer(v) => Reading::Integer(*v as int),
            FieldValue::Text(s) => Reading::Text(s@),
        }
    }
}

/// Why a payload could not be decoded.
#[derive(Clone, Debug)]
pub enum DecodeError {
    /// No entry carried the id of this record field (its name).
    MissingField(String),
    /// The entry with this id held text that its kind does not accept.
    InvalidValue(String, String),
    /// The timestamp text is not a `YYYY-MM-DD HH:MM:SS` date-time.
    InvalidTimestamp(String),
    /// The payload does not have the shape of an entry array.
    Malformed,
}

pub enum DecodeFailure {
    MissingField(Seq<char>),
    InvalidValue(Seq<char>, Seq<char>),
    InvalidTimestamp(Seq<char>),
    Malformed,
}

impl View for DecodeError {
    type V = DecodeFailure;

    open spec fn view(&self) -> DecodeFailure {
        match self {
            DecodeError::MissingField(n) => DecodeFailure::MissingField(n@),
            DecodeError::InvalidValue(i, v) => DecodeFailure::InvalidValue(i@, v@),
            DecodeError::InvalidTimestamp(t) => DecodeFailure::InvalidTimestamp(t@),
            DecodeError::Malformed => DecodeFailure::Malformed,
        }
    }
}

pub type Entries = Seq<(Seq<char>, Seq<char>)>;

pub type Table = Seq<(Seq<char>, Seq<char>, FieldKind)>;

pub open spec fn entries_view(es: Seq<FieldEntry>) -> Entries {
    es.map_values(|e: FieldEntry| e@)
}

pub open spec fn table_view(t: Seq<FieldSpec>) -> Table {
    t.map_values(|f: FieldSpec| f@)
}

pub open spec fn values_view(vs: Seq<FieldValue>) -> Seq<Reading> {
    vs.map_values(|v: FieldValue| v@)
}

/// The `val` of the first entry whose id is `id`.
pub open spec fn value_of(entries: Entries, id: Seq<char>) -> Option<Seq<char>>
    decreases entries.len(),
{
    if entries.len() == 0 {
        None
    } else if entries[0].0 == id {
        Some(entries[0].1)
    } else {
        value_of(entries.drop_first(), id)
    }
}

/// What a field of kind `kind` holds when its text is `raw`.
pub open spec fn parse_value(kind: FieldKind, raw: Seq<char>) -> Option<Reading> {
    match kind {
        FieldKind::Decimal => match decimal_value(raw) {
            Some((m, sc)) => if -i64::MAX <= m <= i64::MAX {
                Some(Reading::Decimal { mantissa: m, scale: sc })
            } else {
                None
            },
            None => None,
        },
        FieldKind::Integer { min, max } => match integer_value(raw) {
            Some(v) => if min <= v <= max {
                Some(Reading::Integer(v))
            } else {
                None
            },
            None => None,
        },
        FieldKind::Text => Some(Reading::Text(raw)),
    }
}

/// Decoding of `entries` against `table`: the values in table order, or the
/// first row (in table order) whose id is absent or whose text is refused.
pub open spec fn decode_spec(table: Table, entries: Entries) -> Result<Seq<Reading>, DecodeFailure>
    decreases table.len(),
{
    if table.len() == 0 {
        Ok(Seq::empty())
    } else {
        match decode_spec(table.drop_last(), entries) {
            Err(e) => Err(e),
            Ok(prev) => {
                let (id, name, kind) = table.last();
                match value_of(entries, id) {
                    None => Err(DecodeFailure::MissingField(name)),
                    Some(raw) => match parse_value(kind, raw) {
                        None => Err(DecodeFailure::InvalidValue(id, raw)),
                        Some(v) => Ok(prev.push(v)),
                    },
                }
            },
        }
    }
}

/// The `val` of the first entry with id `id`.
pub fn find_value<'a>(entries: &'a Vec<FieldEntry>, id: &String) -> (r: Option<&'a String>)
    ensures
        r is Some <==> value_of(entries_view(entries@), id@) is Some,
        r is Some ==> r->0@ == value_of(entries_view(entries@), id@)->0,
{
    let ghost es = entries_view(entries@);
    let mut i: usize = 0;
    assert(es.skip(0) =~= es);
    while i < entries.len()
        invariant
            i <= entries@.len(),
            es == entries_view(entries@),
            value_of(es, id@) == value_of(es.skip(i as int), id@),
        decreases entries@.len() - i,
    {
        assert(es.skip(i as int)[0] == entries@[i as int]@);
        if entries[i].id == *id {
            return Some(&entries[i].val);
        }
        assert(es.skip(i as int).drop_first() =~= es.skip(i + 1));
        i = i + 1;
    }
    None
}

/// Reads the text `raw` as a value of kind `kind`.
pub fn parse_field(kind: FieldKind, raw: &String) -> (r: Option<FieldValue>)
    ensures
        r is Some <==> parse_value(kind, raw@) is Some,
        r is Some ==> r->0@ == parse_value(kind, raw@)->0,
{
    match kind {
        FieldKind::Decimal => match parse_decimal(raw.as_str()) {
            Some(d) => Some(FieldValue::Decimal(d)),
            None => None,
        },
        FieldKind::Integer { min, max } => {
            match parse_integer(raw.as_str(), min, max) {
                Some(v) => Some(FieldValue::Integer(v)),
                None => None,
            }
        },
        FieldKind::Text => Some(FieldValue::Text(raw.clone())),
    }
}

pub proof fn lemma_decode_prefix_err(table: Table, entries: Entries, i: int)
    requires
        0 <= i <= table.len(),
        decode_spec(table.take(i), entries) is Err,
    ensures
        decode_spec(table, entries) == decode_spec(table.take(i), entries),
    decreases table.len(),
{
    if i == table.len() {
        assert(table.take(i) =~= table);
    } else {
        assert(table.drop_last().take(i) =~= table.take(i));
        lemma_decode_prefix_err(table.drop_last(), entries, i);
    }
}

/// Decodes `entries` against `table`: every row must find its id among the
/// entries (the first match counts) with text that its kind accepts; unknown
/// ids are skipped.
pub fn decode_fields(table: &Vec<FieldSpec>, entries: &Vec<FieldEntry>) -> (r: Result<
    Vec<FieldValue>,
    DecodeError,
>)
    ensures
        match r {
            Ok(vs) => decode_spec(table_view(table@), entries_view(entries@)) == Ok::<
                Seq<Reading>,
                DecodeFailure,
            >(values_view(vs@)),
            Err(e) => decode_spec(table_view(table@), entries_view(entries@)) == Err::<
                Seq<Reading>,
                DecodeFailure,
            >(e@),
        },
{
    let ghost t = table_view(table@);
    let ghost es = entries_view(entries@);
    let mut out: Vec<FieldValue> = Vec::new();
    let mut i: usize = 0;
    assert(t.take(0) =~= Seq::<(Seq<char>, Seq<char>, FieldKind)>::empty());
    assert(values_view(out@) =~= Seq::<Reading>::empty());
    while i < table.len()
        invariant
            i <= table@.len(),
            t == table_view(table@),
            es == entries_view(entries@),
            decode_spec(t.take(i as int), es) == Ok::<Seq<Reading>, DecodeFailure>(
                values_view(out@),
            ),
        decreases table@.len() - i,
    {
        let ghost before = out@;
        assert(t.take(i + 1).drop_last() =~= t.take(i as int));
        assert(t.take(i + 1).last() == table@[i as int]@);
        let row = &table[i];
        match find_value(entries, &row.id) {
            None => {
                proof {
                    lemma_decode_prefix_err(t, es, i + 1);
                }
                return Err(DecodeError::MissingField(row.name.clone()));
            },
            Some(raw) => match parse_field(row.kind, raw) {
                None => {
                    proof {
                        lemma_decode_prefix_err(t, es, i + 1);
                    }
                    return Err(DecodeError::InvalidValue(row.id.clone(), raw.clone()));
                },
                Some(v) => {
                    out.push(v);
                    assert(values_view(out@) =~= values_view(before).push(v@));
                },
            },
        }
        i = i + 1;
    }
    assert(t.take(i as int) =~= t);
    Ok(out)
}

/// Where the first entry with `id` is, and that an entry with `id` exists
/// exactly when one is found.
pub proof fn lemma_value_of(entries: Entries, id: Seq<char>)
    ensures
        value_of(entries, id) is Some <==> exists|j: int|
            0 <= j < entries.len() && (#[trigger] entries[j]).0 == id,
        value_of(entries, id) is Some ==> exists|j: int|
            0 <= j < entries.len() && #[trigger] entries[j] == (id, value_of(entries, id)->0),
    decreases entries.len(),
{
    if entries.len() > 0 {
        let rest = entries.drop_first();
        lemma_value_of(rest, id);
        if entries[0].0 == id {
            assert(entries[0] == (id, value_of(entries, id)->0));
        } else {
            if exists|j: int| 0 <= j < entries.len() && (#[trigger] entries[j]).0 == id {
                let j = choose|j: int| 0 <= j < entries.len() && (#[trigger] entries[j]).0 == id;
                assert(rest[j - 1] == entries[j]);
            }
            if value_of(rest, id) is Some {
                let j = choose|j: int|
                    0 <= j < rest.len() && #[trigger] rest[j] == (id, value_of(rest, id)->0);
                assert(entries[j + 1] == rest[j]);
            }
        }
    }
}

/// A decoding that succeeds holds, for each row, the value that the row's
/// kind reads from the first entry with the row's id.
pub proof fn lemma_decode_ok_inverse(table: Table, entries: Entries)
    requires
        decode_spec(table, entries) is Ok,
    ensures
        ({
            let vs = decode_spec(table, entries)->Ok_0;
            &&& vs.len() == table.len()
            &&& forall|i: int|
                0 <= i < table.len() ==> {
                    &&& value_of(entries, (#[trigger] table[i]).0) is Some
                    &&& parse_value(table[i].2, value_of(entries, table[i].0)->0) is Some
                    &&& vs[i] == parse_value(table[i].2, value_of(entries, table[i].0)->0)->0
                }
        }),
    decreases table.len(),
{
    if table.len() > 0 {
        lemma_decode_ok_inverse(table.drop_last(), entries);
        assert forall|i: int| 0 <= i < table.len() - 1 implies table.drop_last()[i] == table[i] by {}
    }
}

/// Decoding succeeds when every row finds its id with accepted text, and then
/// holds what each row's kind reads from that text.
pub proof fn lemma_decode_ok(table: Table, entries: Entries)
    requires
        forall|i: int|
            0 <= i < table.len() ==> {
                &&& value_of(entries, (#[trigger] table[i]).0) is Some
                &&& parse_value(table[i].2, value_of(entries, table[i].0)->0) is Some
            },
    ensures
        decode_spec(table, entries) is Ok,
    decreases table.len(),
{
    if table.len() > 0 {
        assert forall|i: int| 0 <= i < table.len() - 1 implies {
            &&& value_of(entries, (#[trigger] table.drop_last()[i]).0) is Some
            &&& parse_value(table.drop_last()[i].2, value_of(entries, table.drop_last()[i].0)->0) is Some
        } by {
            assert(table.drop_last()[i] == table[i]);
        }
        lemma_decode_ok(table.drop_last(), entries);
        assert(table.last() == table[table.len() - 1]);
    }
}

/// Two entry arrays on which every id of `table` reads the same decode alike.
pub proof fn lemma_decode_same_values(table: Table, a: Entries, b: Entries)
    requires
        forall|i: int|
            0 <= i < table.len() ==> value_of(a, (#[trigger] table[i]).0) == value_of(b, table[i].0),
    ensures
        decode_spec(table, a) == decode_spec(table, b),
    decreases table.len(),
{
    if table.len() > 0 {
        assert forall|i: int| 0 <= i < table.len() - 1 implies value_of(
            a,
            (#[trigger] table.drop_last()[i]).0,
        ) == value_of(b, table.drop_last()[i].0) by {
            assert(table.drop_last()[i] == table[i]);
        }
        lemma_decode_same_values(table.drop_last(), a, b);
        assert(table.last() == table[table.len() - 1]);
    }
}

/// `entries` with every entry whose id is `id` taken out.
pub open spec fn without_id(entries: Entries, id: Seq<char>) -> Entries
    decreases entries.len(),
{
    if entries.len() == 0 {
        entries
    } else if entries[0].0 == id {
        without_id(entries.drop_first(), id)
    } else {
        seq![entries[0]] + without_id(entries.drop_first(), id)
    }
}

pub proof fn lemma_without_id(entries: Entries, id: Seq<char>, other: Seq<char>)
    ensures
        value_of(without_id(entries, id), other) == if other == id {
            None
        } else {
            value_of(entries, other)
        },
    decreases entries.len(),
{
    if entries.len() > 0 {
        lemma_without_id(entries.drop_first(), id, other);
        if entries[0].0 != id {
            let w = seq![entries[0]] + without_id(entries.drop_first(), id);
            assert(w.drop_first() =~= without_id(entries.drop_first(), id));
        }
    }
}

/// Every id of `table` occurs among `entries`, each entry with a known id
/// holds text its kind accepts.
pub open spec fn complete_for(table: Table, entries: Entries) -> bool {
    &&& forall|i: int|
        0 <= i < table.len() ==> exists|j: int|
            0 <= j < entries.len() && (#[trigger] entries[j]).0 == (#[trigger] table[i]).0
    &&& forall|i: int, j: int|
        0 <= i < table.len() && 0 <= j < entries.len() && (#[trigger] entries[j]).0 == (
        #[trigger] table[i]).0 ==> parse_value(table[i].2, entries[j].1) is Some
}

pub open spec fn distinct_ids(table: Table) -> bool {
    forall|i: int, j: int| 0 <= i < j < table.len() ==> (#[trigger] table[i]).0 != (#[trigger] table[j]).0
}

proof fn lemma_complete_reads(table: Table, entries: Entries)
    requires
        complete_for(table, entries),
    ensures
        forall|i: int|
            0 <= i < table.len() ==> {
                &&& value_of(entries, (#[trigger] table[i]).0) is Some
                &&& parse_value(table[i].2, value_of(entries, table[i].0)->0) is Some
            },
{
    assert forall|i: int| 0 <= i < table.len() implies {
        &&& value_of(entries, (#[trigger] table[i]).0) is Some
        &&& parse_value(table[i].2, value_of(entries, table[i].0)->0) is Some
    } by {
        lemma_value_of(entries, table[i].0);
        let j = choose|j: int|
            0 <= j < entries.len() && #[trigger] entries[j] == (
            table[i].0,
            value_of(entries, table[i].0)->0,
        );
        assert(entries[j].0 == table[i].0);
    }
}

/// Completeness: an entry array that holds every id of the table, in any
/// order and among any unknown ids, decodes; with every entry of one row's
/// id taken out, decoding fails naming exactly that row's field.
pub proof fn lemma_decoder_completeness(table: Table, entries: Entries, k: int)
    requires
        distinct_ids(table),
        complete_for(table, entries),
        0 <= k < table.len(),
    ensures
        decode_spec(table, entries) is Ok,
        decode_spec(table, without_id(entries, table[k].0)) == Err::<Seq<Reading>, DecodeFailure>(
            DecodeFailure::MissingField(table[k].1),
        ),
{
    lemma_complete_reads(table, entries);
    lemma_decode_ok(table, entries);
    let id = table[k].0;
    let w = without_id(entries, id);
    let pre = table.take(k);
    assert forall|i: int| 0 <= i < pre.len() implies value_of(w, (#[trigger] pre[i]).0) == value_of(
        entries,
        pre[i].0,
    ) by {
        assert(pre[i] == table[i]);
        lemma_without_id(entries, id, table[i].0);
    }
    lemma_decode_same_values(pre, w, entries);
    assert forall|i: int| 0 <= i < pre.len() implies {
        &&& value_of(entries, (#[trigger] pre[i]).0) is Some
        &&& parse_value(pre[i].2, value_of(entries, pre[i].0)->0) is Some
    } by {
        assert(pre[i] == table[i]);
    }
    lemma_decode_ok(pre, entries);
    lemma_without_id(entries, id, id);
    assert(table.take(k + 1).drop_last() =~= pre);
    assert(table.take(k + 1).last() == table[k]);
    lemma_decode_prefix_err(table, w, k + 1);
}

/// Type safety: a row whose first entry holds text that its kind refuses
/// never decodes; where the rows before it read, the failure names that id
/// and text.
pub proof fn lemma_decoder_refuses_invalid(table: Table, entries: Entries, k: int)
    requires
        0 <= k < table.len(),
        value_of(entries, table[k].0) is Some,
        parse_value(table[k].2, value_of(entries, table[k].0)->0) is None,
    ensures
        decode_spec(table, entries) is Err,
        decode_spec(table.take(k), entries) is Ok ==> decode_spec(table, entries) == Err::<
            Seq<Reading>,
            DecodeFailure,
        >(DecodeFailure::InvalidValue(table[k].0, value_of(entries, table[k].0)->0)),
{
    if decode_spec(table, entries) is Ok {
        lemma_decode_ok_inverse(table, entries);
    }
    if decode_spec(table.take(k), entries) is Ok {
        assert(table.take(k + 1).drop_last() =~= table.take(k));
        assert(table.take(k + 1).last() == table[k]);
        lemma_decode_prefix_err(table, entries, k + 1);
    }
}

/// Entries agree on the ids of `table`: two entries with the same known id
/// hold the same text.
pub open spec fn consistent_for(table: Table, entries: Entries) -> bool {
    forall|i: int, j: int, r: int|
        0 <= i < entries.len() && 0 <= j < entries.len() && 0 <= r < table.len() && (
        #[trigger] entries[i]).0 == (#[trigger] table[r]).0 && (#[trigger] entries[j]).0
            == entries[i].0 ==> entries[i].1 == entries[j].1
}

/// Order independence: entry arrays that hold the same entries (any
/// permutation, any repetition) decode to the same result, provided the
/// entries of each known id agree.
pub proof fn lemma_decoder_order_independent(table: Table, a: Entries, b: Entries)
    requires
        forall|x: (Seq<char>, Seq<char>)| a.contains(x) <==> b.contains(x),
        consistent_for(table, a),
    ensures
        decode_spec(table, a) == decode_spec(table, b),
{
    assert forall|r: int| 0 <= r < table.len() implies value_of(a, (#[trigger] table[r]).0)
        == value_of(b, table[r].0) by {
        let id = table[r].0;
        lemma_value_of(a, id);
        lemma_value_of(b, id);
        if value_of(a, id) is Some {
            let ja = choose|j: int| 0 <= j < a.len() && #[trigger] a[j] == (id, value_of(a, id)->0);
            assert(b.contains(a[ja]));
            let jb = choose|j: int| 0 <= j < b.len() && #[trigger] b[j] == (id, value_of(b, id)->0);
            assert(a.contains(b[jb]));
            let ia = choose|i: int| 0 <= i < a.len() && a[i] == b[jb];
            assert(a[ia].0 == table[r].0);
        } else if value_of(b, id) is Some {
            let jb = choose|j: int| 0 <= j < b.len() && #[trigger] b[j] == (id, value_of(b, id)->0);
            assert(a.contains(b[jb]));
            let ia = choose|i: int| 0 <= i < a.len() && a[i] == b[jb];
            assert(a[ia].0 == id);
        }
    }
    lemma_decode_same_values(table, a, b);
}

} // verus!
