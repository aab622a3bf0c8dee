use vstd::prelude::*;

use crate::table::{opt_str_view, Column, ConvertError, Table};
use crate::text::{contains_str, keys_view, spec_trim, str_eq, trim_string};
use self::XmlEvent as E;
use quick_xml::escape::unescape;
use quick_xml::events::Event as QEvent;
use quick_xml::Reader as QReader;

verus! {

/// One event of an XML document, as the flattener consumes it.
#[derive(Debug, Clone, PartialEq, Eq)]
pub enum XmlEvent {
    /// An element opens; carries its tag name.
    Start(String),
    /// A piece of text content, literal.
    Text(String),
    /// A character or entity reference standing inside text content; carries
    /// the reference name, without its surrounding '&' and ';'.
    Ref(String),
    /// An element closes; carries its tag name.
    End(String),
    /// Any other event (declaration, comment, self-closing element, ...).
    Other,
}

/// The event stream a well-formed byte sequence tokenizes to, or the byte
/// offset of its first syntax error. A function of the bytes alone.
pub uninterp spec fn spec_xml_events(bytes: Seq<u8>) -> Result<Seq<XmlEvent>, u64>;

/// Relies on quick_xml's `Reader::read_event`: yields the document's events
/// in order — text in literal pieces, each character or entity reference as
/// its own event carrying the bare reference name — and reports the byte
/// offset of the first syntax error.
#[verifier::external_body]
fn read_events(bytes: &[u8]) -> (r: Result<Vec<XmlEvent>, u64>)
    ensures
        match r {
            Ok(evs) => spec_xml_events(bytes@) == Ok::<Seq<XmlEvent>, u64>(evs@),
            Err(p) => spec_xml_events(bytes@) == Err::<Seq<XmlEvent>, u64>(p),
        },
{
    let mut rd = QReader::from_reader(bytes);
    let mut evs = Vec::new();
    loop {
        match rd.read_event() {
            Ok(QEvent::Start(e)) => evs.push(E::Start(e.name().0.to_owned())),
            Ok(QEvent::Text(t)) => evs.push(E::Text(t.into_inner().into_owned())),
            Ok(QEvent::GeneralRef(e)) => evs.push(E::Ref(e.into_inner().into_owned())),
            Ok(QEvent::End(e)) => evs.push(E::End(e.name().0.to_owned())),
            Ok(QEvent::Eof) => return Ok(evs),
            Ok(_) => evs.push(E::Other),
            Err(_) => return Err(rd.error_position()),
        }
    }
}

/// The text a character or entity reference resolves to: a function of the
/// reference name alone. An unresolvable reference stands for empty text.
pub uninterp spec fn ref_text_of(name: Seq<char>) -> Seq<char>;

/// Relies on quick_xml's `escape::unescape`: resolves one character or entity
/// reference, given by its bare name, to the text it stands for; an
/// unresolvable reference becomes the empty string.
#[verifier::external_body]
fn resolve_ref(name: &str) -> (r: String)
    ensures
        r@ == ref_text_of(name@),
{
    unescape(&format!("&{name};")).unwrap_or_default().into_owned()
}

/// A record: an insertion-ordered mapping from field name to text.
pub type RecModel = Seq<(Seq<char>, Seq<char>)>;

/// Inserts `k -> v` into an ordered record: overwrites in place when the key
/// exists, appends otherwise.
pub open spec fn spec_insert(fields: RecModel, k: Seq<char>, v: Seq<char>) -> RecModel
    decreases fields.len(),
{
    if fields.len() == 0 {
        seq![(k, v)]
    } else if fields[0].0 == k {
        seq![(k, v)] + fields.drop_first()
    } else {
        seq![fields[0]] + spec_insert(fields.drop_first(), k, v)
    }
}

/// The value stored under `k`, if any.
pub open spec fn spec_lookup(fields: RecModel, k: Seq<char>) -> Option<Seq<char>>
    decreases fields.len(),
{
    if fields.len() == 0 {
        Option::None
    } else if fields[0].0 == k {
        Option::Some(fields[0].1)
    } else {
        spec_lookup(fields.drop_first(), k)
    }
}

/// The flattener's state: a fold over the event stream.
#[verifier::ext_equal]
pub struct FlatState {
    /// Element nesting depth; the document root sits at depth 1.
    pub depth: int,
    /// The tag latched as the record boundary: the first tag seen at depth 2.
    pub record_tag: Option<Seq<char>>,
    /// The field an open depth-3 element names.
    pub current_field: Option<Seq<char>>,
    /// The open record buffer.
    pub current: RecModel,
    /// The completed records, in document order.
    pub records: Seq<RecModel>,
    /// The text pieces of the current text node, accumulated so far.
    pub pending: Seq<char>,
    /// Whether the previous event was a text piece, so that the next piece
    /// continues the same text node.
    pub textual: bool,
}

pub open spec fn spec_init() -> FlatState {
    FlatState {
        depth: 0,
        record_tag: Option::None,
        current_field: Option::None,
        current: Seq::empty(),
        records: Seq::empty(),
        pending: Seq::empty(),
        textual: false,
    }
}

/// Consumes one text piece: the piece extends the current text node, and the
/// node's trimmed text so far is written to the open record when it stands at
/// depth 3 under a field and is nonempty.
pub open spec fn spec_piece(s: FlatState, piece: Seq<char>) -> FlatState {
    let p = if s.textual {
        s.pending + piece
    } else {
        piece
    };
    let tr = spec_trim(p);
    FlatState {
        depth: s.depth,
        record_tag: s.record_tag,
        current_field: s.current_field,
        current: match s.current_field {
            Option::Some(f) => if s.depth == 3 && tr.len() > 0 {
                spec_insert(s.current, f, tr)
            } else {
                s.current
            },
            Option::None => s.current,
        },
        records: s.records,
        pending: p,
        textual: true,
    }
}

/// One transition of the flattening state machine.
pub open spec fn spec_step(s: FlatState, ev: XmlEvent) -> FlatState {
    match ev {
        XmlEvent::Start(tag) => {
            let d = s.depth + 1;
            if d == 2 {
                let rt = if s.record_tag is None {
                    Option::Some(tag@)
                } else {
                    s.record_tag
                };
                FlatState {
                    depth: d,
                    record_tag: rt,
                    current_field: s.current_field,
                    current: if rt == Option::Some(tag@) {
                        Seq::empty()
                    } else {
                        s.current
                    },
                    records: s.records,
                    pending: s.pending,
                    textual: false,
                }
            } else if d == 3 {
                FlatState {
                    depth: d,
                    record_tag: s.record_tag,
                    current_field: Option::Some(tag@),
                    current: s.current,
                    records: s.records,
                    pending: s.pending,
                    textual: false,
                }
            } else {
                FlatState {
                    depth: d,
                    record_tag: s.record_tag,
                    current_field: s.current_field,
                    current: s.current,
                    records: s.records,
                    pending: s.pending,
                    textual: false,
                }
            }
        },
        XmlEvent::Text(t) => spec_piece(s, t@),
        XmlEvent::Ref(t) => spec_piece(s, ref_text_of(t@)),
        XmlEvent::End(tag) => {
            let recs = if s.depth == 2 && s.record_tag == Option::Some(tag@) && s.current.len()
                > 0 {
                s.records.push(s.current)
            } else {
                s.records
            };
            FlatState {
                depth: if s.depth > 0 {
                    s.depth - 1
                } else {
                    0
                },
                record_tag: s.record_tag,
                current_field: if s.depth == 3 {
                    Option::None
                } else {
                    s.current_field
                },
                current: s.current,
                records: recs,
                pending: s.pending,
                textual: false,
            }
        },
        XmlEvent::Other => FlatState {
            depth: s.depth,
            record_tag: s.record_tag,
            current_field: s.current_field,
            current: s.current,
            records: s.records,
            pending: s.pending,
            textual: false,
        },
    }
}

/// Runs the state machine over `evs[i..]` starting from `s`.
pub open spec fn spec_run_from(s: FlatState, evs: Seq<XmlEvent>, i: int) -> FlatState
    decreases evs.len() - i,
{
    if i < 0 || i >= evs.len() {
        s
    } else {
        spec_run_from(spec_step(s, evs[i]), evs, i + 1)
    }
}

/// The state after folding the whole event stream.
pub open spec fn spec_run(evs: Seq<XmlEvent>) -> FlatState {
    spec_run_from(spec_init(), evs, 0)
}

/// Adds the keys of `rec[j..]` to `acc` in first-seen order.
pub open spec fn add_keys(acc: Seq<Seq<char>>, rec: RecModel, j: int) -> Seq<Seq<char>>
    decreases rec.len() - j,
{
    if j < 0 || j >= rec.len() {
        acc
    } else {
        add_keys(
            if acc.contains(rec[j].0) {
                acc
            } else {
                acc.push(rec[j].0)
            },
            rec,
            j + 1,
        )
    }
}

/// Folds the keys of `recs[i..]` onto `acc`.
pub open spec fn union_from(acc: Seq<Seq<char>>, recs: Seq<RecModel>, i: int) -> Seq<Seq<char>>
    decreases recs.len() - i,
{
    if i < 0 || i >= recs.len() {
        acc
    } else {
        union_from(add_keys(acc, recs[i], 0), recs, i + 1)
    }
}

/// The schema union: every key seen across the records, in first-seen order.
pub open spec fn spec_union(recs: Seq<RecModel>) -> Seq<Seq<char>> {
    union_from(Seq::empty(), recs, 0)
}

/// A sequence without repeated entries.
pub open spec fn distinct_seq(s: Seq<Seq<char>>) -> bool {
    forall|i: int, j: int| 0 <= i < j < s.len() ==> s[i] != s[j]
}

/// The view of a record held as a vector of string pairs.
pub open spec fn rec_view(r: Vec<(String, String)>) -> RecModel {
    r@.map_values(|p: (String, String)| (p.0@, p.1@))
}

/// The view of a vector of records.
pub open spec fn recs_view(r: Vec<Vec<(String, String)>>) -> Seq<RecModel> {
    r@.map_values(|rec: Vec<(String, String)>| rec_view(rec))
}

/// A table matches a record sequence when its columns are the schema union in
/// first-seen order and each cell is the record's value under that key.
pub open spec fn table_matches_records(t: Table, recs: Seq<RecModel>) -> bool {
    let cols = spec_union(recs);
    &&& t.wf()
    &&& t.distinct_names()
    &&& t.spec_cols() == cols.len()
    &&& t.spec_rows() == recs.len()
    &&& forall|j: int| 0 <= j < cols.len() ==> (#[trigger] t.columns@[j]).name@ == cols[j]
    &&& forall|j: int, i: int|
        0 <= j < cols.len() && 0 <= i < recs.len() ==> opt_str_view(
            #[trigger] t.columns@[j].values@[i],
        ) == spec_lookup(recs[i], cols[j])
}

fn find_key(fields: &Vec<(String, String)>, k: &str) -> (r: Option<usize>)
    ensures
        match r {
            Option::Some(i) => i < fields@.len() && fields@[i as int].0@ == k@ && (forall|j: int|
                0 <= j < i ==> (#[trigger] fields@[j]).0@ != k@),
            Option::None => forall|j: int| 0 <= j < fields@.len() ==> (#[trigger] fields@[j]).0@ != k@,
        },
{
    let n: usize = fields.len();
    let mut i: usize = 0;
    while i < n
        invariant
            i <= n,
            n == fields@.len(),
            forall|j: int| 0 <= j < i ==> (#[trigger] fields@[j]).0@ != k@,
        decreases n - i,
    {
        if str_eq(fields[i].0.as_str(), k) {
            return Option::Some(i);
        }
        i += 1;
    }
    Option::None
}

proof fn lemma_insert_at(m: RecModel, k: Seq<char>, v: Seq<char>, i: int)
    requires
        0 <= i < m.len(),
        m[i].0 == k,
        forall|j: int| 0 <= j < i ==> m[j].0 != k,
    ensures
        spec_insert(m, k, v) =~= m.update(i, (k, v)),
    decreases i,
{
    if i == 0 {
    } else {
        assert(m[0].0 != k);
        assert forall|j: int| 0 <= j < i - 1 implies m.drop_first()[j].0 != k by {
            assert(m.drop_first()[j] == m[j + 1]);
        }
        lemma_insert_at(m.drop_first(), k, v, i - 1);
    }
}

proof fn lemma_insert_new(m: RecModel, k: Seq<char>, v: Seq<char>)
    requires
        forall|j: int| 0 <= j < m.len() ==> m[j].0 != k,
    ensures
        spec_insert(m, k, v) =~= m.push((k, v)),
    decreases m.len(),
{
    if m.len() == 0 {
    } else {
        assert(m[0].0 != k);
        assert forall|j: int| 0 <= j < m.drop_first().len() implies m.drop_first()[j].0 != k by {
            assert(m.drop_first()[j] == m[j + 1]);
        }
        lemma_insert_new(m.drop_first(), k, v);
    }
}

proof fn lemma_lookup_at(m: RecModel, k: Seq<char>, i: int)
    requires
        0 <= i < m.len(),
        m[i].0 == k,
        forall|j: int| 0 <= j < i ==> m[j].0 != k,
    ensures
        spec_lookup(m, k) == Option::Some(m[i].1),
    decreases i,
{
    if i == 0 {
    } else {
        assert(m[0].0 != k);
        assert forall|j: int| 0 <= j < i - 1 implies m.drop_first()[j].0 != k by {
            assert(m.drop_first()[j] == m[j + 1]);
        }
        lemma_lookup_at(m.drop_first(), k, i - 1);
    }
}

proof fn lemma_lookup_none(m: RecModel, k: Seq<char>)
    requires
        forall|j: int| 0 <= j < m.len() ==> m[j].0 != k,
    ensures
        spec_lookup(m, k) is None,
    decreases m.len(),
{
    if m.len() == 0 {
    } else {
        assert(m[0].0 != k);
        assert forall|j: int| 0 <= j < m.drop_first().len() implies m.drop_first()[j].0 != k by {
            assert(m.drop_first()[j] == m[j + 1]);
        }
        lemma_lookup_none(m.drop_first(), k);
    }
}

fn record_insert(fields: &mut Vec<(String, String)>, k: String, v: String)
    ensures
        rec_view(*final(fields)) == spec_insert(rec_view(*old(fields)), k@, v@),
{
    let ghost m0 = rec_view(*fields);
    match find_key(fields, k.as_str()) {
        Option::Some(i) => {
            proof {
                assert(m0[i as int].0 == k@);
                assert(forall|j: int| 0 <= j < i ==> (#[trigger] m0[j]).0 != k@);
                lemma_insert_at(m0, k@, v@, i as int);
            }
            fields.set(i, (k, v));
            proof {
                assert(rec_view(*fields) =~= m0.update(i as int, (k@, v@)));
            }
        },
        Option::None => {
            proof {
                assert(forall|j: int| 0 <= j < m0.len() ==> (#[trigger] m0[j]).0 != k@);
                lemma_insert_new(m0, k@, v@);
            }
            fields.push((k, v));
            proof {
                assert(rec_view(*fields) =~= m0.push((k@, v@)));
            }
        },
    }
}

/// Looks up the value a record holds under field name `k`.
pub fn record_lookup(fields: &Vec<(String, String)>, k: &str) -> (r: Option<String>)
    ensures
        opt_str_view(r) == spec_lookup(rec_view(*fields), k@),
{
    let ghost m = rec_view(*fields);
    match find_key(fields, k) {
        Option::Some(i) => {
            proof {
                assert(m[i as int].0 == k@);
                assert(forall|j: int| 0 <= j < i ==> (#[trigger] m[j]).0 != k@);
                lemma_lookup_at(m, k@, i as int);
            }
            Option::Some(fields[i].1.clone())
        },
        Option::None => {
            proof {
                assert(forall|j: int| 0 <= j < m.len() ==> (#[trigger] m[j]).0 != k@);
                lemma_lookup_none(m, k@);
            }
            Option::None
        },
    }
}

fn clone_record(r: &Vec<(String, String)>) -> (c: Vec<(String, String)>)
    ensures
        rec_view(c) == rec_view(*r),
{
    let mut c: Vec<(String, String)> = Vec::new();
    let n: usize = r.len();
    let mut i: usize = 0;
    while i < n
        invariant
            i <= n,
            n == r@.len(),
            c@.len() == i,
            forall|j: int| 0 <= j < i ==> rec_view(c)[j] == rec_view(*r)[j],
        decreases n - i,
    {
        let pair = (r[i].0.clone(), r[i].1.clone());
        proof {
            assert(pair.0@ == r@[i as int].0@);
            assert(pair.1@ == r@[i as int].1@);
        }
        c.push(pair);
        i += 1;
    }
    proof {
        assert(rec_view(c) =~= rec_view(*r));
    }
    c
}

/// The flattening state machine's executable state.
pub struct Flattener {
    pub depth: usize,
    pub record_tag: Option<String>,
    pub current_field: Option<String>,
    pub current: Vec<(String, String)>,
    pub records: Vec<Vec<(String, String)>>,
    pub pending: String,
    pub textual: bool,
}

impl Flattener {
    /// The mathematical state this value stands for.
    pub open spec fn model(self) -> FlatState {
        FlatState {
            depth: self.depth as int,
            record_tag: opt_str_view(self.record_tag),
            current_field: opt_str_view(self.current_field),
            current: rec_view(self.current),
            records: recs_view(self.records),
            pending: self.pending@,
            textual: self.textual,
        }
    }

    pub fn new() -> (r: Flattener)
        ensures
            r.model() == spec_init(),
    {
        let r = Flattener {
            depth: 0,
            record_tag: Option::None,
            current_field: Option::None,
            current: Vec::new(),
            records: Vec::new(),
            pending: String::new(),
            textual: false,
        };
        proof {
            assert(r.model() =~~= spec_init());
        }
        r
    }
}

/// Performs one transition of the state machine.
pub fn step(st: &mut Flattener, ev: &XmlEvent)
    requires
        old(st).depth < usize::MAX,
    ensures
        final(st).model() == spec_step(old(st).model(), *ev),
{
    match ev {
        XmlEvent::Start(tag) => {
            let d: usize = st.depth + 1;
            st.depth = d;
            st.textual = false;
            if d == 2 {
                if st.record_tag.is_none() {
                    st.record_tag = Option::Some(tag.clone());
                }
                let is_rec: bool = match &st.record_tag {
                    Option::Some(rt) => str_eq(rt.as_str(), tag.as_str()),
                    Option::None => false,
                };
                if is_rec {
                    st.current = Vec::new();
                }
            } else if d == 3 {
                st.current_field = Option::Some(tag.clone());
            }
            proof {
                assert(st.model() =~~= spec_step(old(st).model(), *ev));
            }
        },
        XmlEvent::Text(t) => {
            step_piece(st, t);
            proof {
                assert(st.model() =~~= spec_step(old(st).model(), *ev));
            }
        },
        XmlEvent::Ref(t) => {
            let piece = resolve_ref(t.as_str());
            step_piece(st, &piece);
            proof {
                assert(st.model() =~~= spec_step(old(st).model(), *ev));
            }
        },
        XmlEvent::End(tag) => {
            let is_rec: bool = match &st.record_tag {
                Option::Some(rt) => str_eq(rt.as_str(), tag.as_str()),
                Option::None => false,
            };
            if st.depth == 2 && is_rec && st.current.len() > 0 {
                let c = clone_record(&st.current);
                st.records.push(c);
            }
            if st.depth == 3 {
                st.current_field = Option::None;
            }
            if st.depth > 0 {
                st.depth = st.depth - 1;
            }
            st.textual = false;
            proof {
                assert(st.model() =~~= spec_step(old(st).model(), *ev));
            }
        },
        XmlEvent::Other => {
            st.textual = false;
            proof {
                assert(st.model() =~~= spec_step(old(st).model(), *ev));
            }
        },
    }
}

/// Consumes one text piece, as `spec_piece` describes.
fn step_piece(st: &mut Flattener, piece: &String)
    ensures
        final(st).model() == spec_piece(old(st).model(), piece@),
{
    if !st.textual {
        st.pending = String::new();
        proof {
            assert(st.pending@ =~= Seq::<char>::empty());
        }
    }
    st.pending.append(piece.as_str());
    st.textual = true;
    let tr = trim_string(st.pending.as_str());
    if st.depth == 3 && tr.as_str().unicode_len() > 0 {
        let fopt: Option<String> = match &st.current_field {
            Option::Some(f) => Option::Some(f.clone()),
            Option::None => Option::None,
        };
        match fopt {
            Option::Some(f) => {
                record_insert(&mut st.current, f, tr);
            },
            Option::None => {},
        }
    }
}

proof fn lemma_step_depth(s: FlatState, ev: XmlEvent)
    requires
        s.depth >= 0,
    ensures
        0 <= spec_step(s, ev).depth <= s.depth + 1,
{
}

/// Every record the machine ever completes is nonempty.
proof fn lemma_run_records_nonempty(s: FlatState, evs: Seq<XmlEvent>, i: int)
    requires
        forall|j: int| 0 <= j < s.records.len() ==> (#[trigger] s.records[j]).len() > 0,
    ensures
        forall|j: int|
            0 <= j < spec_run_from(s, evs, i).records.len() ==> (#[trigger] spec_run_from(
                s,
                evs,
                i,
            ).records[j]).len() > 0,
    decreases evs.len() - i,
{
    if i < 0 || i >= evs.len() {
    } else {
        let s1 = spec_step(s, evs[i]);
        assert forall|j: int| 0 <= j < s1.records.len() implies (#[trigger] s1.records[j]).len()
            > 0 by {
            if j < s.records.len() {
            } else {
                assert(s1.records[j] == s.current);
            }
        }
        lemma_run_records_nonempty(s1, evs, i + 1);
    }
}

proof fn lemma_add_keys_mono(acc: Seq<Seq<char>>, rec: RecModel, j: int)
    ensures
        add_keys(acc, rec, j).len() >= acc.len(),
    decreases rec.len() - j,
{
    if j < 0 || j >= rec.len() {
    } else {
        let acc1 = if acc.contains(rec[j].0) {
            acc
        } else {
            acc.push(rec[j].0)
        };
        lemma_add_keys_mono(acc1, rec, j + 1);
    }
}

proof fn lemma_union_from_mono(acc: Seq<Seq<char>>, recs: Seq<RecModel>, i: int)
    ensures
        union_from(acc, recs, i).len() >= acc.len(),
    decreases recs.len() - i,
{
    if i < 0 || i >= recs.len() {
    } else {
        lemma_add_keys_mono(acc, recs[i], 0);
        lemma_union_from_mono(add_keys(acc, recs[i], 0), recs, i + 1);
    }
}

/// A nonempty first record puts at least one key into the union.
proof fn lemma_union_nonempty(recs: Seq<RecModel>)
    requires
        recs.len() > 0,
        recs[0].len() > 0,
    ensures
        spec_union(recs).len() > 0,
{
    let acc0 = Seq::<Seq<char>>::empty();
    assert(!acc0.contains(recs[0][0].0));
    let acc1 = acc0.push(recs[0][0].0);
    assert(add_keys(acc0, recs[0], 0) == add_keys(acc1, recs[0], 1));
    lemma_add_keys_mono(acc1, recs[0], 1);
    lemma_union_from_mono(add_keys(acc0, recs[0], 0), recs, 1);
    assert(spec_union(recs) == union_from(add_keys(acc0, recs[0], 0), recs, 1));
}

/// Collects the schema union of the records, in first-seen order.
fn union_keys(records: &Vec<Vec<(String, String)>>) -> (keys: Vec<String>)
    ensures
        keys_view(keys) == spec_union(recs_view(*records)),
        distinct_seq(keys_view(keys)),
{
    let ghost recs = recs_view(*records);
    let mut acc: Vec<String> = Vec::new();
    proof {
        assert(keys_view(acc) =~= Seq::<Seq<char>>::empty());
    }
    let n: usize = records.len();
    let mut i: usize = 0;
    while i < n
        invariant
            i <= n,
            n == records@.len(),
            recs == recs_view(*records),
            union_from(keys_view(acc), recs, i as int) == spec_union(recs),
            distinct_seq(keys_view(acc)),
        decreases n - i,
    {
        let m: usize = records[i].len();
        let mut jj: usize = 0;
        proof {
            assert(recs[i as int] == rec_view(records@[i as int]));
        }
        while jj < m
            invariant
                jj <= m,
                i < n,
                n == records@.len(),
                m == records@[i as int]@.len(),
                recs == recs_view(*records),
                union_from(add_keys(keys_view(acc), recs[i as int], jj as int), recs, i + 1)
                    == spec_union(recs),
                distinct_seq(keys_view(acc)),
            decreases m - jj,
        {
            let ghost acc_v = keys_view(acc);
            let ghost key_v = recs[i as int][jj as int].0;
            proof {
                assert(recs[i as int] == rec_view(records@[i as int]));
                assert(key_v == records@[i as int]@[jj as int].0@);
            }
            let present: bool = contains_str(&acc, records[i][jj].0.as_str());
            if !present {
                let k = records[i][jj].0.clone();
                acc.push(k);
                proof {
                    assert(keys_view(acc) =~= acc_v.push(key_v));
                    assert forall|a: int, b: int| 0 <= a < b < keys_view(acc).len() implies
                        keys_view(acc)[a] != keys_view(acc)[b] by {
                        if b == acc_v.len() {
                            if keys_view(acc)[a] == keys_view(acc)[b] {
                                assert(acc_v[a] == key_v);
                                assert(acc_v.contains(key_v));
                            }
                        }
                    }
                }
            }
            proof {
                assert(add_keys(acc_v, recs[i as int], jj as int) == add_keys(
                    keys_view(acc),
                    recs[i as int],
                    jj + 1,
                ));
            }
            jj += 1;
        }
        proof {
            assert(add_keys(keys_view(acc), recs[i as int], m as int) == keys_view(acc));
            assert(union_from(keys_view(acc), recs, i + 1) == spec_union(recs));
        }
        i += 1;
    }
    proof {
        assert(union_from(keys_view(acc), recs, n as int) == keys_view(acc));
    }
    acc
}

fn build_table(records: &Vec<Vec<(String, String)>>) -> (t: Table)
    requires
        recs_view(*records).len() > 0,
        forall|i: int|
            0 <= i < recs_view(*records).len() ==> (#[trigger] recs_view(*records)[i]).len() > 0,
    ensures
        table_matches_records(t, recs_view(*records)),
{
    let ghost recs = recs_view(*records);
    let ghost cols_spec = spec_union(recs);
    proof {
        assert(recs[0] == rec_view(records@[0]));
        lemma_union_nonempty(recs);
    }
    let keys = union_keys(records);
    let nrec: usize = records.len();
    let nk: usize = keys.len();
    let mut cols: Vec<Column> = Vec::new();
    let mut j: usize = 0;
    while j < nk
        invariant
            j <= nk,
            nk == keys@.len(),
            nrec == records@.len(),
            recs == recs_view(*records),
            cols_spec == spec_union(recs),
            keys_view(keys) == cols_spec,
            distinct_seq(cols_spec),
            cols@.len() == j,
            forall|jj: int| 0 <= jj < j ==> (#[trigger] cols@[jj]).name@ == cols_spec[jj],
            forall|jj: int| 0 <= jj < j ==> (#[trigger] cols@[jj]).values@.len() == nrec,
            forall|jj: int, ii: int|
                0 <= jj < j && 0 <= ii < nrec ==> opt_str_view(
                    #[trigger] cols@[jj].values@[ii],
                ) == spec_lookup(recs[ii], cols_spec[jj]),
        decreases nk - j,
    {
        let mut values: Vec<Option<String>> = Vec::new();
        let mut i: usize = 0;
        while i < nrec
            invariant
                i <= nrec,
                j < nk,
                nk == keys@.len(),
                nrec == records@.len(),
                recs == recs_view(*records),
                cols_spec == spec_union(recs),
                keys_view(keys) == cols_spec,
                values@.len() == i,
                forall|ii: int|
                    0 <= ii < i ==> opt_str_view(#[trigger] values@[ii]) == spec_lookup(
                        recs[ii],
                        cols_spec[j as int],
                    ),
            decreases nrec - i,
        {
            proof {
                assert(recs[i as int] == rec_view(records@[i as int]));
                assert(keys_view(keys)[j as int] == keys@[j as int]@);
            }
            let v = record_lookup(&records[i], keys[j].as_str());
            values.push(v);
            i += 1;
        }
        let name = keys[j].clone();
        proof {
            assert(name@ == keys_view(keys)[j as int]);
        }
        cols.push(Column { name, values });
        j += 1;
    }
    let t = Table { columns: cols };
    proof {
        assert(t.spec_cols() == cols_spec.len());
        assert(cols_spec.len() > 0);
        assert(t.spec_rows() == nrec);
        assert(t.wf());
        assert forall|a: int, b: int| 0 <= a < b < t.columns@.len() implies (
        #[trigger] t.columns@[a]).name@ != (#[trigger] t.columns@[b]).name@ by {
            assert(t.columns@[a].name@ == cols_spec[a]);
            assert(t.columns@[b].name@ == cols_spec[b]);
        }
    }
    t
}

/// Folds the event stream through the state machine and projects the
/// completed records onto their schema union, in first-seen key order.
pub fn flatten_events(events: &Vec<XmlEvent>) -> (r: Result<Table, ConvertError>)
    ensures
        match r {
            Ok(t) => spec_run(events@).records.len() > 0 && table_matches_records(
                t,
                spec_run(events@).records,
            ),
            Err(e) => e matches ConvertError::NoRecords && spec_run(events@).records.len() == 0,
        },
{
    let mut st = Flattener::new();
    let n: usize = events.len();
    let mut i: usize = 0;
    while i < n
        invariant
            i <= n,
            n == events@.len(),
            st.depth <= i,
            st.model().depth == st.depth as int,
            spec_run_from(st.model(), events@, i as int) == spec_run(events@),
        decreases n - i,
    {
        let ghost pre = st.model();
        step(&mut st, &events[i]);
        proof {
            lemma_step_depth(pre, events@[i as int]);
            assert(spec_run_from(pre, events@, i as int) == spec_run_from(
                st.model(),
                events@,
                i + 1,
            ));
        }
        i += 1;
    }
    proof {
        assert(st.model() == spec_run(events@));
        assert(st.model().records == recs_view(st.records));
        lemma_run_records_nonempty(spec_init(), events@, 0);
    }
    let records = st.records;
    if records.len() == 0 {
        proof {
            assert(recs_view(records).len() == 0);
        }
        return Result::Err(ConvertError::NoRecords);
    }
    Result::Ok(build_table(&records))
}

/// What `flatten` promises of its result, for a given byte sequence.
pub open spec fn flatten_post(r: Result<Table, ConvertError>, bytes: Seq<u8>) -> bool {
    match r {
        Ok(t) => spec_xml_events(bytes) matches Ok(evs) && spec_run(evs).records.len() > 0
            && table_matches_records(t, spec_run(evs).records),
        Err(e) => match e {
            ConvertError::MalformedXml(p) => spec_xml_events(bytes) == Err::<Seq<XmlEvent>, u64>(
                p,
            ),
            ConvertError::NoRecords => spec_xml_events(bytes) matches Ok(evs) && spec_run(
                evs,
            ).records.len() == 0,
            _ => false,
        },
    }
}

/// Flattens a nested XML document into a table: the first depth-2 tag is the
/// record boundary, depth-3 elements are fields, and the columns are the
/// record fields' schema union in first-seen order.
pub fn flatten(bytes: &[u8]) -> (r: Result<Table, ConvertError>)
    ensures
        flatten_post(r, bytes@),
{
    match read_events(bytes) {
        Result::Ok(evs) => flatten_events(&evs),
        Result::Err(p) => Result::Err(ConvertError::MalformedXml(p)),
    }
}

/// Flattening is a function of the bytes alone: two successful runs on the
/// same input agree on the dimensions, the column names and their order, and
/// every cell.
pub proof fn lemma_flatten_deterministic(
    r1: Result<Table, ConvertError>,
    r2: Result<Table, ConvertError>,
    bytes: Seq<u8>,
)
    requires
        flatten_post(r1, bytes),
        flatten_post(r2, bytes),
        r1 is Ok,
        r2 is Ok,
    ensures
        r1->Ok_0.spec_cols() == r2->Ok_0.spec_cols(),
        r1->Ok_0.spec_rows() == r2->Ok_0.spec_rows(),
        forall|j: int|
            0 <= j < r1->Ok_0.columns@.len() ==> (#[trigger] r1->Ok_0.columns@[j]).name@ == (
            #[trigger] r2->Ok_0.columns@[j]).name@,
        forall|j: int, i: int|
            0 <= j < r1->Ok_0.columns@.len() && 0 <= i < r1->Ok_0.spec_rows() ==> opt_str_view(
                #[trigger] r1->Ok_0.columns@[j].values@[i],
            ) == opt_str_view(#[trigger] r2->Ok_0.columns@[j].values@[i]),
{
    let evs = spec_xml_events(bytes)->Ok_0;
    let recs = spec_run(evs).records;
    let cols = spec_union(recs);
    assert(table_matches_records(r1->Ok_0, recs));
    assert(table_matches_records(r2->Ok_0, recs));
}

} // verus!
