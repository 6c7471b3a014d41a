//! Typed sandbox parameters and their marshalling into the flat byte
//! buffer plus descriptor table that the kernel creation call consumes.
//!
//! Every entry contributes two descriptors: one covering its
//! null-terminated key bytes, one covering its value payload. Integer
//! values take four bytes in the host's byte order, text values their
//! bytes plus a null terminator, and flags a zero-length payload.

use vstd::prelude::*;

use crate::codec::i32_payload;
use crate::util::bytes_eq;
use crate::util::push_bytes;

verus! {

/// A tagged parameter value: a 4-byte integer, null-terminated text, or a
/// presence-only flag with no payload.
#[derive(Clone, Debug, PartialEq)]
pub enum ParamValue {
    Integer(i32),
    Text(Vec<u8>),
    Flag,
}

/// The mathematical model of a [`ParamValue`].
pub enum ValueView {
    Integer(i32),
    Text(Seq<u8>),
    Flag,
}

impl View for ParamValue {
    type V = ValueView;

    open spec fn view(&self) -> ValueView {
        match self {
            ParamValue::Integer(i) => ValueView::Integer(*i),
            ParamValue::Text(t) => ValueView::Text(t@),
            ParamValue::Flag => ValueView::Flag,
        }
    }
}

/// One named parameter.
#[derive(Clone, Debug, PartialEq)]
pub struct ParamEntry {
    pub key: Vec<u8>,
    pub value: ParamValue,
}

/// The mathematical model of a [`ParamEntry`].
pub struct EntryView {
    pub key: Seq<u8>,
    pub value: ValueView,
}

impl View for ParamEntry {
    type V = EntryView;

    open spec fn view(&self) -> EntryView {
        EntryView { key: self.key@, value: self.value@ }
    }
}

/// An ordered sequence of parameter entries; order is significant and is
/// preserved by marshalling.
#[derive(Clone, Debug, PartialEq)]
pub struct ParameterSet {
    pub entries: Vec<ParamEntry>,
}

impl View for ParameterSet {
    type V = Seq<EntryView>;

    open spec fn view(&self) -> Seq<EntryView> {
        self.entries@.map_values(|e: ParamEntry| e@)
    }
}

/// A key or text value can be carried null-terminated only when it holds
/// no null byte itself; callers must reject such input before any kernel
/// resource exists.
pub open spec fn entry_wf(e: EntryView) -> bool {
    &&& !e.key.contains(0u8)
    &&& (e.value matches ValueView::Text(t) ==> !t.contains(0u8))
}

pub open spec fn set_wf(s: Seq<EntryView>) -> bool {
    forall|i: int| 0 <= i < s.len() ==> entry_wf(#[trigger] s[i])
}

/// Keys are unique within one parameter set.
pub open spec fn keys_unique(s: Seq<EntryView>) -> bool {
    forall|i: int, j: int| 0 <= i < j < s.len() ==> s[i].key != s[j].key
}

/// The bytes of the mandatory `path` key.
pub open spec fn path_key() -> Seq<u8> {
    seq![112u8, 97u8, 116u8, 104u8]
}

/// Whether the set carries a `path` entry naming the root filesystem.
pub open spec fn has_path(s: Seq<EntryView>) -> bool {
    exists|i: int| 0 <= i < s.len() && (#[trigger] s[i]).key == path_key()
}

/// The wire bytes of a key: the key itself plus a null terminator.
pub open spec fn key_payload(k: Seq<u8>) -> Seq<u8> {
    k + seq![0u8]
}

/// The wire bytes of a value payload.
pub open spec fn value_payload(v: ValueView) -> Seq<u8> {
    match v {
        ValueView::Integer(i) => i32_payload(i),
        ValueView::Text(t) => t + seq![0u8],
        ValueView::Flag => Seq::<u8>::empty(),
    }
}

/// The wire bytes one entry contributes to the flat buffer.
pub open spec fn entry_payload(e: EntryView) -> Seq<u8> {
    key_payload(e.key) + value_payload(e.value)
}

/// The whole flat buffer: each entry's bytes in order.
pub open spec fn set_payload(s: Seq<EntryView>) -> Seq<u8>
    decreases s.len(),
{
    if s.len() == 0 {
        Seq::<u8>::empty()
    } else {
        entry_payload(s[0]) + set_payload(s.drop_first())
    }
}

pub proof fn lemma_set_payload_push(s: Seq<EntryView>, e: EntryView)
    ensures
        set_payload(s.push(e)) == set_payload(s) + entry_payload(e),
    decreases s.len(),
{
    if s.len() == 0 {
        assert(s.push(e).drop_first() =~= s);
        assert(set_payload(s.push(e)) =~= set_payload(s) + entry_payload(e));
    } else {
        assert(s.push(e).drop_first() =~= s.drop_first().push(e));
        lemma_set_payload_push(s.drop_first(), e);
        assert(set_payload(s.push(e)) =~= set_payload(s) + entry_payload(e));
    }
}

/// One `(offset, length)` pair of the scatter/gather table handed to the
/// kernel call; it references a range of the flat buffer.
#[derive(Clone, Copy, Debug, PartialEq, Eq, Structural)]
pub struct Descriptor {
    pub offset: usize,
    pub length: usize,
}

/// The marshalled form of a parameter set: the owned flat buffer together
/// with its descriptor table, two descriptors per entry. The buffer must
/// stay in place for as long as the table is consumed; owning both in one
/// value keeps every descriptor range valid for that whole duration.
#[derive(Clone, Debug, PartialEq)]
pub struct Marshalled {
    pub buf: Vec<u8>,
    pub descs: Vec<Descriptor>,
}

/// Descriptor pair `2*i`, `2*i + 1` covers entry `i`: the first names the
/// range of the null-terminated key, the second the range of the value
/// payload, and a flag's payload descriptor has length zero.
pub open spec fn entry_covered(
    buf: Seq<u8>,
    descs: Seq<Descriptor>,
    s: Seq<EntryView>,
    i: int,
) -> bool {
    let dk = descs[2 * i];
    let dv = descs[2 * i + 1];
    &&& dk.offset + dk.length <= buf.len()
    &&& dv.offset + dv.length <= buf.len()
    &&& buf.subrange(dk.offset as int, dk.offset + dk.length) == key_payload(s[i].key)
    &&& buf.subrange(dv.offset as int, dv.offset + dv.length) == value_payload(s[i].value)
    &&& (s[i].value is Flag ==> dv.length == 0)
}

/// The descriptor table describes exactly the entries of `s`, in order.
pub open spec fn descs_cover(buf: Seq<u8>, descs: Seq<Descriptor>, s: Seq<EntryView>) -> bool {
    &&& descs.len() == 2 * s.len()
    &&& forall|i: int| 0 <= i < s.len() ==> entry_covered(buf, descs, s, i)
}

/// Marshalling rejects a set that lacks the mandatory `path` entry.
#[derive(Clone, Copy, Debug, PartialEq, Eq, Structural)]
pub enum MarshalError {
    MissingPath,
}

impl ParameterSet {
    /// An empty parameter set.
    pub fn new() -> (r: ParameterSet)
        ensures
            r@ == Seq::<EntryView>::empty(),
    {
        let r = ParameterSet { entries: Vec::new() };
        assert(r@ =~= Seq::<EntryView>::empty());
        r
    }

    pub fn len(&self) -> (n: usize)
        ensures
            n == self@.len(),
    {
        self.entries.len()
    }

    /// Appends an entry; order of insertion is kept.
    pub fn push_entry(&mut self, entry: ParamEntry)
        ensures
            final(self)@ == old(self)@.push(entry@),
    {
        let ghost pre = self@;
        let ghost ev = entry@;
        self.entries.push(entry);
        assert(self@ =~= pre.push(ev));
    }

    /// Appends a 4-byte integer parameter.
    pub fn push_integer(&mut self, key: Vec<u8>, v: i32)
        ensures
            final(self)@ == old(self)@.push(EntryView { key: key@, value: ValueView::Integer(v) }),
    {
        self.push_entry(ParamEntry { key, value: ParamValue::Integer(v) });
    }

    /// Appends a null-terminated text parameter.
    pub fn push_text(&mut self, key: Vec<u8>, text: Vec<u8>)
        ensures
            final(self)@ == old(self)@.push(EntryView { key: key@, value: ValueView::Text(text@) }),
    {
        self.push_entry(ParamEntry { key, value: ParamValue::Text(text) });
    }

    /// Appends a presence-only flag parameter.
    pub fn push_flag(&mut self, key: Vec<u8>)
        ensures
            final(self)@ == old(self)@.push(EntryView { key: key@, value: ValueView::Flag }),
    {
        self.push_entry(ParamEntry { key, value: ParamValue::Flag });
    }

    /// Removes and returns the last entry, if any.
    pub fn pop_entry(&mut self) -> (r: Option<ParamEntry>)
        ensures
            old(self)@.len() == 0 ==> r is None && final(self)@ == old(self)@,
            old(self)@.len() > 0 ==> (r matches Some(e) && e@ == old(self)@.last() && final(self)@
                == old(self)@.drop_last()),
    {
        let ghost pre = self@;
        let r = self.entries.pop();
        proof {
            if pre.len() > 0 {
                assert(self@ =~= pre.drop_last());
            } else {
                assert(self@ =~= pre);
            }
        }
        r
    }

    /// Whether a `path` entry is present.
    pub fn contains_path(&self) -> (r: bool)
        ensures
            r == has_path(self@),
    {
        let pk = path_key_bytes();
        let n = self.entries.len();
        let mut i: usize = 0;
        while i < n
            invariant
                n == self.entries@.len(),
                i <= n,
                pk@ == path_key(),
                self@.len() == n,
                forall|j: int| 0 <= j < i ==> (#[trigger] self@[j]).key != path_key(),
            decreases n - i,
        {
            assert(self@[i as int].key == self.entries@[i as int].key@);
            if bytes_eq(&self.entries[i].key, &pk) {
                assert(self@[i as int].key == path_key());
                return true;
            }
            i += 1;
        }
        false
    }

    /// Marshals the set into the flat buffer and descriptor table that the
    /// kernel creation call consumes. Fails exactly when the mandatory
    /// `path` entry is missing.
    pub fn marshal(&self) -> (r: Result<Marshalled, MarshalError>)
        requires
            set_wf(self@),
        ensures
            r is Ok <==> has_path(self@),
            r matches Ok(m) ==> m.buf@ == set_payload(self@) && descs_cover(m.buf@, m.descs@, self@),
            r matches Err(e) ==> e == MarshalError::MissingPath,
    {
        if !self.contains_path() {
            return Err(MarshalError::MissingPath);
        }
        let mut buf: Vec<u8> = Vec::new();
        let mut descs: Vec<Descriptor> = Vec::new();
        let n = self.entries.len();
        let mut idx: usize = 0;
        while idx < n
            invariant
                set_wf(self@),
                n == self.entries@.len(),
                self@.len() == n,
                idx <= n,
                buf@ == set_payload(self@.take(idx as int)),
                descs@.len() == 2 * idx,
                forall|i: int| 0 <= i < idx ==> entry_covered(buf@, descs@, self@, i),
            decreases n - idx,
        {
            let ghost pre_entries = self@.take(idx as int);
            let ghost ev = self@[idx as int];
            let ghost buf0 = buf@;
            let ghost descs0 = descs@;
            let e = &self.entries[idx];
            assert(e@ == ev);
            assert(entry_wf(ev));

            let koff = buf.len();
            push_bytes(&mut buf, &e.key);
            buf.push(0);
            let klen = buf.len() - koff;
            descs.push(Descriptor { offset: koff, length: klen });
            assert(buf@.subrange(koff as int, koff + klen) =~= key_payload(ev.key));

            let voff = buf.len();
            match &e.value {
                ParamValue::Integer(i) => {
                    let p = crate::codec::encode_i32(*i);
                    push_bytes(&mut buf, &p);
                },
                ParamValue::Text(t) => {
                    push_bytes(&mut buf, t);
                    buf.push(0);
                },
                ParamValue::Flag => {},
            }
            let vlen = buf.len() - voff;
            descs.push(Descriptor { offset: voff, length: vlen });

            proof {
                assert(buf@.subrange(voff as int, voff + vlen) =~= value_payload(ev.value));
                assert(buf@.subrange(koff as int, koff + klen) =~= key_payload(ev.key));
                lemma_set_payload_push(pre_entries, ev);
                assert(pre_entries.push(ev) =~= self@.take(idx as int + 1));
                assert(buf@ =~= set_payload(self@.take(idx as int)) + entry_payload(ev));
                assert(buf@ =~= set_payload(self@.take(idx as int + 1)));
                assert(entry_covered(buf@, descs@, self@, idx as int));
                assert forall|i: int| 0 <= i < idx implies entry_covered(
                    buf@,
                    descs@,
                    self@,
                    i,
                ) by {
                    assert(entry_covered(buf0, descs0, self@, i));
                    let dk = descs0[2 * i];
                    let dv = descs0[2 * i + 1];
                    assert(descs@[2 * i] == dk);
                    assert(descs@[2 * i + 1] == dv);
                    assert(buf@.subrange(dk.offset as int, dk.offset + dk.length) =~= buf0
                        .subrange(dk.offset as int, dk.offset + dk.length));
                    assert(buf@.subrange(dv.offset as int, dv.offset + dv.length) =~= buf0
                        .subrange(dv.offset as int, dv.offset + dv.length));
                }
            }
            idx += 1;
        }
        assert(self@.take(n as int) =~= self@);
        Ok(Marshalled { buf, descs })
    }
}

/// A payload that reads back as text: non-empty, null-terminated, with no
/// interior null byte.
pub open spec fn text_image(p: Seq<u8>) -> bool {
    &&& p.len() >= 1
    &&& p[p.len() - 1] == 0
    &&& forall|j: int| 0 <= j < p.len() - 1 ==> p[j] != 0
}

/// Reads a value payload back into its tagged value. An empty payload is a
/// flag; a null-terminated payload is text; any other 4-byte payload is an
/// integer.
pub open spec fn decode_value(p: Seq<u8>) -> Option<ValueView> {
    if p.len() == 0 {
        Some(ValueView::Flag)
    } else if text_image(p) {
        Some(ValueView::Text(p.take(p.len() - 1)))
    } else if p.len() == 4 {
        Some(ValueView::Integer(crate::codec::i32_from_payload(p)))
    } else {
        None
    }
}

/// Reads a key payload back: it must be null-terminated text.
pub open spec fn decode_key(p: Seq<u8>) -> Option<Seq<u8>> {
    if text_image(p) {
        Some(p.take(p.len() - 1))
    } else {
        None
    }
}

/// Whether a descriptor stays within the buffer.
pub open spec fn desc_in_bounds(buf: Seq<u8>, d: Descriptor) -> bool {
    d.offset + d.length <= buf.len()
}

/// The buffer range a descriptor names.
pub open spec fn desc_bytes(buf: Seq<u8>, d: Descriptor) -> Seq<u8> {
    buf.subrange(d.offset as int, d.offset + d.length)
}

/// Reads one (key descriptor, value descriptor) pair back into an entry.
pub open spec fn decode_pair(buf: Seq<u8>, dk: Descriptor, dv: Descriptor) -> Option<EntryView> {
    if desc_in_bounds(buf, dk) && desc_in_bounds(buf, dv) {
        match (decode_key(desc_bytes(buf, dk)), decode_value(desc_bytes(buf, dv))) {
            (Some(k), Some(v)) => Some(EntryView { key: k, value: v }),
            _ => None,
        }
    } else {
        None
    }
}

/// Reads a whole descriptor table back into the ordered entry sequence.
pub open spec fn decode_entries(buf: Seq<u8>, descs: Seq<Descriptor>) -> Option<Seq<EntryView>>
    decreases descs.len(),
{
    if descs.len() == 0 {
        Some(Seq::<EntryView>::empty())
    } else if descs.len() == 1 {
        None
    } else {
        match decode_pair(buf, descs[0], descs[1]) {
            Some(e) => match decode_entries(buf, descs.subrange(2, descs.len() as int)) {
                Some(rest) => Some(seq![e] + rest),
                None => None,
            },
            None => None,
        }
    }
}

/// Prefixes every decoded suffix with the entries already read.
pub open spec fn with_acc(acc: Seq<EntryView>, o: Option<Seq<EntryView>>) -> Option<
    Seq<EntryView>,
> {
    match o {
        Some(rest) => Some(acc + rest),
        None => None,
    }
}

proof fn lemma_decode_entries_odd(buf: Seq<u8>, descs: Seq<Descriptor>)
    requires
        descs.len() % 2 == 1,
    ensures
        decode_entries(buf, descs) is None,
    decreases descs.len(),
{
    if descs.len() > 1 {
        lemma_decode_entries_odd(buf, descs.subrange(2, descs.len() as int));
    }
}

/// Reads the value payload a descriptor names.
fn decode_value_exec(buf: &Vec<u8>, d: Descriptor) -> (r: Option<ParamValue>)
    requires
        desc_in_bounds(buf@, d),
    ensures
        match r {
            Some(v) => decode_value(desc_bytes(buf@, d)) == Some(v@),
            None => decode_value(desc_bytes(buf@, d)) is None,
        },
{
    let ghost p = desc_bytes(buf@, d);
    let off = d.offset;
    let len = d.length;
    if len == 0 {
        return Some(ParamValue::Flag);
    }
    let blen = buf.len();
    assert(off + len <= blen);
    assert(p[len - 1] == buf@[off + len - 1]);
    let last = off + len - 1;
    let is_text = buf[last] == 0 && !crate::util::contains_byte(buf, off, last, 0);
    if is_text {
        assert(text_image(p)) by {
            assert forall|j: int| 0 <= j < p.len() - 1 implies p[j] != 0 by {
                assert(p[j] == buf@[off + j]);
            }
        }
        let t = crate::util::subvec(buf, off, off + len - 1);
        assert(t@ =~= p.take(p.len() - 1));
        return Some(ParamValue::Text(t));
    }
    assert(!text_image(p)) by {
        if text_image(p) {
            assert forall|j: int| off <= j < off + len - 1 implies buf@[j] != 0 by {
                assert(p[j - off] == buf@[j]);
            }
        }
    }
    if len == 4 {
        let v = crate::codec::decode_i32(buf[off], buf[off + 1], buf[off + 2], buf[off + 3]);
        assert(seq![buf@[off as int], buf@[off + 1], buf@[off + 2], buf@[off + 3]] =~= p);
        return Some(ParamValue::Integer(v));
    }
    None
}

/// Reads the key a descriptor names.
fn decode_key_exec(buf: &Vec<u8>, d: Descriptor) -> (r: Option<Vec<u8>>)
    requires
        desc_in_bounds(buf@, d),
    ensures
        match r {
            Some(k) => decode_key(desc_bytes(buf@, d)) == Some(k@),
            None => decode_key(desc_bytes(buf@, d)) is None,
        },
{
    let ghost p = desc_bytes(buf@, d);
    let off = d.offset;
    let len = d.length;
    if len == 0 {
        return None;
    }
    let blen = buf.len();
    assert(off + len <= blen);
    assert(p[len - 1] == buf@[off + len - 1]);
    let last = off + len - 1;
    if buf[last] != 0 {
        return None;
    }
    if crate::util::contains_byte(buf, off, last, 0) {
        assert(!text_image(p)) by {
            let j = choose|j: int| off <= j < off + len - 1 && buf@[j] == 0;
            assert(p[j - off] == buf@[j]);
        }
        return None;
    }
    assert(text_image(p)) by {
        assert forall|j: int| 0 <= j < p.len() - 1 implies p[j] != 0 by {
            assert(p[j] == buf@[off + j]);
        }
    }
    let k = crate::util::subvec(buf, off, off + len - 1);
    assert(k@ =~= p.take(p.len() - 1));
    Some(k)
}

/// Reads a marshalled buffer and descriptor table back into the ordered
/// parameter set it encodes, if it is well-formed.
pub fn unmarshal(m: &Marshalled) -> (r: Option<ParameterSet>)
    ensures
        match r {
            Some(ps) => decode_entries(m.buf@, m.descs@) == Some(ps@),
            None => decode_entries(m.buf@, m.descs@) is None,
        },
{
    let nd = m.descs.len();
    if nd % 2 != 0 {
        proof {
            lemma_decode_entries_odd(m.buf@, m.descs@);
        }
        return None;
    }
    let mut out = ParameterSet::new();
    proof {
        assert(m.descs@.subrange(0, nd as int) =~= m.descs@);
        match decode_entries(m.buf@, m.descs@) {
            Some(all) => {
                assert(Seq::<EntryView>::empty() + all =~= all);
            },
            None => {},
        }
    }
    let mut k: usize = 0;
    while k < nd
        invariant
            nd == m.descs@.len(),
            nd % 2 == 0,
            k % 2 == 0,
            k <= nd,
            decode_entries(m.buf@, m.descs@) == with_acc(
                out@,
                decode_entries(m.buf@, m.descs@.subrange(k as int, nd as int)),
            ),
        decreases nd - k,
    {
        let ghost suffix = m.descs@.subrange(k as int, nd as int);
        assert(suffix.len() >= 2);
        assert(suffix[0] == m.descs@[k as int]);
        assert(suffix[1] == m.descs@[k as int + 1]);
        assert(suffix.subrange(2, suffix.len() as int) =~= m.descs@.subrange(
            k as int + 2,
            nd as int,
        ));
        let dk = m.descs[k];
        let dv = m.descs[k + 1];
        let blen = m.buf.len();
        if dk.length > blen || dk.offset > blen - dk.length || dv.length > blen || dv.offset > blen
            - dv.length {
            assert(decode_pair(m.buf@, dk, dv) is None);
            return None;
        }
        let key = match decode_key_exec(&m.buf, dk) {
            Some(key) => key,
            None => {
                assert(decode_pair(m.buf@, dk, dv) is None);
                return None;
            },
        };
        let value = match decode_value_exec(&m.buf, dv) {
            Some(value) => value,
            None => {
                assert(decode_pair(m.buf@, dk, dv) is None);
                return None;
            },
        };
        let ghost acc0 = out@;
        let entry = ParamEntry { key, value };
        assert(decode_pair(m.buf@, dk, dv) == Some(entry@));
        out.push_entry(entry);
        proof {
            assert(out@ =~= acc0 + seq![entry@]);
            match decode_entries(m.buf@, m.descs@.subrange(k as int + 2, nd as int)) {
                Some(rest) => {
                    assert(acc0 + (seq![entry@] + rest) =~= (acc0 + seq![entry@]) + rest);
                },
                None => {},
            }
        }
        k += 2;
    }
    assert(m.descs@.subrange(nd as int, nd as int) =~= Seq::<Descriptor>::empty());
    assert(out@ + Seq::<EntryView>::empty() =~= out@);
    Some(out)
}

proof fn lemma_key_payload_decodes(k: Seq<u8>)
    requires
        !k.contains(0u8),
    ensures
        text_image(key_payload(k)),
        decode_key(key_payload(k)) == Some(k),
{
    let p = key_payload(k);
    assert(p[p.len() - 1] == 0);
    assert forall|j: int| 0 <= j < p.len() - 1 implies p[j] != 0 by {
        assert(p[j] == k[j]);
        if k[j] == 0 {
            assert(k.contains(0u8));
        }
    }
    assert(p.take(p.len() - 1) =~= k);
}

proof fn lemma_value_payload_decodes(v: ValueView)
    requires
        v matches ValueView::Text(t) ==> !t.contains(0u8),
        v matches ValueView::Integer(i) ==> !text_image(i32_payload(i)),
    ensures
        decode_value(value_payload(v)) == Some(v),
{
    match v {
        ValueView::Integer(i) => {
            assert(i32_payload(i).len() == 4);
            crate::codec::lemma_i32_payload_roundtrip(i);
        },
        ValueView::Text(t) => {
            let p = value_payload(v);
            assert(p[p.len() - 1] == 0);
            assert forall|j: int| 0 <= j < p.len() - 1 implies p[j] != 0 by {
                assert(p[j] == t[j]);
                if t[j] == 0 {
                    assert(t.contains(0u8));
                }
            }
            assert(text_image(p));
            assert(p.take(p.len() - 1) =~= t);
        },
        ValueView::Flag => {
            assert(value_payload(v).len() == 0);
        },
    }
}

/// No integer entry's payload may read back as text; without this the wire
/// form of an integer and of a three-byte text are the same bytes.
pub open spec fn set_unambiguous(s: Seq<EntryView>) -> bool {
    forall|i: int| 0 <= i < s.len() ==> ((#[trigger] s[i]).value matches ValueView::Integer(v)
        ==> !text_image(i32_payload(v)))
}

/// Marshalling round-trip law: reading a marshalled descriptor table back
/// reconstructs the original ordered (key, tagged value) sequence exactly,
/// zero-length flag payloads included. `descs_cover` is what `marshal`
/// ensures of its output.
pub proof fn lemma_marshal_roundtrip(buf: Seq<u8>, descs: Seq<Descriptor>, s: Seq<EntryView>)
    requires
        set_wf(s),
        set_unambiguous(s),
        descs_cover(buf, descs, s),
    ensures
        decode_entries(buf, descs) == Some(s),
    decreases s.len(),
{
    if s.len() == 0 {
        assert(decode_entries(buf, descs) == Some(Seq::<EntryView>::empty()));
        assert(Seq::<EntryView>::empty() =~= s);
    } else {
        assert(entry_covered(buf, descs, s, 0));
        let dk = descs[0];
        let dv = descs[1];
        assert(desc_bytes(buf, dk) == key_payload(s[0].key));
        assert(desc_bytes(buf, dv) == value_payload(s[0].value));
        assert(entry_wf(s[0]));
        lemma_key_payload_decodes(s[0].key);
        lemma_value_payload_decodes(s[0].value);
        assert(decode_pair(buf, dk, dv) == Some(s[0]));

        let descs2 = descs.subrange(2, descs.len() as int);
        let s2 = s.drop_first();
        assert(descs_cover(buf, descs2, s2)) by {
            assert forall|i: int| 0 <= i < s2.len() implies entry_covered(buf, descs2, s2, i) by {
                assert(entry_covered(buf, descs, s, i + 1));
                assert(descs2[2 * i] == descs[2 * (i + 1)]);
                assert(descs2[2 * i + 1] == descs[2 * (i + 1) + 1]);
                assert(s2[i] == s[i + 1]);
            }
        }
        assert(set_wf(s2)) by {
            assert forall|i: int| 0 <= i < s2.len() implies entry_wf(#[trigger] s2[i]) by {
                assert(s2[i] == s[i + 1]);
            }
        }
        assert(set_unambiguous(s2)) by {
            assert forall|i: int| 0 <= i < s2.len() implies ((#[trigger] s2[i]).value matches
                ValueView::Integer(v) ==> !text_image(i32_payload(v))) by {
                assert(s2[i] == s[i + 1]);
            }
        }
        lemma_marshal_roundtrip(buf, descs2, s2);
        assert(seq![s[0]] + s2 =~= s);
    }
}

/// The `path` key as bytes.
pub fn path_key_bytes() -> (r: Vec<u8>)
    ensures
        r@ == path_key(),
{
    let mut r: Vec<u8> = Vec::new();
    r.push(112);
    r.push(97);
    r.push(116);
    r.push(104);
    assert(r@ =~= path_key());
    r
}

} // verus!
