//! AMF0 script data parsing (the values of FLV script tags).
use vstd::prelude::*;
use crate::bytes::{be16_at, be24_at, be32_at, be64_at, read_be_u16, read_be_u24, read_be_u32, read_be_u64, copy_range};

verus! {

/// Why script data could not be read.
#[derive(Clone, Copy, PartialEq, Eq, Structural, Debug)]
pub enum AMFError {
    /// A value announces more bytes than the data holds.
    DataNotEnough,
}

/// A parsed AMF0 value. Numbers and dates keep the raw IEEE-754 bits of their doubles.
pub enum AMFValue {
    Undefined,
    Date { timestamp: u64, local_time_offset: u16 },
    Number(u64),
    Boolean(bool),
    String(Vec<u8>),
    Object(Vec<AMFProperty>),
    Array(Vec<AMFValue>),
}

/// One named property of an AMF object, in the order of the data.
pub struct AMFProperty {
    pub name: Vec<u8>,
    pub value: AMFValue,
}

/// Mathematical form of an [`AMFValue`].
pub enum AmfV {
    Undefined,
    Date(u64, u16),
    Number(u64),
    Boolean(bool),
    String(Seq<u8>),
    Object(Seq<(Seq<u8>, AmfV)>),
    Array(Seq<AmfV>),
}

pub open spec fn view_value(v: AMFValue) -> AmfV
    decreases v, 0nat,
{
    match v {
        AMFValue::Undefined => AmfV::Undefined,
        AMFValue::Date { timestamp, local_time_offset } => AmfV::Date(timestamp, local_time_offset),
        AMFValue::Number(n) => AmfV::Number(n),
        AMFValue::Boolean(b) => AmfV::Boolean(b),
        AMFValue::String(s) => AmfV::String(s@),
        AMFValue::Object(props) => AmfV::Object(view_props(props@, props@.len())),
        AMFValue::Array(elems) => AmfV::Array(view_elems(elems@, elems@.len())),
    }
}

pub open spec fn view_props(ps: Seq<AMFProperty>, n: nat) -> Seq<(Seq<u8>, AmfV)>
    decreases ps, n,
{
    if n == 0 || n > ps.len() {
        Seq::empty()
    } else {
        view_props(ps, (n - 1) as nat).push((ps[n - 1].name@, view_value(ps[n - 1].value)))
    }
}

pub open spec fn view_elems(es: Seq<AMFValue>, n: nat) -> Seq<AmfV>
    decreases es, n,
{
    if n == 0 || n > es.len() {
        Seq::empty()
    } else {
        view_elems(es, (n - 1) as nat).push(view_value(es[n - 1]))
    }
}


proof fn lemma_view_props_push(ps: Seq<AMFProperty>, x: AMFProperty, n: nat)
    requires
        n <= ps.len(),
    ensures
        view_props(ps.push(x), n) == view_props(ps, n),
    decreases n,
{
    if n > 0 {
        lemma_view_props_push(ps, x, (n - 1) as nat);
        assert(ps.push(x)[n - 1] == ps[n - 1]);
    }
}

proof fn lemma_view_elems_push(es: Seq<AMFValue>, x: AMFValue, n: nat)
    requires
        n <= es.len(),
    ensures
        view_elems(es.push(x), n) == view_elems(es, n),
    decreases n,
{
    if n > 0 {
        lemma_view_elems_push(es, x, (n - 1) as nat);
        assert(es.push(x)[n - 1] == es[n - 1]);
    }
}

// ---------------------------------------------------------------- the grammar

/// An AMF string at `off` inside a field of `size` bytes: a 16-bit length then
/// the bytes. The bytes may run past the field, not past the buffer.
pub open spec fn amf_string(buf: Seq<u8>, off: int, size: int) -> Option<(Seq<u8>, nat)> {
    if size < 2 || off < 0 || off + size > buf.len() {
        None
    } else {
        let len = be16_at(buf, off);
        if off + 2 + len > buf.len() {
            None
        } else {
            Some((buf.subrange(off + 2, off + 2 + len), (2 + len) as nat))
        }
    }
}

/// An AMF long string: a 32-bit length then the bytes.
pub open spec fn amf_long_string(buf: Seq<u8>, off: int, size: int) -> Option<(Seq<u8>, nat)> {
    if size < 4 || off < 0 || off + size > buf.len() {
        None
    } else {
        let len = be32_at(buf, off);
        if off + 4 + len > buf.len() {
            None
        } else {
            Some((buf.subrange(off + 4, off + 4 + len), (4 + len) as nat))
        }
    }
}

/// Where an object ends: after its properties, plus the end marker when one is there.
pub open spec fn object_tail(buf: Seq<u8>, off: int, size: int, offset: int) -> int {
    if offset <= size - 3 && be24_at(buf, off + offset) == 9 {
        offset + 3
    } else {
        offset
    }
}

/// `3` when the last three bytes of the field are an object end marker.
pub open spec fn terminal_of(buf: Seq<u8>, off: int, size: int) -> int {
    if be24_at(buf, off + size - 3) == 9 { 3 } else { 0 }
}

pub open spec fn loop_measure(size: int, offset: int) -> int {
    if offset <= size { size - offset } else { 0 }
}

/// An AMF value at `off` inside a field of `size` bytes: the value, the bytes
/// it takes, and whether it is an object end marker. `None` when the data is short.
pub open spec fn amf_value(buf: Seq<u8>, off: int, size: int) -> Option<(AmfV, nat, bool)>
    decreases size, 2nat, 0int,
{
    if size < 1 || off < 0 || off + size > buf.len() {
        None
    } else {
        let t = buf[off];
        if t == 0 {
            if size < 9 { None } else { Some((AmfV::Number(be64_at(buf, off + 1) as u64), 9nat, false)) }
        } else if t == 1 {
            if size < 2 { None } else { Some((AmfV::Boolean(buf[off + 1] > 0), 2nat, false)) }
        } else if t == 2 {
            match amf_string(buf, off + 1, size - 1) {
                None => None,
                Some((s, n)) => Some((AmfV::String(s), 1 + n, false)),
            }
        } else if t == 3 || t == 8 {
            let start: int = if t == 3 { 1 } else { 5 };
            let limit: int = if t == 3 { 4 } else { 8 };
            if size < limit {
                None
            } else {
                match amf_props(buf, off, size, terminal_of(buf, off, size), limit, start, Seq::empty()) {
                    None => None,
                    Some((props, offset)) => Some((
                        AmfV::Object(props),
                        object_tail(buf, off, size, offset as int) as nat,
                        false,
                    )),
                }
            }
        } else if t == 9 {
            Some((AmfV::Undefined, 1nat, true))
        } else if t == 10 {
            if size < 5 {
                None
            } else {
                match amf_elems(buf, off, size, 5, be32_at(buf, off + 1) as nat, Seq::empty()) {
                    None => None,
                    Some((elems, offset)) => Some((AmfV::Array(elems), offset, false)),
                }
            }
        } else if t == 11 {
            if size - 1 < 10 {
                None
            } else {
                Some((
                    AmfV::Date(be64_at(buf, off + 1) as u64, be16_at(buf, off + 9) as u16),
                    11nat,
                    false,
                ))
            }
        } else if t == 12 {
            match amf_string(buf, off + 1, size - 1) {
                None => None,
                Some((s, n)) => Some((AmfV::String(s), 1 + n, false)),
            }
        } else {
            Some((AmfV::Undefined, size as nat, false))
        }
    }
}

/// Object properties from `offset` on, while `offset < size - limit`, stopping at an end marker.
pub open spec fn amf_props(
    buf: Seq<u8>,
    off: int,
    size: int,
    terminal: int,
    limit: int,
    offset: int,
    acc: Seq<(Seq<u8>, AmfV)>,
) -> Option<(Seq<(Seq<u8>, AmfV)>, nat)>
    decreases size, 1nat, loop_measure(size, offset),
{
    if offset < 1 || !(offset < size - limit) || terminal < 0 || terminal > 3 || limit < 3 {
        Some((acc, offset as nat))
    } else {
        let osize = size - offset - terminal;
        if osize < 3 {
            None
        } else {
            match amf_string(buf, off + offset, osize) {
                None => None,
                Some((name, n)) => if n >= osize {
                    None
                } else {
                    match amf_value(buf, off + offset + n, osize - n) {
                        None => None,
                        Some((v, m, end)) => if end {
                            Some((acc, offset as nat))
                        } else {
                            amf_props(buf, off, size, terminal, limit, offset + n + m, acc.push((name, v)))
                        },
                    }
                },
            }
        }
    }
}

/// A named property: a string, then a value.
pub open spec fn amf_object(buf: Seq<u8>, off: int, size: int) -> Option<(Seq<u8>, AmfV, nat, bool)> {
    if size < 3 {
        None
    } else {
        match amf_string(buf, off, size) {
            None => None,
            Some((name, n)) => if n >= size {
                None
            } else {
                match amf_value(buf, off + n, size - n) {
                    None => None,
                    Some((v, m, end)) => Some((name, v, n + m, end)),
                }
            },
        }
    }
}

/// The name/value pair of a script tag: `Some(None)` when they are not a string and an object.
pub open spec fn amf_script(buf: Seq<u8>, off: int, size: int) -> Option<Option<(Seq<u8>, Seq<(Seq<u8>, AmfV)>)>> {
    match amf_value(buf, off, size) {
        None => None,
        Some((name, n, _e)) => if n >= size {
            None
        } else {
            match amf_value(buf, off + n, size - n) {
                None => None,
                Some((value, _m, _e2)) => match (name, value) {
                    (AmfV::String(s), AmfV::Object(o)) => Some(Some((s, o))),
                    _ => Some(None),
                },
            }
        },
    }
}

/// `count` more array elements from `offset` on.
pub open spec fn amf_elems(
    buf: Seq<u8>,
    off: int,
    size: int,
    offset: int,
    count: nat,
    acc: Seq<AmfV>,
) -> Option<(Seq<AmfV>, nat)>
    decreases size, 1nat, count,
{
    if count == 0 {
        Some((acc, offset as nat))
    } else if offset < 1 || offset >= size {
        None
    } else {
        match amf_value(buf, off + offset, size - offset) {
            None => None,
            Some((v, n, _e)) => amf_elems(buf, off, size, offset + n, (count - 1) as nat, acc.push(v)),
        }
    }
}


// ---------------------------------------------------------------- reading

fn parseString(arrayBuffer: &[u8], dataOffset: usize, dataSize: usize) -> (r: Option<(Vec<u8>, usize)>)
    ensures
        match amf_string(arrayBuffer@, dataOffset as int, dataSize as int) {
            None => r is None,
            Some((s, n)) => r is Some && r.unwrap().0@ == s && r.unwrap().1 as nat == n,
        },
{
    if dataSize < 2 || dataOffset > arrayBuffer.len() || dataSize > arrayBuffer.len() - dataOffset {
        return None;
    }
    let length = read_be_u16(&arrayBuffer[dataOffset..dataOffset + dataSize]) as usize;
    if length > arrayBuffer.len() - dataOffset - 2 {
        return None;
    }
    let str = copy_range(arrayBuffer, dataOffset + 2, dataOffset + 2 + length);
    Some((str, 2 + length))
}

/// Reads a date: the milliseconds since the epoch as the bits of a double, then the local
/// time offset in minutes, which the caller adds to get UTC time.
fn parseDate(arrayBuffer: &[u8], dataOffset: usize, dataSize: usize) -> (r: Option<(u64, u16)>)
    requires
        dataOffset + dataSize <= arrayBuffer@.len(),
    ensures
        dataSize < 10 ==> r is None,
        dataSize >= 10 ==> r == Some((be64_at(arrayBuffer@, dataOffset as int) as u64, be16_at(arrayBuffer@, dataOffset + 8) as u16)),
{
    if dataSize < 10 {
        return None;
    }
    let len = arrayBuffer.len();
    let v = &arrayBuffer[dataOffset..dataOffset + dataSize];
    let timestamp = read_be_u64(v);
    let localTimeOffset = read_be_u16(&v[8..dataSize]);
    Some((timestamp, localTimeOffset))
}

fn parseLongString(arrayBuffer: &[u8], dataOffset: usize, dataSize: usize) -> (r: Option<(Vec<u8>, usize)>)
    ensures
        match amf_long_string(arrayBuffer@, dataOffset as int, dataSize as int) {
            None => r is None,
            Some((s, n)) => r is Some && r.unwrap().0@ == s && r.unwrap().1 as nat == n,
        },
{
    if dataSize < 4 || dataOffset > arrayBuffer.len() || dataSize > arrayBuffer.len() - dataOffset {
        return None;
    }
    let length = read_be_u32(&arrayBuffer[dataOffset..dataOffset + dataSize]) as usize;
    if arrayBuffer.len() - dataOffset < 4 || length > arrayBuffer.len() - dataOffset - 4 {
        return None;
    }
    let str = copy_range(arrayBuffer, dataOffset + 4, dataOffset + 4 + length);
    Some((str, 4 + length))
}

/// Result of reading one value: the value, its size, and whether it ends an object.
pub struct Data {
    pub data: AMFValue,
    pub size: usize,
    pub objectEnd: bool,
}

pub open spec fn data_is(d: Data, p: (AmfV, nat, bool)) -> bool {
    view_value(d.data) == p.0 && d.size as nat == p.1 && d.objectEnd == p.2
}

/// A name/value pair read from the data.
pub struct KeyValue {
    pub name: Vec<u8>,
    pub value: AMFValue,
}

fn parseObject(arrayBuffer: &[u8], dataOffset: usize, dataSize: usize) -> (r: Option<(KeyValue, usize, bool)>)
    requires
        dataOffset + dataSize <= arrayBuffer@.len(),
    ensures
        match amf_object(arrayBuffer@, dataOffset as int, dataSize as int) {
            None => r is None,
            Some((name, v, n, end)) => r is Some && r.unwrap().0.name@ == name && view_value(
                r.unwrap().0.value,
            ) == v && r.unwrap().1 as nat == n && r.unwrap().2 == end,
        },
    decreases dataSize, 0nat, 0nat,
{
    let buf_len = arrayBuffer.len();
    if dataSize < 3 {
        return None;
    }
    match parseString(arrayBuffer, dataOffset, dataSize) {
        None => None,
        Some((name, n)) => {
            if n >= dataSize {
                return None;
            }
            match parseValue(arrayBuffer, dataOffset + n, dataSize - n) {
                None => None,
                Some(d) => {
                    proof {
                        lemma_value_size_bound(arrayBuffer@, dataOffset + n, dataSize - n);
                    }
                    Some((KeyValue { name, value: d.data }, n + d.size, d.objectEnd))
                },
            }
        },
    }
}

fn parseVariable(arrayBuffer: &[u8], dataOffset: usize, dataSize: usize) -> (r: Option<(KeyValue, usize, bool)>)
    requires
        dataOffset + dataSize <= arrayBuffer@.len(),
    ensures
        match amf_object(arrayBuffer@, dataOffset as int, dataSize as int) {
            None => r is None,
            Some((name, v, n, end)) => r is Some && r.unwrap().0.name@ == name && view_value(
                r.unwrap().0.value,
            ) == v && r.unwrap().1 as nat == n && r.unwrap().2 == end,
        },
    decreases dataSize, 0nat, 1nat,
{
    parseObject(arrayBuffer, dataOffset, dataSize)
}

fn parse_props(
    arrayBuffer: &[u8],
    dataOffset: usize,
    dataSize: usize,
    terminal: usize,
    limit: usize,
    start: usize,
) -> (r: Option<(Vec<AMFProperty>, usize)>)
    requires
        dataOffset + dataSize <= arrayBuffer@.len(),
        limit <= dataSize,
        limit == 4 || limit == 8,
        terminal <= 3,
        1 <= start <= limit,
    ensures
        match amf_props(arrayBuffer@, dataOffset as int, dataSize as int, terminal as int, limit as int, start as int, Seq::empty()) {
            None => r is None,
            Some((ps, o)) => r is Some && view_props(r.unwrap().0@, r.unwrap().0@.len()) == ps
                && r.unwrap().1 as nat == o,
        },
    decreases dataSize, 1nat, 0nat,
{
    let buf_len = arrayBuffer.len();
    let mut props: Vec<AMFProperty> = Vec::new();
    let mut offset: usize = start;
    let ghost whole = amf_props(arrayBuffer@, dataOffset as int, dataSize as int, terminal as int, limit as int, start as int, Seq::empty());
    proof {
        assert(view_props(props@, 0) =~= Seq::<(Seq<u8>, AmfV)>::empty());
    }
    while offset < dataSize - limit
        invariant
            buf_len == arrayBuffer@.len(),
            dataOffset + dataSize <= arrayBuffer@.len(),
            limit <= dataSize,
            limit == 4 || limit == 8,
            terminal <= 3,
            1 <= offset,
            dataOffset + offset <= arrayBuffer@.len(),
            whole == amf_props(arrayBuffer@, dataOffset as int, dataSize as int, terminal as int, limit as int, offset as int, view_props(props@, props@.len())),
            whole == amf_props(arrayBuffer@, dataOffset as int, dataSize as int, terminal as int, limit as int, start as int, Seq::empty()),
        ensures
            whole == Some::<(Seq<(Seq<u8>, AmfV)>, nat)>((view_props(props@, props@.len()), offset as nat)),
        decreases loop_measure(dataSize as int, offset as int),
    {
        let osize = dataSize - offset - terminal;
        let parsed = if limit == 4 {
            parseObject(arrayBuffer, dataOffset + offset, osize)
        } else {
            parseVariable(arrayBuffer, dataOffset + offset, osize)
        };
        match parsed {
            None => {
                return None;
            },
            Some((kv, sz, objectEnd)) => {
                if objectEnd {
                    break;
                }
                proof {
                    lemma_object_bound(arrayBuffer@, dataOffset + offset, osize as int);
                }
                let ghost old_props = props@;
                props.push(AMFProperty { name: kv.name, value: kv.value });
                proof {
                    lemma_view_props_push(old_props, props@[props@.len() - 1], old_props.len());
                }
                offset = offset + sz;
            },
        }
    }
    Some((props, offset))
}

fn parse_elems(arrayBuffer: &[u8], dataOffset: usize, dataSize: usize, count: u32) -> (r: Option<(Vec<AMFValue>, usize)>)
    requires
        dataOffset + dataSize <= arrayBuffer@.len(),
        5 <= dataSize,
    ensures
        match amf_elems(arrayBuffer@, dataOffset as int, dataSize as int, 5, count as nat, Seq::empty()) {
            None => r is None,
            Some((es, o)) => r is Some && view_elems(r.unwrap().0@, r.unwrap().0@.len()) == es
                && r.unwrap().1 as nat == o,
        },
    decreases dataSize, 1nat, 0nat,
{
    let buf_len = arrayBuffer.len();
    let mut arr: Vec<AMFValue> = Vec::new();
    let mut offset: usize = 5;
    let mut i: u32 = 0;
    let ghost whole = amf_elems(arrayBuffer@, dataOffset as int, dataSize as int, 5, count as nat, Seq::empty());
    proof {
        assert(view_elems(arr@, 0) =~= Seq::<AmfV>::empty());
    }
    while i < count
        invariant
            buf_len == arrayBuffer@.len(),
            dataOffset + dataSize <= arrayBuffer@.len(),
            i <= count,
            1 <= offset,
            dataOffset + offset <= arrayBuffer@.len(),
            whole == amf_elems(arrayBuffer@, dataOffset as int, dataSize as int, offset as int, (count - i) as nat, view_elems(arr@, arr@.len())),
            whole == amf_elems(arrayBuffer@, dataOffset as int, dataSize as int, 5, count as nat, Seq::empty()),
        decreases count - i,
    {
        if offset >= dataSize {
            return None;
        }
        match parseValue(arrayBuffer, dataOffset + offset, dataSize - offset) {
            None => {
                return None;
            },
            Some(d) => {
                proof {
                    lemma_value_size_bound(arrayBuffer@, dataOffset + offset, dataSize - offset);
                }
                let ghost old_arr = arr@;
                let sz = d.size;
                arr.push(d.data);
                proof {
                    lemma_view_elems_push(old_arr, arr@[arr@.len() - 1], old_arr.len());
                }
                offset = offset + sz;
            },
        }
        i = i + 1;
    }
    Some((arr, offset))
}

#[verifier::rlimit(40)]
fn parse_object_value(arrayBuffer: &[u8], dataOffset: usize, dataSize: usize) -> (r: Option<Data>)
    requires
        1 <= dataSize,
        dataOffset + dataSize <= arrayBuffer@.len(),
        arrayBuffer@[dataOffset as int] == 3 || arrayBuffer@[dataOffset as int] == 8,
    ensures
        match amf_value(arrayBuffer@, dataOffset as int, dataSize as int) {
            None => r is None,
            Some(p) => r is Some && data_is(r.unwrap(), p),
        },
    decreases dataSize, 1nat, 1nat,
{
    let buf_len = arrayBuffer.len();
    let v = &arrayBuffer[dataOffset..dataOffset + dataSize];
    let t = v[0];
    let start: usize = if t == 3 { 1 } else { 5 };
    let limit: usize = if t == 3 { 4 } else { 8 };
    if dataSize < limit {
        return None;
    }
    // workaround for malformed Objects which have a missing ScriptDataObjectEnd
    let terminal: usize = if read_be_u24(&v[dataSize - 3..dataSize]) == 9 { 3 } else { 0 };
    proof {
        lemma_props_bound(arrayBuffer@, dataOffset as int, dataSize as int, terminal as int, limit as int, start as int, Seq::empty());
    }
    match parse_props(arrayBuffer, dataOffset, dataSize, terminal, limit, start) {
        None => None,
        Some((props, offset)) => {
            let end = if offset <= dataSize - 3 && read_be_u24(&v[offset..offset + 3]) == 9 {
                offset + 3
            } else {
                offset
            };
            Some(Data { data: AMFValue::Object(props), size: end, objectEnd: false })
        },
    }
}

fn parse_array_value(arrayBuffer: &[u8], dataOffset: usize, dataSize: usize) -> (r: Option<Data>)
    requires
        1 <= dataSize,
        dataOffset + dataSize <= arrayBuffer@.len(),
        arrayBuffer@[dataOffset as int] == 10,
    ensures
        match amf_value(arrayBuffer@, dataOffset as int, dataSize as int) {
            None => r is None,
            Some(p) => r is Some && data_is(r.unwrap(), p),
        },
    decreases dataSize, 1nat, 1nat,
{
    let buf_len = arrayBuffer.len();
    let v = &arrayBuffer[dataOffset..dataOffset + dataSize];
    if dataSize < 5 {
        return None;
    }
    let strictArrayLength = read_be_u32(&v[1..dataSize]);
    match parse_elems(arrayBuffer, dataOffset, dataSize, strictArrayLength) {
        None => None,
        Some((arr, offset)) => Some(Data { data: AMFValue::Array(arr), size: offset, objectEnd: false }),
    }
}

fn parseValue(arrayBuffer: &[u8], dataOffset: usize, dataSize: usize) -> (r: Option<Data>)
    ensures
        match amf_value(arrayBuffer@, dataOffset as int, dataSize as int) {
            None => r is None,
            Some(p) => r is Some && data_is(r.unwrap(), p),
        },
    decreases dataSize, 2nat, 0nat,
{
    if dataSize < 1 || dataOffset > arrayBuffer.len() || dataSize > arrayBuffer.len() - dataOffset {
        return None;
    }
    let v = &arrayBuffer[dataOffset..dataOffset + dataSize];
    let t = v[0];
    if t == 0 {
        // Number(Double) type
        if dataSize < 9 {
            return None;
        }
        let n = read_be_u64(&v[1..dataSize]);
        Some(Data { data: AMFValue::Number(n), size: 9, objectEnd: false })
    } else if t == 1 {
        // Boolean type
        if dataSize < 2 {
            return None;
        }
        Some(Data { data: AMFValue::Boolean(v[1] > 0), size: 2, objectEnd: false })
    } else if t == 2 {
        // String type
        match parseString(arrayBuffer, dataOffset + 1, dataSize - 1) {
            None => None,
            Some((s, n)) => {
                proof {
                    lemma_string_size_bound(arrayBuffer@, dataOffset as int + 1, dataSize - 1);
                }
                Some(Data { data: AMFValue::String(s), size: 1 + n, objectEnd: false })
            },
        }
    } else if t == 3 || t == 8 {
        // Object(s) type, ECMA array type (Mixed array)
        parse_object_value(arrayBuffer, dataOffset, dataSize)
    } else if t == 9 {
        // ScriptDataObjectEnd
        Some(Data { data: AMFValue::Undefined, size: 1, objectEnd: true })
    } else if t == 10 {
        // Strict array type
        parse_array_value(arrayBuffer, dataOffset, dataSize)
    } else if t == 11 {
        // Date type
        match parseDate(arrayBuffer, dataOffset + 1, dataSize - 1) {
            None => None,
            Some((timestamp, local_time_offset)) => Some(
                Data { data: AMFValue::Date { timestamp, local_time_offset }, size: 11, objectEnd: false },
            ),
        }
    } else if t == 12 {
        // Long string type, read with a 16-bit length as a short string is
        match parseString(arrayBuffer, dataOffset + 1, dataSize - 1) {
            None => None,
            Some((s, n)) => {
                proof {
                    lemma_string_size_bound(arrayBuffer@, dataOffset as int + 1, dataSize - 1);
                }
                Some(Data { data: AMFValue::String(s), size: 1 + n, objectEnd: false })
            },
        }
    } else {
        // unsupported type: skip the rest of the field
        Some(Data { data: AMFValue::Undefined, size: dataSize, objectEnd: false })
    }
}

/// The name and object of a script tag, such as `onMetaData` and its properties.
pub struct ScriptData {
    pub name: Vec<u8>,
    pub properties: Vec<AMFProperty>,
}

/// Parses the name/value pair of a script tag. `Err` when the data is too short
/// for what it announces; `Ok(None)` when the pair is not a string and an object.
pub fn parseScriptData(arrayBuffer: &[u8], dataOffset: usize, dataSize: usize) -> (r: Result<Option<ScriptData>, AMFError>)
    ensures
        match amf_script(arrayBuffer@, dataOffset as int, dataSize as int) {
            None => r is Err,
            Some(None) => r == Ok::<Option<ScriptData>, AMFError>(None),
            Some(Some((name, props))) => r is Ok && r->Ok_0 is Some && r->Ok_0->Some_0.name@ == name
                && view_props(r->Ok_0->Some_0.properties@, r->Ok_0->Some_0.properties@.len()) == props,
        },
{
    let buf_len = arrayBuffer.len();
    let name = match parseValue(arrayBuffer, dataOffset, dataSize) {
        None => { return Err(AMFError::DataNotEnough); },
        Some(d) => d,
    };
    if name.size >= dataSize {
        return Err(AMFError::DataNotEnough);
    }
    proof {
        lemma_value_size_bound(arrayBuffer@, dataOffset as int, dataSize as int);
    }
    let value = match parseValue(arrayBuffer, dataOffset + name.size, dataSize - name.size) {
        None => { return Err(AMFError::DataNotEnough); },
        Some(d) => d,
    };
    match (name.data, value.data) {
        (AMFValue::String(s), AMFValue::Object(o)) => Ok(Some(ScriptData { name: s, properties: o })),
        _ => Ok(None),
    }
}

/// A value read from a field never reaches past the end of the buffer.
pub proof fn lemma_value_size_bound(buf: Seq<u8>, off: int, size: int)
    ensures
        amf_value(buf, off, size) matches Some((_v, n, _e)) ==> off + n <= buf.len() && n >= 1,
    decreases size, 2nat, 0int,
{
    if size >= 1 && off >= 0 && off + size <= buf.len() {
        let t = buf[off];
        if t == 3 || t == 8 {
            let start: int = if t == 3 { 1 } else { 5 };
            let limit: int = if t == 3 { 4 } else { 8 };
            if size >= limit {
                lemma_props_bound(buf, off, size, terminal_of(buf, off, size), limit, start, Seq::empty());
            }
        } else if t == 10 {
            if size >= 5 {
                lemma_elems_bound(buf, off, size, 5, be32_at(buf, off + 1) as nat, Seq::empty());
            }
        }
    }
}

pub proof fn lemma_props_bound(
    buf: Seq<u8>,
    off: int,
    size: int,
    terminal: int,
    limit: int,
    offset: int,
    acc: Seq<(Seq<u8>, AmfV)>,
)
    requires
        off >= 0,
        offset >= 1,
        off + offset <= buf.len(),
    ensures
        amf_props(buf, off, size, terminal, limit, offset, acc) matches Some((_p, o)) ==> off + o
            <= buf.len() && o >= offset,
    decreases size, 1nat, loop_measure(size, offset),
{
    if offset < 1 || !(offset < size - limit) || terminal < 0 || terminal > 3 || limit < 3 {
    } else {
        let osize = size - offset - terminal;
        if osize >= 3 {
            match amf_string(buf, off + offset, osize) {
                None => {},
                Some((name, n)) => if n < osize {
                    lemma_value_size_bound(buf, off + offset + n, osize - n);
                    match amf_value(buf, off + offset + n, osize - n) {
                        None => {},
                        Some((v, m, end)) => if !end {
                            lemma_props_bound(buf, off, size, terminal, limit, offset + n + m, acc.push((name, v)));
                        },
                    }
                },
            }
        }
    }
}

pub proof fn lemma_elems_bound(buf: Seq<u8>, off: int, size: int, offset: int, count: nat, acc: Seq<AmfV>)
    requires
        off >= 0,
        offset >= 1,
        off + offset <= buf.len(),
    ensures
        amf_elems(buf, off, size, offset, count, acc) matches Some((_e, o)) ==> off + o <= buf.len()
            && o >= offset,
    decreases size, 1nat, count,
{
    if count > 0 && offset >= 1 && offset < size {
        lemma_value_size_bound(buf, off + offset, size - offset);
        match amf_value(buf, off + offset, size - offset) {
            None => {},
            Some((v, n, _e)) => {
                lemma_elems_bound(buf, off, size, offset + n, (count - 1) as nat, acc.push(v));
            },
        }
    }
}

proof fn lemma_object_bound(buf: Seq<u8>, off: int, size: int)
    requires
        off >= 0,
    ensures
        amf_object(buf, off, size) matches Some((_n, _v, k, _e)) ==> off + k <= buf.len() && k >= 3,
{
    if size >= 3 {
        match amf_string(buf, off, size) {
            None => {},
            Some((name, n)) => if n < size {
                lemma_value_size_bound(buf, off + n, size - n);
            },
        }
    }
}

proof fn lemma_string_size_bound(buf: Seq<u8>, off: int, size: int)
    ensures
        amf_string(buf, off, size) matches Some((_s, n)) ==> off + n <= buf.len(),
{
}

/// The value of the last property named `key`, as an object read from the data keeps it.
pub open spec fn prop_lookup(props: Seq<(Seq<u8>, AmfV)>, key: Seq<u8>) -> Option<AmfV>
    decreases props.len(),
{
    if props.len() == 0 {
        None
    } else if props.last().0 == key {
        Some(props.last().1)
    } else {
        prop_lookup(props.drop_last(), key)
    }
}

/// The properties but those named `key`, in order.
pub open spec fn props_without(props: Seq<(Seq<u8>, AmfV)>, key: Seq<u8>) -> Seq<(Seq<u8>, AmfV)>
    decreases props.len(),
{
    if props.len() == 0 {
        props
    } else {
        let rest = props_without(props.drop_last(), key);
        if props.last().0 == key {
            rest
        } else {
            rest.push(props.last())
        }
    }
}

proof fn lemma_props_without_push(props: Seq<(Seq<u8>, AmfV)>, x: (Seq<u8>, AmfV), key: Seq<u8>)
    ensures
        props_without(props.push(x), key) == if x.0 == key {
            props_without(props, key)
        } else {
            props_without(props, key).push(x)
        },
{
    assert(props.push(x).drop_last() =~= props);
}

proof fn lemma_view_props_same_prefix(ps: Seq<AMFProperty>, qs: Seq<AMFProperty>, n: nat)
    requires
        n <= ps.len(),
        n <= qs.len(),
        forall|k: int| 0 <= k < n ==> ps[k] == qs[k],
    ensures
        view_props(ps, n) == view_props(qs, n),
    decreases n,
{
    if n > 0 {
        lemma_view_props_same_prefix(ps, qs, (n - 1) as nat);
        assert(ps[n - 1] == qs[n - 1]);
    }
}

/// Takes the properties named `key` out of `props`.
pub fn removeProperty(props: &mut Vec<AMFProperty>, key: &[u8])
    ensures
        view_props(final(props)@, final(props)@.len()) == props_without(view_props(old(props)@, old(props)@.len()), key@),
{
    let ghost orig = props@;
    let mut i: usize = 0;
    let ghost mut j: nat = 0;
    assert(props_without(view_props(orig, 0), key@) =~= Seq::<(Seq<u8>, AmfV)>::empty());
    while i < props.len()
        invariant
            i <= props@.len(),
            j <= orig.len(),
            props@.len() - i == orig.len() - j,
            props@.skip(i as int) == orig.skip(j as int),
            view_props(props@, i as nat) == props_without(view_props(orig, j), key@),
        decreases props@.len() - i,
    {
        let ghost before = props@;
        assert(before[i as int] == before.skip(i as int)[0]);
        assert(orig[j as int] == orig.skip(j as int)[0]);
        let ghost e = (orig[j as int].name@, view_value(orig[j as int].value));
        proof {
            assert(view_props(orig, j + 1) == view_props(orig, j).push(e));
            lemma_props_without_push(view_props(orig, j), e, key@);
        }
        if bytesEqual(props[i].name.as_slice(), key) {
            props.remove(i);
            proof {
                assert forall|k: int| 0 <= k < i implies props@[k] == before[k] by {}
                lemma_view_props_same_prefix(props@, before, i as nat);
                assert(props@.skip(i as int) =~= before.skip(i as int).skip(1));
                assert(orig.skip((j + 1) as int) =~= orig.skip(j as int).skip(1));
                j = j + 1;
            }
        } else {
            proof {
                assert(view_props(before, (i + 1) as nat) == view_props(before, i as nat).push(e));
                assert(before.skip(i + 1) =~= before.skip(i as int).skip(1));
                assert(orig.skip((j + 1) as int) =~= orig.skip(j as int).skip(1));
                j = j + 1;
            }
            i = i + 1;
        }
    }
    assert(j == orig.len());
}

/// Whether two byte strings are equal.
pub(crate) fn bytesEqual(a: &[u8], b: &[u8]) -> (r: bool)
    ensures
        r == (a@ == b@),
{
    if a.len() != b.len() {
        return false;
    }
    let mut i: usize = 0;
    while i < a.len()
        invariant
            a@.len() == b@.len(),
            i <= a@.len(),
            forall|k: int| 0 <= k < i ==> a@[k] == b@[k],
        decreases a@.len() - i,
    {
        if a[i] != b[i] {
            return false;
        }
        i = i + 1;
    }
    assert(a@ =~= b@);
    true
}

/// The value of the last property of `props` named `key`.
pub fn findProperty<'a>(props: &'a Vec<AMFProperty>, key: &[u8]) -> (r: Option<&'a AMFValue>)
    ensures
        match prop_lookup(view_props(props@, props@.len()), key@) {
            None => r is None,
            Some(v) => r matches Some(x) && view_value(*x) == v,
        },
{
    let mut i: usize = props.len();
    while i > 0
        invariant
            i <= props@.len(),
            prop_lookup(view_props(props@, props@.len()), key@) == prop_lookup(view_props(props@, i as nat), key@),
        decreases i,
    {
        proof {
            let vp = view_props(props@, i as nat);
            let prev = view_props(props@, (i - 1) as nat);
            assert(vp == prev.push((props@[i - 1].name@, view_value(props@[i - 1].value))));
            assert(vp.drop_last() =~= prev);
            assert(vp.last() == (props@[i - 1].name@, view_value(props@[i - 1].value)));
        }
        if bytesEqual(props[i - 1].name.as_slice(), key) {
            return Some(&props[i - 1].value);
        }
        i = i - 1;
    }
    None
}

} // verus!
