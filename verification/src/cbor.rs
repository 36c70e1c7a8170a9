//! CBOR data items.

use ciborium::Value;
use vstd::prelude::*;

verus! {

/// A CBOR data item.
#[derive(Debug, PartialEq, Eq)]
pub enum Cbor {
    Integer(i128),
    Bytes(Vec<u8>),
    Text(String),
    Bool(bool),
    Array(Vec<Cbor>),
    /// A map, as its entries in order.
    Entries(Vec<(Cbor, Cbor)>),
    /// An item of another kind: a float, a tag, null.
    Other,
}

/// The contents of a CBOR data item.
#[verifier::ext_equal]
pub enum CborView {
    Integer(int),
    Bytes(Seq<u8>),
    Text(Seq<char>),
    Bool(bool),
    Array(Seq<CborView>),
    Entries(Seq<(CborView, CborView)>),
    Other,
}

impl View for Cbor {
    type V = CborView;

    open spec fn view(&self) -> CborView {
        self.contents()
    }
}

/// The contents of the items of an array.
pub open spec fn items_view(items: Seq<Cbor>) -> Seq<CborView> {
    items.map_values(|c: Cbor| c@)
}

/// The contents of the entries of a map.
pub open spec fn entries_view(entries: Seq<(Cbor, Cbor)>) -> Seq<(CborView, CborView)> {
    entries.map_values(|e: (Cbor, Cbor)| (e.0@, e.1@))
}

impl Cbor {
    /// What the item holds.
    pub open spec fn contents(&self) -> CborView
        decreases self,
    {
        match *self {
            Cbor::Integer(n) => CborView::Integer(n as int),
            Cbor::Bytes(b) => CborView::Bytes(b@),
            Cbor::Text(t) => CborView::Text(t@),
            Cbor::Bool(b) => CborView::Bool(b),
            Cbor::Array(items) => CborView::Array(
                Seq::new(
                    items@.len(),
                    |i: int|
                        if 0 <= i < items@.len() {
                            items@[i].contents()
                        } else {
                            arbitrary()
                        },
                ),
            ),
            Cbor::Entries(entries) => CborView::Entries(
                Seq::new(
                    entries@.len(),
                    |i: int|
                        if 0 <= i < entries@.len() {
                            (entries@[i].0.contents(), entries@[i].1.contents())
                        } else {
                            arbitrary()
                        },
                ),
            ),
            Cbor::Other => CborView::Other,
        }
    }
}

/// Why bytes are not a CBOR data item.
#[derive(Debug, Clone, PartialEq, Eq)]
pub enum DecodeError {
    /// The bytes end before the item does.
    Io,
    /// The bytes at the offset are no CBOR.
    Syntax(usize),
    /// The item is well-formed but has no meaning.
    Semantic(Option<usize>, String),
    /// Items are nested too deeply.
    RecursionLimitExceeded,
}

/// The contents of a [`DecodeError`].
#[verifier::ext_equal]
pub enum DecodeErrorView {
    Io,
    Syntax(usize),
    Semantic(Option<usize>, Seq<char>),
    RecursionLimitExceeded,
}

impl View for DecodeError {
    type V = DecodeErrorView;

    open spec fn view(&self) -> DecodeErrorView {
        match self {
            DecodeError::Io => DecodeErrorView::Io,
            DecodeError::Syntax(at) => DecodeErrorView::Syntax(*at),
            DecodeError::Semantic(at, text) => DecodeErrorView::Semantic(*at, text@),
            DecodeError::RecursionLimitExceeded => DecodeErrorView::RecursionLimitExceeded,
        }
    }
}

impl CborView {
    /// Whether the item is made of integers in CBOR's range, byte strings,
    /// texts, booleans, arrays and maps alone, nested at most `depth` deep.
    pub open spec fn plain(self, depth: nat) -> bool
        decreases depth,
    {
        match self {
            CborView::Integer(n) => -0x1_0000_0000_0000_0000 <= n < 0x1_0000_0000_0000_0000,
            CborView::Bytes(_) => true,
            CborView::Text(_) => true,
            CborView::Bool(_) => true,
            CborView::Array(items) => depth > 0 && forall|i: int|
                0 <= i < items.len() ==> (#[trigger] items[i]).plain((depth - 1) as nat),
            CborView::Entries(entries) => depth > 0 && forall|i: int|
                0 <= i < entries.len() ==> {
                    &&& (#[trigger] entries[i]).0.plain((depth - 1) as nat)
                    &&& entries[i].1.plain((depth - 1) as nat)
                },
            CborView::Other => false,
        }
    }
}

/// One layer of a parsed item: what it is, with its parts still parsed items.
pub enum ValueLayer<'a> {
    Integer(i128),
    Bytes(&'a Vec<u8>),
    Text(&'a String),
    Bool(bool),
    Array(&'a Vec<Value>),
    Entries(&'a Vec<(Value, Value)>),
    Other,
}

impl<'a> ValueLayer<'a> {
    pub open spec fn contents(self) -> CborView {
        match self {
            ValueLayer::Integer(n) => CborView::Integer(n as int),
            ValueLayer::Bytes(b) => CborView::Bytes(b@),
            ValueLayer::Text(t) => CborView::Text(t@),
            ValueLayer::Bool(b) => CborView::Bool(b),
            ValueLayer::Array(items) => CborView::Array(
                items@.map_values(|v: Value| value_contents(v)),
            ),
            ValueLayer::Entries(entries) => CborView::Entries(
                entries@.map_values(|e: (Value, Value)| (value_contents(e.0), value_contents(e.1))),
            ),
            ValueLayer::Other => CborView::Other,
        }
    }
}

/// `ciborium::Value`, a parsed CBOR data item.
#[verifier::external_type_specification]
#[verifier::external_body]
pub struct ExValue(ciborium::Value);

/// What a `ciborium::Value` holds.
pub uninterp spec fn value_contents(value: Value) -> CborView;

/// What `ciborium::from_reader` makes of bytes.
pub uninterp spec fn cbor_decoded(bytes: Seq<u8>) -> Result<CborView, DecodeErrorView>;

/// The bytes that `ciborium::into_writer` writes for an item.
pub uninterp spec fn cbor_encoded(item: CborView) -> Seq<u8>;

/// Whether `bytes` start with the encoding of `item`.
pub open spec fn decodes_to(bytes: Seq<u8>, item: CborView) -> bool {
    cbor_decoded(bytes) == Ok::<CborView, DecodeErrorView>(item)
}

/// `ciborium::from_reader` on a byte slice: the item at the start of `bytes`,
/// or why there is none. Bytes after the item are not looked at.
#[verifier::external_body]
fn decode_value(bytes: &[u8]) -> (decoded: Result<Value, DecodeError>)
    ensures
        match decoded {
            Ok(value) => decodes_to(bytes@, value_contents(value)),
            Err(error) => cbor_decoded(bytes@) == Err::<CborView, DecodeErrorView>(error@),
        },
{
    ciborium::from_reader(bytes).map_err(
        |error: ciborium::de::Error<std::io::Error>|
            match error {
                ciborium::de::Error::Io(_) => DecodeError::Io,
                ciborium::de::Error::Syntax(at) => DecodeError::Syntax(at),
                ciborium::de::Error::Semantic(at, text) => DecodeError::Semantic(at, text),
                ciborium::de::Error::RecursionLimitExceeded => DecodeError::RecursionLimitExceeded,
            },
    )
}

/// `ciborium::into_writer` into a vector, to which writing cannot fail. Every
/// item starts with a byte that says what it is. An item of integers, byte
/// strings, texts, booleans, arrays and maps, nested within the 256 levels that
/// `ciborium::from_reader` descends, reads back as itself.
#[verifier::external_body]
fn encode_value(value: &Value) -> (encoded: Vec<u8>)
    requires
        value_contents(*value).plain(256),
    ensures
        encoded@ == cbor_encoded(value_contents(*value)),
        encoded@.len() > 0,
        decodes_to(encoded@, value_contents(*value)),
{
    let mut bytes: Vec<u8> = Vec::new();
    ciborium::into_writer(value, &mut bytes).expect("writing to a vector cannot fail");
    bytes
}

/// The variants of `ciborium::Value`, told apart. Floats, tags and null are not
/// looked into.
#[verifier::external_body]
fn value_layer(value: &Value) -> (layer: ValueLayer<'_>)
    ensures
        layer.contents() == value_contents(*value),
{
    match value {
        Value::Integer(n) => ValueLayer::Integer(i128::from(*n)),
        Value::Bytes(bytes) => ValueLayer::Bytes(bytes),
        Value::Text(text) => ValueLayer::Text(text),
        Value::Bool(b) => ValueLayer::Bool(*b),
        Value::Array(items) => ValueLayer::Array(items),
        Value::Map(entries) => ValueLayer::Entries(entries),
        _ => ValueLayer::Other,
    }
}

/// The `ciborium::Value` variant of one layer. `ciborium::value::Integer` holds
/// exactly the integers from -2^64 to 2^64 - 1.
#[verifier::external_body]
fn layer_value(layer: ValueLayer<'_>) -> (value: Value)
    requires
        layer.contents().plain(256),
    ensures
        value_contents(value) == layer.contents(),
{
    match layer {
        ValueLayer::Integer(n) => Value::Integer(n.try_into().expect("in the range of CBOR")),
        ValueLayer::Bytes(bytes) => Value::Bytes(bytes.clone()),
        ValueLayer::Text(text) => Value::Text(text.clone()),
        ValueLayer::Bool(b) => Value::Bool(b),
        ValueLayer::Array(items) => Value::Array(items.clone()),
        ValueLayer::Entries(entries) => Value::Map(entries.clone()),
        ValueLayer::Other => Value::Null,
    }
}

fn from_value(value: &Value) -> (item: Cbor)
    ensures
        item@ == value_contents(*value),
    decreases value_contents(*value),
{
    match value_layer(value) {
        ValueLayer::Integer(n) => Cbor::Integer(n),
        ValueLayer::Bytes(bytes) => Cbor::Bytes(bytes.clone()),
        ValueLayer::Text(text) => Cbor::Text(text.clone()),
        ValueLayer::Bool(b) => Cbor::Bool(b),
        ValueLayer::Array(values) => {
            let ghost parts = value_contents(*value)->Array_0;
            let mut items: Vec<Cbor> = Vec::new();
            let mut i: usize = 0;
            while i < values.len()
                invariant
                    i <= values@.len(),
                    value_contents(*value) == CborView::Array(parts),
                    parts == values@.map_values(|v: Value| value_contents(v)),
                    items@.len() == i,
                    forall|j: int| 0 <= j < i ==> (#[trigger] items@[j])@ == parts[j],
                decreases values@.len() - i,
            {
                assert(decreases_to!(value_contents(*value) => value_contents(*value)->Array_0));
                assert(decreases_to!(parts => parts[i as int]));
                items.push(from_value(&values[i]));
                i = i + 1;
            }
            let item = Cbor::Array(items);
            assert(item@->Array_0 =~= parts);
            item
        },
        ValueLayer::Entries(values) => {
            let ghost parts = value_contents(*value)->Entries_0;
            let mut entries: Vec<(Cbor, Cbor)> = Vec::new();
            let mut i: usize = 0;
            while i < values.len()
                invariant
                    i <= values@.len(),
                    value_contents(*value) == CborView::Entries(parts),
                    parts == values@.map_values(
                        |e: (Value, Value)| (value_contents(e.0), value_contents(e.1)),
                    ),
                    entries@.len() == i,
                    forall|j: int|
                        0 <= j < i ==> (#[trigger] entries@[j]).0@ == parts[j].0 && entries@[j].1@
                            == parts[j].1,
                decreases values@.len() - i,
            {
                assert(decreases_to!(value_contents(*value) => value_contents(*value)->Entries_0));
                assert(decreases_to!(parts => parts[i as int]));
                assert(decreases_to!(parts[i as int] => parts[i as int].0));
                assert(decreases_to!(parts[i as int] => parts[i as int].1));
                entries.push((from_value(&values[i].0), from_value(&values[i].1)));
                i = i + 1;
            }
            let item = Cbor::Entries(entries);
            assert(item@->Entries_0 =~= parts);
            item
        },
        ValueLayer::Other => Cbor::Other,
    }
}

/// An item that is plain within some depth is plain within any greater depth.
pub proof fn lemma_plain_within_more(item: CborView, depth: nat, more: nat)
    requires
        item.plain(depth),
        depth <= more,
    ensures
        item.plain(more),
    decreases depth,
{
    match item {
        CborView::Array(items) => {
            assert forall|i: int| 0 <= i < items.len() implies (#[trigger] items[i]).plain(
                (more - 1) as nat,
            ) by {
                lemma_plain_within_more(items[i], (depth - 1) as nat, (more - 1) as nat);
            }
        },
        CborView::Entries(entries) => {
            assert forall|i: int| 0 <= i < entries.len() implies (#[trigger] entries[i]).0.plain(
                (more - 1) as nat,
            ) && entries[i].1.plain((more - 1) as nat) by {
                lemma_plain_within_more(entries[i].0, (depth - 1) as nat, (more - 1) as nat);
                lemma_plain_within_more(entries[i].1, (depth - 1) as nat, (more - 1) as nat);
            }
        },
        _ => {},
    }
}

/// The parts of a plain item are plain.
pub proof fn lemma_plain_parts(item: CborView, depth: nat)
    requires
        item.plain(depth),
    ensures
        item matches CborView::Array(items) ==> forall|i: int|
            0 <= i < items.len() ==> (#[trigger] items[i]).plain(depth),
        item matches CborView::Entries(entries) ==> forall|i: int|
            0 <= i < entries.len() ==> (#[trigger] entries[i]).0.plain(depth)
                && entries[i].1.plain(depth),
{
    match item {
        CborView::Array(items) => {
            assert forall|i: int| 0 <= i < items.len() implies (#[trigger] items[i]).plain(
                depth,
            ) by {
                lemma_plain_within_more(items[i], (depth - 1) as nat, depth);
            }
        },
        CborView::Entries(entries) => {
            assert forall|i: int| 0 <= i < entries.len() implies (#[trigger] entries[i]).0.plain(
                depth,
            ) && entries[i].1.plain(depth) by {
                lemma_plain_within_more(entries[i].0, (depth - 1) as nat, depth);
                lemma_plain_within_more(entries[i].1, (depth - 1) as nat, depth);
            }
        },
        _ => {},
    }
}

/// An array holds the contents of its items.
pub proof fn lemma_array_view(items: Vec<Cbor>)
    ensures
        Cbor::Array(items)@ == CborView::Array(items_view(items@)),
{
    assert(Cbor::Array(items)@->Array_0 =~= items_view(items@));
}

/// A map holds the contents of its entries.
pub proof fn lemma_entries_view(entries: Vec<(Cbor, Cbor)>)
    ensures
        Cbor::Entries(entries)@ == CborView::Entries(entries_view(entries@)),
{
    assert(Cbor::Entries(entries)@->Entries_0 =~= entries_view(entries@));
}

fn to_value(item: &Cbor) -> (value: Value)
    requires
        item@.plain(256),
    ensures
        value_contents(value) == item@,
    decreases item,
{
    match item {
        Cbor::Integer(n) => layer_value(ValueLayer::Integer(*n)),
        Cbor::Bytes(bytes) => layer_value(ValueLayer::Bytes(bytes)),
        Cbor::Text(text) => layer_value(ValueLayer::Text(text)),
        Cbor::Bool(b) => layer_value(ValueLayer::Bool(*b)),
        Cbor::Array(items) => {
            let ghost parts = items_view(items@);
            proof {
                lemma_array_view(*items);
            }
            let mut values: Vec<Value> = Vec::new();
            let mut i: usize = 0;
            while i < items.len()
                invariant
                    i <= items@.len(),
                    *item == Cbor::Array(*items),
                    item@.plain(256),
                    item@ == CborView::Array(parts),
                    parts == items_view(items@),
                    values@.len() == i,
                    forall|j: int|
                        0 <= j < i ==> value_contents(#[trigger] values@[j]) == parts[j],
                decreases items@.len() - i,
            {
                proof {
                    lemma_plain_parts(item@, 256);
                    assert(parts[i as int].plain(256));
                }
                values.push(to_value(&items[i]));
                i = i + 1;
            }
            let layer = ValueLayer::Array(&values);
            assert(layer.contents()->Array_0 =~= parts);
            layer_value(layer)
        },
        Cbor::Entries(entries) => {
            let ghost parts = entries_view(entries@);
            proof {
                lemma_entries_view(*entries);
            }
            let mut values: Vec<(Value, Value)> = Vec::new();
            let mut i: usize = 0;
            while i < entries.len()
                invariant
                    i <= entries@.len(),
                    *item == Cbor::Entries(*entries),
                    item@.plain(256),
                    item@ == CborView::Entries(parts),
                    parts == entries_view(entries@),
                    values@.len() == i,
                    forall|j: int|
                        0 <= j < i ==> value_contents((#[trigger] values@[j]).0) == parts[j].0
                            && value_contents(values@[j].1) == parts[j].1,
                decreases entries@.len() - i,
            {
                proof {
                    lemma_plain_parts(item@, 256);
                    assert(parts[i as int].0.plain(256));
                }
                values.push((to_value(&entries[i].0), to_value(&entries[i].1)));
                i = i + 1;
            }
            let layer = ValueLayer::Entries(&values);
            assert(layer.contents()->Entries_0 =~= parts);
            layer_value(layer)
        },
        Cbor::Other => layer_value(ValueLayer::Other),
    }
}

/// Reads the data item at the start of `bytes`.
pub fn decode(bytes: &[u8]) -> (decoded: Result<Cbor, DecodeError>)
    ensures
        match decoded {
            Ok(item) => decodes_to(bytes@, item@),
            Err(error) => cbor_decoded(bytes@) == Err::<CborView, DecodeErrorView>(error@),
        },
{
    match decode_value(bytes) {
        Ok(value) => Ok(from_value(&value)),
        Err(error) => Err(error),
    }
}

/// Writes out a data item. Reading the bytes gives the item back.
pub fn encode(item: &Cbor) -> (encoded: Vec<u8>)
    requires
        item@.plain(256),
    ensures
        encoded@ == cbor_encoded(item@),
        encoded@.len() > 0,
        decodes_to(encoded@, item@),
{
    encode_value(&to_value(item))
}

} // verus!
