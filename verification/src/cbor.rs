//! CBOR data items, as far as the certificate format reads them.

use vstd::prelude::*;
use crate::error::FormatError;
use ciborium::value::Value;

verus! {

/// A CBOR data item.
#[derive(Debug, PartialEq)]
pub enum Cbor {
    /// An integer. An encoding holds one between -2^64 and 2^64 - 1.
    Integer(i128),
    /// A byte string.
    Bytes(Vec<u8>),
    /// A text string.
    Text(String),
    /// A tagged item.
    Tag(u64, Box<Cbor>),
    /// An array of items.
    Array(Vec<Cbor>),
    /// A map, as its entries in the order of the encoding; keys may repeat.
    Mapping(Vec<(Cbor, Cbor)>),
    /// A boolean, null, undefined or floating-point item.
    Other,
}

/// The mathematical value of a [`Cbor`] item.
pub enum CborView {
    /// An integer.
    Integer(int),
    /// A byte string.
    Bytes(Seq<u8>),
    /// A text string.
    Text(Seq<char>),
    /// A tagged item.
    Tag(u64, Box<CborView>),
    /// An array of items.
    Array(Seq<CborView>),
    /// A map, as its entries in the order of the encoding.
    Mapping(Seq<(CborView, CborView)>),
    /// A boolean, null, undefined or floating-point item.
    Other,
}

impl Cbor {
    /// The mathematical value of this item.
    pub open spec fn item(self) -> CborView
        decreases self,
    {
        match self {
            Cbor::Integer(n) => CborView::Integer(n as int),
            Cbor::Bytes(b) => CborView::Bytes(b@),
            Cbor::Text(t) => CborView::Text(t@),
            Cbor::Tag(t, inner) => CborView::Tag(t, Box::new((*inner).item())),
            Cbor::Array(items) => CborView::Array(
                Seq::new(
                    items.len() as nat,
                    |i: int| if 0 <= i < items.len() { items[i].item() } else { CborView::Other },
                ),
            ),
            Cbor::Mapping(entries) => CborView::Mapping(
                Seq::new(
                    entries.len() as nat,
                    |i: int| if 0 <= i < entries.len() {
                        (entries[i].0.item(), entries[i].1.item())
                    } else {
                        (CborView::Other, CborView::Other)
                    },
                ),
            ),
            Cbor::Other => CborView::Other,
        }
    }
}

impl CborView {
    /// This item without its tags: every tagged item, at any depth, is
    /// replaced by the item that the tag is on.
    pub open spec fn plain(self) -> CborView
        decreases self,
    {
        match self {
            CborView::Tag(_, inner) => (*inner).plain(),
            CborView::Array(items) => CborView::Array(
                Seq::new(
                    items.len(),
                    |i: int| if 0 <= i < items.len() { items[i].plain() } else { CborView::Other },
                ),
            ),
            CborView::Mapping(entries) => CborView::Mapping(
                Seq::new(
                    entries.len(),
                    |i: int| if 0 <= i < entries.len() {
                        (entries[i].0.plain(), entries[i].1.plain())
                    } else {
                        (CborView::Other, CborView::Other)
                    },
                ),
            ),
            other => other,
        }
    }

    /// Whether no item in this item, at any depth, is tagged.
    pub open spec fn tag_free(self) -> bool
        decreases self,
    {
        match self {
            CborView::Tag(_, _) => false,
            CborView::Array(items) => forall|i: int|
                0 <= i < items.len() ==> (#[trigger] items[i]).tag_free(),
            CborView::Mapping(entries) => forall|i: int|
                0 <= i < entries.len() ==> (#[trigger] entries[i]).0.tag_free()
                    && entries[i].1.tag_free(),
            _ => true,
        }
    }

    /// An item without tags is its own plain item.
    pub proof fn lemma_plain_of_tag_free(self)
        requires
            self.tag_free(),
        ensures
            self.plain() == self,
        decreases self,
    {
        match self {
            CborView::Array(items) => {
                assert forall|i: int| 0 <= i < items.len() implies (#[trigger] items[i]).plain()
                    == items[i] by {
                    items[i].lemma_plain_of_tag_free();
                }
                assert(self.plain()->Array_0 =~= items);
            },
            CborView::Mapping(entries) => {
                assert forall|i: int| 0 <= i < entries.len() implies (#[trigger] entries[i]).0
                    .plain() == entries[i].0 && entries[i].1.plain() == entries[i].1 by {
                    entries[i].0.lemma_plain_of_tag_free();
                    entries[i].1.lemma_plain_of_tag_free();
                }
                assert(self.plain()->Mapping_0 =~= entries);
            },
            _ => {},
        }
    }
}

impl View for Cbor {
    type V = CborView;

    open spec fn view(&self) -> CborView {
        self.item()
    }
}

/// The values of a sequence of items.
pub open spec fn items_view(items: Seq<Cbor>) -> Seq<CborView> {
    Seq::new(items.len(), |i: int| items[i]@)
}

/// The values of a sequence of map entries.
pub open spec fn entries_view(entries: Seq<(Cbor, Cbor)>) -> Seq<(CborView, CborView)> {
    Seq::new(entries.len(), |i: int| (entries[i].0@, entries[i].1@))
}

/// The value of an array is the array of its items' values.
pub proof fn lemma_array_view(items: Vec<Cbor>)
    ensures
        Cbor::Array(items)@ == CborView::Array(items_view(items@)),
{
    assert(Cbor::Array(items).item()->Array_0 =~= items_view(items@));
}

/// The value of a map is the sequence of its entries' values.
pub proof fn lemma_mapping_view(entries: Vec<(Cbor, Cbor)>)
    ensures
        Cbor::Mapping(entries)@ == CborView::Mapping(entries_view(entries@)),
{
    assert(Cbor::Mapping(entries).item()->Mapping_0 =~= entries_view(entries@));
}

/// `ciborium::value::Value`, the tree that ciborium parses into. It is read
/// through [`outermost`] only.
#[verifier::external_type_specification]
#[verifier::external_body]
pub struct ExValue(ciborium::value::Value);

/// `ciborium::de::Error`, which is told from success and then dropped.
#[verifier::external_type_specification]
#[verifier::external_body]
#[verifier::reject_recursive_types(T)]
pub struct ExReadError<T>(ciborium::de::Error<T>);

/// The item that a `ciborium::value::Value` holds. A boolean, a null and a
/// float are [`CborView::Other`].
pub uninterp spec fn value_item(v: Value) -> CborView;

/// The item that the CBOR encoding at the start of `data` stands for, or
/// `None` where `data` does not start with well-formed CBOR.
pub uninterp spec fn parsed(data: Seq<u8>) -> Option<CborView>;

/// `ciborium::de::from_reader` on `data`, read as a `Value`.
///
/// The reader takes one data item from the front of `data` and keeps no state
/// but its input, so its outcome is a function of `data`.
#[verifier::external_body]
fn read_value(data: &[u8]) -> (r: Result<Value, ciborium::de::Error<std::io::Error>>)
    ensures
        match r {
            Ok(v) => parsed(data@) == Some(value_item(v)),
            Err(_) => parsed(data@) is None,
        },
{
    ciborium::de::from_reader(data)
}

/// The outermost layer of a `ciborium::value::Value`: its kind, and what it
/// holds, not yet looked into.
enum Layer<'a> {
    Integer(i128),
    Bytes(&'a Vec<u8>),
    Text(&'a String),
    Tag(u64, &'a Value),
    Array(&'a Vec<Value>),
    Mapping(&'a Vec<(Value, Value)>),
    Other,
}

/// The items that a sequence of values holds.
pub open spec fn value_items(values: Seq<Value>) -> Seq<CborView> {
    Seq::new(values.len(), |i: int| value_item(values[i]))
}

/// The entries that a sequence of pairs of values holds.
pub open spec fn value_entries(pairs: Seq<(Value, Value)>) -> Seq<(CborView, CborView)> {
    Seq::new(pairs.len(), |i: int| (value_item(pairs[i].0), value_item(pairs[i].1)))
}

/// Tells the variants of `ciborium::value::Value` apart and hands out the
/// fields of each.
///
/// An `Integer` is widened to 128 bits by its `From` impl, which keeps the
/// number. The item of a tag, an array or a map is made of the items of the
/// values inside, in their order.
#[verifier::external_body]
fn outermost<'a>(v: &'a Value) -> (layer: Layer<'a>)
    ensures
        value_item(*v) == match layer {
            Layer::Integer(n) => CborView::Integer(n as int),
            Layer::Bytes(b) => CborView::Bytes(b@),
            Layer::Text(t) => CborView::Text(t@),
            Layer::Tag(t, inner) => CborView::Tag(t, Box::new(value_item(*inner))),
            Layer::Array(items) => CborView::Array(value_items(items@)),
            Layer::Mapping(pairs) => CborView::Mapping(value_entries(pairs@)),
            Layer::Other => CborView::Other,
        },
{
    match v {
        Value::Integer(n) => Layer::Integer((*n).into()),
        Value::Bytes(b) => Layer::Bytes(b),
        Value::Text(t) => Layer::Text(t),
        Value::Tag(t, inner) => Layer::Tag(*t, inner),
        Value::Array(items) => Layer::Array(items),
        Value::Map(pairs) => Layer::Mapping(pairs),
        _ => Layer::Other,
    }
}

/// Copies a `ciborium::value::Value` into a [`Cbor`], layer by layer.
fn lift(v: &Value) -> (c: Cbor)
    ensures
        c@ == value_item(*v),
    decreases value_item(*v),
{
    match outermost(v) {
        Layer::Integer(n) => Cbor::Integer(n),
        Layer::Bytes(b) => Cbor::Bytes(b.clone()),
        Layer::Text(t) => Cbor::Text(t.clone()),
        Layer::Tag(t, inner) => {
            proof {
                let whole = value_item(*v);
                assert(decreases_to!(whole => *whole->Tag_1));
            }
            Cbor::Tag(t, Box::new(lift(inner)))
        },
        Layer::Array(items) => {
            let mut out: Vec<Cbor> = Vec::new();
            let mut i: usize = 0;
            while i < items.len()
                invariant
                    i <= items.len(),
                    value_item(*v) == CborView::Array(value_items(items@)),
                    out@.len() == i,
                    forall|j: int| 0 <= j < i ==> (#[trigger] out@[j])@ == value_item(items@[j]),
                decreases items.len() - i,
            {
                proof {
                    let whole = value_item(*v);
                    assert(decreases_to!(whole => whole->Array_0));
                    assert(decreases_to!(whole->Array_0 => whole->Array_0[i as int]));
                }
                out.push(lift(&items[i]));
                i = i + 1;
            }
            proof {
                lemma_array_view(out);
                assert(items_view(out@) =~= value_items(items@));
            }
            Cbor::Array(out)
        },
        Layer::Mapping(pairs) => {
            let mut out: Vec<(Cbor, Cbor)> = Vec::new();
            let mut i: usize = 0;
            while i < pairs.len()
                invariant
                    i <= pairs.len(),
                    value_item(*v) == CborView::Mapping(value_entries(pairs@)),
                    out@.len() == i,
                    forall|j: int|
                        0 <= j < i ==> (#[trigger] out@[j]).0@ == value_item(pairs@[j].0)
                            && out@[j].1@ == value_item(pairs@[j].1),
                decreases pairs.len() - i,
            {
                proof {
                    let whole = value_item(*v);
                    let entry = whole->Mapping_0[i as int];
                    assert(decreases_to!(whole => whole->Mapping_0));
                    assert(decreases_to!(whole->Mapping_0 => entry));
                    assert(decreases_to!(entry => entry.0));
                    assert(decreases_to!(entry => entry.1));
                }
                let key = lift(&pairs[i].0);
                let value = lift(&pairs[i].1);
                out.push((key, value));
                i = i + 1;
            }
            proof {
                lemma_mapping_view(out);
                assert(entries_view(out@) =~= value_entries(pairs@));
            }
            Cbor::Mapping(out)
        },
        Layer::Other => Cbor::Other,
    }
}

impl Cbor {
    /// Copies this item without its tags. The result is
    /// [`CborView::plain`] of the item.
    pub fn without_tags(&self) -> (c: Cbor)
        ensures
            c@ == self@.plain(),
        decreases self,
    {
        match self {
            Cbor::Integer(n) => Cbor::Integer(*n),
            Cbor::Bytes(b) => Cbor::Bytes(b.clone()),
            Cbor::Text(t) => Cbor::Text(t.clone()),
            Cbor::Tag(_, inner) => inner.without_tags(),
            Cbor::Array(items) => {
                let mut out: Vec<Cbor> = Vec::new();
                let mut i: usize = 0;
                while i < items.len()
                    invariant
                        i <= items.len(),
                        *self == Cbor::Array(*items),
                        out@.len() == i,
                        forall|j: int| 0 <= j < i ==> (#[trigger] out@[j])@ == items@[j]@.plain(),
                    decreases items.len() - i,
                {
                    proof {
                        let whole = *self;
                        assert(decreases_to!(whole => whole->Array_0));
                        assert(decreases_to!(whole->Array_0 => whole->Array_0[i as int]));
                    }
                    out.push(items[i].without_tags());
                    i = i + 1;
                }
                proof {
                    lemma_array_view(out);
                    lemma_array_view(*items);
                    assert(items_view(out@) =~= self@.plain()->Array_0);
                }
                Cbor::Array(out)
            },
            Cbor::Mapping(entries) => {
                let mut out: Vec<(Cbor, Cbor)> = Vec::new();
                let mut i: usize = 0;
                while i < entries.len()
                    invariant
                        i <= entries.len(),
                        *self == Cbor::Mapping(*entries),
                        out@.len() == i,
                        forall|j: int|
                            0 <= j < i ==> (#[trigger] out@[j]).0@ == entries@[j].0@.plain()
                                && out@[j].1@ == entries@[j].1@.plain(),
                    decreases entries.len() - i,
                {
                    proof {
                        let whole = *self;
                        let entry = whole->Mapping_0[i as int];
                        assert(decreases_to!(whole => whole->Mapping_0));
                        assert(decreases_to!(whole->Mapping_0 => entry));
                        assert(decreases_to!(entry => entry.0));
                        assert(decreases_to!(entry => entry.1));
                    }
                    let key = entries[i].0.without_tags();
                    let value = entries[i].1.without_tags();
                    out.push((key, value));
                    i = i + 1;
                }
                proof {
                    lemma_mapping_view(out);
                    lemma_mapping_view(*entries);
                    assert(entries_view(out@) =~= self@.plain()->Mapping_0);
                }
                Cbor::Mapping(out)
            },
            Cbor::Other => Cbor::Other,
        }
    }
}

/// Reads one CBOR data item from the front of `data`.
///
/// Fails with [`FormatError::CBORDecode`] exactly where [`parsed`] is `None`.
pub fn parse(data: &[u8]) -> (r: Result<Cbor, FormatError>)
    ensures
        match r {
            Ok(c) => parsed(data@) == Some(c@),
            Err(e) => e == FormatError::CBORDecode && parsed(data@) is None,
        },
{
    match read_value(data) {
        Ok(v) => Ok(lift(&v)),
        Err(_) => Err(FormatError::CBORDecode),
    }
}

} // verus!
