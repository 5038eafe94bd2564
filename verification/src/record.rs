//! CBOR maps read as records: fields are found by their text keys.

use vstd::prelude::*;
use crate::cbor::{
    entries_view, items_view, lemma_array_view, lemma_mapping_view, Cbor, CborView,
};
use crate::error::FormatError;

verus! {

/// The entries of a record: `v` must be a map whose keys are all text.
pub open spec fn record(v: CborView) -> Result<Seq<(CborView, CborView)>, FormatError> {
    match v {
        CborView::Mapping(entries) => if forall|i: int|
            0 <= i < entries.len() ==> (#[trigger] entries[i]).0 is Text {
            Ok(entries)
        } else {
            Err(FormatError::SchemaMismatch)
        },
        _ => Err(FormatError::SchemaMismatch),
    }
}

/// The value under the key `name` in `entries`: `Ok(None)` where no entry has
/// that key, the value where exactly one has it, and
/// [`FormatError::SchemaMismatch`] where the key repeats.
pub open spec fn field(entries: Seq<(CborView, CborView)>, name: Seq<char>) -> Result<
    Option<CborView>,
    FormatError,
>
    decreases entries.len(),
{
    if entries.len() == 0 {
        Ok(None)
    } else {
        let before = field(entries.drop_last(), name);
        if entries.last().0 == CborView::Text(name) {
            match before {
                Ok(None) => Ok(Some(entries.last().1)),
                _ => Err(FormatError::SchemaMismatch),
            }
        } else {
            before
        }
    }
}

/// A text field that must be present.
pub open spec fn text(entries: Seq<(CborView, CborView)>, name: Seq<char>) -> Result<
    Seq<char>,
    FormatError,
> {
    match field(entries, name) {
        Ok(Some(CborView::Text(t))) => Ok(t),
        _ => Err(FormatError::SchemaMismatch),
    }
}

/// A text field that is empty where the key is absent.
pub open spec fn text_or_empty(entries: Seq<(CborView, CborView)>, name: Seq<char>) -> Result<
    Seq<char>,
    FormatError,
> {
    match field(entries, name) {
        Ok(None) => Ok(Seq::empty()),
        Ok(Some(CborView::Text(t))) => Ok(t),
        _ => Err(FormatError::SchemaMismatch),
    }
}

/// An integer field that must be present and fit in 32 bits.
pub open spec fn small_int(entries: Seq<(CborView, CborView)>, name: Seq<char>) -> Result<
    i32,
    FormatError,
> {
    match field(entries, name) {
        Ok(Some(CborView::Integer(n))) => if i32::MIN <= n <= i32::MAX {
            Ok(n as i32)
        } else {
            Err(FormatError::SchemaMismatch)
        },
        _ => Err(FormatError::SchemaMismatch),
    }
}

/// The items of a list field; no items where the key is absent.
pub open spec fn list(entries: Seq<(CborView, CborView)>, name: Seq<char>) -> Result<
    Seq<CborView>,
    FormatError,
> {
    match field(entries, name) {
        Ok(None) => Ok(Seq::empty()),
        Ok(Some(CborView::Array(items))) => Ok(items),
        _ => Err(FormatError::SchemaMismatch),
    }
}

/// A field that must be present.
pub open spec fn required(entries: Seq<(CborView, CborView)>, name: Seq<char>) -> Result<
    CborView,
    FormatError,
> {
    match field(entries, name) {
        Ok(Some(v)) => Ok(v),
        _ => Err(FormatError::SchemaMismatch),
    }
}

/// Every item of `items` read by `read`; fails where one of them fails.
pub open spec fn each<T>(
    items: Seq<CborView>,
    read: spec_fn(CborView) -> Result<T, FormatError>,
) -> Result<Seq<T>, FormatError> {
    if forall|i: int| 0 <= i < items.len() ==> read(#[trigger] items[i]) is Ok {
        Ok(Seq::new(items.len(), |i: int| read(items[i])->Ok_0))
    } else {
        Err(FormatError::SchemaMismatch)
    }
}

/// Whether the entry at `i` has the key `name`.
pub open spec fn at_key(entries: Seq<(CborView, CborView)>, i: int, name: Seq<char>) -> bool {
    0 <= i < entries.len() && entries[i].0 == CborView::Text(name)
}

/// What [`field`] tells: the key is absent where no entry has it, it leads to
/// the value of the one entry that has it, and it repeats where two entries
/// have it.
pub proof fn lemma_field_exact(entries: Seq<(CborView, CborView)>, name: Seq<char>)
    ensures
        field(entries, name) == Ok::<Option<CborView>, FormatError>(None) <==> forall|i: int|
            !at_key(entries, i, name),
        field(entries, name) matches Ok(Some(v)) ==> exists|i: int| #[trigger]
            at_key(entries, i, name) && v == entries[i].1 && forall|j: int|
                at_key(entries, j, name) ==> j == i,
        field(entries, name) is Err <==> exists|i: int, j: int|
            i < j && #[trigger] at_key(entries, i, name) && #[trigger] at_key(entries, j, name),
        field(entries, name) is Err ==> field(entries, name) == Err::<Option<CborView>, _>(
            FormatError::SchemaMismatch,
        ),
    decreases entries.len(),
{
    if entries.len() > 0 {
        let front = entries.drop_last();
        let last = entries.len() - 1;
        lemma_field_exact(front, name);
        assert(entries.last() == entries[last]);
        assert forall|i: int| at_key(front, i, name) <==> at_key(entries, i, name) && i
            < last by {
            if 0 <= i < last {
                assert(front[i] == entries[i]);
            }
        }
        if at_key(entries, last, name) {
            if field(front, name) == Ok::<Option<CborView>, FormatError>(None) {
                assert(at_key(entries, last, name) && forall|j: int|
                    at_key(entries, j, name) ==> j == last);
                assert(!exists|i: int, j: int|
                    i < j && #[trigger] at_key(entries, i, name) && #[trigger] at_key(
                        entries,
                        j,
                        name,
                    ));
            } else if field(front, name) is Ok {
                let i = choose|i: int| at_key(front, i, name);
                assert(at_key(entries, i, name) && at_key(entries, last, name) && i < last);
            } else {
                let (i, j) = choose|i: int, j: int|
                    i < j && #[trigger] at_key(front, i, name) && #[trigger] at_key(front, j, name);
                assert(at_key(entries, i, name) && at_key(entries, j, name));
            }
        } else {
            if field(front, name) is Err {
                let (i, j) = choose|i: int, j: int|
                    i < j && #[trigger] at_key(front, i, name) && #[trigger] at_key(front, j, name);
                assert(at_key(entries, i, name) && at_key(entries, j, name));
            } else if field(front, name) != Ok::<Option<CborView>, FormatError>(None) {
                let i = choose|i: int|
                    #[trigger] at_key(front, i, name) && field(front, name)->Ok_0->Some_0
                        == front[i].1 && forall|j: int| at_key(front, j, name) ==> j == i;
                assert(front[i] == entries[i]);
                assert(at_key(entries, i, name) && forall|j: int|
                    at_key(entries, j, name) ==> j == i);
                assert(!exists|i: int, j: int|
                    i < j && #[trigger] at_key(entries, i, name) && #[trigger] at_key(
                        entries,
                        j,
                        name,
                    ));
            } else {
                assert(!exists|i: int, j: int|
                    i < j && #[trigger] at_key(entries, i, name) && #[trigger] at_key(
                        entries,
                        j,
                        name,
                    ));
            }
        }
    }
}

/// Whether no key occurs twice in `entries`.
pub open spec fn distinct_keys(entries: Seq<(CborView, CborView)>) -> bool {
    forall|i: int, j: int|
        0 <= i < j < entries.len() ==> (#[trigger] entries[i]).0 != (#[trigger] entries[j]).0
}

/// A key that no entry has is absent.
pub proof fn lemma_field_absent(entries: Seq<(CborView, CborView)>, name: Seq<char>)
    requires
        forall|i: int| 0 <= i < entries.len() ==> (#[trigger] entries[i]).0 != CborView::Text(name),
    ensures
        field(entries, name) == Ok::<Option<CborView>, FormatError>(None),
{
    lemma_field_exact(entries, name);
}

/// Where no key occurs twice, the key of an entry leads to its value.
pub proof fn lemma_field_found(entries: Seq<(CborView, CborView)>, at: int, name: Seq<char>)
    requires
        distinct_keys(entries),
        0 <= at < entries.len(),
        entries[at].0 == CborView::Text(name),
    ensures
        field(entries, name) == Ok::<_, FormatError>(Some(entries[at].1)),
{
    lemma_field_exact(entries, name);
    assert(at_key(entries, at, name));
    if field(entries, name) is Err {
        let (i, j) = choose|i: int, j: int|
            i < j && #[trigger] at_key(entries, i, name) && #[trigger] at_key(entries, j, name);
        assert(entries[i].0 != entries[j].0);
    }
}

/// Tells whether two texts are equal, by their UTF-8 bytes.
pub fn same_text(a: &str, b: &str) -> (r: bool)
    ensures
        r == (a@ == b@),
{
    let x = a.as_bytes();
    let y = b.as_bytes();
    proof {
        vstd::utf8::encode_utf8_decode_utf8(a@);
        vstd::utf8::encode_utf8_decode_utf8(b@);
    }
    if x.len() != y.len() {
        return false;
    }
    let mut i: usize = 0;
    while i < x.len()
        invariant
            i <= x.len(),
            x.len() == y.len(),
            x@ == vstd::utf8::encode_utf8(a@),
            y@ == vstd::utf8::encode_utf8(b@),
            forall|j: int| 0 <= j < i ==> x@[j] == y@[j],
        decreases x.len() - i,
    {
        if x[i] != y[i] {
            return false;
        }
        i = i + 1;
    }
    assert(x@ =~= y@);
    true
}

/// Reads `value` as a record and hands out its entries.
pub fn entries_of(value: &Cbor) -> (r: Result<&Vec<(Cbor, Cbor)>, FormatError>)
    ensures
        match r {
            Ok(entries) => record(value@) == Ok::<_, FormatError>(entries_view(entries@)),
            Err(e) => e == FormatError::SchemaMismatch && record(value@) is Err,
        },
{
    match value {
        Cbor::Mapping(entries) => {
            proof {
                lemma_mapping_view(*entries);
            }
            let ghost view = entries_view(entries@);
            let mut i: usize = 0;
            while i < entries.len()
                invariant
                    i <= entries.len(),
                    view == entries_view(entries@),
                    value@ == CborView::Mapping(view),
                    forall|j: int| 0 <= j < i ==> (#[trigger] view[j]).0 is Text,
                decreases entries.len() - i,
            {
                match &entries[i].0 {
                    Cbor::Text(_) => {},
                    _ => {
                        assert(!(view[i as int].0 is Text));
                        return Err(FormatError::SchemaMismatch);
                    },
                }
                i = i + 1;
            }
            Ok(entries)
        },
        _ => Err(FormatError::SchemaMismatch),
    }
}

/// Looks the key `name` up in `entries`.
pub fn find<'a>(entries: &'a Vec<(Cbor, Cbor)>, name: &str) -> (r: Result<
    Option<&'a Cbor>,
    FormatError,
>)
    ensures
        match r {
            Ok(Some(v)) => field(entries_view(entries@), name@) == Ok::<_, FormatError>(Some(v@)),
            Ok(None) => field(entries_view(entries@), name@) == Ok::<Option<CborView>, FormatError>(
                None,
            ),
            Err(e) => e == FormatError::SchemaMismatch && field(entries_view(entries@), name@)
                is Err,
        },
{
    let ghost view = entries_view(entries@);
    let mut found: Option<&'a Cbor> = None;
    let mut repeated = false;
    let mut i: usize = 0;
    while i < entries.len()
        invariant
            i <= entries.len(),
            view == entries_view(entries@),
            repeated ==> field(view.take(i as int), name@) is Err,
            !repeated ==> match found {
                Some(v) => field(view.take(i as int), name@) == Ok::<_, FormatError>(Some(v@)),
                None => field(view.take(i as int), name@) == Ok::<Option<CborView>, FormatError>(
                    None,
                ),
            },
        decreases entries.len() - i,
    {
        let hit = match &entries[i].0 {
            Cbor::Text(key) => same_text(key.as_str(), name),
            _ => false,
        };
        proof {
            assert(view.take(i + 1).drop_last() == view.take(i as int));
            assert(view.take(i + 1).last() == view[i as int]);
            assert(hit == (view[i as int].0 == CborView::Text(name@)));
        }
        if hit {
            if found.is_some() {
                repeated = true;
            } else {
                found = Some(&entries[i].1);
            }
        }
        i = i + 1;
    }
    proof {
        assert(view.take(i as int) == view);
    }
    if repeated {
        Err(FormatError::SchemaMismatch)
    } else {
        Ok(found)
    }
}

/// Reads a field that must be present.
pub fn get<'a>(entries: &'a Vec<(Cbor, Cbor)>, name: &str) -> (r: Result<&'a Cbor, FormatError>)
    ensures
        match r {
            Ok(v) => required(entries_view(entries@), name@) == Ok::<_, FormatError>(v@),
            Err(e) => e == FormatError::SchemaMismatch && required(entries_view(entries@), name@)
                is Err,
        },
{
    match find(entries, name) {
        Ok(Some(v)) => Ok(v),
        _ => Err(FormatError::SchemaMismatch),
    }
}

/// Reads a text field that must be present.
pub fn get_text(entries: &Vec<(Cbor, Cbor)>, name: &str) -> (r: Result<String, FormatError>)
    ensures
        match r {
            Ok(t) => text(entries_view(entries@), name@) == Ok::<_, FormatError>(t@),
            Err(e) => e == FormatError::SchemaMismatch && text(entries_view(entries@), name@)
                is Err,
        },
{
    match find(entries, name) {
        Ok(Some(Cbor::Text(t))) => Ok(t.clone()),
        _ => Err(FormatError::SchemaMismatch),
    }
}

/// Reads a text field that is empty where the key is absent.
pub fn get_text_or_empty(entries: &Vec<(Cbor, Cbor)>, name: &str) -> (r: Result<
    String,
    FormatError,
>)
    ensures
        match r {
            Ok(t) => text_or_empty(entries_view(entries@), name@) == Ok::<_, FormatError>(t@),
            Err(e) => e == FormatError::SchemaMismatch && text_or_empty(
                entries_view(entries@),
                name@,
            ) is Err,
        },
{
    match find(entries, name) {
        Ok(None) => Ok(String::new()),
        Ok(Some(Cbor::Text(t))) => Ok(t.clone()),
        _ => Err(FormatError::SchemaMismatch),
    }
}

/// Reads an integer field that must be present and fit in 32 bits.
pub fn get_small_int(entries: &Vec<(Cbor, Cbor)>, name: &str) -> (r: Result<i32, FormatError>)
    ensures
        match r {
            Ok(n) => small_int(entries_view(entries@), name@) == Ok::<_, FormatError>(n),
            Err(e) => e == FormatError::SchemaMismatch && small_int(entries_view(entries@), name@)
                is Err,
        },
{
    match find(entries, name) {
        Ok(Some(Cbor::Integer(n))) => {
            if -2147483648 <= *n && *n <= 2147483647 {
                Ok(*n as i32)
            } else {
                Err(FormatError::SchemaMismatch)
            }
        },
        _ => Err(FormatError::SchemaMismatch),
    }
}

/// Reads a list field; `None` where the key is absent.
pub fn get_list<'a>(entries: &'a Vec<(Cbor, Cbor)>, name: &str) -> (r: Result<
    Option<&'a Vec<Cbor>>,
    FormatError,
>)
    ensures
        match r {
            Ok(Some(items)) => list(entries_view(entries@), name@) == Ok::<_, FormatError>(
                items_view(items@),
            ),
            Ok(None) => list(entries_view(entries@), name@) == Ok::<_, FormatError>(
                Seq::<CborView>::empty(),
            ),
            Err(e) => e == FormatError::SchemaMismatch && list(entries_view(entries@), name@)
                is Err,
        },
{
    match find(entries, name) {
        Ok(None) => Ok(None),
        Ok(Some(Cbor::Array(items))) => {
            proof {
                lemma_array_view(*items);
            }
            Ok(Some(items))
        },
        _ => Err(FormatError::SchemaMismatch),
    }
}

} // verus!
