//! Conversion of raw header lines into a header map, and the handful of
//! `http` operations that the conversion rests on.

use crate::ascii::{lower_bytes, text_bytes};
use crate::errors::InvalidHeader;
use crate::wire::{header_views, HeaderView, RawHeader};
use std::str::FromStr;
use vstd::prelude::*;
use vstd::string::StringExecFns;

verus! {

// The header map of `http`; what it holds is spoken of through
// `header_entries`.
#[verifier::external_type_specification]
#[verifier::external_body]
#[verifier::reject_recursive_types(T)]
pub struct ExHeaderMap<T>(http::HeaderMap<T>);

// A header name that `http` has accepted; what it holds is spoken of
// through `header_name_bytes`.
#[verifier::external_type_specification]
#[verifier::external_body]
pub struct ExHeaderName(http::header::HeaderName);

// A header value that `http` has accepted; what it holds is spoken of
// through `header_value_bytes`.
#[verifier::external_type_specification]
#[verifier::external_body]
pub struct ExHeaderValue(http::HeaderValue);

/// One entry of a header map: the name in lower case, and the value.
pub type Entry = (Seq<u8>, Seq<u8>);

/// The bytes of the name that a `HeaderName` holds.
pub uninterp spec fn header_name_bytes(name: http::header::HeaderName) -> Seq<u8>;

/// The bytes that a `HeaderValue` holds.
pub uninterp spec fn header_value_bytes(value: http::HeaderValue) -> Seq<u8>;

/// The entries of a header map, in the order in which the map hands them out.
pub uninterp spec fn header_entries(map: http::HeaderMap<http::HeaderValue>) -> Seq<Entry>;

/// The text that `String::from_utf8_lossy` makes of a byte string.
pub uninterp spec fn utf8_lossy(bytes: Seq<u8>) -> Seq<char>;

/// The number of entries up to which this library fills a header map. It lies
/// well below the size at which a header map refuses to grow.
pub const HEADER_MAP_ROOM: usize = 4096;

/// The byte may stand in a header name: a letter, a digit, or one of
/// ``! " # $ % & ' * + - . ^ _ ` | ~``.
pub open spec fn is_name_byte(b: u8) -> bool {
    ||| 33 <= b <= 39
    ||| b == 42
    ||| b == 43
    ||| b == 45
    ||| b == 46
    ||| 48 <= b <= 57
    ||| 65 <= b <= 90
    ||| 94 <= b <= 122
    ||| b == 124
    ||| b == 126
}

/// The bytes are a header name: between 1 and 65535 bytes, each of which may
/// stand in a name.
pub open spec fn is_header_name(name: Seq<u8>) -> bool {
    &&& 1 <= name.len() <= 65535
    &&& forall|i: int| 0 <= i < name.len() ==> is_name_byte(#[trigger] name[i])
}

/// The byte may stand in a header value: anything from 32 up but 127, and the tab.
pub open spec fn is_value_byte(b: u8) -> bool {
    (b >= 32 && b != 127) || b == 9
}

/// The bytes are a header value.
pub open spec fn is_header_value(value: Seq<u8>) -> bool {
    forall|i: int| 0 <= i < value.len() ==> is_value_byte(#[trigger] value[i])
}

/// The index of the first entry from `start` on whose name is `name`.
pub open spec fn entry_from(entries: Seq<Entry>, name: Seq<u8>, start: int) -> Option<int>
    decreases entries.len() - start,
{
    if start < 0 || start >= entries.len() {
        None
    } else if entries[start].0 == name {
        Some(start)
    } else {
        entry_from(entries, name, start + 1)
    }
}

/// The entries whose name is not `name`.
pub open spec fn other_than(name: Seq<u8>) -> spec_fn(Entry) -> bool {
    |e: Entry| e.0 != name
}

/// The entries after `name` has been set to `value`: where the name is new,
/// the entry is added at the end; where it is there already, its first entry
/// takes the value in place and every later entry of that name goes.
pub open spec fn upsert(entries: Seq<Entry>, name: Seq<u8>, value: Seq<u8>) -> Seq<Entry> {
    match entry_from(entries, name, 0) {
        Some(i) => entries.take(i).push((name, value)) + entries.skip(i + 1).filter(
            other_than(name),
        ),
        None => entries.push((name, value)),
    }
}

/// Calls `HeaderName::from_str`.
///
/// Believed of http: a name is accepted exactly when it has between 1 and
/// 65535 bytes, all of them name bytes, and the name that comes back is the
/// given one in lower case.
#[verifier::external_body]
pub(crate) fn header_name_from_str(name: &str) -> (r: Option<http::header::HeaderName>)
    ensures
        r is Some <==> is_header_name(text_bytes(name@)),
        r matches Some(n) ==> header_name_bytes(n) == lower_bytes(text_bytes(name@)),
{
    http::header::HeaderName::from_str(name).ok()
}

/// Calls `HeaderValue::from_bytes`.
///
/// Believed of http: a value is accepted exactly when all its bytes are value
/// bytes, and it is kept byte for byte.
#[verifier::external_body]
pub(crate) fn header_value_from_bytes(value: &[u8]) -> (r: Option<http::HeaderValue>)
    ensures
        r is Some <==> is_header_value(value@),
        r matches Some(v) ==> header_value_bytes(v) == value@,
{
    http::HeaderValue::from_bytes(value).ok()
}

/// Calls `HeaderMap::with_capacity`.
///
/// Believed of http: the map is empty. The call panics only for a capacity
/// far above the one admitted here.
#[verifier::external_body]
pub(crate) fn header_map_with_capacity(capacity: usize) -> (map: http::HeaderMap<
    http::HeaderValue,
>)
    requires
        capacity <= HEADER_MAP_ROOM,
    ensures
        header_entries(map) == Seq::<Entry>::empty(),
{
    http::HeaderMap::with_capacity(capacity)
}

/// Calls `HeaderMap::insert`.
///
/// Believed of http: a new name is added behind the entries that are there;
/// a name that is there keeps its place, takes the new value and loses any
/// further values. The call panics only when the map cannot grow, which it
/// can while it has fewer entries than admitted here.
#[verifier::external_body]
pub(crate) fn header_map_insert(
    map: &mut http::HeaderMap<http::HeaderValue>,
    name: http::header::HeaderName,
    value: http::HeaderValue,
)
    requires
        header_entries(*old(map)).len() < HEADER_MAP_ROOM,
    ensures
        header_entries(*final(map)) == upsert(
            header_entries(*old(map)),
            header_name_bytes(name),
            header_value_bytes(value),
        ),
{
    map.insert(name, value);
}

/// The entries that a list of pairs holds.
pub open spec fn pair_views(pairs: Seq<(Vec<u8>, Vec<u8>)>) -> Seq<Entry> {
    Seq::new(pairs.len(), |i: int| (pairs[i].0@, pairs[i].1@))
}

/// Walks a header map with `HeaderMap::iter` and copies each entry out.
///
/// Believed of http: the walk hands out every entry once, each name in lower
/// case, in an order that depends on the map's history of insertions alone.
#[verifier::external_body]
pub(crate) fn header_map_pairs(map: &http::HeaderMap<http::HeaderValue>) -> (r: Vec<
    (Vec<u8>, Vec<u8>),
>)
    ensures
        pair_views(r@) == header_entries(*map),
{
    map.iter().map(
        |(name, value)| (name.as_str().as_bytes().to_vec(), value.as_bytes().to_vec()),
    ).collect()
}

/// Calls `String::from_utf8_lossy`.
///
/// Believed of std: the text depends on the bytes alone.
#[verifier::external_body]
pub(crate) fn lossy_text(bytes: &[u8]) -> (r: String)
    ensures
        r@ == utf8_lossy(bytes@),
{
    String::from_utf8_lossy(bytes).into_owned()
}

/// How a header reads in a diagnostic: `name: value`.
pub open spec fn diagnostic(h: HeaderView) -> Seq<char> {
    h.name + ": "@ + utf8_lossy(h.value)
}

/// Renders a header as `name: value`, for diagnostics.
pub fn header_diagnostic(h: &RawHeader) -> (r: String)
    ensures
        r@ == diagnostic(h@),
{
    let mut text = h.name.clone();
    text.append(": ");
    let value = lossy_text(h.value.as_slice());
    text.append(value.as_str());
    text
}

/// The header can be stored in a header map: its name is a header name and
/// its value a header value.
pub open spec fn storable(h: HeaderView) -> bool {
    is_header_name(text_bytes(h.name)) && is_header_value(h.value)
}

/// The header map that a list of headers makes, each header stored in turn
/// under its lower-case name; or, if a header cannot be stored, the
/// diagnostic of the first such header.
pub open spec fn stored(headers: Seq<HeaderView>) -> Result<Seq<Entry>, Seq<char>>
    decreases headers.len(),
{
    if headers.len() == 0 {
        Ok(Seq::<Entry>::empty())
    } else {
        match stored(headers.drop_last()) {
            Err(text) => Err(text),
            Ok(entries) => {
                let h = headers.last();
                if storable(h) {
                    Ok(upsert(entries, lower_bytes(text_bytes(h.name)), h.value))
                } else {
                    Err(diagnostic(h))
                }
            },
        }
    }
}

/// Setting a name adds at most one entry.
pub proof fn upsert_len(entries: Seq<Entry>, name: Seq<u8>, value: Seq<u8>)
    ensures
        upsert(entries, name, value).len() <= entries.len() + 1,
{
    match entry_from(entries, name, 0) {
        Some(i) => {
            entry_from_is_first(entries, name, 0);
            entries.skip(i + 1).lemma_filter_len(other_than(name));
        },
        None => {},
    }
}

/// What [`entry_from`] finds is the first entry from `start` on with the
/// name; it finds nothing only where no entry from `start` on has the name.
pub proof fn entry_from_is_first(entries: Seq<Entry>, name: Seq<u8>, start: int)
    requires
        0 <= start,
    ensures
        match entry_from(entries, name, start) {
            Some(i) => start <= i < entries.len() && entries[i].0 == name && forall|j: int|
                start <= j < i ==> (#[trigger] entries[j]).0 != name,
            None => forall|j: int| start <= j < entries.len() ==> (#[trigger] entries[j]).0 != name,
        },
    decreases entries.len() - start,
{
    if start < entries.len() && entries[start].0 != name {
        entry_from_is_first(entries, name, start + 1);
    }
}

/// A conversion that may fail, from a borrowed raw form into an owned one.
pub trait TryMap<Target> {
    /// What a failed conversion reports.
    type Failure;

    /// The value is within the limits up to which it can be converted.
    spec fn mappable(&self) -> bool;

    /// Converts the value, or says why it cannot be converted.
    fn try_map(self) -> (r: Result<Target, Self::Failure>)
        requires
            self.mappable(),
    ;
}

/// The outcome of a header conversion, as views.
pub open spec fn stored_view(r: Result<http::HeaderMap<http::HeaderValue>, InvalidHeader>) -> Result<
    Seq<Entry>,
    Seq<char>,
> {
    match r {
        Ok(map) => Ok(header_entries(map)),
        Err(e) => Err(e@),
    }
}

impl<'h> TryMap<http::HeaderMap<http::HeaderValue>> for &'h [RawHeader] {
    type Failure = InvalidHeader;

    open spec fn mappable(&self) -> bool {
        self@.len() <= HEADER_MAP_ROOM
    }

    /// Stores each header in turn in a fresh header map. A later header
    /// replaces an earlier one of the same name, whatever the case of the two
    /// names. The first header that is no valid name or no valid value ends
    /// the conversion with its diagnostic.
    fn try_map(self) -> (r: Result<http::HeaderMap<http::HeaderValue>, InvalidHeader>)
        ensures
            stored_view(r) == stored(header_views(self@)),
    {
        let mut map = header_map_with_capacity(self.len());
        let ghost views = header_views(self@);
        let mut i: usize = 0;
        assert(views.take(0) =~= Seq::<HeaderView>::empty());
        while i < self.len()
            invariant
                i <= self.len() <= HEADER_MAP_ROOM,
                views == header_views(self@),
                stored(views.take(i as int)) == Ok::<Seq<Entry>, Seq<char>>(header_entries(map)),
                header_entries(map).len() <= i,
            decreases self.len() - i,
        {
            let h = &self[i];
            proof {
                assert(views.take(i + 1).drop_last() =~= views.take(i as int));
                assert(views.take(i + 1).last() == h@);
                upsert_len(header_entries(map), lower_bytes(text_bytes(h@.name)), h@.value);
            }
            let name = match header_name_from_str(h.name.as_str()) {
                Some(name) => name,
                None => {
                    proof {
                        stored_fails_on(views, i as int);
                    }
                    return Err(InvalidHeader(header_diagnostic(h)));
                },
            };
            let value = match header_value_from_bytes(h.value.as_slice()) {
                Some(value) => value,
                None => {
                    proof {
                        stored_fails_on(views, i as int);
                    }
                    return Err(InvalidHeader(header_diagnostic(h)));
                },
            };
            header_map_insert(&mut map, name, value);
            i += 1;
        }
        assert(views.take(i as int) =~= views);
        Ok(map)
    }
}

/// Once a prefix of the headers fails to convert, the whole list fails with
/// the same diagnostic.
pub proof fn stored_prefix_error(headers: Seq<HeaderView>, n: int)
    requires
        0 <= n <= headers.len(),
        stored(headers.take(n)) is Err,
    ensures
        stored(headers) == stored(headers.take(n)),
    decreases headers.len() - n,
{
    if n < headers.len() {
        assert(headers.take(n + 1).drop_last() =~= headers.take(n));
        stored_prefix_error(headers, n + 1);
    } else {
        assert(headers.take(n) =~= headers);
    }
}

/// Where the headers before `i` convert and header `i` cannot be stored, the
/// list fails with the diagnostic of header `i`.
pub proof fn stored_fails_on(headers: Seq<HeaderView>, i: int)
    requires
        0 <= i < headers.len(),
        stored(headers.take(i)) is Ok,
        !storable(headers[i]),
    ensures
        stored(headers) == Err::<Seq<Entry>, Seq<char>>(diagnostic(headers[i])),
{
    assert(headers.take(i + 1).drop_last() =~= headers.take(i));
    assert(headers.take(i + 1).last() == headers[i]);
    stored_prefix_error(headers, i + 1);
}

/// The value that the entries hold for a name.
pub open spec fn lookup(entries: Seq<Entry>, name: Seq<u8>) -> Option<Seq<u8>> {
    match entry_from(entries, name, 0) {
        Some(i) => Some(entries[i].1),
        None => None,
    }
}

/// No two entries have the same name.
pub open spec fn distinct_names(entries: Seq<Entry>) -> bool {
    forall|i: int, j: int|
        0 <= i < j < entries.len() ==> (#[trigger] entries[i]).0 != (#[trigger] entries[j]).0
}

/// The value of the last header whose name is `name` in lower case.
pub open spec fn last_value(headers: Seq<HeaderView>, name: Seq<u8>) -> Option<Seq<u8>>
    decreases headers.len(),
{
    if headers.len() == 0 {
        None
    } else if lower_bytes(text_bytes(headers.last().name)) == name {
        Some(headers.last().value)
    } else {
        last_value(headers.drop_last(), name)
    }
}

/// Entries of which none has the name all stay when that name is taken out.
proof fn filter_keeps_other_names(entries: Seq<Entry>, name: Seq<u8>)
    requires
        forall|k: int| 0 <= k < entries.len() ==> (#[trigger] entries[k]).0 != name,
    ensures
        entries.filter(other_than(name)) == entries,
    decreases entries.len(),
{
    reveal(Seq::filter);
    let keep = other_than(name);
    if entries.len() > 0 {
        let before = entries.drop_last();
        assert forall|k: int| 0 <= k < before.len() implies (#[trigger] before[k]).0 != name by {
            assert(before[k] == entries[k]);
        }
        filter_keeps_other_names(before, name);
        assert(keep(entries.last())) by {
            assert(entries[entries.len() - 1].0 != name);
        }
        assert(before.push(entries.last()) =~= entries);
    } else {
        assert(entries.filter(keep) =~= entries);
    }
}

/// Among entries with distinct names, setting a name replaces its entry in
/// place or adds one at the end, and the names stay distinct.
pub proof fn upsert_in_distinct(entries: Seq<Entry>, name: Seq<u8>, value: Seq<u8>)
    requires
        distinct_names(entries),
    ensures
        upsert(entries, name, value) == match entry_from(entries, name, 0) {
            Some(i) => entries.update(i, (name, value)),
            None => entries.push((name, value)),
        },
        distinct_names(upsert(entries, name, value)),
{
    entry_from_is_first(entries, name, 0);
    match entry_from(entries, name, 0) {
        Some(i) => {
            let rest = entries.skip(i + 1);
            assert forall|k: int| 0 <= k < rest.len() implies (#[trigger] rest[k]).0 != name by {
                assert(rest[k] == entries[i + 1 + k]);
                assert(entries[i].0 != entries[i + 1 + k].0);
            }
            filter_keeps_other_names(rest, name);
            let after = entries.update(i, (name, value));
            assert(entries.take(i).push((name, value)) + rest =~= after);
            assert forall|a: int, b: int| 0 <= a < b < after.len() implies (#[trigger] after[a]).0
                != (#[trigger] after[b]).0 by {
                assert(entries[a].0 != entries[b].0);
            }
        },
        None => {
            let after = entries.push((name, value));
            assert forall|a: int, b: int| 0 <= a < b < after.len() implies (#[trigger] after[a]).0
                != (#[trigger] after[b]).0 by {
                if b < entries.len() {
                    assert(entries[a].0 != entries[b].0);
                } else {
                    assert(entries[a].0 != name);
                }
            }
        },
    }
}

/// Two lists of entries with the same names in the same places hold a name
/// at the same place.
proof fn entry_from_same_names(a: Seq<Entry>, b: Seq<Entry>, name: Seq<u8>, start: int)
    requires
        0 <= start,
        a.len() == b.len(),
        forall|k: int| 0 <= k < a.len() ==> (#[trigger] a[k]).0 == b[k].0,
    ensures
        entry_from(a, name, start) == entry_from(b, name, start),
    decreases a.len() - start,
{
    if start < a.len() {
        assert(a[start].0 == b[start].0);
        if a[start].0 != name {
            entry_from_same_names(a, b, name, start + 1);
        }
    }
}

/// A longer list holds a name where the shorter one does, if the shorter
/// one holds it at all.
proof fn entry_from_prefix(entries: Seq<Entry>, last: Entry, name: Seq<u8>, start: int)
    requires
        0 <= start,
    ensures
        entry_from(entries.push(last), name, start) == match entry_from(entries, name, start) {
            Some(i) => Some(i),
            None => if last.0 == name && start <= entries.len() {
                Some(entries.len() as int)
            } else {
                None
            },
        },
    decreases entries.len() - start,
{
    let longer = entries.push(last);
    if start < entries.len() {
        assert(longer[start] == entries[start]);
        if entries[start].0 != name {
            entry_from_prefix(entries, last, name, start + 1);
        }
    } else if start == entries.len() {
        assert(longer[start] == last);
        if last.0 != name {
            assert(entry_from(longer, name, start + 1) is None);
        }
    }
}

/// Among entries with distinct names, setting a name gives that name the
/// new value and leaves the value of every other name as it was.
pub proof fn lookup_after_upsert(
    entries: Seq<Entry>,
    name: Seq<u8>,
    value: Seq<u8>,
    other: Seq<u8>,
)
    requires
        distinct_names(entries),
    ensures
        lookup(upsert(entries, name, value), other) == if other == name {
            Some(value)
        } else {
            lookup(entries, other)
        },
{
    upsert_in_distinct(entries, name, value);
    entry_from_is_first(entries, name, 0);
    entry_from_is_first(entries, other, 0);
    match entry_from(entries, name, 0) {
        Some(i) => {
            let after = entries.update(i, (name, value));
            entry_from_same_names(entries, after, other, 0);
            entry_from_is_first(after, other, 0);
        },
        None => {
            entry_from_prefix(entries, (name, value), other, 0);
        },
    }
}

/// The last write wins: the header map that a list of headers makes holds
/// each name once, and holds for it the value of the last header of that
/// name, whatever the case of the headers' names.
pub proof fn stored_is_last_write_wins(headers: Seq<HeaderView>, name: Seq<u8>)
    ensures
        stored(headers) matches Ok(entries) ==> distinct_names(entries) && lookup(entries, name)
            == last_value(headers, name),
    decreases headers.len(),
{
    if headers.len() > 0 {
        stored_is_last_write_wins(headers.drop_last(), name);
        match stored(headers.drop_last()) {
            Ok(entries) => {
                let h = headers.last();
                if storable(h) {
                    let stored_name = lower_bytes(text_bytes(h.name));
                    upsert_in_distinct(entries, stored_name, h.value);
                    lookup_after_upsert(entries, stored_name, h.value, name);
                }
            },
            Err(_) => {},
        }
    }
}

/// The byte is a space or a control character.
pub open spec fn is_space_or_control(b: u8) -> bool {
    b <= 32 || b == 127
}

/// A list of headers converts exactly when every header can be stored; else
/// the conversion fails with the diagnostic of the first header that cannot.
pub proof fn stored_fails_on_first(headers: Seq<HeaderView>)
    ensures
        match stored(headers) {
            Ok(_) => forall|i: int| 0 <= i < headers.len() ==> storable(#[trigger] headers[i]),
            Err(text) => exists|i: int|
                0 <= i < headers.len() && !storable(#[trigger] headers[i]) && text == diagnostic(
                    headers[i],
                ) && forall|j: int| 0 <= j < i ==> storable(#[trigger] headers[j]),
        },
    decreases headers.len(),
{
    if headers.len() > 0 {
        let before = headers.drop_last();
        stored_fails_on_first(before);
        match stored(before) {
            Ok(_) => {
                assert forall|j: int| 0 <= j < headers.len() - 1 implies storable(
                    #[trigger] headers[j],
                ) by {
                    assert(before[j] == headers[j]);
                }
                if !storable(headers.last()) {
                    assert(!storable(headers[headers.len() - 1]));
                }
            },
            Err(text) => {
                let i = choose|i: int|
                    0 <= i < before.len() && !storable(#[trigger] before[i]) && text == diagnostic(
                        before[i],
                    ) && forall|j: int| 0 <= j < i ==> storable(#[trigger] before[j]);
                assert(before[i] == headers[i]);
                assert forall|j: int| 0 <= j < i implies storable(#[trigger] headers[j]) by {
                    assert(before[j] == headers[j]);
                }
            },
        }
    }
}

/// A header whose name holds a space or a control character cannot be
/// stored: a list with such a header is refused, and where that header is the
/// first one that cannot be stored, the diagnostic reads `name: value` for
/// its name and its value.
pub proof fn blank_in_name_is_refused(headers: Seq<HeaderView>, i: int, at: int)
    requires
        0 <= i < headers.len(),
        0 <= at < text_bytes(headers[i].name).len(),
        is_space_or_control(text_bytes(headers[i].name)[at]),
    ensures
        !storable(headers[i]),
        stored(headers) is Err,
        (forall|j: int| 0 <= j < i ==> storable(#[trigger] headers[j])) ==> stored(headers)
            == Err::<Seq<Entry>, Seq<char>>(
            headers[i].name + ": "@ + utf8_lossy(headers[i].value),
        ),
{
    assert(!is_name_byte(text_bytes(headers[i].name)[at]));
    stored_fails_on_first(headers);
    if forall|j: int| 0 <= j < i ==> storable(#[trigger] headers[j]) {
        let k = choose|k: int|
            0 <= k < headers.len() && !storable(#[trigger] headers[k]) && stored(headers)->Err_0
                == diagnostic(headers[k]) && forall|j: int|
                0 <= j < k ==> storable(#[trigger] headers[j]);
        assert(k == i);
    }
}

} // verus!
