//! Looking headers up by name and checking their values.

use crate::ascii::{eq_ignore_ascii_case, eq_ignore_case, text_bytes};
use crate::buffers::{bytes_from_vec, shared_bytes};
use crate::errors::{HandshakeError, HandshakeErrorView, HttpError, HttpErrorView};
use crate::wire::{header_views, HeaderView, RawHeader};
use vstd::prelude::*;
use vstd::slice::slice_to_vec;

verus! {

/// The header is called `name`, up to ASCII case.
pub open spec fn has_name(h: HeaderView, name: Seq<char>) -> bool {
    eq_ignore_case(text_bytes(h.name), text_bytes(name))
}

/// The index of the first header from `start` on that is called `name`.
pub open spec fn first_from(headers: Seq<HeaderView>, name: Seq<char>, start: int) -> Option<int>
    decreases headers.len() - start,
{
    if start < 0 || start >= headers.len() {
        None
    } else if has_name(headers[start], name) {
        Some(start)
    } else {
        first_from(headers, name, start + 1)
    }
}

/// The index of the first header called `name`.
pub open spec fn first_header(headers: Seq<HeaderView>, name: Seq<char>) -> Option<int> {
    first_from(headers, name, 0)
}

/// The value of the first header called `name`.
pub open spec fn header_value(headers: Seq<HeaderView>, name: Seq<char>) -> Option<Seq<u8>> {
    match first_header(headers, name) {
        Some(i) => Some(headers[i].value),
        None => None,
    }
}

/// The error for a mandatory header that is absent.
pub open spec fn missing(name: Seq<char>) -> HandshakeErrorView {
    HandshakeErrorView::Http(HttpErrorView::MissingHeader(name))
}

/// The error for a mandatory header with an unacceptable value.
pub open spec fn invalid(name: Seq<char>) -> HandshakeErrorView {
    HandshakeErrorView::Http(HttpErrorView::InvalidHeader(name))
}

/// What [`first_from`] finds lies at or after `start`, is called `name`, and
/// has no header of that name between `start` and itself; it finds nothing
/// only where no header from `start` on has the name.
pub proof fn first_from_is_first(headers: Seq<HeaderView>, name: Seq<char>, start: int)
    requires
        0 <= start,
    ensures
        match first_from(headers, name, start) {
            Some(i) => start <= i < headers.len() && has_name(headers[i], name) && forall|j: int|
                start <= j < i ==> !has_name(#[trigger] headers[j], name),
            None => forall|j: int|
                start <= j < headers.len() ==> !has_name(#[trigger] headers[j], name),
        },
    decreases headers.len() - start,
{
    if start < headers.len() && !has_name(headers[start], name) {
        first_from_is_first(headers, name, start + 1);
    }
}

/// Finds the first header called `name`, ignoring ASCII case.
pub fn find_header(headers: &[RawHeader], name: &str) -> (r: Option<usize>)
    ensures
        match first_header(header_views(headers@), name@) {
            Some(i) => 0 <= i < headers@.len() && r == Some(i as usize),
            None => r is None,
        },
{
    let target = name.as_bytes();
    let mut i: usize = 0;
    while i < headers.len()
        invariant
            i <= headers.len(),
            target@ == text_bytes(name@),
            first_header(header_views(headers@), name@) == first_from(
                header_views(headers@),
                name@,
                i as int,
            ),
        decreases headers.len() - i,
    {
        if eq_ignore_ascii_case(headers[i].name.as_str().as_bytes(), target) {
            return Some(i);
        }
        i += 1;
    }
    None
}

/// Looks up the first header called `name` and hands its value to `check`;
/// fails with a missing-header error where there is no such header.
pub fn validate_header<F>(headers: &[RawHeader], name: &str, check: F) -> (r: Result<
    (),
    HandshakeError,
>) where F: Fn(&str, &[u8]) -> Result<(), HandshakeError>
    requires
        forall|value: &[u8]| call_requires(check, (name, value)),
    ensures
        match header_value(header_views(headers@), name@) {
            Some(found) => exists|value: &[u8]|
                value@ == found && call_ensures(check, (name, value), r),
            None => r matches Err(e) && e@ == missing(name@),
        },
{
    match find_header(headers, name) {
        Some(i) => {
            let value = headers[i].value.as_slice();
            check(name, value)
        },
        None => Err(HandshakeError::Http(HttpError::MissingHeader(name.to_owned()))),
    }
}

/// What [`validate_header_value`] returns: the header must be there and equal
/// `expected` up to ASCII case.
pub open spec fn value_check(headers: Seq<HeaderView>, name: Seq<char>, expected: Seq<char>) -> Result<
    (),
    HandshakeErrorView,
> {
    match header_value(headers, name) {
        None => Err(missing(name)),
        Some(found) => if eq_ignore_case(found, text_bytes(expected)) {
            Ok(())
        } else {
            Err(invalid(name))
        },
    }
}

/// The outcome of a check, with its error as a view.
pub open spec fn check_view(r: Result<(), HandshakeError>) -> Result<(), HandshakeErrorView> {
    match r {
        Ok(()) => Ok(()),
        Err(e) => Err(e@),
    }
}

/// Checks that the first header called `name` is there and equals `expected`
/// up to ASCII case.
pub fn validate_header_value(headers: &[RawHeader], name: &str, expected: &str) -> (r: Result<
    (),
    HandshakeError,
>)
    ensures
        check_view(r) == value_check(header_views(headers@), name@, expected@),
{
    let check = |n: &str, actual: &[u8]| -> (out: Result<(), HandshakeError>)
        ensures
            check_view(out) == if eq_ignore_case(actual@, text_bytes(expected@)) {
                Ok::<(), HandshakeErrorView>(())
            } else {
                Err::<(), HandshakeErrorView>(invalid(n@))
            },
        {
            if eq_ignore_ascii_case(actual, expected.as_bytes()) {
                Ok(())
            } else {
                Err(HandshakeError::Http(HttpError::InvalidHeader(n.to_owned())))
            }
        };
    validate_header(headers, name, check)
}

/// What [`get_header`] returns: the value of the first header called `name`.
pub open spec fn value_lookup(headers: Seq<HeaderView>, name: Seq<char>) -> Result<
    Seq<u8>,
    HandshakeErrorView,
> {
    match header_value(headers, name) {
        Some(found) => Ok(found),
        None => Err(missing(name)),
    }
}

/// The outcome of a lookup, as views.
pub open spec fn lookup_view(r: Result<bytes::Bytes, HandshakeError>) -> Result<
    Seq<u8>,
    HandshakeErrorView,
> {
    match r {
        Ok(v) => Ok(shared_bytes(v)),
        Err(e) => Err(e@),
    }
}

/// Copies out the value of the first header called `name`, byte for byte;
/// fails with a missing-header error where there is no such header.
pub fn get_header(headers: &[RawHeader], name: &str) -> (r: Result<bytes::Bytes, HandshakeError>)
    ensures
        lookup_view(r) == value_lookup(header_views(headers@), name@),
{
    match find_header(headers, name) {
        Some(i) => Ok(bytes_from_vec(slice_to_vec(headers[i].value.as_slice()))),
        None => Err(HandshakeError::Http(HttpError::MissingHeader(name.to_owned()))),
    }
}

} // verus!
