//! The encoding of the server's HTTP response into a byte buffer.

use crate::ascii::text_bytes;
use crate::errors::opt_text;
use crate::buffers::{buffer_bytes, buffer_clear, buffer_put_slice, buffer_reserve};
use crate::header_map::{
    header_entries, header_map_pairs, is_header_value, is_value_byte, pair_views, Entry,
};
use vstd::prelude::*;

verus! {

/// The canonical reason phrase that `http` has for a status code, or `None`
/// where it has none.
pub uninterp spec fn reason_phrase(status: u16) -> Option<Seq<char>>;

/// Calls `StatusCode::canonical_reason` for the status code of the given number.
///
/// Believed of http: the phrase depends on the number alone.
#[verifier::external_body]
pub(crate) fn canonical_reason(status: u16) -> (r: Option<&'static str>)
    ensures
        r is Some == reason_phrase(status) is Some,
        r matches Some(reason) ==> reason@ == reason_phrase(status)->0,
{
    match http::StatusCode::from_u16(status) {
        Ok(code) => code.canonical_reason(),
        Err(_) => None,
    }
}

/// The three decimal digits of a status code.
pub open spec fn digits(status: u16) -> Seq<u8> {
    seq![
        (48 + status / 100) as u8,
        (48 + (status / 10) % 10) as u8,
        (48 + status % 10) as u8,
    ]
}

/// The status line: the version, the code and, where the code has a
/// canonical reason, the reason between two spaces.
pub open spec fn status_line(status: u16) -> Seq<u8> {
    text_bytes("HTTP/1.1 "@) + digits(status) + match reason_phrase(status) {
        Some(reason) => text_bytes(" "@) + text_bytes(reason) + text_bytes(" \r\n"@),
        None => text_bytes("\r\n"@),
    }
}

/// One header line: `name: value` and a line end.
pub open spec fn header_line(entry: Entry) -> Seq<u8> {
    entry.0 + text_bytes(": "@) + entry.1 + text_bytes("\r\n"@)
}

/// The header lines, one for each entry, in order.
pub open spec fn header_lines(entries: Seq<Entry>) -> Seq<u8>
    decreases entries.len(),
{
    if entries.len() == 0 {
        Seq::<u8>::empty()
    } else {
        header_lines(entries.drop_last()) + header_line(entries.last())
    }
}

/// What ends the response: one line end where header lines came before it,
/// two where none did.
pub open spec fn terminator(entries: Seq<Entry>) -> Seq<u8> {
    if entries.len() == 0 {
        text_bytes("\r\n\r\n"@)
    } else {
        text_bytes("\r\n"@)
    }
}

/// The body as bytes; nothing where there is no body.
pub open spec fn body_bytes(body: Option<Seq<char>>) -> Seq<u8> {
    match body {
        Some(text) => text_bytes(text),
        None => Seq::<u8>::empty(),
    }
}

/// The response on the wire: status line, header lines, body, terminator.
pub open spec fn response_bytes(status: u16, entries: Seq<Entry>, body: Option<Seq<char>>) -> Seq<
    u8,
> {
    status_line(status) + header_lines(entries) + body_bytes(body) + terminator(entries)
}

/// The number of bytes that the response takes up without its body.
pub open spec fn head_len(status: u16, entries: Seq<Entry>) -> nat {
    status_line(status).len() + header_lines(entries).len() + terminator(entries).len()
}

/// The length of an optional text in bytes.
pub open spec fn opt_str_len(text: Option<&str>) -> Option<nat> {
    match text {
        Some(text) => Some(text_bytes(text@).len()),
        None => None,
    }
}

/// The length of the terminator behind the given entries.
pub open spec fn terminator_len(entries: Seq<Entry>) -> nat {
    if entries.len() == 0 {
        4
    } else {
        2
    }
}

/// The length of the header lines.
pub open spec fn lines_len(entries: Seq<Entry>) -> nat
    decreases entries.len(),
{
    if entries.len() == 0 {
        0
    } else {
        lines_len(entries.drop_last()) + entries.last().0.len() + entries.last().1.len() + 4
    }
}

/// The size of a response without its body, from the length of its reason
/// phrase and from its entries.
pub open spec fn head_size(reason_len: Option<nat>, entries: Seq<Entry>) -> nat {
    (match reason_len {
        Some(n) => 16 + n,
        None => 14,
    }) + lines_len(entries) + terminator_len(entries)
}

/// The three decimal digits of a status code.
pub fn status_digits(status: u16) -> (r: Vec<u8>)
    requires
        100 <= status <= 999,
    ensures
        r@ == digits(status),
{
    let hundreds: u8 = (status / 100) as u8;
    let tens: u8 = ((status / 10) % 10) as u8;
    let ones: u8 = (status % 10) as u8;
    let r = vec![48 + hundreds, 48 + tens, 48 + ones];
    assert(r@ =~= digits(status));
    r
}

/// Adds `extra` to a byte count that may have run over already.
fn grow(count: Option<usize>, extra: usize) -> (r: Option<usize>)
    ensures
        r == match count {
            Some(n) => if n + extra <= usize::MAX {
                Some((n + extra) as usize)
            } else {
                None
            },
            None => None,
        },
{
    match count {
        Some(n) => n.checked_add(extra),
        None => None,
    }
}

/// The number of bytes that the response takes up without its body, or
/// `None` where that number does not fit the machine's word.
fn head_capacity(reason: Option<&str>, pairs: &Vec<(Vec<u8>, Vec<u8>)>) -> (r: Option<usize>)
    ensures
        r matches Some(n) ==> n == head_size(opt_str_len(reason), pair_views(pairs@)),
        r is None ==> head_size(opt_str_len(reason), pair_views(pairs@)) > usize::MAX,
{
    let line: Option<usize> = match reason {
        Some(text) => grow(Some(16), text.as_bytes().len()),
        None => Some(14),
    };
    let mut total = grow(line, if pairs.len() == 0 { 4 } else { 2 });
    let ghost entries = pair_views(pairs@);
    let mut i: usize = 0;
    assert(entries.take(0) =~= Seq::<Entry>::empty());
    while i < pairs.len()
        invariant
            i <= pairs.len(),
            entries == pair_views(pairs@),
            total matches Some(n) ==> n == head_size(opt_str_len(reason), entries.take(i as int))
                - terminator_len(entries.take(i as int)) + terminator_len(entries),
            total is None ==> head_size(opt_str_len(reason), entries.take(i as int))
                - terminator_len(entries.take(i as int)) + terminator_len(entries) > usize::MAX,
        decreases pairs.len() - i,
    {
        proof {
            assert(entries.take(i + 1).drop_last() =~= entries.take(i as int));
            assert(entries.take(i + 1).last() == entries[i as int]);
        }
        total = grow(grow(grow(total, pairs[i].0.len()), pairs[i].1.len()), 4);
        i += 1;
    }
    assert(entries.take(i as int) =~= entries);
    total
}

/// The fixed pieces of a response have the lengths that the capacity
/// estimate counts them with.
proof fn fixed_lengths()
    ensures
        text_bytes("HTTP/1.1 "@).len() == 9,
        text_bytes(" "@).len() == 1,
        text_bytes(" \r\n"@).len() == 3,
        text_bytes("\r\n"@).len() == 2,
        text_bytes("\r\n\r\n"@).len() == 4,
        text_bytes(": "@).len() == 2,
{
    reveal_strlit("HTTP/1.1 ");
    reveal_strlit(" ");
    reveal_strlit(" \r\n");
    reveal_strlit("\r\n");
    reveal_strlit("\r\n\r\n");
    reveal_strlit(": ");
    vstd::string::is_ascii_spec_bytes("HTTP/1.1 ");
    vstd::string::is_ascii_spec_bytes(" ");
    vstd::string::is_ascii_spec_bytes(" \r\n");
    vstd::string::is_ascii_spec_bytes("\r\n");
    vstd::string::is_ascii_spec_bytes("\r\n\r\n");
    vstd::string::is_ascii_spec_bytes(": ");
}

/// The header lines are as long as the capacity estimate counts them.
proof fn header_lines_len(entries: Seq<Entry>)
    ensures
        header_lines(entries).len() == lines_len(entries),
    decreases entries.len(),
{
    fixed_lengths();
    if entries.len() > 0 {
        header_lines_len(entries.drop_last());
    }
}

/// The capacity estimate is exact: it is the length of the response
/// without its body.
pub proof fn head_size_is_exact(status: u16, entries: Seq<Entry>)
    ensures
        head_len(status, entries) == head_size(
            match reason_phrase(status) {
                Some(reason) => Some(text_bytes(reason).len()),
                None => None,
            },
            entries,
        ),
{
    fixed_lengths();
    header_lines_len(entries);
}

/// The digits of a status code are decimal digits that spell the code.
pub proof fn digits_spell_the_status(status: u16)
    requires
        100 <= status <= 999,
    ensures
        digits(status).len() == 3,
        forall|i: int| 0 <= i < 3 ==> 48 <= #[trigger] digits(status)[i] <= 57,
        (digits(status)[0] - 48) * 100 + (digits(status)[1] - 48) * 10 + (digits(status)[2] - 48)
            == status,
{
}

/// A response with headers and without a body ends with a single blank
/// line: its last four bytes are two line ends, and the byte before them is
/// no line feed, where the value of the last header is a header value.
pub proof fn response_ends_with_one_blank_line(status: u16, entries: Seq<Entry>)
    requires
        entries.len() > 0,
        is_header_value(entries.last().1),
    ensures
        ({
            let out = response_bytes(status, entries, None);
            &&& out.len() >= 5
            &&& out.subrange(out.len() - 4, out.len() as int) == seq![13u8, 10u8, 13u8, 10u8]
            &&& out[out.len() - 5] != 10
        }),
{
    reveal_strlit("\r\n");
    reveal_strlit(": ");
    vstd::string::is_ascii_spec_bytes("\r\n");
    vstd::string::is_ascii_spec_bytes(": ");
    let out = response_bytes(status, entries, None);
    let value = entries.last().1;
    let before = status_line(status) + header_lines(entries.drop_last()) + entries.last().0
        + text_bytes(": "@);
    let end = seq![13u8, 10u8, 13u8, 10u8];
    assert(text_bytes("\r\n"@) =~= seq![13u8, 10u8]);
    assert(text_bytes(": "@) =~= seq![58u8, 32u8]);
    assert(out =~= before + value + end);
    assert(out.subrange(out.len() - 4, out.len() as int) =~= end);
    if value.len() > 0 {
        assert(out[out.len() - 5] == value.last());
        assert(is_value_byte(value[value.len() - 1]));
    } else {
        assert(out[out.len() - 5] == 32);
    }
}

/// Encodes a response into `buffer`, replacing what the buffer held: the
/// status line, one line for each header in the order in which the map hands
/// them out, the body if there is one, and the terminator. Room for the
/// response without its body is reserved before anything is written.
pub fn encode_response(
    buffer: &mut bytes::BytesMut,
    status: u16,
    headers: &http::HeaderMap<http::HeaderValue>,
    body: Option<String>,
)
    requires
        100 <= status <= 999,
    ensures
        buffer_bytes(*final(buffer)) == response_bytes(
            status,
            header_entries(*headers),
            opt_text(body),
        ),
{
    buffer_clear(buffer);
    let reason = canonical_reason(status);
    let pairs = header_map_pairs(headers);
    let ghost entries = header_entries(*headers);
    match head_capacity(reason, &pairs) {
        Some(n) => {
            if n <= isize::MAX as usize {
                buffer_reserve(buffer, n);
            }
        },
        None => {},
    }
    buffer_put_slice(buffer, "HTTP/1.1 ".as_bytes());
    buffer_put_slice(buffer, status_digits(status).as_slice());
    match reason {
        Some(reason) => {
            buffer_put_slice(buffer, " ".as_bytes());
            buffer_put_slice(buffer, reason.as_bytes());
            buffer_put_slice(buffer, " \r\n".as_bytes());
        },
        None => {
            buffer_put_slice(buffer, "\r\n".as_bytes());
        },
    }
    assert(buffer_bytes(*buffer) =~= status_line(status));
    let mut i: usize = 0;
    assert(entries.take(0) =~= Seq::<Entry>::empty());
    while i < pairs.len()
        invariant
            i <= pairs.len(),
            entries == pair_views(pairs@),
            buffer_bytes(*buffer) == status_line(status) + header_lines(entries.take(i as int)),
        decreases pairs.len() - i,
    {
        proof {
            assert(entries.take(i + 1).drop_last() =~= entries.take(i as int));
            assert(entries.take(i + 1).last() == entries[i as int]);
        }
        buffer_put_slice(buffer, pairs[i].0.as_slice());
        buffer_put_slice(buffer, ": ".as_bytes());
        buffer_put_slice(buffer, pairs[i].1.as_slice());
        buffer_put_slice(buffer, "\r\n".as_bytes());
        assert(buffer_bytes(*buffer) =~= status_line(status) + header_lines(entries.take(i + 1)));
        i += 1;
    }
    assert(entries.take(i as int) =~= entries);
    match &body {
        Some(text) => {
            buffer_put_slice(buffer, text.as_str().as_bytes());
        },
        None => {},
    }
    if pairs.len() == 0 {
        buffer_put_slice(buffer, "\r\n\r\n".as_bytes());
    } else {
        buffer_put_slice(buffer, "\r\n".as_bytes());
    }
    assert(buffer_bytes(*buffer) =~= response_bytes(status, entries, opt_text(body)));
}

} // verus!
