//! The escape sequence that carries a window size from a guest, through the relay, to the host.
//!
//! Its bytes are `ESC ] romoto;resize;`, the columns, `;`, the rows and `BEL`.

use crate::decimal::{decimal, law_decimal_denotes, number_u16, parse_u16, push_decimal};
use vstd::prelude::*;
use vstd::string::*;
use vstd::utf8::*;

verus! {

/// `ESC ] romoto;resize;`
pub open spec fn resize_prefix() -> Seq<u8> {
    seq![
        0x1bu8,
        93,
        114,
        111,
        109,
        111,
        116,
        111,
        59,
        114,
        101,
        115,
        105,
        122,
        101,
        59,
    ]
}

/// The position of the first `b` in `s` at or after `from`, or the length of `s`.
pub open spec fn first_from(s: Seq<u8>, b: u8, from: int) -> int
    decreases s.len() - from,
{
    if from >= s.len() || s[from] == b {
        from
    } else {
        first_from(s, b, from + 1)
    }
}

/// The size in the text between the prefix and the final `BEL`: columns and rows are the first two
/// fields between semicolons. What follows a second semicolon is ignored.
pub open spec fn size_fields(body: Seq<u8>) -> Option<(u16, u16)> {
    let first = first_from(body, 59, 0);
    if first >= body.len() {
        None
    } else {
        let second = first_from(body, 59, first + 1);
        match (
            number_u16(body.subrange(0, first)),
            number_u16(body.subrange(first + 1, second)),
        ) {
            (Some(cols), Some(rows)) => Some((cols, rows)),
            _ => None,
        }
    }
}

/// The size, as columns and rows, that the bytes `data` announce, if they are one resize sequence.
/// A sequence is UTF-8 text, begins with the prefix and ends with `BEL`.
pub open spec fn announced_size(data: Seq<u8>) -> Option<(u16, u16)> {
    let n = resize_prefix().len() as int;
    if valid_utf8(data) && resize_prefix().is_prefix_of(data) && data.len() > n && data.last() == 7
    {
        size_fields(data.subrange(n, data.len() - 1))
    } else {
        None
    }
}

/// The sequence that announces `cols` columns and `rows` rows.
pub open spec fn resize_sequence(cols: nat, rows: nat) -> Seq<u8> {
    resize_prefix() + decimal(cols) + seq![59u8] + decimal(rows) + seq![7u8]
}

/// Checked conversion of bytes to text by `std::str::from_utf8`: it succeeds exactly on valid UTF-8,
/// and the text has the bytes that were given.
#[verifier::external_body]
fn as_text(data: &[u8]) -> (r: Option<&str>)
    ensures
        match r {
            Some(s) => valid_utf8(data@) && s.spec_bytes() == data@,
            None => !valid_utf8(data@),
        },
{
    std::str::from_utf8(data).ok()
}

/// The position of the first `b` in `s` at or after `from`, or the length of `s`.
fn find_byte(s: &[u8], b: u8, from: usize) -> (r: usize)
    requires
        from <= s.len(),
    ensures
        r == first_from(s@, b, from as int),
        from <= r <= s.len(),
        r < s.len() ==> s[r as int] == b,
{
    let mut i: usize = from;
    while i < s.len() && s[i] != b
        invariant
            from <= i <= s.len(),
            first_from(s@, b, from as int) == first_from(s@, b, i as int),
        decreases s.len() - i,
    {
        i += 1;
    }
    i
}

/// Whether `data` begins with the prefix of a resize sequence.
fn has_resize_prefix(data: &[u8]) -> (r: bool)
    ensures
        r == resize_prefix().is_prefix_of(data@),
{
    let prefix: [u8; 16] = [
        0x1b, 93, 114, 111, 109, 111, 116, 111, 59, 114, 101, 115, 105, 122, 101, 59,
    ];
    if data.len() < 16 {
        return false;
    }
    assert(prefix@ =~= resize_prefix());
    let mut i: usize = 0;
    while i < 16
        invariant
            i <= 16 <= data.len(),
            prefix@ == resize_prefix(),
            forall|j: int| 0 <= j < i ==> data[j] == resize_prefix()[j],
        decreases 16 - i,
    {
        if data[i] != prefix[i] {
            return false;
        }
        i += 1;
    }
    assert(data@.subrange(0, 16) =~= resize_prefix());
    true
}

/// The columns and rows that `data` announces, if it is one resize sequence and both are 16-bit
/// numbers.
pub fn parse_resize_escape(data: &[u8]) -> (r: Option<(u16, u16)>)
    ensures
        r == announced_size(data@),
{
    let text = match as_text(data) {
        Some(text) => text,
        None => return None,
    };
    let bytes = text.as_bytes();
    if !has_resize_prefix(bytes) {
        return None;
    }
    let n: usize = bytes.len();
    if n <= 16 || bytes[n - 1] != 7 {
        return None;
    }
    let body = vstd::slice::slice_subrange(bytes, 16, n - 1);
    let first = find_byte(body, 59, 0);
    if first >= body.len() {
        return None;
    }
    let second = find_byte(body, 59, first + 1);
    let cols = parse_u16(vstd::slice::slice_subrange(body, 0, first));
    let rows = parse_u16(vstd::slice::slice_subrange(body, first + 1, second));
    match (cols, rows) {
        (Some(cols), Some(rows)) => Some((cols, rows)),
        _ => None,
    }
}

/// The resize sequence for a window of `cols` columns and `rows` rows.
pub fn resize_escape(cols: u32, rows: u32) -> (r: Vec<u8>)
    ensures
        r@ == resize_sequence(cols as nat, rows as nat),
{
    let mut out: Vec<u8> = vec![
        0x1b, 93, 114, 111, 109, 111, 116, 111, 59, 114, 101, 115, 105, 122, 101, 59,
    ];
    assert(out@ =~= resize_prefix());
    push_decimal(&mut out, cols);
    out.push(59);
    push_decimal(&mut out, rows);
    out.push(7);
    assert(out@ =~= resize_sequence(cols as nat, rows as nat));
    out
}

/// No separator stands in a field of digits.
proof fn lemma_field_end(s: Seq<u8>, from: int, end: int)
    requires
        0 <= from <= end <= s.len(),
        forall|i: int| from <= i < end ==> #[trigger] s[i] != 59,
        end < s.len() ==> s[end] == 59,
    ensures
        first_from(s, 59, from) == end,
    decreases end - from,
{
    if from < end {
        lemma_field_end(s, from + 1, end);
    }
}

/// Bytes below 128 are UTF-8 text.
proof fn lemma_ascii_is_utf8(s: Seq<u8>)
    requires
        forall|i: int| 0 <= i < s.len() ==> #[trigger] s[i] < 128,
    ensures
        valid_utf8(s),
{
    assert forall|i: int| 0 <= i < s.len() implies #[trigger] is_leading_byte_width_1(s[i]) by {
        assert(s[i] < 128);
    }
    assert(s.subrange(0, 0) =~= Seq::<u8>::empty());
    partial_valid_utf8_extend_ascii_block(s, 0, s.len() as int);
    assert(s.subrange(0, s.len() as int) =~= s);
}

/// What one end announces is what the other reads: the sequence for a size is read back as that
/// size when both numbers fit in 16 bits, and is no resize sequence to the reader otherwise.
pub proof fn law_resize_round_trip(cols: nat, rows: nat)
    ensures
        announced_size(resize_sequence(cols, rows)) == (if cols <= u16::MAX && rows <= u16::MAX {
            Some((cols as u16, rows as u16))
        } else {
            None
        }),
{
    let data = resize_sequence(cols, rows);
    let c = decimal(cols);
    let r = decimal(rows);
    law_decimal_denotes(cols);
    law_decimal_denotes(rows);
    let body = c + seq![59u8] + r;
    let first = c.len() as int;
    assert(data =~= resize_prefix() + body + seq![7u8]);
    assert(data.subrange(0, 16) =~= resize_prefix());
    assert(data.subrange(16, data.len() - 1) =~= body);
    assert forall|i: int| 0 <= i < body.len() implies #[trigger] body[i] < 128 by {
        if i < first {
            assert(body[i] == c[i]);
        } else if i > first {
            assert(body[i] == r[i - first - 1]);
        }
    }
    assert forall|i: int| 0 <= i < data.len() implies #[trigger] data[i] < 128 by {
        if 16 <= i < data.len() - 1 {
            assert(data[i] == body[i - 16]);
        }
    }
    lemma_ascii_is_utf8(data);
    assert forall|i: int| 0 <= i < first implies #[trigger] body[i] != 59 by {
        assert(body[i] == c[i]);
    }
    lemma_field_end(body, 0, first);
    assert forall|i: int| first + 1 <= i < body.len() implies #[trigger] body[i] != 59 by {
        assert(body[i] == r[i - first - 1]);
    }
    lemma_field_end(body, first + 1, body.len() as int);
    assert(body.subrange(0, first) =~= c);
    assert(body.subrange(first + 1, body.len() as int) =~= r);
}

/// Bytes that do not begin with `ESC ] romoto;resize;`, that do not end with `BEL` after it, or that
/// are no UTF-8 text announce no size.
pub proof fn law_only_sequences_announce_sizes(data: &[u8], r: Option<(u16, u16)>)
    requires
        call_ensures(parse_resize_escape, (data,), r),
        ({
            ||| data@.len() < 17
            ||| data@.take(16) != seq![
                0x1bu8, 93, 114, 111, 109, 111, 116, 111, 59, 114, 101, 115, 105, 122, 101, 59,
            ]
            ||| data@[data@.len() - 1] != 7
            ||| !valid_utf8(data@)
        }),
    ensures
        r is None,
{
    if announced_size(data@) is Some {
        assert(data@.take(16) =~= resize_prefix());
        assert(data@.last() == 7);
    }
}

/// A byte that differs from the prefix is enough: the data announces no size.
pub proof fn law_prefix_is_needed_bytewise(data: &[u8], i: int, r: Option<(u16, u16)>)
    requires
        call_ensures(parse_resize_escape, (data,), r),
        0 <= i < 16,
        i < data@.len() ==> data@[i] != seq![
            0x1bu8, 93, 114, 111, 109, 111, 116, 111, 59, 114, 101, 115, 105, 122, 101, 59,
        ][i],
    ensures
        r is None,
{
    if data@.len() >= 17 {
        assert(data@.take(16)[i] == data@[i]);
    }
    law_only_sequences_announce_sizes(data, r);
}

/// In a sequence, columns and rows are the numbers in the first two fields between semicolons, each
/// read by itself, and a field that is no number leaves no size. `first` and `second` are where the
/// two fields end.
pub proof fn law_sizes_are_first_two_fields(
    data: &[u8],
    first: int,
    second: int,
    left: &[u8],
    right: &[u8],
    cols: Option<u16>,
    rows: Option<u16>,
    r: Option<(u16, u16)>,
)
    requires
        call_ensures(parse_resize_escape, (data,), r),
        call_ensures(parse_u16, (left,), cols),
        call_ensures(parse_u16, (right,), rows),
        valid_utf8(data@),
        16 <= first < second < data@.len(),
        data@.take(16) == seq![
            0x1bu8, 93, 114, 111, 109, 111, 116, 111, 59, 114, 101, 115, 105, 122, 101, 59,
        ],
        data@[data@.len() - 1] == 7,
        data@[first] == 59,
        second == data@.len() - 1 || data@[second] == 59,
        forall|i: int| 16 <= i < first ==> #[trigger] data@[i] != 59,
        forall|i: int| first < i < second ==> #[trigger] data@[i] != 59,
        left@ == data@.subrange(16, first),
        right@ == data@.subrange(first + 1, second),
    ensures
        match (cols, rows) {
            (Some(c), Some(w)) => r == Some((c, w)),
            _ => r is None,
        },
{
    let d = data@;
    let body = d.subrange(16, d.len() - 1);
    assert(d.subrange(0, 16) =~= d.take(16));
    assert(d.take(16) =~= resize_prefix());
    lemma_field_end(body, 0, first - 16);
    lemma_field_end(body, first - 15, second - 16);
    assert(body.subrange(0, first - 16) =~= left@);
    assert(body.subrange(first - 15, second - 16) =~= right@);
}

/// A sequence with only one field announces no size.
pub proof fn law_one_field_is_no_size(data: &[u8], r: Option<(u16, u16)>)
    requires
        call_ensures(parse_resize_escape, (data,), r),
        forall|i: int| 16 <= i < data@.len() - 1 ==> #[trigger] data@[i] != 59,
    ensures
        r is None,
{
    if data@.len() > 16 {
        let body = data@.subrange(16, data@.len() - 1);
        lemma_field_end(body, 0, body.len() as int);
    }
}

/// The sequence for a size is `ESC ] romoto;resize;`, the columns in decimal notation, `;`, the rows
/// in decimal notation, and `BEL`.
pub proof fn law_resize_escape_layout(
    cols: u32,
    rows: u32,
    cols_text: &mut Vec<u8>,
    rows_text: &mut Vec<u8>,
    r: Vec<u8>,
)
    requires
        call_ensures(resize_escape, (cols, rows), r),
        call_ensures(push_decimal, (cols_text, cols), ()),
        call_ensures(push_decimal, (rows_text, rows), ()),
        old(cols_text)@.len() == 0,
        old(rows_text)@.len() == 0,
    ensures
        r@ == seq![
            0x1bu8, 93, 114, 111, 109, 111, 116, 111, 59, 114, 101, 115, 105, 122, 101, 59,
        ] + final(cols_text)@ + seq![59u8] + final(rows_text)@ + seq![7u8],
{
    assert(final(cols_text)@ =~= decimal(cols as nat));
    assert(final(rows_text)@ =~= decimal(rows as nat));
    assert(resize_prefix() =~= seq![
        0x1bu8, 93, 114, 111, 109, 111, 116, 111, 59, 114, 101, 115, 105, 122, 101, 59,
    ]);
}

/// What the relay writes for a size that fits a terminal, the host reads as that size.
pub proof fn law_escape_is_read_back(
    cols: u32,
    rows: u32,
    written: Vec<u8>,
    data: &[u8],
    r: Option<(u16, u16)>,
)
    requires
        call_ensures(resize_escape, (cols, rows), written),
        call_ensures(parse_resize_escape, (data,), r),
        data@ == written@,
    ensures
        cols <= 65535 && rows <= 65535 ==> r == Some((cols as u16, rows as u16)),
        cols > 65535 || rows > 65535 ==> r is None,
{
    law_resize_round_trip(cols as nat, rows as nat);
}

/// A byte that differs from the prefix means that no size is announced, whatever the other bytes.
pub proof fn law_no_prefix_no_size(data: Seq<u8>, i: int)
    requires
        0 <= i < 16,
        i < data.len() ==> data[i] != seq![
            0x1bu8, 93, 114, 111, 109, 111, 116, 111, 59, 114, 101, 115, 105, 122, 101, 59,
        ][i],
    ensures
        announced_size(data) is None,
{
    if resize_prefix().is_prefix_of(data) {
        assert(data.subrange(0, 16)[i] == data[i]);
    }
}

} // verus!
