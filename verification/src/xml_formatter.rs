//! Error-position arithmetic for the XML formatting tools: a byte offset
//! into a document is reported to the user as a 1-indexed line and
//! column.

use vstd::prelude::*;

verus! {

use vstd::string::StringSliceAdditionalSpecFns;
use vstd::utf8::encode_utf8;

/// The number of newline bytes in a byte sequence.
pub open spec fn newline_count(s: Seq<u8>) -> int
    decreases s.len(),
{
    if s.len() == 0 {
        0
    } else {
        newline_count(s.drop_last()) + if s[s.len() - 1] == 10 {
            1int
        } else {
            0int
        }
    }
}

/// The index of the last newline byte of a byte sequence, or -1 when
/// there is none.
pub open spec fn last_newline(s: Seq<u8>) -> int
    decreases s.len(),
{
    if s.len() == 0 {
        -1
    } else if s[s.len() - 1] == 10 {
        s.len() - 1
    } else {
        last_newline(s.drop_last())
    }
}

/// Convert a byte offset into 1-indexed line and column. The offset is
/// clamped to the document's length; the line is one more than the count
/// of newlines before the offset, and the column counts from the byte
/// after the last of those newlines.
pub fn position_to_line_column(input: &str, byte_offset: usize) -> (r: (usize, usize))
    requires
        encode_utf8(input@).len() < usize::MAX,
    ensures
        ({
            let bytes = encode_utf8(input@);
            let clamped: int = if byte_offset <= bytes.len() {
                byte_offset as int
            } else {
                bytes.len() as int
            };
            let prefix = bytes.take(clamped);
            &&& r.0 == 1 + newline_count(prefix)
            &&& r.1 == if last_newline(prefix) >= 0 {
                clamped - last_newline(prefix)
            } else {
                clamped + 1
            }
        }),
{
    let bytes = input.as_bytes();
    let blen = bytes.len();
    let clamped = if byte_offset < blen {
        byte_offset
    } else {
        blen
    };
    let mut i: usize = 0;
    let mut newlines: usize = 0;
    let mut last: usize = 0;
    let mut found = false;
    while i < clamped
        invariant
            i <= clamped,
            clamped <= blen,
            blen == bytes@.len(),
            bytes@ == encode_utf8(input@),
            newlines <= i,
            newlines == newline_count(bytes@.take(i as int)),
            found == (last_newline(bytes@.take(i as int)) >= 0),
            found ==> last < i && last as int == last_newline(bytes@.take(i as int)),
        decreases clamped - i,
    {
        proof {
            assert(bytes@.take(i + 1).drop_last() =~= bytes@.take(i as int));
        }
        if bytes[i] == 10 {
            newlines = newlines + 1;
            last = i;
            found = true;
        }
        i = i + 1;
    }
    let line = 1 + newlines;
    let column = if found {
        clamped - last
    } else {
        clamped + 1
    };
    (line, column)
}

} // verus!
