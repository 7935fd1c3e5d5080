//! Preview generation: a bounded byte prefix of the selected item is shown
//! verbatim when it looks like text, and as a fixed-width hex dump otherwise.

use vstd::prelude::*;

verus! {

/// Bytes that count towards the printable ratio: tab, LF, CR and visible
/// ASCII.
pub open spec fn printable_byte(b: u8) -> bool {
    b == 0x09 || b == 0x0a || b == 0x0d || (0x20 <= b && b <= 0x7e)
}

/// How many bytes of the buffer are printable.
pub open spec fn count_printable(s: Seq<u8>) -> int
    decreases s.len(),
{
    if s.len() == 0 {
        0int
    } else {
        count_printable(s.drop_last()) + if printable_byte(s.last()) {
            1int
        } else {
            0int
        }
    }
}

/// Whether any byte is NUL.
pub open spec fn has_nul(s: Seq<u8>) -> bool {
    exists|k: int| 0 <= k < s.len() && s[k] == 0
}

/// The text/binary classification: empty buffers are text; otherwise the
/// buffer must be NUL-free with a printable ratio strictly above 85 percent.
pub open spec fn is_text(s: Seq<u8>) -> bool {
    s.len() == 0 || (!has_nul(s) && 100 * count_printable(s) > 85 * s.len())
}

/// Classifies a byte buffer as probable text.
pub fn is_probably_text(bytes: &[u8]) -> (r: bool)
    ensures
        r == is_text(bytes@),
{
    let n = bytes.len();
    if n == 0 {
        return true;
    }
    let mut cnt: usize = 0;
    let mut i: usize = 0;
    while i < n
        invariant
            i <= n,
            n == bytes@.len(),
            cnt <= i,
            cnt == count_printable(bytes@.take(i as int)),
            forall|k: int| 0 <= k < i ==> bytes@[k] != 0,
        decreases n - i,
    {
        let b = bytes[i];
        if b == 0 {
            return false;
        }
        proof {
            assert(bytes@.take(i + 1) =~= bytes@.take(i as int).push(bytes@[i as int]));
            assert(bytes@.take(i + 1).drop_last() =~= bytes@.take(i as int));
        }
        if b == 0x09 || b == 0x0a || b == 0x0d || (0x20 <= b && b <= 0x7e) {
            cnt += 1;
        }
        i += 1;
    }
    proof {
        assert(bytes@.take(n as int) =~= bytes@);
        if has_nul(bytes@) {
            let k = choose|k: int| 0 <= k < bytes@.len() && bytes@[k] == 0;
            assert(bytes@[k] != 0);
        }
    }
    (cnt as u128) * 100 > (n as u128) * 85
}

/// One hex digit, lower case.
pub open spec fn hex_digit(n: int) -> u8 {
    if n < 10 {
        (0x30 + n) as u8
    } else {
        (0x61 + (n - 10)) as u8
    }
}

/// Two hex digits for one byte.
pub open spec fn hex_byte(b: u8) -> Seq<u8> {
    seq![hex_digit(b as int / 16), hex_digit(b as int % 16)]
}

/// Eight hex digits for an offset, low 32 bits.
pub open spec fn hex_offset(n: int) -> Seq<u8> {
    let m = n % 0x100000000;
    seq![
        hex_digit((m / 0x10000000) % 16),
        hex_digit((m / 0x1000000) % 16),
        hex_digit((m / 0x100000) % 16),
        hex_digit((m / 0x10000) % 16),
        hex_digit((m / 0x1000) % 16),
        hex_digit((m / 0x100) % 16),
        hex_digit((m / 0x10) % 16),
        hex_digit(m % 16),
    ]
}

/// The sixteen fixed-width byte cells of one dump line, from position `i` on:
/// two digits and a space per present byte, three spaces per absent one, and
/// an extra gap after the eighth cell.
pub open spec fn hex_cells(chunk: Seq<u8>, i: int) -> Seq<u8>
    decreases 16 - i,
{
    if i < 0 || i >= 16 {
        Seq::empty()
    } else {
        let cell = if i < chunk.len() {
            hex_byte(chunk[i]).push(0x20)
        } else {
            seq![0x20u8, 0x20u8, 0x20u8]
        };
        let gap: Seq<u8> = if i == 7 {
            seq![0x20u8]
        } else {
            Seq::empty()
        };
        cell + gap + hex_cells(chunk, i + 1)
    }
}

/// The ASCII column: printable bytes as they are, a dot for the rest.
pub open spec fn ascii_cells(chunk: Seq<u8>) -> Seq<u8> {
    chunk.map_values(
        |b: u8|
            if 0x20 <= b && b <= 0x7e {
                b
            } else {
                0x2eu8
            },
    )
}

/// One dump line: offset, colon, the byte cells, a gap, the ASCII column and
/// a newline.
pub open spec fn hex_line(offset: int, chunk: Seq<u8>) -> Seq<u8> {
    hex_offset(offset) + seq![0x3au8, 0x20u8] + hex_cells(chunk, 0) + seq![0x20u8] + ascii_cells(
        chunk,
    ) + seq![0x0au8]
}

/// The dump of a buffer, sixteen bytes per line, offsets starting at `off`.
pub open spec fn hexdump_lines(bytes: Seq<u8>, off: int) -> Seq<u8>
    decreases bytes.len(),
{
    if bytes.len() == 0 {
        Seq::empty()
    } else if bytes.len() <= 16 {
        hex_line(off, bytes)
    } else {
        hex_line(off, bytes.take(16)) + hexdump_lines(bytes.skip(16), off + 16)
    }
}

/// The dump of a whole buffer.
pub open spec fn hexdump_view(bytes: Seq<u8>) -> Seq<u8> {
    hexdump_lines(bytes, 0)
}

/// One hex digit as executable code.
fn hex_digit_of(n: u8) -> (r: u8)
    requires
        n < 16,
    ensures
        r == hex_digit(n as int),
{
    if n < 10 {
        0x30 + n
    } else {
        0x61 + (n - 10)
    }
}

/// Appends one dump line for a chunk of at most sixteen bytes.
fn push_hex_line(out: &mut Vec<u8>, offset: usize, chunk: &[u8])
    requires
        chunk@.len() <= 16,
    ensures
        final(out)@ == old(out)@ + hex_line(offset as int, chunk@),
{
    let ghost start = out@;
    let o: u64 = (offset as u64) % 0x100000000;
    out.push(hex_digit_of(((o / 0x10000000) % 16) as u8));
    out.push(hex_digit_of(((o / 0x1000000) % 16) as u8));
    out.push(hex_digit_of(((o / 0x100000) % 16) as u8));
    out.push(hex_digit_of(((o / 0x10000) % 16) as u8));
    out.push(hex_digit_of(((o / 0x1000) % 16) as u8));
    out.push(hex_digit_of(((o / 0x100) % 16) as u8));
    out.push(hex_digit_of(((o / 0x10) % 16) as u8));
    out.push(hex_digit_of((o % 16) as u8));
    out.push(0x3a);
    out.push(0x20);
    proof {
        assert(out@ =~= start + hex_offset(offset as int) + seq![0x3au8, 0x20u8]);
    }
    let ghost mid = out@;
    let mut i: usize = 0;
    while i < 16
        invariant
            i <= 16,
            chunk@.len() <= 16,
            out@ + hex_cells(chunk@, i as int) == mid + hex_cells(chunk@, 0),
        decreases 16 - i,
    {
        if i < chunk.len() {
            let b = chunk[i];
            out.push(hex_digit_of(b / 16));
            out.push(hex_digit_of(b % 16));
            out.push(0x20);
        } else {
            out.push(0x20);
            out.push(0x20);
            out.push(0x20);
        }
        if i == 7 {
            out.push(0x20);
        }
        proof {
            assert(out@ + hex_cells(chunk@, i + 1) =~= mid + hex_cells(chunk@, 0));
        }
        i += 1;
    }
    out.push(0x20);
    let ghost cells_done = out@;
    let m = chunk.len();
    let mut k: usize = 0;
    while k < m
        invariant
            k <= m,
            m == chunk@.len(),
            out@ == cells_done + ascii_cells(chunk@.take(k as int)),
        decreases m - k,
    {
        let b = chunk[k];
        if 0x20 <= b && b <= 0x7e {
            out.push(b);
        } else {
            out.push(0x2e);
        }
        proof {
            assert(ascii_cells(chunk@.take(k + 1)) =~= ascii_cells(chunk@.take(k as int)).push(
                if 0x20 <= chunk@[k as int] && chunk@[k as int] <= 0x7e {
                    chunk@[k as int]
                } else {
                    0x2eu8
                },
            ));
        }
        k += 1;
    }
    out.push(0x0a);
    proof {
        assert(chunk@.take(m as int) =~= chunk@);
        assert(out@ =~= old(out)@ + hex_line(offset as int, chunk@));
    }
}

/// Renders a byte buffer as a fixed sixteen-bytes-per-line hex dump with an
/// ASCII column.
pub fn hexdump(bytes: &[u8]) -> (r: Vec<u8>)
    ensures
        r@ == hexdump_view(bytes@),
{
    let mut out: Vec<u8> = Vec::new();
    let n = bytes.len();
    let mut pos: usize = 0;
    proof {
        assert(bytes@.skip(0) =~= bytes@);
        assert(out@ + hexdump_lines(bytes@, 0) =~= hexdump_lines(bytes@, 0));
    }
    while pos < n
        invariant
            pos <= n,
            n == bytes@.len(),
            out@ + hexdump_lines(bytes@.skip(pos as int), pos as int) == hexdump_lines(bytes@, 0),
        decreases n - pos,
    {
        let endc = if n - pos < 16 {
            n
        } else {
            pos + 16
        };
        let chunk = vstd::slice::slice_subrange(bytes, pos, endc);
        push_hex_line(&mut out, pos, chunk);
        proof {
            let rest = bytes@.skip(pos as int);
            if rest.len() <= 16 {
                assert(chunk@ =~= rest);
            } else {
                assert(chunk@ =~= rest.take(16));
                assert(rest.skip(16) =~= bytes@.skip(pos + 16));
            }
            assert(out@ + hexdump_lines(bytes@.skip(endc as int), endc as int) =~= hexdump_lines(
                bytes@,
                0,
            ));
        }
        pos = endc;
    }
    proof {
        assert(hexdump_lines(bytes@.skip(n as int), n as int) =~= Seq::<u8>::empty());
        assert(out@ =~= hexdump_lines(bytes@, 0));
    }
    out
}

/// What the preview shows for a byte prefix: the bytes themselves when they
/// classify as text, their hex dump otherwise.
pub open spec fn rendered_preview(bytes: Seq<u8>) -> Seq<u8> {
    if is_text(bytes) {
        bytes
    } else {
        hexdump_view(bytes)
    }
}

/// Renders the preview payload for a byte prefix.
pub fn preview_of_bytes(bytes: Vec<u8>) -> (r: Vec<u8>)
    ensures
        r@ == rendered_preview(bytes@),
{
    if is_probably_text(bytes.as_slice()) {
        bytes
    } else {
        hexdump(bytes.as_slice())
    }
}

} // verus!
