use vstd::prelude::*;

verus! {

/// ASCII bytes the table is drawn with.
pub const PLUS: u8 = 0x2b;

pub const DASH: u8 = 0x2d;

pub const PIPE: u8 = 0x7c;

pub const SPACE: u8 = 0x20;

pub const NEWLINE: u8 = 0x0a;

pub const DOT: u8 = 0x2e;


/// Hex digit (lower case) for a value below 16.
pub open spec fn hex_digit(n: int) -> u8 {
    if n < 10 {
        (0x30 + n) as u8
    } else {
        (0x61 + (n - 10)) as u8
    }
}

/// Two hex digits of one byte.
pub open spec fn hex_byte(b: u8) -> Seq<u8> {
    seq![hex_digit(b as int / 16), hex_digit(b as int % 16)]
}

/// Four hex digits of a row offset.
pub open spec fn offset_field(off: int) -> Seq<u8> {
    seq![
        hex_digit((off / 0x1000) % 16),
        hex_digit((off / 0x100) % 16),
        hex_digit((off / 16) % 16),
        hex_digit(off % 16),
    ]
}

/// A byte rendered as itself in the ASCII column only when printable and
/// visible.
pub open spec fn is_graphic(b: u8) -> bool {
    0x21 <= b <= 0x7e
}

/// One three-column slot of the hex column: two digits and a space for a byte
/// of the data, blank past the end.
pub open spec fn hex_cell(data: Seq<u8>, idx: int) -> Seq<u8> {
    if idx < data.len() {
        hex_byte(data[idx]) + seq![SPACE]
    } else {
        seq![SPACE, SPACE, SPACE]
    }
}

/// One slot of the ASCII column: the byte itself when graphic, a dot for
/// other bytes of the data, blank past the end.
pub open spec fn ascii_cell(data: Seq<u8>, idx: int) -> Seq<u8> {
    if idx < data.len() {
        if is_graphic(data[idx]) {
            seq![data[idx]]
        } else {
            seq![DOT]
        }
    } else {
        seq![SPACE]
    }
}

/// The first `k` hex slots of the row starting at `off`.
pub open spec fn hex_cells(data: Seq<u8>, off: int, k: int) -> Seq<u8>
    decreases k,
{
    if k <= 0 {
        Seq::empty()
    } else {
        hex_cells(data, off, k - 1) + hex_cell(data, off + k - 1)
    }
}

/// The first `k` ASCII slots of the row starting at `off`.
pub open spec fn ascii_cells(data: Seq<u8>, off: int, k: int) -> Seq<u8>
    decreases k,
{
    if k <= 0 {
        Seq::empty()
    } else {
        ascii_cells(data, off, k - 1) + ascii_cell(data, off + k - 1)
    }
}

/// One row of the table: offset, sixteen hex slots, sixteen ASCII slots.
pub open spec fn dump_row(data: Seq<u8>, off: int) -> Seq<u8> {
    seq![PIPE, SPACE] + offset_field(off) + seq![SPACE, PIPE, SPACE] + hex_cells(data, off, 16)
        + seq![PIPE, SPACE] + ascii_cells(data, off, 16) + seq![SPACE, PIPE, NEWLINE]
}

/// The first `nrows` rows of the table, sixteen bytes apart.
pub open spec fn dump_rows(data: Seq<u8>, nrows: int) -> Seq<u8>
    decreases nrows,
{
    if nrows <= 0 {
        Seq::empty()
    } else {
        dump_rows(data, nrows - 1) + dump_row(data, (nrows - 1) * 16)
    }
}

/// `n` dashes.
pub open spec fn dashes(n: int) -> Seq<u8>
    decreases n,
{
    if n <= 0 {
        Seq::empty()
    } else {
        dashes(n - 1).push(DASH)
    }
}

/// The border above and below the table.
pub open spec fn table_border() -> Seq<u8> {
    seq![PLUS] + dashes(6) + seq![PLUS] + dashes(49) + seq![PLUS] + dashes(18) + seq![
        PLUS,
        NEWLINE,
    ]
}

/// Number of rows a dump of `len` bytes takes.
pub open spec fn num_rows(len: int) -> int {
    (len + 15) / 16
}

/// The whole rendered table.
pub open spec fn hexdump_view(data: Seq<u8>) -> Seq<u8> {
    table_border() + dump_rows(data, num_rows(data.len() as int)) + table_border()
}

/// Hex digit (lower case) of a value below 16.
fn hex_digit_of(n: u8) -> (c: u8)
    requires
        n < 16,
    ensures
        c == hex_digit(n as int),
{
    if n < 10 {
        0x30 + n
    } else {
        0x61 + (n - 10)
    }
}

/// Append the two hex digits of `b`.
fn push_hex_byte(out: &mut Vec<u8>, b: u8)
    ensures
        final(out)@ == old(out)@ + hex_byte(b),
{
    out.push(hex_digit_of(b / 16));
    out.push(hex_digit_of(b % 16));
    proof {
        assert(out@ =~= old(out)@ + hex_byte(b));
    }
}

/// Append `n` dashes.
#[verifier::loop_isolation(false)]
fn push_dashes(out: &mut Vec<u8>, n: usize)
    ensures
        final(out)@ == old(out)@ + dashes(n as int),
{
    let mut i: usize = 0;
    while i < n
        invariant
            i <= n,
            out@ == old(out)@ + dashes(i as int),
        decreases n - i,
    {
        out.push(DASH);
        i += 1;
        proof {
            assert(out@ =~= old(out)@ + dashes(i as int));
        }
    }
}

/// Append the border line.
fn push_border(out: &mut Vec<u8>)
    ensures
        final(out)@ == old(out)@ + table_border(),
{
    out.push(PLUS);
    push_dashes(out, 6);
    out.push(PLUS);
    push_dashes(out, 49);
    out.push(PLUS);
    push_dashes(out, 18);
    out.push(PLUS);
    out.push(NEWLINE);
    proof {
        assert(out@ =~= old(out)@ + table_border());
    }
}

/// Append the four-digit offset field.
fn push_offset(out: &mut Vec<u8>, off: usize)
    requires
        off < 0x10000,
    ensures
        final(out)@ == old(out)@ + offset_field(off as int),
{
    out.push(hex_digit_of(((off / 0x1000) % 16) as u8));
    out.push(hex_digit_of(((off / 0x100) % 16) as u8));
    out.push(hex_digit_of(((off / 16) % 16) as u8));
    out.push(hex_digit_of((off % 16) as u8));
    proof {
        assert(out@ =~= old(out)@ + offset_field(off as int));
    }
}

/// Render a byte sequence as the fixed-width offset/hex/ASCII table the
/// diagnostic stream shows: a border, one row for each sixteen bytes, and a
/// border. The caller writes the rendered bytes out.
#[verifier::loop_isolation(false)]
pub fn hexdump(data: &[u8]) -> (out: Vec<u8>)
    requires
        data@.len() <= 0x10000,
    ensures
        out@ == hexdump_view(data@),
{
    let mut out: Vec<u8> = Vec::new();
    push_border(&mut out);
    let len = data.len();
    let mut off: usize = 0;
    let mut rows: usize = 0;
    while off < len
        invariant
            off == 16 * rows,
            off < len + 16,
            out@ == table_border() + dump_rows(data@, rows as int),
        decreases len + 16 - off,
    {
        let ghost row_start = out@;
        out.push(PIPE);
        out.push(SPACE);
        push_offset(&mut out, off);
        out.push(SPACE);
        out.push(PIPE);
        out.push(SPACE);
        let mut i: usize = 0;
        while i < 16
            invariant
                i <= 16,
                off == 16 * rows,
                off < len,
                len == data@.len(),
                out@ == row_start + seq![PIPE, SPACE] + offset_field(off as int) + seq![
                    SPACE,
                    PIPE,
                    SPACE,
                ] + hex_cells(data@, off as int, i as int),
            decreases 16 - i,
        {
            if off + i < len {
                push_hex_byte(&mut out, data[off + i]);
                out.push(SPACE);
            } else {
                out.push(SPACE);
                out.push(SPACE);
                out.push(SPACE);
            }
            i += 1;
            proof {
                assert(out@ =~= row_start + seq![PIPE, SPACE] + offset_field(off as int) + seq![
                    SPACE,
                    PIPE,
                    SPACE,
                ] + hex_cells(data@, off as int, i as int));
            }
        }
        out.push(PIPE);
        out.push(SPACE);
        let ghost ascii_start = out@;
        let mut j: usize = 0;
        while j < 16
            invariant
                j <= 16,
                off == 16 * rows,
                off < len,
                len == data@.len(),
                out@ == ascii_start + ascii_cells(data@, off as int, j as int),
            decreases 16 - j,
        {
            if off + j < len {
                let b = data[off + j];
                if 0x21 <= b && b <= 0x7e {
                    out.push(b);
                } else {
                    out.push(DOT);
                }
            } else {
                out.push(SPACE);
            }
            j += 1;
            proof {
                assert(out@ =~= ascii_start + ascii_cells(data@, off as int, j as int));
            }
        }
        out.push(SPACE);
        out.push(PIPE);
        out.push(NEWLINE);
        proof {
            assert(out@ =~= table_border() + dump_rows(data@, rows as int) + dump_row(
                data@,
                off as int,
            ));
            assert(out@ =~= table_border() + dump_rows(data@, rows as int + 1));
        }
        off += 16;
        rows += 1;
    }
    proof {
        assert(rows as int == num_rows(len as int)) by (nonlinear_arith)
            requires
                16 * rows >= len,
                off == 16 * rows,
                off < len + 16,
                rows >= 0,
        ;
    }
    push_border(&mut out);
    proof {
        assert(out@ =~= hexdump_view(data@));
    }
    out
}

} // verus!
