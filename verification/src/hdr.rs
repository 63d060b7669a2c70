//! Radiance HDR (`.hdr`, RGBE) encoding of the environment map: the text
//! header, new-style scanlines with every channel written as uncompressed
//! literal runs, and the exponent split (`frexp`) of an `f32` bit pattern.

use vstd::prelude::*;
use vstd::string::*;

verus! {

/// Decimal digits of `n` in ASCII, most significant first, no sign or padding.
pub open spec fn decimal(n: nat) -> Seq<u8>
    decreases n,
{
    if n < 10 {
        seq![(48 + n) as u8]
    } else {
        decimal(n / 10).push((48 + n % 10) as u8)
    }
}

/// The number that a string of ASCII decimal digits spells, most significant
/// digit first.
pub open spec fn digits_value(s: Seq<u8>) -> int
    decreases s.len(),
{
    if s.len() == 0 {
        0
    } else {
        10 * digits_value(s.drop_last()) + (s.last() - 48)
    }
}

/// `decimal(n)` is the base-10 numeral of `n`: nonempty, only the bytes
/// `'0'..='9'`, no leading zero except for `n == 0` itself, and read back as
/// a number it is `n`.
pub proof fn lemma_decimal_is_numeral(n: nat)
    ensures
        decimal(n).len() >= 1,
        forall|i: int| 0 <= i < decimal(n).len() ==> 48 <= #[trigger] decimal(n)[i] <= 57,
        digits_value(decimal(n)) == n,
        n > 0 ==> decimal(n)[0] != 48,
        n < 10 <==> decimal(n).len() == 1,
    decreases n,
{
    if n >= 10 {
        lemma_decimal_is_numeral(n / 10);
        let d = decimal(n);
        let p = decimal(n / 10);
        assert(d.drop_last() =~= p);
        assert forall|i: int| 0 <= i < d.len() implies 48 <= #[trigger] d[i] <= 57 by {
            if i < p.len() {
                assert(d[i] == p[i]);
            }
        }
        assert(d[0] == p[0]);
        assert(d.last() == (48 + n % 10) as u8);
        assert(digits_value(d) == 10 * digits_value(p) + (d.last() - 48));
        assert(n == 10 * (n / 10) + n % 10);
    } else {
        let d = decimal(n);
        assert(d.drop_last() =~= Seq::<u8>::empty());
        assert(digits_value(d) == 10 * digits_value(d.drop_last()) + (d.last() - 48));
    }
}

/// `bytes` as literal runs: a count byte (1..=128) followed by that many
/// bytes, until all bytes are written.
pub open spec fn literal_runs(bytes: Seq<u8>) -> Seq<u8>
    decreases bytes.len(),
{
    if bytes.len() == 0 {
        Seq::empty()
    } else {
        let k: int = if bytes.len() < 128 { bytes.len() as int } else { 128 };
        seq![k as u8] + bytes.take(k) + literal_runs(bytes.skip(k))
    }
}

/// Channel `c` (0 = R, 1 = G, 2 = B, 3 = exponent) of a row of RGBE pixels.
pub open spec fn channel(row: Seq<[u8; 4]>, c: int) -> Seq<u8> {
    Seq::new(row.len(), |i: int| row[i]@[c])
}

/// One new-style RLE scanline: `2 2 hi lo` with the width split into bytes,
/// then the four channels, each as literal runs.
pub open spec fn scanline(width: u32, row: Seq<[u8; 4]>) -> Seq<u8> {
    seq![2u8, 2u8, ((width / 256) % 256) as u8, (width % 256) as u8]
        + literal_runs(channel(row, 0)) + literal_runs(channel(row, 1))
        + literal_runs(channel(row, 2)) + literal_runs(channel(row, 3))
}

/// The text header: format line, blank line, and the resolution line
/// `-Y <height> +X <width>`.
pub open spec fn hdr_header(width: u32, height: u32) -> Seq<u8> {
    vstd::utf8::encode_utf8("#?RADIANCE\nFORMAT=32-bit_rle_rgbe\n\n-Y "@) + decimal(height as nat)
        + vstd::utf8::encode_utf8(" +X "@) + decimal(width as nat) + vstd::utf8::encode_utf8("\n"@)
}

/// Scanlines for the first `rows` rows of `pixels`, `width` pixels each.
pub open spec fn hdr_body(width: u32, pixels: Seq<[u8; 4]>, rows: nat) -> Seq<u8>
    decreases rows,
{
    if rows == 0 {
        Seq::empty()
    } else {
        let r = (rows - 1) as nat;
        hdr_body(width, pixels, r) + scanline(width, pixels.subrange(r * width, (r + 1) * width))
    }
}

/// A whole `.hdr` file for `height` rows of `width` RGBE pixels (row-major).
pub open spec fn hdr_file(width: u32, height: u32, pixels: Seq<[u8; 4]>) -> Seq<u8> {
    hdr_header(width, height) + hdr_body(width, pixels, height as nat)
}

/// Reads `n` bytes stored as literal runs from the front of `data`; returns
/// them and the rest of `data`, or `None` when the runs are malformed (a count
/// of 0, above 128, beyond `n`, or past the end).
pub open spec fn take_literal_runs(data: Seq<u8>, n: nat) -> Option<(Seq<u8>, Seq<u8>)>
    decreases n,
{
    if n == 0 {
        Some((Seq::empty(), data))
    } else if data.len() == 0 {
        None
    } else {
        let c = data[0] as nat;
        if c == 0 || c > 128 || c > n || 1 + c > data.len() {
            None
        } else {
            match take_literal_runs(data.skip(1 + c as int), (n - c) as nat) {
                Some((b, rest)) => Some((data.subrange(1, 1 + c as int) + b, rest)),
                None => None,
            }
        }
    }
}

/// Runs hold 128 bytes each except the last: a string of `len` bytes takes
/// `ceil(len / 128)` count bytes, and the first count is `min(len, 128)`.
pub proof fn lemma_literal_runs_size(bytes: Seq<u8>)
    ensures
        literal_runs(bytes).len() == bytes.len() + (bytes.len() + 127) / 128,
        bytes.len() > 0 ==> literal_runs(bytes)[0] as int == if bytes.len() < 128 {
            bytes.len() as int
        } else {
            128
        },
    decreases bytes.len(),
{
    if bytes.len() > 0 {
        let k: int = if bytes.len() < 128 { bytes.len() as int } else { 128 };
        lemma_literal_runs_size(bytes.skip(k));
        assert(literal_runs(bytes) == seq![k as u8] + bytes.take(k) + literal_runs(bytes.skip(k)));
        assert(bytes.skip(k).len() == bytes.len() - k);
        assert((bytes.len() - k + 127) / 128 + 1 == (bytes.len() + 127) / 128);
    }
}

/// A scanline starts with `2 2` and then the width, high byte first, modulo
/// 65536; after the marker come the red values of the row, in order.
pub proof fn lemma_scanline_marker(width: u32, row: Seq<[u8; 4]>)
    requires
        row.len() == width,
    ensures
        scanline(width, row)[0] == 2,
        scanline(width, row)[1] == 2,
        scanline(width, row)[2] as int * 256 + scanline(width, row)[3] as int == width as int % 65536,
        ({
            let r = take_literal_runs(scanline(width, row).skip(4), width as nat);
            &&& r matches Some((red, _)) && red.len() == width && forall|i: int|
                0 <= i < width ==> red[i] == row[i]@[0]
        }),
{
    let c0 = literal_runs(channel(row, 0));
    let others = literal_runs(channel(row, 1)) + literal_runs(channel(row, 2)) + literal_runs(channel(row, 3));
    assert(scanline(width, row).skip(4) =~= c0 + others);
    lemma_take_literal_runs(channel(row, 0), others);
}

/// Literal runs of `bytes`, followed by anything, read back as `bytes`.
pub proof fn lemma_take_literal_runs(bytes: Seq<u8>, rest: Seq<u8>)
    ensures
        take_literal_runs(literal_runs(bytes) + rest, bytes.len()) == Some((bytes, rest)),
    decreases bytes.len(),
{
    if bytes.len() > 0 {
        let k: int = if bytes.len() < 128 { bytes.len() as int } else { 128 };
        let tail = literal_runs(bytes.skip(k));
        let data = literal_runs(bytes) + rest;
        assert(literal_runs(bytes) == seq![k as u8] + bytes.take(k) + tail);
        assert(data[0] as int == k);
        assert(data.subrange(1, 1 + k) =~= bytes.take(k));
        assert(data.skip(1 + k) =~= tail + rest);
        lemma_take_literal_runs(bytes.skip(k), rest);
        assert(bytes.take(k) + bytes.skip(k) =~= bytes);
    } else {
        assert(literal_runs(bytes) + rest =~= rest);
    }
}

/// Reads one scanline of `width` pixels from the front of `data`: the
/// `2 2 hi lo` marker must carry the width, then four channels of literal
/// runs follow. Returns the pixels and the rest of `data`.
pub open spec fn read_scanline(data: Seq<u8>, width: nat) -> Option<(Seq<[u8; 4]>, Seq<u8>)> {
    if data.len() < 4 || data[0] != 2 || data[1] != 2 || data[2] as nat * 256 + data[3] as nat != width {
        None
    } else {
        match take_literal_runs(data.skip(4), width) {
            None => None,
            Some((r, d1)) => match take_literal_runs(d1, width) {
                None => None,
                Some((g, d2)) => match take_literal_runs(d2, width) {
                    None => None,
                    Some((b, d3)) => match take_literal_runs(d3, width) {
                        None => None,
                        Some((e, d4)) => Some(
                            (Seq::new(width, |i: int| [r[i], g[i], b[i], e[i]]), d4),
                        ),
                    },
                },
            },
        }
    }
}

/// A scanline written by `push_scanline` reads back as the same pixels, for
/// every width that fits the two marker bytes (below 65536).
pub proof fn lemma_scanline_round_trip(width: u32, row: Seq<[u8; 4]>, rest: Seq<u8>)
    requires
        width < 65536,
        row.len() == width,
    ensures
        read_scanline(scanline(width, row) + rest, width as nat) == Some((row, rest)),
{
    let c0 = literal_runs(channel(row, 0));
    let c1 = literal_runs(channel(row, 1));
    let c2 = literal_runs(channel(row, 2));
    let c3 = literal_runs(channel(row, 3));
    let marker = seq![2u8, 2u8, ((width / 256) % 256) as u8, (width % 256) as u8];
    let data = scanline(width, row) + rest;
    assert(data =~= marker + (c0 + (c1 + (c2 + (c3 + rest)))));
    assert(data.skip(4) =~= c0 + (c1 + (c2 + (c3 + rest))));
    lemma_take_literal_runs(channel(row, 0), c1 + (c2 + (c3 + rest)));
    lemma_take_literal_runs(channel(row, 1), c2 + (c3 + rest));
    lemma_take_literal_runs(channel(row, 2), c3 + rest);
    lemma_take_literal_runs(channel(row, 3), rest);
    let px = Seq::new(
        width as nat,
        |i: int|
            [channel(row, 0)[i], channel(row, 1)[i], channel(row, 2)[i], channel(row, 3)[i]],
    );
    assert forall|i: int| 0 <= i < width implies px[i] == row[i] by {
        assert(px[i] =~= row[i]);
    }
    assert(px =~= row);
}

/// Reads `n` scanlines of `width` pixels from the front of `data`.
pub open spec fn read_rows(data: Seq<u8>, width: nat, n: nat) -> Option<(Seq<[u8; 4]>, Seq<u8>)>
    decreases n,
{
    if n == 0 {
        Some((Seq::empty(), data))
    } else {
        match read_scanline(data, width) {
            None => None,
            Some((row, rest)) => match read_rows(rest, width, (n - 1) as nat) {
                None => None,
                Some((px, tail)) => Some((row + px, tail)),
            },
        }
    }
}

/// Scanlines for rows `k..h` of `pixels`, front to back.
pub open spec fn rows_from(width: u32, pixels: Seq<[u8; 4]>, k: nat, h: nat) -> Seq<u8>
    decreases h - k,
{
    if k >= h {
        Seq::empty()
    } else {
        scanline(width, pixels.subrange(k * width, (k + 1) * width)) + rows_from(width, pixels, k + 1, h)
    }
}

proof fn lemma_rows_from_snoc(width: u32, pixels: Seq<[u8; 4]>, k: nat, h: nat)
    requires
        k <= h,
    ensures
        rows_from(width, pixels, k, h + 1) == rows_from(width, pixels, k, h) + scanline(
            width,
            pixels.subrange(h * width, (h + 1) * width),
        ),
    decreases h - k,
{
    if k < h {
        lemma_rows_from_snoc(width, pixels, k + 1, h);
        assert(rows_from(width, pixels, k, h + 1) =~= rows_from(width, pixels, k, h) + scanline(
            width,
            pixels.subrange(h * width, (h + 1) * width),
        ));
    } else {
        assert(rows_from(width, pixels, h + 1, h + 1) =~= Seq::<u8>::empty());
        assert(rows_from(width, pixels, k, h + 1) =~= rows_from(width, pixels, k, h) + scanline(
            width,
            pixels.subrange(h * width, (h + 1) * width),
        ));
    }
}

proof fn lemma_body_is_rows_from(width: u32, pixels: Seq<[u8; 4]>, h: nat)
    ensures
        hdr_body(width, pixels, h) == rows_from(width, pixels, 0, h),
    decreases h,
{
    if h > 0 {
        lemma_body_is_rows_from(width, pixels, (h - 1) as nat);
        lemma_rows_from_snoc(width, pixels, 0, (h - 1) as nat);
    }
}

proof fn lemma_read_rows_from(width: u32, pixels: Seq<[u8; 4]>, k: nat, h: nat, rest: Seq<u8>)
    requires
        width < 65536,
        k <= h,
        pixels.len() == h * width,
    ensures
        read_rows(rows_from(width, pixels, k, h) + rest, width as nat, (h - k) as nat) == Some(
            (pixels.subrange(k * width, h * width), rest),
        ),
    decreases h - k,
{
    if k < h {
        assert((k + 1) * width <= h * width) by (nonlinear_arith)
            requires k + 1 <= h;
        assert((k + 1) * width == k * width + width) by (nonlinear_arith);
        assert(0 <= k * width) by (nonlinear_arith);
        let row = pixels.subrange(k * width, (k + 1) * width);
        let later = rows_from(width, pixels, k + 1, h);
        lemma_read_rows_from(width, pixels, k + 1, h, rest);
        lemma_scanline_round_trip(width, row, later + rest);
        assert(rows_from(width, pixels, k, h) + rest =~= scanline(width, row) + (later + rest));
        assert(row + pixels.subrange((k + 1) * width, h * width) =~= pixels.subrange(k * width, h * width));
    } else {
        assert(rows_from(width, pixels, k, h) + rest =~= rest);
        assert(pixels.subrange(k * width, h * width) =~= Seq::<[u8; 4]>::empty());
    }
}

/// The scanlines of a file written by `encode_hdr` read back as the pixels
/// it was given, row by row, for every width below 65536.
pub proof fn lemma_hdr_body_round_trip(width: u32, height: u32, pixels: Seq<[u8; 4]>)
    requires
        width < 65536,
        pixels.len() == width * height,
    ensures
        read_rows(hdr_body(width, pixels, height as nat), width as nat, height as nat) == Some(
            (pixels, Seq::<u8>::empty()),
        ),
{
    assert(pixels.len() == height * width) by (nonlinear_arith)
        requires pixels.len() == width * height;
    lemma_body_is_rows_from(width, pixels, height as nat);
    lemma_read_rows_from(width, pixels, 0, height as nat, Seq::empty());
    assert(rows_from(width, pixels, 0, height as nat) + Seq::<u8>::empty() =~= rows_from(width, pixels, 0, height as nat));
    assert(pixels.subrange(0, height * width) =~= pixels);
}

fn push_all(out: &mut Vec<u8>, bytes: &[u8])
    ensures
        final(out)@ == old(out)@ + bytes@,
{
    let mut i: usize = 0;
    while i < bytes.len()
        invariant
            0 <= i <= bytes@.len(),
            out@ == old(out)@ + bytes@.take(i as int),
        decreases bytes@.len() - i,
    {
        out.push(bytes[i]);
        assert(bytes@.take(i + 1) =~= bytes@.take(i as int).push(bytes@[i as int]));
        i = i + 1;
    }
    assert(bytes@.take(bytes@.len() as int) =~= bytes@);
}

/// Appends the decimal digits of `n`.
pub fn push_decimal(out: &mut Vec<u8>, n: u32)
    ensures
        final(out)@ == old(out)@ + decimal(n as nat),
    decreases n,
{
    if n >= 10 {
        push_decimal(out, n / 10);
    }
    out.push(48 + (n % 10) as u8);
    assert(final(out)@ =~= old(out)@ + decimal(n as nat));
}

/// Appends `bytes` as literal runs of at most 128 bytes.
pub fn push_literal_runs(out: &mut Vec<u8>, bytes: &[u8])
    ensures
        final(out)@ == old(out)@ + literal_runs(bytes@),
{
    let mut i: usize = 0;
    assert(bytes@.skip(0) =~= bytes@);
    while i < bytes.len()
        invariant
            0 <= i <= bytes@.len(),
            old(out)@ + literal_runs(bytes@) == out@ + literal_runs(bytes@.skip(i as int)),
        decreases bytes@.len() - i,
    {
        let left = bytes.len() - i;
        let len: usize = if left < 128 { left } else { 128 };
        out.push(len as u8);
        let ghost before = out@;
        let end: usize = i + len;
        let mut j: usize = i;
        while j < end
            invariant
                end == i + len,
                i + len <= bytes@.len(),
                i <= j <= i + len,
                out@ == before + bytes@.subrange(i as int, j as int),
            decreases i + len - j,
        {
            out.push(bytes[j]);
            assert(bytes@.subrange(i as int, j + 1) =~= bytes@.subrange(i as int, j as int).push(bytes@[j as int]));
            j = j + 1;
        }
        proof {
            let tail = bytes@.skip(i as int);
            assert(tail.take(len as int) =~= bytes@.subrange(i as int, (i + len) as int));
            assert(tail.skip(len as int) =~= bytes@.skip((i + len) as int));
            assert(literal_runs(tail) == seq![len as u8] + tail.take(len as int) + literal_runs(tail.skip(len as int)));
            assert(out@ =~= before.drop_last().push(len as u8) + tail.take(len as int));
        }
        i = i + len;
    }
    assert(literal_runs(bytes@.skip(bytes@.len() as int)) =~= Seq::<u8>::empty());
}

/// Appends one scanline: the `2 2 hi lo` marker with the width's two low
/// bytes, then the R, G, B and exponent channels as literal runs.
pub fn push_scanline(out: &mut Vec<u8>, width: u32, row: &[[u8; 4]])
    ensures
        final(out)@ == old(out)@ + scanline(width, row@),
{
    out.push(2);
    out.push(2);
    let hi: u8 = ((width >> 8u32) & 0xff) as u8;
    let lo: u8 = (width & 0xff) as u8;
    assert((width >> 8u32) & 0xff == (width / 256) % 256) by (bit_vector);
    assert(width & 0xff == width % 256) by (bit_vector);
    out.push(hi);
    out.push(lo);
    let ghost mid = out@;
    let mut c: usize = 0;
    while c < 4
        invariant
            0 <= c <= 4,
            mid == old(out)@ + seq![2u8, 2u8, ((width / 256) % 256) as u8, (width % 256) as u8],
            c == 0 ==> out@ == mid,
            c == 1 ==> out@ == mid + literal_runs(channel(row@, 0)),
            c == 2 ==> out@ == mid + literal_runs(channel(row@, 0)) + literal_runs(channel(row@, 1)),
            c == 3 ==> out@ == mid + literal_runs(channel(row@, 0)) + literal_runs(channel(row@, 1))
                + literal_runs(channel(row@, 2)),
            c == 4 ==> out@ == mid + literal_runs(channel(row@, 0)) + literal_runs(channel(row@, 1))
                + literal_runs(channel(row@, 2)) + literal_runs(channel(row@, 3)),
        decreases 4 - c,
    {
        let mut bytes: Vec<u8> = Vec::new();
        let mut i: usize = 0;
        while i < row.len()
            invariant
                0 <= i <= row@.len(),
                c < 4,
                bytes@ == channel(row@, c as int).take(i as int),
            decreases row@.len() - i,
        {
            bytes.push(row[i][c]);
            assert(bytes@ =~= channel(row@, c as int).take(i + 1));
            i = i + 1;
        }
        assert(bytes@ =~= channel(row@, c as int));
        push_literal_runs(out, bytes.as_slice());
        c = c + 1;
    }
    assert(out@ =~= old(out)@ + scanline(width, row@));
}

/// Encodes `height` rows of `width` RGBE pixels (row-major) as a complete
/// Radiance `.hdr` file.
pub fn encode_hdr(width: u32, height: u32, pixels: &[[u8; 4]]) -> (data: Vec<u8>)
    requires
        pixels@.len() == width * height,
    ensures
        data@ == hdr_file(width, height, pixels@),
{
    let mut data: Vec<u8> = Vec::new();
    push_all(&mut data, "#?RADIANCE\nFORMAT=32-bit_rle_rgbe\n\n-Y ".as_bytes());
    push_decimal(&mut data, height);
    push_all(&mut data, " +X ".as_bytes());
    push_decimal(&mut data, width);
    push_all(&mut data, "\n".as_bytes());
    assert(data@ =~= hdr_header(width, height));
    let w = width as usize;
    let total: usize = pixels.len();
    let mut y: u32 = 0;
    while y < height
        invariant
            w == width,
            total == pixels@.len(),
            pixels@.len() == width * height,
            y <= height,
            data@ == hdr_header(width, height) + hdr_body(width, pixels@, y as nat),
        decreases height - y,
    {
        proof {
            assert((y + 1) * width <= height * width) by (nonlinear_arith)
                requires y + 1 <= height;
            assert((y + 1) * width == y * width + width) by (nonlinear_arith);
            assert(y * width >= 0) by (nonlinear_arith);
            assert(height * width == width * height) by (nonlinear_arith);
        }
        let start: usize = (y as usize) * w;
        let row: &[[u8; 4]] = &pixels[start..start + w];
        push_scanline(&mut data, width, row);
        assert(data@ =~= hdr_header(width, height) + hdr_body(width, pixels@, (y + 1) as nat));
        y = y + 1;
    }
    data
}

/// Splits an `f32` bit pattern into a mantissa in `[0.5, 1)` (as bits, sign
/// kept) and the matching binary exponent: `exp = biased_exponent - 126` and
/// `frac = (bits & 0x807F_FFFF) | 0x3F00_0000`.
pub fn frexp_bits(bits: u32) -> (r: (u32, i32))
    ensures
        r.0 == (bits & 0x807F_FFFF) | 0x3F00_0000,
        r.1 == ((bits >> 23u32) & 0xff) as int - 126,
        (r.0 >> 23u32) & 0xff == 126,
        r.0 & 0x807F_FFFF == bits & 0x807F_FFFF,
{
    let e: u32 = (bits >> 23u32) & 0xff;
    assert(e <= 255) by (bit_vector) requires e == (bits >> 23u32) & 0xff;
    let exp: i32 = e as i32 - 126;
    let frac: u32 = (bits & 0x807F_FFFF) | 0x3F00_0000;
    assert((frac >> 23u32) & 0xff == 126 && frac & 0x807F_FFFF == bits & 0x807F_FFFF) by (bit_vector)
        requires frac == (bits & 0x807F_FFFF) | 0x3F00_0000;
    (frac, exp)
}

} // verus!
