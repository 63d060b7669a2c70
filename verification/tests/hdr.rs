use interact::hdr::{encode_hdr, frexp_bits, push_decimal, push_literal_runs, push_scanline};

fn decimal(n: u32) -> Vec<u8> {
    let mut v = Vec::new();
    push_decimal(&mut v, n);
    v
}

#[test]
fn decimal_digits() {
    assert_eq!(decimal(0), b"0");
    assert_eq!(decimal(7), b"7");
    assert_eq!(decimal(10), b"10");
    assert_eq!(decimal(512), b"512");
    assert_eq!(decimal(1024), b"1024");
    assert_eq!(decimal(u32::MAX), b"4294967295");
}

#[test]
fn literal_runs_split_at_128() {
    let bytes: Vec<u8> = (0..300u32).map(|i| (i % 251) as u8).collect();
    let mut out = vec![9u8];
    push_literal_runs(&mut out, &bytes);
    assert_eq!(out.len(), 1 + 300 + 3);
    assert_eq!(out[0], 9);
    assert_eq!(out[1], 128);
    assert_eq!(&out[2..130], &bytes[..128]);
    assert_eq!(out[130], 128);
    assert_eq!(&out[131..259], &bytes[128..256]);
    assert_eq!(out[259], 44);
    assert_eq!(&out[260..], &bytes[256..]);
}

#[test]
fn literal_runs_of_nothing_is_nothing() {
    let mut out = Vec::new();
    push_literal_runs(&mut out, &[]);
    assert!(out.is_empty());
}

fn decode_runs(data: &[u8]) -> Vec<u8> {
    let mut out = Vec::new();
    let mut i = 0;
    while i < data.len() {
        let c = data[i] as usize;
        assert!(c >= 1 && c <= 128);
        out.extend_from_slice(&data[i + 1..i + 1 + c]);
        i += 1 + c;
    }
    out
}

#[test]
fn literal_runs_decode_back() {
    for len in [1usize, 127, 128, 129, 256, 1024] {
        let bytes: Vec<u8> = (0..len).map(|i| (i * 7 % 256) as u8).collect();
        let mut out = Vec::new();
        push_literal_runs(&mut out, &bytes);
        assert_eq!(decode_runs(&out), bytes);
    }
}

#[test]
fn scanline_layout() {
    let row = [[1u8, 2, 3, 4], [5, 6, 7, 8]];
    let mut out = Vec::new();
    push_scanline(&mut out, 2, &row);
    assert_eq!(out, vec![2, 2, 0, 2, 2, 1, 5, 2, 2, 6, 2, 3, 7, 2, 4, 8]);
    let mut out = Vec::new();
    push_scanline(&mut out, 1024, &[]);
    assert_eq!(out, vec![2, 2, 4, 0]);
}

#[test]
fn small_hdr_file() {
    let pixels = [[1u8, 2, 3, 4], [5, 6, 7, 8]];
    let data = encode_hdr(2, 1, &pixels);
    let header = b"#?RADIANCE\nFORMAT=32-bit_rle_rgbe\n\n-Y 1 +X 2\n";
    assert_eq!(&data[..header.len()], header);
    assert_eq!(&data[header.len()..], &[2, 2, 0, 2, 2, 1, 5, 2, 2, 6, 2, 3, 7, 2, 4, 8]);
}

#[test]
fn environment_map_file_size() {
    let pixels = vec![[0u8; 4]; 1024 * 512];
    let data = encode_hdr(1024, 512, &pixels);
    let header = b"#?RADIANCE\nFORMAT=32-bit_rle_rgbe\n\n-Y 512 +X 1024\n";
    assert_eq!(&data[..header.len()], header);
    // Each scanline: 4 marker bytes, then per channel 8 runs of 128 bytes.
    let line = 4 + 4 * (1024 + 8);
    assert_eq!(data.len(), header.len() + 512 * line);
    let first = &data[header.len()..header.len() + line];
    assert_eq!(&first[..5], &[2, 2, 4, 0, 128]);
}

#[test]
fn frexp_of_common_values() {
    let (frac, exp) = frexp_bits(1.0f32.to_bits());
    assert_eq!(f32::from_bits(frac), 0.5);
    assert_eq!(exp, 1);
    let (frac, exp) = frexp_bits(3.0f32.to_bits());
    assert_eq!(f32::from_bits(frac), 0.75);
    assert_eq!(exp, 2);
    let (frac, exp) = frexp_bits(0.1f32.to_bits());
    assert_eq!(f32::from_bits(frac) * 2f32.powi(exp), 0.1);
    let (frac, exp) = frexp_bits((-6.0f32).to_bits());
    assert_eq!(f32::from_bits(frac), -0.75);
    assert_eq!(exp, 3);
}

fn read_scanlines(mut data: &[u8], width: usize, rows: usize) -> Vec<[u8; 4]> {
    let mut pixels = Vec::new();
    for _ in 0..rows {
        assert_eq!(&data[..2], &[2, 2]);
        assert_eq!(data[2] as usize * 256 + data[3] as usize, width);
        data = &data[4..];
        let mut chans = Vec::new();
        for _ in 0..4 {
            let mut ch = Vec::new();
            while ch.len() < width {
                let c = data[0] as usize;
                assert!(c >= 1 && c <= 128 && ch.len() + c <= width);
                ch.extend_from_slice(&data[1..1 + c]);
                data = &data[1 + c..];
            }
            chans.push(ch);
        }
        for i in 0..width {
            pixels.push([chans[0][i], chans[1][i], chans[2][i], chans[3][i]]);
        }
    }
    assert!(data.is_empty());
    pixels
}

#[test]
fn hdr_rows_read_back() {
    let width = 300usize;
    let rows = 3usize;
    let pixels: Vec<[u8; 4]> =
        (0..width * rows).map(|i| [(i % 256) as u8, (i / 7 % 256) as u8, 3, (i % 5) as u8]).collect();
    let data = encode_hdr(width as u32, rows as u32, &pixels);
    let header = b"#?RADIANCE\nFORMAT=32-bit_rle_rgbe\n\n-Y 3 +X 300\n";
    assert_eq!(&data[..header.len()], header);
    assert_eq!(read_scanlines(&data[header.len()..], width, rows), pixels);
}
