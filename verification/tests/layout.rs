//! Component layouts: which ones the JPEG decoder is handed, and which ones are refused.

use nanokvm::capture::layout::layout_returns;
use nanokvm::capture::{CompressedFrame, DecodeError, DecodedFrame, Decoder};
use nanokvm::cli::shot::{encode_png, Shot};

const BASELINE: u8 = 0xC0;
const PROGRESSIVE: u8 = 0xC2;

fn segment(out: &mut Vec<u8>, marker: u8, body: &[u8]) {
    out.extend_from_slice(&[0xFF, marker]);
    out.extend_from_slice(&((body.len() + 2) as u16).to_be_bytes());
    out.extend_from_slice(body);
}

fn adobe(out: &mut Vec<u8>, transform: u8) {
    let mut body = b"Adobe".to_vec();
    body.extend_from_slice(&[0, 100, 0, 0, 0, 0, transform]);
    segment(out, 0xEE, &body);
}

/// Everything in front of the first scan: tables in which a zero bit is the only code, and a
/// frame header of these components.
fn head(kind: u8, width: u16, height: u16, components: &[(u8, u8)], ycck: bool) -> Vec<u8> {
    let mut v = vec![0xFF, 0xD8];
    if ycck {
        adobe(&mut v, 2);
    }
    let mut table = vec![0u8];
    table.extend_from_slice(&[1; 64]);
    segment(&mut v, 0xDB, &table);
    let mut frame = vec![8];
    frame.extend_from_slice(&height.to_be_bytes());
    frame.extend_from_slice(&width.to_be_bytes());
    frame.push(components.len() as u8);
    for (i, (across, down)) in components.iter().enumerate() {
        frame.extend_from_slice(&[i as u8 + 1, across * 16 + down, 0]);
    }
    segment(&mut v, kind, &frame);
    for class in [0x00u8, 0x10] {
        let mut codes = vec![class, 1];
        codes.extend_from_slice(&[0; 15]);
        codes.push(0);
        segment(&mut v, 0xC4, &codes);
    }
    v
}

fn scan(out: &mut Vec<u8>, kind: u8, components: &[usize], blocks: usize) {
    let mut body = vec![components.len() as u8];
    for k in components {
        body.extend_from_slice(&[*k as u8 + 1, 0]);
    }
    let (last, bits) = if kind == PROGRESSIVE { (0, 1) } else { (63, 2) };
    body.extend_from_slice(&[0, last, 0]);
    segment(out, 0xDA, &body);
    let bits = blocks * bits;
    out.extend(std::iter::repeat(0u8).take(bits / 8));
    if bits % 8 != 0 {
        out.push(0xFFu8 >> (bits % 8));
    }
}

/// A whole JPEG with these scans.
fn jpeg(
    kind: u8,
    (width, height): (u16, u16),
    components: &[(u8, u8)],
    scans: &[&[usize]],
) -> Vec<u8> {
    let across = components.iter().map(|c| usize::from(c.0)).max().unwrap_or(1);
    let down = components.iter().map(|c| usize::from(c.1)).max().unwrap_or(1);
    let (w, h) = (usize::from(width), usize::from(height));
    let units = w.div_ceil(8 * across) * h.div_ceil(8 * down);
    let mut v = head(kind, width, height, components, false);
    for names in scans {
        let alone = names.len() == 1 && components.len() > 1;
        let blocks = if alone {
            let (a, d) = components[names[0]];
            (w * usize::from(a)).div_ceil(8 * across) * (h * usize::from(d)).div_ceil(8 * down)
        } else {
            let each = |k: &usize| usize::from(components[*k].0) * usize::from(components[*k].1);
            units * names.iter().map(each).sum::<usize>()
        };
        scan(&mut v, kind, names, blocks);
    }
    v.extend_from_slice(&[0xFF, 0xD9]);
    v
}

fn frame(jpeg: Vec<u8>, width: u32, height: u32) -> CompressedFrame {
    CompressedFrame {
        jpeg,
        width,
        height,
        captured_at: 7,
        sequence: 3,
    }
}

fn decoded(jpeg: Vec<u8>, width: u32, height: u32) -> Result<DecodedFrame, DecodeError> {
    let mut out = DecodedFrame::empty();
    Decoder::new().decode(&frame(jpeg, width, height), &mut out)?;
    Ok(out)
}

fn refused(jpeg: Vec<u8>, width: u32, height: u32) {
    assert!(!layout_returns(&jpeg));
    let r = decoded(jpeg, width, height);
    assert!(matches!(r, Err(DecodeError::UnsupportedLayout)), "{r:?}");
}

#[test]
fn a_scan_that_would_overrun_its_buffer_is_refused() {
    let mut v = head(BASELINE, 16, 8, &[(1, 1), (2, 1), (1, 1)], false);
    scan(&mut v, BASELINE, &[0], 8);
    v.extend_from_slice(&[0; 32]);
    refused(v, 16, 8);
    // A later scan can name any component, so the first one need not.
    let v = jpeg(
        BASELINE,
        (16, 8),
        &[(1, 1), (2, 1), (1, 1)],
        &[&[1], &[0], &[2]],
    );
    refused(v, 16, 8);
}

#[test]
fn a_scratch_row_that_is_too_short_is_refused() {
    let components = [(1, 1), (2, 2), (1, 1)];
    refused(
        jpeg(BASELINE, (8, 8), &components, &[&[0], &[1], &[2]]),
        8,
        8,
    );
    refused(jpeg(PROGRESSIVE, (8, 8), &components, &[&[0, 1, 2]]), 8, 8);
}

#[test]
fn a_component_that_is_not_there_is_refused() {
    let mut v = head(PROGRESSIVE, 8, 8, &[(1, 1), (1, 1)], true);
    scan(&mut v, PROGRESSIVE, &[0], 1);
    refused(v, 8, 8);
    // Without the colour transform the decoder says itself that there are too few.
    let v = jpeg(PROGRESSIVE, (8, 8), &[(1, 1), (1, 1)], &[&[0], &[1]]);
    assert!(layout_returns(&v));
    assert!(matches!(decoded(v, 8, 8), Err(DecodeError::Jpeg(_))));
}

#[test]
fn a_refused_layout_leaves_the_output_alone() {
    let mut out = decoded(jpeg(BASELINE, (8, 8), &[(1, 1)], &[&[0]]), 8, 8).expect("grey");
    let before = out.rgba.clone();
    let bad = jpeg(
        BASELINE,
        (16, 8),
        &[(1, 1), (2, 1), (1, 1)],
        &[&[0], &[1], &[2]],
    );
    let e = Decoder::new()
        .decode(&frame(bad.clone(), 16, 8), &mut out)
        .expect_err("refused");
    assert_eq!(e.text(), "the decoder cannot take this component layout");
    assert_eq!((out.width, out.height, &out.rgba), (8, 8, &before));
    let shot = Shot {
        jpeg: bad,
        width: 16,
        height: 8,
        skipped: 0,
        discarded: 0,
        mismatched: 0,
        restarted: false,
    };
    let e = encode_png(&shot).expect_err("refused");
    assert!(
        e.text().contains("the decoder cannot take this component layout"),
        "{}",
        e.text()
    );
}

#[test]
fn ordinary_layouts_are_decoded() {
    let grey = [128, 128, 128, 255];
    let one: &[&[usize]] = &[&[0, 1, 2]];
    let three: &[&[usize]] = &[&[0], &[1], &[2]];
    for first in [(1, 1), (2, 1), (1, 2), (2, 2)] {
        let components = [first, (1, 1), (1, 1)];
        for size in [(16u16, 16u16), (40, 24), (33, 17)] {
            for (kind, scans) in [
                (BASELINE, one),
                (BASELINE, three),
                (PROGRESSIVE, one),
                (PROGRESSIVE, three),
            ] {
                let v = jpeg(kind, size, &components, scans);
                assert!(layout_returns(&v), "{kind:x} {first:?} {size:?}");
                let (w, h) = (u32::from(size.0), u32::from(size.1));
                let r = decoded(v, w, h);
                if scans.len() > 1 {
                    assert!(matches!(r, Ok(_) | Err(DecodeError::Jpeg(_))));
                    continue;
                }
                let out = r.expect("an ordinary layout");
                assert_eq!(out.rgba.len(), (w * h * 4) as usize);
                assert!(out.rgba.chunks(4).all(|p| p == grey), "{kind:x} {first:?}");
            }
        }
    }
}

#[test]
fn every_layout_comes_to_an_end() {
    let factors = [(1, 1), (2, 1), (1, 2), (2, 2), (4, 1), (1, 4), (2, 3)];
    let scans: [&[&[usize]]; 4] = [
        &[&[0, 1, 2]],
        &[&[0], &[1], &[2]],
        &[&[0, 2], &[1]],
        &[&[1], &[2, 0]],
    ];
    let (mut taken, mut turned_away) = (0, 0);
    for a in factors {
        for b in factors {
            for c in factors {
                for (kind, names) in [BASELINE, PROGRESSIVE]
                    .iter()
                    .flat_map(|kind| scans.iter().map(move |s| (*kind, *s)))
                {
                    for size in [(8u16, 8u16), (17, 9), (40, 33)] {
                        let v = jpeg(kind, size, &[a, b, c], names);
                        let returns = layout_returns(&v);
                        let r = decoded(v, u32::from(size.0), u32::from(size.1));
                        match r {
                            Err(DecodeError::UnsupportedLayout) => {
                                assert!(!returns);
                                turned_away += 1;
                            }
                            Ok(_) | Err(DecodeError::Jpeg(_)) => {
                                assert!(returns);
                                taken += 1;
                            }
                            Err(other) => panic!("{other:?}"),
                        }
                    }
                }
            }
        }
    }
    assert!(taken > turned_away && turned_away > 0, "{taken} {turned_away}");
}

#[test]
fn what_has_no_layout_is_left_to_the_decoder() {
    assert!(layout_returns(&[]));
    assert!(layout_returns(&[0xFF, 0xD8]));
    assert!(layout_returns(b"not a JPEG at all"));
    // Cut anywhere, a frame has the layout of the whole or none.
    let whole = jpeg(
        BASELINE,
        (16, 8),
        &[(1, 1), (2, 1), (1, 1)],
        &[&[0], &[1], &[2]],
    );
    let scan = whole
        .windows(2)
        .position(|p| p == [0xFF, 0xDA])
        .expect("a scan");
    for cut in 0..whole.len() {
        assert_eq!(layout_returns(&whole[..cut]), cut < scan + 5, "{cut}");
    }
}

#[test]
fn fill_bytes_and_segments_on_the_way_change_nothing() {
    let plain = jpeg(
        BASELINE,
        (16, 8),
        &[(1, 1), (2, 1), (1, 1)],
        &[&[0], &[1], &[2]],
    );
    let mut v = vec![0xFF, 0xD8];
    segment(&mut v, 0xE0, b"JFIF\0\x01\x02");
    segment(&mut v, 0xFE, b"a comment that holds \xFF\xDA and \xFF\xC0");
    v.extend_from_slice(&[0xFF, 0xFF]);
    v.extend_from_slice(&plain[2..]);
    assert!(!layout_returns(&v));
    // The shortest segment in which an application name is looked for takes one byte more.
    let mut v = vec![0xFF, 0xD8];
    segment(&mut v, 0xE0, b"JFIF");
    v.push(0);
    v.extend_from_slice(&plain[2..]);
    assert!(!layout_returns(&v));
}
