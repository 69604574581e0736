use myosa::fontconvert::{approx_bytes, char_range, font_name, font_stem, BitAccumulator, Separator};

fn chars(s: &str) -> Vec<char> {
    s.chars().collect()
}

#[test]
fn range_defaults_and_overrides() {
    assert_eq!(char_range(3, None, None), (32, 126));
    assert_eq!(char_range(4, Some(90), None), (32, 90));
    assert_eq!(char_range(4, None, None), (32, 126));
    assert_eq!(char_range(5, Some(48), Some(57)), (48, 57));
    assert_eq!(char_range(5, None, Some(200)), (32, 200));
    // A reversed range is put in order.
    assert_eq!(char_range(5, Some(100), Some(40)), (40, 100));
    assert_eq!(char_range(4, Some(10), None), (10, 32));
}

#[test]
fn stem_of_font_path() {
    assert_eq!(font_stem(&chars("/usr/share/fonts/FreeSans.ttf")), chars("FreeSans"));
    assert_eq!(font_stem(&chars("FreeMono.Bold.ttf")), chars("FreeMono"));
    assert_eq!(font_stem(&chars("dir.d/Plain")), chars("Plain"));
    assert_eq!(font_stem(&chars("a/b/")), chars(""));
}

#[test]
fn font_table_names() {
    assert_eq!(font_name(&chars("FreeSans"), 18, 126), chars("FreeSans18pt7b"));
    assert_eq!(font_name(&chars("Free Sans-Bold"), 9, 255), chars("Free_Sans_Bold9pt8b"));
    assert_eq!(font_name(&chars("x\u{3000}y"), 120, 127), chars("x_y120pt7b"));
    assert_eq!(font_name(&chars(""), 0, 128), chars("0pt8b"));
}

#[test]
fn accumulator_packs_msb_first() {
    let mut acc = BitAccumulator::new();
    let bits = [true, false, true, false, false, false, false, true];
    let mut out = Vec::new();
    for b in bits {
        if let Some(x) = acc.enbit(b) {
            out.push(x);
        }
    }
    assert_eq!(out, vec![(Separator::Start, 0xA1)]);
}

#[test]
fn accumulator_lays_out_twelve_per_line() {
    let mut acc = BitAccumulator::new();
    let mut out = Vec::new();
    for i in 0..(8 * 14) {
        if let Some(x) = acc.enbit(i % 8 == 7) {
            out.push(x);
        }
    }
    assert_eq!(out.len(), 14);
    assert!(out.iter().all(|(_, b)| *b == 0x01));
    assert_eq!(out[0].0, Separator::Start);
    for k in 1..12 {
        assert_eq!(out[k].0, Separator::Comma);
    }
    assert_eq!(out[12].0, Separator::CommaNewline);
    assert_eq!(out[13].0, Separator::Comma);
}

#[test]
fn size_estimate() {
    assert_eq!(approx_bytes(0, 32, 126), 95 * 7 + 7);
    assert_eq!(approx_bytes(100, 65, 65), 114);
}
