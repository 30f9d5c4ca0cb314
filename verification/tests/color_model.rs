use chromabridge::hue_mapper::HueMapper;
use chromabridge::spectrum::{
    ColorSample, NodeError, Spectrum, SpectrumError, SpectrumFile, SpectrumFileError, SpectrumNode,
    SpectrumPair,
};

fn node(position: i64, color: &str) -> SpectrumNode {
    SpectrumNode { position, color: color.to_string(), hue: None, saturation: None, value: None }
}

fn red_blue() -> Spectrum {
    Spectrum { nodes: vec![node(0, "#FF0000"), node(500_000, "#0000FF")] }
}

#[test]
fn rgb_to_hsv_primaries() {
    assert_eq!(HueMapper::rgb_to_hsv(255, 0, 0), (0, 1_000_000, 1_000_000));
    assert_eq!(HueMapper::rgb_to_hsv(0, 255, 0), (120_000_000, 1_000_000, 1_000_000));
    assert_eq!(HueMapper::rgb_to_hsv(0, 0, 255), (240_000_000, 1_000_000, 1_000_000));
    assert_eq!(HueMapper::rgb_to_hsv(255, 255, 0), (60_000_000, 1_000_000, 1_000_000));
    assert_eq!(HueMapper::rgb_to_hsv(255, 0, 255), (300_000_000, 1_000_000, 1_000_000));
    assert_eq!(HueMapper::rgb_to_hsv(0, 0, 0), (0, 0, 0));
    assert_eq!(HueMapper::rgb_to_hsv(255, 255, 255), (0, 0, 1_000_000));
}

#[test]
fn rgb_to_hsv_rounds_to_nearest_unit() {
    // (255, 0, 1): hue is 360 - 60/255 degrees = 359.764705882..., rounded to micro-degrees.
    assert_eq!(HueMapper::rgb_to_hsv(255, 0, 1), (359_764_706, 1_000_000, 1_000_000));
    // value 128/255 = 0.50196078...; saturation (128 - 64)/128 = 0.5.
    assert_eq!(HueMapper::rgb_to_hsv(128, 64, 64), (0, 500_000, 501_961));
}

#[test]
fn hsv_to_rgb_sectors() {
    assert_eq!(HueMapper::hsv_to_rgb(0, 1_000_000, 1_000_000), (255, 0, 0));
    assert_eq!(HueMapper::hsv_to_rgb(60_000_000, 1_000_000, 1_000_000), (255, 255, 0));
    assert_eq!(HueMapper::hsv_to_rgb(120_000_000, 1_000_000, 1_000_000), (0, 255, 0));
    assert_eq!(HueMapper::hsv_to_rgb(180_000_000, 1_000_000, 1_000_000), (0, 255, 255));
    assert_eq!(HueMapper::hsv_to_rgb(240_000_000, 1_000_000, 1_000_000), (0, 0, 255));
    assert_eq!(HueMapper::hsv_to_rgb(300_000_000, 1_000_000, 1_000_000), (255, 0, 255));
    assert_eq!(HueMapper::hsv_to_rgb(30_000_000, 1_000_000, 1_000_000), (255, 128, 0));
    assert_eq!(HueMapper::hsv_to_rgb(0, 0, 500_000), (128, 128, 128));
}

#[test]
fn hsv_to_rgb_wraps_hue_and_clamps_fractions() {
    assert_eq!(HueMapper::hsv_to_rgb(360_000_000, 1_000_000, 1_000_000), (255, 0, 0));
    assert_eq!(HueMapper::hsv_to_rgb(-120_000_000, 1_000_000, 1_000_000), (0, 0, 255));
    assert_eq!(HueMapper::hsv_to_rgb(120_000_000, 2_000_000, 7_000_000), (0, 255, 0));
    assert_eq!(HueMapper::hsv_to_rgb(120_000_000, -5, -5), (0, 0, 0));
}

#[test]
fn rgb_round_trips_through_hsv() {
    let mut r: u32 = 0;
    while r < 256 {
        let mut g: u32 = 0;
        while g < 256 {
            let mut b: u32 = 0;
            while b < 256 {
                let (h, s, v) = HueMapper::rgb_to_hsv(r as u8, g as u8, b as u8);
                assert_eq!(HueMapper::hsv_to_rgb(h, s, v), (r as u8, g as u8, b as u8));
                b += 15;
            }
            g += 15;
        }
        r += 15;
    }
}

#[test]
fn greys_and_primaries_round_trip_exactly() {
    for level in 0..=255u8 {
        let (h, s, v) = HueMapper::rgb_to_hsv(level, level, level);
        assert_eq!((h, s), (0, 0));
        assert_eq!(HueMapper::hsv_to_rgb(h, s, v), (level, level, level));
        for other in 0..=255u8 {
            for color in [(level, other, 0), (0, level, other), (other, 0, level)] {
                let (h, s, v) = HueMapper::rgb_to_hsv(color.0, color.1, color.2);
                assert_eq!(HueMapper::hsv_to_rgb(h, s, v), color);
            }
        }
    }
}

#[test]
fn strength_is_clamped() {
    assert_eq!(HueMapper::new(500_000).get_strength(), 500_000);
    assert_eq!(HueMapper::new(-1).get_strength(), 0);
    assert_eq!(HueMapper::new(1_000_001).get_strength(), 1_000_000);
    let mut mapper = HueMapper::new(0);
    mapper.set_strength(3_000_000);
    assert_eq!(mapper.strength, 1_000_000);
    mapper.set_strength(250_000);
    assert_eq!(mapper.get_strength(), 250_000);
}

#[test]
fn to_rgb_reads_hex() {
    assert_eq!(node(0, "#FF8000").to_rgb(), Ok((255, 128, 0)));
    assert_eq!(node(0, "ff8000").to_rgb(), Ok((255, 128, 0)));
    assert_eq!(node(0, "##0a0B0c").to_rgb(), Ok((10, 11, 12)));
}

#[test]
fn to_rgb_rejects_malformed_colors() {
    assert_eq!(node(0, "#FF00").to_rgb(), Err(NodeError::InvalidColor));
    assert_eq!(node(0, "#FF00000").to_rgb(), Err(NodeError::InvalidColor));
    assert_eq!(node(0, "#GG0000").to_rgb(), Err(NodeError::InvalidColor));
    assert_eq!(node(0, "#12345Z").to_rgb(), Err(NodeError::InvalidColor));
    assert_eq!(node(0, "").to_rgb(), Err(NodeError::InvalidColor));
    assert_eq!(node(0, "#").to_rgb(), Err(NodeError::InvalidColor));
    assert_eq!(node(0, "FF0000#").to_rgb(), Err(NodeError::InvalidColor));
    assert_eq!(node(0, "#-10000").to_rgb(), Err(NodeError::InvalidColor));
    assert_eq!(node(0, "#++0000").to_rgb(), Err(NodeError::InvalidColor));
    assert_eq!(node(0, "#+F0000").to_rgb(), Err(NodeError::InvalidColor));
    assert_eq!(node(0, "#+F+0+a").to_rgb(), Err(NodeError::InvalidColor));
    assert_eq!(node(0, "#0x1234").to_rgb(), Err(NodeError::InvalidColor));
    assert_eq!(node(0, "#FF 000").to_rgb(), Err(NodeError::InvalidColor));
    assert_eq!(node(0, "#\u{e9}1234").to_rgb(), Err(NodeError::InvalidColor));
    assert_eq!(node(0, "#1\u{e9}234").to_rgb(), Err(NodeError::InvalidColor));
}

#[test]
fn to_hsv_prefers_explicit_components() {
    let mut n = node(0, "#FF0000");
    assert_eq!(n.to_hsv(), Ok((0, 1_000_000, 1_000_000)));
    n.hue = Some(90_000_000);
    assert_eq!(n.to_hsv(), Ok((90_000_000, 1_000_000, 1_000_000)));
    n.saturation = Some(250_000);
    n.value = Some(750_000);
    assert_eq!(n.to_hsv(), Ok((90_000_000, 250_000, 750_000)));
    n.color = "nonsense".to_string();
    assert_eq!(n.to_hsv(), Ok((90_000_000, 250_000, 750_000)));
    n.value = None;
    assert_eq!(n.to_hsv(), Err(NodeError::InvalidColor));
    assert_eq!(n.to_color(), Err(NodeError::InvalidColor));
}

#[test]
fn validate_accepts_a_sorted_spectrum() {
    assert_eq!(red_blue().validate(), Ok(()));
    let s = Spectrum { nodes: vec![node(0, "#000000"), node(0, "#FFFFFF"), node(1_000_000, "#123456")] };
    assert_eq!(s.validate(), Ok(()));
}

#[test]
fn validate_rejects_an_empty_spectrum() {
    assert_eq!(Spectrum { nodes: vec![] }.validate(), Err(SpectrumError::Empty));
}

#[test]
fn validate_rejects_positions_out_of_range() {
    let s = Spectrum { nodes: vec![node(-1, "#000000")] };
    assert_eq!(
        s.validate(),
        Err(SpectrumError::Node { index: 0, error: NodeError::PositionOutOfRange })
    );
    let s = Spectrum { nodes: vec![node(0, "#000000"), node(1_000_001, "#000000")] };
    assert_eq!(
        s.validate(),
        Err(SpectrumError::Node { index: 1, error: NodeError::PositionOutOfRange })
    );
}

#[test]
fn validate_rejects_nodes_out_of_order() {
    let s = Spectrum { nodes: vec![node(500_000, "#000000"), node(250_000, "#FFFFFF")] };
    assert_eq!(s.validate(), Err(SpectrumError::Unsorted { index: 1 }));
}

#[test]
fn validate_rejects_a_hue_of_a_full_turn() {
    let mut n = node(0, "#FF0000");
    n.hue = Some(360_000_000);
    let s = Spectrum { nodes: vec![n] };
    assert_eq!(s.validate(), Err(SpectrumError::Node { index: 0, error: NodeError::HueOutOfRange }));
    let mut n = node(0, "#FF0000");
    n.hue = Some(359_999_999);
    assert_eq!(Spectrum { nodes: vec![n] }.validate(), Ok(()));
    let mut n = node(0, "#FF0000");
    n.hue = Some(-1);
    assert_eq!(
        Spectrum { nodes: vec![n] }.validate(),
        Err(SpectrumError::Node { index: 0, error: NodeError::HueOutOfRange })
    );
}

#[test]
fn validate_rejects_a_malformed_seven_character_color() {
    let s = Spectrum { nodes: vec![node(0, "#FF0000"), node(500_000, "#12345G")] };
    assert_eq!(s.validate(), Err(SpectrumError::Node { index: 1, error: NodeError::InvalidColor }));
}

#[test]
fn validate_rejects_a_color_with_a_sign() {
    let s = Spectrum { nodes: vec![node(0, "#+F0000")] };
    assert_eq!(s.validate(), Err(SpectrumError::Node { index: 0, error: NodeError::InvalidColor }));
    assert_eq!(
        s.map_hue_to_rgb(0),
        Err(SpectrumError::Node { index: 0, error: NodeError::InvalidColor })
    );
    assert_eq!(
        s.get_rgb_lookup_table(360),
        Err(SpectrumError::Node { index: 0, error: NodeError::InvalidColor })
    );
}

#[test]
fn validate_rejects_fractions_out_of_range() {
    let mut n = node(0, "#FF0000");
    n.saturation = Some(1_000_001);
    assert_eq!(
        Spectrum { nodes: vec![n] }.validate(),
        Err(SpectrumError::Node { index: 0, error: NodeError::SaturationOutOfRange })
    );
    let mut n = node(0, "#FF0000");
    n.value = Some(-1);
    assert_eq!(
        Spectrum { nodes: vec![n] }.validate(),
        Err(SpectrumError::Node { index: 0, error: NodeError::ValueOutOfRange })
    );
}

#[test]
fn validate_reports_the_first_fault() {
    let mut bad = node(2_000_000, "oops");
    bad.hue = Some(-5);
    let s = Spectrum { nodes: vec![node(0, "#FF0000"), node(400_000, "bad"), bad] };
    assert_eq!(s.validate(), Err(SpectrumError::Node { index: 1, error: NodeError::InvalidColor }));
}

#[test]
fn midpoint_of_red_and_blue() {
    let sample = red_blue().map_hue_to_rgb(90_000_000).unwrap();
    assert_eq!(sample.r * 2, sample.scale);
    assert_eq!(sample.g, 0);
    assert_eq!(sample.b * 2, sample.scale);
    assert_eq!(
        sample,
        ColorSample { r: 255 * 90_000_000, g: 0, b: 255 * 90_000_000, scale: 255 * 180_000_000 }
    );
}

#[test]
fn hue_past_the_last_node_takes_its_color() {
    let sample = red_blue().map_hue_to_rgb(270_000_000).unwrap();
    assert_eq!(sample, ColorSample { r: 0, g: 0, b: 255, scale: 255 });
}

#[test]
fn hue_before_the_first_node_takes_its_color() {
    let s = Spectrum { nodes: vec![node(250_000, "#00FF00"), node(500_000, "#0000FF")] };
    assert_eq!(s.map_hue_to_rgb(10_000_000), Ok(ColorSample { r: 0, g: 255, b: 0, scale: 255 }));
}

#[test]
fn node_position_yields_node_color() {
    let s = Spectrum {
        nodes: vec![node(0, "#FF0000"), node(250_000, "#00FF00"), node(750_000, "#0000FF")],
    };
    let at_first = s.map_hue_to_rgb(0).unwrap();
    assert_eq!((at_first.r * 255, at_first.g, at_first.b), (255 * at_first.scale, 0, 0));
    let at_second = s.map_hue_to_rgb(90_000_000).unwrap();
    assert_eq!((at_second.r, at_second.g * 255, at_second.b), (0, 255 * at_second.scale, 0));
    let at_third = s.map_hue_to_rgb(270_000_000).unwrap();
    assert_eq!((at_third.r, at_third.g, at_third.b * 255), (0, 0, 255 * at_third.scale));
}

#[test]
fn mapping_is_periodic() {
    let s = red_blue();
    let mut hue: i64 = 0;
    while hue < 360_000_000 {
        let here = s.map_hue_to_rgb(hue);
        assert_eq!(here, s.map_hue_to_rgb(hue + 360_000_000));
        assert_eq!(here, s.map_hue_to_rgb(hue - 720_000_000));
        hue += 7_654_321;
    }
}

#[test]
fn single_node_gives_its_color_everywhere() {
    let s = Spectrum { nodes: vec![node(300_000, "#336699")] };
    let expected = Ok(ColorSample { r: 0x33, g: 0x66, b: 0x99, scale: 255 });
    assert_eq!(s.map_hue_to_rgb(0), expected);
    assert_eq!(s.map_hue_to_rgb(123_456_789), expected);
    assert_eq!(s.map_hue_to_rgb(-1), expected);
    assert_eq!(s.map_hue_to_rgb(i64::MAX), expected);
    assert_eq!(s.map_hue_to_rgb(i64::MIN), expected);
}

#[test]
fn degenerate_bracket_takes_the_first_of_its_nodes() {
    let s = Spectrum { nodes: vec![node(500_000, "#FF0000"), node(500_000, "#0000FF")] };
    assert_eq!(s.map_hue_to_rgb(180_000_000), Ok(ColorSample { r: 255, g: 0, b: 0, scale: 255 }));
}

#[test]
fn explicit_hsv_overrides_the_color() {
    let mut n = node(0, "#FF0000");
    n.hue = Some(120_000_000);
    let s = Spectrum { nodes: vec![n] };
    assert_eq!(s.map_hue_to_rgb(0), Ok(ColorSample { r: 0, g: 255, b: 0, scale: 255 }));
}

#[test]
fn mapping_refuses_an_invalid_spectrum() {
    let s = Spectrum { nodes: vec![] };
    assert_eq!(s.map_hue_to_rgb(0), Err(SpectrumError::Empty));
    assert_eq!(s.get_rgb_lookup_table(360), Err(SpectrumError::Empty));
    let s = Spectrum { nodes: vec![node(0, "#FF0000"), node(1, "#F")] };
    assert_eq!(
        s.map_hue_to_rgb(0),
        Err(SpectrumError::Node { index: 1, error: NodeError::InvalidColor })
    );
}

#[test]
fn lookup_table_without_entries_is_made_of_every_spectrum() {
    assert_eq!(Spectrum { nodes: vec![] }.get_rgb_lookup_table(0), Ok(vec![]));
    let unreadable = Spectrum { nodes: vec![node(0, "oops"), node(2_000_000, "#12")] };
    assert_eq!(unreadable.get_rgb_lookup_table(0), Ok(vec![]));
    assert_eq!(red_blue().get_rgb_lookup_table(0), Ok(vec![]));
}

#[test]
fn lookup_table_fails_with_the_fault_of_its_first_failing_entry() {
    assert_eq!(Spectrum { nodes: vec![] }.get_rgb_lookup_table(1), Err(SpectrumError::Empty));
    // Entries up to 180 degrees meet the first two nodes only; the entry
    // behind them meets the third node, whose colour cannot be read.
    let s = Spectrum {
        nodes: vec![node(0, "#FF0000"), node(500_000, "#0000FF"), node(750_000, "bad")],
    };
    assert_eq!(
        s.get_rgb_lookup_table(360),
        Err(SpectrumError::Node { index: 2, error: NodeError::InvalidColor })
    );
    assert_eq!(s.get_rgb_lookup_table(2).map(|t| t.len()), Ok(2));
    assert_eq!(
        s.get_rgb_lookup_table(3),
        Err(SpectrumError::Node { index: 2, error: NodeError::InvalidColor })
    );
}

#[test]
fn mapping_looks_only_at_the_nodes_that_the_hue_meets() {
    let s = Spectrum {
        nodes: vec![node(0, "#FF0000"), node(500_000, "#0000FF"), node(750_000, "bad")],
    };
    assert_eq!(s.validate(), Err(SpectrumError::Node { index: 2, error: NodeError::InvalidColor }));
    assert_eq!(
        s.map_hue_to_rgb(90_000_000),
        Ok(ColorSample { r: 255 * 90_000_000, g: 0, b: 255 * 90_000_000, scale: 255 * 180_000_000 })
    );
    assert_eq!(
        s.map_hue_to_rgb(200_000_000),
        Err(SpectrumError::Node { index: 2, error: NodeError::InvalidColor })
    );
    assert_eq!(
        s.map_hue_to_rgb(300_000_000),
        Err(SpectrumError::Node { index: 2, error: NodeError::InvalidColor })
    );
    // Of a bracket both nodes are read, the earlier one first.
    let both = Spectrum { nodes: vec![node(0, "bad"), node(500_000, "worse")] };
    assert_eq!(
        both.map_hue_to_rgb(0),
        Err(SpectrumError::Node { index: 0, error: NodeError::InvalidColor })
    );
}

#[test]
fn mapping_takes_nodes_out_of_order_as_they_stand() {
    let s = Spectrum { nodes: vec![node(500_000, "#FF0000"), node(250_000, "#0000FF")] };
    assert_eq!(s.validate(), Err(SpectrumError::Unsorted { index: 1 }));
    // No pair brackets any hue: at or past the last node its colour, else the first's.
    assert_eq!(s.map_hue_to_rgb(90_000_000), Ok(ColorSample { r: 0, g: 0, b: 255, scale: 255 }));
    assert_eq!(s.map_hue_to_rgb(200_000_000), Ok(ColorSample { r: 0, g: 0, b: 255, scale: 255 }));
    assert_eq!(s.map_hue_to_rgb(10_000_000), Ok(ColorSample { r: 255, g: 0, b: 0, scale: 255 }));
    assert_eq!(s.get_rgb_lookup_table(360).map(|t| t.len()), Ok(360));
}

#[test]
fn mapping_takes_positions_out_of_range_as_they_stand() {
    let s = Spectrum { nodes: vec![node(-1_000_000, "#000000"), node(2_000_000, "#FFFFFF")] };
    assert!(s.validate().is_err());
    // The bracket spans three turns; 180 degrees lies at its middle.
    let sample = s.map_hue_to_rgb(180_000_000).unwrap();
    assert_eq!(sample.scale, 255 * 1_080_000_000);
    assert_eq!((sample.r * 2, sample.g * 2, sample.b * 2), (sample.scale, sample.scale, sample.scale));
    let wide = Spectrum { nodes: vec![node(i64::MIN, "#102030"), node(i64::MAX, "#FFFFFF")] };
    let sample = wide.map_hue_to_rgb(359_999_999).unwrap();
    assert_eq!(sample.scale, 255 * 360 * (u64::MAX as u128));
    assert!(sample.r <= sample.scale && sample.g <= sample.scale && sample.b <= sample.scale);
    assert!(sample.r * 255 >= 0x10 * sample.scale);
}

#[test]
fn mapping_reads_a_fully_explicit_node_without_its_text() {
    let mut n = node(0, "nonsense");
    n.hue = Some(240_000_000);
    n.saturation = Some(1_000_000);
    n.value = Some(1_000_000);
    let s = Spectrum { nodes: vec![n] };
    assert_eq!(s.validate(), Err(SpectrumError::Node { index: 0, error: NodeError::InvalidColor }));
    assert_eq!(s.map_hue_to_rgb(5), Ok(ColorSample { r: 0, g: 0, b: 255, scale: 255 }));
    // Components out of range are taken as the conversion takes them.
    let mut n = node(0, "#000000");
    n.hue = Some(360_000_000 + 120_000_000);
    n.saturation = Some(7_000_000);
    n.value = Some(-3);
    let s = Spectrum { nodes: vec![n] };
    assert!(s.validate().is_err());
    assert_eq!(s.map_hue_to_rgb(5), Ok(ColorSample { r: 0, g: 0, b: 0, scale: 255 }));
}

#[test]
fn lookup_table_entry_is_the_color_of_its_degree() {
    let s = red_blue();
    let table = s.get_rgb_lookup_table(360).unwrap();
    assert_eq!(table.len(), 360);
    let mut i: usize = 0;
    while i < 360 {
        assert_eq!(Ok(table[i]), s.map_hue_to_rgb(i as i64 * 1_000_000));
        i += 1;
    }
}

#[test]
fn lookup_table_of_other_resolutions() {
    let s = red_blue();
    assert_eq!(s.get_rgb_lookup_table(0), Ok(vec![]));
    let table = s.get_rgb_lookup_table(7).unwrap();
    assert_eq!(table.len(), 7);
    // Entry 3 of 7 is sampled at floor(3 * 360e6 / 7) micro-degrees.
    assert_eq!(Ok(table[3]), s.map_hue_to_rgb(154_285_714));
}

#[test]
fn pair_takes_first_and_second_spectrum() {
    let file = SpectrumFile { spectra: vec![red_blue()] };
    let pair = SpectrumPair::load_from_file(file).unwrap();
    assert!(!pair.has_dual_spectrum());
    assert_eq!(pair.spectrum1.nodes.len(), 2);

    let second = Spectrum { nodes: vec![node(0, "#00FF00")] };
    let third = Spectrum { nodes: vec![node(0, "#010203"), node(1, "#040506"), node(2, "#070809")] };
    let file = SpectrumFile { spectra: vec![red_blue(), second, third] };
    let pair = SpectrumPair::load_from_file(file).unwrap();
    assert!(pair.has_dual_spectrum());
    assert_eq!(pair.spectrum1.nodes.len(), 2);
    assert_eq!(pair.spectrum2.unwrap().nodes.len(), 1);
}

#[test]
fn pair_refuses_empty_and_invalid_files() {
    assert_eq!(
        SpectrumPair::load_from_file(SpectrumFile { spectra: vec![] }).err(),
        Some(SpectrumFileError::NoSpectrum)
    );
    let file = SpectrumFile { spectra: vec![red_blue(), red_blue(), Spectrum { nodes: vec![] }] };
    assert_eq!(
        SpectrumPair::load_from_file(file).err(),
        Some(SpectrumFileError::Invalid { index: 2, error: SpectrumError::Empty })
    );
}
