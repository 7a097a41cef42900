use mim_rs::ansi::ansi_rgb;
use mim_rs::palette::{colour, split_byte};
use mim_rs::{render, Mozaic};

const PALETTE: [(u8, u8, u8); 16] = [
    (0, 0, 0),
    (194, 54, 33),
    (37, 188, 36),
    (173, 173, 39),
    (73, 46, 225),
    (211, 56, 211),
    (51, 187, 200),
    (203, 204, 205),
    (129, 131, 131),
    (252, 57, 31),
    (49, 231, 34),
    (234, 236, 35),
    (88, 51, 255),
    (249, 53, 248),
    (20, 240, 240),
    (233, 235, 235),
];

/// A mosaic in which every cell shows the same colour code twice.
fn uniform_mosaic(code: &str) -> String {
    let mut out = String::new();
    for i in 0..32 {
        if i % 8 == 0 && i != 0 {
            out.push_str("\r\n");
        }
        out.push_str(code);
        out.push_str("  ");
        out.push_str(code);
        if i % 2 == 1 {
            out.push_str("  \x1b[0m  ");
        } else {
            out.push_str("  \x1b[0m");
        }
    }
    out.push_str("\x1b[0m");
    out
}

/// Every colour code in a mosaic, as its three channel values.
fn colour_codes(text: &str) -> Vec<(u8, u8, u8)> {
    let mut found = Vec::new();
    for part in text.split("\x1b[38;2;").skip(1) {
        let body = &part[..part.find('m').unwrap()];
        let nums: Vec<u8> = body
            .split(|c| c == ';')
            .filter(|s| !s.is_empty())
            .map(|s| s.parse().unwrap())
            .collect();
        assert_eq!(nums.len(), 8);
        assert_eq!(&nums[3..5], &[48, 2]);
        assert_eq!(&nums[0..3], &nums[5..8]);
        found.push((nums[0], nums[1], nums[2]));
    }
    found
}

const EMPTY_KEY: [u8; 32] = [
    235, 112, 240, 29, 237, 233, 175, 175, 164, 73, 238, 225, 177, 40, 101, 4, 225, 246, 35, 136,
    179, 247, 221, 79, 149, 102, 151, 176, 232, 40, 254, 24,
];

const CERT_KEY: [u8; 32] = [
    128, 102, 197, 35, 166, 96, 207, 148, 97, 1, 17, 145, 220, 38, 175, 25, 113, 184, 199, 181,
    182, 218, 215, 96, 47, 86, 106, 226, 45, 161, 165, 33,
];

#[test]
fn zero_key_is_all_black() {
    let text = render(&[0u8; 32]);
    assert_eq!(text, uniform_mosaic("\x1b[38;2;0;0;0;48;2;0;0;0m"));
    assert!(colour_codes(&text).iter().all(|c| *c == (0, 0, 0)));
}

#[test]
fn ff_key_is_all_bright_white() {
    let text = render(&[0xffu8; 32]);
    assert_eq!(text, uniform_mosaic("\x1b[38;2;233;235;235;48;2;233;235;235m"));
    assert!(colour_codes(&text).iter().all(|c| *c == (233, 235, 235)));
}

#[test]
fn mixed_row_layout() {
    let mut key = [0u8; 32];
    let row = [5u8, 42, 79, 116, 153, 190, 227, 8];
    key[..8].copy_from_slice(&row);
    let first_row = [
        "\x1b[38;2;0;0;0;48;2;0;0;0m  \x1b[38;2;211;56;211;48;2;211;56;211m  \x1b[0m",
        "\x1b[38;2;37;188;36;48;2;37;188;36m  \x1b[38;2;49;231;34;48;2;49;231;34m  \x1b[0m  ",
        "\x1b[38;2;73;46;225;48;2;73;46;225m  \x1b[38;2;233;235;235;48;2;233;235;235m  \x1b[0m",
        "\x1b[38;2;203;204;205;48;2;203;204;205m  \x1b[38;2;73;46;225;48;2;73;46;225m  \x1b[0m  ",
        "\x1b[38;2;252;57;31;48;2;252;57;31m  \x1b[38;2;252;57;31;48;2;252;57;31m  \x1b[0m",
        "\x1b[38;2;234;236;35;48;2;234;236;35m  \x1b[38;2;20;240;240;48;2;20;240;240m  \x1b[0m  ",
        "\x1b[38;2;20;240;240;48;2;20;240;240m  \x1b[38;2;173;173;39;48;2;173;173;39m  \x1b[0m",
        "\x1b[38;2;0;0;0;48;2;0;0;0m  \x1b[38;2;129;131;131;48;2;129;131;131m  \x1b[0m  \r\n",
    ]
    .concat();
    let text = render(&key);
    assert!(text.starts_with(&first_row));
    let black = "\x1b[38;2;0;0;0;48;2;0;0;0m";
    assert!(text.ends_with(&format!("{black}  {black}  \x1b[0m  \x1b[0m")));
}

#[test]
fn ansi_rgb_writes_both_grounds() {
    assert_eq!(ansi_rgb((194, 54, 33)), "\x1b[38;2;194;54;33;48;2;194;54;33m");
    assert_eq!(ansi_rgb((0, 0, 0)), "\x1b[38;2;0;0;0;48;2;0;0;0m");
    assert_eq!(ansi_rgb((20, 240, 9)), "\x1b[38;2;20;240;9;48;2;20;240;9m");
}

#[test]
fn palette_lookup() {
    for n in 0..16u8 {
        assert_eq!(colour(n), PALETTE[n as usize]);
    }
    assert_eq!(split_byte(0x1f), (PALETTE[1], PALETTE[15]));
    assert_eq!(split_byte(0xc4), (PALETTE[12], PALETTE[4]));
}

#[test]
fn new_derives_hkdf_sha256() {
    let moz = Mozaic::new(b"certificate contents would typically go here");
    assert_eq!(moz.ansi(), render(&CERT_KEY));
}

#[test]
fn empty_input_gives_full_mosaic() {
    let text = Mozaic::new(&[]).ansi();
    assert_eq!(text, render(&EMPTY_KEY));
    assert_eq!(text.matches("\r\n").count(), 3);
    assert_eq!(colour_codes(&text).len(), 64);
    assert!(text.ends_with("  \x1b[0m"));
}

#[test]
fn same_input_same_mosaic() {
    let input = b"ssh-ed25519 fingerprint";
    assert_eq!(Mozaic::new(input).ansi(), Mozaic::new(input).ansi());
    let moz = Mozaic::new(input);
    assert_eq!(moz.ansi(), moz.ansi());
}

#[test]
fn distinct_inputs_give_distinct_mosaics() {
    let mut seen = std::collections::HashSet::new();
    for n in 0u32..1000 {
        assert!(seen.insert(Mozaic::new(&n.to_le_bytes()).ansi()));
    }
    assert_ne!(Mozaic::new(b"a").ansi(), Mozaic::new(b"b").ansi());
}

#[test]
fn shape_is_fixed() {
    for input in [&b""[..], b"x", &[7u8; 100], &[0xffu8; 64]] {
        let text = Mozaic::new(input).ansi();
        assert_eq!(text.matches("\r\n").count(), 3);
        assert_eq!(text.matches("\x1b[38;2;").count(), 64);
        assert_eq!(text.matches("\x1b[0m").count(), 33);
        assert_eq!(text.split("\r\n").count(), 4);
    }
}

#[test]
fn colours_come_from_palette() {
    for n in 0u8..50 {
        let text = Mozaic::new(&[n, n.wrapping_mul(7)]).ansi();
        for c in colour_codes(&text) {
            assert!(PALETTE.contains(&c));
        }
    }
}

#[test]
fn trailing_reset_once() {
    for input in [&b""[..], b"abc", &[0u8; 32]] {
        let text = Mozaic::new(input).ansi();
        assert!(text.ends_with("  \x1b[0m"));
        assert!(!text.ends_with("\x1b[0m\x1b[0m"));
    }
}

#[test]
fn key_is_the_derived_bytes() {
    assert_eq!(Mozaic::new(&[]).key(), EMPTY_KEY);
    assert_eq!(Mozaic::new(b"certificate contents would typically go here").key(), CERT_KEY);
}
