use dust::i2c::scan_i2c;

/// The same reading of the table by the standard library's string functions.
fn by_the_standard_library(output: &str) -> Vec<u16> {
    let mut addresses = vec![];
    for line in output.lines().skip(1) {
        let field = line.split(':').nth(1).unwrap_or("").trim();
        for address in field.split_whitespace() {
            if address != "--" {
                if let Ok(address) = u16::from_str_radix(address, 16) {
                    addresses.push(address);
                }
            }
        }
    }
    addresses
}

const TABLE: &str = "     0  1  2  3  4  5  6  7  8  9  a  b  c  d  e  f
00:                         -- -- -- -- -- -- -- --
10: -- -- -- -- 14 -- -- -- -- -- -- -- -- -- -- --
20: -- -- -- -- -- -- -- -- -- -- -- -- -- -- -- --
30: -- -- -- -- -- -- -- -- -- -- -- -- UU -- -- --
40: 40 -- -- -- -- -- -- -- 48 -- -- -- -- -- -- --
50: -- -- -- -- -- -- -- -- -- -- -- -- -- -- -- --
60: -- -- -- -- -- -- -- -- 68 -- -- -- -- -- -- --
70: 70 -- -- -- -- -- -- 77
";

#[test]
fn a_scan_table_lists_its_addresses() {
    assert_eq!(scan_i2c(TABLE), vec![0x14, 0x40, 0x48, 0x68, 0x70, 0x77]);
    assert_eq!(scan_i2c(TABLE), by_the_standard_library(TABLE));
}

#[test]
fn the_first_line_is_passed_over() {
    assert_eq!(scan_i2c("10: 14 15\n"), Vec::<u16>::new());
    assert_eq!(scan_i2c("10: 14 15"), Vec::<u16>::new());
    assert_eq!(scan_i2c(""), Vec::<u16>::new());
    assert_eq!(scan_i2c("\n"), Vec::<u16>::new());
    assert_eq!(scan_i2c("\n10: 14 15"), vec![0x14, 0x15]);
    assert_eq!(scan_i2c("\n\n10: 14 15\n\n"), vec![0x14, 0x15]);
}

#[test]
fn only_the_field_after_the_first_colon_counts() {
    assert_eq!(scan_i2c("\n14 15\n"), Vec::<u16>::new());
    assert_eq!(scan_i2c("\n11 22: 33 44 : 55 66\n"), vec![0x33, 0x44]);
    assert_eq!(scan_i2c("\n:33\n"), vec![0x33]);
    assert_eq!(scan_i2c("\n::33\n"), Vec::<u16>::new());
    assert_eq!(scan_i2c("\n10:33:\n20:44"), vec![0x33, 0x44]);
}

#[test]
fn tokens_are_hexadecimal_numbers_of_sixteen_bits() {
    assert_eq!(scan_i2c("\n: 0 f F ff FfFf 0000000014 +2a\n"), vec![0, 15, 15, 255, 0xFFFF, 0x14, 0x2A]);
    assert_eq!(
        scan_i2c("\n: -- UU 10000 -14 0x14 14h + ++1 1+ g 1ffff 1-2\n"),
        Vec::<u16>::new()
    );
    assert_eq!(scan_i2c("\n: 14 -- 15\n"), vec![0x14, 0x15]);
}

#[test]
fn white_space_of_every_kind_parts_the_tokens() {
    assert_eq!(scan_i2c("\n:\t14\r\n: 15\u{a0}16\u{2003}17\u{3000}18\u{85}19\u{b}1a\u{c}1b"),
        vec![0x14, 0x15, 0x16, 0x17, 0x18, 0x19, 0x1A, 0x1B]);
    // a zero-width space is no white space
    assert_eq!(scan_i2c("\n: 15\u{200b}16"), Vec::<u16>::new());
    assert_eq!(scan_i2c("\n: 15\u{200a}16"), vec![0x15, 0x16]);
}

#[test]
fn agrees_with_the_standard_library_on_odd_tables() {
    let tables = [
        "",
        "\n",
        "\r\n",
        "head\r\n10: 14\r\n20: 15\r",
        "head\n10: 14\r",
        "head\n10: 14\r\r\n20:\r15",
        "head\n10:14:15\n:\n::\n:::16\n",
        "head\n\u{a0}:\u{a0}14\u{a0}\n",
        "head\n10: 14 \u{e9} 15\n",
        "head\n10: ١٤ 15\n",
        "head\n10: 14\n20",
        "a:b\nc:d\ne:f",
        ":1\n:2\n:3\n",
        "x\n: +\n: +0\n: 00000000000000000000001\n: ffff\n: 10000\n: fffff\n",
    ];
    for table in tables {
        assert_eq!(scan_i2c(table), by_the_standard_library(table), "{:?}", table);
    }
}

#[test]
fn agrees_with_the_standard_library_on_generated_tables() {
    let alphabet: Vec<char> = "0123456789abcdefABCDEFgG+-: \t\r\n\u{b}\u{c}\u{85}\u{a0}\u{1680}\u{2000}\u{200a}\u{200b}\u{2028}\u{2029}\u{202f}\u{205f}\u{3000}\u{feff}xU:::\n\n  "
        .chars()
        .collect();
    let mut state: u64 = 0x2545_F491_4F6C_DD1D;
    for round in 0..4000 {
        let mut table = String::new();
        let len = round % 40;
        for _ in 0..len {
            state ^= state << 13;
            state ^= state >> 7;
            state ^= state << 17;
            table.push(alphabet[(state % alphabet.len() as u64) as usize]);
        }
        assert_eq!(scan_i2c(&table), by_the_standard_library(&table), "{:?}", table);
    }
}
