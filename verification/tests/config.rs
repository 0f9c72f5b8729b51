use solar_telemetry::config::{
    parse_baud, parse_id_filter, parse_ifaces, plan_id_filter, FilterPlan, DEFAULT_BAUD,
};
use solar_telemetry::text::{chars_of, parse_number, split_text, string_of, trim_text};

#[test]
fn baud_defaults_to_115200() {
    assert_eq!(DEFAULT_BAUD, 115_200);
    assert_eq!(parse_baud(None), 115_200);
    for bad in ["", "fast", "9600 ", " 9600", "-1", "4294967296", "0x10", "9_600", "+"] {
        assert_eq!(parse_baud(Some(bad)), 115_200, "{bad:?}");
        assert!(bad.parse::<u32>().is_err());
    }
}

#[test]
fn baud_is_read_as_decimal() {
    for good in ["9600", "115200", "0", "+57600", "4294967295", "0009600"] {
        assert_eq!(parse_baud(Some(good)), good.parse::<u32>().unwrap());
    }
}

#[test]
fn ifaces_are_trimmed_and_blanks_passed_over() {
    assert_eq!(parse_ifaces("can0,can1"), vec!["can0".to_string(), "can1".to_string()]);
    assert_eq!(parse_ifaces(" vcan0 ,, \tcan1\n,"), vec!["vcan0".to_string(), "can1".to_string()]);
    assert_eq!(parse_ifaces(""), Vec::<String>::new());
    assert_eq!(parse_ifaces(" , ,"), Vec::<String>::new());
}

#[test]
fn ifaces_agree_with_the_standard_library() {
    for list in ["a,b,c", ",a,", "a b , c", "\u{a0}x\u{3000},y\u{2003}", "ä, ö ,ü", "a,,b", "\u{b}z"] {
        let expected: Vec<String> = list
            .split(',')
            .map(str::trim)
            .filter(|s| !s.is_empty())
            .map(str::to_string)
            .collect();
        assert_eq!(parse_ifaces(list), expected);
    }
}

#[test]
fn white_space_is_that_of_the_standard_library() {
    for code in 0..=0x10FFFFu32 {
        if let Some(c) = char::from_u32(code) {
            let left: Vec<char> = vec![c, 'a', c];
            let expected: usize = if c.is_whitespace() { 1 } else { 3 };
            assert_eq!(trim_text(&left).len(), expected);
        }
    }
}

#[test]
fn filter_ids_are_hexadecimal() {
    assert_eq!(
        parse_id_filter("0xCF11E05,0xCF11F05,0x600,0x601"),
        vec![0x0CF1_1E05, 0x0CF1_1F05, 0x600, 0x601]
    );
    assert_eq!(parse_id_filter(" 0X1fF , 7ff ,ABC"), vec![0x1FF, 0x7FF, 0xABC]);
    assert_eq!(parse_id_filter("0x101,zz,0x202,"), vec![0x101, 0x202]);
    assert_eq!(parse_id_filter("100000000,FFFFFFFF"), vec![0xFFFF_FFFF]);
    assert_eq!(parse_id_filter("0x,0X,x1"), Vec::<u32>::new());
}

#[test]
fn filter_ids_agree_with_the_standard_library() {
    for spec in [
        "0x101,0x202",
        "0x0x10,0x0X0x1,0X0x1,00x1",
        "+5,+,++5,0x+7",
        " 1 2 ,3",
        "g,f,F",
        "",
        ",",
    ] {
        let expected: Vec<u32> = spec
            .split(',')
            .filter_map(|s| {
                let s = s.trim().trim_start_matches("0x").trim_start_matches("0X");
                u32::from_str_radix(s, 16).ok()
            })
            .collect();
        assert_eq!(parse_id_filter(spec), expected);
    }
}

#[test]
fn filter_plans() {
    assert_eq!(plan_id_filter(None), FilterPlan::ReceiveAll);
    assert_eq!(plan_id_filter(Some("")), FilterPlan::NoValidIds);
    assert_eq!(plan_id_filter(Some("zebra,0x")), FilterPlan::NoValidIds);
    assert_eq!(
        plan_id_filter(Some("0x101,202")),
        FilterPlan::Whitelist { ids: vec![0x101, 0x202], mask: 0x1FFF_FFFF }
    );
}

#[test]
fn texts_are_split_like_the_standard_library_does() {
    for text in ["", ",", "a,b", ",a,,b,", "ä,🚗"] {
        let expected: Vec<String> = text.split(',').map(str::to_string).collect();
        let pieces: Vec<String> = split_text(text, ',').iter().map(string_of).collect();
        assert_eq!(pieces, expected);
    }
}

#[test]
fn numbers_are_read_in_any_radix_up_to_sixteen() {
    for text in ["0", "1010", "zz", "ff", "7fffffff", "+77", "11111111111111111111111111111111111"] {
        for radix in 2..=16u32 {
            assert_eq!(
                parse_number(&chars_of(text), radix),
                u32::from_str_radix(text, radix).ok()
            );
        }
    }
}
