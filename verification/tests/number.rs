use faiss_rabitq::number::parse_unsigned;

const SAMPLES: [&str; 22] = [
    "", "0", "7", "+7", "-7", "+", "-", "++1", "255", "256", "0255", "1_000", " 1", "1 ",
    "18446744073709551615", "18446744073709551616", "99999999999999999999x", "x9999999999999999999999",
    "٣", "12a", "4294967295", "4294967296",
];

#[test]
fn parsing_agrees_with_std_for_u8() {
    for s in SAMPLES {
        match (parse_unsigned(s, u8::MAX as u64), s.parse::<u8>()) {
            (Ok(a), Ok(b)) => assert_eq!(a, b as u64, "{s:?}"),
            (Err(a), Err(b)) => assert_eq!(a.message(), b.to_string(), "{s:?}"),
            (a, b) => panic!("{s:?}: {a:?} against {b:?}"),
        }
    }
}

#[test]
fn parsing_agrees_with_std_for_u32_and_u64() {
    for s in SAMPLES {
        match (parse_unsigned(s, u32::MAX as u64), s.parse::<u32>()) {
            (Ok(a), Ok(b)) => assert_eq!(a, b as u64, "{s:?}"),
            (Err(a), Err(b)) => assert_eq!(a.message(), b.to_string(), "{s:?}"),
            (a, b) => panic!("{s:?}: {a:?} against {b:?}"),
        }
        match (parse_unsigned(s, u64::MAX), s.parse::<u64>()) {
            (Ok(a), Ok(b)) => assert_eq!(a, b, "{s:?}"),
            (Err(a), Err(b)) => assert_eq!(a.message(), b.to_string(), "{s:?}"),
            (a, b) => panic!("{s:?}: {a:?} against {b:?}"),
        }
    }
}
