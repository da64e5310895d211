use sui_data_loader::chars::{chars_of, compare_text, same_text, TextOrder};
use sui_data_loader::hex::{hex_encode, push_hex_number};
use sui_data_loader::query::{page, Page, QueryError};

#[test]
fn store_failure_is_reported_with_its_cause() {
    let e = QueryError::DbError("connection refused".to_string());
    assert_eq!(e.message(), "internal DB error: connection refused");
    assert_eq!(QueryError::DbError(String::new()).message(), "internal DB error: ");
    assert_eq!(e.clone(), e);
}

#[test]
fn page_keeps_limit_and_skip() {
    assert_eq!(page(10, 20), Page { limit: 10, skip: 20 });
    assert_eq!(page(0, 0), Page { limit: 0, skip: 0 });
    assert_eq!(page(i64::MAX as usize, 1), Page { limit: i64::MAX, skip: 1 });
}

#[test]
fn limit_beyond_the_signed_range_keeps_its_bits() {
    if usize::BITS == 64 {
        assert_eq!(page(usize::MAX, usize::MAX), Page { limit: -1, skip: u64::MAX });
        assert_eq!(page(1usize << 63, 0), Page { limit: i64::MIN, skip: 0 });
    }
}

#[test]
fn bytes_in_hexadecimal() {
    assert_eq!(hex_encode(&vec![]), "");
    assert_eq!(hex_encode(&vec![0]), "00");
    assert_eq!(hex_encode(&vec![0x0f, 0xf0, 0xff, 0x10, 0xa9]), "0ff0ff10a9");
    let all: Vec<u8> = (0..=255).collect();
    let expected: String = all.iter().map(|b| format!("{:02x}", b)).collect();
    assert_eq!(hex_encode(&all), expected);
}

#[test]
fn numbers_in_hexadecimal() {
    for n in [0u64, 1, 9, 10, 15, 16, 17, 255, 256, 0xdead_beef, u64::MAX] {
        let mut out = "v=".to_string();
        push_hex_number(&mut out, n);
        assert_eq!(out, format!("v={:x}", n));
    }
    let mut out = String::new();
    push_hex_number(&mut out, 3054);
    assert_eq!(out, "bee");
}

#[test]
fn texts_compare_as_strings_do() {
    let texts = ["", "a", "A", "ab", "b", "aa", "é", "e", "zz", "z", "\u{10ffff}", "\u{e000}", "日本", "日"];
    for a in texts {
        for b in texts {
            let expected = match a.cmp(b) {
                std::cmp::Ordering::Less => TextOrder::Before,
                std::cmp::Ordering::Equal => TextOrder::Same,
                std::cmp::Ordering::Greater => TextOrder::After,
            };
            assert_eq!(compare_text(a, b), expected, "{:?} {:?}", a, b);
            assert_eq!(same_text(a, b), a == b);
        }
    }
}

#[test]
fn characters_of_a_text() {
    assert_eq!(chars_of(""), Vec::<char>::new());
    assert_eq!(chars_of("a::é<日>"), vec!['a', ':', ':', 'é', '<', '日', '>']);
}
