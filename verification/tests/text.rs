use rust_o11y::text::{place_text, push_decimal, push_signed_decimal, Placement};
use rust_o11y::textmap::TextMap;

fn expected(a: &str, b: &str) -> Placement {
    if a < b {
        Placement::Before
    } else if a == b {
        Placement::Same
    } else {
        Placement::After
    }
}

#[test]
fn text_is_ordered_as_str_is() {
    let words = [
        "", "a", "ab", "abc", "abd", "b", "B", "a{", "a_b", "Z", "z", "é", "e", "日本", "日", "\u{10FFFF}",
        "requests_total", "requests", "0", "10", "9",
    ];
    for a in words {
        for b in words {
            assert_eq!(place_text(a, b), expected(a, b), "{:?} {:?}", a, b);
        }
    }
}

#[test]
fn prefix_comes_first() {
    assert_eq!(place_text("http", "http_requests"), Placement::Before);
    assert_eq!(place_text("http_requests", "http"), Placement::After);
    assert_eq!(place_text("", ""), Placement::Same);
    assert_eq!(place_text("", "a"), Placement::Before);
}

#[test]
fn decimal_of_naturals() {
    for n in [0u128, 1, 9, 10, 11, 99, 100, 101, 1000, 65535, u64::MAX as u128, u128::MAX] {
        let mut out = String::from("x=");
        push_decimal(&mut out, n);
        assert_eq!(out, format!("x={}", n));
    }
}

#[test]
fn decimal_of_integers() {
    for n in [0i128, 1, -1, 9, -9, 10, -10, 300, -300, i64::MIN as i128, i64::MAX as i128, i128::MIN, i128::MAX] {
        let mut out = String::new();
        push_signed_decimal(&mut out, n);
        assert_eq!(out, format!("{}", n));
    }
}

#[test]
fn decimal_exact_values() {
    let mut out = String::new();
    push_decimal(&mut out, 503);
    assert_eq!(out, "503");
    let mut out = String::new();
    push_signed_decimal(&mut out, -42);
    assert_eq!(out, "-42");
    let mut out = String::from("a");
    push_decimal(&mut out, 0);
    push_signed_decimal(&mut out, 0);
    assert_eq!(out, "a00");
}

#[test]
fn text_map_keeps_key_order_however_filled() {
    let mut a = TextMap::new();
    a.insert("method", "GET");
    a.insert("endpoint", "/");
    a.insert("status", "200");
    let mut b = TextMap::new();
    b.insert("status", "200");
    b.insert("method", "GET");
    b.insert("endpoint", "/");
    for map in [&a, &b] {
        assert_eq!(map.len(), 3);
        assert_eq!(map.key_at(0), "endpoint");
        assert_eq!(map.value_at(0), "/");
        assert_eq!(map.key_at(1), "method");
        assert_eq!(map.value_at(1), "GET");
        assert_eq!(map.key_at(2), "status");
        assert_eq!(map.value_at(2), "200");
    }
    assert_eq!(a.place(&b), Placement::Same);
}

#[test]
fn text_map_insert_overwrites() {
    let mut map = TextMap::new();
    assert_eq!(map.len(), 0);
    assert_eq!(map.get("method"), None);
    map.insert("method", "GET");
    map.insert("method", "POST");
    assert_eq!(map.len(), 1);
    assert_eq!(map.get("method").map(|s| s.as_str()), Some("POST"));
    assert_eq!(map.get("metho"), None);
    assert_eq!(map.get("method2"), None);
    assert_eq!(map.find("method"), (0, true));
    assert_eq!(map.find("a"), (0, false));
    assert_eq!(map.find("z"), (1, false));
}

#[test]
fn text_map_duplicate_is_equal_and_separate() {
    let mut map = TextMap::new();
    map.insert("b", "2");
    map.insert("a", "1");
    let mut copy = map.duplicate();
    assert_eq!(copy.place(&map), Placement::Same);
    copy.insert("a", "changed");
    assert_eq!(map.get("a").map(|s| s.as_str()), Some("1"));
    assert_eq!(copy.get("a").map(|s| s.as_str()), Some("changed"));
}

#[test]
fn text_maps_are_ordered_entry_by_entry() {
    let empty = TextMap::new();
    let mut a1 = TextMap::new();
    a1.insert("a", "1");
    let mut a2 = TextMap::new();
    a2.insert("a", "2");
    let mut a1b = TextMap::new();
    a1b.insert("a", "1");
    a1b.insert("b", "0");
    let mut b0 = TextMap::new();
    b0.insert("b", "0");
    let order = [&empty, &a1, &a1b, &a2, &b0];
    for i in 0..order.len() {
        for j in 0..order.len() {
            let want = if i < j {
                Placement::Before
            } else if i == j {
                Placement::Same
            } else {
                Placement::After
            };
            assert_eq!(order[i].place(order[j]), want, "{} {}", i, j);
        }
    }
}
