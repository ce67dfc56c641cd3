use aerx::numeric::{decimal_string, is_numeric_id};
use aerx::text::{contains_text, copy_texts, join_quoted, join_two_quoted, same_bytes, same_texts};

#[test]
fn numeric_ids_read_as_u128_does() {
    assert!(is_numeric_id("0"));
    assert!(is_numeric_id("42"));
    assert!(is_numeric_id("+42"));
    assert!(is_numeric_id("007"));
    assert!(is_numeric_id("340282366920938463463374607431768211455"));
    assert!(!is_numeric_id("340282366920938463463374607431768211456"));
    assert!(!is_numeric_id(""));
    assert!(!is_numeric_id("+"));
    assert!(!is_numeric_id("-1"));
    assert!(!is_numeric_id("4two"));
    assert!(!is_numeric_id(" 1"));
    assert!(!is_numeric_id("١٢"));
    for n in [0u128, 1, 9, 10, 1234, u128::MAX] {
        assert_eq!(n.to_string().parse::<u128>().is_ok(), is_numeric_id(&n.to_string()));
    }
}

#[test]
fn decimal_text_of_numbers() {
    assert_eq!(decimal_string(0), "0");
    assert_eq!(decimal_string(7), "7");
    assert_eq!(decimal_string(1234), "1234");
    assert_eq!(decimal_string(u128::MAX), u128::MAX.to_string());
    // A post number always reads back as that number, so it never looks like a username.
    for n in [0u128, 5, 100, 987_654_321] {
        let t = decimal_string(n);
        assert!(is_numeric_id(&t));
        assert_eq!(t.parse::<u128>().unwrap(), n);
    }
}

#[test]
fn memos_quote_their_accounts() {
    let a = "alice.near".to_string();
    let b = "bob.near".to_string();
    assert_eq!(join_quoted("Paid by ", &a, " to ", "Aerx"), "Paid by 'alice.near' to Aerx");
    assert_eq!(join_two_quoted("From ", &a, " to ", &b), "From 'alice.near' to 'bob.near'");
}

#[test]
fn text_list_helpers() {
    let v = vec!["a".to_string(), "b".to_string()];
    assert!(contains_text(&v, &"b".to_string()));
    assert!(!contains_text(&v, &"c".to_string()));
    let w = copy_texts(&v);
    assert_eq!(w, v);
    assert!(same_texts(&v, &w));
    assert!(!same_texts(&v, &vec!["a".to_string()]));
    assert!(same_bytes(&vec![1, 2, 3], &vec![1, 2, 3]));
    assert!(!same_bytes(&vec![1, 2, 3], &vec![1, 2, 4]));
}

