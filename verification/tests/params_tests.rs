use xy_sign_relay::params::Params;
use xy_sign_relay::order::{key_order, KeyOrder};
use xy_sign_relay::verification::{concat_params, Verifier};
use xy_sign_relay::signer::Signer;

fn params(pairs: &[(&str, &str)]) -> Params {
    Params::from_pairs(pairs.iter().map(|(k, v)| (k.to_string(), v.to_string())).collect())
}

fn names(p: &Params) -> Vec<String> {
    (0..p.len()).map(|i| p.entry(i).0.clone()).collect()
}

#[test]
fn params_are_kept_in_ascii_order() {
    let p = params(&[("txamt", "100"), ("agetId", "A1"), ("custId", "C1"), ("Zeta", "z")]);
    assert_eq!(names(&p), vec!["Zeta", "agetId", "custId", "txamt"]);
}

#[test]
fn insertion_order_does_not_matter() {
    let a = params(&[("b", "2"), ("a", "1"), ("c", "3")]);
    let b = params(&[("c", "3"), ("b", "2"), ("a", "1")]);
    assert_eq!(concat_params(&a).unwrap(), concat_params(&b).unwrap());
    assert_eq!(names(&a), names(&b));
}

#[test]
fn insert_replaces_an_existing_value() {
    let mut p = params(&[("a", "1"), ("b", "2")]);
    p.insert("a".to_string(), "9".to_string());
    assert_eq!(p.len(), 2);
    assert_eq!(p.get("a").unwrap(), "9");
    assert_eq!(p.get("b").unwrap(), "2");
    assert!(p.get("c").is_none());
}

#[test]
fn later_pairs_win() {
    let p = params(&[("a", "1"), ("a", "2")]);
    assert_eq!(p.len(), 1);
    assert_eq!(p.get("a").unwrap(), "2");
}

#[test]
fn byte_order_of_names() {
    assert!(matches!(key_order("B", "a"), KeyOrder::Before));
    assert!(matches!(key_order("ab", "b"), KeyOrder::Before));
    assert!(matches!(key_order("a", "ab"), KeyOrder::Before));
    assert!(matches!(key_order("ab", "ab"), KeyOrder::Same));
    assert!(matches!(key_order("é", "z"), KeyOrder::After));
}

#[test]
fn without_removes_one_name() {
    let p = params(&[("a", "1"), ("sign", "xyz"), ("b", "2")]);
    let q = p.without("sign");
    assert_eq!(names(&q), vec!["a", "b"]);
    assert_eq!(p.len(), 3);
}

#[test]
fn concatenation_skips_sign_and_keeps_empty_values() {
    let p = params(&[("b", ""), ("a", "1"), ("sign", "s"), ("c", "x=y")]);
    assert_eq!(concat_params(&p).unwrap(), "a=1&b=&c=x=y");
}

#[test]
fn concatenation_of_nothing_is_empty() {
    assert_eq!(concat_params(&Params::new()).unwrap(), "");
    assert_eq!(concat_params(&params(&[("sign", "s")])).unwrap(), "");
}

#[test]
fn verify_string_ignores_the_signature() {
    let with_sign = params(&[("orderNo", "1"), ("sign", "abc"), ("txamt", "100")]);
    let without = params(&[("orderNo", "1"), ("txamt", "100")]);
    assert_eq!(Verifier::get_verify_string(&with_sign).unwrap(), "orderNo=1&txamt=100");
    assert_eq!(
        Verifier::get_verify_string(&with_sign).unwrap(),
        Verifier::get_verify_string(&without).unwrap()
    );
}

#[test]
fn sign_and_verify_strings_agree() {
    let p = params(&[("agetId", "A"), ("custId", "C"), ("orderNo", "O"), ("sign", "S")]);
    assert_eq!(Signer::get_sign_string(&p).unwrap(), Verifier::get_verify_string(&p).unwrap());
    assert_eq!(Signer::get_sign_string(&p).unwrap(), "agetId=A&custId=C&orderNo=O");
}
