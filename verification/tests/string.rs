use js_string::JSString;

#[test]
fn from_conversion() {
    let a: JSString = "abc".into();
    let b: JSString = "abc".to_owned().into();
    assert_eq!(a, a);
    assert_eq!(a, b);
    assert_eq!(b, b);

    let c: JSString = "def".into();
    assert_ne!(a, c);

    let d: JSString = "abcdef".into();
    assert_ne!(a, d);

    let e: String = (&d).into();
    assert_eq!(e, "abcdef");
}

#[test]
fn equality() {
    let a: JSString = "abc".into();
    let s: String = "abc".to_owned();

    assert_eq!(a, "abc");
    assert_eq!(a, s);

    assert_eq!("abc", a);
    assert_eq!(s, a);
}

#[test]
fn len() {
    let a: JSString = "😄".into();

    assert_eq!(a.len(), 2);
    assert_eq!(a.to_string().len(), 4);

    let b: JSString = "∀𝑥∈ℝ,𝑥²≥0".into();

    assert_eq!(b.len(), 11);
    assert_eq!(b.to_string().len(), 24);
}

#[test]
fn is_empty() {
    assert!(JSString::from("").is_empty());
    assert!(!JSString::from("abc").is_empty());
}
