use clientapi_pmg::apis::urlencode;

#[test]
fn urlencode_keeps_unreserved_characters() {
    assert_eq!(urlencode("AZaz09*-._"), "AZaz09*-._");
}

#[test]
fn urlencode_empty_string() {
    assert_eq!(urlencode(""), "");
}

#[test]
fn urlencode_space_becomes_plus() {
    assert_eq!(urlencode("a b"), "a+b");
}

#[test]
fn urlencode_reserved_characters_are_percent_encoded() {
    assert_eq!(urlencode("user@pmg/x?y=1&z"), "user%40pmg%2Fx%3Fy%3D1%26z");
    assert_eq!(urlencode("~+%"), "%7E%2B%25");
}

#[test]
fn urlencode_non_ascii_uses_utf8_bytes() {
    assert_eq!(urlencode("é"), "%C3%A9");
    assert_eq!(urlencode("€"), "%E2%82%AC");
}

#[test]
fn urlencode_of_concatenation_is_concatenation_of_encodings() {
    let a = "root@pam";
    let b = " ü/x";
    let joined = format!("{a}{b}");
    assert_eq!(urlencode(&joined), format!("{}{}", urlencode(a), urlencode(b)));
}

#[test]
fn urlencode_output_is_url_safe() {
    let encoded = urlencode("a\tb\nc\"d<e>f{g}|h\\i^j`k");
    assert!(encoded
        .chars()
        .all(|c| c.is_ascii_alphanumeric() || "*-._+%".contains(c)));
    assert_eq!(encoded, "a%09b%0Ac%22d%3Ce%3Ef%7Bg%7D%7Ch%5Ci%5Ej%60k");
}

#[test]
fn urlencode_distinct_inputs_give_distinct_outputs() {
    assert_ne!(urlencode("a b"), urlencode("a+b"));
    assert_ne!(urlencode("%20"), urlencode(" "));
}
