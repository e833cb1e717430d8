use zippyst::File;
use zippyst::Information;

#[test]
fn short_link_template() {
    let file = File {
        domain: "example.com".to_owned(),
        id: "abc".to_owned(),
        key: 42,
        name: "f .zip".to_owned(),
        encoded_name: "f%20.zip".to_owned(),
    };
    assert_eq!(file.link(), "https://example.com/d/abc/42/DOWNLOAD");
}

#[test]
fn full_link_template() {
    let file = File {
        domain: "example.com".to_owned(),
        id: "abc".to_owned(),
        key: 42,
        name: "f .zip".to_owned(),
        encoded_name: "f%20.zip".to_owned(),
    };
    assert_eq!(
        file.link_with_encoded_name(),
        "https://example.com/d/abc/42/f%20.zip"
    );
}

#[test]
fn negative_key_formats_with_sign() {
    let file = File {
        domain: "example.com".to_owned(),
        id: "x".to_owned(),
        key: -7,
        name: "n".to_owned(),
        encoded_name: "n".to_owned(),
    };
    assert_eq!(file.link(), "https://example.com/d/x/-7/DOWNLOAD");
}

#[test]
fn extreme_keys_format_exactly() {
    let file = File {
        domain: "d".to_owned(),
        id: "i".to_owned(),
        key: i64::MIN,
        name: "n".to_owned(),
        encoded_name: "n".to_owned(),
    };
    assert_eq!(file.link(), "https://d/d/i/-9223372036854775808/DOWNLOAD");
    let file2 = File {
        domain: "d".to_owned(),
        id: "i".to_owned(),
        key: i64::MAX,
        name: "n".to_owned(),
        encoded_name: "n".to_owned(),
    };
    assert_eq!(file2.link(), "https://d/d/i/9223372036854775807/DOWNLOAD");
}

#[test]
fn information_formats_like_a_descriptor() {
    let info = Information {
        domain: "example.com".to_owned(),
        id: "abc".to_owned(),
        key: 42,
        name: "f .zip".to_owned(),
        encoded_name: "f%20.zip".to_owned(),
    };
    assert_eq!(info.link(), "https://example.com/d/abc/42/DOWNLOAD");
    assert_eq!(info.full_link(), "https://example.com/d/abc/42/f%20.zip");
}
