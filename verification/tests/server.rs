use rustboy_core::server::{
    content_type, decode_escapes, escapes_cut_cleanly, percent_decode, request_decodes_cleanly,
    request_names, requested_names,
};

#[test]
fn main_percent_escapes_are_decoded() {
    assert_eq!(percent_decode("my%20game.gb"), "my game.gb");
    assert_eq!(percent_decode("plain.js"), "plain.js");
}

#[test]
fn root_percent_escapes_are_decoded() {
    assert_eq!(percent_decode("my%20game.gb"), "my game.gb");
    assert_eq!(percent_decode("plain.js"), "plain.js");
}

#[test]
fn main_wasm_gets_the_type_browsers_insist_on() {
    assert_eq!(content_type("a.wasm"), "application/wasm");
    assert_eq!(content_type("a.mystery"), "application/octet-stream");
}

#[test]
fn root_wasm_gets_the_type_browsers_insist_on() {
    assert_eq!(content_type("a.wasm"), "application/wasm");
    assert_eq!(content_type("a.mystery"), "application/octet-stream");
}

#[test]
fn an_escape_needs_two_hex_digits() {
    assert_eq!(decode_escapes(b"%4"), b"%4".to_vec());
    assert_eq!(decode_escapes(b"%zz1"), b"%zz1".to_vec());
    assert_eq!(decode_escapes(b"%41%42"), b"AB".to_vec());
    assert_eq!(decode_escapes(b"%%41"), b"%A".to_vec());
}

#[test]
fn a_plus_sign_and_one_digit_is_an_escape_too() {
    assert_eq!(decode_escapes(b"%+9"), vec![9u8]);
}

#[test]
fn a_dot_file_has_no_extension() {
    assert_eq!(content_type(".wasm"), "application/octet-stream");
    assert_eq!(content_type("web/.html"), "application/octet-stream");
    assert_eq!(content_type("web.d/index"), "application/octet-stream");
    assert_eq!(content_type("web/pkg/core.js"), "text/javascript; charset=utf-8");
    assert_eq!(content_type("photo.JPG"), "application/octet-stream");
    assert_eq!(content_type("photo.jpg"), "image/jpeg");
}

#[test]
fn the_file_name_passes_over_trailing_slashes_and_dots() {
    assert_eq!(content_type("x/a.html/"), "text/html; charset=utf-8");
    assert_eq!(content_type("x/a.js/."), "text/javascript; charset=utf-8");
    assert_eq!(content_type("x/a.css/./"), "text/css; charset=utf-8");
    assert_eq!(content_type("x/a.png//"), "image/png");
    assert_eq!(content_type("a.html/.."), "application/octet-stream");
    assert_eq!(content_type("."), "application/octet-stream");
    assert_eq!(content_type("/"), "application/octet-stream");
    assert_eq!(content_type(""), "application/octet-stream");
    assert_eq!(content_type("a."), "application/octet-stream");
    assert_eq!(content_type("./a.json"), "application/json");
}

#[test]
fn root_climbing_out_of_the_root_is_refused() {
    assert_eq!(request_names("/../../etc/passwd"), None);
    assert_eq!(request_names("/%2e%2e/secret"), None);
}

#[test]
fn main_climbing_out_of_the_root_is_refused() {
    assert_eq!(request_names("/../../etc/passwd"), None);
    assert_eq!(request_names("/%2e%2e/secret"), None);
}

#[test]
fn a_request_names_one_folder_level_per_segment() {
    assert_eq!(
        request_names("/pkg//my%20game.gb?x=1#top"),
        Some(vec!["pkg".to_string(), "my game.gb".to_string()])
    );
    assert_eq!(request_names("/"), Some(vec![]));
    assert_eq!(request_names("/./index.html"), None);
    assert_eq!(request_names("/a%2Fb/c"), Some(vec!["a".to_string(), "c".to_string()]));
    assert_eq!(request_names("/%2Fetc"), None);
    assert_eq!(request_names("/..x/.y"), Some(vec!["..x".to_string(), ".y".to_string()]));
}

#[test]
fn only_an_escape_that_cuts_a_character_is_refused() {
    assert!(escapes_cut_cleanly("my%20game"));
    assert!(!escapes_cut_cleanly("%a\u{e9}"));
    assert!(request_decodes_cleanly("/fine/%41"));
    assert!(!request_decodes_cleanly("/%a\u{e9}"));
    // A segment after one that is refused is never looked at.
    assert!(request_decodes_cleanly("/../%a\u{e9}"));
}

#[test]
fn decoding_undoes_escaping() {
    let bytes: Vec<u8> = vec![0x00, 0x41, 0x0A, 0x7F, 0xFF, 0x25];
    let mut escaped = Vec::new();
    for b in &bytes {
        escaped.extend_from_slice(format!("%{b:02X}").as_bytes());
    }
    assert_eq!(decode_escapes(&escaped), bytes);
}

#[test]
fn requested_names_tells_an_undecodable_target_apart() {
    assert_eq!(
        requested_names("/pkg/my%20game.gb"),
        Some(Some(vec!["pkg".to_string(), "my game.gb".to_string()]))
    );
    assert_eq!(requested_names("/%2e%2e/secret"), Some(None));
    assert_eq!(requested_names("/%a\u{e9}"), None);
    assert_eq!(requested_names("/../%a\u{e9}"), Some(None));
}
