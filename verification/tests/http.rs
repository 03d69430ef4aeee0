use joya::http::{bearer, refused, url, HttpStatus};

#[test]
fn trailing_slashes_do_not_count() {
    assert_eq!(url("https://api.mistral.ai/v1/", "/audio/speech"), "https://api.mistral.ai/v1/audio/speech");
    assert_eq!(url("https://api.mistral.ai/v1", "/audio/speech"), "https://api.mistral.ai/v1/audio/speech");
}

#[test]
fn requests_are_authorized_by_key() {
    assert_eq!(bearer("k"), "Bearer k");
}

#[test]
fn success_is_the_two_hundreds() {
    for (code, success) in [(199, false), (200, true), (204, true), (299, true), (300, false)] {
        let status = HttpStatus { code, shown: String::new() };
        assert_eq!(status.is_success(), success);
    }
}

#[test]
fn a_refusal_tells_status_and_detail() {
    let status = HttpStatus { code: 401, shown: "401 Unauthorized".to_owned() };
    assert_eq!(refused("Cerebras translation", &status, "no key"), "Cerebras translation failed (401 Unauthorized): no key");
}
