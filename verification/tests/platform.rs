use deadlyze::platform::web_request_result;

#[test]
fn failed_client_quotes_its_error_output() {
    assert_eq!(
        web_request_result(false, b"ignored".to_vec(), b"access denied\r\n".to_vec()),
        Err("PowerShell request failed: access denied\r\n".to_string())
    );
    assert_eq!(
        web_request_result(false, Vec::new(), Vec::new()),
        Err("PowerShell request failed: ".to_string())
    );
}

#[test]
fn error_output_that_is_not_utf8_is_read_with_replacements() {
    let stderr = vec![b'a', 0xff, b'b', 0xc3];
    assert_eq!(
        web_request_result(false, Vec::new(), stderr),
        Err("PowerShell request failed: a\u{fffd}b\u{fffd}".to_string())
    );
}

#[test]
fn output_is_trimmed() {
    assert_eq!(
        web_request_result(true, b"  {\"broadcast_url\":\"u\"}\r\n".to_vec(), b"warning".to_vec()),
        Ok("{\"broadcast_url\":\"u\"}".to_string())
    );
    assert_eq!(web_request_result(true, b"a b".to_vec(), Vec::new()), Ok("a b".to_string()));
    assert_eq!(web_request_result(true, b" \t\n".to_vec(), Vec::new()), Ok(String::new()));
    assert_eq!(web_request_result(true, Vec::new(), Vec::new()), Ok(String::new()));
    assert_eq!(
        web_request_result(true, "\u{a0}h\u{e9}llo\u{3000}".as_bytes().to_vec(), Vec::new()),
        Ok("h\u{e9}llo".to_string())
    );
}

#[test]
fn output_that_is_not_utf8_fails() {
    let stdout = vec![b'o', b'k', 0xff];
    let expected = String::from_utf8(stdout.clone()).unwrap_err().to_string();
    assert_eq!(web_request_result(true, stdout, Vec::new()), Err(expected));
    assert!(web_request_result(true, vec![0xed, 0xa0, 0x80], Vec::new()).is_err());
    assert!(web_request_result(true, vec![0xc0, 0x80], Vec::new()).is_err());
    assert!(web_request_result(true, vec![0xf4, 0x90, 0x80, 0x80], Vec::new()).is_err());
}
