use access_filter::format::Format;
use access_filter::format::FormatError;
use access_filter::format::FormatText;

fn compile_ok(s: &str) -> Vec<FormatText> {
    Format::compile(s).expect("format should compile").0
}

#[test]
fn compiles_plain_literal() {
    let toks = compile_ok("hello");
    assert_eq!(toks, vec![FormatText::Str("hello".to_string())]);
}

#[test]
fn compiles_empty_string() {
    let toks = compile_ok("");
    assert_eq!(toks, Vec::<FormatText>::new());
}

#[test]
fn compiles_simple_codes() {
    let toks = compile_ok("%a %t %r %s %b %U %T %D");
    assert_eq!(
        toks,
        vec![
            FormatText::RemoteAddr,
            FormatText::Str(" ".to_string()),
            FormatText::RequestTime,
            FormatText::Str(" ".to_string()),
            FormatText::RequestLine,
            FormatText::Str(" ".to_string()),
            FormatText::ResponseStatus,
            FormatText::Str(" ".to_string()),
            FormatText::ResponseSize,
            FormatText::Str(" ".to_string()),
            FormatText::UrlPath,
            FormatText::Str(" ".to_string()),
            FormatText::Time,
            FormatText::Str(" ".to_string()),
            FormatText::TimeMillis,
        ]
    );
}

#[test]
fn compiles_percent_escape() {
    let toks = compile_ok("100%%");
    assert_eq!(
        toks,
        vec![FormatText::Str("100".to_string()), FormatText::Percent]
    );
}

#[test]
fn capital_p_is_kept_as_literal() {
    let toks = compile_ok("%P");
    assert_eq!(toks, vec![FormatText::Str("P".to_string())]);
}

#[test]
fn unknown_directive_keeps_text_verbatim() {
    let toks = compile_ok("%zx");
    assert_eq!(
        toks,
        vec![FormatText::Str(String::new()), FormatText::Str("zx".to_string())]
    );
}

#[test]
fn trailing_percent_compiles_to_empty_literal() {
    let toks = compile_ok("abc%");
    assert_eq!(
        toks,
        vec![FormatText::Str("abc".to_string()), FormatText::Str(String::new())]
    );
}

#[test]
fn compiles_request_and_response_headers() {
    let toks = compile_ok("%{User-Agent}i%{Content-Type}o");
    assert_eq!(
        toks,
        vec![
            FormatText::RequestHeader("User-Agent".to_string()),
            FormatText::ResponseHeader("Content-Type".to_string()),
        ]
    );
}

#[test]
fn compiles_environment_directive() {
    let toks = compile_ok("%{HOME}e");
    assert_eq!(toks, vec![FormatText::EnvironHeader("HOME".to_string())]);
}

#[test]
fn compiles_custom_fields() {
    let toks = compile_ok("%{one}xi%{two}xo");
    assert_eq!(
        toks,
        vec![
            FormatText::CustomRequest("one".to_string()),
            FormatText::CustomResponse("two".to_string()),
        ]
    );
}

#[test]
fn compiles_trusted_address() {
    let toks = compile_ok("%{r}a");
    assert_eq!(toks, vec![FormatText::RealIpRemoteAddr]);
}

#[test]
fn rejects_unsupported_address_key() {
    let r = Format::compile("%{x}a");
    assert_eq!(r.unwrap_err(), FormatError::UnsupportedAddressKey);
}

#[test]
fn malformed_brace_stays_literal() {
    let toks = compile_ok("%{oops");
    assert_eq!(
        toks,
        vec![FormatText::Str(String::new()), FormatText::Str("{oops".to_string())]
    );
}

#[test]
fn brace_with_bad_code_stays_literal() {
    let toks = compile_ok("%{name}z");
    assert_eq!(
        toks,
        vec![FormatText::Str(String::new()), FormatText::Str("{name}z".to_string())]
    );
}

#[test]
fn compiles_default_style_format() {
    let toks = compile_ok("%a \"%r\" %s %b \"%{Referer}i\" \"%{User-Agent}i\" %T");
    assert_eq!(
        toks,
        vec![
            FormatText::RemoteAddr,
            FormatText::Str(" \"".to_string()),
            FormatText::RequestLine,
            FormatText::Str("\" ".to_string()),
            FormatText::ResponseStatus,
            FormatText::Str(" ".to_string()),
            FormatText::ResponseSize,
            FormatText::Str(" \"".to_string()),
            FormatText::RequestHeader("Referer".to_string()),
            FormatText::Str("\" \"".to_string()),
            FormatText::RequestHeader("User-Agent".to_string()),
            FormatText::Str("\" ".to_string()),
            FormatText::Time,
        ]
    );
}

#[test]
fn compiles_bootstrap_format() {
    let toks = compile_ok("%{r}a \"%r\" %s %b %D");
    assert_eq!(
        toks,
        vec![
            FormatText::RealIpRemoteAddr,
            FormatText::Str(" \"".to_string()),
            FormatText::RequestLine,
            FormatText::Str("\" ".to_string()),
            FormatText::ResponseStatus,
            FormatText::Str(" ".to_string()),
            FormatText::ResponseSize,
            FormatText::Str(" ".to_string()),
            FormatText::TimeMillis,
        ]
    );
}

#[test]
fn duplicate_copies_every_token() {
    let f = Format::compile("%{r}a \"%r\" %s %b %D").unwrap();
    let g = f.duplicate();
    assert_eq!(f.0, g.0);
}

#[test]
fn unicode_literals_survive() {
    let toks = compile_ok("héllo→%s");
    assert_eq!(
        toks,
        vec![
            FormatText::Str("héllo→".to_string()),
            FormatText::ResponseStatus,
        ]
    );
}

#[test]
fn header_keys_may_hold_digits_and_underscores() {
    let toks = compile_ok("%{X-Req_2}i");
    assert_eq!(toks, vec![FormatText::RequestHeader("X-Req_2".to_string())]);
}
