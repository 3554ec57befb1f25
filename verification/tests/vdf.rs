use diverter::util::OkIter;
use diverter::vdf::parser::Id;
use diverter::vdf::LoginUserVdfError;
use diverter::vdf::{
    parse, scan_parse, Document, LoginUser, ParseError, ScanError, ScanParseError, Scanner, Token,
    TokenType, Value,
};

fn scan_all<'a>(source: &'a [u8]) -> (Vec<Token<'a>>, Option<ScanError>) {
    let mut it = OkIter::new(Scanner::new(source));
    let mut tokens = Vec::new();
    while let Some(t) = it.next() {
        tokens.push(t);
    }
    (tokens, it.to_error().copied())
}

#[test]
fn scans_braces_and_strings() {
    let (tokens, err) = scan_all(b"{\"a\" \"b\"}");
    assert!(err.is_none());
    assert_eq!(tokens.len(), 4);
    assert_eq!(tokens[0].kind, TokenType::BraceLeft);
    assert_eq!(tokens[0].lexeme, b"{");
    assert_eq!(tokens[1].kind, TokenType::StringLiteral);
    assert_eq!(tokens[1].lexeme, b"\"a\"");
    assert_eq!(tokens[2].kind, TokenType::StringLiteral);
    assert_eq!(tokens[2].lexeme, b"\"b\"");
    assert_eq!(tokens[3].kind, TokenType::BraceRight);
    assert_eq!(tokens[3].lexeme, b"}");
}

#[test]
fn unterminated_string_stops_scanning_for_good() {
    let (tokens, err) = scan_all(b"\"abc");
    assert_eq!(tokens.len(), 0);
    assert_eq!(err, Some(ScanError::UnterminatedString));
    let mut it = OkIter::new(Scanner::new(b"x \"more\""));
    assert!(it.next().is_none());
    assert!(it.next().is_none());
    assert_eq!(it.to_error(), Some(&ScanError::UnexpectedToken(b'x')));
}

#[test]
fn rejects_stray_bytes() {
    let (tokens, err) = scan_all(b"\"k\" x");
    assert_eq!(tokens.len(), 1);
    assert_eq!(err, Some(ScanError::UnexpectedToken(b'x')));
}

#[test]
fn skips_ascii_whitespace() {
    let (tokens, err) = scan_all(b"  \t\r\n \"k\"\n\"v\"  ");
    assert!(err.is_none());
    assert_eq!(tokens.len(), 2);
    assert_eq!(tokens[0].lexeme, b"\"k\"");
    assert_eq!(tokens[1].lexeme, b"\"v\"");
}

#[test]
fn backslash_escapes_the_next_byte() {
    let (tokens, err) = scan_all(b"\"a\\\"b\"");
    assert!(err.is_none());
    assert_eq!(tokens.len(), 1);
    assert_eq!(tokens[0].kind, TokenType::StringLiteral);
    assert_eq!(tokens[0].lexeme, b"\"a\\\"b\"");
}

#[test]
fn trailing_backslash_is_unterminated() {
    let (tokens, err) = scan_all(b"\"ab\\");
    assert_eq!(tokens.len(), 0);
    assert_eq!(err, Some(ScanError::UnterminatedString));
}

#[test]
fn scanner_reports_exhaustion() {
    let mut s = Scanner::new(b"\"k\"");
    assert!(!s.is_finished());
    assert!(s.next_token().unwrap().is_ok());
    assert!(s.is_finished());
    assert!(s.next_token().is_none());
}

#[test]
fn parses_a_single_leaf_row() {
    let (tokens, err) = scan_all(b"\"k\" \"v\"");
    assert!(err.is_none());
    let doc = parse(&tokens).unwrap();
    assert_eq!(doc.0.len(), 1);
    assert_eq!(doc.0[0].parent, Id::root());
    assert_eq!(doc.0[0].key, b"k");
    assert_eq!(doc.0[0].value, Value::StringValue(b"v"));
}

#[test]
fn parses_a_nested_group() {
    let doc = scan_parse(b"\"outer\" { \"inner\" \"val\" }").unwrap();
    assert_eq!(doc.0.len(), 2);
    assert_eq!(doc.0[0].parent, Id::root());
    assert_eq!(doc.0[0].key, b"outer");
    let group = match doc.0[0].value {
        Value::Subkeys(id) => id,
        Value::StringValue(_) => panic!("expected a group row"),
    };
    assert_ne!(group, Id::root());
    assert_eq!(doc.0[1].parent, group);
    assert_eq!(doc.0[1].key, b"inner");
    assert_eq!(doc.0[1].value, Value::StringValue(b"val"));

    assert_eq!(doc.subkeys(Id::root(), b"outer"), Some(group));
    assert_eq!(doc.value_str(group, b"inner"), Some(&b"val"[..]));
}

#[test]
fn group_ids_do_not_collide() {
    let doc = scan_parse(b"\"a\" { \"x\" {} } \"b\" {}").unwrap();
    let a = doc.subkeys(Id::root(), b"a").unwrap();
    let b = doc.subkeys(Id::root(), b"b").unwrap();
    let x = doc.subkeys(a, b"x").unwrap();
    assert_ne!(a, b);
    assert_ne!(a, x);
    assert_ne!(b, x);
    assert_ne!(a, Id::root());
    assert_ne!(b, Id::root());
    assert_ne!(x, Id::root());
}

#[test]
fn unterminated_group_is_a_missing_value() {
    assert_eq!(
        scan_parse(b"\"a\" {"),
        Err(ScanParseError::ParseError(ParseError::ExpectedKeyValueAfterKeyName))
    );
}

#[test]
fn lone_right_brace_has_no_match() {
    assert_eq!(
        scan_parse(b"}"),
        Err(ScanParseError::ParseError(ParseError::UnexpectedBraceRightNoMatch))
    );
}

#[test]
fn lone_left_brace_has_no_name() {
    assert_eq!(
        scan_parse(b"{"),
        Err(ScanParseError::ParseError(ParseError::UnexpectedBraceLeftNoName))
    );
}

#[test]
fn key_without_value_is_rejected() {
    assert_eq!(
        scan_parse(b"\"k\""),
        Err(ScanParseError::ParseError(ParseError::ExpectedKeyValueAfterKeyName))
    );
}

#[test]
fn key_then_right_brace_at_top_level_is_rejected() {
    assert_eq!(
        scan_parse(b"\"k\" }"),
        Err(ScanParseError::ParseError(ParseError::UnexpectedBraceRightNoMatch))
    );
}

#[test]
fn empty_input_parses_to_an_empty_document() {
    let doc = scan_parse(b"  \n ").unwrap();
    assert_eq!(doc.0.len(), 0);
}

#[test]
fn parses_sibling_entries() {
    let doc = scan_parse(b"\"a\" \"1\" \"b\" \"2\"").unwrap();
    assert_eq!(doc.0.len(), 2);
    assert_eq!(doc.value_str(Id::root(), b"a"), Some(&b"1"[..]));
    assert_eq!(doc.value_str(Id::root(), b"b"), Some(&b"2"[..]));
}

#[test]
fn first_match_wins_in_queries() {
    let doc = scan_parse(b"\"k\" \"first\" \"k\" \"second\" \"k\" {}").unwrap();
    assert_eq!(doc.value_str(Id::root(), b"k"), Some(&b"first"[..]));
    // the first matching row is a leaf, so there is no group to report
    assert_eq!(doc.subkeys(Id::root(), b"k"), None);
}

#[test]
fn queries_are_case_sensitive_and_byte_exact() {
    let doc = scan_parse(b"\"Key\" \"v\"").unwrap();
    assert_eq!(doc.value_str(Id::root(), b"key"), None);
    assert_eq!(doc.value_str(Id::root(), b"Key"), Some(&b"v"[..]));
    assert_eq!(doc.value_str(Id::root(), b"Ke"), None);
}

#[test]
fn scan_error_takes_precedence_when_tokens_ran_out() {
    // The parser consumes both good tokens and then asks for more, so the
    // scanner's error is the real cause.
    assert_eq!(
        scan_parse(b"\"a\" \"b\" \"unterminated"),
        Err(ScanParseError::ScanError(ScanError::UnterminatedString))
    );
    // Same when the parser stops right after a key name.
    assert_eq!(
        scan_parse(b"\"a\" \"unterminated"),
        Err(ScanParseError::ScanError(ScanError::UnterminatedString))
    );
}

#[test]
fn early_parse_error_stands_despite_a_later_scan_error() {
    assert_eq!(
        scan_parse(b"} \"unterminated"),
        Err(ScanParseError::ParseError(ParseError::UnexpectedBraceRightNoMatch))
    );
}

#[test]
fn scan_error_before_any_token_wins() {
    assert_eq!(
        scan_parse(b"\"unterminated"),
        Err(ScanParseError::ScanError(ScanError::UnterminatedString))
    );
    assert_eq!(
        scan_parse(b"?"),
        Err(ScanParseError::ScanError(ScanError::UnexpectedToken(b'?')))
    );
}

fn users_fixture<'a>(source: &'a [u8]) -> Document<'a> {
    scan_parse(source).unwrap()
}

#[test]
fn extracts_one_record() {
    let doc = users_fixture(
        b"\"users\" { \"1\" { \"AccountName\" \"alice\" \"PersonaName\" \"Alice\" } }",
    );
    let users = LoginUser::from_vdf(&doc).unwrap();
    assert_eq!(users.len(), 1);
    let u = users[0].as_ref().unwrap();
    assert_eq!(u.username, b"alice");
    assert_eq!(u.nickname, b"Alice");
    assert!(!u.allow_auto_login);
}

#[test]
fn extracts_records_in_document_order() {
    let doc = users_fixture(
        b"\"users\" {
            \"1\" { \"AccountName\" \"alice\" \"PersonaName\" \"Alice\" }
            \"2\" { \"AccountName\" \"bob\" \"PersonaName\" \"Bob\" \"AllowAutoLogin\" \"1\" }
        }",
    );
    let users = LoginUser::from_vdf(&doc).unwrap();
    assert_eq!(users.len(), 2);
    assert_eq!(users[0].as_ref().unwrap().username, b"alice");
    let bob = users[1].as_ref().unwrap();
    assert_eq!(bob.username, b"bob");
    assert_eq!(bob.nickname, b"Bob");
    assert!(bob.allow_auto_login);
}

#[test]
fn allow_auto_login_is_false_only_for_literal_zero() {
    let doc = users_fixture(
        b"\"users\" {
            \"1\" { \"AccountName\" \"a01\" \"PersonaName\" \"A\" \"AllowAutoLogin\" \"0\" }
            \"2\" { \"AccountName\" \"b02\" \"PersonaName\" \"B\" \"AllowAutoLogin\" \"00\" }
            \"3\" { \"AccountName\" \"c03\" \"PersonaName\" \"C\" \"AllowAutoLogin\" \"no\" }
        }",
    );
    let users = LoginUser::from_vdf(&doc).unwrap();
    assert!(!users[0].as_ref().unwrap().allow_auto_login);
    assert!(users[1].as_ref().unwrap().allow_auto_login);
    assert!(users[2].as_ref().unwrap().allow_auto_login);
}

#[test]
fn missing_users_group_fails_extraction() {
    let doc = users_fixture(b"\"other\" {}");
    assert_eq!(
        LoginUser::from_vdf(&doc).err(),
        Some(LoginUserVdfError::ExpectedUsersSubkeys)
    );
    // a leaf row named "users" is not a group either
    let doc = users_fixture(b"\"users\" \"not-a-group\"");
    assert_eq!(
        LoginUser::from_vdf(&doc).err(),
        Some(LoginUserVdfError::ExpectedUsersSubkeys)
    );
}

#[test]
fn one_bad_record_does_not_hide_the_others() {
    let doc = users_fixture(
        b"\"users\" {
            \"1\" \"not-a-group\"
            \"2\" { \"PersonaName\" \"B\" }
            \"3\" { \"AccountName\" \"c03\" }
            \"4\" { \"AccountName\" \"d04\" \"PersonaName\" \"D\" }
        }",
    );
    let users = LoginUser::from_vdf(&doc).unwrap();
    assert_eq!(users.len(), 4);
    assert_eq!(users[0], Err(LoginUserVdfError::ExpectedUserEntryToBeSubkeys));
    assert_eq!(users[1], Err(LoginUserVdfError::ExpectedAccountNameKey));
    assert_eq!(users[2], Err(LoginUserVdfError::ExpectedPersonaNameKey));
    assert_eq!(users[3].as_ref().unwrap().username, b"d04");
}
