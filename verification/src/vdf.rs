//! Processing of the nested key-value text format ("VDF") that Steam uses to
//! persist structured client-side records, such as previously-logged-in
//! accounts.
//!
//! [`Scanner`] lexes raw bytes into tokens, [`parse`] builds a flat,
//! index-addressed [`Document`] from them, [`scan_parse`] combines the two,
//! and [`LoginUser::from_vdf`] extracts the account records the rest of the
//! crate cares about.

pub mod parser;
pub mod scanner;

pub use parser::{parse, Document, Error as ParseError, Id as ExprId, KeyValue, Value};
pub use scanner::{Error as ScanError, Scanner, Token, TokenType};

use crate::util::OkIter;
use parser::{
    spec_parse, spec_subkeys, spec_value_str, token_models, wf_tokens, Id, SpecKeyValue, SpecValue,
};
use scanner::{scan_step, ScanStep, SpecToken};
use vstd::prelude::*;

verus! {

/// All tokens from position `i` of `src` up to the end of the input or the
/// scanner's first error, together with that error.
pub open spec fn spec_scan(src: Seq<u8>, i: int) -> (Seq<SpecToken>, Option<ScanError>)
    decreases src.len() - i,
{
    match scan_step(src, i) {
        ScanStep::End => (seq![], None),
        ScanStep::Tok { kind, lo, hi } => {
            if i < hi <= src.len() {
                let rest = spec_scan(src, hi);
                (seq![SpecToken { kind, lexeme: src.subrange(lo, hi) }] + rest.0, rest.1)
            } else {
                // never happens: a token ends within the source and past its
                // start; the arm keeps the recursion visibly well-founded
                (seq![], None)
            }
        },
        ScanStep::Fail { error, next } => (seq![], Some(error)),
    }
}

/// A scan or parse error from [`scan_parse`].
#[derive(Debug, Clone, Copy, PartialEq, Eq, Structural)]
pub enum ScanParseError {
    /// The scanner rejected the input.
    ScanError(ScanError),
    /// The parser rejected the token stream.
    ParseError(ParseError),
}

/// What [`scan_parse`] yields on `src`.
///
/// A scan error is surfaced whenever the parser consumed every token the
/// scanner produced before failing: parsing then either succeeded on the
/// truncated stream or reports only that the tokens ran out, and the scan
/// error is the real cause. A parse error at an earlier token stands on its
/// own.
pub open spec fn spec_scan_parse(src: Seq<u8>) -> Result<Seq<SpecKeyValue>, ScanParseError> {
    let scanned = spec_scan(src, 0);
    match scanned.1 {
        None => match spec_parse(scanned.0) {
            Ok(rows) => Ok(rows),
            Err(e) => Err(ScanParseError::ParseError(e)),
        },
        Some(scan_err) => match spec_parse(scanned.0) {
            Ok(_) => Err(ScanParseError::ScanError(scan_err)),
            Err(ParseError::ExpectedKeyValueAfterKeyName) => Err(
                ScanParseError::ScanError(scan_err),
            ),
            Err(e) => Err(ScanParseError::ParseError(e)),
        },
    }
}

/// Scans and parses `source` into a [`Document`], per [`spec_scan_parse`].
/// A returned document satisfies the document invariant.
pub fn scan_parse<'a>(source: &'a [u8]) -> (r: Result<Document<'a>, ScanParseError>)
    ensures
        match (r, spec_scan_parse(source@)) {
            (Ok(doc), Ok(rows)) => doc@ == rows && parser::wf_document(doc@),
            (Err(e1), Err(e2)) => e1 == e2,
            _ => false,
        },
{
    let ghost src = source@;
    let mut tokens = OkIter::new(Scanner::new(source));
    let mut toks: Vec<Token<'a>> = Vec::new();
    proof {
        assert(token_models(toks@) =~= Seq::<SpecToken>::empty());
    }
    loop
        invariant_except_break
            tokens.spec_error() is None,
            tokens.spec_inner().current <= src.len(),
            spec_scan(src, 0).0 == token_models(toks@) + spec_scan(
                src,
                tokens.spec_inner().current as int,
            ).0,
            spec_scan(src, 0).1 == spec_scan(src, tokens.spec_inner().current as int).1,
        invariant
            tokens.spec_inner().source@ == src,
            wf_tokens(token_models(toks@)),
        ensures
            tokens.spec_inner().source@ == src,
            wf_tokens(token_models(toks@)),
            spec_scan(src, 0).0 == token_models(toks@),
            spec_scan(src, 0).1 == tokens.spec_error(),
        decreases src.len() - tokens.spec_inner().current,
    {
        let ghost cur0 = tokens.spec_inner().current as int;
        let ghost toks0 = toks@;
        match tokens.next() {
            None => {
                proof {
                    assert(token_models(toks@) + Seq::<SpecToken>::empty() =~= token_models(
                        toks@,
                    ));
                }
                break ;
            },
            Some(t) => {
                toks.push(t);
                proof {
                    match scan_step(src, cur0) {
                        ScanStep::Tok { kind, lo, hi } => {
                            let rest = spec_scan(src, hi);
                            assert(token_models(toks@) =~= token_models(toks0).push(t@));
                            assert(token_models(toks0).push(t@) + rest.0 =~= token_models(toks0)
                                + (seq![t@] + rest.0));
                            assert forall|k: int|
                                0 <= k < token_models(toks@).len() && (#[trigger] token_models(
                                toks@,
                            )[k]).kind == TokenType::StringLiteral implies token_models(
                                toks@,
                            )[k].lexeme.len() >= 2 by {
                                if k < token_models(toks0).len() {
                                    assert(token_models(toks@)[k] == token_models(toks0)[k]);
                                } else {
                                    assert(token_models(toks@)[k] == t@);
                                }
                            }
                        },
                        _ => {
                            assert(false);
                        },
                    }
                }
            },
        }
    }
    let result = parse(toks.as_slice());
    match tokens.to_error() {
        Some(e) => match result {
            Ok(_) => Err(ScanParseError::ScanError(*e)),
            Err(pe) => {
                if pe == ParseError::ExpectedKeyValueAfterKeyName {
                    Err(ScanParseError::ScanError(*e))
                } else {
                    Err(ScanParseError::ParseError(pe))
                }
            },
        },
        None => match result {
            Ok(doc) => Ok(doc),
            Err(pe) => Err(ScanParseError::ParseError(pe)),
        },
    }
}

/// The top-level key under which login records sit: `"users"`.
pub open spec fn users_key() -> Seq<u8> {
    seq![117u8, 115u8, 101u8, 114u8, 115u8]
}

/// The per-user key holding the account name: `"AccountName"`.
pub open spec fn account_name_key() -> Seq<u8> {
    seq![65u8, 99u8, 99u8, 111u8, 117u8, 110u8, 116u8, 78u8, 97u8, 109u8, 101u8]
}

/// The per-user key holding the displayed nickname: `"PersonaName"`.
pub open spec fn persona_name_key() -> Seq<u8> {
    seq![80u8, 101u8, 114u8, 115u8, 111u8, 110u8, 97u8, 78u8, 97u8, 109u8, 101u8]
}

/// The per-user key telling whether automatic login is allowed:
/// `"AllowAutoLogin"`.
pub open spec fn allow_auto_login_key() -> Seq<u8> {
    seq![
        65u8,
        108u8,
        108u8,
        111u8,
        119u8,
        65u8,
        117u8,
        116u8,
        111u8,
        76u8,
        111u8,
        103u8,
        105u8,
        110u8,
    ]
}

/// The bytes of [`users_key`].
fn users_key_bytes() -> (r: [u8; 5])
    ensures
        r@ == users_key(),
{
    let r: [u8; 5] = [117, 115, 101, 114, 115];
    proof {
        assert(r@ =~= users_key());
    }
    r
}

/// The bytes of [`account_name_key`].
fn account_name_key_bytes() -> (r: [u8; 11])
    ensures
        r@ == account_name_key(),
{
    let r: [u8; 11] = [65, 99, 99, 111, 117, 110, 116, 78, 97, 109, 101];
    proof {
        assert(r@ =~= account_name_key());
    }
    r
}

/// The bytes of [`persona_name_key`].
fn persona_name_key_bytes() -> (r: [u8; 11])
    ensures
        r@ == persona_name_key(),
{
    let r: [u8; 11] = [80, 101, 114, 115, 111, 110, 97, 78, 97, 109, 101];
    proof {
        assert(r@ =~= persona_name_key());
    }
    r
}

/// The bytes of [`allow_auto_login_key`].
fn allow_auto_login_key_bytes() -> (r: [u8; 14])
    ensures
        r@ == allow_auto_login_key(),
{
    let r: [u8; 14] = [65, 108, 108, 111, 119, 65, 117, 116, 111, 76, 111, 103, 105, 110];
    proof {
        assert(r@ =~= allow_auto_login_key());
    }
    r
}

/// A previously-logged-in account, as recorded in the login-users file.
#[derive(Debug, Clone, Copy, PartialEq, Eq)]
pub struct LoginUser<'a> {
    /// The account's username.
    pub username: &'a [u8],
    /// The account's displayed nickname.
    pub nickname: &'a [u8],
    /// Whether the account may be logged into automatically.
    pub allow_auto_login: bool,
}

/// The mathematical value of a [`LoginUser`].
pub struct SpecLoginUser {
    /// The username bytes.
    pub username: Seq<u8>,
    /// The nickname bytes.
    pub nickname: Seq<u8>,
    /// Whether automatic login is allowed.
    pub allow_auto_login: bool,
}

impl View for LoginUser<'_> {
    type V = SpecLoginUser;

    open spec fn view(&self) -> SpecLoginUser {
        SpecLoginUser {
            username: self.username@,
            nickname: self.nickname@,
            allow_auto_login: self.allow_auto_login,
        }
    }
}

/// An error reading [`LoginUser`]s from a parsed login-users document.
#[derive(Debug, Clone, Copy, PartialEq, Eq, Structural)]
pub enum LoginUserVdfError {
    /// No top-level `"users"` group exists.
    ExpectedUsersSubkeys,
    /// A user entry lacks the `"AccountName"` key.
    ExpectedAccountNameKey,
    /// A user entry lacks the `"PersonaName"` key.
    ExpectedPersonaNameKey,
    /// A direct child of the `"users"` group is not itself a group.
    ExpectedUserEntryToBeSubkeys,
}

/// Whether a user group allows automatic login: the `"AllowAutoLogin"` value
/// must be present and differ from the literal `"0"`; a missing value means
/// no.
pub open spec fn spec_allow_auto_login(rows: Seq<SpecKeyValue>, uid: Id) -> bool {
    match spec_value_str(rows, uid, allow_auto_login_key()) {
        Some(v) => v != seq![48u8],
        None => false,
    }
}

/// The login record of one child row of the `"users"` group: the row must be
/// a group holding at least an account name and a nickname.
pub open spec fn spec_extract_user(rows: Seq<SpecKeyValue>, row: SpecKeyValue) -> Result<
    SpecLoginUser,
    LoginUserVdfError,
> {
    match row.value {
        SpecValue::Subkeys(uid) => match spec_value_str(rows, uid, account_name_key()) {
            None => Err(LoginUserVdfError::ExpectedAccountNameKey),
            Some(username) => match spec_value_str(rows, uid, persona_name_key()) {
                None => Err(LoginUserVdfError::ExpectedPersonaNameKey),
                Some(nickname) => Ok(
                    SpecLoginUser {
                        username,
                        nickname,
                        allow_auto_login: spec_allow_auto_login(rows, uid),
                    },
                ),
            },
        },
        SpecValue::StringValue(_) => Err(LoginUserVdfError::ExpectedUserEntryToBeSubkeys),
    }
}

/// One extraction result per direct child of the `"users"` group, in document
/// order, starting at row `i`.
pub open spec fn spec_extract_from(rows: Seq<SpecKeyValue>, users: Id, i: int) -> Seq<
    Result<SpecLoginUser, LoginUserVdfError>,
>
    decreases rows.len() - i,
{
    if i < 0 || i >= rows.len() {
        seq![]
    } else if rows[i].parent == users {
        seq![spec_extract_user(rows, rows[i])] + spec_extract_from(rows, users, i + 1)
    } else {
        spec_extract_from(rows, users, i + 1)
    }
}

/// What [`LoginUser::from_vdf`] yields: one record or error per child of the
/// top-level `"users"` group, or an error when that group is missing.
pub open spec fn spec_login_users(rows: Seq<SpecKeyValue>) -> Result<
    Seq<Result<SpecLoginUser, LoginUserVdfError>>,
    LoginUserVdfError,
> {
    match spec_subkeys(rows, Id::spec_root(), users_key()) {
        None => Err(LoginUserVdfError::ExpectedUsersSubkeys),
        Some(users) => Ok(spec_extract_from(rows, users, 0)),
    }
}

/// The model of one extraction result.
pub open spec fn login_user_model_one<'a>(x: Result<LoginUser<'a>, LoginUserVdfError>) -> Result<
    SpecLoginUser,
    LoginUserVdfError,
> {
    match x {
        Ok(u) => Ok(u@),
        Err(e) => Err(e),
    }
}

/// The models of a vector of extraction results.
pub open spec fn login_user_models<'a>(
    rs: Seq<Result<LoginUser<'a>, LoginUserVdfError>>,
) -> Seq<Result<SpecLoginUser, LoginUserVdfError>> {
    rs.map_values(|x: Result<LoginUser<'a>, LoginUserVdfError>| login_user_model_one(x))
}

/// Reads the login record of one child row of the `"users"` group.
fn extract_user<'a>(document: &Document<'a>, row: KeyValue<'a>) -> (r: Result<
    LoginUser<'a>,
    LoginUserVdfError,
>)
    ensures
        login_user_model_one(r) == spec_extract_user(document@, row@),
{
    let uid = match row.value {
        Value::Subkeys(uid) => uid,
        Value::StringValue(_) => {
            return Err(LoginUserVdfError::ExpectedUserEntryToBeSubkeys);
        },
    };
    let akey = account_name_key_bytes();
    let username = match document.value_str(uid, akey.as_slice()) {
        Some(u) => u,
        None => {
            return Err(LoginUserVdfError::ExpectedAccountNameKey);
        },
    };
    let pkey = persona_name_key_bytes();
    let nickname = match document.value_str(uid, pkey.as_slice()) {
        Some(nk) => nk,
        None => {
            return Err(LoginUserVdfError::ExpectedPersonaNameKey);
        },
    };
    let lkey = allow_auto_login_key_bytes();
    let allow_auto_login = match document.value_str(uid, lkey.as_slice()) {
        Some(v) => {
            let zero: [u8; 1] = [48];
            proof {
                assert(zero@ =~= seq![48u8]);
            }
            !crate::util::bytes_eq(v, zero.as_slice())
        },
        None => false,
    };
    Ok(LoginUser { username, nickname, allow_auto_login })
}

impl<'a> LoginUser<'a> {
    /// Reads the login records out of a parsed login-users document, one
    /// result per direct child of the top-level `"users"` group, in document
    /// order; a bad record does not hide the others.
    pub fn from_vdf(document: &Document<'a>) -> (r: Result<
        Vec<Result<LoginUser<'a>, LoginUserVdfError>>,
        LoginUserVdfError,
    >)
        ensures
            match (r, spec_login_users(document@)) {
                (Ok(v), Ok(models)) => login_user_models(v@) == models,
                (Err(e1), Err(e2)) => e1 == e2,
                _ => false,
            },
    {
        let ukey = users_key_bytes();
        let users = match document.subkeys(Id::root(), ukey.as_slice()) {
            Some(u) => u,
            None => {
                return Err(LoginUserVdfError::ExpectedUsersSubkeys);
            },
        };
        let mut out: Vec<Result<LoginUser<'a>, LoginUserVdfError>> = Vec::new();
        let n = document.0.len();
        let mut i: usize = 0;
        proof {
            assert(login_user_models(out@) =~= Seq::<
                Result<SpecLoginUser, LoginUserVdfError>,
            >::empty());
        }
        loop
            invariant
                i <= n,
                n == document@.len(),
                spec_subkeys(document@, Id::spec_root(), users_key()) == Some(users),
                login_user_models(out@) + spec_extract_from(document@, users, i as int)
                    == spec_extract_from(document@, users, 0),
            decreases n - i,
        {
            if i >= n {
                proof {
                    assert(login_user_models(out@) + spec_extract_from(
                        document@,
                        users,
                        i as int,
                    ) =~= login_user_models(out@));
                }
                return Ok(out);
            }
            let row = document.0[i];
            proof {
                assert(row@ == document@[i as int]);
            }
            if row.parent == users {
                let ghost out0 = out@;
                let item = extract_user(document, row);
                out.push(item);
                proof {
                    assert(login_user_models(out@) =~= login_user_models(out0).push(
                        login_user_model_one(item),
                    ));
                    let rest = spec_extract_from(document@, users, i + 1);
                    assert(login_user_models(out0).push(login_user_model_one(item)) + rest
                        =~= login_user_models(out0) + (seq![spec_extract_user(document@, row@)]
                        + rest));
                }
            }
            i += 1;
        }
    }
}

} // verus!
