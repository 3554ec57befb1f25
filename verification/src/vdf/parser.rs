//! The VDF parser and its flat document model.
//!
//! A document is zero or more entries; an entry is either a key name followed
//! by a string value (one leaf row) or a key name followed by a brace-wrapped
//! group of nested entries (one group row, whose nested rows refer back to it
//! through a freshly minted [`Id`]). The parsed [`Document`] is a flat,
//! append-ordered row list; all queries scan it linearly and the first match
//! wins.

use super::scanner::{SpecToken, Token, TokenType};
use vstd::prelude::*;

verus! {

/// A [`Document`] element id.
///
/// Every group row carries a fresh id, derived from the position of its
/// opening brace in the token stream; nested rows name it as their parent.
/// [`Id::root`] marks top-level rows and is never minted for a group.
#[derive(Debug, Clone, Copy, PartialEq, Eq, Structural)]
pub struct Id(pub usize);

impl Id {
    /// The id of the document root. It has no row of its own, and no group
    /// ever receives it: group ids come from token positions, which stay
    /// below the length of the token slice.
    pub open spec fn spec_root() -> Id {
        Id(usize::MAX)
    }

    /// The id of the document root (see [`Id::spec_root`]).
    #[verifier::when_used_as_spec(spec_root)]
    pub fn root() -> (r: Id)
        ensures
            r == Id::spec_root(),
    {
        Id(usize::MAX)
    }
}

/// A key's value: either a string or a nested group of rows.
#[derive(Debug, Clone, Copy, PartialEq, Eq)]
pub enum Value<'a> {
    /// A string value, quotes already stripped.
    StringValue(&'a [u8]),
    /// A group value: nested rows carry this [`Id`] as their parent.
    Subkeys(Id),
}

/// The mathematical value of a [`Value`].
pub enum SpecValue {
    /// A string value.
    StringValue(Seq<u8>),
    /// A group value.
    Subkeys(Id),
}

impl View for Value<'_> {
    type V = SpecValue;

    open spec fn view(&self) -> SpecValue {
        match *self {
            Value::StringValue(s) => SpecValue::StringValue(s@),
            Value::Subkeys(id) => SpecValue::Subkeys(id),
        }
    }
}

/// One key-value row of a [`Document`].
#[derive(Debug, Clone, Copy, PartialEq, Eq)]
pub struct KeyValue<'a> {
    /// The group this row belongs to, or [`Id::root`].
    pub parent: Id,
    /// The key, quotes already stripped.
    pub key: &'a [u8],
    /// The value.
    pub value: Value<'a>,
}

/// The mathematical value of a [`KeyValue`] row.
pub struct SpecKeyValue {
    /// The group this row belongs to.
    pub parent: Id,
    /// The key bytes.
    pub key: Seq<u8>,
    /// The value.
    pub value: SpecValue,
}

impl View for KeyValue<'_> {
    type V = SpecKeyValue;

    open spec fn view(&self) -> SpecKeyValue {
        SpecKeyValue { parent: self.parent, key: self.key@, value: self.value@ }
    }
}

/// A parsed VDF document: its rows in append order.
#[derive(Debug, PartialEq, Eq)]
pub struct Document<'a>(pub Vec<KeyValue<'a>>);

impl<'a> View for Document<'a> {
    type V = Seq<SpecKeyValue>;

    open spec fn view(&self) -> Seq<SpecKeyValue> {
        self.0@.map_values(|kv: KeyValue<'a>| kv@)
    }
}

/// The first row at or after index `i` whose parent is `at` and whose key is
/// `key`, in document order.
pub open spec fn find_from(rows: Seq<SpecKeyValue>, i: int, at: Id, key: Seq<u8>) -> Option<
    SpecKeyValue,
>
    decreases rows.len() - i,
{
    if i < 0 || i >= rows.len() {
        None
    } else if rows[i].parent == at && rows[i].key == key {
        Some(rows[i])
    } else {
        find_from(rows, i + 1, at, key)
    }
}

/// The first row whose parent is `at` and whose key is `key`.
pub open spec fn find_row(rows: Seq<SpecKeyValue>, at: Id, key: Seq<u8>) -> Option<SpecKeyValue> {
    find_from(rows, 0, at, key)
}

/// What [`Document::subkeys`] returns: the group id of the first matching
/// row, provided that row is a group row.
pub open spec fn spec_subkeys(rows: Seq<SpecKeyValue>, at: Id, key: Seq<u8>) -> Option<Id> {
    match find_row(rows, at, key) {
        Some(row) => match row.value {
            SpecValue::Subkeys(id) => Some(id),
            SpecValue::StringValue(_) => None,
        },
        None => None,
    }
}

/// What [`Document::value_str`] returns: the string value of the first
/// matching row, provided that row is a leaf row.
pub open spec fn spec_value_str(rows: Seq<SpecKeyValue>, at: Id, key: Seq<u8>) -> Option<Seq<u8>> {
    match find_row(rows, at, key) {
        Some(row) => match row.value {
            SpecValue::StringValue(s) => Some(s),
            SpecValue::Subkeys(_) => None,
        },
        None => None,
    }
}

impl<'a> Document<'a> {
    /// The group under `at` keyed `key`: the first matching row decides, and
    /// only if it is a group row.
    pub fn subkeys(&self, at: Id, key: &[u8]) -> (r: Option<Id>)
        ensures
            r == spec_subkeys(self@, at, key@),
    {
        let n = self.0.len();
        let mut i: usize = 0;
        loop
            invariant
                i <= n,
                n == self@.len(),
                find_from(self@, 0, at, key@) == find_from(self@, i as int, at, key@),
            decreases n - i,
        {
            if i >= n {
                return None;
            }
            let row = self.0[i];
            proof {
                assert(row@ == self@[i as int]);
            }
            if row.parent == at && crate::util::bytes_eq(row.key, key) {
                match row.value {
                    Value::Subkeys(id) => {
                        return Some(id);
                    },
                    Value::StringValue(_) => {
                        return None;
                    },
                }
            }
            i += 1;
        }
    }

    /// The string value under `at` keyed `name`: the first matching row
    /// decides, and only if it is a leaf row.
    pub fn value_str(&self, at: Id, name: &[u8]) -> (r: Option<&'a [u8]>)
        ensures
            match (r, spec_value_str(self@, at, name@)) {
                (Some(s), Some(v)) => s@ == v,
                (None, None) => true,
                _ => false,
            },
    {
        let n = self.0.len();
        let mut i: usize = 0;
        loop
            invariant
                i <= n,
                n == self@.len(),
                find_from(self@, 0, at, name@) == find_from(self@, i as int, at, name@),
            decreases n - i,
        {
            if i >= n {
                return None;
            }
            let row = self.0[i];
            proof {
                assert(row@ == self@[i as int]);
            }
            if row.parent == at && crate::util::bytes_eq(row.key, name) {
                match row.value {
                    Value::StringValue(s) => {
                        return Some(s);
                    },
                    Value::Subkeys(_) => {
                        return None;
                    },
                }
            }
            i += 1;
        }
    }
}

/// A parse error.
#[derive(Debug, Clone, Copy, PartialEq, Eq, Structural)]
pub enum Error {
    /// A `{` with no preceding key name to open a group for.
    UnexpectedBraceLeftNoName,
    /// A `}` with no open group to close.
    UnexpectedBraceRightNoMatch,
    /// The input ended right after a key name, before its value or group.
    ExpectedKeyValueAfterKeyName,
}

/// How one parsing step ended.
#[derive(Debug, Clone, Copy, PartialEq, Eq, Structural)]
pub enum ParseOneTerminal {
    /// A `}` closed the enclosing group.
    BlockEnd,
    /// The token stream was exhausted.
    Eof,
    /// One entry was parsed.
    Yield,
}

/// The views of a token slice.
pub open spec fn token_models<'a>(tokens: Seq<Token<'a>>) -> Seq<SpecToken> {
    tokens.map_values(|t: Token<'a>| t@)
}

/// The views of a row vector.
pub open spec fn row_models<'a>(rows: Seq<KeyValue<'a>>) -> Seq<SpecKeyValue> {
    rows.map_values(|kv: KeyValue<'a>| kv@)
}

/// Every string token carries its two surrounding quote bytes, so stripping
/// them is always possible. Tokens produced by the scanner satisfy this.
pub open spec fn wf_tokens(tokens: Seq<SpecToken>) -> bool {
    forall|i: int|
        0 <= i < tokens.len() ==> ((#[trigger] tokens[i]).kind == TokenType::StringLiteral
            ==> tokens[i].lexeme.len() >= 2)
}

/// `s` with its first and last byte removed: how a quoted lexeme becomes a
/// key or value.
pub open spec fn spec_unsurround(s: Seq<u8>) -> Seq<u8> {
    s.subrange(1, s.len() - 1)
}

/// The result of parsing one entry: how it ended, the position after it, and
/// the rows it contributed.
pub struct SpecParseOne {
    /// How the step ended.
    pub terminal: ParseOneTerminal,
    /// The token position after the step.
    pub next: int,
    /// The rows appended by the step, in order.
    pub rows: Seq<SpecKeyValue>,
}

/// The result of parsing a group body up to its closing brace.
pub struct SpecParseGroup {
    /// The token position one past the closing brace.
    pub next: int,
    /// The rows of the group body, in order.
    pub rows: Seq<SpecKeyValue>,
}

/// Parses one entry of `tokens` at `pos` under `parent`.
///
/// `brace_terminal` tells whether a `}` legally closes the enclosing group
/// here. A leaf entry appends one row; a group entry appends its group row
/// followed by all nested rows.
pub open spec fn spec_parse_one(
    tokens: Seq<SpecToken>,
    pos: int,
    parent: Id,
    brace_terminal: bool,
) -> Result<SpecParseOne, Error>
    decreases tokens.len() - pos, 0int,
{
    if pos < 0 || pos >= tokens.len() {
        Ok(SpecParseOne { terminal: ParseOneTerminal::Eof, next: pos, rows: seq![] })
    } else {
        let head = tokens[pos];
        match head.kind {
            TokenType::BraceLeft => Err(Error::UnexpectedBraceLeftNoName),
            TokenType::BraceRight => {
                if brace_terminal {
                    Ok(SpecParseOne { terminal: ParseOneTerminal::BlockEnd, next: pos + 1, rows: seq![] })
                } else {
                    Err(Error::UnexpectedBraceRightNoMatch)
                }
            },
            TokenType::StringLiteral => {
                if pos + 1 >= tokens.len() {
                    Err(Error::ExpectedKeyValueAfterKeyName)
                } else {
                    let value = tokens[pos + 1];
                    match value.kind {
                        TokenType::StringLiteral => Ok(
                            SpecParseOne {
                                terminal: ParseOneTerminal::Yield,
                                next: pos + 2,
                                rows: seq![
                                    SpecKeyValue {
                                        parent,
                                        key: spec_unsurround(head.lexeme),
                                        value: SpecValue::StringValue(spec_unsurround(value.lexeme)),
                                    },
                                ],
                            },
                        ),
                        TokenType::BraceLeft => {
                            let sub = Id((pos + 1) as usize);
                            let group_row = SpecKeyValue {
                                parent,
                                key: spec_unsurround(head.lexeme),
                                value: SpecValue::Subkeys(sub),
                            };
                            match spec_parse_group(tokens, pos + 2, sub) {
                                Ok(g) => Ok(
                                    SpecParseOne {
                                        terminal: ParseOneTerminal::Yield,
                                        next: g.next,
                                        rows: seq![group_row] + g.rows,
                                    },
                                ),
                                Err(e) => Err(e),
                            }
                        },
                        TokenType::BraceRight => Err(Error::UnexpectedBraceRightNoMatch),
                    }
                }
            },
        }
    }
}

/// Parses entries of a group body under `parent` until the closing brace.
///
/// Running out of tokens inside a group means a key name was promised a value
/// or group that never came.
pub open spec fn spec_parse_group(tokens: Seq<SpecToken>, pos: int, parent: Id) -> Result<
    SpecParseGroup,
    Error,
>
    decreases tokens.len() - pos, 1int,
{
    match spec_parse_one(tokens, pos, parent, true) {
        Err(e) => Err(e),
        Ok(one) => match one.terminal {
            ParseOneTerminal::BlockEnd => Ok(SpecParseGroup { next: one.next, rows: seq![] }),
            ParseOneTerminal::Eof => Err(Error::ExpectedKeyValueAfterKeyName),
            ParseOneTerminal::Yield => {
                // An entry consumes at least one token and ends within the
                // slice; the two bounds keep the recursion visibly
                // well-founded.
                let next = if one.next > pos {
                    one.next
                } else {
                    pos + 1
                };
                if next > tokens.len() {
                    Err(Error::ExpectedKeyValueAfterKeyName)
                } else {
                    match spec_parse_group(tokens, next, parent) {
                        Ok(g) => Ok(SpecParseGroup { next: g.next, rows: one.rows + g.rows }),
                        Err(e) => Err(e),
                    }
                }
            },
        },
    }
}

/// Parses top-level entries from `pos` to the end of `tokens`.
pub open spec fn spec_parse_entries(tokens: Seq<SpecToken>, pos: int) -> Result<
    Seq<SpecKeyValue>,
    Error,
>
    decreases tokens.len() - pos, 2int,
{
    match spec_parse_one(tokens, pos, Id::root(), false) {
        Err(e) => Err(e),
        Ok(one) => match one.terminal {
            ParseOneTerminal::Eof => Ok(seq![]),
            // A top-level step never reports a block end; the arm only keeps
            // the match total.
            ParseOneTerminal::BlockEnd => Ok(seq![]),
            ParseOneTerminal::Yield => {
                // As in the group case, the bounds keep the recursion
                // visibly well-founded.
                let next = if one.next > pos {
                    one.next
                } else {
                    pos + 1
                };
                if next > tokens.len() {
                    Err(Error::ExpectedKeyValueAfterKeyName)
                } else {
                    match spec_parse_entries(tokens, next) {
                        Ok(rows) => Ok(one.rows + rows),
                        Err(e) => Err(e),
                    }
                }
            },
        },
    }
}

/// What parsing a whole token sequence yields: the document rows, or the
/// first parse error.
pub open spec fn spec_parse(tokens: Seq<SpecToken>) -> Result<Seq<SpecKeyValue>, Error> {
    spec_parse_entries(tokens, 0)
}

/// Removes the first and last byte, stripping a lexeme's quotes.
fn unsurround<'b>(s: &'b [u8]) -> (r: &'b [u8])
    requires
        s@.len() >= 2,
    ensures
        r@ == spec_unsurround(s@),
{
    vstd::slice::slice_subrange(s, 1, s.len() - 1)
}

/// Parses one entry at `pos`, returning how it ended, the position after it,
/// and the rows it appended; mirrors [`spec_parse_one`].
fn parse_one<'a>(tokens: &[Token<'a>], pos: usize, parent: Id, brace_terminal: bool) -> (r: Result<
    (ParseOneTerminal, usize, Vec<KeyValue<'a>>),
    Error,
>)
    requires
        wf_tokens(token_models(tokens@)),
        pos <= tokens@.len(),
    ensures
        match (r, spec_parse_one(token_models(tokens@), pos as int, parent, brace_terminal)) {
            (Ok((term, next, rows)), Ok(one)) => {
                &&& term == one.terminal
                &&& next as int == one.next
                &&& row_models(rows@) == one.rows
                &&& pos <= next <= tokens@.len()
                &&& (term == ParseOneTerminal::Yield ==> pos + 2 <= next)
            },
            (Err(e1), Err(e2)) => e1 == e2,
            _ => false,
        },
    decreases tokens@.len() - pos,
{
    let ghost toks = token_models(tokens@);
    if pos >= tokens.len() {
        let rows: Vec<KeyValue<'a>> = Vec::new();
        proof {
            assert(row_models(rows@) =~= Seq::<SpecKeyValue>::empty());
        }
        return Ok((ParseOneTerminal::Eof, pos, rows));
    }
    let head = tokens[pos];
    proof {
        assert(toks[pos as int] == head@);
    }
    match head.kind {
        TokenType::BraceLeft => Err(Error::UnexpectedBraceLeftNoName),
        TokenType::BraceRight => {
            if brace_terminal {
                let rows: Vec<KeyValue<'a>> = Vec::new();
                proof {
                    assert(row_models(rows@) =~= Seq::<SpecKeyValue>::empty());
                }
                Ok((ParseOneTerminal::BlockEnd, pos + 1, rows))
            } else {
                Err(Error::UnexpectedBraceRightNoMatch)
            }
        },
        TokenType::StringLiteral => {
            if pos + 1 >= tokens.len() {
                return Err(Error::ExpectedKeyValueAfterKeyName);
            }
            let value = tokens[pos + 1];
            proof {
                assert(toks[pos + 1] == value@);
            }
            match value.kind {
                TokenType::StringLiteral => {
                    let mut rows: Vec<KeyValue<'a>> = Vec::new();
                    rows.push(
                        KeyValue {
                            parent,
                            key: unsurround(head.lexeme),
                            value: Value::StringValue(unsurround(value.lexeme)),
                        },
                    );
                    proof {
                        let one = spec_parse_one(toks, pos as int, parent, brace_terminal);
                        assert(row_models(rows@) =~= one->Ok_0.rows);
                    }
                    Ok((ParseOneTerminal::Yield, pos + 2, rows))
                },
                TokenType::BraceLeft => {
                    let sub = Id(pos + 1);
                    let mut acc: Vec<KeyValue<'a>> = Vec::new();
                    acc.push(
                        KeyValue { parent, key: unsurround(head.lexeme), value: Value::Subkeys(sub) },
                    );
                    let ghost group_row = SpecKeyValue {
                        parent,
                        key: spec_unsurround(head@.lexeme),
                        value: SpecValue::Subkeys(sub),
                    };
                    proof {
                        assert(row_models(acc@) =~= seq![group_row]);
                    }
                    let mut cur = pos + 2;
                    loop
                        invariant
                            wf_tokens(toks),
                            toks == token_models(tokens@),
                            pos + 2 <= cur <= tokens@.len(),
                            match spec_parse_group(toks, cur as int, sub) {
                                Ok(g) => spec_parse_one(toks, pos as int, parent, brace_terminal)
                                    == Ok::<SpecParseOne, Error>(
                                    SpecParseOne {
                                        terminal: ParseOneTerminal::Yield,
                                        next: g.next,
                                        rows: row_models(acc@) + g.rows,
                                    },
                                ),
                                Err(e) => spec_parse_one(toks, pos as int, parent, brace_terminal)
                                    == Err::<SpecParseOne, Error>(e),
                            },
                        decreases tokens@.len() - cur,
                    {
                        match parse_one(tokens, cur, sub, true) {
                            Err(e) => {
                                return Err(e);
                            },
                            Ok((term, next, mut sub_rows)) => {
                                if term == ParseOneTerminal::BlockEnd {
                                    proof {
                                        let g = spec_parse_group(toks, cur as int, sub)->Ok_0;
                                        assert(row_models(acc@) + g.rows =~= row_models(acc@));
                                    }
                                    return Ok((ParseOneTerminal::Yield, next, acc));
                                }
                                if term == ParseOneTerminal::Eof {
                                    return Err(Error::ExpectedKeyValueAfterKeyName);
                                }
                                let ghost acc0 = acc@;
                                let ghost one = spec_parse_one(toks, cur as int, sub, true)->Ok_0;
                                acc.append(&mut sub_rows);
                                proof {
                                    assert(row_models(acc@) =~= row_models(acc0) + one.rows);
                                    let rest = spec_parse_group(toks, next as int, sub);
                                    if rest is Ok {
                                        assert((row_models(acc0) + one.rows) + rest->Ok_0.rows
                                            =~= row_models(acc0) + (one.rows + rest->Ok_0.rows));
                                    }
                                }
                                cur = next;
                            },
                        }
                    }
                },
                TokenType::BraceRight => Err(Error::UnexpectedBraceRightNoMatch),
            }
        },
    }
}

/// All group ids minted in `rows` come from token positions strictly between
/// `lo` and `hi`.
pub open spec fn group_ids_in(rows: Seq<SpecKeyValue>, lo: int, hi: int) -> bool {
    forall|i: int|
        0 <= i < rows.len() && (#[trigger] rows[i].value) is Subkeys ==> lo
            < rows[i].value->Subkeys_0.0 < hi
}

/// No two rows of `rows` carry the same group id.
pub open spec fn group_ids_unique(rows: Seq<SpecKeyValue>) -> bool {
    forall|i: int, j: int|
        0 <= i < j < rows.len() && (#[trigger] rows[i].value) is Subkeys && (#[trigger] rows[j].value) is Subkeys
            ==> rows[i].value->Subkeys_0 != rows[j].value->Subkeys_0
}

/// Every row of `rows` either belongs to `parent` directly or names a group
/// row emitted earlier in `rows`.
pub open spec fn parents_linked(rows: Seq<SpecKeyValue>, parent: Id) -> bool {
    forall|i: int|
        0 <= i < rows.len() ==> ((#[trigger] rows[i]).parent == parent || exists|j: int|
            0 <= j < i && (#[trigger] rows[j].value) == SpecValue::Subkeys(rows[i].parent))
}

/// The document invariant: every non-root id referenced as a parent
/// corresponds to exactly one group row emitted earlier in document order
/// (uniqueness of group ids makes that row unique), and no group row carries
/// the root id.
pub open spec fn wf_document(rows: Seq<SpecKeyValue>) -> bool {
    &&& parents_linked(rows, Id::spec_root())
    &&& group_ids_unique(rows)
    &&& forall|i: int|
        0 <= i < rows.len() && (#[trigger] rows[i].value) is Subkeys ==> rows[i].value->Subkeys_0
            != Id::spec_root()
}

/// The induction behind [`lemma_parse_wf`], for one entry: its rows link
/// their parents to `parent` or to earlier group rows, and its group ids are
/// distinct token positions inside the entry's token range.
proof fn lemma_parse_one_wf(tokens: Seq<SpecToken>, pos: int, parent: Id, brace_terminal: bool)
    requires
        0 <= pos,
        tokens.len() <= usize::MAX,
    ensures
        match spec_parse_one(tokens, pos, parent, brace_terminal) {
            Ok(one) => {
                &&& pos <= one.next <= tokens.len() || (one.terminal is Eof && one.next == pos)
                &&& group_ids_in(one.rows, pos, one.next)
                &&& group_ids_unique(one.rows)
                &&& parents_linked(one.rows, parent)
                &&& (one.terminal is Yield ==> pos + 2 <= one.next)
            },
            Err(_) => true,
        },
    decreases tokens.len() - pos, 0int,
{
    if pos >= tokens.len() {
        return ;
    }
    let head = tokens[pos];
    if head.kind == TokenType::StringLiteral && pos + 1 < tokens.len() {
        let value = tokens[pos + 1];
        if value.kind == TokenType::BraceLeft {
            let sub = Id((pos + 1) as usize);
            let group_row = SpecKeyValue {
                parent,
                key: spec_unsurround(head.lexeme),
                value: SpecValue::Subkeys(sub),
            };
            lemma_parse_group_wf(tokens, pos + 2, sub);
            if spec_parse_group(tokens, pos + 2, sub) is Ok {
                let g = spec_parse_group(tokens, pos + 2, sub)->Ok_0;
                let rows = seq![group_row] + g.rows;
                assert(rows[0] == group_row);
                assert forall|i: int|
                    0 <= i < rows.len() && (#[trigger] rows[i].value) is Subkeys implies pos
                    < rows[i].value->Subkeys_0.0 < g.next by {
                    if i > 0 {
                        assert(rows[i] == g.rows[i - 1]);
                    }
                }
                assert forall|i: int, j: int|
                    0 <= i < j < rows.len() && (#[trigger] rows[i].value) is Subkeys && (
                    #[trigger] rows[j].value) is Subkeys implies rows[i].value->Subkeys_0
                    != rows[j].value->Subkeys_0 by {
                    if i > 0 {
                        assert(rows[i] == g.rows[i - 1]);
                    }
                    assert(rows[j] == g.rows[j - 1]);
                }
                assert forall|i: int| 0 <= i < rows.len() implies ((#[trigger] rows[i]).parent
                    == parent || exists|j: int|
                    0 <= j < i && (#[trigger] rows[j].value) == SpecValue::Subkeys(
                        rows[i].parent,
                    )) by {
                    if i > 0 {
                        assert(rows[i] == g.rows[i - 1]);
                        if g.rows[i - 1].parent != sub {
                            let j0 = choose|j0: int|
                                0 <= j0 < i - 1 && (#[trigger] g.rows[j0].value)
                                    == SpecValue::Subkeys(g.rows[i - 1].parent);
                            assert(rows[j0 + 1] == g.rows[j0]);
                            assert(rows[j0 + 1].value == SpecValue::Subkeys(rows[i].parent));
                        } else {
                            assert(rows[0].value == SpecValue::Subkeys(rows[i].parent));
                        }
                    }
                }
            }
        }
    }
}

/// The induction behind [`lemma_parse_wf`], for a group body.
proof fn lemma_parse_group_wf(tokens: Seq<SpecToken>, pos: int, parent: Id)
    requires
        0 <= pos,
        tokens.len() <= usize::MAX,
    ensures
        match spec_parse_group(tokens, pos, parent) {
            Ok(g) => {
                &&& pos <= g.next <= tokens.len()
                &&& group_ids_in(g.rows, pos, g.next)
                &&& group_ids_unique(g.rows)
                &&& parents_linked(g.rows, parent)
            },
            Err(_) => true,
        },
    decreases tokens.len() - pos, 1int,
{
    lemma_parse_one_wf(tokens, pos, parent, true);
    match spec_parse_one(tokens, pos, parent, true) {
        Err(_) => {},
        Ok(one) => match one.terminal {
            ParseOneTerminal::BlockEnd => {},
            ParseOneTerminal::Eof => {},
            ParseOneTerminal::Yield => {
                let next = if one.next > pos {
                    one.next
                } else {
                    pos + 1
                };
                if next <= tokens.len() {
                    lemma_parse_group_wf(tokens, next, parent);
                    if spec_parse_group(tokens, next, parent) is Ok {
                        let g2 = spec_parse_group(tokens, next, parent)->Ok_0;
                        lemma_concat_wf(one.rows, g2.rows, parent, pos, one.next, g2.next);
                    }
                }
            },
        },
    }
}

/// The induction behind [`lemma_parse_wf`], for a run of top-level entries.
proof fn lemma_parse_entries_wf(tokens: Seq<SpecToken>, pos: int)
    requires
        0 <= pos,
        tokens.len() <= usize::MAX,
    ensures
        match spec_parse_entries(tokens, pos) {
            Ok(rows) => {
                &&& group_ids_in(rows, pos, tokens.len() as int)
                &&& group_ids_unique(rows)
                &&& parents_linked(rows, Id::spec_root())
            },
            Err(_) => true,
        },
    decreases tokens.len() - pos, 2int,
{
    lemma_parse_one_wf(tokens, pos, Id::spec_root(), false);
    match spec_parse_one(tokens, pos, Id::spec_root(), false) {
        Err(_) => {},
        Ok(one) => match one.terminal {
            ParseOneTerminal::Eof => {},
            ParseOneTerminal::BlockEnd => {},
            ParseOneTerminal::Yield => {
                let next = if one.next > pos {
                    one.next
                } else {
                    pos + 1
                };
                if next <= tokens.len() {
                    lemma_parse_entries_wf(tokens, next);
                    if spec_parse_entries(tokens, next) is Ok {
                        let rest = spec_parse_entries(tokens, next)->Ok_0;
                        lemma_concat_wf(
                            one.rows,
                            rest,
                            Id::spec_root(),
                            pos,
                            one.next,
                            tokens.len() as int,
                        );
                    }
                }
            },
        },
    }
}

/// Concatenating two well-linked row runs whose group-id ranges are disjoint
/// keeps linkage, uniqueness, and the combined id range.
proof fn lemma_concat_wf(
    a: Seq<SpecKeyValue>,
    b: Seq<SpecKeyValue>,
    parent: Id,
    lo: int,
    mid: int,
    hi: int,
)
    requires
        group_ids_in(a, lo, mid),
        group_ids_unique(a),
        parents_linked(a, parent),
        group_ids_in(b, mid, hi),
        group_ids_unique(b),
        parents_linked(b, parent),
        lo <= mid <= hi,
    ensures
        group_ids_in(a + b, lo, hi),
        group_ids_unique(a + b),
        parents_linked(a + b, parent),
{
    let rows = a + b;
    assert forall|i: int|
        0 <= i < rows.len() && (#[trigger] rows[i].value) is Subkeys implies lo
        < rows[i].value->Subkeys_0.0 < hi by {
        if i < a.len() {
            assert(rows[i] == a[i]);
        } else {
            assert(rows[i] == b[i - a.len()]);
        }
    }
    assert forall|i: int, j: int|
        0 <= i < j < rows.len() && (#[trigger] rows[i].value) is Subkeys && (
        #[trigger] rows[j].value) is Subkeys implies rows[i].value->Subkeys_0
        != rows[j].value->Subkeys_0 by {
        if i < a.len() {
            assert(rows[i] == a[i]);
        } else {
            assert(rows[i] == b[i - a.len()]);
        }
        if j < a.len() {
            assert(rows[j] == a[j]);
        } else {
            assert(rows[j] == b[j - a.len()]);
        }
    }
    assert forall|i: int| 0 <= i < rows.len() implies ((#[trigger] rows[i]).parent == parent
        || exists|j: int|
        0 <= j < i && (#[trigger] rows[j].value) == SpecValue::Subkeys(rows[i].parent)) by {
        if i < a.len() {
            assert(rows[i] == a[i]);
            if a[i].parent != parent {
                let j0 = choose|j0: int|
                    0 <= j0 < i && (#[trigger] a[j0].value) == SpecValue::Subkeys(a[i].parent);
                assert(rows[j0] == a[j0]);
                assert(rows[j0].value == SpecValue::Subkeys(rows[i].parent));
            }
        } else {
            assert(rows[i] == b[i - a.len()]);
            if b[i - a.len()].parent != parent {
                let j0 = choose|j0: int|
                    0 <= j0 < i - a.len() && (#[trigger] b[j0].value) == SpecValue::Subkeys(
                        b[i - a.len()].parent,
                    );
                assert(rows[j0 + a.len()] == b[j0]);
                assert(rows[j0 + a.len()].value == SpecValue::Subkeys(rows[i].parent));
            }
        }
    }
}

/// Law (document well-formedness): a successful parse yields rows in which
/// every non-root id referenced as a parent names exactly one group row
/// emitted earlier in document order, and no group row carries the root id.
pub proof fn lemma_parse_wf(tokens: Seq<SpecToken>)
    requires
        spec_parse(tokens) is Ok,
        tokens.len() <= usize::MAX,
    ensures
        wf_document(spec_parse(tokens)->Ok_0),
{
    lemma_parse_entries_wf(tokens, 0);
    let rows = spec_parse(tokens)->Ok_0;
    assert forall|i: int|
        0 <= i < rows.len() && (#[trigger] rows[i].value) is Subkeys implies rows[i].value->Subkeys_0
        != Id::spec_root() by {
        assert(0 < rows[i].value->Subkeys_0.0 < tokens.len());
    }
}

/// Parses a [`Document`] from a token slice.
///
/// On success the document's rows are exactly [`spec_parse`] of the tokens
/// and satisfy the document invariant; on failure the error is the one
/// [`spec_parse`] names.
pub fn parse<'a>(tokens: &[Token<'a>]) -> (r: Result<Document<'a>, Error>)
    requires
        wf_tokens(token_models(tokens@)),
    ensures
        match (r, spec_parse(token_models(tokens@))) {
            (Ok(doc), Ok(rows)) => doc@ == rows && wf_document(doc@),
            (Err(e1), Err(e2)) => e1 == e2,
            _ => false,
        },
{
    let ghost toks = token_models(tokens@);
    let n = tokens.len();
    let mut acc: Vec<KeyValue<'a>> = Vec::new();
    let mut cur: usize = 0;
    proof {
        assert(row_models(acc@) =~= Seq::<SpecKeyValue>::empty());
        assert(tokens@.len() == n as int);
    }
    loop
        invariant
            wf_tokens(toks),
            toks == token_models(tokens@),
            cur <= tokens@.len(),
            tokens@.len() <= usize::MAX,
            match spec_parse_entries(toks, cur as int) {
                Ok(rest) => spec_parse(toks) == Ok::<Seq<SpecKeyValue>, Error>(
                    row_models(acc@) + rest,
                ),
                Err(e) => spec_parse(toks) == Err::<Seq<SpecKeyValue>, Error>(e),
            },
        decreases tokens@.len() - cur,
    {
        match parse_one(tokens, cur, Id::root(), false) {
            Err(e) => {
                return Err(e);
            },
            Ok((term, next, mut rows)) => {
                if term == ParseOneTerminal::Eof {
                    proof {
                        assert(row_models(acc@) + Seq::<SpecKeyValue>::empty() =~= row_models(
                            acc@,
                        ));
                        lemma_parse_wf(toks);
                    }
                    return Ok(Document(acc));
                }
                proof {
                    // A top-level step cannot see a block end: a `}` without
                    // an open group is an error instead.
                    assert(term != ParseOneTerminal::BlockEnd);
                }
                let ghost acc0 = acc@;
                let ghost one = spec_parse_one(toks, cur as int, Id::root(), false)->Ok_0;
                acc.append(&mut rows);
                proof {
                    assert(row_models(acc@) =~= row_models(acc0) + one.rows);
                    let rest = spec_parse_entries(toks, next as int);
                    if rest is Ok {
                        assert((row_models(acc0) + one.rows) + rest->Ok_0 =~= row_models(acc0) + (
                        one.rows + rest->Ok_0));
                    }
                }
                cur = next;
            },
        }
    }
}

} // verus!
