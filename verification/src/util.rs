//! Small helpers shared across the crate.

use crate::vdf::scanner::{scan_step, skip_ws, Error as ScanError, ScanStep, Scanner, Token};
use vstd::prelude::*;

verus! {

/// Whether two byte slices hold the same bytes.
pub fn bytes_eq(a: &[u8], b: &[u8]) -> (r: bool)
    ensures
        r == (a@ == b@),
{
    let n = a.len();
    if n != b.len() {
        return false;
    }
    let mut i: usize = 0;
    loop
        invariant
            i <= n,
            n == a@.len(),
            n == b@.len(),
            forall|j: int| 0 <= j < i ==> a@[j] == b@[j],
        decreases n - i,
    {
        if i >= n {
            proof {
                assert(a@ =~= b@);
            }
            return true;
        }
        if a[i] != b[i] {
            return false;
        }
        i += 1;
    }
}

/// Whether two wide-character slices hold the same units.
pub fn wide_eq(a: &[u16], b: &[u16]) -> (r: bool)
    ensures
        r == (a@ == b@),
{
    let n = a.len();
    if n != b.len() {
        return false;
    }
    let mut i: usize = 0;
    loop
        invariant
            i <= n,
            n == a@.len(),
            n == b@.len(),
            forall|j: int| 0 <= j < i ==> a@[j] == b@[j],
        decreases n - i,
    {
        if i >= n {
            proof {
                assert(a@ =~= b@);
            }
            return true;
        }
        if a[i] != b[i] {
            return false;
        }
        i += 1;
    }
}

/// Wraps a [`Scanner`] so that its first error stops the token stream for
/// good: once an error is seen, [`OkIter::next`] yields nothing more and
/// [`OkIter::to_error`] reports the error.
pub struct OkIter<'a> {
    inner: Scanner<'a>,
    error: Option<ScanError>,
}

impl<'a> OkIter<'a> {
    /// The scanner inside.
    pub closed spec fn spec_inner(&self) -> Scanner<'a> {
        self.inner
    }

    /// The first error the scanner reported, if any yet.
    pub closed spec fn spec_error(&self) -> Option<ScanError> {
        self.error
    }

    /// Wraps `inner`, with no error seen yet.
    pub fn new(inner: Scanner<'a>) -> (r: OkIter<'a>)
        ensures
            r.spec_inner() == inner,
            r.spec_error() is None,
    {
        OkIter { inner, error: None }
    }

    /// The first error the scanner reported, if any.
    pub fn to_error(&self) -> (r: Option<&ScanError>)
        ensures
            match (r, self.spec_error()) {
                (Some(e), Some(e2)) => *e == e2,
                (None, None) => true,
                _ => false,
            },
    {
        self.error.as_ref()
    }

    /// The next good token: scans one step, keeps the first error, and yields
    /// nothing once the input is exhausted or an error was seen.
    pub fn next(&mut self) -> (r: Option<Token<'a>>)
        ensures
            final(self).spec_inner().source == old(self).spec_inner().source,
            old(self).spec_error() is Some ==> r is None && *final(self) == *old(self),
            old(self).spec_error() is None ==> match scan_step(
                old(self).spec_inner().source@,
                old(self).spec_inner().current as int,
            ) {
                ScanStep::End => {
                    &&& r is None
                    &&& final(self).spec_error() is None
                    &&& final(self).spec_inner().current == skip_ws(
                        old(self).spec_inner().source@,
                        old(self).spec_inner().current as int,
                    )
                },
                ScanStep::Tok { kind, lo, hi } => {
                    &&& r matches Some(t) && t.kind == kind && t.lexeme@ == old(
                        self,
                    ).spec_inner().source@.subrange(lo, hi)
                    &&& final(self).spec_error() is None
                    &&& final(self).spec_inner().current == hi
                    &&& old(self).spec_inner().current as int <= lo < hi <= old(
                        self,
                    ).spec_inner().source@.len()
                    &&& (kind == crate::vdf::scanner::TokenType::StringLiteral ==> hi - lo >= 2)
                },
                ScanStep::Fail { error, next } => {
                    &&& r is None
                    &&& final(self).spec_error() == Some(error)
                    &&& final(self).spec_inner().current == next
                },
            },
    {
        if self.error.is_some() {
            return None;
        }
        match self.inner.next_token() {
            None => None,
            Some(Ok(t)) => Some(t),
            Some(Err(e)) => {
                self.error = Some(e);
                None
            },
        }
    }
}

} // verus!
