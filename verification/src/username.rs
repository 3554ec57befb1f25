//! Validated Steam account names.
//!
//! A [`Username`] is a short identifier restricted to ASCII letters, digits
//! and underscore, between 3 and 32 bytes long. It is stored lowercased in a
//! fixed-capacity inline buffer with a NUL terminator, so it can be handed to
//! the OS configuration store verbatim and copied freely.

use vstd::prelude::*;

verus! {

/// A byte allowed in a username before normalization: `[A-Za-z0-9_]`.
pub open spec fn is_name_byte(c: u8) -> bool {
    (97 <= c && c <= 122)  // 'a'..='z'
    || (65 <= c && c <= 90)  // 'A'..='Z'
    || (48 <= c && c <= 57)  // '0'..='9'
    || c == 95  // '_'
}

/// ASCII lowercase folding of one byte.
pub open spec fn lower_byte(c: u8) -> u8 {
    if 65 <= c && c <= 90 {
        (c + 32) as u8
    } else {
        c
    }
}

/// ASCII lowercase folding of a byte string.
pub open spec fn lower_bytes(s: Seq<u8>) -> Seq<u8> {
    s.map_values(|c: u8| lower_byte(c))
}

/// The byte strings accepted as usernames: length 3 to 32, only
/// `[A-Za-z0-9_]` bytes.
pub open spec fn valid_username_bytes(s: Seq<u8>) -> bool {
    &&& 3 <= s.len() <= 32
    &&& forall|i: int| 0 <= i < s.len() ==> is_name_byte(#[trigger] s[i])
}

/// The error reported for an invalid username: an over-long input is
/// reported as too long even when it also holds illegal bytes, and a too
/// short one as too short.
pub open spec fn spec_username_error(s: Seq<u8>) -> UsernameError {
    if s.len() > 32 {
        UsernameError::TooLong
    } else if s.len() < 3 {
        UsernameError::TooShort
    } else {
        UsernameError::IllegalCharacters
    }
}

/// A [`Username`] validation error.
#[derive(Debug, Clone, Copy, PartialEq, Eq, Structural)]
pub enum UsernameError {
    /// The username has fewer than 3 bytes.
    TooShort,
    /// The username has more than 32 bytes.
    TooLong,
    /// The username contains a byte outside `[A-Za-z0-9_]`.
    IllegalCharacters,
}

/// A validated Steam account name.
///
/// The view of a `Username` is its lowercased byte string, without the NUL
/// terminator. It is only constructed through [`Username::try_from`], which
/// lowercases and validates its input; afterwards it is never mutated.
#[derive(Debug, Clone, Copy, PartialEq, Eq)]
pub struct Username {
    /// The lowercased name followed by a NUL terminator; bytes after the
    /// terminator are zero.
    data: [u8; 33],
    /// The number of meaningful bytes of `data`, including the terminator.
    len: usize,
}

impl View for Username {
    type V = Seq<u8>;

    /// The lowercased name bytes, without the NUL terminator.
    closed spec fn view(&self) -> Seq<u8> {
        self.data@.take(self.len - 1)
    }
}

impl Username {
    /// The buffer always holds a name of 3 to 32 lowercased name bytes,
    /// directly followed by a NUL terminator.
    #[verifier::type_invariant]
    closed spec fn inv(self) -> bool {
        &&& 4 <= self.len <= 33
        &&& self.data@[self.len - 1] == 0
        &&& forall|i: int|
            0 <= i < self.len - 1 ==> is_name_byte(#[trigger] self.data@[i]) && self.data@[i]
                == lower_byte(self.data@[i])
    }

    /// Validates `username` and builds the lowercased, NUL-terminated form.
    ///
    /// Succeeds exactly on the inputs of [`valid_username_bytes`]; the result
    /// then views as the lowercase folding of the input. Inputs over 32 bytes
    /// are reported as too long even when they also hold illegal bytes.
    pub fn try_from(username: &[u8]) -> (r: Result<Username, UsernameError>)
        ensures
            match r {
                Ok(u) => valid_username_bytes(username@) && u@ == lower_bytes(username@),
                Err(e) => !valid_username_bytes(username@) && e == spec_username_error(username@),
            },
    {
        if username.len() > 32 {
            return Err(UsernameError::TooLong);
        }
        if username.len() < 3 {
            return Err(UsernameError::TooShort);
        }
        let mut data: [u8; 33] = [0; 33];
        let n = username.len();
        let mut i: usize = 0;
        while i < n
            invariant
                3 <= n <= 32,
                n == username@.len(),
                i <= n,
                forall|j: int| 0 <= j < i ==> is_name_byte(#[trigger] username@[j]),
                forall|j: int| 0 <= j < i ==> data@[j] == lower_byte(#[trigger] username@[j]),
                forall|j: int| i <= j < 33 ==> #[trigger] data@[j] == 0,
            decreases n - i,
        {
            let c = username[i];
            let is_upper = 65 <= c && c <= 90;
            let allowed = (97 <= c && c <= 122) || is_upper || (48 <= c && c <= 57) || c == 95;
            if !allowed {
                proof {
                    assert(!is_name_byte(username@[i as int]));
                }
                return Err(UsernameError::IllegalCharacters);
            }
            data[i] = if is_upper {
                c + 32
            } else {
                c
            };
            i += 1;
        }
        proof {
            assert forall|j: int| 0 <= j < n implies is_name_byte(#[trigger] data@[j]) && data@[j]
                == lower_byte(data@[j]) by {
                assert(data@[j] == lower_byte(username@[j]));
                assert(is_name_byte(username@[j]));
            }
        }
        let u = Username { data, len: n + 1 };
        proof {
            assert(u@ =~= lower_bytes(username@));
        }
        Ok(u)
    }

    /// The username's length in bytes, counting the NUL terminator.
    pub fn len(&self) -> (r: usize)
        ensures
            r == self@.len() + 1,
    {
        proof {
            use_type_invariant(self);
        }
        self.len
    }

    /// The username as ASCII bytes with the NUL terminator (see also
    /// [`Username::as_bytes`]).
    ///
    /// The result is exactly one byte longer than [`Username::as_bytes`]
    /// gives, and its final byte is the only zero byte in it.
    pub fn as_bytes_with_nul(&self) -> (r: &[u8])
        ensures
            r@ == self@.push(0),
            r@.len() == self@.len() + 1,
            r@[r@.len() - 1] == 0,
            forall|i: int| 0 <= i < self@.len() ==> #[trigger] r@[i] == self@[i] && r@[i] != 0,
            valid_username_bytes(self@),
            lower_bytes(self@) == self@,
    {
        proof {
            use_type_invariant(self);
        }
        let r = vstd::slice::slice_subrange(self.data.as_slice(), 0, self.len);
        proof {
            assert(r@ =~= self@.push(0));
            assert(lower_bytes(self@) =~= self@);
        }
        r
    }

    /// The username as ASCII bytes, without the NUL terminator (see also
    /// [`Username::as_bytes_with_nul`]).
    pub fn as_bytes(&self) -> (r: &[u8])
        ensures
            r@ == self@,
            valid_username_bytes(self@),
            lower_bytes(self@) == self@,
    {
        proof {
            use_type_invariant(self);
        }
        let r = vstd::slice::slice_subrange(self.data.as_slice(), 0, self.len - 1);
        proof {
            assert(r@ =~= self@);
            assert(lower_bytes(self@) =~= self@);
        }
        r
    }
}

} // verus!
