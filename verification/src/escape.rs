use vstd::prelude::*;

use crate::lexer::{spec_unescape, str_to_chars, unescape_chars};

verus! {

/// Escape decoding of a whole string: backslash pairs become their
/// escape values, everything else passes through.
pub trait ParseEscapeCharacter: Sized {
    /// The decoded character sequence, or `None` where a backslash
    /// sequence has no meaning.
    spec fn spec_decoded(self) -> Option<Seq<char>>;

    fn parse_escape_character(self) -> (r: Result<String, ()>)
        ensures
            match r {
                Ok(t) => self.spec_decoded() == Some(t@),
                Err(_) => self.spec_decoded() is None,
            },
    ;
}

impl ParseEscapeCharacter for &str {
    open spec fn spec_decoded(self) -> Option<Seq<char>> {
        spec_unescape(self@)
    }

    fn parse_escape_character(self) -> (r: Result<String, ()>) {
        let v = str_to_chars(self);
        let n = v.len();
        proof {
            assert(v@.subrange(0, n as int) =~= self@);
        }
        match unescape_chars(&v, 0, n) {
            Some(t) => Ok(t),
            None => Err(()),
        }
    }
}

} // verus!
