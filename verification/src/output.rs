//! Classifying raw command output: empty, undecodable, or a sequence of
//! nonempty lines.

use vstd::prelude::*;
use vstd::utf8::{valid_utf8, decode_utf8};
use crate::text::{chars_to_string, lines_of, nl_lines, str_to_chars, views_of};

verus! {

/// Why command output yielded no lines.
#[derive(Clone, Copy, PartialEq, Eq, Debug, Structural)]
pub enum OutputError {
    /// The byte stream was zero-length.
    Empty,
    /// The byte stream was not valid UTF-8.
    Decode,
}

/// Relies on `String::from_utf8`: it returns `Ok` exactly when the bytes are
/// a valid UTF-8 encoding, and the returned string then holds the decoded
/// Unicode scalars of those bytes.
#[verifier::external_body]
fn bytes_to_string(bytes: &Vec<u8>) -> (r: Option<String>)
    ensures
        r is Some <==> valid_utf8(bytes@),
        r matches Some(s) ==> s@ == decode_utf8(bytes@),
{
    match String::from_utf8(bytes.clone()) {
        Ok(s) => Some(s),
        Err(_) => None,
    }
}

/// Raw command output, classified.
pub enum RawLines {
    /// Zero bytes on standard output.
    Empty,
    /// Standard output was not valid text.
    Invalid,
    /// The nonempty lines of the decoded output, in order.
    Lines(Vec<Vec<char>>),
}

/// Decodes captured output and splits it into nonempty lines.
pub fn split_output(bytes: &Vec<u8>) -> (r: RawLines)
    ensures
        r is Empty <==> bytes@.len() == 0,
        r is Invalid <==> bytes@.len() > 0 && !valid_utf8(bytes@),
        r matches RawLines::Lines(ls) ==> bytes@.len() > 0 && valid_utf8(bytes@) && views_of(ls@)
            == nl_lines(decode_utf8(bytes@)),
{
    if bytes.len() == 0 {
        return RawLines::Empty;
    }
    match bytes_to_string(bytes) {
        None => RawLines::Invalid,
        Some(s) => {
            let chars = str_to_chars(s.as_str());
            RawLines::Lines(lines_of(&chars))
        },
    }
}

/// Checks captured standard output: fails on a zero-length stream or on
/// bytes that are not valid text, and otherwise returns the nonempty lines
/// of the output in order.
pub fn check_output(stdout: &Vec<u8>) -> (r: Result<Vec<String>, OutputError>)
    ensures
        r matches Ok(lines) ==> stdout@.len() > 0 && valid_utf8(stdout@) && lines.deep_view()
            == nl_lines(decode_utf8(stdout@)),
        r == Err::<Vec<String>, OutputError>(OutputError::Empty) <==> stdout@.len() == 0,
        r == Err::<Vec<String>, OutputError>(OutputError::Decode) <==> stdout@.len() > 0
            && !valid_utf8(stdout@),
{
    match split_output(stdout) {
        RawLines::Empty => Err(OutputError::Empty),
        RawLines::Invalid => Err(OutputError::Decode),
        RawLines::Lines(ls) => {
            let n = ls.len();
            let mut out: Vec<String> = Vec::new();
            let mut i: usize = 0;
            proof {
                assert(out.deep_view() =~= views_of(ls@).subrange(0, 0));
            }
            while i < n
                invariant
                    i <= n,
                    n == ls@.len(),
                    out.deep_view() == views_of(ls@).subrange(0, i as int),
                decreases n - i,
            {
                let ghost done = out.deep_view();
                let line = chars_to_string(&ls[i]);
                out.push(line);
                proof {
                    assert(out.deep_view() =~= done.push(ls@[i as int]@));
                    assert(views_of(ls@).subrange(0, i + 1) =~= done.push(ls@[i as int]@));
                }
                i = i + 1;
            }
            proof {
                assert(views_of(ls@).subrange(0, n as int) =~= views_of(ls@));
            }
            Ok(out)
        },
    }
}

} // verus!
