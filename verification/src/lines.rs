//! The lines of a log file, from its bytes.
//!
//! A line ends at a line feed; a carriage return just before that line feed
//! belongs to the line ending too. Bytes after the last line feed form a last
//! line. A line that is not UTF-8 is left out, and counted.

use vstd::prelude::*;
use vstd::utf8::{decode_utf8, valid_utf8};
use crate::tail::line_views;

verus! {

/// A line without the carriage return that closed it, if one did.
pub open spec fn strip_cr(line: Seq<u8>) -> Seq<u8> {
    if line.len() > 0 && line.last() == 13u8 {
        line.drop_last()
    } else {
        line
    }
}

/// Reading byte by byte: the lines that a line feed has closed so far, and
/// the bytes of the line that is still open.
pub open spec fn scan_lines(bytes: Seq<u8>) -> (Seq<Seq<u8>>, Seq<u8>)
    decreases bytes.len(),
{
    if bytes.len() == 0 {
        (Seq::empty(), Seq::empty())
    } else {
        let (closed, open) = scan_lines(bytes.drop_last());
        if bytes.last() == 10u8 {
            (closed.push(strip_cr(open)), Seq::empty())
        } else {
            (closed, open.push(bytes.last()))
        }
    }
}

/// The lines of a file, each as its bytes: the closed lines, then the open
/// one unless it is empty.
pub open spec fn byte_lines(bytes: Seq<u8>) -> Seq<Seq<u8>> {
    let (closed, open) = scan_lines(bytes);
    if open.len() > 0 {
        closed.push(open)
    } else {
        closed
    }
}

/// The lines that are UTF-8, decoded, in their order; the others are left out.
pub open spec fn decoded_lines(raw: Seq<Seq<u8>>) -> Seq<Seq<char>>
    decreases raw.len(),
{
    if raw.len() == 0 {
        Seq::empty()
    } else if valid_utf8(raw.last()) {
        decoded_lines(raw.drop_last()).push(decode_utf8(raw.last()))
    } else {
        decoded_lines(raw.drop_last())
    }
}

/// The text lines that a reader of the file sees.
pub open spec fn text_lines(bytes: Seq<u8>) -> Seq<Seq<char>> {
    decoded_lines(byte_lines(bytes))
}

/// The lines read from a file, and how many were left out because they were
/// not UTF-8.
#[derive(Debug)]
pub struct LogLines {
    pub lines: Vec<String>,
    pub skipped: usize,
}

/// Decodes one line through `String::from_utf8`.
///
/// Trusted: std documents that it returns the string made of these bytes
/// where they are valid UTF-8, and an error where they are not. Validity and
/// the decoded characters are stated with vstd's own account of UTF-8.
#[verifier::external_body]
fn decode_line(bytes: Vec<u8>) -> (line: Option<String>)
    ensures
        line is Some <==> valid_utf8(bytes@),
        line is Some ==> line.unwrap()@ == decode_utf8(bytes@),
{
    match String::from_utf8(bytes) {
        Ok(text) => Some(text),
        Err(_) => None,
    }
}

/// Splits a file's bytes into its text lines, leaving out and counting the
/// lines that are not UTF-8.
pub fn split_lines(bytes: &[u8]) -> (found: LogLines)
    ensures
        line_views(found.lines@) == text_lines(bytes@),
        found.lines@.len() + found.skipped == byte_lines(bytes@).len(),
{
    let n: usize = bytes.len();
    let mut lines: Vec<String> = Vec::new();
    let mut skipped: usize = 0;
    let mut open: Vec<u8> = Vec::new();
    let ghost mut closed: Seq<Seq<u8>> = Seq::empty();
    let mut i: usize = 0;
    proof {
        assert(bytes@.subrange(0, 0) =~= Seq::<u8>::empty());
        assert(line_views(lines@) =~= decoded_lines(closed));
    }
    while i < n
        invariant
            i <= n,
            n == bytes@.len(),
            scan_lines(bytes@.subrange(0, i as int)) == (closed, open@),
            line_views(lines@) == decoded_lines(closed),
            lines@.len() + skipped == closed.len(),
            closed.len() + (if open@.len() > 0 { 1int } else { 0int }) <= i,
        decreases n - i,
    {
        let b: u8 = bytes[i];
        proof {
            let next = bytes@.subrange(0, i as int + 1);
            assert(next.drop_last() =~= bytes@.subrange(0, i as int));
            assert(next.last() == b);
        }
        if b == 10u8 {
            let len: usize = open.len();
            if len > 0 && open[len - 1] == 13u8 {
                open.pop();
            }
            let ghost line = open@;
            let ghost shown = line_views(lines@);
            match decode_line(open) {
                Some(text) => {
                    lines.push(text);
                    proof {
                        assert(line_views(lines@) =~= shown.push(text@));
                    }
                },
                None => {
                    skipped = skipped + 1;
                },
            }
            proof {
                assert(closed.push(line).drop_last() =~= closed);
                closed = closed.push(line);
            }
            open = Vec::new();
        } else {
            open.push(b);
        }
        i = i + 1;
    }
    proof {
        assert(bytes@.subrange(0, n as int) =~= bytes@);
    }
    if open.len() > 0 {
        let ghost line = open@;
        let ghost shown = line_views(lines@);
        match decode_line(open) {
            Some(text) => {
                lines.push(text);
                proof {
                    assert(line_views(lines@) =~= shown.push(text@));
                }
            },
            None => {
                skipped = skipped + 1;
            },
        }
        proof {
            assert(closed.push(line).drop_last() =~= closed);
        }
    }
    LogLines { lines, skipped }
}

} // verus!
