//! The header of a response: reading it from the stream byte by byte, and
//! taking it apart.

use crate::error::ActorError;
use crate::text::{chars_of, decode, parse_u8, parsed_u8, split_at_first, split_once, string_of};
use vstd::prelude::*;
use vstd::slice::slice_subrange;
use vstd::utf8::{decode_utf8, valid_utf8};

verus! {

/// The most bytes that are read in search of the end of the header.
pub const HEADER_LIMIT: usize = 1027;

/// Whether `s` ends with a carriage return and a line feed.
pub open spec fn ends_with_crlf(s: Seq<u8>) -> bool {
    s.len() >= 2 && s[s.len() - 2] == 0x0D && s[s.len() - 1] == 0x0A
}

/// Whether no more bytes are read after `s`: the header has ended, or the
/// limit is reached.
pub open spec fn complete(s: Seq<u8>) -> bool {
    ends_with_crlf(s) || s.len() >= HEADER_LIMIT
}

/// Whether reading stopped nowhere before the end of `s`.
pub open spec fn unbroken(s: Seq<u8>) -> bool {
    forall|k: int| 0 <= k < s.len() ==> !complete(#[trigger] s.take(k))
}

/// The header that the bytes `s` hold: `s` without the carriage return and
/// line feed that may end it.
pub open spec fn header_of(s: Seq<u8>) -> Seq<u8> {
    if ends_with_crlf(s) {
        s.take(s.len() - 2)
    } else {
        s
    }
}

/// Reads a response header one byte at a time. It takes bytes until it has
/// seen a carriage return followed by a line feed, or has taken
/// `HEADER_LIMIT` bytes, whichever comes first; whatever it is offered after
/// that it leaves alone. Its view is the bytes that it has taken.
pub struct HeaderReader {
    seen: Vec<u8>,
}

impl View for HeaderReader {
    type V = Seq<u8>;

    closed spec fn view(&self) -> Seq<u8> {
        self.seen@
    }
}

impl HeaderReader {
    #[verifier::type_invariant]
    closed spec fn well_formed(self) -> bool {
        unbroken(self.seen@)
    }

    /// A reader that has taken nothing.
    pub fn new() -> (r: HeaderReader)
        ensures
            r@ == Seq::<u8>::empty(),
    {
        HeaderReader { seen: Vec::with_capacity(HEADER_LIMIT) }
    }

    /// Whether the reader takes no more bytes.
    pub fn is_done(&self) -> (r: bool)
        ensures
            r == complete(self@),
    {
        let n = self.seen.len();
        n >= HEADER_LIMIT || (n >= 2 && self.seen[n - 2] == 0x0D && self.seen[n - 1] == 0x0A)
    }

    /// Offers the next byte of the stream. The reader takes it unless it is
    /// done already. Returns whether it is done now.
    pub fn push(&mut self, byte: u8) -> (done: bool)
        ensures
            final(self)@ == if complete(old(self)@) {
                old(self)@
            } else {
                old(self)@.push(byte)
            },
            done == complete(final(self)@),
            unbroken(final(self)@),
            final(self)@.len() <= HEADER_LIMIT,
    {
        proof {
            use_type_invariant(&*self);
            lemma_unbroken_is_short(self.seen@);
        }
        if !self.is_done() {
            proof {
                let before = self.seen@;
                let after = before.push(byte);
                assert forall|k: int| 0 <= k < after.len() implies !complete(
                    #[trigger] after.take(k),
                ) by {
                    if k < before.len() {
                        assert(after.take(k) == before.take(k));
                    } else {
                        assert(after.take(k) == before);
                    }
                }
            }
            let mut seen: Vec<u8> = Vec::new();
            core::mem::swap(&mut self.seen, &mut seen);
            seen.push(byte);
            self.seen = seen;
        }
        self.is_done()
    }

    /// How many bytes the reader has taken.
    pub fn len(&self) -> (r: usize)
        ensures
            r == self@.len(),
            r <= HEADER_LIMIT,
    {
        proof {
            use_type_invariant(self);
            lemma_unbroken_is_short(self.seen@);
        }
        self.seen.len()
    }

    /// The header read so far, without the carriage return and line feed
    /// that end it.
    pub fn header(&self) -> (r: &[u8])
        ensures
            r@ == header_of(self@),
            r@.len() <= HEADER_LIMIT,
    {
        proof {
            use_type_invariant(self);
            lemma_unbroken_is_short(self.seen@);
        }
        let n = self.seen.len();
        if n >= 2 && self.seen[n - 2] == 0x0D && self.seen[n - 1] == 0x0A {
            slice_subrange(self.seen.as_slice(), 0, n - 2)
        } else {
            assert(self.seen@.subrange(0, n as int) == self.seen@);
            slice_subrange(self.seen.as_slice(), 0, n)
        }
    }
}

/// Bytes among which reading never stopped early are no more than the
/// limit.
pub proof fn lemma_unbroken_is_short(s: Seq<u8>)
    requires
        unbroken(s),
    ensures
        s.len() <= HEADER_LIMIT,
{
    if s.len() > HEADER_LIMIT {
        assert(complete(s.take(HEADER_LIMIT as int)));
    }
}

/// Where reading stops in a stream is decided by the stream: of two runs
/// of bytes of which one begins the other, and among which reading never
/// stopped early, only the longer can be complete, unless they are the same.
pub proof fn lemma_header_is_determined(a: Seq<u8>, b: Seq<u8>)
    requires
        a.is_prefix_of(b),
        complete(a),
        unbroken(b),
    ensures
        a == b,
{
    if a.len() < b.len() {
        assert(b.take(a.len() as int) == a);
    }
}

/// Takes a header apart: the status before the first space, the meta after
/// it.
pub fn parse_header(header: &[u8]) -> (r: Result<(u8, String), ActorError>)
    ensures
        match r {
            Ok((status, meta)) => {
                &&& valid_utf8(header@)
                &&& split_at_first(decode_utf8(header@), seq![' ']) matches Some((a, b))
                &&& parsed_u8(a) == Some(status)
                &&& meta@ == b
            },
            Err(ActorError::Utf8Header(_)) => !valid_utf8(header@),
            Err(ActorError::MalformedHeader) => {
                &&& valid_utf8(header@)
                &&& split_at_first(decode_utf8(header@), seq![' ']) is None
            },
            Err(ActorError::MalformedStatus(token)) => {
                &&& valid_utf8(header@)
                &&& split_at_first(decode_utf8(header@), seq![' ']) matches Some((a, b))
                &&& parsed_u8(a) is None
                &&& token@ == a
            },
            Err(_) => false,
        },
{
    let text = match decode(header) {
        Ok(text) => text,
        Err(e) => {
            return Err(ActorError::Utf8Header(e));
        },
    };
    let chars = chars_of(text.as_str());
    let space: [char; 1] = [' '];
    assert(space@ == seq![' ']);
    match split_once(chars.as_slice(), space.as_slice()) {
        Some((status, meta)) => match parse_u8(status) {
            Some(n) => Ok((n, string_of(meta))),
            None => Err(ActorError::MalformedStatus(string_of(status))),
        },
        None => Err(ActorError::MalformedHeader),
    }
}

} // verus!
