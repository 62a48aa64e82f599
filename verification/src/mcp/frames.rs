//! Messages on a stream: a header with the length of the body, an empty line, the body.

use vstd::prelude::*;
use vstd::string::StringExecFns;

use crate::num::{self, digits_text, parse_nat};
use crate::text::{self, strip_prefix, trim};

verus! {

/// What the reader of a message knows so far.
#[derive(Debug, Clone, Copy, PartialEq, Eq, Structural)]
pub struct HeaderState {
    /// The length of the body, once a header has named it.
    pub content_length: Option<usize>,
}

/// What follows a line of a message's header.
#[derive(Debug, Clone, Copy, PartialEq, Eq, Structural)]
pub enum HeaderStep {
    /// Another line of the header.
    More,
    /// The body, of this many bytes.
    Body(usize),
    /// Nothing: the header named no length, so there is no message.
    NoMessage,
    /// Nothing: the header named a length that is no number.
    BadLength,
}

/// The reader before the first line.
pub open spec fn header_start() -> HeaderState {
    HeaderState { content_length: None }
}

/// What a line of a header means: an empty line ends the header, a length is remembered, and every
/// other line is skipped. White space around a line and around the length does not count.
pub open spec fn header_next(state: HeaderState, line: Seq<char>) -> (HeaderState, HeaderStep) {
    let t = text::trimmed(line);
    if t.len() == 0 {
        match state.content_length {
            Some(n) => (state, HeaderStep::Body(n)),
            None => (state, HeaderStep::NoMessage),
        }
    } else {
        match text::stripped(t, "Content-Length:"@) {
            None => (state, HeaderStep::More),
            Some(value) => match num::parsed_nat(text::trimmed(value), usize::MAX as nat) {
                Some(n) => (
                    HeaderState { content_length: Some(n as usize) },
                    HeaderStep::More,
                ),
                None => (state, HeaderStep::BadLength),
            },
        }
    }
}

impl HeaderState {
    /// A reader before the first line.
    pub fn new() -> (r: HeaderState)
        ensures
            r == header_start(),
    {
        HeaderState { content_length: None }
    }

    /// Takes in a line of the header and says what follows.
    pub fn read_line(&mut self, line: &str) -> (r: HeaderStep)
        ensures
            (*final(self), r) == header_next(*old(self), line@),
    {
        let t = trim(line);
        if t.as_str().is_empty() {
            return match self.content_length {
                Some(n) => HeaderStep::Body(n),
                None => HeaderStep::NoMessage,
            };
        }
        match strip_prefix(t.as_str(), "Content-Length:") {
            None => HeaderStep::More,
            Some(value) => {
                let v = trim(value.as_str());
                match parse_nat(v.as_str(), usize::MAX as u64) {
                    Some(n) => {
                        self.content_length = Some(n as usize);
                        HeaderStep::More
                    },
                    None => HeaderStep::BadLength,
                }
            },
        }
    }
}

/// The header of a message with a body of the given length in bytes.
pub open spec fn header_text(len: nat) -> Seq<char> {
    "Content-Length: "@ + num::digits(len) + "\r\n\r\n"@
}

/// The header of a message with the given body.
pub fn message_header(body: &str) -> (r: String)
    requires
        vstd::utf8::encode_utf8(body@).len() <= usize::MAX,
    ensures
        r@ == header_text(vstd::utf8::encode_utf8(body@).len()),
{
    let mut s = "Content-Length: ".to_owned();
    s.append(digits_text(body.len() as u128).as_str());
    s.append("\r\n\r\n");
    s
}

proof fn lemma_trim_end(core: Seq<char>, w: Seq<char>)
    requires
        core.len() > 0,
        !text::is_white(core.last()),
        forall|i: int| 0 <= i < w.len() ==> text::is_white(#[trigger] w[i]),
    ensures
        text::trimmed_end(core + w) == core,
    decreases w.len(),
{
    let s = core + w;
    if w.len() > 0 {
        assert(s.last() == w[w.len() - 1]);
        assert(s.drop_last() =~= core + w.drop_last());
        lemma_trim_end(core, w.drop_last());
    } else {
        assert(s =~= core);
    }
}

/// The header of a message is read back: its first line names the length, and the empty line after
/// it says that a body of that length follows.
pub proof fn written_headers_are_read(len: usize)
    ensures
        ({
            let first = "Content-Length: "@ + num::digits(len as nat) + "\r\n"@;
            let second = "\r\n"@;
            let known = HeaderState { content_length: Some(len) };
            &&& header_text(len as nat) == first + second
            &&& header_next(header_start(), first) == (known, HeaderStep::More)
            &&& header_next(known, second) == (known, HeaderStep::Body(len))
        }),
{
    reveal_strlit("Content-Length: ");
    reveal_strlit("Content-Length:");
    reveal_strlit("\r\n");
    reveal_strlit("\r\n\r\n");
    let d = num::digits(len as nat);
    num::lemma_digits_are_digits(len as nat);
    let second = "\r\n"@;
    let first = "Content-Length: "@ + d + second;
    assert(header_text(len as nat) =~= first + second);
    let core = "Content-Length: "@ + d;
    assert(core.last() == d[d.len() - 1]);
    assert(num::is_digit(d[d.len() - 1]));
    assert(text::trimmed_start(first) == first) by {
        assert(first[0] == 'C');
    }
    lemma_trim_end(core, second);
    assert(text::trimmed(first) == core);
    let name = "Content-Length:"@;
    assert(name.is_prefix_of(core)) by {
        assert(core.take(15) =~= name);
    }
    let value = core.skip(15);
    assert(value =~= seq![' '] + d);
    assert(text::stripped(core, name) == Some(value));
    assert(text::trimmed_start(value) == d) by {
        assert(value[0] == ' ');
        assert(value.skip(1) =~= d);
        assert(num::is_digit(d[0]));
        assert(text::trimmed_start(d) == d);
    }
    lemma_trim_end(d, Seq::empty());
    assert(d + Seq::<char>::empty() =~= d);
    assert(text::trimmed(value) == d);
    num::decimal_round_trip(len as nat, usize::MAX as nat);
    assert(text::trimmed(second).len() == 0) by {
        let rest = second.skip(1);
        assert(second[0] == '\r');
        assert(rest[0] == '\n');
        assert(rest.skip(1) =~= Seq::empty());
        assert(text::trimmed_start(rest.skip(1)).len() == 0);
        assert(text::trimmed_start(rest).len() == 0);
        assert(text::trimmed_start(second).len() == 0);
    }
}

/// Only an empty line ends a header, with the length that was remembered or without a message; only a line
/// with a length changes what is remembered, and a length that is none is told.
pub proof fn headers_end_with_an_empty_line(state: HeaderState, line: Seq<char>)
    ensures
        ({
            let t = text::trimmed(line);
            let next = header_next(state, line);
            let length = "Content-Length:"@.is_prefix_of(t);
            &&& t.len() == 0 ==> next.0 == state && next.1 == match state.content_length {
                Some(n) => HeaderStep::Body(n),
                None => HeaderStep::NoMessage,
            }
            &&& t.len() > 0 ==> next.1 is More || next.1 is BadLength
            &&& t.len() > 0 && !length ==> next.0 == state && next.1 is More
            &&& t.len() > 0 && length ==> {
                let said = num::parsed_nat(
                    text::trimmed(t.skip("Content-Length:"@.len() as int)),
                    usize::MAX as nat,
                );
                &&& said matches Some(n) ==> next.0.content_length == Some(n as usize)
                    && next.1 is More
                &&& said is None ==> next.0 == state && next.1 is BadLength
            }
        }),
{
}

} // verus!
