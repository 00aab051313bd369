//! Line-oriented reading and header parsing over an in-memory byte stream.
//!
//! A connection handler reads a request line by line; a line ends at the
//! first carriage-return/line-feed pair. The socket itself is read outside
//! this crate; the bytes it yields are handed over as a [`MemoryStream`],
//! and everything that decides where a line or a header ends is here.

use vstd::prelude::*;

verus! {

/// The mathematical state of a stream: its bytes and the read position.
pub struct StreamModel {
    /// Every byte the stream holds.
    pub data: Seq<u8>,
    /// How many bytes have been read so far.
    pub pos: nat,
}

/// An in-memory byte stream read one byte at a time.
#[derive(Debug)]
pub struct MemoryStream {
    read_data: Vec<u8>,
    index: usize,
}

impl View for MemoryStream {
    type V = StreamModel;

    closed spec fn view(&self) -> StreamModel {
        StreamModel { data: self.read_data@, pos: self.index as nat }
    }
}

impl MemoryStream {
    /// The read position never passes the end of the data.
    pub open spec fn wf(self) -> bool {
        self@.pos <= self@.data.len()
    }

    /// A stream over the given bytes, positioned at their start.
    pub fn new(read_data: Vec<u8>) -> (r: Self)
        ensures
            r@.data == read_data@,
            r@.pos == 0,
            r.wf(),
    {
        MemoryStream { read_data, index: 0 }
    }

    /// Reads the next byte, or `None` once the data is exhausted — the
    /// in-memory stand-in for a remote peer closing the connection.
    pub fn read_byte(&mut self) -> (r: Option<u8>)
        ensures
            old(self)@.pos < old(self)@.data.len() ==> {
                &&& r == Some(old(self)@.data[old(self)@.pos as int])
                &&& final(self)@.data == old(self)@.data
                &&& final(self)@.pos == old(self)@.pos + 1
            },
            old(self)@.pos >= old(self)@.data.len() ==> r is None && final(self)@ == old(self)@,
    {
        if self.index < self.read_data.len() {
            let b = self.read_data[self.index];
            self.index = self.index + 1;
            Some(b)
        } else {
            None
        }
    }
}

/// Why reading failed.
#[derive(Clone, Copy, Debug, PartialEq, Eq, Structural)]
pub enum ReadError {
    /// The data ended before the expected line ending arrived.
    ConnectionAborted,
    /// The bytes of a header block did not parse as an HTTP header.
    MalformedHeader,
}

/// The position of the first carriage-return/line-feed pair at or after
/// `from`, if any.
pub open spec fn find_crlf(s: Seq<u8>, from: int) -> Option<int>
    decreases s.len() - from,
{
    if from < 0 || from + 2 > s.len() {
        None
    } else if s[from] == 13 && s[from + 1] == 10 {
        Some(from)
    } else {
        find_crlf(s, from + 1)
    }
}

/// Where a pair stands and none stands before it, the search finds it.
proof fn lemma_find_crlf_found(s: Seq<u8>, from: int, i: int)
    requires
        0 <= from <= i,
        i + 2 <= s.len(),
        s[i] == 13 && s[i + 1] == 10,
        forall|j: int| from <= j < i ==> !((#[trigger] s[j]) == 13 && s[j + 1] == 10),
    ensures
        find_crlf(s, from) == Some(i),
    decreases i - from,
{
    if from < i {
        lemma_find_crlf_found(s, from + 1, i);
    }
}

/// Where no pair stands anywhere at or after `from`, the search fails.
proof fn lemma_find_crlf_none(s: Seq<u8>, from: int)
    requires
        0 <= from,
        forall|j: int| from <= j && j + 2 <= s.len() ==> !((#[trigger] s[j]) == 13 && s[j + 1] == 10),
    ensures
        find_crlf(s, from) is None,
    decreases s.len() - from,
{
    if from + 2 <= s.len() {
        lemma_find_crlf_none(s, from + 1);
    }
}

/// A found pair stands at or after `from`, fits in the data, and is a pair.
proof fn lemma_find_crlf_bounds(s: Seq<u8>, from: int)
    requires
        find_crlf(s, from) is Some,
    ensures
        from <= find_crlf(s, from)->0,
        find_crlf(s, from)->0 + 2 <= s.len(),
        s[find_crlf(s, from)->0] == 13,
        s[find_crlf(s, from)->0 + 1] == 10,
    decreases s.len() - from,
{
    if !(from < 0 || from + 2 > s.len()) && !(s[from] == 13 && s[from + 1] == 10) {
        lemma_find_crlf_bounds(s, from + 1);
    }
}

/// Reads one line: the bytes up to the first carriage-return/line-feed
/// pair, which is cut off when `chop_eol` is set and kept otherwise. When
/// the data ends before a pair arrives, the whole rest is consumed and the
/// read fails.
pub fn read_next_line(stream: &mut MemoryStream, chop_eol: bool) -> (r: Result<
    Vec<u8>,
    ReadError,
>)
    requires
        old(stream).wf(),
    ensures
        final(stream).wf(),
        final(stream)@.data == old(stream)@.data,
        ({
            let data = old(stream)@.data;
            let start = old(stream)@.pos as int;
            match find_crlf(data, start) {
                Some(i) => {
                    &&& final(stream)@.pos == i + 2
                    &&& r matches Ok(line) && line@ == if chop_eol {
                        data.subrange(start, i)
                    } else {
                        data.subrange(start, i + 2)
                    }
                },
                None => {
                    &&& final(stream)@.pos == data.len()
                    &&& r matches Err(e) && e == ReadError::ConnectionAborted
                },
            }
        }),
{
    let ghost data = stream@.data;
    let ghost start = stream@.pos as int;
    let mut buf: Vec<u8> = Vec::new();
    let mut prev_byte_was_cr = false;
    loop
        invariant
            stream.wf(),
            data == old(stream)@.data,
            start == old(stream)@.pos as int,
            stream@.data == data,
            0 <= start <= stream@.pos <= data.len(),
            buf@ == data.subrange(start, stream@.pos as int),
            prev_byte_was_cr <==> (stream@.pos > start && data[stream@.pos - 1] == 13),
            forall|j: int|
                start <= j < stream@.pos - 1 ==> !((#[trigger] data[j]) == 13 && data[j + 1]
                    == 10),
        decreases data.len() - stream@.pos,
    {
        let ghost p0 = stream@.pos as int;
        let byte = match stream.read_byte() {
            Some(b) => b,
            None => {
                proof {
                    lemma_find_crlf_none(data, start);
                }
                return Err(ReadError::ConnectionAborted);
            },
        };
        if byte == 10 && prev_byte_was_cr {
            proof {
                lemma_find_crlf_found(data, start, p0 - 1);
            }
            if chop_eol {
                buf.pop();
                proof {
                    assert(buf@ =~= data.subrange(start, p0 - 1));
                }
            } else {
                buf.push(byte);
                proof {
                    assert(buf@ =~= data.subrange(start, p0 + 1));
                }
            }
            return Ok(buf);
        }
        prev_byte_was_cr = byte == 13;
        buf.push(byte);
        proof {
            assert(buf@ =~= data.subrange(start, p0 + 1));
        }
    }
}

/// The complete lines of `s` from `from` on, each cut off before its
/// carriage-return/line-feed pair; bytes after the last pair belong to no
/// line.
pub open spec fn lines_of(s: Seq<u8>, from: int) -> Seq<Seq<u8>>
    decreases s.len() - from,
    via lines_of_decreases
{
    match find_crlf(s, from) {
        Some(i) => seq![s.subrange(from, i)] + lines_of(s, i + 2),
        None => Seq::empty(),
    }
}

#[via_fn]
proof fn lines_of_decreases(s: Seq<u8>, from: int) {
    if find_crlf(s, from) is Some {
        lemma_find_crlf_bounds(s, from);
    }
}

/// Serves a connection: reads line after line until the data runs out, and
/// returns every complete line that was read. The unterminated tail, if
/// any, is consumed and dropped, as the failing read that hit it would
/// have dropped it.
pub fn handle_client(stream: &mut MemoryStream) -> (r: Vec<Vec<u8>>)
    requires
        old(stream).wf(),
    ensures
        final(stream).wf(),
        final(stream)@.data == old(stream)@.data,
        final(stream)@.pos == old(stream)@.data.len(),
        r.deep_view() == lines_of(old(stream)@.data, old(stream)@.pos as int),
{
    let ghost data = stream@.data;
    let ghost start = stream@.pos as int;
    let mut lines: Vec<Vec<u8>> = Vec::new();
    proof {
        assert(lines.deep_view() =~= Seq::<Seq<u8>>::empty());
        assert(lines.deep_view() + lines_of(data, start) =~~= lines_of(data, start));
    }
    loop
        invariant
            stream.wf(),
            data == old(stream)@.data,
            start == old(stream)@.pos as int,
            stream@.data == data,
            0 <= start <= data.len(),
            stream@.pos <= data.len(),
            lines_of(data, start) == lines.deep_view() + lines_of(data, stream@.pos as int),
        decreases data.len() - stream@.pos,
    {
        let ghost p0 = stream@.pos as int;
        let ghost dv0 = lines.deep_view();
        let line = match read_next_line(stream, true) {
            Ok(line) => line,
            Err(_) => {
                proof {
                    assert(dv0 + lines_of(data, stream@.pos as int) =~~= dv0);
                }
                return lines;
            },
        };
        lines.push(line);
        proof {
            lemma_find_crlf_bounds(data, p0);
            let i = find_crlf(data, p0)->0;
            assert(lines.deep_view() =~~= dv0.push(line@));
            assert(lines.deep_view() + lines_of(data, i + 2) =~~= dv0 + lines_of(data, p0));
        }
    }
}

/// Stands for `http_header::Header`, so that a parsed header can be handed
/// through and back to callers that inspect it.
#[verifier::external_type_specification]
#[verifier::external_body]
pub struct ExHeader(http_header::Header);

/// Whether a block of bytes parses as an HTTP header. The result of
/// `http_header::Header::read` depends on the bytes alone.
pub uninterp spec fn header_parse_ok(bytes: Seq<u8>) -> bool;

/// The position of the first empty line — two carriage-return/line-feed
/// pairs in a row — at or after `from`, if any.
pub open spec fn find_double_crlf(s: Seq<u8>, from: int) -> Option<int>
    decreases s.len() - from,
{
    if from < 0 || from + 4 > s.len() {
        None
    } else if s[from] == 13 && s[from + 1] == 10 && s[from + 2] == 13 && s[from + 3] == 10 {
        Some(from)
    } else {
        find_double_crlf(s, from + 1)
    }
}

/// Relies on `http_header::Header::read`: whether a block of bytes parses
/// as an HTTP header is a function of the bytes alone; the reader consumes
/// the shortest prefix ending in an empty line and parses it, so what it
/// leaves behind are the bytes after the first empty line.
#[verifier::external_body]
fn parse_header_bytes(buf: &Vec<u8>) -> (r: Option<(http_header::Header, Vec<u8>)>)
    ensures
        r is Some <==> header_parse_ok(buf@),
        r matches Some(p) ==> {
            &&& find_double_crlf(buf@, 0) is Some
            &&& p.1@ == buf@.subrange(find_double_crlf(buf@, 0)->0 + 4, buf@.len() as int)
        },
{
    let mut rest: &[u8] = buf.as_slice();
    match http_header::Header::read(&mut rest) {
        Ok(header) => Some((header, rest.to_vec())),
        Err(_) => None,
    }
}

/// The position just past the empty line that closes a header block whose
/// lines start at `from`: lines are read one after the other, and the
/// block ends with the first line that is nothing but its own
/// carriage-return/line-feed pair.
pub open spec fn header_block_end(s: Seq<u8>, from: int) -> Option<int>
    decreases s.len() - from,
    via header_block_end_decreases
{
    match find_crlf(s, from) {
        Some(i) => if i == from {
            Some(from + 2)
        } else {
            header_block_end(s, i + 2)
        },
        None => None,
    }
}

#[via_fn]
proof fn header_block_end_decreases(s: Seq<u8>, from: int) {
    if find_crlf(s, from) is Some {
        lemma_find_crlf_bounds(s, from);
    }
}

/// Reads one header block — every line up to and including the first empty
/// one — and parses it. The lines read are returned to the caller as the
/// parsed header together with whatever bytes the parser left behind.
/// Reading itself cannot fail here: the data is required to hold a
/// complete block. A block the parser refuses is reported as malformed.
pub fn read_header(stream: &mut MemoryStream) -> (r: Result<
    (http_header::Header, Vec<u8>),
    ReadError,
>)
    requires
        old(stream).wf(),
        header_block_end(old(stream)@.data, old(stream)@.pos as int) is Some,
    ensures
        final(stream).wf(),
        final(stream)@.data == old(stream)@.data,
        ({
            let data = old(stream)@.data;
            let start = old(stream)@.pos as int;
            let end = header_block_end(data, start)->0;
            let block = data.subrange(start, end);
            &&& final(stream)@.pos == end
            &&& (r is Ok <==> header_parse_ok(block))
            &&& (r matches Ok(p) ==> {
                &&& find_double_crlf(block, 0) is Some
                &&& p.1@ == block.subrange(
                    find_double_crlf(block, 0)->0 + 4,
                    block.len() as int,
                )
            })
            &&& (r matches Err(e) ==> e == ReadError::MalformedHeader)
        }),
{
    let ghost data = stream@.data;
    let ghost start = stream@.pos as int;
    let ghost end = header_block_end(data, start)->0;
    let mut buf: Vec<u8> = Vec::new();
    let mut end_of_header = false;
    while !end_of_header
        invariant
            stream.wf(),
            data == old(stream)@.data,
            start == old(stream)@.pos as int,
            end == header_block_end(data, start)->0,
            header_block_end(data, start) is Some,
            stream@.data == data,
            0 <= start <= stream@.pos <= data.len(),
            buf@ == data.subrange(start, stream@.pos as int),
            !end_of_header ==> header_block_end(data, stream@.pos as int) == header_block_end(
                data,
                start,
            ),
            end_of_header ==> stream@.pos == end,
        decreases data.len() - stream@.pos,
    {
        let ghost p0 = stream@.pos as int;
        let mut bytes = match read_next_line(stream, false) {
            Ok(line) => line,
            Err(e) => {
                // A complete block is required, so no read fails here.
                proof {
                    assert(false);
                }
                return Err(e);
            },
        };
        proof {
            lemma_find_crlf_bounds(data, p0);
        }
        if bytes.len() == 2 && bytes[0] == 13 && bytes[1] == 10 {
            end_of_header = true;
        }
        buf.append(&mut bytes);
        proof {
            assert(buf@ =~= data.subrange(start, stream@.pos as int));
            let i = find_crlf(data, p0)->0;
            if i == p0 {
                assert(end_of_header);
                assert(header_block_end(data, p0) == Some(p0 + 2));
            } else {
                assert(!end_of_header);
                assert(header_block_end(data, p0) == header_block_end(data, i + 2));
            }
        }
    }
    match parse_header_bytes(&buf) {
        Some(parsed) => Ok(parsed),
        None => Err(ReadError::MalformedHeader),
    }
}

} // verus!
