//! The CDC line protocol as the control tool speaks it.

use vstd::prelude::*;

use crate::common::json::{json_std_string, json_unsigned, serde_json_string_text};
use crate::common::types::{utf8_len, COMMAND_NAME_CAPACITY, REQUEST_ID_CAPACITY};
use crate::text::{decimal, decimal_string, utf8_error_text, utf8_string};

verus! {

pub const CDC_PROTOCOL_VERSION: u8 = 1;
pub const SERIAL_BAUD_RATE: u32 = 115_200;
/// The longest reply line; a parent configuration can hold many actions and
/// notification entries.
pub const MAX_CDC_LINE_SIZE: usize = 65536;

/// What the serial worker reports.
#[derive(Clone, Debug, PartialEq, Eq)]
pub enum WorkerEvent {
    Opened,
    Line(String),
    Error(String),
    Closed,
}

/// What the serial worker is told.
#[derive(Debug)]
pub enum WorkerCommand {
    Send(String),
    Close,
}

/// One framing result: a complete line's bytes, or an overlong line.
pub ghost enum RawLine {
    Line(Seq<u8>),
    Overlong,
}

/// A line's bytes without its line feed and one carriage return before it.
pub open spec fn strip_terminator(line: Seq<u8>) -> Seq<u8> {
    let l = if line.len() > 0 && line.last() == 10 {
        line.drop_last()
    } else {
        line
    };
    if l.len() > 0 && l.last() == 13 {
        l.drop_last()
    } else {
        l
    }
}

/// The decoder after one more byte: its buffered bytes, whether it is
/// dropping the rest of an overlong line, and what the byte completed.
pub open spec fn decoder_step(current: Seq<u8>, dropping: bool, byte: u8) -> (Seq<u8>, bool, Option<
    RawLine,
>) {
    if dropping {
        (current, byte != 10, None)
    } else if current.len() >= MAX_CDC_LINE_SIZE {
        (Seq::empty(), byte != 10, Some(RawLine::Overlong))
    } else if byte == 10 {
        (Seq::empty(), false, Some(RawLine::Line(strip_terminator(current.push(byte)))))
    } else {
        (current.push(byte), false, None)
    }
}

/// The decoder after `bytes`, with what they completed in order.
pub open spec fn decoder_run(current: Seq<u8>, dropping: bool, bytes: Seq<u8>) -> (Seq<u8>, bool, Seq<
    RawLine,
>)
    decreases bytes.len(),
{
    if bytes.len() == 0 {
        (current, dropping, Seq::empty())
    } else {
        let (c, d, out) = decoder_run(current, dropping, bytes.drop_last());
        let (c2, d2, item) = decoder_step(c, d, bytes.last());
        (c2, d2, match item {
            Some(x) => out.push(x),
            None => out,
        })
    }
}

pub open spec fn overlong_message() -> Seq<char> {
    "CDC response exceeded 65536 bytes"@
}

/// What the control tool makes of a framing result: the UTF-8 text of a
/// line, or an error message.
pub open spec fn line_result(raw: RawLine, r: Result<String, String>) -> bool {
    match raw {
        RawLine::Overlong => r matches Err(m) && m@ == overlong_message(),
        RawLine::Line(bytes) => if vstd::utf8::valid_utf8(bytes) {
            r matches Ok(s) && s@ == vstd::utf8::decode_utf8(bytes)
        } else {
            r matches Err(m) && m@ == "CDC response was not UTF-8: "@ + utf8_error_text(bytes)
        },
    }
}

/// Incremental LF framing of CDC reads, which may split a JSON message at
/// any byte.
#[derive(Debug, Default)]
pub struct LineDecoder {
    current: Vec<u8>,
    dropping_overlong: bool,
}

impl LineDecoder {
    pub closed spec fn buffered(&self) -> Seq<u8> {
        self.current@
    }

    pub closed spec fn is_dropping(&self) -> bool {
        self.dropping_overlong
    }

    pub fn new() -> (r: Self)
        ensures
            r.buffered() == Seq::<u8>::empty(),
            !r.is_dropping(),
    {
        LineDecoder { current: Vec::new(), dropping_overlong: false }
    }

    /// The lines that `bytes` complete, each as text or as an error.
    pub fn feed(&mut self, bytes: &[u8]) -> (r: Vec<Result<String, String>>)
        ensures
            ({
                let (c, d, out) = decoder_run(old(self).buffered(), old(self).is_dropping(), bytes@);
                &&& final(self).buffered() == c
                &&& final(self).is_dropping() == d
                &&& r@.len() == out.len()
                &&& forall|i: int| 0 <= i < out.len() ==> line_result(out[i], #[trigger] r@[i])
            }),
    {
        let mut lines: Vec<Result<String, String>> = Vec::new();
        let mut i: usize = 0;
        while i < bytes.len()
            invariant
                i <= bytes@.len(),
                ({
                    let (c, d, out) = decoder_run(
                        old(self).buffered(),
                        old(self).is_dropping(),
                        bytes@.subrange(0, i as int),
                    );
                    &&& self.buffered() == c
                    &&& self.is_dropping() == d
                    &&& lines@.len() == out.len()
                    &&& forall|k: int| 0 <= k < out.len() ==> line_result(out[k], #[trigger] lines@[k])
                }),
            decreases bytes@.len() - i,
        {
            proof {
                assert(bytes@.subrange(0, i as int + 1).drop_last() =~= bytes@.subrange(0, i as int));
            }
            let byte = bytes[i];
            if self.dropping_overlong {
                if byte == 10u8 {
                    self.dropping_overlong = false;
                }
            } else if self.current.len() >= MAX_CDC_LINE_SIZE {
                self.current = Vec::new();
                self.dropping_overlong = byte != 10u8;
                lines.push(Err("CDC response exceeded 65536 bytes".to_owned()));
                proof {
                    reveal_strlit("CDC response exceeded 65536 bytes");
                }
            } else {
                self.current.push(byte);
                if byte == 10u8 {
                    let mut line: Vec<u8> = Vec::new();
                    std::mem::swap(&mut line, &mut self.current);
                    let ghost whole = line@;
                    let mut end = line.len() - 1;
                    if end > 0 && line[end - 1] == 13u8 {
                        end = end - 1;
                    }
                    let mut content: Vec<u8> = Vec::new();
                    let mut k: usize = 0;
                    while k < end
                        invariant
                            k <= end < line@.len(),
                            content@ == line@.subrange(0, k as int),
                        decreases end - k,
                    {
                        content.push(line[k]);
                        proof {
                            assert(content@ =~= line@.subrange(0, k as int + 1));
                        }
                        k = k + 1;
                    }
                    proof {
                        assert(content@ =~= strip_terminator(whole));
                    }
                    match utf8_string(content) {
                        Ok(text) => lines.push(Ok(text)),
                        Err(error) => {
                            let mut message = String::new();
                            message.append("CDC response was not UTF-8: ");
                            message.append(error.as_str());
                            lines.push(Err(message));
                        },
                    }
                    proof {
                        reveal_strlit("CDC response was not UTF-8: ");
                    }
                }
            }
            i = i + 1;
        }
        proof {
            assert(bytes@.subrange(0, bytes@.len() as int) =~= bytes@);
        }
        lines
    }
}

/// `n` in decimal, padded with zeros to at least `width` digits.
pub open spec fn zero_padded(n: nat, width: nat) -> Seq<char> {
    let d = decimal(n);
    if d.len() >= width {
        d
    } else {
        Seq::new((width - d.len()) as nat, |i: int| '0') + d
    }
}

/// The identifier of the control tool's `n`-th request.
pub open spec fn request_id_text(n: u64) -> Seq<char> {
    "desktop-"@ + zero_padded(n as nat, 6)
}

pub fn request_id_for(request_number: u64) -> (r: String)
    ensures
        r@ == request_id_text(request_number),
{
    let digits = decimal_string(request_number);
    let len = digits.as_str().unicode_len();
    let mut id = String::new();
    id.append("desktop-");
    let ghost start = id@;
    let mut k: usize = len;
    while k < 6
        invariant
            len <= k <= 6 || (k == len && len > 6),
            len == decimal(request_number as nat).len(),
            id@ == start + Seq::new((k - len) as nat, |i: int| '0'),
        decreases 6 - k,
    {
        crate::text::push_char(&mut id, '0');
        proof {
            assert(id@ =~= start + Seq::new((k + 1 - len) as nat, |i: int| '0'));
        }
        k = k + 1;
    }
    id.append(digits.as_str());
    proof {
        if len >= 6 {
            assert(Seq::new((k - len) as nat, |i: int| '0') =~= Seq::<char>::empty());
        }
        assert(id@ =~= request_id_text(request_number));
    }
    id
}

/// The request line for a command: the JSON request, `params` given as
/// JSON text, then a line feed.
pub open spec fn request_line(command: Seq<char>, params_json: Seq<char>, request_number: u64) -> Seq<
    char,
> {
    "{\"version\":"@ + json_unsigned(CDC_PROTOCOL_VERSION as nat) + ",\"request_id\":"@
        + serde_json_string_text(request_id_text(request_number)) + ",\"command\":"@
        + serde_json_string_text(command) + ",\"params\":"@ + params_json + "}\n"@
}

/// The request line for `command` with the JSON parameters `params_json`.
pub fn build_request(command: &str, params_json: &str, request_number: u64) -> (r: Result<
    String,
    String,
>)
    ensures
        if utf8_len(request_id_text(request_number)) > REQUEST_ID_CAPACITY {
            r matches Err(m) && m@ == "request_id is too long"@
        } else if utf8_len(command@) > COMMAND_NAME_CAPACITY {
            r matches Err(m) && m@ == "command name is too long"@
        } else {
            r matches Ok(line) && line@ == request_line(command@, params_json@, request_number)
        },
{
    let id = request_id_for(request_number);
    if id.as_str().as_bytes().len() > REQUEST_ID_CAPACITY {
        return Err("request_id is too long".to_owned());
    }
    if command.as_bytes().len() > COMMAND_NAME_CAPACITY {
        return Err("command name is too long".to_owned());
    }
    let mut line = String::new();
    line.append("{\"version\":");
    crate::common::json::push_unsigned(&mut line, CDC_PROTOCOL_VERSION as u64);
    line.append(",\"request_id\":");
    let id_json = json_std_string(id.as_str());
    line.append(id_json.as_str());
    line.append(",\"command\":");
    let command_json = json_std_string(command);
    line.append(command_json.as_str());
    line.append(",\"params\":");
    line.append(params_json);
    line.append("}\n");
    Ok(line)
}

/// Feeding `a` and then `b` leaves the decoder as feeding `a + b` at once
/// does, and completes the same lines in the same order: where a read splits
/// the stream does not matter.
pub proof fn law_decoder_split_invariant(current: Seq<u8>, dropping: bool, a: Seq<u8>, b: Seq<u8>)
    ensures
        ({
            let (c1, d1, out1) = decoder_run(current, dropping, a);
            let (c2, d2, out2) = decoder_run(c1, d1, b);
            let (c, d, out) = decoder_run(current, dropping, a + b);
            c == c2 && d == d2 && out == out1 + out2
        }),
    decreases b.len(),
{
    if b.len() == 0 {
        assert(a + b =~= a);
        let out1 = decoder_run(current, dropping, a).2;
        assert(out1 + Seq::<RawLine>::empty() =~= out1);
    } else {
        law_decoder_split_invariant(current, dropping, a, b.drop_last());
        assert((a + b).drop_last() =~= a + b.drop_last());
        assert((a + b).last() == b.last());
        let (c1, d1, out1) = decoder_run(current, dropping, a);
        let out2 = decoder_run(c1, d1, b.drop_last()).2;
        assert forall|x: RawLine| (out1 + out2).push(x) =~= out1 + out2.push(x) by {}
    }
}

} // verus!
