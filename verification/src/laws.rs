//! The library's laws: how success and each failure of the parse relate to
//! the record framing, stated and proved over the spec-level model.

use vstd::prelude::*;
use crate::commands::{CommandModel, ParseError};
use crate::decode::{recognized, spec_decode};
use crate::parse::{magic, spec_frame, spec_parse, spec_records};
use crate::reader::le16;

verus! {

/// The part of a buffer that holds the record stream: everything after the
/// 8-byte header.
pub open spec fn record_stream(b: Seq<u8>) -> Seq<u8> {
    b.subrange(8, b.len() as int)
}

/// Law: parsing a record stream is framing plus per-record decoding. When it
/// succeeds, the stream frames cleanly into record bodies and the result
/// holds exactly one command per body, each the decoding of its body, in
/// file order; and whenever the stream frames cleanly and every body
/// decodes, parsing succeeds.
pub proof fn lemma_records_of_frame(b: Seq<u8>)
    ensures
        (spec_records(b) matches Ok(cmds) ==> spec_frame(b) matches Some(bodies)
            && cmds.len() == bodies.len()
            && (forall|i: int| 0 <= i < bodies.len()
                ==> (#[trigger] spec_decode(bodies[i])) == Ok::<CommandModel, ParseError>(cmds[i]))),
        (spec_frame(b) matches Some(bodies)
            && (forall|i: int| 0 <= i < bodies.len() ==> (#[trigger] spec_decode(bodies[i])) is Ok)
            ==> spec_records(b) is Ok),
    decreases b.len(),
{
    if b.len() >= 2 {
        let n = le16(b.subrange(0, 2));
        if b.len() - 2 >= n {
            let body = b.subrange(2, 2 + n);
            let rest = b.subrange(2 + n, b.len() as int);
            lemma_records_of_frame(rest);
            if let Ok(cmds) = spec_records(b) {
                let rest_cmds = spec_records(rest)->Ok_0;
                let rest_bodies = spec_frame(rest)->Some_0;
                let bodies = seq![body] + rest_bodies;
                assert(spec_frame(b) == Some(bodies));
                assert(cmds == seq![spec_decode(body)->Ok_0] + rest_cmds);
                assert forall|i: int| 0 <= i < bodies.len() implies (#[trigger] spec_decode(
                    bodies[i],
                )) == Ok::<CommandModel, ParseError>(cmds[i]) by {
                    if i == 0 {
                        assert(bodies[0] == body && cmds[0] == spec_decode(body)->Ok_0);
                    } else {
                        assert(bodies[i] == rest_bodies[i - 1] && cmds[i] == rest_cmds[i - 1]);
                    }
                }
            }
            if let Some(bodies) = spec_frame(b) {
                assert(bodies[0] == body);
                assert(spec_frame(rest) matches Some(rest_bodies) ==> forall|i: int|
                    0 <= i < rest_bodies.len() ==> #[trigger] rest_bodies[i] == bodies[i + 1]);
            }
        }
    }
}

/// Law: a valid buffer — correct magic, full header, a record stream that
/// frames cleanly with every body decodable — parses successfully into a
/// sequence with exactly one command per record, in file order.
pub proof fn lemma_parse_records_in_file_order(b: Seq<u8>)
    requires
        b.len() >= 8,
        b.subrange(0, 4) == magic(),
        spec_frame(record_stream(b)) is Some,
        forall|i: int| 0 <= i < spec_frame(record_stream(b))->Some_0.len()
            ==> (#[trigger] spec_decode(spec_frame(record_stream(b))->Some_0[i])) is Ok,
    ensures
        spec_parse(b) is Ok,
        spec_parse(b)->Ok_0.len() == spec_frame(record_stream(b))->Some_0.len(),
        forall|i: int| 0 <= i < spec_frame(record_stream(b))->Some_0.len()
            ==> spec_parse(b)->Ok_0[i] == spec_decode(
                #[trigger] spec_frame(record_stream(b))->Some_0[i],
            )->Ok_0,
{
    lemma_records_of_frame(record_stream(b));
}

/// Law: a buffer of at least four bytes whose first four bytes differ from
/// the `SNSS` signature yields `FormatError`, whatever the remaining content.
pub proof fn lemma_wrong_magic_is_format_error(b: Seq<u8>)
    requires
        b.len() >= 4,
        b.subrange(0, 4) != magic(),
    ensures
        spec_parse(b) == Err::<Seq<CommandModel>, ParseError>(ParseError::FormatError),
{
}

/// Law: running out of bytes exactly at a record-length boundary is the
/// clean end of the stream, not an error. A stream that is a back-to-back
/// run of complete records, each of which decodes, parses successfully.
pub proof fn lemma_end_at_boundary_is_success(b: Seq<u8>)
    requires
        spec_frame(b) is Some,
        forall|i: int| 0 <= i < spec_frame(b)->Some_0.len()
            ==> (#[trigger] spec_decode(spec_frame(b)->Some_0[i])) is Ok,
    ensures
        spec_records(b) is Ok,
{
    lemma_records_of_frame(b);
}

/// Law: truncation inside a record is a hard failure, never end of stream. A
/// lone partial length prefix, or an intact length prefix with fewer bytes
/// left than the declared body length, yields `IoError`.
pub proof fn lemma_truncation_is_io_error(b: Seq<u8>)
    ensures
        b.len() == 1 ==> spec_records(b) == Err::<Seq<CommandModel>, ParseError>(
            ParseError::IoError,
        ),
        b.len() >= 2 && le16(b.subrange(0, 2)) > b.len() - 2 ==> spec_records(b) == Err::<
            Seq<CommandModel>,
            ParseError,
        >(ParseError::IoError),
{
}

/// Law: a buffer with a valid header whose first record declares a length
/// exceeding the bytes that remain yields `IoError`.
pub proof fn lemma_truncated_record_is_io_error(b: Seq<u8>)
    requires
        b.len() >= 8,
        b.subrange(0, 4) == magic(),
        record_stream(b).len() >= 2,
        le16(record_stream(b).subrange(0, 2)) > record_stream(b).len() - 2,
    ensures
        spec_parse(b) == Err::<Seq<CommandModel>, ParseError>(ParseError::IoError),
{
}

/// A record body opening with an opcode outside the known set decodes to
/// `UnsupportedOpcode` of that byte.
pub proof fn lemma_unrecognized_opcode_decode(body: Seq<u8>)
    requires
        body.len() >= 1,
        !recognized(body[0]),
    ensures
        spec_decode(body) == Err::<CommandModel, ParseError>(
            ParseError::UnsupportedOpcode(body[0]),
        ),
{
}

/// Law: one unrecognized opcode aborts the whole parse. If the stream frames
/// cleanly, every record before position `i` decodes, and record `i` opens
/// with an opcode outside the known set, the stream yields
/// `UnsupportedOpcode` of that byte — an error, so not even the commands
/// decoded before the bad record survive as a partial success.
pub proof fn lemma_unsupported_opcode_aborts(b: Seq<u8>, i: int)
    requires
        spec_frame(b) is Some,
        0 <= i < spec_frame(b)->Some_0.len(),
        forall|j: int| 0 <= j < i ==> (#[trigger] spec_decode(spec_frame(b)->Some_0[j])) is Ok,
        spec_frame(b)->Some_0[i].len() >= 1,
        !recognized(spec_frame(b)->Some_0[i][0]),
    ensures
        spec_records(b) == Err::<Seq<CommandModel>, ParseError>(
            ParseError::UnsupportedOpcode(spec_frame(b)->Some_0[i][0]),
        ),
    decreases b.len(),
{
    let bodies = spec_frame(b)->Some_0;
    let n = le16(b.subrange(0, 2));
    let body = b.subrange(2, 2 + n);
    let rest = b.subrange(2 + n, b.len() as int);
    let rest_bodies = spec_frame(rest)->Some_0;
    assert(bodies == seq![body] + rest_bodies);
    assert(bodies[0] == body);
    assert(forall|k: int| 0 <= k < rest_bodies.len()
        ==> #[trigger] rest_bodies[k] == bodies[k + 1]);
    if i == 0 {
        lemma_unrecognized_opcode_decode(body);
    } else {
        assert(spec_decode(body) is Ok);
        lemma_unsupported_opcode_aborts(rest, i - 1);
    }
}

} // verus!

