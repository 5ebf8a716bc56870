//! Header validation, record framing, and the stream driver that turns a raw
//! byte buffer into the ordered command sequence.

use vstd::prelude::*;
use crate::commands::{Command, CommandModel, ParseError, views_of};
use crate::decode::{decode_command, spec_decode};
use crate::reader::{ByteCursor, le16};

verus! {

/// The 4-byte magic signature `SNSS`.
pub open spec fn magic() -> Seq<u8> {
    seq![0x53u8, 0x4eu8, 0x53u8, 0x53u8]
}

/// The record framing alone: the post-header stream cut into record bodies,
/// in file order. `None` when a record is truncated — a partial length prefix
/// or a body shorter than its declared length. A stream that ends exactly at
/// a record-length boundary frames cleanly.
pub open spec fn spec_frame(b: Seq<u8>) -> Option<Seq<Seq<u8>>>
    decreases b.len(),
{
    if b.len() == 0 {
        Some(Seq::empty())
    } else if b.len() < 2 {
        None
    } else {
        let n = le16(b.subrange(0, 2));
        if b.len() - 2 < n {
            None
        } else {
            match spec_frame(b.subrange(2 + n, b.len() as int)) {
                Some(rest) => Some(seq![b.subrange(2, 2 + n)] + rest),
                None => None,
            }
        }
    }
}

/// What parsing the post-header record stream yields. A stream with no bytes
/// left is complete: the empty sequence. One byte left is a truncated length
/// prefix, `IoError`. Otherwise a 2-byte length `n` frames a body of exactly
/// `n` bytes — fewer remaining is `IoError` — the body decodes to one command,
/// and the rest of the stream follows, in file order. The first error aborts
/// the whole stream.
pub open spec fn spec_records(b: Seq<u8>) -> Result<Seq<CommandModel>, ParseError>
    decreases b.len(),
{
    if b.len() == 0 {
        Ok(Seq::empty())
    } else if b.len() < 2 {
        Err(ParseError::IoError)
    } else {
        let n = le16(b.subrange(0, 2));
        if b.len() - 2 < n {
            Err(ParseError::IoError)
        } else {
            match spec_decode(b.subrange(2, 2 + n)) {
                Err(e) => Err(e),
                Ok(c) => match spec_records(b.subrange(2 + n, b.len() as int)) {
                    Err(e) => Err(e),
                    Ok(s) => Ok(seq![c] + s),
                },
            }
        }
    }
}

/// What parsing a whole buffer yields: a 4-byte magic signature that must be
/// `SNSS` (`FormatError` otherwise, whatever follows), a 4-byte version that
/// is read but not constrained, then the record stream. Too few bytes for the
/// signature or the version is `IoError`.
pub open spec fn spec_parse(b: Seq<u8>) -> Result<Seq<CommandModel>, ParseError> {
    if b.len() < 4 {
        Err(ParseError::IoError)
    } else if b.subrange(0, 4) != magic() {
        Err(ParseError::FormatError)
    } else if b.len() < 8 {
        Err(ParseError::IoError)
    } else {
        spec_records(b.subrange(8, b.len() as int))
    }
}

/// Consume the 8-byte header: check the magic signature, read the version.
pub fn check_headers(cur: &mut ByteCursor) -> (r: Result<(), ParseError>)
    requires
        old(cur).wf(),
        old(cur).pos() == 0,
    ensures
        final(cur).wf(),
        final(cur)@ == old(cur)@,
        old(cur)@.len() < 4 ==> r == Err::<(), ParseError>(ParseError::IoError),
        old(cur)@.len() >= 4 && old(cur)@.subrange(0, 4) != magic()
            ==> r == Err::<(), ParseError>(ParseError::FormatError),
        old(cur)@.len() >= 4 && old(cur)@.subrange(0, 4) == magic() && old(cur)@.len() < 8
            ==> r == Err::<(), ParseError>(ParseError::IoError),
        old(cur)@.len() >= 8 && old(cur)@.subrange(0, 4) == magic()
            ==> r == Ok::<(), ParseError>(()) && final(cur).pos() == 8,
{
    let signature = cur.read_bytes(4)?;
    if !(signature[0] == 0x53 && signature[1] == 0x4e && signature[2] == 0x53 && signature[3]
        == 0x53) {
        proof {
            assert(old(cur)@.subrange(0, 4) != magic());
        }
        return Err(ParseError::FormatError);
    }
    proof {
        assert(signature@ =~= magic());
    }
    let _version = cur.read_i32()?;
    Ok(())
}

/// Frame and decode the next record. `Ok(None)` is the clean end of the
/// stream: not a single byte remained where the next record's length prefix
/// was due. A partial length prefix or a body shorter than its declared
/// length is `IoError`; a body that fails to decode propagates its error.
pub fn read_command(cur: &mut ByteCursor) -> (r: Result<Option<Command>, ParseError>)
    requires
        old(cur).wf(),
    ensures
        final(cur).wf(),
        final(cur)@ == old(cur)@,
        old(cur).remaining() == 0 ==> r == Ok::<Option<Command>, ParseError>(None)
            && final(cur).pos() == old(cur).pos(),
        old(cur).remaining() == 1 ==> r == Err::<Option<Command>, ParseError>(ParseError::IoError),
        old(cur).remaining() >= 2 ==> {
            let tail = old(cur)@.subrange(old(cur).pos(), old(cur)@.len() as int);
            let n = le16(tail.subrange(0, 2));
            if tail.len() - 2 < n {
                r == Err::<Option<Command>, ParseError>(ParseError::IoError)
            } else {
                match spec_decode(tail.subrange(2, 2 + n)) {
                    Err(e) => r == Err::<Option<Command>, ParseError>(e),
                    Ok(m) => r matches Ok(Some(c)) && c@ == m && final(cur).pos() == old(cur).pos()
                        + 2 + n,
                }
            }
        },
{
    if cur.at_end() {
        return Ok(None);
    }
    let ghost tail = cur@.subrange(cur.pos(), cur@.len() as int);
    let n = cur.read_u16()?;
    proof {
        assert(tail.subrange(0, 2) =~= old(cur)@.subrange(old(cur).pos(), old(cur).pos() + 2));
    }
    let body = cur.read_bytes(n as usize)?;
    proof {
        assert(tail.subrange(2, 2 + n as int) =~= old(cur)@.subrange(
            old(cur).pos() + 2,
            old(cur).pos() + 2 + n as int,
        ));
    }
    let cmd = decode_command(&body)?;
    Ok(Some(cmd))
}

/// Parse a whole SNSS buffer into its ordered command sequence, exactly as
/// `spec_parse` describes: the result is `Ok` with one command per record in
/// file order when the header is valid, every record frames completely and
/// every body decodes; and the first failure's error otherwise, with no
/// partial sequence.
pub fn parse(buf: &Vec<u8>) -> (r: Result<Vec<Command>, ParseError>)
    ensures
        (match spec_parse(buf@) {
            Ok(m) => r matches Ok(cmds) && views_of(cmds@) == m,
            Err(e) => r == Err::<Vec<Command>, ParseError>(e),
        }),
{
    let mut cur = ByteCursor::new(buf);
    if let Err(e) = check_headers(&mut cur) {
        return Err(e);
    }
    let ghost stream = buf@.subrange(8, buf@.len() as int);
    let mut commands: Vec<Command> = Vec::new();
    loop
        invariant
            cur.wf(),
            cur@ == buf@,
            8 <= cur.pos() <= buf@.len(),
            buf@.len() >= 8,
            buf@.subrange(0, 4) == magic(),
            stream == buf@.subrange(8, buf@.len() as int),
            spec_parse(buf@) == spec_records(stream),
            (match spec_records(cur@.subrange(cur.pos(), cur@.len() as int)) {
                Ok(s) => spec_records(stream) == Ok::<Seq<CommandModel>, ParseError>(
                    views_of(commands@) + s,
                ),
                Err(e) => spec_records(stream) == Err::<Seq<CommandModel>, ParseError>(e),
            }),
        decreases buf@.len() - cur.pos(),
    {
        let ghost tail = cur@.subrange(cur.pos(), cur@.len() as int);
        let ghost pre_pos = cur.pos();
        match read_command(&mut cur) {
            Err(e) => {
                proof {
                    assert(spec_records(tail) == Err::<Seq<CommandModel>, ParseError>(e));
                }
                return Err(e);
            },
            Ok(None) => {
                proof {
                    assert(tail.len() == 0);
                    assert(spec_records(tail) == Ok::<Seq<CommandModel>, ParseError>(
                        Seq::<CommandModel>::empty(),
                    ));
                    assert(views_of(commands@) + Seq::<CommandModel>::empty() =~= views_of(
                        commands@,
                    ));
                }
                return Ok(commands);
            },
            Ok(Some(c)) => {
                proof {
                    let n = le16(tail.subrange(0, 2));
                    assert(tail.subrange(2 + n, tail.len() as int) =~= cur@.subrange(
                        pre_pos + 2 + n,
                        cur@.len() as int,
                    ));
                }
                let ghost prev = commands@;
                commands.push(c);
                proof {
                    let n = le16(tail.subrange(0, 2));
                    let rest = tail.subrange(2 + n, tail.len() as int);
                    assert(views_of(commands@) =~= views_of(prev) + seq![c@]);
                    if let Ok(s) = spec_records(rest) {
                        assert(views_of(prev) + (seq![c@] + s) =~= (views_of(prev) + seq![c@])
                            + s);
                    }
                }
            },
        }
    }
}

} // verus!
