//! The command decoder: reads the leading opcode of an isolated record body
//! and decodes the opcode-specific field layout into a typed command.

use vstd::prelude::*;
use crate::commands::{Command, CommandModel, ParseError};
use crate::reader::{ByteCursor, i32_le, spec_read_string};

verus! {

/// The opcodes this format knows how to decode.
pub open spec fn recognized(op: u8) -> bool {
    op == 1 || op == 4 || op == 9 || op == 14 || op == 255
}

/// What decoding a record body yields. The body's leading byte selects the
/// field layout; fields are read left to right at fixed offsets, with
/// length-prefixed texts where the layout calls for them. A read past the end
/// of the body yields `IoError`; an opcode outside the known set yields
/// `UnsupportedOpcode`. Bytes of the body past the layout's last field are
/// ignored: the format does not require a record to be consumed in full.
pub open spec fn spec_decode(body: Seq<u8>) -> Result<CommandModel, ParseError> {
    if body.len() < 1 {
        Err(ParseError::IoError)
    } else {
        let op = body[0];
        if op == 1 {
            // window_id:i32 (dropped), tab_id:i32, index:i32, virtual_url:string
            if body.len() < 13 {
                Err(ParseError::IoError)
            } else {
                match spec_read_string(body, 13) {
                    Ok((url, _end)) => Ok(CommandModel::UpdateTabNavigation {
                        tab_id: i32_le(body.subrange(5, 9)) as i32,
                        index: i32_le(body.subrange(9, 13)) as i32,
                        url: url,
                    }),
                    Err(e) => Err(e),
                }
            }
        } else if op == 4 {
            // tab_id:i32 (dropped), index:i32, timestamp:i64 (dropped)
            if body.len() < 17 {
                Err(ParseError::IoError)
            } else {
                Ok(CommandModel::SelectedNavigationInTab {
                    index: i32_le(body.subrange(5, 9)) as i32,
                })
            }
        } else if op == 9 {
            // window_id:i64, selected_tab_index:i32, num_tabs:i32, timestamp:i64,
            // bounds_x:i32, bounds_y:i32, bounds_width:i32, bounds_height:i32,
            // show_state:i32, workspace:string, type:i32 — all read, none retained
            if body.len() < 45 {
                Err(ParseError::IoError)
            } else {
                match spec_read_string(body, 45) {
                    Ok((_workspace, end)) => if body.len() - end < 4 {
                        Err(ParseError::IoError)
                    } else {
                        Ok(CommandModel::Window)
                    },
                    Err(e) => Err(e),
                }
            }
        } else if op == 14 {
            Ok(CommandModel::AddTabExtraData)
        } else if op == 255 {
            Ok(CommandModel::Marker)
        } else {
            Err(ParseError::UnsupportedOpcode(op))
        }
    }
}

/// Decode one isolated record body into a command, exactly as `spec_decode`
/// describes.
pub fn decode_command(body: &Vec<u8>) -> (r: Result<Command, ParseError>)
    ensures
        (match spec_decode(body@) {
            Ok(m) => r matches Ok(c) && c@ == m,
            Err(e) => r == Err::<Command, ParseError>(e),
        }),
{
    let mut cur = ByteCursor::new(body);
    let op = cur.read_u8()?;
    if op == 1 {
        let _window_id = cur.read_i32()?;
        let tab_id = cur.read_i32()?;
        let index = cur.read_i32()?;
        let url = cur.read_string()?;
        Ok(Command::UpdateTabNavigation { tab_id, index, url })
    } else if op == 4 {
        let _tab_id = cur.read_i32()?;
        let index = cur.read_i32()?;
        let _timestamp = cur.read_i64()?;
        Ok(Command::SelectedNavigationInTab { index })
    } else if op == 9 {
        let _window_id = cur.read_i64()?;
        let _selected_tab_index = cur.read_i32()?;
        let _num_tabs = cur.read_i32()?;
        let _timestamp = cur.read_i64()?;
        let _bounds_x = cur.read_i32()?;
        let _bounds_y = cur.read_i32()?;
        let _bounds_width = cur.read_i32()?;
        let _bounds_height = cur.read_i32()?;
        let _show_state = cur.read_i32()?;
        let _workspace = cur.read_string()?;
        let _window_type = cur.read_i32()?;
        Ok(Command::Window)
    } else if op == 14 {
        Ok(Command::AddTabExtraData)
    } else if op == 255 {
        Ok(Command::Marker)
    } else {
        Err(ParseError::UnsupportedOpcode(op))
    }
}

} // verus!
