//! The decoded command type, its mathematical model, and the parse errors.

use vstd::prelude::*;

verus! {

/// Why a parse was aborted. Every error abandons the whole parse; no partial
/// command sequence is ever returned.
#[derive(Debug, Clone, Copy, PartialEq, Eq, Structural)]
pub enum ParseError {
    /// The 4-byte magic signature was not `SNSS`.
    FormatError,
    /// Fewer bytes remained than a fixed-width read or a declared record body
    /// required.
    IoError,
    /// A length-prefixed text field did not hold valid UTF-8.
    EncodingError,
    /// A record opcode outside the known set; the stream cannot be resynchronised
    /// past it, so the whole parse fails.
    UnsupportedOpcode(u8),
}

/// One decoded tab-restore command, in the order it stood in the file.
#[derive(Debug, PartialEq)]
pub enum Command {
    /// Opcode 4. The record also carries a tab id and a timestamp, which are
    /// read for positioning but not retained.
    SelectedNavigationInTab { index: i32 },
    /// Opcode 1. The record also carries a window id, which is read but not
    /// retained.
    UpdateTabNavigation { tab_id: i32, index: i32, url: String },
    /// Opcode 9. All window fields (ids, geometry, timestamp, workspace, type)
    /// are read for positioning only and deliberately discarded.
    Window,
    /// Opcode 14. No payload.
    AddTabExtraData,
    /// Opcode 255. A logical separator between groups of commands; a real
    /// command in the output, not a stream terminator.
    Marker,
}

/// The mathematical model of a `Command`: the same variants over `Seq<char>`
/// instead of `String`.
pub enum CommandModel {
    SelectedNavigationInTab { index: i32 },
    UpdateTabNavigation { tab_id: i32, index: i32, url: Seq<char> },
    Window,
    AddTabExtraData,
    Marker,
}

impl View for Command {
    type V = CommandModel;

    open spec fn view(&self) -> CommandModel {
        match self {
            Command::SelectedNavigationInTab { index } => CommandModel::SelectedNavigationInTab {
                index: *index,
            },
            Command::UpdateTabNavigation { tab_id, index, url } => CommandModel::UpdateTabNavigation {
                tab_id: *tab_id,
                index: *index,
                url: url@,
            },
            Command::Window => CommandModel::Window,
            Command::AddTabExtraData => CommandModel::AddTabExtraData,
            Command::Marker => CommandModel::Marker,
        }
    }
}

/// The models of a sequence of commands, element by element, order kept.
pub open spec fn views_of(cmds: Seq<Command>) -> Seq<CommandModel> {
    cmds.map_values(|c: Command| c@)
}

} // verus!
