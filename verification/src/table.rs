//! Shared table names, column names, default labels, and the errors of
//! table access.
use vstd::prelude::*;

verus! {

/// Handle table name.
pub const HANDLE: &'static str = "handle";

/// Message table name.
pub const MESSAGE: &'static str = "message";

/// Chat table name.
pub const CHAT: &'static str = "chat";

/// Attachment table name.
pub const ATTACHMENT: &'static str = "attachment";

/// Chat to message join table name.
pub const CHAT_MESSAGE_JOIN: &'static str = "chat_message_join";

/// Message to attachment join table name.
pub const MESSAGE_ATTACHMENT_JOIN: &'static str = "message_attachment_join";

/// Chat to handle join table name.
pub const CHAT_HANDLE_JOIN: &'static str = "chat_handle_join";

/// Recently deleted messages table.
pub const RECENTLY_DELETED: &'static str = "chat_recoverable_message_join";

/// The column holding plist-encoded app message data.
pub const MESSAGE_PAYLOAD: &'static str = "payload_data";

/// The column holding plist-encoded edited message information.
pub const MESSAGE_SUMMARY_INFO: &'static str = "message_summary_info";

/// The column holding the typedstream-encoded message body.
pub const ATTRIBUTED_BODY: &'static str = "attributedBody";

/// The column holding plist-encoded sticker metadata.
pub const STICKER_USER_INFO: &'static str = "sticker_user_info";

/// The column holding plist-encoded image attachment metadata.
pub const ATTRIBUTION_INFO: &'static str = "attribution_info";

/// Name used for messages sent by the database owner in a first-person
/// context.
pub const ME: &'static str = "Me";

/// Name used for messages sent by the database owner in a second-person
/// context.
pub const YOU: &'static str = "You";

/// Name used where a contact or chat name cannot be discovered.
pub const UNKNOWN: &'static str = "Unknown";

/// Default location of the Messages database on macOS, under the home
/// directory.
pub const DEFAULT_PATH_MACOS: &'static str = "Library/Messages/chat.db";

/// Default location of the Messages database in an iOS backup.
pub const DEFAULT_PATH_IOS: &'static str = "3d/3d0d7e5fb2ce288813306e4d4636395e047a3d28";

/// Chat name reserved for messages that do not belong to a chat.
pub const ORPHANED: &'static str = "orphaned";

/// Replacement text sent in Fitness app messages.
pub const FITNESS_RECEIVER: &'static str =
    "$(kIMTranscriptPluginBreadcrumbTextReceiverIdentifier)";

/// Name of the attachments directory in exports.
pub const ATTACHMENTS_DIR: &'static str = "attachments";

/// The failures of reading table data; each carries the underlying message.
#[derive(Debug, PartialEq)]
pub enum TableError {
    /// The database cannot be opened.
    CannotConnect(String),
    /// The database file's metadata cannot be read.
    CannotRead(String),
    /// A message-table query failed.
    Messages(String),
    /// An attachment-table query failed.
    Attachment(String),
    /// A chat-table query failed.
    Chat(String),
    /// A handle-table query failed.
    Handle(String),
    /// A chat-handle join query failed.
    ChatToHandle(String),
}

} // verus!
