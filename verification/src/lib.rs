/*!
 A verified core for watching an Apple Messages database and preserving
 messages that are later deleted or unsent.

 The library decodes message rows, `typedstream` message bodies and
 `NSKeyedArchiver` edit summaries, classifies message variants, resolves
 attachment paths, and diffs successive snapshots of the recent message
 window to recognise deletions. Database access, file I/O and the polling
 loop live outside the library and hand it plain values.
*/
pub mod attachment;
pub mod chat;
pub mod converters;
pub mod dates;
pub mod differ;
pub mod edited;
pub mod filesize;
pub mod message;
pub mod models;
pub mod options;
pub mod platform;
pub mod plist;
pub mod queries;
pub mod querycontext;
pub mod row;
pub mod sanitize;
pub mod streamtyped;
pub mod table;
pub mod text;
pub mod typedstream;
pub mod variants;

