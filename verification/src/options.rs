//! Validation of the command-line options, from plain values to a checked
//! configuration. Reading the arguments and probing the filesystem stay
//! with the caller, which hands the probe results in.
use vstd::prelude::*;

use crate::converters::AttachmentManagerMode;
use crate::platform::Platform;
use crate::querycontext::QueryContext;
use crate::table::TableError;
use crate::text::{
    chars_of, lower_of, parse_usize, push_str_chars, spec_all_digits, spec_digits_value,
    spec_starts_with, string_from_chars,
};

verus! {

broadcast use vstd::string::group_string_axioms;

/// The failures of the application's runtime.
#[derive(Debug, PartialEq)]
pub enum RuntimeError {
    /// The options are contradictory or incomplete.
    InvalidOptions(String),
    /// A filesystem operation failed.
    DiskError(String),
    /// A database operation failed.
    DatabaseError(TableError),
    /// Opening or decrypting a backup failed.
    BackupError(String),
    /// A path has no usable file name.
    FileNameError,
}

/// The checked configuration.
#[derive(Debug)]
pub struct Options {
    /// The path to the database file or backup root.
    pub db_path: String,
    /// A custom root to look for attachments under.
    pub attachment_root: Option<String>,
    /// How attachments are copied.
    pub attachment_manager_mode: AttachmentManagerMode,
    /// Where exported data is written.
    pub export_path: String,
    /// The query filters.
    pub query_context: QueryContext,
    /// A custom name for the database owner.
    pub custom_name: Option<String>,
    /// Whether to label the owner with the caller id instead of `Me`.
    pub use_caller_id: bool,
    /// The platform of the source database.
    pub platform: Platform,
    /// A participant filter.
    pub conversation_filter: Option<String>,
    /// The password of an encrypted backup.
    pub cleartext_password: Option<String>,
}

/// What `str::parse::<i32>` accepts: an optional sign, then digits whose
/// value fits the 32-bit range.
pub open spec fn spec_parse_i32(s: Seq<char>) -> Option<i32> {
    if spec_starts_with(s, "-"@) {
        let digits = s.skip(1);
        if spec_all_digits(digits) && spec_digits_value(digits) <= 0x80000000 {
            Some((0 - spec_digits_value(digits)) as i32)
        } else {
            None
        }
    } else {
        let digits = if spec_starts_with(s, "+"@) {
            s.skip(1)
        } else {
            s
        };
        if spec_all_digits(digits) && spec_digits_value(digits) <= i32::MAX {
            Some(spec_digits_value(digits) as i32)
        } else {
            None
        }
    }
}

/// Parse a signed 32-bit integer as `str::parse` accepts it.
pub fn parse_i32(s: &str) -> (r: Option<i32>)
    ensures
        match r {
            Some(v) => spec_parse_i32(s@) == Some(v),
            None => spec_parse_i32(s@) is None,
        },
{
    proof {
        reveal_strlit("-");
        reveal_strlit("+");
    }
    let cs = chars_of(s);
    if cs.len() > 0 && cs[0] == '-' {
        assert(spec_starts_with(s@, "-"@)) by {
            assert(s@.take(1) =~= "-"@);
        }
        let (_, digits) = cs.as_slice().split_at(1);
        assert(digits@ =~= s@.skip(1));
        match parse_usize(digits) {
            Some(v) => {
                if v <= 0x80000000usize {
                    Some((0i64 - (v as i64)) as i32)
                } else {
                    None
                }
            },
            Option::None => None,
        }
    } else {
        let digits: &[char] = if cs.len() > 0 && cs[0] == '+' {
            assert(spec_starts_with(s@, "+"@)) by {
                assert(s@.take(1) =~= "+"@);
            }
            let (_, d) = cs.as_slice().split_at(1);
            assert(d@ =~= s@.skip(1));
            d
        } else {
            proof {
                if s@.len() > 0 {
                    assert(!spec_starts_with(s@, "-"@) && !spec_starts_with(s@, "+"@)) by {
                        if spec_starts_with(s@, "-"@) {
                            assert(s@.take(1)[0] == '-');
                        }
                        if spec_starts_with(s@, "+"@) {
                            assert(s@.take(1)[0] == '+');
                        }
                    }
                } else {
                    assert(!spec_starts_with(s@, "-"@));
                    assert(!spec_starts_with(s@, "+"@));
                }
            }
            cs.as_slice()
        };
        match parse_usize(digits) {
            Some(v) => {
                if v <= i32::MAX as usize {
                    Some(v as i32)
                } else {
                    None
                }
            },
            Option::None => None,
        }
    }
}

impl Options {
    /// Check the raw option values against each other and against what a
    /// probe of the filesystem found, and build the configuration.
    ///
    /// `default_db_path` stands in when no database path is given. The
    /// three platform probe flags describe the chosen database path, as
    /// [`Platform::determine`] reads them; `attachment_root_exists` reports
    /// whether the custom attachment root, when given, names an existing
    /// path.
    pub fn from_args(
        user_db_path: Option<String>,
        attachment_root: Option<String>,
        user_export_path: Option<String>,
        check_last_n: Option<String>,
        custom_name: Option<String>,
        use_caller_id: bool,
        platform_str: Option<String>,
        conversation_filter: Option<String>,
        cleartext_password: Option<String>,
        default_db_path: String,
        points_at_inner_ios_db: bool,
        inner_ios_db_exists: bool,
        is_file: bool,
        attachment_root_exists: bool,
    ) -> (r: Result<Options, RuntimeError>)
        ensures
            custom_name is Some && use_caller_id ==> r is Err,
            match r {
                Ok(o) => {
                    &&& !(custom_name is Some && use_caller_id)
                    &&& o.custom_name == custom_name
                    &&& o.use_caller_id == use_caller_id
                    &&& o.attachment_root == attachment_root
                    &&& o.conversation_filter == conversation_filter
                    &&& o.cleartext_password == cleartext_password
                    &&& (cleartext_password is Some ==> o.platform == Platform::iOS)
                    &&& (attachment_root is Some ==> attachment_root_exists)
                    &&& o.db_path@ == (match user_db_path {
                        Some(p) => p@,
                        None => default_db_path@,
                    })
                    &&& o.export_path@ == (match user_export_path {
                        Some(p) => p@,
                        None => "./undeleted_messages"@,
                    })
                    &&& (match platform_str {
                        Some(p) => (o.platform == Platform::macOS && lower_of(p@) == "macos"@) || (
                        o.platform == Platform::iOS && lower_of(p@) == "ios"@),
                        None => !points_at_inner_ios_db && o.platform == (
                        if inner_ios_db_exists {
                            Platform::iOS
                        } else {
                            Platform::macOS
                        }),
                    })
                    &&& o.query_context.limit == (match check_last_n {
                        Some(n) => spec_parse_i32(n@),
                        None => None,
                    })
                    &&& o.query_context.selected_chat_ids is None
                    &&& o.query_context.selected_handle_ids is None
                    &&& o.attachment_manager_mode == AttachmentManagerMode::Full
                },
                Err(_) => true,
            },
    {
        // A custom owner name and the caller id cannot both label the owner.
        if custom_name.is_some() && use_caller_id {
            return Err(
                RuntimeError::InvalidOptions(
                    String::from_str(
                        "--custom-name is enabled; --use-caller-id is disallowed",
                    ),
                ),
            );
        }
        let mut query_context = QueryContext { limit: None, selected_handle_ids: None, selected_chat_ids: None };
        if let Some(n) = &check_last_n {
            if let Some(limit) = parse_i32(n.as_str()) {
                query_context.set_limit(limit);
            }
        }
        let db_path: String = match &user_db_path {
            Some(p) => p.clone(),
            Option::None => default_db_path,
        };
        let platform: Platform = match &platform_str {
            Some(p) => {
                match Platform::from_cli(p.as_str()) {
                    Some(pf) => pf,
                    Option::None => {
                        let mut msg: Vec<char> = Vec::new();
                        push_str_chars(&mut msg, p.as_str());
                        push_str_chars(
                            &mut msg,
                            " is not a valid platform! Must be one of <macOS, iOS>",
                        );
                        return Err(
                            RuntimeError::InvalidOptions(string_from_chars(msg.as_slice())),
                        );
                    },
                }
            },
            Option::None => {
                match Platform::determine(points_at_inner_ios_db, inner_ios_db_exists, is_file) {
                    Ok(pf) => pf,
                    Err(e) => {
                        return Err(RuntimeError::DatabaseError(e));
                    },
                }
            },
        };
        // A backup password only makes sense for an iOS backup.
        if cleartext_password.is_some() && !matches!(platform, Platform::iOS) {
            return Err(
                RuntimeError::InvalidOptions(
                    String::from_str(
                        "--cleartext-password is enabled; it can only be used with iOS backups.",
                    ),
                ),
            );
        }
        // A custom attachment root must exist.
        if let Some(path) = &attachment_root {
            if !attachment_root_exists {
                let mut msg: Vec<char> = Vec::new();
                push_str_chars(&mut msg, "Supplied attachment-root `");
                push_str_chars(&mut msg, path.as_str());
                push_str_chars(&mut msg, "` does not exist!");
                return Err(RuntimeError::InvalidOptions(string_from_chars(msg.as_slice())));
            }
        }
        let export_path: String = match &user_export_path {
            Some(p) => p.clone(),
            Option::None => String::from_str("./undeleted_messages"),
        };
        Ok(
            Options {
                db_path,
                attachment_root,
                attachment_manager_mode: AttachmentManagerMode::Full,
                export_path,
                query_context,
                custom_name,
                use_caller_id,
                platform,
                conversation_filter,
                cleartext_password,
            },
        )
    }

    /// The path of the database itself: inside an iOS backup it lies under
    /// the backup root at the manifest-relative path.
    pub fn get_db_path(&self) -> (r: String)
        ensures
            match self.platform {
                Platform::iOS => r@ == self.db_path@ + "/"@
                    + "3d/3d0d7e5fb2ce288813306e4d4636395e047a3d28"@,
                Platform::macOS => r@ == self.db_path@,
            },
    {
        match self.platform {
            Platform::iOS => {
                let mut out: Vec<char> = Vec::new();
                push_str_chars(&mut out, self.db_path.as_str());
                push_str_chars(&mut out, "/");
                push_str_chars(&mut out, "3d/3d0d7e5fb2ce288813306e4d4636395e047a3d28");
                assert(out@ =~= self.db_path@ + "/"@
                    + "3d/3d0d7e5fb2ce288813306e4d4636395e047a3d28"@);
                string_from_chars(out.as_slice())
            },
            Platform::macOS => self.db_path.clone(),
        }
    }
}

} // verus!
