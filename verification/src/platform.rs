//! The platform a Messages database was created on.
use vstd::prelude::*;

use crate::table::TableError;
use crate::text::{lower_of, str_eq, to_lowercase};

verus! {

/// The platform that created the database.
#[derive(PartialEq, Eq, Debug)]
pub enum Platform {
    /// macOS-sourced data.
    #[allow(non_camel_case_types)]
    macOS,
    /// iOS-sourced data.
    #[allow(non_camel_case_types)]
    iOS,
}

impl Platform {
    /// Determine the platform from what a probe of the source path found:
    /// whether the path itself ends in the iOS backup's inner database path,
    /// whether that inner path exists under it, and whether the path is a
    /// plain file. A path that points at the inner database is the caller's
    /// mistake and is rejected; a missing database falls back to macOS so
    /// that opening the connection surfaces the real error.
    pub fn determine(
        points_at_inner_ios_db: bool,
        inner_ios_db_exists: bool,
        is_file: bool,
    ) -> (r: Result<Self, TableError>)
        ensures
            match r {
                Ok(p) => !points_at_inner_ios_db && p == (if inner_ios_db_exists {
                    Platform::iOS
                } else {
                    Platform::macOS
                }),
                Err(TableError::CannotConnect(_)) => points_at_inner_ios_db,
                Err(_) => false,
            },
    {
        if points_at_inner_ios_db {
            return Err(
                TableError::CannotConnect(
                    String::from_str(
                        "The path provided points to a database inside of an iOS backup, not the root of the backup.",
                    ),
                ),
            );
        }
        if inner_ios_db_exists {
            Ok(Self::iOS)
        } else if is_file {
            Ok(Self::macOS)
        } else {
            // The database is missing; the connection lifecycle reports it.
            Ok(Self::macOS)
        }
    }

    /// The platform named by user input, compared case-insensitively.
    pub fn from_cli(platform: &str) -> (r: Option<Self>)
        ensures
            match r {
                Some(Platform::macOS) => lower_of(platform@) == "macos"@,
                Some(Platform::iOS) => lower_of(platform@) == "ios"@,
                None => lower_of(platform@) != "macos"@ && lower_of(platform@) != "ios"@,
            },
    {
        let lowered = to_lowercase(platform);
        if str_eq(lowered.as_str(), "macos") {
            Some(Self::macOS)
        } else if str_eq(lowered.as_str(), "ios") {
            Some(Self::iOS)
        } else {
            Option::None
        }
    }
}

impl Default for Platform {
    /// The default platform is macOS.
    fn default() -> (r: Self)
        ensures
            r == Platform::macOS,
    {
        Self::macOS
    }
}

} // verus!
