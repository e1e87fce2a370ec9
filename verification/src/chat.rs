//! A row of the `chat` table.
use vstd::prelude::*;

use crate::models::Service;

verus! {

/// A single row of the `chat` table.
#[derive(Debug)]
pub struct Chat {
    pub rowid: i32,
    /// The stable identifier of the chat.
    pub chat_identifier: String,
    /// The service the chat uses.
    pub service_name: Option<String>,
    /// The custom name given to the chat, if any.
    pub display_name: Option<String>,
}

impl Chat {
    /// The chat's name: its non-empty display name, else its identifier.
    pub fn name(&self) -> (r: &str)
        ensures
            r@ == (match self.display_name {
                Some(ref n) if n@.len() > 0 => n@,
                _ => self.chat_identifier@,
            }),
    {
        match self.display_name() {
            Some(name) => name,
            Option::None => self.chat_identifier.as_str(),
        }
    }

    /// The chat's display name, when one is set and non-empty.
    pub fn display_name(&self) -> (r: Option<&str>)
        ensures
            match r {
                Some(n) => self.display_name matches Some(d) && n@ == d@ && d@.len() > 0,
                None => match self.display_name {
                    Some(ref d) => d@.len() == 0,
                    Option::None => true,
                },
            },
    {
        match &self.display_name {
            Some(name) => {
                if vstd::string::StrSliceExecFns::unicode_len(name.as_str()) > 0 {
                    Some(name.as_str())
                } else {
                    Option::None
                }
            },
            Option::None => Option::None,
        }
    }

    /// The service the chat used.
    pub fn service(&self) -> (r: Service<'_>)
        ensures
            match self.service_name {
                Option::None => r == Service::<'_>::Unknown,
                Some(ref s) => {
                    let t = crate::models::spec_trim(s@);
                    match r {
                        Service::iMessage => t == "iMessage"@,
                        Service::Satellite => t == "iMessageLite"@,
                        Service::SMS => t == "SMS"@,
                        Service::RCS => t == "rcs"@ || t == "RCS"@,
                        Service::Other(o) => o@ == t && t != "iMessage"@ && t != "iMessageLite"@
                            && t != "SMS"@ && t != "rcs"@ && t != "RCS"@,
                        Service::Unknown => false,
                    }
                },
            },
    {
        let s: Option<&str> = match &self.service_name {
            Some(v) => Some(v.as_str()),
            Option::None => Option::None,
        };
        Service::from(s)
    }
}

} // verus!
