//! The HTTP methods an endpoint can have.

use vstd::prelude::*;
use vstd::string::*;
use crate::text::same_text;

verus! {

#[derive(Debug, Clone, Copy, PartialEq, Eq, Structural)]
pub enum Method {
    Get,
    Post,
    Put,
    Delete,
    Head,
    Patch,
    Options,
}

/// What `str::to_uppercase` makes of a string.
pub uninterp spec fn uppercase(s: Seq<char>) -> Seq<char>;

/// `str::to_uppercase` returns the uppercase equivalent of the string as a
/// new `String`; it depends on the string alone. Its result is named
/// `uppercase`.
pub assume_specification[ str::to_uppercase ](s: &str) -> (r: String)
    ensures
        r@ == uppercase(s@),
;

impl Method {
    /// The method's name as it is written in a request line.
    pub open spec fn name(self) -> Seq<char> {
        match self {
            Method::Get => "GET"@,
            Method::Post => "POST"@,
            Method::Put => "PUT"@,
            Method::Delete => "DELETE"@,
            Method::Head => "HEAD"@,
            Method::Patch => "PATCH"@,
            Method::Options => "OPTIONS"@,
        }
    }

    /// The method with the given upper-case name.
    pub open spec fn with_name(name: Seq<char>) -> Option<Method> {
        if name == "GET"@ {
            Some(Method::Get)
        } else if name == "POST"@ {
            Some(Method::Post)
        } else if name == "PUT"@ {
            Some(Method::Put)
        } else if name == "DELETE"@ {
            Some(Method::Delete)
        } else if name == "PATCH"@ {
            Some(Method::Patch)
        } else if name == "HEAD"@ {
            Some(Method::Head)
        } else if name == "OPTIONS"@ {
            Some(Method::Options)
        } else {
            None
        }
    }

    /// The method's name as it is written in a request line.
    pub fn as_str(&self) -> (r: &'static str)
        ensures
            r@ == self.name(),
    {
        match self {
            Method::Get => "GET",
            Method::Post => "POST",
            Method::Put => "PUT",
            Method::Delete => "DELETE",
            Method::Head => "HEAD",
            Method::Patch => "PATCH",
            Method::Options => "OPTIONS",
        }
    }

    /// The method's name as an owned string.
    pub fn to_string(&self) -> (r: String)
        ensures
            r@ == self.name(),
    {
        String::from_str(self.as_str())
    }

    /// The method whose name is exactly `name`, which is already in upper
    /// case.
    pub fn from_upper_name(name: &str) -> (r: Option<Method>)
        ensures
            r == Method::with_name(name@),
    {
        if same_text(name, "GET") {
            Some(Method::Get)
        } else if same_text(name, "POST") {
            Some(Method::Post)
        } else if same_text(name, "PUT") {
            Some(Method::Put)
        } else if same_text(name, "DELETE") {
            Some(Method::Delete)
        } else if same_text(name, "PATCH") {
            Some(Method::Patch)
        } else if same_text(name, "HEAD") {
            Some(Method::Head)
        } else if same_text(name, "OPTIONS") {
            Some(Method::Options)
        } else {
            None
        }
    }

    /// The method named by `name`, whatever its letter case; `None` for a
    /// name that is no supported method.
    pub fn from_name(name: &str) -> (r: Option<Method>)
        ensures
            r == Method::with_name(uppercase(name@)),
    {
        let upper = name.to_uppercase();
        Method::from_upper_name(upper.as_str())
    }
}

} // verus!
