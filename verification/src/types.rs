//! Core data types shared by the permission-mediation subsystem and the
//! task lifecycle manager: the operator's decision on a permission prompt,
//! and the prompt itself.

use vstd::prelude::*;

verus! {

/// The operator's answer to a permission prompt, as carried on the wire
/// between the host shell and the mediation subsystem.
#[derive(Debug, Clone, Copy, PartialEq, Eq, Structural)]
pub enum PermissionsResponse {
    Allow,
    Deny,
    AllowAll,
}

/// The decision handed back to the execution engine's capability check.
#[derive(Debug, Clone, Copy, PartialEq, Eq, Structural)]
pub enum PromptDecision {
    Allow,
    Deny,
    AllowAll,
}

impl PermissionsResponse {
    /// The canonical wire spelling of each response.
    pub fn as_str(&self) -> (r: &'static str)
        ensures
            self is Allow ==> r@ == "Allow"@,
            self is Deny ==> r@ == "Deny"@,
            self is AllowAll ==> r@ == "AllowAll"@,
    {
        match self {
            PermissionsResponse::Allow => "Allow",
            PermissionsResponse::Deny => "Deny",
            PermissionsResponse::AllowAll => "AllowAll",
        }
    }

    /// Reads a response back from its canonical wire spelling.
    /// The spelling must be one of the three canonical forms.
    pub fn from_str(s: &str) -> (r: Self)
        requires
            s@ == "Allow"@ || s@ == "Deny"@ || s@ == "AllowAll"@,
        ensures
            s@ == "Allow"@ ==> r is Allow,
            s@ == "Deny"@ ==> r is Deny,
            s@ == "AllowAll"@ ==> r is AllowAll,
    {
        match Self::try_from_str(s) {
            Some(r) => r,
            None => PermissionsResponse::Deny,
        }
    }

    /// Reads a response from its wire spelling, `None` on any other string.
    pub fn try_from_str(s: &str) -> (r: Option<Self>)
        ensures
            s@ == "Allow"@ ==> r == Some(PermissionsResponse::Allow),
            s@ == "Deny"@ ==> r == Some(PermissionsResponse::Deny),
            s@ == "AllowAll"@ ==> r == Some(PermissionsResponse::AllowAll),
            r is Some ==> (s@ == "Allow"@ || s@ == "Deny"@ || s@ == "AllowAll"@),
    {
        proof {
            reveal_strlit("Allow");
            reveal_strlit("Deny");
            reveal_strlit("AllowAll");
            assert("Allow"@.len() == 5 && "Deny"@.len() == 4 && "AllowAll"@.len() == 8);
        }
        if str_eq(s, "Allow") {
            Some(PermissionsResponse::Allow)
        } else if str_eq(s, "Deny") {
            Some(PermissionsResponse::Deny)
        } else if str_eq(s, "AllowAll") {
            Some(PermissionsResponse::AllowAll)
        } else {
            None
        }
    }

    /// Maps the wire response to the decision the engine's capability
    /// check receives.
    pub fn to_prompt_response(&self) -> (r: PromptDecision)
        ensures
            r == self.decision(),
    {
        match self {
            PermissionsResponse::Allow => PromptDecision::Allow,
            PermissionsResponse::Deny => PromptDecision::Deny,
            PermissionsResponse::AllowAll => PromptDecision::AllowAll,
        }
    }

    /// The decision that corresponds to this wire response.
    pub open spec fn decision(self) -> PromptDecision {
        match self {
            PermissionsResponse::Allow => PromptDecision::Allow,
            PermissionsResponse::Deny => PromptDecision::Deny,
            PermissionsResponse::AllowAll => PromptDecision::AllowAll,
        }
    }
}

/// Compares two string slices by contents.
pub fn str_eq(a: &str, b: &str) -> (r: bool)
    ensures
        r == (a@ == b@),
{
    let a_string: String = a.to_owned();
    let b_string: String = b.to_owned();
    a_string == b_string
}

/// One capability request raised by a running script: a human-readable
/// message, the capability's name, the API that raised it if any, whether
/// the request is a single yes/no decision, the operator's answer once
/// given, and a snapshot of the call stack.
#[derive(Debug, Clone)]
pub struct PermissionPrompt {
    pub message: String,
    pub name: String,
    pub api_name: Option<String>,
    pub is_unary: bool,
    pub response: Option<PermissionsResponse>,
    pub stack: Vec<String>,
}

/// The mathematical shape of a permission prompt.
pub struct PromptModel {
    pub message: Seq<char>,
    pub name: Seq<char>,
    pub api_name: Option<Seq<char>>,
    pub is_unary: bool,
    pub response: Option<PermissionsResponse>,
    pub stack: Seq<Seq<char>>,
}

impl View for PermissionPrompt {
    type V = PromptModel;

    open spec fn view(&self) -> PromptModel {
        PromptModel {
            message: self.message@,
            name: self.name@,
            api_name: match self.api_name {
                Some(a) => Some(a@),
                None => None,
            },
            is_unary: self.is_unary,
            response: self.response,
            stack: crate::strutil::views_of(self.stack@),
        }
    }
}

} // verus!
