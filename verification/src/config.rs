//! The user-administration rules of the configuration command: role
//! names, their wire codes, and the checks on an add-user request.

use vstd::prelude::*;
use crate::callback::str_eq;
use crate::httpmsg::{spec_eq_fold_lower};
use crate::principal::{Principal, principal_from_text, spec_principal_of_text};

verus! {

use vstd::string::StringSliceAdditionalSpecFns;

/// A role grantable on a memory.
#[derive(Clone, Copy, Debug, PartialEq, Eq, Structural)]
pub enum Role {
    Admin,
    Writer,
    Reader,
}

/// Why an add-user request was refused.
#[derive(Clone, Copy, Debug, PartialEq, Eq, Structural)]
pub enum ConfigError {
    /// An add-user request names exactly a user and a role.
    WrongArity,
    /// The user is neither `anonymous` nor a well-formed principal.
    InvalidPrincipal,
    /// The role is none of admin, writer, reader.
    InvalidRole,
    /// The admin role cannot be granted to the anonymous user.
    AnonymousAdmin,
}

/// The role a name denotes, compared without regard to letter case.
pub open spec fn spec_role_of(s: Seq<u8>) -> Option<Role> {
    if spec_eq_fold_lower(s, "admin"@.map(|_i: int, c: char| c as u8)) {
        Some(Role::Admin)
    } else if spec_eq_fold_lower(s, "writer"@.map(|_i: int, c: char| c as u8)) {
        Some(Role::Writer)
    } else if spec_eq_fold_lower(s, "reader"@.map(|_i: int, c: char| c as u8)) {
        Some(Role::Reader)
    } else {
        None
    }
}

impl Role {
    /// Parses a role name, accepting any letter case.
    pub fn from_str(value: &str) -> (r: Result<Role, ConfigError>)
        ensures
            r is Ok <==> spec_role_of(value.spec_bytes()) is Some,
            r matches Ok(v) ==> Some(v) == spec_role_of(value.spec_bytes()),
            r is Err ==> r == Err::<Role, ConfigError>(ConfigError::InvalidRole),
    {
        proof {
            reveal_strlit("admin");
            reveal_strlit("writer");
            reveal_strlit("reader");
        }
        if eq_fold_lower(value, "admin") {
            Ok(Role::Admin)
        } else if eq_fold_lower(value, "writer") {
            Ok(Role::Writer)
        } else if eq_fold_lower(value, "reader") {
            Ok(Role::Reader)
        } else {
            Err(ConfigError::InvalidRole)
        }
    }

    /// The wire code of this role.
    pub fn code(&self) -> (r: u8)
        ensures
            r == self.spec_code(),
    {
        match self {
            Role::Admin => 1,
            Role::Writer => 2,
            Role::Reader => 3,
        }
    }

    /// The wire code of this role.
    pub open spec fn spec_code(&self) -> u8 {
        match self {
            Role::Admin => 1,
            Role::Writer => 2,
            Role::Reader => 3,
        }
    }
}

/// Whether `a` equals the ASCII pattern `p` when `a` is folded to
/// lowercase.
#[verifier::loop_isolation(false)]
fn eq_fold_lower(a: &str, p: &str) -> (r: bool)
    requires
        vstd::utf8::is_ascii_chars(p@),
    ensures
        r == spec_eq_fold_lower(a.spec_bytes(), p@.map(|_i: int, c: char| c as u8)),
{
    let av = a.as_bytes();
    let pv = p.as_bytes();
    let ghost pm = p@.map(|_i: int, c: char| c as u8);
    proof {
        vstd::utf8::is_ascii_chars_encode_utf8(p@);
        assert(pv@ =~= pm);
    }
    if av.len() != pv.len() {
        return false;
    }
    let mut i: usize = 0;
    while i < av.len()
        invariant
            0 <= i <= av@.len(),
            av@.len() == pm.len(),
            pv@ =~= pm,
            forall|j: int| 0 <= j < i ==> crate::httpmsg::spec_ascii_lower(#[trigger] av@[j])
                == pm[j],
        decreases av@.len() - i,
    {
        if ascii_lower_byte(av[i]) != pv[i] {
            return false;
        }
        i = i + 1;
    }
    true
}

/// ASCII lowercase folding of one byte.
fn ascii_lower_byte(c: u8) -> (r: u8)
    ensures
        r == crate::httpmsg::spec_ascii_lower(c),
{
    if 0x41 <= c && c <= 0x5a {
        c + 0x20
    } else {
        c
    }
}

/// The checks on an add-user request, in order: exactly two values; the
/// user either the word `anonymous` or a well-formed principal; a known
/// role; and never the admin role for the anonymous user.
pub open spec fn spec_add_user_error(values: Seq<String>) -> Option<ConfigError> {
    if values.len() != 2 {
        Some(ConfigError::WrongArity)
    } else if !(values[0]@ == "anonymous"@ || spec_principal_of_text(values[0]@) is Some) {
        Some(ConfigError::InvalidPrincipal)
    } else if spec_role_of(vstd::utf8::encode_utf8(values[1]@)) is None {
        Some(ConfigError::InvalidRole)
    } else if spec_role_of(vstd::utf8::encode_utf8(values[1]@)) == Some(Role::Admin) && values[0]@
        == "anonymous"@ {
        Some(ConfigError::AnonymousAdmin)
    } else {
        None
    }
}

/// Validates an add-user request and yields the user and role to grant;
/// the word `anonymous` names the anonymous principal.
pub fn parse_add_user(values: Vec<String>) -> (r: Result<(Principal, Role), ConfigError>)
    ensures
        r is Ok <==> spec_add_user_error(values@) is None,
        r matches Err(e) ==> Some(e) == spec_add_user_error(values@),
        r matches Ok(p) ==> Some(p.1) == spec_role_of(vstd::utf8::encode_utf8(values@[1]@)) && (
        values@[0]@ == "anonymous"@ ==> p.0.bytes@ =~= seq![0x04u8]) && (values@[0]@
            != "anonymous"@ ==> Some(p.0.bytes@) == spec_principal_of_text(values@[0]@)),
{
    if values.len() != 2 {
        return Err(ConfigError::WrongArity);
    }
    let user_id = &values[0];
    let role_name = &values[1];
    let is_anon = str_eq(user_id.as_str(), "anonymous");
    let user: Principal = if is_anon {
        Principal::anonymous()
    } else {
        match principal_from_text(user_id.as_str()) {
            Ok(p) => p,
            Err(_) => {
                return Err(ConfigError::InvalidPrincipal);
            },
        }
    };
    let role = match Role::from_str(role_name.as_str()) {
        Ok(role) => role,
        Err(e) => {
            return Err(e);
        },
    };
    if matches!(role, Role::Admin) && is_anon {
        return Err(ConfigError::AnonymousAdmin);
    }
    Ok((user, role))
}

} // verus!
