//! Project records as the creator-companion database stores them.

use vstd::prelude::*;
use vstd::string::*;

verus! {

/// The characters of one decimal digit.
pub open spec fn spec_digit(d: nat) -> Seq<char> {
    if d == 0 {
        "0"@
    } else if d == 1 {
        "1"@
    } else if d == 2 {
        "2"@
    } else if d == 3 {
        "3"@
    } else if d == 4 {
        "4"@
    } else if d == 5 {
        "5"@
    } else if d == 6 {
        "6"@
    } else if d == 7 {
        "7"@
    } else if d == 8 {
        "8"@
    } else {
        "9"@
    }
}

/// The decimal rendering of a number, most significant digit first.
pub open spec fn spec_decimal(n: nat) -> Seq<char>
    decreases n,
{
    if n < 10 {
        spec_digit(n)
    } else {
        spec_decimal(n / 10) + spec_digit(n % 10)
    }
}

fn digit_str(d: u32) -> (r: &'static str)
    requires
        d < 10,
    ensures
        r@ == spec_digit(d as nat),
{
    if d == 0 {
        "0"
    } else if d == 1 {
        "1"
    } else if d == 2 {
        "2"
    } else if d == 3 {
        "3"
    } else if d == 4 {
        "4"
    } else if d == 5 {
        "5"
    } else if d == 6 {
        "6"
    } else if d == 7 {
        "7"
    } else if d == 8 {
        "8"
    } else {
        "9"
    }
}

/// Renders a number in decimal.
fn decimal_string(n: u32) -> (r: String)
    ensures
        r@ == spec_decimal(n as nat),
    decreases n,
{
    if n < 10 {
        String::from_str(digit_str(n))
    } else {
        decimal_string(n / 10).concat(digit_str(n % 10))
    }
}

/// The kind of a recorded project, as a small code.
#[derive(Debug, Clone, Copy, PartialEq, Eq, Structural, Hash, Default)]
pub struct ProjectType {
    pub code: u32,
}

pub const PROJECT_TYPE_UNKNOWN: u32 = 0;
pub const PROJECT_TYPE_LEGACY_SDK2: u32 = 1;
pub const PROJECT_TYPE_LEGACY_WORLDS: u32 = 2;
pub const PROJECT_TYPE_LEGACY_AVATARS: u32 = 3;
pub const PROJECT_TYPE_UPM_WORLDS: u32 = 4;
pub const PROJECT_TYPE_UPM_AVATARS: u32 = 5;
pub const PROJECT_TYPE_UPM_STARTER: u32 = 6;
pub const PROJECT_TYPE_WORLDS: u32 = 7;
pub const PROJECT_TYPE_AVATARS: u32 = 8;
pub const PROJECT_TYPE_VPM_STARTER: u32 = 9;

impl ProjectType {
    /// The display name of each known code; any other code reads as
    /// unexpected, with the code rendered into the text.
    pub fn kind_name(&self) -> (r: String)
        ensures
            self.code == PROJECT_TYPE_UNKNOWN ==> r@ == "Unknown"@,
            self.code == PROJECT_TYPE_LEGACY_SDK2 ==> r@ == "Legacy SDK2"@,
            self.code == PROJECT_TYPE_LEGACY_WORLDS ==> r@ == "Legacy Worlds"@,
            self.code == PROJECT_TYPE_LEGACY_AVATARS ==> r@ == "Legacy Avatars"@,
            self.code == PROJECT_TYPE_UPM_WORLDS ==> r@ == "UPM Worlds"@,
            self.code == PROJECT_TYPE_UPM_AVATARS ==> r@ == "UPM Avatars"@,
            self.code == PROJECT_TYPE_UPM_STARTER ==> r@ == "UPM Starter"@,
            self.code == PROJECT_TYPE_WORLDS ==> r@ == "Worlds"@,
            self.code == PROJECT_TYPE_AVATARS ==> r@ == "Avatars"@,
            self.code == PROJECT_TYPE_VPM_STARTER ==> r@ == "VPM Starter"@,
            self.code > PROJECT_TYPE_VPM_STARTER ==> r@ == "Unexpected("@ + spec_decimal(
                self.code as nat,
            ) + ")"@,
    {
        if self.code == PROJECT_TYPE_UNKNOWN {
            String::from_str("Unknown")
        } else if self.code == PROJECT_TYPE_LEGACY_SDK2 {
            String::from_str("Legacy SDK2")
        } else if self.code == PROJECT_TYPE_LEGACY_WORLDS {
            String::from_str("Legacy Worlds")
        } else if self.code == PROJECT_TYPE_LEGACY_AVATARS {
            String::from_str("Legacy Avatars")
        } else if self.code == PROJECT_TYPE_UPM_WORLDS {
            String::from_str("UPM Worlds")
        } else if self.code == PROJECT_TYPE_UPM_AVATARS {
            String::from_str("UPM Avatars")
        } else if self.code == PROJECT_TYPE_UPM_STARTER {
            String::from_str("UPM Starter")
        } else if self.code == PROJECT_TYPE_WORLDS {
            String::from_str("Worlds")
        } else if self.code == PROJECT_TYPE_AVATARS {
            String::from_str("Avatars")
        } else if self.code == PROJECT_TYPE_VPM_STARTER {
            String::from_str("VPM Starter")
        } else {
            String::from_str("Unexpected(").concat(decimal_string(self.code).as_str()).concat(")")
        }
    }
}

/// A record identifier: twelve bytes, as the database assigns them.
#[derive(Debug, Clone, Copy, PartialEq, Eq, Hash)]
pub struct ObjectId {
    pub bytes: [u8; 12],
}

/// A recorded project: its path, the engine version string last seen in
/// it, bookkeeping times (milliseconds since the Unix epoch, UTC), its
/// kind, identifier, and favorite mark.
#[derive(Debug, PartialEq, Eq)]
pub struct Project {
    pub path: String,
    pub unity_version: Option<String>,
    pub created_at: u64,
    pub updated_at: u64,
    pub project_type: ProjectType,
    pub id: ObjectId,
    pub favorite: bool,
}

impl Project {
    pub fn new(
        path: String,
        unity_version: Option<String>,
        created_at: u64,
        updated_at: u64,
        project_type: ProjectType,
        id: ObjectId,
        favorite: bool,
    ) -> (r: Project)
        ensures
            r == (Project { path, unity_version, created_at, updated_at, project_type, id, favorite }),
    {
        Project { path, unity_version, created_at, updated_at, project_type, id, favorite }
    }
}

} // verus!
