use vstd::prelude::*;

verus! {

/// Roles supported by the LMS access-control system.
#[derive(Clone, Copy, Debug, PartialEq, Eq, Structural)]
pub enum Role {
    Admin,
    Instructor,
    Student,
}

/// Persistent access-control record for an LMS user.
#[derive(Clone, Debug, PartialEq, Eq)]
pub struct UserRecord {
    /// The bytes of the user's address, in its text form.
    pub address: Vec<u8>,
    pub role: Role,
}

/// A user record as plain values.
pub struct UserRecordView {
    pub address: Seq<u8>,
    pub role: Role,
}

impl View for UserRecord {
    type V = UserRecordView;

    open spec fn view(&self) -> UserRecordView {
        UserRecordView { address: self.address@, role: self.role }
    }
}

/// The bytes a role is stored as.
pub open spec fn role_bytes(role: Role) -> Seq<u8> {
    match role {
        Role::Admin => seq![0u8],
        Role::Instructor => seq![1u8],
        Role::Student => seq![2u8],
    }
}

/// The role that `bytes` stands for, if they stand for one.
pub open spec fn decode_role(bytes: Seq<u8>) -> Option<Role> {
    if bytes == seq![0u8] {
        Some(Role::Admin)
    } else if bytes == seq![1u8] {
        Some(Role::Instructor)
    } else if bytes == seq![2u8] {
        Some(Role::Student)
    } else {
        None
    }
}

pub proof fn lemma_role_roundtrip(role: Role)
    ensures
        decode_role(role_bytes(role)) == Some(role),
{
    assert(seq![0u8][0] == 0u8 && seq![1u8][0] == 1u8 && seq![2u8][0] == 2u8);
}

/// Encodes a role for storage.
pub fn encode_role(role: Role) -> (out: Vec<u8>)
    ensures
        out@ == role_bytes(role),
{
    let tag: u8 = match role {
        Role::Admin => 0,
        Role::Instructor => 1,
        Role::Student => 2,
    };
    let mut out: Vec<u8> = Vec::new();
    out.push(tag);
    assert(out@ =~= role_bytes(role));
    out
}

/// Decodes a stored role.
pub fn parse_role(bytes: &[u8]) -> (role: Option<Role>)
    ensures
        role == decode_role(bytes@),
{
    if bytes.len() != 1 {
        proof {
            assert(bytes@ != seq![0u8] && bytes@ != seq![1u8] && bytes@ != seq![2u8]) by {
                assert(seq![0u8].len() == 1 && seq![1u8].len() == 1 && seq![2u8].len() == 1);
            }
        }
        return None;
    }
    let b = bytes[0];
    proof {
        assert(bytes@ == seq![b]);
    }
    if b == 0 {
        Some(Role::Admin)
    } else if b == 1 {
        Some(Role::Instructor)
    } else if b == 2 {
        Some(Role::Student)
    } else {
        proof {
            assert(seq![b] != seq![0u8] && seq![b] != seq![1u8] && seq![b] != seq![2u8]) by {
                assert(seq![b][0] == b);
                assert(seq![0u8][0] == 0u8 && seq![1u8][0] == 1u8 && seq![2u8][0] == 2u8);
            }
        }
        None
    }
}

} // verus!
