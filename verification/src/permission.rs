//! The permission model: tagged, scoped capability values.
//!
//! Containment is structural equality only: a held permission satisfies a
//! required one exactly when tag and all scope fields coincide. The single
//! exception is `Administrate`, which the authorization engine treats as
//! satisfying any requirement; that override is procedural and lives in the
//! engine, not in the equality rule.

use vstd::prelude::*;
use vstd::string::StringExecFns;

use crate::error::Error;

verus! {

/// A capability, ordered by specificity from most to least general:
/// `Administrate`, `EditSequence(seq)`, `EditSection(seq, sec)`,
/// `EditSeqSec(sec)`. Scope fields narrow the variant to one target.
#[derive(Clone, Copy, Debug, PartialEq, Eq, Structural)]
pub enum Permission {
    Administrate,
    EditSequence(u32),
    EditSection(u32, u32),
    EditSeqSec(u32),
}

/// A permission set contains `Administrate`.
pub open spec fn is_admin(perms: Seq<Permission>) -> bool {
    perms.contains(Permission::Administrate)
}

/// Some element of `required` is structurally present in `perms`.
pub open spec fn holds_any(perms: Seq<Permission>, required: Seq<Permission>) -> bool {
    exists|i: int| 0 <= i < required.len() && perms.contains(required[i])
}

/// The engine's pass/fail rule: an administrator passes any check, anyone
/// else passes when some acceptable alternative in `required` is held.
pub open spec fn passes(perms: Seq<Permission>, required: Seq<Permission>) -> bool {
    is_admin(perms) || holds_any(perms, required)
}

/// The permission set after granting `p`: unchanged when an identical
/// permission is already held, else `p` is appended.
pub open spec fn grant(perms: Seq<Permission>, p: Permission) -> Seq<Permission> {
    if perms.contains(p) {
        perms
    } else {
        perms.push(p)
    }
}

/// The permission set after revoking `p`: every identical permission is
/// removed, the rest keep their order.
pub open spec fn revoke(perms: Seq<Permission>, p: Permission) -> Seq<Permission> {
    perms.filter(|q: Permission| q != p)
}

/// A holder of `Administrate` passes any check, whatever (non-empty) set of
/// alternatives the check requires.
pub proof fn lemma_administrate_passes_any(perms: Seq<Permission>, required: Seq<Permission>)
    requires
        perms.contains(Permission::Administrate),
        required.len() > 0,
    ensures
        passes(perms, required),
{
}

/// Holding a required permission itself is enough to pass, with no
/// administrator override involved.
pub proof fn lemma_structural_match_passes(
    perms: Seq<Permission>,
    required: Seq<Permission>,
    i: int,
)
    requires
        0 <= i < required.len(),
        perms.contains(required[i]),
    ensures
        passes(perms, required),
{
}

/// Structural containment: whether `perms` holds exactly `p` (tag and all
/// scope fields equal).
pub fn contains_permission(perms: &Vec<Permission>, p: &Permission) -> (r: bool)
    ensures
        r == perms@.contains(*p),
{
    let mut i: usize = 0;
    while i < perms.len()
        invariant
            0 <= i <= perms@.len(),
            forall|j: int| 0 <= j < i ==> perms@[j] != *p,
        decreases perms@.len() - i,
    {
        if perms[i] == *p {
            assert(perms@.contains(*p));
            return true;
        }
        i += 1;
    }
    false
}

/// Whether `perms` holds any element of `required`; the executable form of
/// `holds_any`.
pub fn contains_any(perms: &Vec<Permission>, required: &Vec<Permission>) -> (r: bool)
    ensures
        r == holds_any(perms@, required@),
{
    let mut i: usize = 0;
    while i < required.len()
        invariant
            0 <= i <= required@.len(),
            forall|j: int| 0 <= j < i ==> !perms@.contains(required@[j]),
        decreases required@.len() - i,
    {
        if contains_permission(perms, &required[i]) {
            assert(holds_any(perms@, required@));
            return true;
        }
        i += 1;
    }
    false
}

/// An element-wise copy of a permission vector.
pub fn copy_permissions(v: &Vec<Permission>) -> (r: Vec<Permission>)
    ensures
        r@ == v@,
{
    let mut r: Vec<Permission> = Vec::new();
    let mut i: usize = 0;
    while i < v.len()
        invariant
            0 <= i <= v@.len(),
            r@ == v@.subrange(0, i as int),
        decreases v@.len() - i,
    {
        r.push(v[i]);
        proof {
            assert(r@ =~= v@.subrange(0, i + 1));
        }
        i += 1;
    }
    proof {
        assert(v@.subrange(0, v@.len() as int) =~= v@);
    }
    r
}

impl Permission {
    /// Builds a permission from its tag name and optional scope targets, as
    /// the `set-permission` command supplies them. Succeeds exactly when the
    /// name is one of the four tags and the targets it needs are present.
    pub fn from_parts(
        name: &str,
        target_sequence: Option<u32>,
        target_section: Option<u32>,
    ) -> (r: Result<Permission, Error>)
        ensures
            r is Ok <==> (name@ == "Administrate"@ || (name@ == "EditSequence"@
                && target_sequence is Some) || (name@ == "EditSection"@
                && target_sequence is Some && target_section is Some) || (name@
                == "EditSeqSec"@ && target_section is Some)),
            match r {
                Ok(p) => match p {
                    Permission::Administrate => name@ == "Administrate"@,
                    Permission::EditSequence(seq) => name@ == "EditSequence"@
                        && target_sequence == Some(seq),
                    Permission::EditSection(seq, sec) => name@ == "EditSection"@
                        && target_sequence == Some(seq) && target_section == Some(sec),
                    Permission::EditSeqSec(sec) => name@ == "EditSeqSec"@
                        && target_section == Some(sec),
                },
                Err(e) => e == Error::TodoErr,
            },
    {
        proof {
            reveal_strlit("Administrate");
            reveal_strlit("EditSequence");
            reveal_strlit("EditSection");
            reveal_strlit("EditSeqSec");
            assert("Administrate"@.len() == 12 && "EditSequence"@.len() == 12
                && "EditSection"@.len() == 11 && "EditSeqSec"@.len() == 10);
            assert("Administrate"@ != "EditSequence"@) by {
                assert("Administrate"@[0] == 'A');
                assert("EditSequence"@[0] == 'E');
            }
        }
        let admin = String::from_str("Administrate");
        let edit_seq = String::from_str("EditSequence");
        let edit_sec = String::from_str("EditSection");
        let edit_ss = String::from_str("EditSeqSec");
        let name_s = name.to_owned();
        if name_s == admin {
            Ok(Permission::Administrate)
        } else if name_s == edit_seq {
            match target_sequence {
                Some(seq) => Ok(Permission::EditSequence(seq)),
                None => Err(Error::TodoErr),
            }
        } else if name_s == edit_sec {
            match (target_sequence, target_section) {
                (Some(seq), Some(sec)) => Ok(Permission::EditSection(seq, sec)),
                _ => Err(Error::TodoErr),
            }
        } else if name_s == edit_ss {
            match target_section {
                Some(sec) => Ok(Permission::EditSeqSec(sec)),
                None => Err(Error::TodoErr),
            }
        } else {
            Err(Error::TodoErr)
        }
    }
}

} // verus!
