//! POSIX identity values: the permission set a user currently has, or the one
//! they request, plus the parsers that build one from textual fields and the
//! reader for the process's own identity.

use vstd::prelude::*;

use crate::parse::{parse_u32, spec_parse_u32, split_at_commas, split_commas};

verus! {

use vstd::utf8::encode_utf8;

/// A permission set in the Unix model: a user id, a primary group id, and a
/// list of secondary group ids (which need not contain the primary one).
#[derive(Debug, PartialEq, Eq)]
pub struct Permission {
    /// The user id.
    pub uid: u32,
    /// The primary group id.
    pub primary_gid: u32,
    /// The secondary group ids, which may or may not contain the primary
    /// group id itself.
    pub secondary_gids: Vec<u32>,
}

/// The mathematical value of a [`Permission`].
pub struct PermissionV {
    pub uid: u32,
    pub primary_gid: u32,
    pub secondary_gids: Seq<u32>,
}

impl View for Permission {
    type V = PermissionV;

    open spec fn view(&self) -> PermissionV {
        PermissionV {
            uid: self.uid,
            primary_gid: self.primary_gid,
            secondary_gids: self.secondary_gids@,
        }
    }
}

impl Clone for Permission {
    fn clone(&self) -> (r: Self)
        ensures
            r@ == self@,
    {
        Permission {
            uid: self.uid,
            primary_gid: self.primary_gid,
            secondary_gids: vstd::slice::slice_to_vec(self.secondary_gids.as_slice()),
        }
    }
}

/// Why a [`Permission`] could not be built from its source fields.
#[derive(Debug, PartialEq, Eq)]
#[allow(inconsistent_fields)]
pub enum PermissionFactoryError {
    /// UID could not be located.
    UIDNotFound,
    /// Primary GID could not be located.
    PrimaryGIDNotFound,
    /// Secondary GID list could not be found.
    SecondaryGIDNotFound,
    /// Parse error for the UID, where `content` is the field that failed.
    UIDMalformed { content: String },
    /// Parse error for the primary GID, where `content` is the field that
    /// failed.
    PrimaryGIDMalformed { content: String },
    /// Parse error for a secondary GID, where `content` is the failing
    /// comma-separated segment.
    SecondaryGIDMalformed { content: Vec<u8> },
}

/// The group ids denoted by a sequence of decimal segments: defined exactly
/// when every segment parses.
pub open spec fn parse_segments(segs: Seq<Seq<u8>>) -> Option<Seq<u32>>
    decreases segs.len(),
{
    if segs.len() == 0 {
        Some(Seq::empty())
    } else {
        match parse_segments(segs.drop_last()) {
            Option::None => Option::None,
            Option::Some(r) => match spec_parse_u32(segs.last()) {
                Option::None => Option::None,
                Option::Some(g) => Option::Some(r.push(g)),
            },
        }
    }
}

/// The secondary group ids denoted by a comma-separated decimal byte string.
pub open spec fn parse_gid_list(s: Seq<u8>) -> Option<Seq<u32>> {
    parse_segments(split_commas(s))
}

proof fn lemma_parse_segments_fail(segs: Seq<Seq<u8>>, k: int)
    requires
        0 <= k < segs.len(),
        spec_parse_u32(segs[k]) is None,
    ensures
        parse_segments(segs) is None,
    decreases segs.len(),
{
    if k == segs.len() - 1 {
    } else {
        assert(segs.drop_last()[k] == segs[k]);
        lemma_parse_segments_fail(segs.drop_last(), k);
    }
}

/// Parses the secondary group id list from a comma-separated decimal byte
/// string.
fn parse_secondary_gids(s: &[u8]) -> (r: Result<Vec<u32>, Vec<u8>>)
    ensures
        match r {
            Ok(gids) => parse_gid_list(s@) == Some(gids@),
            Err(content) => parse_gid_list(s@) is None && exists|k: int|
                0 <= k < split_commas(s@).len()
                    && spec_parse_u32(#[trigger] split_commas(s@)[k]) is None
                    && content@ == split_commas(s@)[k]
                    && forall|j: int| 0 <= j < k ==> spec_parse_u32(
                    #[trigger] split_commas(s@)[j],
                ) is Some,
        },
{
    let segs = split_at_commas(s);
    let ghost gsegs = split_commas(s@);
    let mut gids: Vec<u32> = Vec::new();
    let mut i: usize = 0;
    while i < segs.len()
        invariant
            0 <= i <= segs.len(),
            gsegs == split_commas(s@),
            segs.deep_view() == gsegs,
            parse_segments(gsegs.take(i as int)) == Some(gids@),
            forall|j: int| 0 <= j < i ==> spec_parse_u32(#[trigger] gsegs[j]) is Some,
        decreases segs.len() - i,
    {
        proof {
            assert(gsegs[i as int] == segs@[i as int]@);
        }
        match parse_u32(segs[i].as_slice()) {
            Option::None => {
                proof {
                    lemma_parse_segments_fail(gsegs, i as int);
                }
                let seg = vstd::slice::slice_to_vec(segs[i].as_slice());
                proof {
                    assert(parse_gid_list(s@) is None);
                    assert(exists|k: int|
                        0 <= k < split_commas(s@).len() && spec_parse_u32(
                            #[trigger] split_commas(s@)[k],
                        ) is None && seg@ == split_commas(s@)[k] && forall|j: int|
                            0 <= j < k ==> spec_parse_u32(#[trigger] split_commas(s@)[j]) is Some)
                        by {
                        assert(split_commas(s@) == gsegs);
                        assert(0 <= (i as int) && (i as int) < gsegs.len() && spec_parse_u32(gsegs[i as int])
                            is None && seg@ == gsegs[i as int] && forall|j: int|
                            0 <= j < i as int ==> spec_parse_u32(#[trigger] gsegs[j]) is Some);
                    };
                }
                return Err(seg);
            },
            Option::Some(g) => {
                gids.push(g);
            },
        }
        i = i + 1;
        proof {
            let t = gsegs.take(i as int);
            assert(t.drop_last() =~= gsegs.take(i as int - 1));
            assert(t.last() == gsegs[i as int - 1]);
        }
    }
    proof {
        assert(gsegs.take(i as int) =~= gsegs);
    }
    Ok(gids)
}

/// Builds a [`Permission`] from a vector of textual fields: the field at
/// `uid_idx` is the decimal UID, the one at `gid1_idx` the decimal primary
/// GID, and the one at `gid2_idx` a comma-separated list of decimal secondary
/// GIDs. The fields are checked in that order, and the first missing or
/// malformed one decides the error.
pub fn from_iterator(args: &Vec<String>, uid_idx: usize, gid1_idx: usize, gid2_idx: usize) -> (r:
    Result<Permission, PermissionFactoryError>)
    ensures
        ({
            let a = args@;
            match r {
                Ok(p) => uid_idx < a.len() && gid1_idx < a.len() && gid2_idx < a.len()
                    && spec_parse_u32(encode_utf8(a[uid_idx as int]@)) == Some(p.uid)
                    && spec_parse_u32(encode_utf8(a[gid1_idx as int]@)) == Some(p.primary_gid)
                    && parse_gid_list(encode_utf8(a[gid2_idx as int]@)) == Some(
                    p@.secondary_gids,
                ),
                Err(PermissionFactoryError::UIDNotFound) => uid_idx >= a.len(),
                Err(PermissionFactoryError::UIDMalformed { content }) => uid_idx < a.len()
                    && content@ == a[uid_idx as int]@ && spec_parse_u32(
                    encode_utf8(a[uid_idx as int]@),
                ) is None,
                Err(PermissionFactoryError::PrimaryGIDNotFound) => uid_idx < a.len()
                    && spec_parse_u32(encode_utf8(a[uid_idx as int]@)) is Some && gid1_idx
                    >= a.len(),
                Err(PermissionFactoryError::PrimaryGIDMalformed { content }) => uid_idx < a.len()
                    && spec_parse_u32(encode_utf8(a[uid_idx as int]@)) is Some && gid1_idx
                    < a.len() && content@ == a[gid1_idx as int]@ && spec_parse_u32(
                    encode_utf8(a[gid1_idx as int]@),
                ) is None,
                Err(PermissionFactoryError::SecondaryGIDNotFound) => uid_idx < a.len()
                    && spec_parse_u32(encode_utf8(a[uid_idx as int]@)) is Some && gid1_idx
                    < a.len() && spec_parse_u32(encode_utf8(a[gid1_idx as int]@)) is Some
                    && gid2_idx >= a.len(),
                Err(PermissionFactoryError::SecondaryGIDMalformed { content }) => uid_idx < a.len()
                    && spec_parse_u32(encode_utf8(a[uid_idx as int]@)) is Some && gid1_idx
                    < a.len() && spec_parse_u32(encode_utf8(a[gid1_idx as int]@)) is Some
                    && gid2_idx < a.len() && parse_gid_list(
                    encode_utf8(a[gid2_idx as int]@),
                ) is None,
            }
        }),
{
    if uid_idx >= args.len() {
        return Err(PermissionFactoryError::UIDNotFound);
    }
    let uid = match parse_u32(args[uid_idx].as_str().as_bytes()) {
        Option::None => {
            return Err(PermissionFactoryError::UIDMalformed { content: args[uid_idx].clone() });
        },
        Option::Some(u) => u,
    };
    if gid1_idx >= args.len() {
        return Err(PermissionFactoryError::PrimaryGIDNotFound);
    }
    let primary_gid = match parse_u32(args[gid1_idx].as_str().as_bytes()) {
        Option::None => {
            return Err(
                PermissionFactoryError::PrimaryGIDMalformed { content: args[gid1_idx].clone() },
            );
        },
        Option::Some(g) => g,
    };
    if gid2_idx >= args.len() {
        return Err(PermissionFactoryError::SecondaryGIDNotFound);
    }
    let secondary_gids = match parse_secondary_gids(args[gid2_idx].as_str().as_bytes()) {
        Err(content) => {
            return Err(PermissionFactoryError::SecondaryGIDMalformed { content });
        },
        Ok(gids) => gids,
    };
    Ok(Permission { uid, primary_gid, secondary_gids })
}

/// Relies on nix::unistd::getuid: returns the process's real user id, which
/// POSIX defines to always succeed.
#[verifier::external_body]
fn os_real_uid() -> u32 {
    nix::unistd::getuid().as_raw()
}

/// Relies on nix::unistd::getgid: returns the process's real primary group
/// id, which POSIX defines to always succeed.
#[verifier::external_body]
fn os_real_gid() -> u32 {
    nix::unistd::getgid().as_raw()
}

/// Relies on nix::unistd::getgroups: returns the process's supplementary
/// group ids, or the errno when the lookup fails.
#[verifier::external_body]
fn os_group_list() -> Result<Vec<u32>, i32> {
    match nix::unistd::getgroups() {
        Ok(v) => Ok(v.into_iter().map(|g| g.as_raw()).collect()),
        Err(e) => Err(e as i32),
    }
}

/// Builds a [`Permission`] from the process's own environment: the real UID,
/// the real primary GID, and the supplementary groups. Only the group-list
/// lookup can fail.
pub fn from_environment() -> (r: Result<Permission, PermissionFactoryError>)
    ensures
        r is Err ==> r == Err::<Permission, _>(PermissionFactoryError::SecondaryGIDNotFound),
{
    let secondary_gids = match os_group_list() {
        Err(_) => {
            return Err(PermissionFactoryError::SecondaryGIDNotFound);
        },
        Ok(v) => v,
    };
    Ok(Permission { uid: os_real_uid(), primary_gid: os_real_gid(), secondary_gids })
}

} // verus!
