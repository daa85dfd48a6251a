//! Session metadata and the pipe-delimited name grammar.
//!
//! The name payload presented at open has three accepted shapes, tried by
//! field count: five or more fields are `user|cpu|memMB|os words...|key`
//! (all fields between the third and the last are rejoined with spaces as
//! the OS info), exactly two fields are `user|key`, and anything else is a
//! bare user name. Missing telemetry defaults to `Unknown` / `0` /
//! `Unknown OS`. Parsing is total: every input yields metadata.

use crate::bytes::{
    copy_bytes, AT_SIGN, PIPE, SPACE, ends_with, join_range, parse_u64_dec, spec_ends_with, spec_join, spec_parse_u64,
    spec_split, split_bytes, subvec,
};
use vstd::prelude::*;

verus! {

pub open spec fn spec_mb_suffix() -> Seq<u8> {
    seq![77u8, 66u8]
}

pub open spec fn spec_unknown() -> Seq<u8> {
    seq![85u8, 110u8, 107u8, 110u8, 111u8, 119u8, 110u8]
}

pub open spec fn spec_unknown_os() -> Seq<u8> {
    seq![85u8, 110u8, 107u8, 110u8, 111u8, 119u8, 110u8, 32u8, 79u8, 83u8]
}

fn mb_suffix() -> (r: Vec<u8>)
    ensures
        r@ == spec_mb_suffix(),
{
    let mut v: Vec<u8> = Vec::new();
    v.push(77);
    v.push(66);
    proof {
        assert(v@ =~= spec_mb_suffix());
    }
    v
}

fn unknown_vec() -> (r: Vec<u8>)
    ensures
        r@ == spec_unknown(),
{
    let mut v: Vec<u8> = Vec::new();
    v.push(85);
    v.push(110);
    v.push(107);
    v.push(110);
    v.push(111);
    v.push(119);
    v.push(110);
    proof {
        assert(v@ =~= spec_unknown());
    }
    v
}

fn unknown_os_vec() -> (r: Vec<u8>)
    ensures
        r@ == spec_unknown_os(),
{
    let mut v: Vec<u8> = Vec::new();
    v.push(85);
    v.push(110);
    v.push(107);
    v.push(110);
    v.push(111);
    v.push(119);
    v.push(110);
    v.push(32);
    v.push(79);
    v.push(83);
    proof {
        assert(v@ =~= spec_unknown_os());
    }
    v
}

/// Every trailing `MB` stripped from the memory field, repeatedly.
pub open spec fn strip_mb(s: Seq<u8>) -> Seq<u8>
    decreases s.len(),
{
    if spec_ends_with(s, spec_mb_suffix()) && s.len() >= 2 {
        strip_mb(s.take(s.len() - 2))
    } else {
        s
    }
}

/// Strip every trailing `MB` from a copy of the field.
pub fn strip_mb_suffix(v: &Vec<u8>) -> (r: Vec<u8>)
    ensures
        r@ == strip_mb(v@),
{
    let mb = mb_suffix();
    let mut cur = copy_bytes(v);
    while ends_with(&cur, &mb)
        invariant
            mb@ == spec_mb_suffix(),
            strip_mb(cur@) == strip_mb(v@),
        decreases cur@.len(),
    {
        let end = cur.len() - 2;
        cur = subvec(&cur, 0, end);
    }
    cur
}

/// Value of the memory field: strip the `MB` suffix, parse as decimal,
/// default to zero when parsing fails.
pub open spec fn spec_memory_mb(field: Seq<u8>) -> u64 {
    match spec_parse_u64(strip_mb(field)) {
        Some(n) => n,
        None => 0u64,
    }
}

/// The pipe-delimited fields of the name payload.
pub open spec fn name_parts(clean: Seq<u8>) -> Seq<Seq<u8>> {
    spec_split(clean, PIPE)
}

/// The user-name field: first field in the two delimited shapes, the whole
/// payload otherwise.
pub open spec fn spec_user(clean: Seq<u8>) -> Seq<u8> {
    let parts = name_parts(clean);
    if parts.len() >= 5 || parts.len() == 2 {
        parts[0]
    } else {
        clean
    }
}

/// The encryption key: last field in the five-or-more shape, second field in
/// the two-field shape, absent otherwise.
pub open spec fn spec_encryption_key(clean: Seq<u8>) -> Option<Seq<u8>> {
    let parts = name_parts(clean);
    if parts.len() >= 5 {
        Some(parts.last())
    } else if parts.len() == 2 {
        Some(parts[1])
    } else {
        None
    }
}

pub open spec fn spec_cpu(clean: Seq<u8>) -> Seq<u8> {
    let parts = name_parts(clean);
    if parts.len() >= 5 {
        parts[1]
    } else {
        spec_unknown()
    }
}

pub open spec fn spec_memory(clean: Seq<u8>) -> u64 {
    let parts = name_parts(clean);
    if parts.len() >= 5 {
        spec_memory_mb(parts[2])
    } else {
        0u64
    }
}

/// OS info: the fields between the third and the last, rejoined with spaces.
pub open spec fn spec_os_info(clean: Seq<u8>) -> Seq<u8> {
    let parts = name_parts(clean);
    if parts.len() >= 5 {
        spec_join(parts.subrange(3, parts.len() - 1), SPACE)
    } else {
        spec_unknown_os()
    }
}

/// Hostname derived from the user name: the part between the first and
/// second `@`, or the user name itself when it has no `@`.
pub open spec fn spec_hostname(user: Seq<u8>) -> Seq<u8> {
    let hp = spec_split(user, AT_SIGN);
    if hp.len() >= 2 {
        hp[1]
    } else {
        user
    }
}

/// Immutable description of a session's owner, fixed at session creation.
pub struct Metadata {
    /// Display identity, typically `user@host`.
    pub name: Vec<u8>,
    /// Derived from `name`; see [`spec_hostname`].
    pub hostname: Vec<u8>,
    /// Best-effort CPU description.
    pub cpu: Vec<u8>,
    /// Best-effort memory size in megabytes.
    pub memory_mb: u64,
    /// Best-effort OS description.
    pub os_info: Vec<u8>,
    /// Opaque pass-through; the server never decrypts payloads.
    pub encryption_key: Option<Vec<u8>>,
    /// Present exactly when the open request carried a non-empty hash.
    pub write_password_hash: Option<Vec<u8>>,
    /// Opaque placeholder blob forwarded from the client.
    pub encrypted_zeros: Vec<u8>,
}

/// Derive the hostname from a user name.
pub fn derive_hostname(user: &Vec<u8>) -> (r: Vec<u8>)
    ensures
        r@ == spec_hostname(user@),
{
    let hp = split_bytes(user, AT_SIGN);
    proof {
        assert(hp@.map_values(|p: Vec<u8>| p@).len() == hp@.len());
    }
    if hp.len() >= 2 {
        proof {
            assert(hp@.map_values(|p: Vec<u8>| p@)[1] == hp@[1]@);
        }
        copy_bytes(&hp[1])
    } else {
        copy_bytes(user)
    }
}

/// Parse the name payload into metadata. Total: never fails, and missing
/// telemetry takes the documented defaults.
pub fn parse_name(clean_name: &Vec<u8>, write_password_hash: Vec<u8>, encrypted_zeros: Vec<u8>) -> (r:
    Metadata)
    ensures
        r.name@ == spec_user(clean_name@),
        r.hostname@ == spec_hostname(spec_user(clean_name@)),
        r.cpu@ == spec_cpu(clean_name@),
        r.memory_mb == spec_memory(clean_name@),
        r.os_info@ == spec_os_info(clean_name@),
        match r.encryption_key {
            Some(k) => spec_encryption_key(clean_name@) == Some(k@),
            None => spec_encryption_key(clean_name@) is None,
        },
        match r.write_password_hash {
            Some(w) => write_password_hash@.len() > 0 && w@ == write_password_hash@,
            None => write_password_hash@.len() == 0,
        },
        r.encrypted_zeros@ == encrypted_zeros@,
{
    let parts = split_bytes(clean_name, PIPE);
    let ghost gparts = name_parts(clean_name@);
    proof {
        assert(parts@.map_values(|p: Vec<u8>| p@).len() == parts@.len());
        assert(forall|i: int|
            0 <= i < parts@.len() ==> parts@.map_values(|p: Vec<u8>| p@)[i] == parts@[i]@);
    }
    let (user, encryption_key, cpu, memory_mb, os_info) = if parts.len() >= 5 {
        let last = parts.len() - 1;
        let stripped = strip_mb_suffix(&parts[2]);
        let memory = match parse_u64_dec(&stripped) {
            Some(n) => n,
            None => 0u64,
        };
        let os = join_range(&parts, 3, last, SPACE);
        proof {
            assert(parts@.subrange(3, last as int).map_values(|p: Vec<u8>| p@) =~= gparts.subrange(
                3,
                gparts.len() - 1,
            ));
        }
        (
            copy_bytes(&parts[0]),
            Some(copy_bytes(&parts[last])),
            copy_bytes(&parts[1]),
            memory,
            os,
        )
    } else if parts.len() == 2 {
        (
            copy_bytes(&parts[0]),
            Some(copy_bytes(&parts[1])),
            unknown_vec(),
            0u64,
            unknown_os_vec(),
        )
    } else {
        (copy_bytes(clean_name), None, unknown_vec(), 0u64, unknown_os_vec())
    };
    let hostname = derive_hostname(&user);
    let wph = if write_password_hash.len() == 0 {
        None
    } else {
        Some(write_password_hash)
    };
    Metadata {
        name: user,
        hostname,
        cpu,
        memory_mb,
        os_info,
        encryption_key,
        write_password_hash: wph,
        encrypted_zeros,
    }
}

} // verus!
