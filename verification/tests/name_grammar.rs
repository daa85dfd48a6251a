//! The pipe-delimited name grammar: the three shapes, the defaults, the
//! memory-field suffix stripping, and hostname derivation.

use sshx_server::bytes::{parse_u32_dec, parse_u64_dec};
use sshx_server::metadata::parse_name;

fn parse(clean: &[u8]) -> sshx_server::metadata::Metadata {
    parse_name(&clean.to_vec(), Vec::new(), Vec::new())
}

#[test]
fn five_field_shape() {
    let m = parse(b"alice,bob|cpuX|4096MB|Linux 5.15|KEY");
    assert_eq!(m.name, b"alice,bob".to_vec());
    assert_eq!(m.cpu, b"cpuX".to_vec());
    assert_eq!(m.memory_mb, 4096);
    assert_eq!(m.os_info, b"Linux 5.15".to_vec());
    assert_eq!(m.encryption_key, Some(b"KEY".to_vec()));
    // No `@` in the user field: the hostname falls back to the user name.
    assert_eq!(m.hostname, b"alice,bob".to_vec());
}

#[test]
fn six_field_shape_joins_os_words() {
    let m = parse(b"u@h|cpu|512MB|Debian GNU|Linux 6.1|K");
    assert_eq!(m.name, b"u@h".to_vec());
    assert_eq!(m.os_info, b"Debian GNU Linux 6.1".to_vec());
    assert_eq!(m.memory_mb, 512);
    assert_eq!(m.encryption_key, Some(b"K".to_vec()));
    assert_eq!(m.hostname, b"h".to_vec());
}

#[test]
fn two_field_shape_defaults() {
    let m = parse(b"user@host|SECRETKEY");
    assert_eq!(m.name, b"user@host".to_vec());
    assert_eq!(m.hostname, b"host".to_vec());
    assert_eq!(m.cpu, b"Unknown".to_vec());
    assert_eq!(m.memory_mb, 0);
    assert_eq!(m.os_info, b"Unknown OS".to_vec());
    assert_eq!(m.encryption_key, Some(b"SECRETKEY".to_vec()));
}

#[test]
fn bare_name_shape() {
    let m = parse(b"justme");
    assert_eq!(m.name, b"justme".to_vec());
    assert_eq!(m.hostname, b"justme".to_vec());
    assert_eq!(m.encryption_key, None);
    assert_eq!(m.cpu, b"Unknown".to_vec());
    assert_eq!(m.memory_mb, 0);
    assert_eq!(m.os_info, b"Unknown OS".to_vec());
}

#[test]
fn three_fields_fall_back_to_whole_name() {
    // Neither two nor five fields: the whole payload is the user name.
    let m = parse(b"a|b|c");
    assert_eq!(m.name, b"a|b|c".to_vec());
    assert_eq!(m.encryption_key, None);
}

#[test]
fn empty_name() {
    let m = parse(b"");
    assert_eq!(m.name, Vec::<u8>::new());
    assert_eq!(m.hostname, Vec::<u8>::new());
    assert_eq!(m.encryption_key, None);
}

#[test]
fn memory_parse_failure_defaults_to_zero() {
    let m = parse(b"u|c|notanumberMB|os|K");
    assert_eq!(m.memory_mb, 0);
}

#[test]
fn memory_suffix_stripped_repeatedly() {
    let m = parse(b"u|c|4096MBMB|os|K");
    assert_eq!(m.memory_mb, 4096);
}

#[test]
fn memory_with_plus_sign() {
    let m = parse(b"u|c|+42MB|os|K");
    assert_eq!(m.memory_mb, 42);
}

#[test]
fn hostname_takes_second_at_field() {
    let m = parse(b"a@b@c|K");
    assert_eq!(m.hostname, b"b".to_vec());
}

#[test]
fn hostname_empty_after_at() {
    let m = parse(b"user@|K");
    assert_eq!(m.hostname, Vec::<u8>::new());
}

#[test]
fn write_password_hash_presence() {
    let with = parse_name(&b"u|K".to_vec(), b"hash".to_vec(), Vec::new());
    assert_eq!(with.write_password_hash, Some(b"hash".to_vec()));
    let without = parse_name(&b"u|K".to_vec(), Vec::new(), Vec::new());
    assert_eq!(without.write_password_hash, None);
}

#[test]
fn encrypted_zeros_passed_through() {
    let m = parse_name(&b"u|K".to_vec(), Vec::new(), vec![0, 1, 2, 3]);
    assert_eq!(m.encrypted_zeros, vec![0, 1, 2, 3]);
}

#[test]
fn parse_u64_accepts_max() {
    assert_eq!(parse_u64_dec(&b"18446744073709551615".to_vec()), Some(u64::MAX));
}

#[test]
fn parse_u64_rejects_overflow() {
    assert_eq!(parse_u64_dec(&b"18446744073709551616".to_vec()), None);
}

#[test]
fn parse_u64_rejects_empty_and_junk() {
    assert_eq!(parse_u64_dec(&Vec::new()), None);
    assert_eq!(parse_u64_dec(&b"+".to_vec()), None);
    assert_eq!(parse_u64_dec(&b"12x".to_vec()), None);
    assert_eq!(parse_u64_dec(&b"-3".to_vec()), None);
}

#[test]
fn parse_u32_range() {
    assert_eq!(parse_u32_dec(&b"4294967295".to_vec()), Some(u32::MAX));
    assert_eq!(parse_u32_dec(&b"4294967296".to_vec()), None);
    assert_eq!(parse_u32_dec(&b"0".to_vec()), Some(0));
}
