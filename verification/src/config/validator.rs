//! The rules a configuration must satisfy before it is used.

use vstd::prelude::*;

use super::{is_default_config, tracking_method_for, Config};
use crate::utils::errors::HelixError;
use crate::utils::text::{
    decimal, equals_str, join, join_strings, push_decimal, push_signed_decimal, signed_decimal,
    strings_view,
};

verus! {

/// Whether `n` is a power of two.
pub open spec fn is_pow2(n: nat) -> bool
    decreases n,
{
    if n == 0 {
        false
    } else if n == 1 {
        true
    } else {
        n % 2 == 0 && is_pow2(n / 2)
    }
}

/// `u32::is_power_of_two`.
pub fn is_power_of_two(n: u32) -> (r: bool)
    ensures
        r == is_pow2(n as nat),
{
    if n == 0 {
        return false;
    }
    let mut m = n;
    while m % 2 == 0
        invariant
            m > 0,
            is_pow2(m as nat) == is_pow2(n as nat),
        decreases m,
    {
        m = m / 2;
    }
    m == 1
}

pub open spec fn valid_log_level(level: Seq<char>) -> bool {
    level == "trace"@ || level == "debug"@ || level == "info"@ || level == "warn"@ || level == "error"@
}

pub open spec fn valid_tracking_method(method: Seq<char>) -> bool {
    method == "dm-era"@ || method == "fsevents"@ || method == "bitmap"@ || method == "manual"@
}

pub open spec fn block_size_not_pow2_issue(bs: nat) -> Seq<char> {
    "Block size "@ + decimal(bs) + " is not a power of two"@
}

pub open spec fn block_size_range_issue(bs: nat) -> Seq<char> {
    "Block size "@ + decimal(bs) + " is outside supported range (512 - 1,048,576)"@
}

pub open spec fn compression_level_issue(level: int) -> Seq<char> {
    "Compression level "@ + signed_decimal(level) + " is outside valid range (1-22)"@
}

pub open spec fn log_level_issue(level: Seq<char>) -> Seq<char> {
    "Invalid log level '"@ + level + "'. Valid options: [\"trace\", \"debug\", \"info\", \"warn\", \"error\"]"@
}

pub open spec fn tracking_method_issue(method: Seq<char>) -> Seq<char> {
    "Invalid tracking method '"@ + method
        + "'. Valid options: [\"dm-era\", \"fsevents\", \"bitmap\", \"manual\"]"@
}

pub open spec fn missing_key_issue() -> Seq<char> {
    "Encryption enabled but no key_path or kms_provider configured"@
}

pub open spec fn cipher_issue(cipher: Seq<char>) -> Seq<char> {
    "Unsupported cipher: "@ + cipher
}

/// Appends `issue` when `bad` holds.
pub open spec fn note(issues: Seq<Seq<char>>, bad: bool, issue: Seq<char>) -> Seq<Seq<char>> {
    if bad { issues.push(issue) } else { issues }
}

/// Every rule a configuration breaks, in the order the rules are checked.
pub open spec fn config_issues(c: Config) -> Seq<Seq<char>> {
    let bs = c.block_size as nat;
    let s1 = note(Seq::empty(), !is_pow2(bs), block_size_not_pow2_issue(bs));
    let s2 = note(s1, bs < 512 || bs > 1048576, block_size_range_issue(bs));
    let s3 = note(s2, !(1 <= c.compression_level <= 22), compression_level_issue(c.compression_level as int));
    let s4 = note(s3, !valid_log_level(c.logging.level@), log_level_issue(c.logging.level@));
    let s5 = note(s4, !valid_tracking_method(c.tracking.method@), tracking_method_issue(c.tracking.method@));
    let s6 = note(
        s5,
        c.encryption.enabled && c.encryption.key_path is None && c.encryption.kms_provider is None,
        missing_key_issue(),
    );
    note(s6, c.encryption.enabled && c.encryption.cipher@ != "aes-256-gcm"@, cipher_issue(c.encryption.cipher@))
}

/// The message of a failed validation.
pub open spec fn validation_message(issues: Seq<Seq<char>>) -> Seq<char> {
    "Configuration validation failed:\n  - "@ + join(issues, "\n  - "@)
}

fn push_issue(issues: &mut Vec<String>, issue: String)
    ensures
        strings_view(final(issues)@) == strings_view(old(issues)@).push(issue@),
{
    let ghost before = issues@;
    issues.push(issue);
    assert(strings_view(issues@) =~= strings_view(before).push(issue@));
}

fn is_valid_log_level(level: &String) -> (r: bool)
    ensures
        r == valid_log_level(level@),
{
    equals_str(level, "trace") || equals_str(level, "debug") || equals_str(level, "info")
        || equals_str(level, "warn") || equals_str(level, "error")
}

fn is_valid_tracking_method(method: &String) -> (r: bool)
    ensures
        r == valid_tracking_method(method@),
{
    equals_str(method, "dm-era") || equals_str(method, "fsevents") || equals_str(method, "bitmap")
        || equals_str(method, "manual")
}

/// Checks every rule and reports all broken ones together.
pub fn validate(config: &Config) -> (r: Result<(), HelixError>)
    ensures
        config_issues(*config).len() == 0 ==> r is Ok,
        config_issues(*config).len() > 0 ==> (r matches Err(HelixError::Configuration(m))
            && m@ == validation_message(config_issues(*config))),
{
    let ghost c = *config;
    let ghost bs = config.block_size as nat;
    let mut issues: Vec<String> = Vec::new();
    assert(strings_view(issues@) =~= Seq::<Seq<char>>::empty());

    if !is_power_of_two(config.block_size) {
        let mut m = String::from_str("Block size ");
        push_decimal(&mut m, config.block_size as u64);
        m.append(" is not a power of two");
        push_issue(&mut issues, m);
    }
    assert(strings_view(issues@) == note(Seq::empty(), !is_pow2(bs), block_size_not_pow2_issue(bs)));
    let ghost s1 = strings_view(issues@);

    if config.block_size < 512 || config.block_size > 1_048_576 {
        let mut m = String::from_str("Block size ");
        push_decimal(&mut m, config.block_size as u64);
        m.append(" is outside supported range (512 - 1,048,576)");
        push_issue(&mut issues, m);
    }
    assert(strings_view(issues@) == note(s1, bs < 512 || bs > 1048576, block_size_range_issue(bs)));
    let ghost s2 = strings_view(issues@);

    if !(1 <= config.compression_level && config.compression_level <= 22) {
        let mut m = String::from_str("Compression level ");
        push_signed_decimal(&mut m, config.compression_level as i64);
        m.append(" is outside valid range (1-22)");
        push_issue(&mut issues, m);
    }
    let ghost s3 = strings_view(issues@);
    assert(s3 == note(s2, !(1 <= c.compression_level <= 22), compression_level_issue(c.compression_level as int)));

    if !is_valid_log_level(&config.logging.level) {
        let mut m = String::from_str("Invalid log level '");
        m.append(config.logging.level.as_str());
        m.append("'. Valid options: [\"trace\", \"debug\", \"info\", \"warn\", \"error\"]");
        push_issue(&mut issues, m);
    }
    let ghost s4 = strings_view(issues@);
    assert(s4 == note(s3, !valid_log_level(c.logging.level@), log_level_issue(c.logging.level@)));

    if !is_valid_tracking_method(&config.tracking.method) {
        let mut m = String::from_str("Invalid tracking method '");
        m.append(config.tracking.method.as_str());
        m.append("'. Valid options: [\"dm-era\", \"fsevents\", \"bitmap\", \"manual\"]");
        push_issue(&mut issues, m);
    }
    let ghost s5 = strings_view(issues@);
    assert(s5 == note(s4, !valid_tracking_method(c.tracking.method@), tracking_method_issue(c.tracking.method@)));

    if config.encryption.enabled {
        if config.encryption.key_path.is_none() && config.encryption.kms_provider.is_none() {
            let m = String::from_str("Encryption enabled but no key_path or kms_provider configured");
            push_issue(&mut issues, m);
        }
    }
    let ghost s6 = strings_view(issues@);
    assert(s6 == note(s5, c.encryption.enabled && c.encryption.key_path is None
        && c.encryption.kms_provider is None, missing_key_issue()));

    if config.encryption.enabled {
        if !equals_str(&config.encryption.cipher, "aes-256-gcm") {
            let mut m = String::from_str("Unsupported cipher: ");
            m.append(config.encryption.cipher.as_str());
            push_issue(&mut issues, m);
        }
    }
    assert(strings_view(issues@) == config_issues(c));

    if issues.len() == 0 {
        Ok(())
    } else {
        let joined = join_strings(&issues, "\n  - ");
        let mut msg = String::from_str("Configuration validation failed:\n  - ");
        msg.append(joined.as_str());
        Err(HelixError::Configuration(msg))
    }
}

/// The defaults of every platform break no rule.
pub proof fn lemma_default_config_is_valid(c: Config, target_os: Seq<char>)
    requires
        is_default_config(c, target_os),
    ensures
        config_issues(c).len() == 0,
{
    reveal_with_fuel(is_pow2, 14);
    assert(is_pow2(4096));
    assert(valid_log_level(c.logging.level@));
    assert(valid_tracking_method(tracking_method_for(target_os)));
    assert(c.tracking.method@ == tracking_method_for(target_os));
}

/// The log levels a configuration may name are exactly `trace`, `debug`,
/// `info`, `warn` and `error`: a valid configuration stays valid when its
/// level is changed to any of them, and a level outside them is reported.
pub proof fn lemma_log_levels_accepted(c: Config, d: Config)
    requires
        config_issues(c).len() == 0,
        d.block_size == c.block_size,
        d.compression_level == c.compression_level,
        d.tracking.method@ == c.tracking.method@,
        d.encryption == c.encryption,
    ensures
        (d.logging.level@ == "trace"@ || d.logging.level@ == "debug"@ || d.logging.level@ == "info"@
            || d.logging.level@ == "warn"@ || d.logging.level@ == "error"@) <==> config_issues(d).len() == 0,
        !(d.logging.level@ == "trace"@ || d.logging.level@ == "debug"@ || d.logging.level@ == "info"@
            || d.logging.level@ == "warn"@ || d.logging.level@ == "error"@) ==> config_issues(d).contains(
            log_level_issue(d.logging.level@),
        ),
{
    let bs = d.block_size as nat;
    let s1 = note(Seq::empty(), !is_pow2(bs), block_size_not_pow2_issue(bs));
    let s2 = note(s1, bs < 512 || bs > 1048576, block_size_range_issue(bs));
    let s3 = note(s2, !(1 <= d.compression_level <= 22), compression_level_issue(d.compression_level as int));
    let s4 = note(s3, !valid_log_level(d.logging.level@), log_level_issue(d.logging.level@));
    let s5 = note(s4, !valid_tracking_method(d.tracking.method@), tracking_method_issue(d.tracking.method@));
    let s6 = note(
        s5,
        d.encryption.enabled && d.encryption.key_path is None && d.encryption.kms_provider is None,
        missing_key_issue(),
    );
    assert(config_issues(d) == note(s6, d.encryption.enabled && d.encryption.cipher@ != "aes-256-gcm"@, cipher_issue(d.encryption.cipher@)));
    if !valid_log_level(d.logging.level@) {
        assert(s4.len() == s3.len() + 1);
        assert(s4[s4.len() - 1] == log_level_issue(d.logging.level@));
        assert(s5.len() >= s4.len() && s5.subrange(0, s4.len() as int) =~= s4);
        assert(s6.len() >= s4.len() && s6.subrange(0, s4.len() as int) =~= s4);
        let t = config_issues(d);
        assert(t.len() >= s4.len() && t.subrange(0, s4.len() as int) =~= s4);
        assert(t[s4.len() - 1] == log_level_issue(d.logging.level@));
    }
}

} // verus!
