//! Validation of the per-origin policy before it is trusted.
//!
//! Every whitelist entry is checked: the pattern must be a single address or
//! a network in prefix notation, the limit overrides must lie in their
//! allowed ranges, and no pattern may appear twice. All violations across all
//! entries are collected and returned together, and a numbered report can be
//! rendered for operators.

use vstd::prelude::*;

verus! {

use vstd::string::{StrSliceExecFns, StringExecFns};
use crate::text::{trim, trim_spec, split_str, split_spec, all_dec_digits, dec_val, dec_str, is_dec_digit, u64_to_string};
use crate::ip::{is_hex_digit, parse_ip, parse_ip_spec, find_double_colon, find_dc, str_contains_char, contains_char};
use crate::cidr::{parse_cidr, parse_cidr_spec};
use crate::config::{IpLimitEntry, IpLimitsConfig};

/// Largest allowed message length override.
pub const MAX_MESSAGE_LENGTH: u16 = 65535;

/// Largest allowed file size override, in bytes (10 GiB).
pub const MAX_FILE_SIZE: u64 = 10_737_418_240;

/// Smallest allowed message length override.
pub const MIN_MESSAGE_LENGTH: u16 = 1;

/// Smallest allowed file size override, in bytes.
pub const MIN_FILE_SIZE: u64 = 1;

/// A violation found while validating the per-origin policy.
#[derive(Debug, Clone, PartialEq)]
pub enum ValidationError {
    InvalidIpFormat { ip: String, reason: String },
    InvalidCidrFormat { cidr: String, reason: String },
    MessageLengthTooHigh { value: u16, max: u16 },
    MessageLengthZero,
    FileSizeTooHigh { value: u64, max: u64 },
    FileSizeZero,
    EmptyIpString,
    WhitespaceOnlyIp,
    InvalidIpCharacters { ip: String },
    DuplicateIpEntry { ip: String },
    Ipv6FormattingError { ip: String },
    InvalidCidrPrefix { prefix: u8, ip_type: String },
}

/// The mathematical shape of a violation, with text as character sequences.
pub enum ValidationIssue {
    InvalidIpFormat { ip: Seq<char>, reason: Seq<char> },
    InvalidCidrFormat { cidr: Seq<char>, reason: Seq<char> },
    MessageLengthTooHigh { value: int, max: int },
    MessageLengthZero,
    FileSizeTooHigh { value: int, max: int },
    FileSizeZero,
    EmptyIpString,
    WhitespaceOnlyIp,
    InvalidIpCharacters { ip: Seq<char> },
    DuplicateIpEntry { ip: Seq<char> },
    Ipv6FormattingError { ip: Seq<char> },
    InvalidCidrPrefix { prefix: int, ip_type: Seq<char> },
}

impl View for ValidationError {
    type V = ValidationIssue;

    open spec fn view(&self) -> ValidationIssue {
        match self {
            ValidationError::InvalidIpFormat { ip, reason } => ValidationIssue::InvalidIpFormat {
                ip: ip@,
                reason: reason@,
            },
            ValidationError::InvalidCidrFormat { cidr, reason } => ValidationIssue::InvalidCidrFormat {
                cidr: cidr@,
                reason: reason@,
            },
            ValidationError::MessageLengthTooHigh { value, max } => ValidationIssue::MessageLengthTooHigh {
                value: *value as int,
                max: *max as int,
            },
            ValidationError::MessageLengthZero => ValidationIssue::MessageLengthZero,
            ValidationError::FileSizeTooHigh { value, max } => ValidationIssue::FileSizeTooHigh {
                value: *value as int,
                max: *max as int,
            },
            ValidationError::FileSizeZero => ValidationIssue::FileSizeZero,
            ValidationError::EmptyIpString => ValidationIssue::EmptyIpString,
            ValidationError::WhitespaceOnlyIp => ValidationIssue::WhitespaceOnlyIp,
            ValidationError::InvalidIpCharacters { ip } => ValidationIssue::InvalidIpCharacters {
                ip: ip@,
            },
            ValidationError::DuplicateIpEntry { ip } => ValidationIssue::DuplicateIpEntry {
                ip: ip@,
            },
            ValidationError::Ipv6FormattingError { ip } => ValidationIssue::Ipv6FormattingError {
                ip: ip@,
            },
            ValidationError::InvalidCidrPrefix { prefix, ip_type } => ValidationIssue::InvalidCidrPrefix {
                prefix: *prefix as int,
                ip_type: ip_type@,
            },
        }
    }
}

/// The views of a list of violations.
pub open spec fn errors_view(es: Seq<ValidationError>) -> Seq<ValidationIssue> {
    es.map_values(|e: ValidationError| e.view())
}

/// The characters a pattern may consist of: hex digits and `:`, `.`, `/`, `-`.
pub open spec fn allowed_pattern_char(c: char) -> bool {
    is_hex_digit(c) || c == ':' || c == '.' || c == '/' || c == '-'
}

/// Whether every character of a pattern is allowed.
pub open spec fn pattern_chars_ok(s: Seq<char>) -> bool {
    forall|k: int| 0 <= k < s.len() ==> allowed_pattern_char(#[trigger] s[k])
}

/// A valid pattern: non-empty after trimming, made of allowed characters,
/// and either a network in prefix notation (with `/`) or a single address.
pub open spec fn valid_pattern_spec(s: Seq<char>) -> bool {
    let t = trim_spec(s);
    &&& s.len() > 0
    &&& t.len() > 0
    &&& pattern_chars_ok(t)
    &&& if contains_char(t, '/') {
        parse_cidr_spec(t) is Some
    } else {
        parse_ip_spec(t) is Some
    }
}

/// Whether a digit string is accepted as an unsigned 32-bit number.
pub open spec fn u32_parse_ok(p: Seq<char>) -> bool {
    p.len() >= 1 && all_dec_digits(p) && dec_val(p) <= 0xffffffff
}

/// The diagnostic attached to a single address that did not parse.
pub open spec fn single_ip_reason_spec(t: Seq<char>) -> Seq<char> {
    if contains_char(t, ':') {
        if t.len() < 3 || (find_dc(t) is None && split_spec(t, ':').len() != 8) {
            "IPv6 address format is incorrect"@
        } else {
            "IPv6 parsing failed: invalid IP address syntax"@
        }
    } else if contains_char(t, '.') {
        let ps = split_spec(t, '.');
        if ps.len() != 4 {
            "IPv4 address must have exactly 4 octets"@
        } else if exists|k: int|
            0 <= k < 4 && !(u32_parse_ok(#[trigger] ps[k]) && dec_val(ps[k]) <= 255) {
            "IPv4 address octets must be between 0 and 255"@
        } else {
            "IPv4 parsing failed: invalid IP address syntax"@
        }
    } else {
        "Unknown IP format: invalid IP address syntax"@
    }
}

/// The violation reported for a pattern, where it has one.
pub open spec fn ip_format_issue_spec(s: Seq<char>) -> ValidationIssue {
    let t = trim_spec(s);
    if s.len() == 0 {
        ValidationIssue::EmptyIpString
    } else if t.len() == 0 {
        ValidationIssue::WhitespaceOnlyIp
    } else if !pattern_chars_ok(t) {
        ValidationIssue::InvalidIpCharacters { ip: s }
    } else if contains_char(t, '/') {
        ValidationIssue::InvalidCidrFormat { cidr: t, reason: "invalid IP address syntax"@ }
    } else {
        ValidationIssue::InvalidIpFormat { ip: t, reason: single_ip_reason_spec(t) }
    }
}

fn pattern_chars_ok_exec(s: &str) -> (r: bool)
    ensures
        r == pattern_chars_ok(s@),
{
    let n = s.unicode_len();
    let mut i: usize = 0;
    while i < n
        invariant
            0 <= i <= n,
            n == s@.len(),
            forall|k: int| 0 <= k < i ==> allowed_pattern_char(#[trigger] s@[k]),
        decreases n - i,
    {
        let c = s.get_char(i);
        let hex = (c >= '0' && c <= '9') || (c >= 'a' && c <= 'f') || (c >= 'A' && c <= 'F');
        if !(hex || c == ':' || c == '.' || c == '/' || c == '-') {
            return false;
        }
        i = i + 1;
    }
    true
}

fn octet_value_le_255(p: &str) -> (r: bool)
    ensures
        r == (u32_parse_ok(p@) && dec_val(p@) <= 255),
{
    let n = p.unicode_len();
    if n == 0 {
        return false;
    }
    let mut acc: u64 = 0;
    let mut i: usize = 0;
    while i < n
        invariant
            0 <= i <= n,
            n == p@.len(),
            forall|k: int| 0 <= k < i ==> is_dec_digit(#[trigger] p@[k]),
            dec_val(p@.take(i as int)) <= 0xffffffff ==> acc == dec_val(p@.take(i as int)),
            dec_val(p@.take(i as int)) > 0xffffffff ==> acc == 0x100000000,
        decreases n - i,
    {
        let c = p.get_char(i);
        if !(c >= '0' && c <= '9') {
            return false;
        }
        proof {
            assert(p@.take(i + 1).drop_last() =~= p@.take(i as int));
            assert(p@.take(i + 1).last() == p@[i as int]);
            assert(all_dec_digits(p@.take(i as int)));
            crate::text::lemma_dec_val_bounds(p@.take(i as int));
        }
        let d = (c as u64) - ('0' as u64);
        if acc <= 0xffffffff {
            acc = acc * 10 + d;
            if acc > 0xffffffff {
                acc = 0x100000000;
            }
        }
        i = i + 1;
    }
    proof {
        assert(p@.take(n as int) =~= p@);
    }
    acc <= 255
}

fn single_ip_reason(t: &str) -> (r: String)
    ensures
        r@ == single_ip_reason_spec(t@),
{
    if str_contains_char(t, ':') {
        let has_dc = find_double_colon(t).is_some();
        let groups = split_str(t, ':');
        if t.unicode_len() < 3 || (!has_dc && groups.len() != 8) {
            String::from_str("IPv6 address format is incorrect")
        } else {
            String::from_str("IPv6 parsing failed: invalid IP address syntax")
        }
    } else if str_contains_char(t, '.') {
        let parts = split_str(t, '.');
        if parts.len() != 4 {
            String::from_str("IPv4 address must have exactly 4 octets")
        } else {
            let mut bad = false;
            let mut k: usize = 0;
            while k < 4
                invariant
                    0 <= k <= 4,
                    parts@.len() == 4,
                    split_spec(t@, '.').len() == 4,
                    forall|m: int| 0 <= m < 4 ==> parts@[m]@ == #[trigger] split_spec(t@, '.')[m],
                    bad == exists|m: int|
                        0 <= m < k && !(u32_parse_ok(#[trigger] split_spec(t@, '.')[m]) && dec_val(
                            split_spec(t@, '.')[m],
                        ) <= 255),
                decreases 4 - k,
            {
                let ok = octet_value_le_255(parts[k].as_str());
                proof {
                    assert(parts@[k as int]@ == split_spec(t@, '.')[k as int]);
                    if !ok {
                        assert(!(u32_parse_ok(split_spec(t@, '.')[k as int]) && dec_val(
                            split_spec(t@, '.')[k as int],
                        ) <= 255));
                    }
                }
                if !ok {
                    bad = true;
                }
                k = k + 1;
            }
            if bad {
                String::from_str("IPv4 address octets must be between 0 and 255")
            } else {
                String::from_str("IPv4 parsing failed: invalid IP address syntax")
            }
        }
    } else {
        String::from_str("Unknown IP format: invalid IP address syntax")
    }
}

/// Validates one pattern: accepts exactly the patterns `valid_pattern_spec`
/// allows, and otherwise reports the violation `ip_format_issue_spec` gives.
pub fn validate_ip_format(ip_str: &str) -> (r: Result<(), ValidationError>)
    ensures
        r is Ok <==> valid_pattern_spec(ip_str@),
        r matches Err(e) ==> e@ == ip_format_issue_spec(ip_str@),
{
    if ip_str.is_empty() {
        return Err(ValidationError::EmptyIpString);
    }
    let trimmed = trim(ip_str);
    if trimmed.is_empty() {
        return Err(ValidationError::WhitespaceOnlyIp);
    }
    if !pattern_chars_ok_exec(trimmed) {
        return Err(
            ValidationError::InvalidIpCharacters { ip: String::from_str(ip_str) },
        );
    }
    if str_contains_char(trimmed, '/') {
        match parse_cidr(trimmed) {
            Some(_) => Ok(()),
            None => Err(
                ValidationError::InvalidCidrFormat {
                    cidr: String::from_str(trimmed),
                    reason: String::from_str("invalid IP address syntax"),
                },
            ),
        }
    } else {
        match parse_ip(trimmed) {
            Some(_) => Ok(()),
            None => Err(
                ValidationError::InvalidIpFormat {
                    ip: String::from_str(trimmed),
                    reason: single_ip_reason(trimmed),
                },
            ),
        }
    }
}

/// Validates a message length override: it must be positive (the upper bound
/// is the type's own maximum).
pub fn validate_message_length(length: u16) -> (r: Result<(), ValidationError>)
    ensures
        r == if length == 0 {
            Err::<(), ValidationError>(ValidationError::MessageLengthZero)
        } else {
            Ok::<(), ValidationError>(())
        },
{
    if length == 0 {
        return Err(ValidationError::MessageLengthZero);
    }
    if length > MAX_MESSAGE_LENGTH {
        return Err(
            ValidationError::MessageLengthTooHigh { value: length, max: MAX_MESSAGE_LENGTH },
        );
    }
    Ok(())
}

/// Validates a file size override: positive and at most `MAX_FILE_SIZE`.
pub fn validate_file_size(size: u64) -> (r: Result<(), ValidationError>)
    ensures
        r == if size == 0 {
            Err::<(), ValidationError>(ValidationError::FileSizeZero)
        } else if size > MAX_FILE_SIZE {
            Err::<(), ValidationError>(
                ValidationError::FileSizeTooHigh { value: size, max: MAX_FILE_SIZE },
            )
        } else {
            Ok::<(), ValidationError>(())
        },
{
    if size == 0 {
        return Err(ValidationError::FileSizeZero);
    }
    if size > MAX_FILE_SIZE {
        return Err(ValidationError::FileSizeTooHigh { value: size, max: MAX_FILE_SIZE });
    }
    Ok(())
}

/// The violations of one whitelist entry, in reporting order: pattern first,
/// then the message length override, then the file size override.
pub open spec fn entry_issues_spec(e: IpLimitEntry) -> Seq<ValidationIssue> {
    (if !valid_pattern_spec(e.ip@) {
        seq![ip_format_issue_spec(e.ip@)]
    } else {
        Seq::<ValidationIssue>::empty()
    }) + (match e.message_max_length {
        Some(l) => if l == 0 {
            seq![ValidationIssue::MessageLengthZero]
        } else {
            Seq::<ValidationIssue>::empty()
        },
        None => Seq::<ValidationIssue>::empty(),
    }) + (match e.file_max_size {
        Some(s) => if s == 0 {
            seq![ValidationIssue::FileSizeZero]
        } else if s > MAX_FILE_SIZE {
            seq![ValidationIssue::FileSizeTooHigh { value: s as int, max: MAX_FILE_SIZE as int }]
        } else {
            Seq::<ValidationIssue>::empty()
        },
        None => Seq::<ValidationIssue>::empty(),
    })
}

/// Validates one whitelist entry, collecting all its violations.
pub fn validate_ip_entry(entry: &IpLimitEntry) -> (r: Result<(), Vec<ValidationError>>)
    ensures
        r is Ok <==> entry_issues_spec(*entry).len() == 0,
        r matches Err(v) ==> errors_view(v@) == entry_issues_spec(*entry),
{
    let mut errors: Vec<ValidationError> = Vec::new();
    match validate_ip_format(entry.ip.as_str()) {
        Err(e) => errors.push(e),
        Ok(_) => {},
    }
    match entry.message_max_length {
        Some(l) => {
            match validate_message_length(l) {
                Err(e) => errors.push(e),
                Ok(_) => {},
            }
        },
        None => {},
    }
    match entry.file_max_size {
        Some(s) => {
            match validate_file_size(s) {
                Err(e) => errors.push(e),
                Ok(_) => {},
            }
        },
        None => {},
    }
    proof {
        assert(errors_view(errors@) =~= entry_issues_spec(*entry));
    }
    if errors.len() == 0 {
        Ok(())
    } else {
        Err(errors)
    }
}

/// The violations of the whole whitelist, in order: each entry's own
/// violations, then a duplicate violation where its pattern already appeared.
pub open spec fn config_issues_spec(entries: Seq<IpLimitEntry>) -> Seq<ValidationIssue>
    decreases entries.len(),
{
    if entries.len() == 0 {
        Seq::<ValidationIssue>::empty()
    } else {
        let prior = entries.drop_last();
        let e = entries.last();
        config_issues_spec(prior) + entry_issues_spec(e) + (if exists|j: int|
            0 <= j < prior.len() && #[trigger] prior[j].ip@ == e.ip@ {
            seq![ValidationIssue::DuplicateIpEntry { ip: e.ip@ }]
        } else {
            Seq::<ValidationIssue>::empty()
        })
    }
}

/// Validates the whole per-origin policy, collecting every violation of
/// every entry rather than stopping at the first.
pub fn validate_ip_limits_config(config: &IpLimitsConfig) -> (r: Result<(), Vec<ValidationError>>)
    ensures
        r is Ok <==> config_issues_spec(config.whitelist@).len() == 0,
        r matches Err(v) ==> errors_view(v@) == config_issues_spec(config.whitelist@),
{
    let ghost ws = config.whitelist@;
    let mut errors: Vec<ValidationError> = Vec::new();
    let mut i: usize = 0;
    while i < config.whitelist.len()
        invariant
            0 <= i <= ws.len(),
            config.whitelist@ == ws,
            errors_view(errors@) == config_issues_spec(ws.take(i as int)),
        decreases ws.len() - i,
    {
        let entry = &config.whitelist[i];
        match validate_ip_entry(entry) {
            Err(mut es) => {
                errors.append(&mut es);
            },
            Ok(_) => {},
        }
        let mut dup = false;
        let mut j: usize = 0;
        while j < i
            invariant
                0 <= j <= i < ws.len(),
                config.whitelist@ == ws,
                dup == exists|m: int| 0 <= m < j && #[trigger] ws[m].ip@ == ws[i as int].ip@,
            decreases i - j,
        {
            if config.whitelist[j].ip == config.whitelist[i].ip {
                dup = true;
            }
            j = j + 1;
        }
        if dup {
            errors.push(ValidationError::DuplicateIpEntry { ip: entry.ip.clone() });
        }
        proof {
            assert(ws.take(i + 1).drop_last() =~= ws.take(i as int));
            assert(ws.take(i + 1).last() == ws[i as int]);
            let prior = ws.take(i as int);
            if dup {
                let m = choose|m: int| 0 <= m < i && #[trigger] ws[m].ip@ == ws[i as int].ip@;
                assert(prior[m].ip@ == ws[i as int].ip@);
            } else {
                assert(forall|j: int| 0 <= j < prior.len() ==> #[trigger] prior[j].ip@ != ws[
                    i as int].ip@) by {
                    assert(forall|j: int| 0 <= j < i ==> #[trigger] prior[j] == ws[j]);
                }
            }
            assert(errors_view(errors@) =~= config_issues_spec(ws.take(i + 1)));
        }
        i = i + 1;
    }
    proof {
        assert(ws.take(ws.len() as int) =~= ws);
    }
    if errors.len() == 0 {
        Ok(())
    } else {
        Err(errors)
    }
}

/// The text of a violation, as shown to operators.
pub open spec fn message_spec(v: ValidationIssue) -> Seq<char> {
    match v {
        ValidationIssue::InvalidIpFormat { ip, reason } => "Invalid IP address format '"@ + ip
            + "': "@ + reason,
        ValidationIssue::InvalidCidrFormat { cidr, reason } => "Invalid CIDR notation '"@ + cidr
            + "': "@ + reason,
        ValidationIssue::MessageLengthTooHigh { value, max } => "Message max length "@ + dec_str(
            value,
        ) + " exceeds maximum allowed value of "@ + dec_str(max),
        ValidationIssue::MessageLengthZero => "Message max length cannot be zero"@,
        ValidationIssue::FileSizeTooHigh { value, max } => "File max size "@ + dec_str(value)
            + " exceeds maximum allowed value of "@ + dec_str(max) + " bytes"@,
        ValidationIssue::FileSizeZero => "File max size cannot be zero"@,
        ValidationIssue::EmptyIpString => "Empty IP string is not allowed"@,
        ValidationIssue::WhitespaceOnlyIp => "Whitespace-only IP string is not allowed"@,
        ValidationIssue::InvalidIpCharacters { ip } => "IP address contains invalid characters: '"@
            + ip + "'"@,
        ValidationIssue::DuplicateIpEntry { ip } => "Duplicate IP entry found: '"@ + ip + "'"@,
        ValidationIssue::Ipv6FormattingError { ip } => "IPv6 address '"@ + ip
            + "' is missing proper formatting"@,
        ValidationIssue::InvalidCidrPrefix { prefix, ip_type } => "CIDR prefix length "@ + dec_str(
            prefix,
        ) + " is invalid for "@ + ip_type + " address"@,
    }
}

impl ValidationError {
    /// Renders the violation's message.
    pub fn message(&self) -> (r: String)
        ensures
            r@ == message_spec(self@),
    {
        match self {
            ValidationError::InvalidIpFormat { ip, reason } => {
                let mut r = String::from_str("Invalid IP address format '");
                r.append(ip.as_str());
                r.append("': ");
                r.append(reason.as_str());
                r
            },
            ValidationError::InvalidCidrFormat { cidr, reason } => {
                let mut r = String::from_str("Invalid CIDR notation '");
                r.append(cidr.as_str());
                r.append("': ");
                r.append(reason.as_str());
                r
            },
            ValidationError::MessageLengthTooHigh { value, max } => {
                let mut r = String::from_str("Message max length ");
                let v = u64_to_string(*value as u64);
                r.append(v.as_str());
                r.append(" exceeds maximum allowed value of ");
                let m = u64_to_string(*max as u64);
                r.append(m.as_str());
                r
            },
            ValidationError::MessageLengthZero => String::from_str(
                "Message max length cannot be zero",
            ),
            ValidationError::FileSizeTooHigh { value, max } => {
                let mut r = String::from_str("File max size ");
                let v = u64_to_string(*value);
                r.append(v.as_str());
                r.append(" exceeds maximum allowed value of ");
                let m = u64_to_string(*max);
                r.append(m.as_str());
                r.append(" bytes");
                r
            },
            ValidationError::FileSizeZero => String::from_str("File max size cannot be zero"),
            ValidationError::EmptyIpString => String::from_str("Empty IP string is not allowed"),
            ValidationError::WhitespaceOnlyIp => String::from_str(
                "Whitespace-only IP string is not allowed",
            ),
            ValidationError::InvalidIpCharacters { ip } => {
                let mut r = String::from_str("IP address contains invalid characters: '");
                r.append(ip.as_str());
                r.append("'");
                r
            },
            ValidationError::DuplicateIpEntry { ip } => {
                let mut r = String::from_str("Duplicate IP entry found: '");
                r.append(ip.as_str());
                r.append("'");
                r
            },
            ValidationError::Ipv6FormattingError { ip } => {
                let mut r = String::from_str("IPv6 address '");
                r.append(ip.as_str());
                r.append("' is missing proper formatting");
                r
            },
            ValidationError::InvalidCidrPrefix { prefix, ip_type } => {
                let mut r = String::from_str("CIDR prefix length ");
                let p = u64_to_string(*prefix as u64);
                r.append(p.as_str());
                r.append(" is invalid for ");
                r.append(ip_type.as_str());
                r.append(" address");
                r
            },
        }
    }
}

/// The numbered violation lines of the report, one per violation.
pub open spec fn report_lines_spec(issues: Seq<ValidationIssue>) -> Seq<char>
    decreases issues.len(),
{
    if issues.len() == 0 {
        Seq::<char>::empty()
    } else {
        report_lines_spec(issues.drop_last()) + "  "@ + dec_str(issues.len() as int) + ". "@
            + message_spec(issues.last()) + "\n"@
    }
}

/// The operator report: a header, the numbered violations, and a closing
/// line; or a fixed line when there is nothing to report.
pub open spec fn report_spec(issues: Seq<ValidationIssue>) -> Seq<char> {
    if issues.len() == 0 {
        "No validation errors"@
    } else {
        "Configuration validation failed:\n"@ + report_lines_spec(issues)
            + "\nPlease correct these issues and try again."@
    }
}

/// Renders all violations as a numbered report for operators.
pub fn format_validation_errors(errors: &Vec<ValidationError>) -> (r: String)
    ensures
        r@ == report_spec(errors_view(errors@)),
{
    let n = errors.len();
    if n == 0 {
        return String::from_str("No validation errors");
    }
    let ghost issues = errors_view(errors@);
    let mut msg = String::from_str("Configuration validation failed:\n");
    let mut i: usize = 0;
    while i < n
        invariant
            0 <= i <= n,
            n == errors@.len(),
            issues == errors_view(errors@),
            issues.len() == n,
            msg@ == "Configuration validation failed:\n"@ + report_lines_spec(
                issues.take(i as int),
            ),
        decreases n - i,
    {
        msg.append("  ");
        let num = u64_to_string((i as u64) + 1);
        msg.append(num.as_str());
        msg.append(". ");
        let line = errors[i].message();
        msg.append(line.as_str());
        msg.append("\n");
        proof {
            assert(issues.take(i + 1).drop_last() =~= issues.take(i as int));
            assert(issues.take(i + 1).last() == issues[i as int]);
            assert(msg@ =~= "Configuration validation failed:\n"@ + report_lines_spec(
                issues.take(i + 1),
            ));
        }
        i = i + 1;
    }
    msg.append("\nPlease correct these issues and try again.");
    proof {
        assert(issues.take(n as int) =~= issues);
        assert(msg@ =~= report_spec(issues));
    }
    msg
}

} // verus!
