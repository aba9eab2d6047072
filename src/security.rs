//! Security policy: operation checks, autonomy control with a kill switch,
//! an append-only audit trail kept in a file, and PII redaction.
use vstd::prelude::*;
use vstd::string::StringSliceAdditionalSpecFns;
use crate::filesystem::{
    write_result, FileDescriptor, Filesystem, FsError, OpenFlags, TOTAL_INODES,
};

verus! {

/// Risk level of an operation.
#[derive(Debug, Clone, Copy, PartialEq, Eq, Structural)]
pub enum SecurityLevel {
    Low,
    Medium,
    High,
    Critical,
}

/// Operations subject to policy and audit.
#[derive(Debug, Clone, Copy, PartialEq, Eq, Structural)]
pub enum OperationType {
    ModelExecution,
    CloudAccess,
    KernelPatch,
    DriverUpdate,
    ModelHotpatch,
    DataExport,
    SecurityPolicyChange,
    AutonomyControl,
}

impl OperationType {
    /// Numeric code of the operation, as recorded in the audit trail.
    pub open spec fn code_spec(self) -> u64 {
        match self {
            OperationType::ModelExecution => 0,
            OperationType::CloudAccess => 1,
            OperationType::KernelPatch => 2,
            OperationType::DriverUpdate => 3,
            OperationType::ModelHotpatch => 4,
            OperationType::DataExport => 5,
            OperationType::SecurityPolicyChange => 6,
            OperationType::AutonomyControl => 7,
        }
    }

    #[verifier::when_used_as_spec(code_spec)]
    pub fn code(self) -> (r: u64)
        ensures
            r == self.code_spec(),
    {
        match self {
            OperationType::ModelExecution => 0,
            OperationType::CloudAccess => 1,
            OperationType::KernelPatch => 2,
            OperationType::DriverUpdate => 3,
            OperationType::ModelHotpatch => 4,
            OperationType::DataExport => 5,
            OperationType::SecurityPolicyChange => 6,
            OperationType::AutonomyControl => 7,
        }
    }

    pub open spec fn from_code_spec(code: u32) -> Option<OperationType> {
        if code == 0 {
            Some(OperationType::ModelExecution)
        } else if code == 1 {
            Some(OperationType::CloudAccess)
        } else if code == 2 {
            Some(OperationType::KernelPatch)
        } else if code == 3 {
            Some(OperationType::DriverUpdate)
        } else if code == 4 {
            Some(OperationType::ModelHotpatch)
        } else if code == 5 {
            Some(OperationType::DataExport)
        } else if code == 6 {
            Some(OperationType::SecurityPolicyChange)
        } else if code == 7 {
            Some(OperationType::AutonomyControl)
        } else {
            None
        }
    }

    /// The operation with code `code`.
    pub fn from_code(code: u32) -> (r: Option<OperationType>)
        ensures
            r == OperationType::from_code_spec(code),
            r matches Some(op) ==> op.code_spec() == code,
            r is None <==> code > 7,
    {
        match code {
            0 => Some(OperationType::ModelExecution),
            1 => Some(OperationType::CloudAccess),
            2 => Some(OperationType::KernelPatch),
            3 => Some(OperationType::DriverUpdate),
            4 => Some(OperationType::ModelHotpatch),
            5 => Some(OperationType::DataExport),
            6 => Some(OperationType::SecurityPolicyChange),
            7 => Some(OperationType::AutonomyControl),
            _ => None,
        }
    }
}

impl SecurityLevel {
    pub open spec fn from_code_spec(code: u32) -> Option<SecurityLevel> {
        if code == 0 {
            Some(SecurityLevel::Low)
        } else if code == 1 {
            Some(SecurityLevel::Medium)
        } else if code == 2 {
            Some(SecurityLevel::High)
        } else if code == 3 {
            Some(SecurityLevel::Critical)
        } else {
            None
        }
    }

    /// The level with code `code` (0 low to 3 critical).
    pub fn from_code(code: u32) -> (r: Option<SecurityLevel>)
        ensures
            r == SecurityLevel::from_code_spec(code),
    {
        match code {
            0 => Some(SecurityLevel::Low),
            1 => Some(SecurityLevel::Medium),
            2 => Some(SecurityLevel::High),
            3 => Some(SecurityLevel::Critical),
            _ => None,
        }
    }
}

/// One record of the audit trail.
#[derive(Debug, Clone, Copy)]
pub struct AuditEntry {
    pub timestamp: u64,
    pub operation: OperationType,
    pub user_id: u32,
    pub success: bool,
    pub details: [u8; 256],
    pub details_len: usize,
}

/// Policy switches.
#[derive(Debug, Clone, Copy, PartialEq, Eq, Structural)]
pub struct SecurityPolicy {
    pub local_first_models: bool,
    pub cloud_opt_in_required: bool,
    pub human_in_loop_patches: bool,
    pub audit_trail_enabled: bool,
    pub pii_redaction_enabled: bool,
    pub autonomy_kill_switch: bool,
}

/// Size limit of one audit record, in bytes.
pub const AUDIT_RECORD_MAX: usize = 512;

/// ASCII codes used in audit records.
pub const COLON: u8 = 0x3a;
pub const NEWLINE: u8 = 0x0a;
pub const DIGIT_ZERO: u8 = 0x30;
pub const DIGIT_ONE: u8 = 0x31;

/// Decimal digits of `n`, most significant first.
pub open spec fn decimal(n: nat) -> Seq<u8>
    decreases n,
{
    if n < 10 {
        seq![(DIGIT_ZERO + n) as u8]
    } else {
        decimal(n / 10).push((DIGIT_ZERO + n % 10) as u8)
    }
}

/// Appends the decimal digits of `num` to `buffer`; returns how many.
pub fn write_number(buffer: &mut Vec<u8>, num: u64) -> (r: usize)
    ensures
        final(buffer)@ == old(buffer)@ + decimal(num as nat),
        r == decimal(num as nat).len(),
    decreases num,
{
    let mut n: usize = 0;
    if num >= 10 {
        n = write_number(buffer, num / 10);
    }
    buffer.push(DIGIT_ZERO + (num % 10) as u8);
    proof {
        assert(decimal(num as nat) == if num < 10 { seq![(DIGIT_ZERO + num) as u8] } else { decimal((num / 10) as nat).push((DIGIT_ZERO + num % 10) as u8) });
        if num < 10 {
            assert(final(buffer)@ =~= old(buffer)@ + decimal(num as nat));
        } else {
            assert(buffer@ =~= old(buffer)@ + decimal(num as nat));
        }
        lemma_decimal_short(num as nat);
    }
    n + 1
}

pub open spec fn pow10(k: nat) -> nat
    decreases k,
{
    if k == 0 {
        1
    } else {
        10 * pow10((k - 1) as nat)
    }
}

proof fn lemma_decimal_len(n: nat, k: nat)
    requires
        k >= 1,
        n < pow10(k),
    ensures
        1 <= decimal(n).len() <= k,
    decreases k,
{
    if n >= 10 {
        if k == 1 {
            assert(pow10(1) == 10 * pow10(0));
        } else {
            let p = pow10((k - 1) as nat);
            assert(n < 10 * p);
            assert(n / 10 < p) by (nonlinear_arith)
                requires
                    n < 10 * p,
            ;
            lemma_decimal_len(n / 10, (k - 1) as nat);
        }
    }
}

/// A 64-bit number has at most 20 decimal digits.
proof fn lemma_decimal_short(n: nat)
    requires
        n <= u64::MAX,
    ensures
        1 <= decimal(n).len() <= 20,
{
    reveal_with_fuel(pow10, 21);
    assert(pow10(20) == 100000000000000000000);
    lemma_decimal_len(n, 20);
}

/// The record that the audit trail stores for one operation:
/// `timestamp:operation:user:success:details` and a newline, the details cut
/// so that the record stays within `AUDIT_RECORD_MAX` bytes.
pub open spec fn audit_record(timestamp: u64, op: OperationType, user_id: u32, success: bool, details: Seq<u8>) -> Seq<u8> {
    let head = decimal(timestamp as nat) + seq![COLON] + decimal(op.code_spec() as nat) + seq![COLON]
        + decimal(user_id as nat) + seq![COLON] + seq![if success { DIGIT_ONE } else { DIGIT_ZERO }]
        + seq![COLON];
    let room = AUDIT_RECORD_MAX - head.len() - 1;
    let keep = if details.len() < room { details.len() as int } else { room };
    head + details.take(keep) + seq![NEWLINE]
}

/// Relies on `core::str::from_utf8`: it succeeds exactly when the bytes are
/// well-formed UTF-8, and the string it returns holds those same bytes.
#[verifier::external_body]
pub(crate) fn str_from_utf8(bytes: &[u8]) -> (r: Option<&str>)
    ensures
        r is Some <==> vstd::utf8::valid_utf8(bytes@),
        r matches Some(s) ==> s.spec_bytes() == bytes@,
{
    core::str::from_utf8(bytes).ok()
}

/// First index at or after `from` where `pat` occurs in `text`.
pub open spec fn find_from(text: Seq<u8>, pat: Seq<u8>, from: int) -> Option<int>
    decreases text.len() + 1 - from,
{
    if from < 0 || from + pat.len() > text.len() {
        None
    } else if text.subrange(from, from + pat.len()) == pat {
        Some(from)
    } else {
        find_from(text, pat, from + 1)
    }
}

proof fn lemma_find_from_valid(text: Seq<u8>, pat: Seq<u8>, from: int)
    ensures
        find_from(text, pat, from) matches Some(i) ==> from <= i && i + pat.len() <= text.len(),
    decreases text.len() + 1 - from,
{
    if !(from < 0 || from + pat.len() > text.len()) && text.subrange(from, from + pat.len()) != pat {
        lemma_find_from_valid(text, pat, from + 1);
    }
}

/// Whether `pat` occurs in `text` at `at`.
fn matches_at(text: &[u8], pat: &[u8], at: usize) -> (r: bool)
    requires
        at + pat@.len() <= text@.len(),
    ensures
        r == (text@.subrange(at as int, at + pat@.len()) == pat@),
{
    let tl = text.len();
    let mut j: usize = 0;
    while j < pat.len()
        invariant
            tl == text@.len(),
            0 <= j <= pat@.len(),
            at + pat@.len() <= text@.len(),
            forall|k: int| 0 <= k < j ==> text@[at + k] == pat@[k],
        decreases pat@.len() - j,
    {
        if text[at + j] != pat[j] {
            assert(text@.subrange(at as int, at + pat@.len())[j as int] != pat@[j as int]);
            return false;
        }
        j = j + 1;
    }
    assert(text@.subrange(at as int, at + pat@.len()) =~= pat@);
    true
}

/// First index at or after `from` where `pat` occurs in `text`.
fn find_bytes(text: &[u8], pat: &[u8], from: usize) -> (r: Option<usize>)
    ensures
        r matches Some(i) ==> find_from(text@, pat@, from as int) == Some(i as int),
        r is None ==> find_from(text@, pat@, from as int) is None,
{
    if pat.len() > text.len() {
        return None;
    }
    let last = text.len() - pat.len();
    let mut i: usize = from;
    while i <= last
        invariant
            from <= i,
            last == text@.len() - pat@.len(),
            find_from(text@, pat@, from as int) == find_from(text@, pat@, i as int),
        decreases last - i,
    {
        if matches_at(text, pat, i) {
            return Some(i);
        }
        if i == last {
            assert(find_from(text@, pat@, i + 1) is None);
            return None;
        }
        i = i + 1;
    }
    None
}

/// The marker that replaces a redacted match: `[REDACTED]`.
pub open spec fn redaction_marker() -> Seq<u8> {
    seq![0x5bu8, 0x52, 0x45, 0x44, 0x41, 0x43, 0x54, 0x45, 0x44, 0x5d]
}

fn marker_bytes() -> (r: Vec<u8>)
    ensures
        r@ == redaction_marker(),
{
    let r = vec![0x5bu8, 0x52, 0x45, 0x44, 0x41, 0x43, 0x54, 0x45, 0x44, 0x5d];
    assert(r@ =~= redaction_marker());
    r
}

/// The scan state after the first `k` patterns: where the unscanned text
/// starts, the redacted text before it, and the number of matches.
pub open spec fn redact_state(text: Seq<u8>, pats: Seq<Seq<u8>>, k: int) -> (int, Seq<u8>, nat)
    decreases k,
{
    if k <= 0 {
        (0, Seq::empty(), 0)
    } else {
        let (e, out, c) = redact_state(text, pats, k - 1);
        match find_from(text, pats[k - 1], e) {
            Some(st) => (st + pats[k - 1].len(), out + text.subrange(e, st) + redaction_marker(), c + 1),
            None => (e, out, c),
        }
    }
}

proof fn lemma_redact_state_bounds(text: Seq<u8>, pats: Seq<Seq<u8>>, k: int)
    ensures
        0 <= redact_state(text, pats, k).0 <= text.len(),
    decreases k,
{
    if k > 0 {
        lemma_redact_state_bounds(text, pats, k - 1);
        let (e, out, c) = redact_state(text, pats, k - 1);
        lemma_find_from_valid(text, pats[k - 1], e);
    }
}

/// `data` with its first bytes overwritten by `text`, as far as it reaches.
pub open spec fn overwrite_prefix(data: Seq<u8>, text: Seq<u8>) -> Seq<u8> {
    let n = if text.len() < data.len() { text.len() } else { data.len() };
    text.take(n as int) + data.skip(n as int)
}

/// Each pattern, in order, is searched in the text after the end of the
/// previous match; every match is replaced by the marker.
pub open spec fn redacted(text: Seq<u8>, pats: Seq<Seq<u8>>) -> Seq<u8> {
    let (e, out, c) = redact_state(text, pats, pats.len() as int);
    out + text.subrange(e, text.len() as int)
}

/// The patterns a detector starts with: social-security, card, e-mail,
/// phone, street-address, ZIP-code, birth-date and full-name shapes, each
/// matched as the literal text given here.
pub open spec fn default_patterns() -> Seq<&'static str> {
    seq![
        r"\b\d{3}-\d{2}-\d{4}\b",
        r"\b\d{4} \d{4} \d{4} \d{4}\b",
        r"\b[A-Za-z0-9._%+-]+@[A-Za-z0-9.-]+\.[A-Z|a-z]{2,}\b",
        r"\b\d{3}-\d{3}-\d{4}\b",
        r"\b\d{1,5}\s\w+\s\w+\b",
        r"\b\d{5}(-\d{4})?\b",
        r"\b\d{2}/\d{2}/\d{4}\b",
        r"\b[A-Z][a-z]+ [A-Z][a-z]+\b",
    ]
}

/// Detects personal data by fixed patterns.
pub struct PIIDetector {
    patterns: [&'static str; 8],
}

impl PIIDetector {
    /// The detector's patterns, as bytes.
    pub closed spec fn pattern_bytes(&self) -> Seq<Seq<u8>> {
        self.patterns@.map_values(|p: &str| p.spec_bytes())
    }

    pub fn new() -> (r: PIIDetector)
        ensures
            r.pattern_bytes().len() == 8,
            r.pattern_bytes() == default_patterns().map_values(|p: &str| p.spec_bytes()),
    {
        let r = PIIDetector {
            patterns: [
                r"\b\d{3}-\d{2}-\d{4}\b",
                r"\b\d{4} \d{4} \d{4} \d{4}\b",
                r"\b[A-Za-z0-9._%+-]+@[A-Za-z0-9.-]+\.[A-Z|a-z]{2,}\b",
                r"\b\d{3}-\d{3}-\d{4}\b",
                r"\b\d{1,5}\s\w+\s\w+\b",
                r"\b\d{5}(-\d{4})?\b",
                r"\b\d{2}/\d{2}/\d{4}\b",
                r"\b[A-Z][a-z]+ [A-Z][a-z]+\b",
            ],
        };
        assert(r.patterns@ =~= default_patterns());
        r
    }

    /// Replaces, in well-formed UTF-8 `data`, the first occurrence of each
    /// pattern (searched in order, each after the previous match) by the
    /// marker, writing as much of the result as fits back into `data`.
    /// Returns the number of replacements; 0, with `data` untouched, when
    /// nothing matched or `data` is not UTF-8.
    pub fn redact(&self, data: &mut [u8]) -> (r: usize)
        ensures
            !vstd::utf8::valid_utf8(old(data)@) ==> r == 0 && final(data)@ == old(data)@,
            vstd::utf8::valid_utf8(old(data)@) ==> {
                let c = redact_state(old(data)@, self.pattern_bytes(), 8).2;
                &&& r == c
                &&& c == 0 ==> final(data)@ == old(data)@
                &&& c > 0 ==> final(data)@ == overwrite_prefix(old(data)@, redacted(old(data)@, self.pattern_bytes()))
            },
    {
        if str_from_utf8(data).is_none() {
            return 0;
        }
        let ghost text = data@;
        let ghost pats = self.pattern_bytes();
        let mut redacted_count: usize = 0;
        let mut result: Vec<u8> = Vec::new();
        let mut last_end: usize = 0;
        let dl = data.len();
        let mut k: usize = 0;
        while k < 8
            invariant
                0 <= k <= 8,
                dl == text.len(),
                data@ == text,
                pats == self.pattern_bytes(),
                pats.len() == 8,
                redact_state(text, pats, k as int) == (last_end as int, result@, redacted_count as nat),
                redacted_count <= k,
                last_end <= text.len(),
            decreases 8 - k,
        {
            let pat = self.patterns[k].as_bytes();
            assert(pat@ == pats[k as int]);
            proof {
                lemma_find_from_valid(text, pats[k as int], last_end as int);
            }
            match find_bytes(data, pat, last_end) {
                Some(start) => {
                    let mut i: usize = last_end;
                    let ghost before = result@;
                    while i < start
                        invariant
                            last_end <= i <= start,
                            start <= data@.len(),
                            data@ == text,
                            result@ == before + text.subrange(last_end as int, i as int),
                        decreases start - i,
                    {
                        result.push(data[i]);
                        i = i + 1;
                        assert(result@ =~= before + text.subrange(last_end as int, i as int));
                    }
                    let mut marker = marker_bytes();
                    result.append(&mut marker);
                    last_end = start + pat.len();
                    redacted_count = redacted_count + 1;
                },
                None => {},
            }
            k = k + 1;
        }
        if redacted_count > 0 {
            let mut i: usize = last_end;
            let ghost before = result@;
            while i < data.len()
                invariant
                    last_end <= i <= data@.len(),
                    data@ == text,
                    result@ == before + text.subrange(last_end as int, i as int),
                decreases data@.len() - i,
            {
                result.push(data[i]);
                i = i + 1;
                assert(result@ =~= before + text.subrange(last_end as int, i as int));
            }
            assert(result@ == redacted(text, pats));
            let copy_len = if result.len() < data.len() { result.len() } else { data.len() };
            let mut j: usize = 0;
            while j < copy_len
                invariant
                    0 <= j <= copy_len,
                    copy_len <= result@.len(),
                    copy_len <= text.len(),
                    data@.len() == text.len(),
                    forall|t: int| 0 <= t < j ==> data@[t] == result@[t],
                    forall|t: int| j <= t < text.len() ==> data@[t] == text[t],
                decreases copy_len - j,
            {
                data[j] = result[j];
                j = j + 1;
            }
            assert(data@ =~= overwrite_prefix(text, result@));
        }
        redacted_count
    }
}

/// The filesystem, when there is one, is well formed.
pub open spec fn fs_ok(fs: Option<Filesystem>) -> bool {
    fs matches Some(f) ==> f.wf()
}

/// What appending the record `rec` to the audit trail does, from
/// filesystem `fs` to `fs2` with result `r`: nothing when the trail is off,
/// has no file, or there is no filesystem; otherwise the write of `rec` to
/// the audit descriptor, whose error is passed on.
pub open spec fn audit_log_post(sm: SecurityManager, fs: Option<Filesystem>, fs2: Option<Filesystem>, rec: Seq<u8>, r: Result<(), FsError>) -> bool {
    if !sm.policy().audit_trail_enabled || sm.audit_fd() is None || fs is None {
        r is Ok && fs2 == fs
    } else {
        let f = fs->0;
        let f2 = fs2->0;
        let fd = sm.audit_fd()->0;
        let w = write_result(f, fd as int, rec);
        &&& fs2 is Some
        &&& (r is Ok <==> w is Ok)
        &&& (w matches Err(e) ==> r == Err::<(), FsError>(e) && f2 == f)
        &&& (w matches Ok(n) ==> f.open_file(fd as int) matches Some(of)
            && (forall|k: int| 0 <= k < n ==> #[trigger] f2.byte_at(of.inum as int, of.position + k) == rec[k])
            && f2.open_file(fd as int) == Some(crate::filesystem::OpenFile { position: (of.position + n) as usize, ..of }))
    }
}

/// Whether appending `rec` to the audit trail succeeds.
pub open spec fn audit_ok(sm: SecurityManager, fs: Option<Filesystem>, rec: Seq<u8>) -> bool {
    if !sm.policy().audit_trail_enabled || sm.audit_fd() is None || fs is None {
        true
    } else {
        write_result(fs->0, sm.audit_fd()->0 as int, rec) is Ok
    }
}

/// The audit detail recorded when autonomy is switched: "AI autonomy
/// enabled" or "AI autonomy disabled".
pub open spec fn autonomy_message(enabled: bool) -> Seq<u8> {
    if enabled {
        seq![0x41u8, 0x49, 0x20, 0x61, 0x75, 0x74, 0x6f, 0x6e, 0x6f, 0x6d, 0x79, 0x20, 0x65, 0x6e,
            0x61, 0x62, 0x6c, 0x65, 0x64]
    } else {
        seq![0x41u8, 0x49, 0x20, 0x61, 0x75, 0x74, 0x6f, 0x6e, 0x6f, 0x6d, 0x79, 0x20, 0x64, 0x69,
            0x73, 0x61, 0x62, 0x6c, 0x65, 0x64]
    }
}

/// The audit detail recorded when the kill switch is thrown: "Kill switch
/// activated".
pub open spec fn kill_switch_message() -> Seq<u8> {
    seq![0x4bu8, 0x69, 0x6c, 0x6c, 0x20, 0x73, 0x77, 0x69, 0x74, 0x63, 0x68, 0x20, 0x61, 0x63,
        0x74, 0x69, 0x76, 0x61, 0x74, 0x65, 0x64]
}

/// The audit detail recorded at initialisation: "Security manager
/// initialized".
pub open spec fn init_message() -> Seq<u8> {
    seq![0x53u8, 0x65, 0x63, 0x75, 0x72, 0x69, 0x74, 0x79, 0x20, 0x6d, 0x61, 0x6e, 0x61, 0x67,
        0x65, 0x72, 0x20, 0x69, 0x6e, 0x69, 0x74, 0x69, 0x61, 0x6c, 0x69, 0x7a, 0x65, 0x64]
}

/// An audit record never exceeds `AUDIT_RECORD_MAX` bytes.
pub proof fn lemma_audit_record_short(timestamp: u64, op: OperationType, user_id: u32, success: bool, details: Seq<u8>)
    ensures
        audit_record(timestamp, op, user_id, success, details).len() <= AUDIT_RECORD_MAX,
{
    lemma_decimal_short(timestamp as nat);
    lemma_decimal_short(op.code_spec() as nat);
    lemma_decimal_short(user_id as nat);
}

/// Policy state, the audit-trail descriptor and the PII detector.
pub struct SecurityManager {
    policy: SecurityPolicy,
    audit_log_fd: Option<FileDescriptor>,
    pii_detector: PIIDetector,
    autonomy_enabled: bool,
}

/// The answer of `check_operation` for an operation at a level: `Some`
/// decision, or `None` where the policy refuses with an error.
pub open spec fn check_spec(policy: SecurityPolicy, op: OperationType, level: SecurityLevel) -> Option<bool> {
    match op {
        OperationType::ModelExecution => Some(true),
        OperationType::CloudAccess => if policy.cloud_opt_in_required {
            None
        } else {
            Some(true)
        },
        OperationType::KernelPatch | OperationType::DriverUpdate | OperationType::ModelHotpatch => {
            if level == SecurityLevel::Low {
                Some(true)
            } else if policy.human_in_loop_patches {
                None
            } else {
                Some(false)
            }
        },
        OperationType::DataExport => Some(true),
        OperationType::SecurityPolicyChange => None,
        OperationType::AutonomyControl => Some(true),
    }
}

impl SecurityManager {
    pub closed spec fn policy(&self) -> SecurityPolicy {
        self.policy
    }

    pub closed spec fn audit_fd(&self) -> Option<FileDescriptor> {
        self.audit_log_fd
    }

    pub closed spec fn autonomy_flag(&self) -> bool {
        self.autonomy_enabled
    }

    pub closed spec fn patterns(&self) -> Seq<Seq<u8>> {
        self.pii_detector.pattern_bytes()
    }

    /// The default policy: local-first, cloud and patches need a human,
    /// audit trail and redaction on, autonomy enabled, no audit file yet.
    pub fn new() -> (r: SecurityManager)
        ensures
            r.policy() == (SecurityPolicy {
                local_first_models: true,
                cloud_opt_in_required: true,
                human_in_loop_patches: true,
                audit_trail_enabled: true,
                pii_redaction_enabled: true,
                autonomy_kill_switch: false,
            }),
            r.audit_fd() is None,
            r.autonomy_flag(),
            r.patterns() == default_patterns().map_values(|p: &str| p.spec_bytes()),
    {
        SecurityManager {
            policy: SecurityPolicy {
                local_first_models: true,
                cloud_opt_in_required: true,
                human_in_loop_patches: true,
                audit_trail_enabled: true,
                pii_redaction_enabled: true,
                autonomy_kill_switch: false,
            },
            audit_log_fd: None,
            pii_detector: PIIDetector::new(),
            autonomy_enabled: true,
        }
    }

    /// Whether `op` at `level` is allowed: `Ok(true)` or `Ok(false)`, or an
    /// error naming the approval that the policy requires.
    pub fn check_operation(&self, op: OperationType, level: SecurityLevel) -> (r: Result<bool, &'static str>)
        ensures
            check_spec(self.policy(), op, level) matches Some(b) ==> r == Ok::<bool, &'static str>(b),
            check_spec(self.policy(), op, level) is None ==> r is Err,
    {
        match op {
            OperationType::ModelExecution => Ok(true),
            OperationType::CloudAccess => {
                if self.policy.cloud_opt_in_required {
                    Err("Cloud access requires explicit opt-in")
                } else {
                    Ok(true)
                }
            },
            OperationType::KernelPatch | OperationType::DriverUpdate | OperationType::ModelHotpatch => {
                match level {
                    SecurityLevel::Low => Ok(true),
                    _ => {
                        if self.policy.human_in_loop_patches {
                            Err("Human approval required for patches")
                        } else {
                            Ok(false)
                        }
                    },
                }
            },
            OperationType::DataExport => Ok(true),
            OperationType::SecurityPolicyChange => Err("Security policy changes require human approval"),
            OperationType::AutonomyControl => Ok(true),
        }
    }

    /// Whether AI autonomy is on: enabled and the kill switch not thrown.
    pub fn is_autonomy_enabled(&self) -> (r: bool)
        ensures
            r == (self.autonomy_flag() && !self.policy().autonomy_kill_switch),
    {
        self.autonomy_enabled && !self.policy.autonomy_kill_switch
    }

    /// Redacts personal data in `data` when the policy asks for it; returns
    /// the number of redactions.
    pub fn redact_pii(&self, data: &mut [u8]) -> (r: usize)
        ensures
            !self.policy().pii_redaction_enabled ==> r == 0 && final(data)@ == old(data)@,
            self.policy().pii_redaction_enabled && !vstd::utf8::valid_utf8(old(data)@)
                ==> r == 0 && final(data)@ == old(data)@,
            self.policy().pii_redaction_enabled && vstd::utf8::valid_utf8(old(data)@) ==> {
                let c = redact_state(old(data)@, self.patterns(), 8).2;
                &&& r == c
                &&& c == 0 ==> final(data)@ == old(data)@
                &&& c > 0 ==> final(data)@ == overwrite_prefix(old(data)@, redacted(old(data)@, self.patterns()))
            },
    {
        if self.policy.pii_redaction_enabled {
            self.pii_detector.redact(data)
        } else {
            0
        }
    }

    /// Appends the record of an operation to the audit file, when the audit
    /// trail is enabled and its file is open; otherwise does nothing. The
    /// timestamp is 0: no clock is kept.
    pub fn audit_log(&mut self, operation: OperationType, user_id: u32, success: bool, details: &[u8], fs: &mut Option<Filesystem>) -> (r: Result<(), FsError>)
        requires
            fs_ok(*old(fs)),
        ensures
            fs_ok(*final(fs)),
            *final(self) == *old(self),
            audit_log_post(*old(self), *old(fs), *final(fs), audit_record(0, operation, user_id, success, details@), r),
    {
        if !self.policy.audit_trail_enabled {
            return Ok(());
        }
        let fd = match self.audit_log_fd {
            Some(fd) => fd,
            None => {
                return Ok(());
            },
        };
        let timestamp: u64 = 0;
        let mut entry: Vec<u8> = Vec::new();
        write_number(&mut entry, timestamp);
        entry.push(COLON);
        write_number(&mut entry, operation.code());
        entry.push(COLON);
        write_number(&mut entry, user_id as u64);
        entry.push(COLON);
        entry.push(if success { DIGIT_ONE } else { DIGIT_ZERO });
        entry.push(COLON);
        proof {
            lemma_decimal_short(0);
            lemma_decimal_short(operation.code_spec() as nat);
            lemma_decimal_short(user_id as nat);
        }
        let ghost head = entry@;
        assert(head =~= decimal(0) + seq![COLON] + decimal(operation.code_spec() as nat) + seq![COLON]
            + decimal(user_id as nat) + seq![COLON] + seq![if success { DIGIT_ONE } else { DIGIT_ZERO }]
            + seq![COLON]);
        let room = AUDIT_RECORD_MAX - entry.len() - 1;
        let copy_len = if details.len() < room { details.len() } else { room };
        let mut i: usize = 0;
        while i < copy_len
            invariant
                0 <= i <= copy_len,
                copy_len <= details@.len(),
                entry@ == head + details@.take(i as int),
            decreases copy_len - i,
        {
            entry.push(details[i]);
            i = i + 1;
            assert(entry@ =~= head + details@.take(i as int));
        }
        entry.push(NEWLINE);
        assert(entry@ == audit_record(0, operation, user_id, success, details@));
        match fs {
            Some(f) => match f.write(fd, entry.as_slice()) {
                Ok(_) => Ok(()),
                Err(e) => Err(e),
            },
            None => Ok(()),
        }
    }

    /// Opens (creating if needed) the audit file `/audit.log` when the audit
    /// trail is enabled, then records the initialisation.
    pub fn init(&mut self, fs: &mut Option<Filesystem>) -> (r: Result<(), FsError>)
        requires
            fs_ok(*old(fs)),
        ensures
            fs_ok(*final(fs)),
            final(self).policy() == old(self).policy(),
            final(self).autonomy_flag() == old(self).autonomy_flag(),
            !old(self).policy().audit_trail_enabled || (*old(fs)) is None ==> r is Ok && *final(fs) == *old(fs)
                && *final(self) == *old(self),
            final(self).audit_fd() != old(self).audit_fd() ==> (final(self).audit_fd() matches Some(fd)
                && (*old(fs)) matches Some(f) && f.open_file(fd as int) is None),
            old(self).policy().audit_trail_enabled && (*old(fs)) is Some && r is Ok ==> ({
                let rec = audit_record(0, OperationType::SecurityPolicyChange, 0, true, init_message());
                &&& final(self).audit_fd() matches Some(fd)
                &&& (*final(fs)) matches Some(f2)
                &&& f2.open_file(fd as int) matches Some(of)
                &&& of.position == rec.len()
                &&& forall|k: int| 0 <= k < rec.len() ==> #[trigger] f2.byte_at(of.inum as int, k) == rec[k]
            }),
    {
        if self.policy.audit_trail_enabled {
            if let Some(f) = fs {
                let fd = f.open("/audit.log", OpenFlags { read: true, write: true, create: true, truncate: false })?;
                self.audit_log_fd = Some(fd);
            }
        }
        let msg: [u8; 28] = [
            0x53, 0x65, 0x63, 0x75, 0x72, 0x69, 0x74, 0x79, 0x20, 0x6d, 0x61, 0x6e, 0x61, 0x67,
            0x65, 0x72, 0x20, 0x69, 0x6e, 0x69, 0x74, 0x69, 0x61, 0x6c, 0x69, 0x7a, 0x65, 0x64,
        ];
        assert(msg@ =~= init_message());
        let ghost fs1 = *fs;
        let r = self.audit_log(OperationType::SecurityPolicyChange, 0, true, msg.as_slice(), fs);
        proof {
            let rec = audit_record(0, OperationType::SecurityPolicyChange, 0, true, init_message());
            lemma_audit_record_short(0, OperationType::SecurityPolicyChange, 0, true, init_message());
            if old(self).policy().audit_trail_enabled && (*old(fs)) is Some && r is Ok {
                let f2 = fs->0;
                let fd = self.audit_fd()->0;
                assert forall|k: int| 0 <= k < rec.len() implies #[trigger] f2.byte_at((fs1->0).open_file(fd as int)->0.inum as int, k) == rec[k] by {
                    assert(f2.byte_at((fs1->0).open_file(fd as int)->0.inum as int, 0 + k) == rec[k]);
                }
            }
        }
        r
    }

    /// Turns AI autonomy on or off and records the change.
    pub fn set_autonomy(&mut self, enabled: bool, user_id: u32, fs: &mut Option<Filesystem>) -> (r: Result<(), FsError>)
        requires
            fs_ok(*old(fs)),
        ensures
            fs_ok(*final(fs)),
            final(self).autonomy_flag() == enabled,
            final(self).policy() == old(self).policy(),
            final(self).audit_fd() == old(self).audit_fd(),
            r is Ok <==> audit_ok(*final(self), *old(fs),
                audit_record(0, OperationType::AutonomyControl, user_id, true, autonomy_message(enabled))),
    {
        self.autonomy_enabled = enabled;
        if enabled {
            let msg: [u8; 19] = [
                0x41, 0x49, 0x20, 0x61, 0x75, 0x74, 0x6f, 0x6e, 0x6f, 0x6d, 0x79, 0x20, 0x65, 0x6e,
                0x61, 0x62, 0x6c, 0x65, 0x64,
            ];
            assert(msg@ =~= autonomy_message(true));
            self.audit_log(OperationType::AutonomyControl, user_id, true, msg.as_slice(), fs)
        } else {
            let msg: [u8; 20] = [
                0x41, 0x49, 0x20, 0x61, 0x75, 0x74, 0x6f, 0x6e, 0x6f, 0x6d, 0x79, 0x20, 0x64, 0x69,
                0x73, 0x61, 0x62, 0x6c, 0x65, 0x64,
            ];
            assert(msg@ =~= autonomy_message(false));
            self.audit_log(OperationType::AutonomyControl, user_id, true, msg.as_slice(), fs)
        }
    }

    /// Throws the kill switch: autonomy is off for good in this session.
    pub fn kill_switch(&mut self, user_id: u32, fs: &mut Option<Filesystem>) -> (r: Result<(), FsError>)
        requires
            fs_ok(*old(fs)),
        ensures
            fs_ok(*final(fs)),
            final(self).policy().autonomy_kill_switch,
            !final(self).autonomy_flag(),
            final(self).audit_fd() == old(self).audit_fd(),
            final(self).policy().audit_trail_enabled == old(self).policy().audit_trail_enabled,
            r is Ok <==> audit_ok(*final(self), *old(fs),
                audit_record(0, OperationType::AutonomyControl, user_id, true, kill_switch_message())),
    {
        self.policy.autonomy_kill_switch = true;
        self.autonomy_enabled = false;
        let msg: [u8; 21] = [
            0x4b, 0x69, 0x6c, 0x6c, 0x20, 0x73, 0x77, 0x69, 0x74, 0x63, 0x68, 0x20, 0x61, 0x63,
            0x74, 0x69, 0x76, 0x61, 0x74, 0x65, 0x64,
        ];
        assert(msg@ =~= kill_switch_message());
        self.audit_log(OperationType::AutonomyControl, user_id, true, msg.as_slice(), fs)
    }
}

/// A security manager with the default policy.
pub fn init() -> (r: SecurityManager)
    ensures
        r.audit_fd() is None,
        r.autonomy_flag(),
        r.policy().audit_trail_enabled,
{
    SecurityManager::new()
}

/// Connects the security manager, if there is one, to the filesystem.
pub fn init_with_fs(security: &mut Option<SecurityManager>, fs: &mut Option<Filesystem>) -> (r: Result<(), FsError>)
    requires
        fs_ok(*old(fs)),
    ensures
        fs_ok(*final(fs)),
        (*old(security)) is None ==> r is Ok && *final(fs) == *old(fs) && (*final(security)) is None,
        (*final(security)) is Some <==> (*old(security)) is Some,
{
    match security {
        Some(sm) => sm.init(fs),
        None => Ok(()),
    }
}

} // verus!
