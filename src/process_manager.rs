use vstd::prelude::*;
use vstd::arithmetic::power2::pow2;
use vstd::string::StringSliceAdditionalSpecFns;

verus! {

/// The UTF-16 code unit of the path separator `\`.
pub const BACKSLASH: u16 = 0x5C;

/// What one scan or one adjustment reports about a target process.
pub struct ProcessStatus {
    pub name: String,
    pub pid: u32,
    pub adjusted: bool,
    pub error: Option<String>,
}

/// The mathematical content of a `ProcessStatus`.
pub struct StatusView {
    pub name: Seq<char>,
    pub pid: u32,
    pub adjusted: bool,
    pub error: Option<Seq<char>>,
}

impl View for ProcessStatus {
    type V = StatusView;

    open spec fn view(&self) -> StatusView {
        StatusView {
            name: self.name@,
            pid: self.pid,
            adjusted: self.adjusted,
            error: match self.error {
                Some(e) => Some(e@),
                None => None,
            },
        }
    }
}

impl ProcessStatus {
    /// A copy with equal contents.
    pub fn duplicate(&self) -> (r: ProcessStatus)
        ensures
            r@ == self@,
    {
        let error = match &self.error {
            Some(e) => Some(e.clone()),
            None => None,
        };
        ProcessStatus { name: self.name.clone(), pid: self.pid, adjusted: self.adjusted, error }
    }
}

/// The views of a sequence of statuses, in order.
pub open spec fn views(v: Seq<ProcessStatus>) -> Seq<StatusView> {
    v.map_values(|s: ProcessStatus| s@)
}

/// A live process as the enumerator found it: its identifier and, when it
/// could be resolved, its executable name as UTF-16 code units.
pub struct ProcessEntry {
    pub pid: u32,
    pub name: Option<Vec<u16>>,
}

/// What `String::from_utf16_lossy` makes of a sequence of UTF-16 code units.
pub uninterp spec fn utf16_lossy(units: Seq<u16>) -> Seq<char>;

/// Relies on `String::from_utf16_lossy`: the decoded text depends on the units alone.
#[verifier::external_body]
fn decode_name(units: &Vec<u16>) -> (r: String)
    ensures
        r@ == utf16_lossy(units@),
{
    String::from_utf16_lossy(units.as_slice())
}

/// The decimal digit `d` as a character.
pub open spec fn digit_char(d: nat) -> char {
    seq!['0', '1', '2', '3', '4', '5', '6', '7', '8', '9'][d as int]
}

/// The decimal notation of `n`, without leading zeros.
pub open spec fn decimal(n: nat) -> Seq<char>
    decreases n,
{
    if n < 10 {
        seq![digit_char(n)]
    } else {
        decimal(n / 10).push(digit_char(n % 10))
    }
}

/// The placeholder name of a process whose name is unknown: `PID:` and its number.
pub open spec fn pid_label_spec(pid: u32) -> Seq<char> {
    seq!['P', 'I', 'D', ':'] + decimal(pid as nat)
}

/// Relies on `format!` writing an integer in decimal.
#[verifier::external_body]
pub(crate) fn pid_label(pid: u32) -> (r: String)
    ensures
        r@ == pid_label_spec(pid),
{
    format!("PID:{}", pid)
}

/// The executable names that are throttled, as the bytes of their text.
pub open spec fn target_name(i: int) -> Seq<u8> {
    if i == 0 {
        "SGuard64.exe".spec_bytes()
    } else {
        "SGuardSvc64.exe".spec_bytes()
    }
}

/// The number of target names.
pub const TARGET_COUNT: usize = 2;

fn target_bytes(i: usize) -> (r: &'static [u8])
    requires
        i < TARGET_COUNT,
    ensures
        r@ == target_name(i as int),
{
    if i == 0 {
        "SGuard64.exe".as_bytes()
    } else {
        "SGuardSvc64.exe".as_bytes()
    }
}

/// A code point with ASCII upper case letters mapped to lower case.
pub open spec fn ascii_lower(c: int) -> int {
    if 65 <= c <= 90 {
        c + 32
    } else {
        c
    }
}

/// The code units spell `t` when ASCII letter case is ignored.
pub open spec fn eq_ignore_ascii_case(units: Seq<u16>, t: Seq<u8>) -> bool {
    &&& units.len() == t.len()
    &&& forall|i: int| 0 <= i < t.len() ==> ascii_lower(units[i] as int) == ascii_lower(t[i] as int)
}

/// The name is one of the target names, ignoring ASCII letter case.
pub open spec fn is_target(units: Seq<u16>) -> bool {
    exists|i: int| 0 <= i < TARGET_COUNT && eq_ignore_ascii_case(units, target_name(i))
}

fn lower_unit(c: u16) -> (r: u16)
    ensures
        r as int == ascii_lower(c as int),
{
    if 65 <= c && c <= 90 {
        c + 32
    } else {
        c
    }
}

fn matches_ignoring_case(units: &Vec<u16>, t: &[u8]) -> (r: bool)
    ensures
        r == eq_ignore_ascii_case(units@, t@),
{
    if units.len() != t.len() {
        return false;
    }
    let mut i: usize = 0;
    while i < t.len()
        invariant
            units@.len() == t@.len(),
            i <= t@.len(),
            forall|j: int| 0 <= j < i ==> ascii_lower(units@[j] as int) == ascii_lower(t@[j] as int),
        decreases t@.len() - i,
    {
        if lower_unit(units[i]) != lower_unit(t[i] as u16) {
            return false;
        }
        i = i + 1;
    }
    true
}

/// Whether an executable name is one of the targets.
pub fn is_target_name(units: &Vec<u16>) -> (r: bool)
    ensures
        r == is_target(units@),
{
    let mut i: usize = 0;
    while i < TARGET_COUNT
        invariant
            i <= TARGET_COUNT,
            forall|j: int| 0 <= j < i ==> !eq_ignore_ascii_case(units@, #[trigger] target_name(j)),
        decreases TARGET_COUNT - i,
    {
        if matches_ignoring_case(units, target_bytes(i)) {
            return true;
        }
        i = i + 1;
    }
    false
}

/// Where the final component of a path starts: just after its last backslash,
/// or at 0 when it has none.
pub open spec fn name_start(path: Seq<u16>) -> int
    decreases path.len(),
{
    if path.len() == 0 {
        0
    } else if path.last() == BACKSLASH {
        path.len() as int
    } else {
        name_start(path.drop_last())
    }
}

/// The final component of a backslash-separated path.
pub open spec fn file_name_of(path: Seq<u16>) -> Seq<u16> {
    path.subrange(name_start(path), path.len() as int)
}

/// The final component of a backslash-separated path; the whole path when it
/// holds no backslash, and empty when it ends with one.
pub fn file_name(path: &Vec<u16>) -> (r: Vec<u16>)
    ensures
        r@ == file_name_of(path@),
{
    let mut start: usize = path.len();
    proof {
        assert(path@.subrange(0, path@.len() as int) =~= path@);
    }
    while start > 0 && path[start - 1] != BACKSLASH
        invariant
            start <= path@.len(),
            name_start(path@.subrange(0, start as int)) == name_start(path@),
        decreases start,
    {
        proof {
            assert(path@.subrange(0, start as int).drop_last() =~= path@.subrange(0, start - 1));
        }
        start = start - 1;
    }
    proof {
        if start > 0 {
            assert(path@.subrange(0, start as int).last() == BACKSLASH);
        }
    }
    let mut r: Vec<u16> = Vec::new();
    let mut i: usize = start;
    while i < path.len()
        invariant
            start <= i <= path@.len(),
            start == name_start(path@),
            r@ =~= path@.subrange(start as int, i as int),
        decreases path@.len() - i,
    {
        r.push(path[i]);
        i = i + 1;
    }
    r
}

/// The code units held by an optional buffer.
pub open spec fn units_of(o: Option<Vec<u16>>) -> Option<Seq<u16>> {
    match o {
        Some(v) => Some(v@),
        None => None,
    }
}

/// The name resolved from an image path query and a module base name query:
/// the final component of a non-empty path first, else a non-empty base name.
pub open spec fn resolved_name(full_path: Option<Seq<u16>>, base_name: Option<Seq<u16>>) -> Option<Seq<u16>> {
    match full_path {
        Some(p) if p.len() > 0 => Some(file_name_of(p)),
        _ => match base_name {
            Some(b) if b.len() > 0 => Some(b),
            _ => None,
        },
    }
}

/// Picks the executable name from the two queries, tried in order; `None`
/// when both failed or came back empty.
pub fn resolve_name(full_path: Option<Vec<u16>>, base_name: Option<Vec<u16>>) -> (r: Option<Vec<u16>>)
    ensures
        units_of(r) == resolved_name(units_of(full_path), units_of(base_name)),
{
    match full_path {
        Some(p) if p.len() > 0 => {
            return Some(file_name(&p));
        },
        _ => {},
    }
    match base_name {
        Some(b) if b.len() > 0 => Some(b),
        _ => None,
    }
}

/// An enumerated process is reported by a scan: it has a non-zero identifier
/// and a resolved name among the targets.
pub open spec fn is_reported(e: ProcessEntry) -> bool {
    e.pid != 0 && match e.name {
        Some(n) => is_target(n@),
        None => false,
    }
}

/// The record a scan makes of a reported process.
pub open spec fn scanned_status(e: ProcessEntry) -> StatusView {
    StatusView {
        name: match e.name {
            Some(n) => utf16_lossy(n@),
            None => Seq::empty(),
        },
        pid: e.pid,
        adjusted: false,
        error: None,
    }
}

/// The records of a scan over the enumerated processes, in order.
pub open spec fn scan_spec(entries: Seq<ProcessEntry>) -> Seq<StatusView>
    decreases entries.len(),
{
    if entries.len() == 0 {
        Seq::empty()
    } else {
        let before = scan_spec(entries.drop_last());
        if is_reported(entries.last()) {
            before.push(scanned_status(entries.last()))
        } else {
            before
        }
    }
}

/// The target processes among the enumerated ones, in enumeration order, none
/// of them adjusted yet.
pub fn scan_only(entries: &Vec<ProcessEntry>) -> (r: Vec<ProcessStatus>)
    ensures
        views(r@) == scan_spec(entries@),
{
    let mut results: Vec<ProcessStatus> = Vec::new();
    let mut i: usize = 0;
    while i < entries.len()
        invariant
            i <= entries@.len(),
            views(results@) =~= scan_spec(entries@.subrange(0, i as int)),
        decreases entries@.len() - i,
    {
        proof {
            assert(entries@.subrange(0, i + 1).drop_last() =~= entries@.subrange(0, i as int));
        }
        let e = &entries[i];
        if e.pid != 0 {
            match &e.name {
                Some(n) => {
                    if is_target_name(n) {
                        let name = decode_name(n);
                        results.push(ProcessStatus { name, pid: e.pid, adjusted: false, error: None });
                    }
                },
                None => {},
            }
        }
        i = i + 1;
    }
    proof {
        assert(entries@.subrange(0, entries@.len() as int) =~= entries@);
    }
    results
}

/// The name a limit result carries: the resolved one, else the `PID:` label.
pub open spec fn limit_name(pid: u32, name: Option<Seq<u16>>) -> Seq<char> {
    match name {
        Some(n) => utf16_lossy(n),
        None => pid_label_spec(pid),
    }
}

/// The record of one limit attempt on `pid`, from its resolved name and the
/// adjuster's outcome: adjusted exactly when the outcome is a success, with the
/// failure message otherwise.
pub fn limit_process(pid: u32, name: Option<Vec<u16>>, outcome: Result<(), String>) -> (r: ProcessStatus)
    ensures
        r@.name == limit_name(pid, units_of(name)),
        r@.pid == pid,
        r@.adjusted == outcome.is_ok(),
        r@.error == match outcome {
            Ok(_) => None::<Seq<char>>,
            Err(e) => Some(e@),
        },
{
    let name = match &name {
        Some(n) => decode_name(n),
        None => pid_label(pid),
    };
    match outcome {
        Ok(_) => ProcessStatus { name, pid, adjusted: true, error: None },
        Err(e) => ProcessStatus { name, pid, adjusted: false, error: Some(e) },
    }
}

/// The affinity mask that selects only the highest-indexed logical CPU.
pub open spec fn last_core_mask_spec(cpu_count: u32) -> nat {
    if cpu_count <= 1 {
        1
    } else {
        pow2((cpu_count - 1) as nat)
    }
}

/// Affinity mask of the last core for a machine with `cpu_count` logical CPUs;
/// a count of 0 or 1 gives the mask of core 0.
pub fn get_last_core_mask(cpu_count: u32) -> (mask: u64)
    requires
        cpu_count <= 64,
    ensures
        mask as nat == last_core_mask_spec(cpu_count),
{
    if cpu_count <= 1 {
        1
    } else {
        let shift: u64 = (cpu_count - 1) as u64;
        proof {
            vstd::bits::lemma_u64_pow2_no_overflow(shift as nat);
            vstd::bits::lemma_u64_shl_is_mul(1u64, shift);
        }
        1u64 << shift
    }
}

/// Processor count and index of the last logical CPU.
pub struct SystemInfo {
    pub cpu_count: u32,
    pub last_core_index: u32,
}

/// The system description for a machine with `cpu_count` logical CPUs.
pub fn get_system_info(cpu_count: u32) -> (r: SystemInfo)
    requires
        cpu_count >= 1,
    ensures
        r.cpu_count == cpu_count,
        r.last_core_index == cpu_count - 1,
{
    SystemInfo { cpu_count, last_core_index: cpu_count - 1 }
}

/// The mask applied to a process selects exactly the core that the system
/// description calls the last one: bit `cpu_count - 1`, which is bit 0 for a
/// single CPU.
pub proof fn lemma_mask_selects_last_core(cpu_count: u32)
    requires
        1 <= cpu_count <= 64,
    ensures
        last_core_mask_spec(cpu_count) == pow2((cpu_count - 1) as nat),
        cpu_count == 1 ==> last_core_mask_spec(cpu_count) == 1,
{
    if cpu_count == 1 {
        vstd::arithmetic::power2::lemma2_to64();
    }
}

} // verus!
