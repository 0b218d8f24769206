use vstd::prelude::*;

use crate::path::{same_path, same_path_of};
use crate::text::{is_word, lemma_spaced_lacks, lemma_words_of_spaced, spaced, is_whitespace, lemma_last_index_append, lemma_words_after_append, chars_of, last_index_of, lemma_last_index_of_bounds, parse_decimal, parse_unsigned, rfind_char, split_words, texts, words};

verus! {

/// What comparing a recorded process identity with the current one concluded.
#[derive(Clone, Copy, Debug, PartialEq, Eq, Structural)]
pub enum NativeProcessIdentityValidationResult {
    Match,
    ProcessExited,
    PidMismatch,
    CreationTimeMismatch,
    ExecutableMismatch,
    ParentIdentityMismatch,
    IdentityUnavailable,
    PartialIdentity,
    Unsupported,
    InternalError,
}

/// Immutable OS identity captured while the native child handle is still owned.
///
/// `creation_time` values are platform-native. On Windows they are the 100ns
/// intervals since 1601 returned by `GetProcessTimes`; on Linux they are the start
/// time, in clock ticks since boot, from `/proc/<pid>/stat`.
#[derive(Debug)]
pub struct NativeProcessIdentity {
    pub os_pid: u32,
    pub creation_time: Option<u64>,
    pub executable_identity: Option<String>,
    pub parent_pid: Option<u32>,
    pub parent_creation_time: Option<u64>,
    pub platform: String,
}

/// The mathematical value of a [`NativeProcessIdentity`].
pub struct IdentityView {
    pub os_pid: u32,
    pub creation_time: Option<u64>,
    pub executable_identity: Option<Seq<char>>,
    pub parent_pid: Option<u32>,
    pub parent_creation_time: Option<u64>,
    pub platform: Seq<char>,
}

pub open spec fn opt_text(s: Option<String>) -> Option<Seq<char>> {
    match s {
        Some(t) => Some(t@),
        None => None,
    }
}

/// Compares two optional strings by their text.
pub fn opt_text_eq(a: &Option<String>, b: &Option<String>) -> (r: bool)
    ensures
        r == (opt_text(*a) == opt_text(*b)),
{
    match (a, b) {
        (Some(x), Some(y)) => *x == *y,
        (None, None) => true,
        _ => false,
    }
}

/// Copies an optional string, keeping its text.
pub fn opt_text_clone(a: &Option<String>) -> (r: Option<String>)
    ensures
        opt_text(r) == opt_text(*a),
{
    match a {
        Some(x) => Some(x.clone()),
        None => None,
    }
}

impl View for NativeProcessIdentity {
    type V = IdentityView;

    open spec fn view(&self) -> IdentityView {
        IdentityView {
            os_pid: self.os_pid,
            creation_time: self.creation_time,
            executable_identity: opt_text(self.executable_identity),
            parent_pid: self.parent_pid,
            parent_creation_time: self.parent_creation_time,
            platform: self.platform@,
        }
    }
}

impl Clone for NativeProcessIdentity {
    fn clone(&self) -> (r: Self)
        ensures
            r@ == self@,
    {
        NativeProcessIdentity {
            os_pid: self.os_pid,
            creation_time: self.creation_time,
            executable_identity: opt_text_clone(&self.executable_identity),
            parent_pid: self.parent_pid,
            parent_creation_time: self.parent_creation_time,
            platform: self.platform.clone(),
        }
    }
}

/// Calls `std::path::is_separator`.
///
/// Trusted, with nothing claimed: which characters separate path components depends on the
/// platform that the program was built for (`/` on Unix; `/` and `\` on Windows), so the
/// result is not a function of the argument alone.
#[verifier::external_body]
fn is_host_path_separator(c: char) -> (r: bool) {
    std::path::is_separator(c)
}

/// Whether the host compares paths by Windows rules, where `\` separates path components.
fn host_uses_windows_paths() -> (r: bool) {
    is_host_path_separator('\\')
}

/// Two optional executables are the same when both are unknown, or both are known and name
/// the same path under the given path rules.
pub open spec fn same_executable(a: Option<Seq<char>>, b: Option<Seq<char>>, windows: bool) -> bool {
    match (a, b) {
        (Some(x), Some(y)) => same_path(x, y, windows),
        (None, None) => true,
        _ => false,
    }
}

/// Two identities are the same when every field is equal, executables being compared as
/// paths under the given path rules.
pub open spec fn same_identity(a: IdentityView, b: IdentityView, windows: bool) -> bool {
    &&& a.os_pid == b.os_pid
    &&& a.creation_time == b.creation_time
    &&& same_executable(a.executable_identity, b.executable_identity, windows)
    &&& a.parent_pid == b.parent_pid
    &&& a.parent_creation_time == b.parent_creation_time
    &&& a.platform == b.platform
}

fn same_executable_of(a: &Option<String>, b: &Option<String>, windows: bool) -> (r: bool)
    ensures
        r == same_executable(opt_text(*a), opt_text(*b), windows),
{
    match (a, b) {
        (Some(x), Some(y)) => same_path_of(x.as_str(), y.as_str(), windows),
        (None, None) => true,
        _ => false,
    }
}

impl NativeProcessIdentity {
    /// Whether two identities are equal field by field, executables compared as text.
    pub fn same_text_as(&self, other: &Self) -> (r: bool)
        ensures
            r == (self@ == other@),
    {
        self.os_pid == other.os_pid && self.creation_time == other.creation_time && opt_text_eq(
            &self.executable_identity,
            &other.executable_identity,
        ) && self.parent_pid == other.parent_pid && self.parent_creation_time
            == other.parent_creation_time && self.platform == other.platform
    }

    /// Whether two identities are the same, executables compared as paths under the given
    /// path rules.
    pub fn same_as_under(&self, other: &Self, windows: bool) -> (r: bool)
        ensures
            r == same_identity(self@, other@, windows),
    {
        self.os_pid == other.os_pid && self.creation_time == other.creation_time
            && same_executable_of(&self.executable_identity, &other.executable_identity, windows)
            && self.parent_pid == other.parent_pid && self.parent_creation_time
            == other.parent_creation_time && self.platform == other.platform
    }
}

impl PartialEq for NativeProcessIdentity {
    /// Equality with executables compared as paths under the host's path rules.
    fn eq(&self, other: &Self) -> (r: bool) {
        self.same_as_under(other, host_uses_windows_paths())
    }
}

impl vstd::std_specs::cmp::PartialEqSpecImpl for NativeProcessIdentity {
    /// `==` depends on the host's path rules, so no single specification is claimed for
    /// it; [`NativeProcessIdentity::same_as_under`] states it for each set of rules.
    open spec fn obeys_eq_spec() -> bool {
        false
    }

    open spec fn eq_spec(&self, other: &Self) -> bool {
        same_identity(self@, other@, false)
    }
}

impl Eq for NativeProcessIdentity {

}

/// The verdict of comparing the identity recorded at spawn time (`e`) with the one
/// observed now (`c`): the first check that fails decides, in this order: platform,
/// pid, creation time (both must be known), executable (both must be known, and name the
/// same path under the given path rules), and the parent (pid and creation time, all four known and equal, or all
/// four unknown).
pub open spec fn compare_spec(
    e: IdentityView,
    c: IdentityView,
    windows: bool,
) -> NativeProcessIdentityValidationResult {
    if e.platform != c.platform {
        NativeProcessIdentityValidationResult::Unsupported
    } else if e.os_pid != c.os_pid {
        NativeProcessIdentityValidationResult::PidMismatch
    } else if e.creation_time is None || c.creation_time is None {
        NativeProcessIdentityValidationResult::PartialIdentity
    } else if e.creation_time != c.creation_time {
        NativeProcessIdentityValidationResult::CreationTimeMismatch
    } else if e.executable_identity is None || c.executable_identity is None {
        NativeProcessIdentityValidationResult::PartialIdentity
    } else if !same_path(
        e.executable_identity.unwrap(),
        c.executable_identity.unwrap(),
        windows,
    ) {
        NativeProcessIdentityValidationResult::ExecutableMismatch
    } else {
        match (e.parent_pid, e.parent_creation_time, c.parent_pid, c.parent_creation_time) {
            (Some(ep), Some(et), Some(cp), Some(ct)) => if ep != cp || et != ct {
                NativeProcessIdentityValidationResult::ParentIdentityMismatch
            } else {
                NativeProcessIdentityValidationResult::Match
            },
            (None, None, None, None) => NativeProcessIdentityValidationResult::Match,
            _ => NativeProcessIdentityValidationResult::PartialIdentity,
        }
    }
}

/// An identity is complete when its creation time and executable are known and its
/// parent pid and parent creation time are either both known or both unknown.
pub open spec fn is_complete_identity(i: IdentityView) -> bool {
    &&& i.creation_time is Some
    &&& i.executable_identity is Some
    &&& (i.parent_pid is Some <==> i.parent_creation_time is Some)
}

/// Compares the recorded identity with the current one, under the host's path rules.
pub fn compare_native_process_identity(
    expected: &NativeProcessIdentity,
    current: &NativeProcessIdentity,
) -> (r: NativeProcessIdentityValidationResult)
    ensures
        r == compare_spec(expected@, current@, false) || r == compare_spec(
            expected@,
            current@,
            true,
        ),
{
    compare_native_process_identity_under(expected, current, host_uses_windows_paths())
}

/// Compares the recorded identity with the current one, executables compared as paths
/// under Unix rules (`windows` unset) or Windows rules.
pub fn compare_native_process_identity_under(
    expected: &NativeProcessIdentity,
    current: &NativeProcessIdentity,
    windows: bool,
) -> (r: NativeProcessIdentityValidationResult)
    ensures
        r == compare_spec(expected@, current@, windows),
{
    if expected.platform != current.platform {
        return NativeProcessIdentityValidationResult::Unsupported;
    }
    if expected.os_pid != current.os_pid {
        return NativeProcessIdentityValidationResult::PidMismatch;
    }
    let (expected_creation, current_creation) = match (expected.creation_time, current.creation_time) {
        (Some(e), Some(c)) => (e, c),
        _ => {
            return NativeProcessIdentityValidationResult::PartialIdentity;
        },
    };
    if expected_creation != current_creation {
        return NativeProcessIdentityValidationResult::CreationTimeMismatch;
    }
    let (expected_executable, current_executable) = match (
        &expected.executable_identity,
        &current.executable_identity,
    ) {
        (Some(e), Some(c)) => (e, c),
        _ => {
            return NativeProcessIdentityValidationResult::PartialIdentity;
        },
    };
    if !same_path_of(
        expected_executable.as_str(),
        current_executable.as_str(),
        windows,
    ) {
        return NativeProcessIdentityValidationResult::ExecutableMismatch;
    }
    match (
        expected.parent_pid,
        expected.parent_creation_time,
        current.parent_pid,
        current.parent_creation_time,
    ) {
        (Some(expected_pid), Some(expected_time), Some(current_pid), Some(current_time)) => {
            if expected_pid != current_pid || expected_time != current_time {
                return NativeProcessIdentityValidationResult::ParentIdentityMismatch;
            }
        },
        (None, None, None, None) => {},
        _ => {
            return NativeProcessIdentityValidationResult::PartialIdentity;
        },
    }
    NativeProcessIdentityValidationResult::Match
}

/// Comparing two identities gives the same verdict in either order.
pub proof fn law_compare_is_symmetric(a: IdentityView, b: IdentityView, windows: bool)
    ensures
        compare_spec(a, b, windows) == compare_spec(b, a, windows),
{
}

/// Only complete identities that agree in every field, executables compared as paths,
/// match.
pub proof fn law_match_means_same_complete_identity(
    e: IdentityView,
    c: IdentityView,
    windows: bool,
)
    ensures
        compare_spec(e, c, windows) == NativeProcessIdentityValidationResult::Match <==> (
        same_identity(e, c, windows) && is_complete_identity(e)),
{
}

/// An identity with an unknown creation time or executable never matches anything.
pub proof fn law_partial_identity_never_matches(e: IdentityView, c: IdentityView, windows: bool)
    requires
        e.creation_time is None || e.executable_identity is None,
    ensures
        compare_spec(e, c, windows) != NativeProcessIdentityValidationResult::Match,
{
}

/// The parent pid (field 4) and start time (field 22) of a Linux `/proc/<pid>/stat`
/// line: the fields are the whitespace-separated words after the last `)`, which closes
/// the command name (a name may itself hold spaces and parentheses). Both must parse as
/// unsigned integers of their width.
pub open spec fn linux_stat_spec(s: Seq<char>) -> Option<(u32, u64)> {
    match last_index_of(s, ')') {
        None => None,
        Some(p) => {
            let fields = words(s.subrange(p + 1, s.len() as int));
            if fields.len() > 19 {
                match (parse_unsigned(fields[1], u32::MAX as int), parse_unsigned(fields[19], u64::MAX as int)) {
                    (Some(ppid), Some(start)) => Some((ppid as u32, start as u64)),
                    _ => None,
                }
            } else {
                None
            }
        },
    }
}

pub fn parse_linux_stat(value: &str) -> (r: Option<(u32, u64)>)
    ensures
        r == linux_stat_spec(value@),
{
    let chars = chars_of(value);
    let close = match rfind_char(&chars, ')') {
        Some(p) => p,
        None => {
            return None;
        },
    };
    proof {
        lemma_last_index_of_bounds(chars@, ')');
    }
    let fields = split_words(&chars, close + 1);
    proof {
        assert(texts(fields@).len() == fields@.len());
    }
    if fields.len() <= 19 {
        return None;
    }
    assert(texts(fields@)[1] == fields@[1]@);
    assert(texts(fields@)[19] == fields@[19]@);
    let parent_pid = match parse_decimal(&fields[1], 0xffff_ffffu64) {
        Some(v) => {
            v as u32
        },
        None => {
            return None;
        },
    };
    let start_time = match parse_decimal(&fields[19], 0xffff_ffff_ffff_ffffu64) {
        Some(v) => v,
        None => {
            return None;
        },
    };
    Some((parent_pid, start_time))
}

/// The identity of a process whose details could not be read: only the pid and the
/// platform are known.
pub open spec fn unavailable_identity(os_pid: u32, platform: Seq<char>) -> IdentityView {
    IdentityView {
        os_pid,
        creation_time: None,
        executable_identity: None,
        parent_pid: None,
        parent_creation_time: None,
        platform,
    }
}

/// Why the `/proc` entries of a Linux process gave no identity.
#[derive(Clone, Copy, Debug, PartialEq, Eq, Structural)]
pub enum LinuxIdentityError {
    /// The process's own `stat` did not parse.
    MalformedStat,
    /// The parent's `stat` did not parse.
    MalformedParentStat,
    /// The process has a parent, but the parent's `stat` was not read.
    ParentStatUnavailable,
}

pub open spec fn linux_identity_error_message(e: LinuxIdentityError) -> Seq<char> {
    match e {
        LinuxIdentityError::MalformedStat => "malformed process stat"@,
        LinuxIdentityError::MalformedParentStat => "malformed parent stat"@,
        LinuxIdentityError::ParentStatUnavailable => "parent stat unavailable"@,
    }
}

impl LinuxIdentityError {
    /// The message that reports this error.
    pub fn message(&self) -> (r: String)
        ensures
            r@ == linux_identity_error_message(*self),
    {
        match self {
            LinuxIdentityError::MalformedStat => String::from_str("malformed process stat"),
            LinuxIdentityError::MalformedParentStat => String::from_str("malformed parent stat"),
            LinuxIdentityError::ParentStatUnavailable => String::from_str("parent stat unavailable"),
        }
    }
}

/// The identity that the Linux `/proc` entries of a process give, or why they give none:
/// `stat` is the text of `/proc/<pid>/stat`, `executable` the target of
/// `/proc/<pid>/exe`, and `parent_stat` the text of the parent's `stat` (`None` where it
/// was not read). A parent pid of 0 means that there is no parent, and then the parent's
/// `stat` is not consulted.
pub open spec fn linux_identity_spec(
    os_pid: u32,
    stat: Seq<char>,
    executable: Seq<char>,
    parent_stat: Option<Seq<char>>,
) -> Result<IdentityView, LinuxIdentityError> {
    match linux_stat_spec(stat) {
        None => Err(LinuxIdentityError::MalformedStat),
        Some((ppid, start)) => if ppid == 0 {
            Ok(
                IdentityView {
                    os_pid,
                    creation_time: Some(start),
                    executable_identity: Some(executable),
                    parent_pid: None,
                    parent_creation_time: None,
                    platform: "linux"@,
                },
            )
        } else {
            match parent_stat {
                None => Err(LinuxIdentityError::ParentStatUnavailable),
                Some(ps) => match linux_stat_spec(ps) {
                    None => Err(LinuxIdentityError::MalformedParentStat),
                    Some((_, parent_start)) => Ok(
                        IdentityView {
                            os_pid,
                            creation_time: Some(start),
                            executable_identity: Some(executable),
                            parent_pid: Some(ppid),
                            parent_creation_time: Some(parent_start),
                            platform: "linux"@,
                        },
                    ),
                },
            }
        },
    }
}

pub open spec fn opt_str(s: Option<&str>) -> Option<Seq<char>> {
    match s {
        Some(t) => Some(t@),
        None => None,
    }
}

/// Builds the identity of a Linux process from what its `/proc` entries held.
pub fn capture_linux_process_identity(
    os_pid: u32,
    stat: &str,
    executable: String,
    parent_stat: Option<&str>,
) -> (r: Result<NativeProcessIdentity, LinuxIdentityError>)
    ensures
        match linux_identity_spec(os_pid, stat@, executable@, opt_str(parent_stat)) {
            Ok(i) => r matches Ok(x) && x@ == i,
            Err(e) => r == Err::<NativeProcessIdentity, LinuxIdentityError>(e),
        },
{
    let (parent_pid, creation_time) = match parse_linux_stat(stat) {
        Some(v) => v,
        None => {
            return Err(LinuxIdentityError::MalformedStat);
        },
    };
    let linux = String::from_str("linux");
    if parent_pid == 0 {
        return Ok(
            NativeProcessIdentity {
                os_pid,
                creation_time: Some(creation_time),
                executable_identity: Some(executable),
                parent_pid: None,
                parent_creation_time: None,
                platform: linux,
            },
        );
    }
    let parent_text = match parent_stat {
        Some(p) => p,
        None => {
            return Err(LinuxIdentityError::ParentStatUnavailable);
        },
    };
    let parent_creation_time = match parse_linux_stat(parent_text) {
        Some((_, t)) => t,
        None => {
            return Err(LinuxIdentityError::MalformedParentStat);
        },
    };
    Ok(
        NativeProcessIdentity {
            os_pid,
            creation_time: Some(creation_time),
            executable_identity: Some(executable),
            parent_pid: Some(parent_pid),
            parent_creation_time: Some(parent_creation_time),
            platform: linux,
        },
    )
}

/// The identity of a Linux process, captured from what its `/proc` entries held
/// (`None` where a read failed). Whatever cannot be read or parsed leaves only the pid and
/// the platform known.
pub fn capture_native_process_identity(
    os_pid: u32,
    stat: Option<&str>,
    executable: Option<String>,
    parent_stat: Option<&str>,
) -> (r: NativeProcessIdentity)
    ensures
        r@ == match (opt_str(stat), opt_text(executable)) {
            (Some(s), Some(e)) => match linux_identity_spec(os_pid, s, e, opt_str(parent_stat)) {
                Ok(i) => i,
                Err(_) => unavailable_identity(os_pid, "linux"@),
            },
            _ => unavailable_identity(os_pid, "linux"@),
        },
{
    let captured = match (stat, executable) {
        (Some(s), Some(e)) => match capture_linux_process_identity(os_pid, s, e, parent_stat) {
            Ok(identity) => Some(identity),
            Err(_) => None,
        },
        _ => None,
    };
    match captured {
        Some(identity) => identity,
        None => unavailable_identity_of(os_pid, String::from_str("linux")),
    }
}

/// The identity of a process on a platform where nothing but its pid can be captured.
pub fn unavailable_identity_of(os_pid: u32, platform: String) -> (r: NativeProcessIdentity)
    ensures
        r@ == unavailable_identity(os_pid, platform@),
{
    NativeProcessIdentity {
        os_pid,
        creation_time: None,
        executable_identity: None,
        parent_pid: None,
        parent_creation_time: None,
        platform,
    }
}

/// The 64-bit value of a Windows `FILETIME` from its high and low halves.
pub fn filetime_value(high: u32, low: u32) -> (r: u64)
    ensures
        r == high as int * 0x1_0000_0000 + low as int,
{
    let r = ((high as u64) << 32u64) | (low as u64);
    assert(((high as u64) << 32u64) | (low as u64) == high as u64 * 0x1_0000_0000u64 + low as u64)
        by (bit_vector);
    r
}

/// The identity of a Windows process from what the system reported for it (`None` where a
/// query failed). A reported parent pid of 0 means that there is no parent, and the
/// parent's creation time is only asked for a parent.
pub open spec fn windows_identity_spec(
    os_pid: u32,
    creation_time: Option<u64>,
    executable: Option<Seq<char>>,
    reported_parent_pid: Option<u32>,
    parent_creation_time: Option<u64>,
) -> IdentityView {
    let parent_pid = match reported_parent_pid {
        Some(p) => if p != 0 {
            Some(p)
        } else {
            None
        },
        None => None,
    };
    IdentityView {
        os_pid,
        creation_time,
        executable_identity: executable,
        parent_pid,
        parent_creation_time: if parent_pid is Some {
            parent_creation_time
        } else {
            None
        },
        platform: "windows"@,
    }
}

/// Builds the identity of a Windows process from what the system reported for it.
pub fn windows_process_identity(
    os_pid: u32,
    creation_time: Option<u64>,
    executable: Option<String>,
    reported_parent_pid: Option<u32>,
    parent_creation_time: Option<u64>,
) -> (r: NativeProcessIdentity)
    ensures
        r@ == windows_identity_spec(
            os_pid,
            creation_time,
            opt_text(executable),
            reported_parent_pid,
            parent_creation_time,
        ),
{
    let parent_pid = match reported_parent_pid {
        Some(p) => if p != 0 {
            Some(p)
        } else {
            None
        },
        None => None,
    };
    NativeProcessIdentity {
        os_pid,
        creation_time,
        executable_identity: executable,
        parent_pid,
        parent_creation_time: if parent_pid.is_some() {
            parent_creation_time
        } else {
            None
        },
        platform: String::from_str("windows"),
    }
}

/// The parent pid that a process snapshot lists for `os_pid`: that of the first entry
/// whose process id is `os_pid`; each entry is a process id and its parent's id.
pub open spec fn listed_parent(entries: Seq<(u32, u32)>, os_pid: u32) -> Option<u32>
    decreases entries.len(),
{
    if entries.len() == 0 {
        None
    } else if entries[0].0 == os_pid {
        Some(entries[0].1)
    } else {
        listed_parent(entries.drop_first(), os_pid)
    }
}

/// Finds the parent pid of `os_pid` in the entries of a process snapshot.
pub fn find_listed_parent(entries: &Vec<(u32, u32)>, os_pid: u32) -> (r: Option<u32>)
    ensures
        r == listed_parent(entries@, os_pid),
{
    let mut i: usize = 0;
    assert(entries@.skip(0) =~= entries@);
    while i < entries.len()
        invariant
            i <= entries@.len(),
            listed_parent(entries@, os_pid) == listed_parent(entries@.skip(i as int), os_pid),
        decreases entries@.len() - i,
    {
        assert(entries@.skip(i as int).drop_first() =~= entries@.skip(i + 1));
        if entries[i].0 == os_pid {
            return Some(entries[i].1);
        }
        i = i + 1;
    }
    assert(entries@.skip(i as int) =~= Seq::<(u32, u32)>::empty());
    None
}

/// The identity assembled for a Windows process keeps every value the system reported:
/// its pid, creation time and executable as given, the reported parent pid unless it is 0,
/// and the parent's creation time exactly when there is a parent.
pub proof fn law_windows_identity_keeps_reported_values(
    os_pid: u32,
    creation_time: Option<u64>,
    executable: Option<Seq<char>>,
    reported_parent_pid: Option<u32>,
    parent_creation_time: Option<u64>,
)
    ensures
        ({
            let i = windows_identity_spec(
                os_pid,
                creation_time,
                executable,
                reported_parent_pid,
                parent_creation_time,
            );
            &&& i.os_pid == os_pid
            &&& i.creation_time == creation_time
            &&& i.executable_identity == executable
            &&& i.platform == "windows"@
            &&& (reported_parent_pid is Some && reported_parent_pid.unwrap() != 0 ==> i.parent_pid
                == reported_parent_pid && i.parent_creation_time == parent_creation_time)
            &&& (!(reported_parent_pid is Some && reported_parent_pid.unwrap() != 0) ==> i.parent_pid
                is None && i.parent_creation_time is None)
        }),
{
}

/// The parent pid and start time are read from fixed fields of a stat line: appending
/// further whitespace-separated fields (text that starts with whitespace and holds no `)`)
/// to a line that parses never changes the result.
pub proof fn law_stat_fields_are_positional(s: Seq<char>, extra: Seq<char>)
    requires
        linux_stat_spec(s) is Some,
        extra.len() > 0,
        is_whitespace(extra[0]),
        forall|i: int| 0 <= i < extra.len() ==> extra[i] != ')',
    ensures
        linux_stat_spec(s + extra) == linux_stat_spec(s),
{
    lemma_last_index_append(s, extra, ')');
    lemma_last_index_of_bounds(s, ')');
    let p = last_index_of(s, ')').unwrap();
    let tail = s.subrange(p + 1, s.len() as int);
    assert((s + extra).subrange(p + 1, (s + extra).len() as int) =~= tail + extra);
    lemma_words_after_append(tail, extra, seq![]);
    let fields = words(tail);
    assert(fields.len() > 19);
    assert(words(tail + extra)[1] == fields[1]);
    assert(words(tail + extra)[19] == fields[19]);
}

/// A stat line made of any text, a `)`, and then words separated by spaces gives the
/// second word as the parent pid and the twentieth as the start time, each parsed as an
/// unsigned integer of its width; the line gives nothing when either does not parse.
pub proof fn law_stat_reads_second_and_twentieth_field(head: Seq<char>, ws: Seq<Seq<char>>)
    requires
        ws.len() >= 20,
        forall|i: int| 0 <= i < ws.len() ==> is_word(#[trigger] ws[i]),
        forall|i: int, j: int| 0 <= i < ws.len() && 0 <= j < ws[i].len() ==> ws[i][j] != ')',
    ensures
        linux_stat_spec(head + seq![')'] + spaced(ws)) == match (
            parse_unsigned(ws[1], u32::MAX as int),
            parse_unsigned(ws[19], u64::MAX as int),
        ) {
            (Some(ppid), Some(start)) => Some((ppid as u32, start as u64)),
            _ => None,
        },
{
    let line = head + seq![')'] + spaced(ws);
    lemma_spaced_lacks(ws, ')');
    lemma_last_index_append(head + seq![')'], spaced(ws), ')');
    assert((head + seq![')']).last() == ')');
    assert(last_index_of(head + seq![')'], ')') == Some(head.len() as int));
    assert(line.subrange(head.len() as int + 1, line.len() as int) =~= spaced(ws));
    lemma_words_of_spaced(ws);
}

} // verus!
