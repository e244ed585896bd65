//! Container security: which capabilities a container may hold, which
//! profiles it may name, the security context kept for each container, the
//! capability set actually granted, the per-container AppArmor profile
//! text, and the binary form of seccomp filters.
use vstd::prelude::*;
use crate::bytes::{bits_of_i32, le_bytes, push_le, u32_of_i32};
use crate::containers::{ContainerError, SecurityConfig};
use crate::keyed::{Named, find_name, has_name, name_map, remove_named, str_equal, unique_names, upsert_named};
use crate::text::{push_text, string_of};

verus! {

/// The security context of a container.
pub struct SecurityContext {
    pub capabilities: Vec<String>,
    pub apparmor_profile: Option<String>,
    pub seccomp_profile: Option<String>,
    pub uid_map: Option<String>,
    pub gid_map: Option<String>,
}

/// A container's security context, filed under the container.
pub struct ContextEntry {
    pub container_id: String,
    pub context: SecurityContext,
}

impl Named for ContextEntry {
    open spec fn name_of(&self) -> Seq<char> {
        self.container_id@
    }

    fn name(&self) -> (k: &str) {
        self.container_id.as_str()
    }
}

/// The capabilities a container may ask for.
pub open spec fn allowed_capabilities() -> Seq<Seq<char>> {
    seq![
        "CHOWN"@,
        "DAC_OVERRIDE"@,
        "FOWNER"@,
        "FSETID"@,
        "KILL"@,
        "SETGID"@,
        "SETUID"@,
        "SETPCAP"@,
        "NET_BIND_SERVICE"@,
        "SYS_CHROOT"@,
    ]
}

/// The capabilities withheld from containers even when asked for.
pub open spec fn denied_capabilities() -> Seq<Seq<char>> {
    seq![
        "AUDIT_CONTROL"@,
        "AUDIT_WRITE"@,
        "BLOCK_SUSPEND"@,
        "DAC_READ_SEARCH"@,
        "EXECVE"@,
        "IPC_LOCK"@,
        "IPC_OWNER"@,
        "LINUX_IMMUTABLE"@,
        "MAC_ADMIN"@,
        "MAC_OVERRIDE"@,
        "MKNOD"@,
        "NET_ADMIN"@,
        "NET_RAW"@,
        "PERFMON"@,
        "SETFCAP"@,
        "SETPCAP"@,
        "SYS_ADMIN"@,
        "SYS_BOOT"@,
        "SYSLOG"@,
        "SYS_MODULE"@,
        "SYS_NICE"@,
        "SYS_PACCT"@,
        "SYS_PTRACE"@,
        "SYS_RAWIO"@,
        "SYS_RESOURCE"@,
        "SYS_TIME"@,
        "SYS_TTY_CONFIG"@,
        "WAKE_ALARM"@,
    ]
}

/// The texts of a list of strings.
pub open spec fn texts(v: Seq<String>) -> Seq<Seq<char>> {
    v.map_values(|s: String| s@)
}

pub(crate) fn strings(ts: &[&str]) -> (v: Vec<String>)
    ensures
        texts(v@) == ts@.map_values(|t: &str| t@),
{
    let mut v: Vec<String> = Vec::new();
    let mut i: usize = 0;
    while i < ts.len()
        invariant
            i <= ts@.len(),
            v@.len() == i,
            forall|j: int| 0 <= j < i ==> (#[trigger] v@[j])@ == ts@[j]@,
        decreases ts@.len() - i,
    {
        v.push(string_of(ts[i]));
        i = i + 1;
    }
    assert(texts(v@) =~= ts@.map_values(|t: &str| t@));
    v
}

/// Whether `v` holds the text `t`.
pub fn contains_text(v: &Vec<String>, t: &str) -> (b: bool)
    ensures
        b == texts(v@).contains(t@),
{
    let mut i: usize = 0;
    while i < v.len()
        invariant
            i <= v@.len(),
            forall|j: int| 0 <= j < i ==> v@[j]@ != t@,
        decreases v@.len() - i,
    {
        if str_equal(v[i].as_str(), t) {
            assert(texts(v@)[i as int] == t@);
            return true;
        }
        i = i + 1;
    }
    assert(!texts(v@).contains(t@)) by {
        if texts(v@).contains(t@) {
            let j = choose|j: int| 0 <= j < texts(v@).len() && texts(v@)[j] == t@;
            assert(v@[j]@ == t@);
        }
    }
    false
}

/// Which capabilities containers may ask for, and which are withheld.
pub struct CapabilityManager {
    pub allowed_capabilities: Vec<String>,
    pub default_denylist: Vec<String>,
}

/// The capabilities containers may ask for are exactly CHOWN,
/// DAC_OVERRIDE, FOWNER, FSETID, KILL, SETGID, SETUID, SETPCAP,
/// NET_BIND_SERVICE and SYS_CHROOT: each alone passes the capability check,
/// and SYS_ADMIN and NET_RAW do not.
pub proof fn lemma_standard_capabilities()
    ensures
        allowed_capabilities().len() == 10,
        allowed_capabilities().contains("CHOWN"@),
        allowed_capabilities().contains("DAC_OVERRIDE"@),
        allowed_capabilities().contains("FOWNER"@),
        allowed_capabilities().contains("FSETID"@),
        allowed_capabilities().contains("KILL"@),
        allowed_capabilities().contains("SETGID"@),
        allowed_capabilities().contains("SETUID"@),
        allowed_capabilities().contains("SETPCAP"@),
        allowed_capabilities().contains("NET_BIND_SERVICE"@),
        allowed_capabilities().contains("SYS_CHROOT"@),
        first_invalid(seq!["NET_BIND_SERVICE"@]) is None,
        first_invalid(seq!["CHOWN"@, "KILL"@, "SYS_CHROOT"@]) is None,
        !allowed_capabilities().contains("SYS_ADMIN"@),
        !allowed_capabilities().contains("NET_RAW"@),
{
    let a = allowed_capabilities();
    assert(a[0] == "CHOWN"@);
    assert(a[1] == "DAC_OVERRIDE"@);
    assert(a[2] == "FOWNER"@);
    assert(a[3] == "FSETID"@);
    assert(a[4] == "KILL"@);
    assert(a[5] == "SETGID"@);
    assert(a[6] == "SETUID"@);
    assert(a[7] == "SETPCAP"@);
    assert(a[8] == "NET_BIND_SERVICE"@);
    assert(a[9] == "SYS_CHROOT"@);
    reveal_strlit("CHOWN");
    reveal_strlit("DAC_OVERRIDE");
    reveal_strlit("FOWNER");
    reveal_strlit("FSETID");
    reveal_strlit("KILL");
    reveal_strlit("SETGID");
    reveal_strlit("SETUID");
    reveal_strlit("SETPCAP");
    reveal_strlit("NET_BIND_SERVICE");
    reveal_strlit("SYS_CHROOT");
    reveal_strlit("SYS_ADMIN");
    reveal_strlit("NET_RAW");
    assert(seq!["NET_BIND_SERVICE"@].drop_first() =~= Seq::<Seq<char>>::empty());
    let t = seq!["CHOWN"@, "KILL"@, "SYS_CHROOT"@];
    assert(t.drop_first() =~= seq!["KILL"@, "SYS_CHROOT"@]);
    assert(t.drop_first().drop_first() =~= seq!["SYS_CHROOT"@]);
    assert(t.drop_first().drop_first().drop_first() =~= Seq::<Seq<char>>::empty());
    reveal_with_fuel(first_invalid, 4);
    assert("CHOWN"@.len() == 5 && "DAC_OVERRIDE"@.len() == 12 && "FOWNER"@.len() == 6 && "FSETID"@.len() == 6);
    assert("KILL"@.len() == 4 && "SETGID"@.len() == 6 && "SETUID"@.len() == 6 && "SETPCAP"@.len() == 7);
    assert("NET_BIND_SERVICE"@.len() == 16 && "SYS_CHROOT"@.len() == 10 && "SYS_ADMIN"@.len() == 9);
    assert("NET_RAW"@.len() == 7 && "NET_RAW"@[0] == 'N' && "SETPCAP"@[0] == 'S');
    assert(!a.contains("SYS_ADMIN"@)) by {
        assert forall|i: int| 0 <= i < a.len() implies a[i].len() != 9 by {}
    }
    assert(!a.contains("NET_RAW"@)) by {
        assert forall|i: int| 0 <= i < a.len() implies a[i] != "NET_RAW"@ by {
            if i == 7 {
                assert(a[i][0] != "NET_RAW"@[0]);
            } else {
                assert(a[i].len() != 7);
            }
        }
    }
}

/// The capabilities granted for `requested`: those allowed and not withheld,
/// each once, in the order first asked for.
pub open spec fn granted(requested: Seq<Seq<char>>) -> Seq<Seq<char>>
    decreases requested.len(),
{
    if requested.len() == 0 {
        Seq::empty()
    } else {
        let rest = granted(requested.drop_last());
        let c = requested.last();
        if allowed_capabilities().contains(c) && !denied_capabilities().contains(c) && !rest.contains(c) {
            rest.push(c)
        } else {
            rest
        }
    }
}

impl CapabilityManager {
    /// The allowed capabilities and the withheld ones.
    pub fn new() -> (m: Self)
        ensures
            texts(m.allowed_capabilities@) == allowed_capabilities(),
            texts(m.default_denylist@) == denied_capabilities(),
            texts(m.allowed_capabilities@).contains("CHOWN"@),
            texts(m.allowed_capabilities@).contains("DAC_OVERRIDE"@),
            texts(m.allowed_capabilities@).contains("FOWNER"@),
            texts(m.allowed_capabilities@).contains("FSETID"@),
            texts(m.allowed_capabilities@).contains("KILL"@),
            texts(m.allowed_capabilities@).contains("SETGID"@),
            texts(m.allowed_capabilities@).contains("SETUID"@),
            texts(m.allowed_capabilities@).contains("SETPCAP"@),
            texts(m.allowed_capabilities@).contains("NET_BIND_SERVICE"@),
            texts(m.allowed_capabilities@).contains("SYS_CHROOT"@),
            texts(m.allowed_capabilities@).len() == 10,
    {
        proof {
            lemma_standard_capabilities();
        }
        let allowed = strings(
            &[
                "CHOWN",
                "DAC_OVERRIDE",
                "FOWNER",
                "FSETID",
                "KILL",
                "SETGID",
                "SETUID",
                "SETPCAP",
                "NET_BIND_SERVICE",
                "SYS_CHROOT",
            ],
        );
        let denied = strings(
            &[
                "AUDIT_CONTROL",
                "AUDIT_WRITE",
                "BLOCK_SUSPEND",
                "DAC_READ_SEARCH",
                "EXECVE",
                "IPC_LOCK",
                "IPC_OWNER",
                "LINUX_IMMUTABLE",
                "MAC_ADMIN",
                "MAC_OVERRIDE",
                "MKNOD",
                "NET_ADMIN",
                "NET_RAW",
                "PERFMON",
                "SETFCAP",
                "SETPCAP",
                "SYS_ADMIN",
                "SYS_BOOT",
                "SYSLOG",
                "SYS_MODULE",
                "SYS_NICE",
                "SYS_PACCT",
                "SYS_PTRACE",
                "SYS_RAWIO",
                "SYS_RESOURCE",
                "SYS_TIME",
                "SYS_TTY_CONFIG",
                "WAKE_ALARM",
            ],
        );
        let m = CapabilityManager { allowed_capabilities: allowed, default_denylist: denied };
        assert(texts(m.allowed_capabilities@) =~= allowed_capabilities());
        assert(texts(m.default_denylist@) =~= denied_capabilities());
        m
    }

    /// Whether containers may ask for `capability`.
    pub fn is_valid_capability(&self, capability: &str) -> (b: bool)
        ensures
            b == texts(self.allowed_capabilities@).contains(capability@),
    {
        contains_text(&self.allowed_capabilities, capability)
    }

    /// The capabilities granted for `requested` under this manager's lists:
    /// those allowed and not withheld, each once, in the order first asked
    /// for.
    pub fn effective_capabilities(&self, requested: &Vec<String>) -> (caps: Vec<String>)
        requires
            texts(self.allowed_capabilities@) == allowed_capabilities(),
            texts(self.default_denylist@) == denied_capabilities(),
        ensures
            texts(caps@) == granted(texts(requested@)),
    {
        let mut caps: Vec<String> = Vec::new();
        let mut i: usize = 0;
        while i < requested.len()
            invariant
                i <= requested@.len(),
                texts(self.allowed_capabilities@) == allowed_capabilities(),
                texts(self.default_denylist@) == denied_capabilities(),
                texts(caps@) == granted(texts(requested@).take(i as int)),
            decreases requested@.len() - i,
        {
            let c = requested[i].as_str();
            proof {
                assert(texts(requested@).take(i + 1).drop_last() =~= texts(requested@).take(i as int));
                assert(texts(requested@).take(i + 1).last() == requested@[i as int]@);
            }
            if contains_text(&self.allowed_capabilities, c) && !contains_text(&self.default_denylist, c)
                && !contains_text(&caps, c) {
                caps.push(string_of(c));
                assert(texts(caps@) =~= granted(texts(requested@).take(i + 1)));
            } else {
                assert(texts(caps@) =~= granted(texts(requested@).take(i + 1)));
            }
            i = i + 1;
        }
        assert(texts(requested@).take(requested@.len() as int) =~= texts(requested@));
        caps
    }
}

/// `name` under directory `dir`: `name` itself when it is absolute, else
/// `dir`, a slash when `dir` does not end with one, and `name`.
pub open spec fn joined_path(dir: Seq<char>, name: Seq<char>) -> Seq<char> {
    if name.len() > 0 && name[0] == '/' {
        name
    } else if dir.len() == 0 || dir.last() == '/' {
        dir + name
    } else {
        dir + "/"@ + name
    }
}

/// `name` under directory `dir` (see `joined_path`).
pub fn join_path(dir: &str, name: &str) -> (p: String)
    ensures
        p@ == joined_path(dir@, name@),
{
    let n = name.unicode_len();
    if n > 0 && name.get_char(0) == '/' {
        return string_of(name);
    }
    let d = dir.unicode_len();
    let mut p = string_of(dir);
    if d > 0 && dir.get_char(d - 1) != '/' {
        push_text(&mut p, "/");
    }
    push_text(&mut p, name);
    p
}

/// Whether something exists at `path`, from `std::path::Path::exists`. It
/// depends on the file system: nothing is claimed of the answer.
#[verifier::external_body]
pub(crate) fn path_exists(path: &str) -> (b: bool) {
    std::path::Path::new(path).exists()
}

/// The AppArmor profiles, one file per profile in `profile_dir`.
pub struct AppArmorManager {
    pub profile_dir: String,
}

impl AppArmorManager {
    /// Profiles in `/etc/multios/apparmor.d`.
    pub fn new() -> (m: Self)
        ensures
            m.profile_dir@ == "/etc/multios/apparmor.d"@,
    {
        AppArmorManager { profile_dir: string_of("/etc/multios/apparmor.d") }
    }

    /// The file of profile `profile_name`.
    pub fn profile_path(&self, profile_name: &str) -> (p: String)
        ensures
            p@ == joined_path(self.profile_dir@, profile_name@),
    {
        join_path(self.profile_dir.as_str(), profile_name)
    }

    /// Whether the file of profile `profile_name` exists; the answer depends
    /// on the file system.
    pub fn profile_exists(&self, profile_name: &str) -> (b: bool) {
        let p = self.profile_path(profile_name);
        path_exists(p.as_str())
    }
}

/// The seccomp profiles, one `.json` file per profile in `profiles_dir`.
pub struct SeccompManager {
    pub profiles_dir: String,
}

impl SeccompManager {
    /// Profiles in `/etc/multios/seccomp.d`.
    pub fn new() -> (m: Self)
        ensures
            m.profiles_dir@ == "/etc/multios/seccomp.d"@,
    {
        SeccompManager { profiles_dir: string_of("/etc/multios/seccomp.d") }
    }

    /// The file of profile `profile_name`: its name with `.json` added.
    pub fn profile_path(&self, profile_name: &str) -> (p: String)
        ensures
            p@ == joined_path(self.profiles_dir@, profile_name@ + ".json"@),
    {
        let mut file = string_of(profile_name);
        push_text(&mut file, ".json");
        join_path(self.profiles_dir.as_str(), file.as_str())
    }

    /// Whether the file of profile `profile_name` exists; the answer depends
    /// on the file system.
    pub fn profile_exists(&self, profile_name: &str) -> (b: bool) {
        let p = self.profile_path(profile_name);
        path_exists(p.as_str())
    }

    /// The binary form of a filter: for each rule its action (four bytes),
    /// its system call number (four bytes, two's complement) and its
    /// argument count (one byte), then for each argument its value and mask
    /// (eight bytes each) and its operator (one byte), all little-endian.
    pub fn serialize_seccomp_filter(&self, filter: &SeccompFilter) -> (r: Result<Vec<u8>, ContainerError>)
        ensures
            r matches Ok(data) && data@ == filter_bytes(filter.default_action@),
    {
        let mut data: Vec<u8> = Vec::new();
        let mut i: usize = 0;
        while i < filter.default_action.len()
            invariant
                i <= filter.default_action@.len(),
                data@ == filter_bytes(filter.default_action@.take(i as int)),
            decreases filter.default_action@.len() - i,
        {
            let rule = &filter.default_action[i];
            let ghost before = data@;
            push_le(&mut data, rule.action as u64, 4);
            push_le(&mut data, bits_of_i32(rule.syscall_number), 4);
            push_le(&mut data, rule.args_count as u64, 1);
            let ghost head = data@;
            let mut k: usize = 0;
            while k < rule.args.len()
                invariant
                    k <= rule.args@.len(),
                    data@ == head + args_bytes(rule.args@.take(k as int)),
                decreases rule.args@.len() - k,
            {
                let arg = &rule.args[k];
                push_le(&mut data, arg.value, 8);
                push_le(&mut data, arg.mask, 8);
                push_le(&mut data, arg.op as u64, 1);
                proof {
                    assert(rule.args@.take(k + 1).drop_last() =~= rule.args@.take(k as int));
                }
                k = k + 1;
                assert(data@ =~= head + args_bytes(rule.args@.take(k as int)));
            }
            proof {
                assert(rule.args@.take(rule.args@.len() as int) =~= rule.args@);
                assert(filter.default_action@.take(i + 1).drop_last() =~= filter.default_action@.take(i as int));
            }
            i = i + 1;
            assert(data@ =~= filter_bytes(filter.default_action@.take(i as int)));
        }
        assert(filter.default_action@.take(filter.default_action@.len() as int) =~= filter.default_action@);
        Ok(data)
    }
}

/// The bytes of one rule's arguments.
pub open spec fn args_bytes(args: Seq<SeccompArg>) -> Seq<u8>
    decreases args.len(),
{
    if args.len() == 0 {
        Seq::empty()
    } else {
        let a = args.last();
        args_bytes(args.drop_last()) + le_bytes(a.value as nat, 8) + le_bytes(a.mask as nat, 8) + le_bytes(
            a.op as nat,
            1,
        )
    }
}

/// The bytes of a list of rules.
pub open spec fn filter_bytes(rules: Seq<SeccompRule>) -> Seq<u8>
    decreases rules.len(),
{
    if rules.len() == 0 {
        Seq::empty()
    } else {
        let r = rules.last();
        filter_bytes(rules.drop_last()) + le_bytes(r.action as nat, 4) + le_bytes(u32_of_i32(r.syscall_number), 4)
            + le_bytes(r.args_count as nat, 1) + args_bytes(r.args@)
    }
}

/// A seccomp filter.
pub struct SeccompFilter {
    pub default_action: Vec<SeccompRule>,
    pub architectures: Vec<String>,
}

/// A seccomp rule.
pub struct SeccompRule {
    pub action: u32,
    pub syscall_number: i32,
    pub args_count: u8,
    pub args: Vec<SeccompArg>,
}

/// A seccomp rule argument.
#[derive(Clone, Copy, PartialEq, Eq, Debug, Structural)]
pub struct SeccompArg {
    pub index: u8,
    pub value: u64,
    pub mask: u64,
    pub op: u8,
}

/// A security-relevant event in a container; details are key/value pairs.
pub struct SecurityAudit {
    pub container_id: String,
    pub timestamp: u64,
    pub event_type: SecurityEvent,
    pub details: Vec<(String, String)>,
}

/// Kinds of security events.
#[derive(Clone, Copy, PartialEq, Eq, Debug, Structural)]
pub enum SecurityEvent {
    PrivilegeEscalationAttempt,
    UnauthorizedCapability,
    AppArmorViolation,
    SeccompViolation,
    NamespaceBreach,
    FilesystemAccessViolation,
    NetworkPolicyViolation,
}

/// The identity mapping given to containers with a user namespace.
pub open spec fn id_map_text() -> Seq<char> {
    "0 100000 65536"@
}

/// The first capability in `caps` that containers may not ask for.
pub open spec fn first_invalid(caps: Seq<Seq<char>>) -> Option<Seq<char>>
    decreases caps.len(),
{
    if caps.len() == 0 {
        None
    } else if !allowed_capabilities().contains(caps[0]) {
        Some(caps[0])
    } else {
        first_invalid(caps.drop_first())
    }
}

/// The verdict on a security configuration, given whether its AppArmor and
/// seccomp profiles exist: the first capability not allowed, then a missing
/// AppArmor profile, then a missing seccomp profile, make it a security
/// violation with that message.
pub open spec fn security_verdict(
    caps: Seq<Seq<char>>,
    apparmor: Option<Seq<char>>,
    apparmor_found: bool,
    seccomp: Option<Seq<char>>,
    seccomp_found: bool,
) -> Option<Seq<char>> {
    match first_invalid(caps) {
        Some(c) => Some("Invalid capability: "@ + c),
        None => if apparmor is Some && !apparmor_found {
            Some("AppArmor profile not found: "@ + apparmor.unwrap())
        } else if seccomp is Some && !seccomp_found {
            Some("Seccomp profile not found: "@ + seccomp.unwrap())
        } else {
            None
        },
    }
}

/// The text of an optional string.
pub open spec fn opt_text(o: Option<String>) -> Option<Seq<char>> {
    match o {
        Some(s) => Some(s@),
        None => None,
    }
}

/// Whether `r` is the outcome `verdict` describes.
pub open spec fn verdict_agrees(r: Result<(), ContainerError>, verdict: Option<Seq<char>>) -> bool {
    match verdict {
        None => r is Ok,
        Some(m) => r matches Err(ContainerError::SecurityViolation(x)) && x@ == m,
    }
}

/// Security management: the capability lists, the profile stores and the
/// security context of each container.
pub struct SecurityManager {
    pub security_contexts: Vec<ContextEntry>,
    pub capability_manager: CapabilityManager,
    pub apparmor_manager: AppArmorManager,
    pub seccomp_manager: SeccompManager,
}

impl SecurityManager {
    /// The invariant: one context per container, and the standard
    /// capability lists.
    pub open spec fn wf(&self) -> bool {
        &&& unique_names(self.security_contexts@)
        &&& texts(self.capability_manager.allowed_capabilities@) == allowed_capabilities()
        &&& texts(self.capability_manager.default_denylist@) == denied_capabilities()
    }

    /// The contexts by container.
    pub open spec fn contexts(&self) -> Map<Seq<char>, ContextEntry> {
        name_map(self.security_contexts@)
    }

    /// No contexts, the standard capability lists and profile directories.
    pub fn new() -> (m: Self)
        ensures
            m.wf(),
            m.contexts() == Map::<Seq<char>, ContextEntry>::empty(),
            m.security_contexts@.len() == 0,
            m.apparmor_manager.profile_dir@ == "/etc/multios/apparmor.d"@,
            m.seccomp_manager.profiles_dir@ == "/etc/multios/seccomp.d"@,
    {
        let m = SecurityManager {
            security_contexts: Vec::new(),
            capability_manager: CapabilityManager::new(),
            apparmor_manager: AppArmorManager::new(),
            seccomp_manager: SeccompManager::new(),
        };
        assert(m.contexts() =~= Map::<Seq<char>, ContextEntry>::empty());
        m
    }

    /// Checks a security configuration given whether its profiles exist
    /// (see `security_verdict`).
    pub fn check_security_config(&self, security: &SecurityConfig, apparmor_found: bool, seccomp_found: bool) -> (r:
        Result<(), ContainerError>)
        requires
            self.wf(),
        ensures
            verdict_agrees(
                r,
                security_verdict(
                    texts(security.capabilities@),
                    opt_text(security.apparmor_profile),
                    apparmor_found,
                    opt_text(security.seccomp_profile),
                    seccomp_found,
                ),
            ),
    {
        let mut i: usize = 0;
        assert(texts(security.capabilities@).skip(0) =~= texts(security.capabilities@));
        while i < security.capabilities.len()
            invariant
                self.wf(),
                i <= security.capabilities@.len(),
                first_invalid(texts(security.capabilities@)) == first_invalid(texts(security.capabilities@).skip(i as int)),
            decreases security.capabilities@.len() - i,
        {
            let c = security.capabilities[i].as_str();
            proof {
                let rest = texts(security.capabilities@).skip(i as int);
                assert(rest[0] == c@);
                assert(rest.drop_first() =~= texts(security.capabilities@).skip(i + 1));
            }
            if !self.capability_manager.is_valid_capability(c) {
                let mut m = string_of("Invalid capability: ");
                push_text(&mut m, c);
                return Err(ContainerError::SecurityViolation(m));
            }
            i = i + 1;
        }
        proof {
            assert(texts(security.capabilities@).skip(i as int).len() == 0);
        }
        if let Some(p) = &security.apparmor_profile {
            if !apparmor_found {
                let mut m = string_of("AppArmor profile not found: ");
                push_text(&mut m, p.as_str());
                return Err(ContainerError::SecurityViolation(m));
            }
        }
        if let Some(p) = &security.seccomp_profile {
            if !seccomp_found {
                let mut m = string_of("Seccomp profile not found: ");
                push_text(&mut m, p.as_str());
                return Err(ContainerError::SecurityViolation(m));
            }
        }
        Ok(())
    }

    /// Checks a security configuration: every capability must be one
    /// containers may ask for, and the AppArmor and seccomp profiles it
    /// names must exist. Whether a profile exists depends on the file
    /// system; the outcome is the verdict for what was found.
    pub fn validate_security_config(&self, security: &SecurityConfig) -> (r: Result<(), ContainerError>)
        requires
            self.wf(),
        ensures
            exists|a: bool, s: bool|
                verdict_agrees(
                    r,
                    #[trigger] security_verdict(
                        texts(security.capabilities@),
                        opt_text(security.apparmor_profile),
                        a,
                        opt_text(security.seccomp_profile),
                        s,
                    ),
                ),
            first_invalid(texts(security.capabilities@)) matches Some(c) ==> (r matches Err(
                ContainerError::SecurityViolation(x),
            ) && x@ == "Invalid capability: "@ + c),
            first_invalid(texts(security.capabilities@)) is None && security.apparmor_profile is None
                && security.seccomp_profile is None ==> r is Ok,
    {
        let apparmor_found = match &security.apparmor_profile {
            Some(p) => self.apparmor_manager.profile_exists(p.as_str()),
            None => true,
        };
        let seccomp_found = match &security.seccomp_profile {
            Some(p) => self.seccomp_manager.profile_exists(p.as_str()),
            None => true,
        };
        self.check_security_config(security, apparmor_found, seccomp_found)
    }

    /// Files the security context of container `container_id` for
    /// `security`: its capabilities and profiles, and the identity mapping
    /// for user and group ids when it has a user namespace.
    pub fn setup_security_context(&mut self, container_id: &str, security: &SecurityConfig)
        requires
            old(self).wf(),
        ensures
            final(self).wf(),
            final(self).contexts().dom() == old(self).contexts().dom().insert(container_id@),
            final(self).capability_manager == old(self).capability_manager,
            final(self).apparmor_manager == old(self).apparmor_manager,
            final(self).seccomp_manager == old(self).seccomp_manager,
            forall|k: Seq<char>|
                k != container_id@ && #[trigger] old(self).contexts().contains_key(k) ==> final(self).contexts()[k]
                    == old(self).contexts()[k],
            ({
                let c = final(self).contexts()[container_id@].context;
                &&& texts(c.capabilities@) == texts(security.capabilities@)
                &&& opt_text(c.apparmor_profile) == opt_text(security.apparmor_profile)
                &&& opt_text(c.seccomp_profile) == opt_text(security.seccomp_profile)
                &&& opt_text(c.uid_map) == (if security.user_namespace {
                    Some(id_map_text())
                } else {
                    None
                })
                &&& opt_text(c.gid_map) == opt_text(c.uid_map)
            }),
    {
        let caps = copy_strings(&security.capabilities);
        let context = SecurityContext {
            capabilities: caps,
            apparmor_profile: copy_opt(&security.apparmor_profile),
            seccomp_profile: copy_opt(&security.seccomp_profile),
            uid_map: if security.user_namespace {
                Some(string_of("0 100000 65536"))
            } else {
                None
            },
            gid_map: if security.user_namespace {
                Some(string_of("0 100000 65536"))
            } else {
                None
            },
        };
        upsert_named(&mut self.security_contexts, ContextEntry { container_id: string_of(container_id), context });
        proof {
            assert(self.contexts().dom() =~= old(self).contexts().dom().insert(container_id@));
        }
    }

    /// The security context of container `container_id`; `NotFound` when
    /// it has none.
    pub fn get_security_context(&self, container_id: &str) -> (r: Result<&SecurityContext, ContainerError>)
        requires
            self.wf(),
        ensures
            self.contexts().contains_key(container_id@) ==> (r matches Ok(c) && *c
                == self.contexts()[container_id@].context),
            !self.contexts().contains_key(container_id@) ==> (r matches Err(ContainerError::NotFound(m)) && m@
                == "Security context for container "@ + container_id@ + " not found"@),
    {
        match find_name(&self.security_contexts, container_id) {
            Some(i) => {
                proof {
                    crate::keyed::lemma_name_index(self.security_contexts@, i as int);
                }
                Ok(&self.security_contexts[i].context)
            },
            None => {
                let mut m = string_of("Security context for container ");
                push_text(&mut m, container_id);
                push_text(&mut m, " not found");
                Err(ContainerError::NotFound(m))
            },
        }
    }

    /// Drops the security context of container `container_id`, if any.
    pub fn remove_security_context(&mut self, container_id: &str) -> (r: Result<(), ContainerError>)
        requires
            old(self).wf(),
        ensures
            final(self).wf(),
            r is Ok,
            final(self).contexts() == old(self).contexts().remove(container_id@),
    {
        let _ = remove_named(&mut self.security_contexts, container_id);
        Ok(())
    }

    /// The capabilities to apply to a container that is not privileged: the
    /// ones it asks for, or when it asks for none, CHOWN, SETGID and SETUID.
    pub fn restricted_capabilities(&self, security: &SecurityConfig) -> (caps: Vec<String>)
        ensures
            texts(caps@) == if security.capabilities@.len() == 0 {
                seq!["CHOWN"@, "SETGID"@, "SETUID"@]
            } else {
                texts(security.capabilities@)
            },
    {
        if security.capabilities.len() == 0 {
            let v = vec![string_of("CHOWN"), string_of("SETGID"), string_of("SETUID")];
            assert(texts(v@) =~= seq!["CHOWN"@, "SETGID"@, "SETUID"@]);
            v
        } else {
            copy_strings(&security.capabilities)
        }
    }
}

/// A copy of a list of strings.
pub fn copy_strings(v: &Vec<String>) -> (c: Vec<String>)
    ensures
        c@ == v@,
{
    let mut c: Vec<String> = Vec::new();
    let mut i: usize = 0;
    while i < v.len()
        invariant
            i <= v@.len(),
            c@ == v@.take(i as int),
        decreases v@.len() - i,
    {
        c.push(v[i].clone());
        i = i + 1;
        assert(c@ =~= v@.take(i as int));
    }
    assert(v@.take(v@.len() as int) =~= v@);
    c
}

/// The texts of an optional list of strings.
pub open spec fn opt_texts(o: Option<Vec<String>>) -> Option<Seq<Seq<char>>> {
    match o {
        Some(v) => Some(texts(v@)),
        None => None,
    }
}

/// A copy of an optional list of strings.
pub fn copy_opt_strings(o: &Option<Vec<String>>) -> (c: Option<Vec<String>>)
    ensures
        opt_texts(c) == opt_texts(*o),
{
    match o {
        Some(v) => Some(copy_strings(v)),
        None => None,
    }
}

/// A copy of an optional string.
pub fn copy_opt(o: &Option<String>) -> (c: Option<String>)
    ensures
        c == *o,
{
    match o {
        Some(s) => Some(s.clone()),
        None => None,
    }
}

/// `s` with every occurrence of `from` replaced by `to`, scanning left to
/// right without overlaps.
pub open spec fn replaced(s: Seq<char>, from: Seq<char>, to: Seq<char>) -> Seq<char>
    decreases s.len(),
{
    if from.len() == 0 || s.len() < from.len() {
        s
    } else if s.take(from.len() as int) == from {
        to + replaced(s.skip(from.len() as int), from, to)
    } else {
        seq![s[0]] + replaced(s.drop_first(), from, to)
    }
}

/// `s` with every occurrence of `from` replaced by `to` (see `replaced`).
pub fn replace_all(s: &str, from: &str, to: &str) -> (r: String)
    requires
        from@.len() > 0,
    ensures
        r@ == replaced(s@, from@, to@),
{
    let chars = crate::text::chars_of(s);
    let pat = crate::text::chars_of(from);
    let n = chars.len();
    let m = pat.len();
    let mut out = String::new();
    let mut i: usize = 0;
    assert(s@.skip(0) =~= s@);
    assert(out@ + replaced(s@.skip(0), from@, to@) =~= replaced(s@, from@, to@));
    while i < n
        invariant
            chars@ == s@,
            pat@ == from@,
            n == s@.len(),
            m == from@.len(),
            m > 0,
            i <= n,
            out@ + replaced(s@.skip(i as int), from@, to@) == replaced(s@, from@, to@),
        decreases n - i,
    {
        let ghost rest = s@.skip(i as int);
        let mut matched = m <= n - i;
        let mut k: usize = 0;
        while matched && k < m
            invariant
                chars@ == s@,
                pat@ == from@,
                n == s@.len(),
                m == from@.len(),
                i < n,
                k <= m,
                rest == s@.skip(i as int),
                matched ==> i + m <= n,
                matched ==> forall|j: int| 0 <= j < k ==> s@[i + j] == from@[j],
                !matched ==> !(i + m <= n && rest.take(m as int) == from@),
            decreases m - k,
        {
            if chars[i + k] != pat[k] {
                matched = false;
                proof {
                    if i + m <= n && rest.take(m as int) == from@ {
                        assert(rest.take(m as int)[k as int] == s@[i + k]);
                    }
                }
            }
            k = k + 1;
        }
        if matched {
            proof {
                assert(rest.take(m as int) =~= from@) by {
                    assert forall|j: int| 0 <= j < m implies rest.take(m as int)[j] == from@[j] by {
                        assert(rest.take(m as int)[j] == s@[i + j]);
                    }
                }
                assert(rest.skip(m as int) =~= s@.skip(i + m));
            }
            push_text(&mut out, to);
            i = i + m;
        } else {
            proof {
                if rest.len() >= m {
                    assert(rest.take(m as int) != from@);
                }
                assert(rest.drop_first() =~= s@.skip(i + 1));
                assert(rest[0] == chars@[i as int]);
            }
            crate::text::push_char(&mut out, chars[i]);
            proof {
                assert(out@ + replaced(s@.skip(i + 1), from@, to@) =~= replaced(s@, from@, to@));
            }
            i = i + 1;
        }
    }
    proof {
        assert(s@.skip(n as int).len() == 0);
        assert(out@ =~= out@ + replaced(s@.skip(n as int), from@, to@));
    }
    out
}

/// The AppArmor profile of container `container_id` made from the base
/// profile `content`: a comment line naming the container, then the base
/// profile with `multios-container` renamed `multios-container-` and the
/// container's identifier.
pub fn container_profile_text(container_id: &str, content: &str) -> (p: String)
    ensures
        p@ == "# Container profile for "@ + container_id@ + "\n"@ + replaced(
            content@,
            "multios-container"@,
            "multios-container-"@ + container_id@,
        ),
{
    let mut name = string_of("multios-container-");
    push_text(&mut name, container_id);
    proof {
        reveal_strlit("multios-container");
    }
    let body = replace_all(content, "multios-container", name.as_str());
    let mut p = string_of("# Container profile for ");
    push_text(&mut p, container_id);
    push_text(&mut p, "\n");
    push_text(&mut p, body.as_str());
    p
}

} // verus!
