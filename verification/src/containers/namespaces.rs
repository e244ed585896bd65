//! Linux namespaces for container isolation: the kinds of namespace and
//! their `clone` flags, the handles a container holds, where namespace
//! files live, and the texts written to configure them.
use vstd::prelude::*;
use crate::containers::security::joined_path;
use crate::containers::security::join_path;
use crate::text::{decimal_text, push_decimal, push_text, string_of};

verus! {

/// The value of `libc::CLONE_NEWPID` on Linux, as that crate defines it.
#[verifier::external_body]
fn clone_newpid() -> (f: i32)
    ensures
        f == 0x20000000i32,
{
    libc::CLONE_NEWPID
}

/// The value of `libc::CLONE_NEWNET` on Linux, as that crate defines it.
#[verifier::external_body]
fn clone_newnet() -> (f: i32)
    ensures
        f == 0x40000000i32,
{
    libc::CLONE_NEWNET
}

/// The value of `libc::CLONE_NEWNS` on Linux, as that crate defines it.
#[verifier::external_body]
fn clone_newns() -> (f: i32)
    ensures
        f == 0x20000i32,
{
    libc::CLONE_NEWNS
}

/// The value of `libc::CLONE_NEWIPC` on Linux, as that crate defines it.
#[verifier::external_body]
fn clone_newipc() -> (f: i32)
    ensures
        f == 0x08000000i32,
{
    libc::CLONE_NEWIPC
}

/// Kinds of namespace.
#[derive(Clone, Copy, PartialEq, Eq, Debug, Structural)]
pub enum NamespaceType {
    Pid,
    Network,
    Mount,
    Ipc,
    Uts,
    User,
    Cgroup,
}

/// The `clone`/`unshare` flag of a kind of namespace on Linux.
pub open spec fn clone_flag(t: NamespaceType) -> i32 {
    match t {
        NamespaceType::Pid => 0x20000000,
        NamespaceType::Network => 0x40000000,
        NamespaceType::Mount => 0x20000,
        NamespaceType::Ipc => 0x08000000,
        NamespaceType::Uts => 0x04000000,
        NamespaceType::User => 0x10000000,
        NamespaceType::Cgroup => 0x02000000,
    }
}

/// The file of the calling process's namespace of a kind.
pub open spec fn self_namespace_path(t: NamespaceType) -> Seq<char> {
    match t {
        NamespaceType::Pid => "/proc/self/ns/pid"@,
        NamespaceType::Network => "/proc/self/ns/net"@,
        NamespaceType::Mount => "/proc/self/ns/mnt"@,
        NamespaceType::Ipc => "/proc/self/ns/ipc"@,
        NamespaceType::Uts => "/proc/self/ns/uts"@,
        NamespaceType::User => "/proc/self/ns/user"@,
        NamespaceType::Cgroup => "/proc/self/ns/cgroup"@,
    }
}

impl NamespaceType {
    /// The `clone`/`unshare` flag of this kind, from `libc`.
    pub fn to_clo_flags(&self) -> (f: i32)
        ensures
            f == clone_flag(*self),
    {
        match self {
            NamespaceType::Pid => clone_newpid(),
            NamespaceType::Network => clone_newnet(),
            NamespaceType::Mount => clone_newns(),
            NamespaceType::Ipc => clone_newipc(),
            NamespaceType::Uts => clone_newuts(),
            NamespaceType::User => clone_newuser(),
            NamespaceType::Cgroup => clone_newcgroup(),
        }
    }

    /// The file of the calling process's namespace of this kind.
    pub fn self_path(&self) -> (p: &'static str)
        ensures
            p@ == self_namespace_path(*self),
    {
        match self {
            NamespaceType::Pid => "/proc/self/ns/pid",
            NamespaceType::Network => "/proc/self/ns/net",
            NamespaceType::Mount => "/proc/self/ns/mnt",
            NamespaceType::Ipc => "/proc/self/ns/ipc",
            NamespaceType::Uts => "/proc/self/ns/uts",
            NamespaceType::User => "/proc/self/ns/user",
            NamespaceType::Cgroup => "/proc/self/ns/cgroup",
        }
    }
}

/// The namespaces every container gets, in the order they are created.
pub open spec fn required_namespaces() -> Seq<NamespaceType> {
    seq![
        NamespaceType::Pid,
        NamespaceType::Network,
        NamespaceType::Mount,
        NamespaceType::Ipc,
        NamespaceType::Uts,
        NamespaceType::User,
    ]
}

/// The namespaces every container gets, in the order they are created:
/// process, network, mount, IPC, UTS and user.
pub fn container_namespaces() -> (v: Vec<NamespaceType>)
    ensures
        v@ == required_namespaces(),
{
    let v = vec![
        NamespaceType::Pid,
        NamespaceType::Network,
        NamespaceType::Mount,
        NamespaceType::Ipc,
        NamespaceType::Uts,
        NamespaceType::User,
    ];
    assert(v@ =~= required_namespaces());
    v
}

/// The namespace descriptors a container holds.
#[derive(Clone, Copy, PartialEq, Eq, Debug, Structural)]
pub struct NamespaceHandles {
    pub pid: Option<i32>,
    pub network: Option<i32>,
    pub mount: Option<i32>,
    pub ipc: Option<i32>,
    pub uts: Option<i32>,
    pub user: Option<i32>,
}

/// Whether a container holds every required namespace.
pub open spec fn handles_complete(h: NamespaceHandles) -> bool {
    h.pid is Some && h.network is Some && h.mount is Some && h.ipc is Some && h.uts is Some && h.user is Some
}

impl NamespaceHandles {
    /// No namespace held.
    pub open spec fn default_spec() -> NamespaceHandles {
        NamespaceHandles { pid: None, network: None, mount: None, ipc: None, uts: None, user: None }
    }

    /// No namespaces.
    pub fn default() -> (h: Self)
        ensures
            h == NamespaceHandles::default_spec(),
    {
        NamespaceHandles { pid: None, network: None, mount: None, ipc: None, uts: None, user: None }
    }

    /// Whether every required namespace is held.
    pub fn is_complete(&self) -> (b: bool)
        ensures
            b == handles_complete(*self),
    {
        self.pid.is_some() && self.network.is_some() && self.mount.is_some() && self.ipc.is_some()
            && self.uts.is_some() && self.user.is_some()
    }

    /// Records descriptor `fd` for the namespace of kind `t`; a cgroup
    /// namespace has no slot and changes nothing.
    pub fn set(&mut self, t: NamespaceType, fd: i32)
        ensures
            final(self).pid == if t == NamespaceType::Pid { Some(fd) } else { old(self).pid },
            final(self).network == if t == NamespaceType::Network { Some(fd) } else { old(self).network },
            final(self).mount == if t == NamespaceType::Mount { Some(fd) } else { old(self).mount },
            final(self).ipc == if t == NamespaceType::Ipc { Some(fd) } else { old(self).ipc },
            final(self).uts == if t == NamespaceType::Uts { Some(fd) } else { old(self).uts },
            final(self).user == if t == NamespaceType::User { Some(fd) } else { old(self).user },
    {
        match t {
            NamespaceType::Pid => self.pid = Some(fd),
            NamespaceType::Network => self.network = Some(fd),
            NamespaceType::Mount => self.mount = Some(fd),
            NamespaceType::Ipc => self.ipc = Some(fd),
            NamespaceType::Uts => self.uts = Some(fd),
            NamespaceType::User => self.user = Some(fd),
            NamespaceType::Cgroup => {},
        }
    }

    /// The descriptors held, in the order pid, network, mount, IPC, UTS,
    /// user.
    pub fn held(&self) -> (fds: Vec<i32>)
        ensures
            fds@ == seq![self.pid, self.network, self.mount, self.ipc, self.uts, self.user].filter(
                |o: Option<i32>| o is Some,
            ).map_values(|o: Option<i32>| o.unwrap()),
    {
        let all = [self.pid, self.network, self.mount, self.ipc, self.uts, self.user];
        let ghost s = seq![self.pid, self.network, self.mount, self.ipc, self.uts, self.user];
        let ghost pred = |o: Option<i32>| o is Some;
        assert(all@ =~= s);
        let mut fds: Vec<i32> = Vec::new();
        let mut i: usize = 0;
        while i < 6
            invariant
                i <= 6,
                all@ == s,
                s.len() == 6,
                pred == (|o: Option<i32>| o is Some),
                fds@ == s.take(i as int).filter(pred).map_values(|o: Option<i32>| o.unwrap()),
            decreases 6 - i,
        {
            proof {
                assert(s.take(i + 1) =~= s.take(i as int).push(s[i as int]));
                crate::keyed::lemma_filter_push(s.take(i as int), pred, s[i as int]);
            }
            if let Some(fd) = all[i] {
                fds.push(fd);
            }
            i = i + 1;
            assert(fds@ =~= s.take(i as int).filter(pred).map_values(|o: Option<i32>| o.unwrap()));
        }
        assert(s.take(6) =~= s);
        fds
    }
}

/// Where namespace files are found.
pub struct NamespaceManager {
    pub proc_path: String,
    pub namespace_path: String,
}

impl NamespaceManager {
    /// `/proc` and `/var/run/multios/namespaces`.
    pub fn new() -> (m: Self)
        ensures
            m.proc_path@ == "/proc"@,
            m.namespace_path@ == "/var/run/multios/namespaces"@,
    {
        NamespaceManager {
            proc_path: string_of("/proc"),
            namespace_path: string_of("/var/run/multios/namespaces"),
        }
    }

    /// The directory of container `container_id`'s namespace files.
    pub fn namespace_dir(&self, container_id: &str) -> (p: String)
        ensures
            p@ == joined_path(self.namespace_path@, container_id@),
    {
        join_path(self.namespace_path.as_str(), container_id)
    }
}

/// The veth device of container `container_id`.
pub open spec fn veth_name(container_id: Seq<char>) -> Seq<char> {
    "veth_"@ + container_id
}

/// The veth device of container `container_id`.
pub fn veth_device(container_id: &str) -> (s: String)
    ensures
        s@ == veth_name(container_id@),
{
    let mut s = string_of("veth_");
    push_text(&mut s, container_id);
    s
}

/// The lines of a `resolv.conf` naming each server in turn.
pub open spec fn resolv_conf(servers: Seq<Seq<char>>) -> Seq<char>
    decreases servers.len(),
{
    if servers.len() == 0 {
        Seq::empty()
    } else {
        resolv_conf(servers.drop_last()) + "nameserver "@ + servers.last() + "\n"@
    }
}

/// The `resolv.conf` text for `dns_servers`: one `nameserver` line each.
pub fn resolv_conf_text(dns_servers: &Vec<String>) -> (s: String)
    ensures
        s@ == resolv_conf(dns_servers@.map_values(|d: String| d@)),
{
    let ghost ds = dns_servers@.map_values(|d: String| d@);
    let mut s = String::new();
    let mut i: usize = 0;
    while i < dns_servers.len()
        invariant
            i <= dns_servers@.len(),
            ds == dns_servers@.map_values(|d: String| d@),
            s@ == resolv_conf(ds.take(i as int)),
        decreases dns_servers@.len() - i,
    {
        push_text(&mut s, "nameserver ");
        push_text(&mut s, dns_servers[i].as_str());
        push_text(&mut s, "\n");
        proof {
            assert(ds.take(i + 1).drop_last() =~= ds.take(i as int));
        }
        i = i + 1;
        assert(s@ =~= resolv_conf(ds.take(i as int)));
    }
    assert(ds.take(dns_servers@.len() as int) =~= ds);
    s
}

/// The identity mapping of a user or group id `id` onto root: `0 id 1`.
pub open spec fn root_mapping(id: u32) -> Seq<char> {
    "0 "@ + decimal_text(id as nat) + " 1\n"@
}

/// The mapping line that makes host id `id` root in the namespace.
pub fn root_mapping_text(id: u32) -> (s: String)
    ensures
        s@ == root_mapping(id),
{
    let mut s = string_of("0 ");
    push_decimal(&mut s, id as u64);
    push_text(&mut s, " 1\n");
    s
}

/// A saved set of namespaces.
pub struct NamespaceSnapshot {
    pub container_id: String,
    pub handles: NamespaceHandles,
    pub creation_time: u64,
    pub config: NamespaceConfig,
}

/// How namespaces are set up; mount propagation is a list of mount
/// point/mode pairs.
pub struct NamespaceConfig {
    pub enable_user_ns: bool,
    pub enable_network_ns: bool,
    pub hostname: Option<String>,
    pub domainname: Option<String>,
    pub uid_map: Option<String>,
    pub gid_map: Option<String>,
    pub mount_propagation: Vec<(String, String)>,
}

impl NamespaceConfig {
    /// User and network namespaces, no names, root mapped to root.
    pub fn default() -> (c: Self)
        ensures
            c.enable_user_ns,
            c.enable_network_ns,
            c.hostname is None,
            c.domainname is None,
            c.uid_map matches Some(m) && m@ == "0 0 1"@,
            c.gid_map matches Some(m) && m@ == "0 0 1"@,
            c.mount_propagation@.len() == 0,
    {
        NamespaceConfig {
            enable_user_ns: true,
            enable_network_ns: true,
            hostname: None,
            domainname: None,
            uid_map: Some(string_of("0 0 1")),
            gid_map: Some(string_of("0 0 1")),
            mount_propagation: Vec::new(),
        }
    }
}

/// The value of `libc::CLONE_NEWUTS` on Linux, as that crate defines it.
#[verifier::external_body]
fn clone_newuts() -> (f: i32)
    ensures
        f == 67108864i32,
{
    libc::CLONE_NEWUTS
}

/// The value of `libc::CLONE_NEWUSER` on Linux, as that crate defines it.
#[verifier::external_body]
fn clone_newuser() -> (f: i32)
    ensures
        f == 268435456i32,
{
    libc::CLONE_NEWUSER
}

/// The value of `libc::CLONE_NEWCGROUP` on Linux, as that crate defines it.
#[verifier::external_body]
fn clone_newcgroup() -> (f: i32)
    ensures
        f == 33554432i32,
{
    libc::CLONE_NEWCGROUP
}

} // verus!
