//! The compose `ports` and `volumes` shorthand
//! (`host:container`), read into port bindings and mounts.
use crate::error::ComposeError;
use crate::text::{after_first, before_first, contains_text, has_char, split_first, view_all};
use vstd::prelude::*;

verus! {

/// The host side of a `host:container` shorthand.
pub open spec fn host_part(s: Seq<char>) -> Seq<char> {
    before_first(s, ':')
}

/// The container side of a `host:container` shorthand (a third segment, if
/// any, is not part of it).
pub open spec fn container_part(s: Seq<char>) -> Seq<char> {
    before_first(after_first(s, ':'), ':')
}

pub open spec fn tcp(port: Seq<char>) -> Seq<char> {
    port + seq!['/', 't', 'c', 'p']
}

pub open spec fn any_host() -> Seq<char> {
    seq!['0', '.', '0', '.', '0', '.', '0']
}

/// A host port bound to a container port.
pub struct PortBinding {
    /// The container port with its protocol, as `8080/tcp`.
    pub container_port: String,
    /// The host address the port is bound on.
    pub host_ip: String,
    /// The host port.
    pub host_port: String,
}

impl PortBinding {
    /// What the binding of shorthand `s` holds: the container side over TCP,
    /// bound on every host address at the host side.
    pub open spec fn is_binding_of(&self, s: Seq<char>) -> bool {
        &&& self.container_port@ == tcp(container_part(s))
        &&& self.host_ip@ == any_host()
        &&& self.host_port@ == host_part(s)
    }
}

/// Reads one port shorthand `host:container`; a shorthand without a colon
/// is an error.
pub fn parse_port(s: &str) -> (r: Result<PortBinding, ComposeError>)
    ensures
        s@.contains(':') <==> r is Ok,
        r matches Ok(b) ==> b.is_binding_of(s@),
        r matches Err(e) ==> e matches ComposeError::InvalidPort(p) && p@ == s@,
{
    if !has_char(s, ':') {
        return Err(ComposeError::InvalidPort(s.to_owned()));
    }
    let (host, rest) = split_first(s, ':');
    let (container, _) = split_first(rest.as_str(), ':');
    let suffix = "/tcp";
    let any = "0.0.0.0";
    proof {
        reveal_strlit("/tcp");
        reveal_strlit("0.0.0.0");
    }
    assert(suffix@ =~= seq!['/', 't', 'c', 'p']);
    assert(any@ =~= any_host());
    let mut container_port = container;
    container_port.append(suffix);
    Ok(PortBinding { container_port, host_ip: any.to_owned(), host_port: host })
}

/// The index of the first shorthand in `v` without a colon, if any.
pub open spec fn first_without_colon(v: Seq<Seq<char>>, i: int) -> bool {
    &&& 0 <= i < v.len()
    &&& !v[i].contains(':')
    &&& forall|j: int| 0 <= j < i ==> v[j].contains(':')
}

/// Reads the port shorthands of a service, in order. The first shorthand
/// without a colon makes it an error.
pub fn port_bindings(ports: &Vec<String>) -> (r: Result<Vec<PortBinding>, ComposeError>)
    ensures
        r is Ok <==> forall|i: int| 0 <= i < ports@.len() ==> ports@[i]@.contains(':'),
        r matches Ok(b) ==> b@.len() == ports@.len() && forall|i: int|
            0 <= i < ports@.len() ==> b@[i].is_binding_of(#[trigger] ports@[i]@),
        r matches Err(e) ==> exists|i: int|
            first_without_colon(view_all(ports@), i) && e == ComposeError::InvalidPort(
                #[trigger] ports@[i],
            ),
{
    let mut out: Vec<PortBinding> = Vec::new();
    let mut i: usize = 0;
    while i < ports.len()
        invariant
            0 <= i <= ports@.len(),
            out@.len() == i,
            forall|j: int| 0 <= j < i ==> ports@[j]@.contains(':'),
            forall|j: int| 0 <= j < i ==> out@[j].is_binding_of(#[trigger] ports@[j]@),
        decreases ports.len() - i,
    {
        match parse_port(ports[i].as_str()) {
            Ok(b) => {
                out.push(b);
            },
            Err(e) => {
                assert(first_without_colon(view_all(ports@), i as int));
                return Err(ComposeError::InvalidPort(ports[i].clone()));
            },
        }
        i = i + 1;
    }
    Ok(out)
}

/// The ports a service's container exposes: the first segment of each port
/// shorthand over TCP. For the usual `n:n` shorthand this is the bound
/// container port.
pub fn exposed_ports(ports: &Vec<String>) -> (r: Vec<String>)
    ensures
        r@.len() == ports@.len(),
        forall|i: int| 0 <= i < ports@.len() ==> r@[i]@ == tcp(host_part(#[trigger] ports@[i]@)),
{
    let suffix = "/tcp";
    proof {
        reveal_strlit("/tcp");
    }
    assert(suffix@ =~= seq!['/', 't', 'c', 'p']);
    let mut out: Vec<String> = Vec::new();
    let mut i: usize = 0;
    while i < ports.len()
        invariant
            0 <= i <= ports@.len(),
            out@.len() == i,
            suffix@ == seq!['/', 't', 'c', 'p'],
            forall|j: int| 0 <= j < i ==> out@[j]@ == tcp(host_part(#[trigger] ports@[j]@)),
        decreases ports.len() - i,
    {
        let (host, _) = split_first(ports[i].as_str(), ':');
        let mut port = host;
        port.append(suffix);
        out.push(port);
        i = i + 1;
    }
    out
}

/// Whether a mount is a volume that the engine manages or a bind of a host path.
#[derive(Debug, Clone, Copy, PartialEq, Eq, Structural)]
pub enum MountKind {
    Volume,
    Bind,
}

/// A mount into a container.
pub struct MountSpec {
    /// The host path, or the name of a managed volume.
    pub source: String,
    /// The path inside the container.
    pub target: String,
    pub kind: MountKind,
}

/// The source of a volume shorthand: its host side, where `.` stands for the
/// working directory `cwd`.
pub open spec fn mount_source_of(s: Seq<char>, cwd: Seq<char>) -> Seq<char> {
    if host_part(s) == seq!['.'] {
        cwd
    } else {
        host_part(s)
    }
}

/// A source that names a declared top-level volume is a managed volume; any
/// other source is a bind mount.
pub open spec fn mount_kind_of(source: Seq<char>, declared: Seq<Seq<char>>) -> MountKind {
    if declared.contains(source) {
        MountKind::Volume
    } else {
        MountKind::Bind
    }
}

impl MountSpec {
    /// What the mount of shorthand `s` holds, in working directory `cwd` with
    /// the top-level volumes `declared`.
    pub open spec fn is_mount_of(&self, s: Seq<char>, cwd: Seq<char>, declared: Seq<Seq<char>>) -> bool {
        &&& self.source@ == mount_source_of(s, cwd)
        &&& self.target@ == container_part(s)
        &&& self.kind == mount_kind_of(mount_source_of(s, cwd), declared)
    }
}

/// Reads one volume shorthand `host:container` in working directory
/// `cwd`, with the declared top-level volumes `declared`; a shorthand without
/// a colon is an error.
pub fn parse_volume(s: &str, cwd: &str, declared: &Vec<String>) -> (r: Result<MountSpec, ComposeError>)
    ensures
        s@.contains(':') <==> r is Ok,
        r matches Ok(m) ==> m.is_mount_of(s@, cwd@, view_all(declared@)),
        r matches Err(e) ==> e matches ComposeError::InvalidVolume(p) && p@ == s@,
{
    if !has_char(s, ':') {
        return Err(ComposeError::InvalidVolume(s.to_owned()));
    }
    let (host, rest) = split_first(s, ':');
    let (target, _) = split_first(rest.as_str(), ':');
    let is_dot = host.unicode_len() == 1 && host.as_str().get_char(0) == '.';
    assert(is_dot <==> host@ == seq!['.']) by {
        if host@ == seq!['.'] {
            assert(host@[0] == '.');
        }
        if is_dot {
            assert(host@ =~= seq!['.']);
        }
    }
    let source = if is_dot {
        cwd.to_owned()
    } else {
        host
    };
    let kind = if contains_text(declared, source.as_str()) {
        MountKind::Volume
    } else {
        MountKind::Bind
    };
    Ok(MountSpec { source, target, kind })
}

/// Reads the volume shorthands of a service, in order. The first
/// shorthand without a colon makes it an error.
pub fn mounts(volumes: &Vec<String>, cwd: &str, declared: &Vec<String>) -> (r: Result<Vec<MountSpec>, ComposeError>)
    ensures
        r is Ok <==> forall|i: int| 0 <= i < volumes@.len() ==> volumes@[i]@.contains(':'),
        r matches Ok(m) ==> m@.len() == volumes@.len() && forall|i: int|
            0 <= i < volumes@.len() ==> m@[i].is_mount_of(#[trigger] volumes@[i]@, cwd@, view_all(declared@)),
        r matches Err(e) ==> exists|i: int|
            first_without_colon(view_all(volumes@), i) && e == ComposeError::InvalidVolume(
                #[trigger] volumes@[i],
            ),
{
    let mut out: Vec<MountSpec> = Vec::new();
    let mut i: usize = 0;
    while i < volumes.len()
        invariant
            0 <= i <= volumes@.len(),
            out@.len() == i,
            forall|j: int| 0 <= j < i ==> volumes@[j]@.contains(':'),
            forall|j: int|
                0 <= j < i ==> out@[j].is_mount_of(#[trigger] volumes@[j]@, cwd@, view_all(declared@)),
        decreases volumes.len() - i,
    {
        match parse_volume(volumes[i].as_str(), cwd, declared) {
            Ok(m) => {
                out.push(m);
            },
            Err(e) => {
                assert(first_without_colon(view_all(volumes@), i as int));
                return Err(ComposeError::InvalidVolume(volumes[i].clone()));
            },
        }
        i = i + 1;
    }
    Ok(out)
}

} // verus!
