//! The services of a compose document, and the container that the up driver
//! creates for a service.
use crate::command::{command_args, shell_words_of, ComposeCommand};
use crate::environment::{env_entries, environment, EnvPair};
use crate::error::ComposeError;
use crate::naming::{alias_of, container_name_of, network_name_of, user_name_of, Project};
use crate::text::view_all;
use crate::shorthand::{
    exposed_ports, first_without_colon, host_part, mounts, port_bindings, tcp, MountSpec, PortBinding,
};
use vstd::prelude::*;

verus! {

/// What a service declares.
pub struct ServiceConfig {
    /// The image to run; without one, an image tagged with the service name is
    /// built from the project's `Dockerfile`.
    pub image: Option<String>,
    pub command: Option<ComposeCommand>,
    /// `host:container` port shorthands.
    pub ports: Option<Vec<String>>,
    /// `host:container` volume shorthands.
    pub volumes: Option<Vec<String>>,
    pub environment: Option<Vec<EnvPair>>,
    /// The paths of the service's env files.
    pub env_files: Option<Vec<String>>,
}

/// A service as the document declares it, its configuration possibly missing.
pub struct ServiceDecl {
    pub name: String,
    pub config: Option<ServiceConfig>,
}

/// A compose document.
pub struct ComposeDoc {
    /// Whether the document is of schema version 3 or later.
    pub supported_version: bool,
    /// The declared services in document order, if the section is there.
    pub services: Option<Vec<ServiceDecl>>,
    /// The names of the top-level volumes.
    pub volumes: Vec<String>,
}

/// A service with its configuration.
pub struct Service {
    pub name: String,
    pub config: ServiceConfig,
}

/// The first service without configuration is at `i`.
pub open spec fn first_without_config(v: Seq<ServiceDecl>, i: int) -> bool {
    &&& 0 <= i < v.len()
    &&& v[i].config is None
    &&& forall|j: int| 0 <= j < i ==> v[j].config is Some
}

/// The services of a document, in order. A document of an older schema
/// version, one without a `services` section, and one with a service that has
/// no configuration are refused, in that order of precedence.
pub fn document_services(doc: ComposeDoc) -> (r: Result<Vec<Service>, ComposeError>)
    ensures
        !doc.supported_version ==> r == Err::<Vec<Service>, ComposeError>(ComposeError::UnsupportedVersion),
        doc.supported_version && doc.services is None ==> r == Err::<Vec<Service>, ComposeError>(
            ComposeError::MissingServices,
        ),
        doc.supported_version && doc.services is Some ==> ({
            let decls = doc.services->Some_0@;
            &&& r is Ok <==> forall|i: int| 0 <= i < decls.len() ==> decls[i].config is Some
            &&& r matches Ok(s) ==> s@.len() == decls.len() && forall|i: int|
                0 <= i < decls.len() ==> (#[trigger] s@[i]).name == decls[i].name && Some(s@[i].config)
                    == decls[i].config
            &&& r matches Err(e) ==> exists|i: int|
                first_without_config(decls, i) && (e matches ComposeError::MissingServiceConfig(n) && n@
                    == (#[trigger] decls[i]).name@)
        }),
{
    if !doc.supported_version {
        return Err(ComposeError::UnsupportedVersion);
    }
    let decls = match doc.services {
        Some(d) => d,
        None => {
            return Err(ComposeError::MissingServices);
        },
    };
    let ghost orig = decls@;
    let mut i: usize = 0;
    while i < decls.len()
        invariant
            decls@ == orig,
            doc.supported_version,
            doc.services == Some(decls),
            0 <= i <= orig.len(),
            forall|j: int| 0 <= j < i ==> orig[j].config is Some,
        decreases decls.len() - i,
    {
        if decls[i].config.is_none() {
            assert(first_without_config(orig, i as int));
            return Err(ComposeError::MissingServiceConfig(decls[i].name.clone()));
        }
        i = i + 1;
    }
    let mut decls = decls;
    let mut rev: Vec<Service> = Vec::new();
    // Services are taken from the back; `rev` holds them last first.
    while decls.len() > 0
        invariant
            decls@ == orig.subrange(0, decls@.len() as int),
            doc.supported_version,
            doc.services->Some_0@ == orig,
            decls@.len() + rev@.len() == orig.len(),
            forall|j: int| 0 <= j < orig.len() ==> orig[j].config is Some,
            forall|k: int|
                0 <= k < rev@.len() ==> (#[trigger] rev@[k]).name == orig[orig.len() - 1 - k].name && Some(
                    rev@[k].config,
                ) == orig[orig.len() - 1 - k].config,
        decreases decls@.len(),
    {
        let d = decls.pop().unwrap();
        let c = d.config.unwrap();
        rev.push(Service { name: d.name, config: c });
    }
    let mut out: Vec<Service> = Vec::new();
    while rev.len() > 0
        invariant
            out@.len() + rev@.len() == orig.len(),
            doc.supported_version,
            doc.services->Some_0@ == orig,
            forall|k: int|
                0 <= k < rev@.len() ==> (#[trigger] rev@[k]).name == orig[orig.len() - 1 - k].name && Some(
                    rev@[k].config,
                ) == orig[orig.len() - 1 - k].config,
            forall|i: int|
                0 <= i < out@.len() ==> (#[trigger] out@[i]).name == orig[i].name && Some(out@[i].config)
                    == orig[i].config,
        decreases rev@.len(),
    {
        let s = rev.pop().unwrap();
        out.push(s);
    }
    Ok(out)
}

/// The container names of the services, in order.
pub fn service_container_names(project: &Project, services: &Vec<Service>) -> (r: Vec<String>)
    ensures
        r@.len() == services@.len(),
        forall|i: int|
            0 <= i < services@.len() ==> r@[i]@ == container_name_of(
                project.name@,
                (#[trigger] services@[i]).name@,
                project.hash@,
            ),
{
    let mut out: Vec<String> = Vec::new();
    let mut i: usize = 0;
    while i < services.len()
        invariant
            0 <= i <= services@.len(),
            out@.len() == i,
            forall|j: int|
                0 <= j < i ==> out@[j]@ == container_name_of(
                    project.name@,
                    (#[trigger] services@[j]).name@,
                    project.hash@,
                ),
        decreases services.len() - i,
    {
        out.push(project.container_name(services[i].name.as_str()));
        i = i + 1;
    }
    out
}

/// The container that the up driver creates for a service.
pub struct ContainerPlan {
    /// The container's name.
    pub name: String,
    /// The image to run.
    pub image: String,
    /// Whether that image is first built from the project's `Dockerfile`.
    pub build: bool,
    /// The user to run as; `None` leaves the image's own.
    pub user: Option<String>,
    pub cmd: Option<Vec<String>>,
    pub port_bindings: Option<Vec<PortBinding>>,
    pub exposed_ports: Vec<String>,
    pub mounts: Option<Vec<MountSpec>>,
    pub env: Option<Vec<String>>,
    /// The network the container joins.
    pub network: String,
    /// The names it is reached by on that network.
    pub aliases: Vec<String>,
}

pub open spec fn all_have_colon(v: Option<Vec<String>>) -> bool {
    v matches Some(x) ==> forall|i: int| 0 <= i < x@.len() ==> x@[i]@.contains(':')
}

pub open spec fn optional_seq<T>(v: Option<Vec<T>>) -> Seq<T> {
    match v {
        Some(x) => x@,
        None => Seq::empty(),
    }
}

impl ContainerPlan {
    /// What the plan of service `s` of `project` holds, with the top-level
    /// volumes `declared` and the contents `files` of the service's env files.
    pub open spec fn is_plan_of(
        &self,
        project: Project,
        s: Service,
        declared: Seq<Seq<char>>,
        files: Seq<Seq<char>>,
    ) -> bool {
        let c = s.config;
        &&& self.name@ == container_name_of(project.name@, s.name@, project.hash@)
        &&& self.network@ == network_name_of(project.name@)
        &&& self.aliases@.len() == 2
        &&& self.aliases@[0]@ == alias_of(project.name@, s.name@)
        &&& self.aliases@[1]@ == s.name@
        &&& match c.image {
            Some(img) => self.image@ == img@ && !self.build && self.user is None,
            None => self.image@ == s.name@ && self.build && (self.user matches Some(u) && u@ == user_name_of(
                project.name@,
            )),
        }
        &&& match c.command {
            Some(ComposeCommand::Text(t)) => match self.cmd {
                Some(w) => shell_words_of(t@) == Some(view_all(w@)),
                None => shell_words_of(t@) is None,
            },
            _ => self.cmd is None,
        }
        &&& match c.ports {
            Some(ps) => self.port_bindings matches Some(b) && b@.len() == ps@.len() && forall|i: int|
                0 <= i < ps@.len() ==> b@[i].is_binding_of(#[trigger] ps@[i]@),
            None => self.port_bindings is None,
        }
        &&& self.exposed_ports@.len() == optional_seq(c.ports).len()
        &&& forall|i: int|
            0 <= i < optional_seq(c.ports).len() ==> self.exposed_ports@[i]@ == tcp(
                host_part(#[trigger] optional_seq(c.ports)[i]@),
            )
        &&& match c.volumes {
            Some(vs) => self.mounts matches Some(m) && m@.len() == vs@.len() && forall|i: int|
                0 <= i < vs@.len() ==> m@[i].is_mount_of(#[trigger] vs@[i]@, project.dir@, declared),
            None => self.mounts is None,
        }
        &&& ({
            let all = env_entries(optional_seq(c.environment), files);
            &&& self.env is None <==> all.len() == 0
            &&& self.env matches Some(v) ==> view_all(v@) == all
        })
    }
}

/// The container of service `s` of `project`, where `declared` are the
/// document's top-level volumes and `env_files` the contents of the service's
/// env files in order. Shorthands without a colon are refused (volumes before
/// ports), then a command in list form.
pub fn plan_container(project: &Project, s: &Service, declared: &Vec<String>, env_files: &Vec<String>) -> (r:
    Result<ContainerPlan, ComposeError>)
    ensures
        r is Ok <==> all_have_colon(s.config.volumes) && all_have_colon(s.config.ports) && !(
        s.config.command matches Some(ComposeCommand::Args(_))),
        r matches Ok(p) ==> p.is_plan_of(*project, *s, view_all(declared@), view_all(env_files@)),
        !all_have_colon(s.config.volumes) ==> (r matches Err(e) && exists|i: int|
            first_without_colon(view_all(optional_seq(s.config.volumes)), i) && e
                == ComposeError::InvalidVolume(#[trigger] optional_seq(s.config.volumes)[i])),
        all_have_colon(s.config.volumes) && !all_have_colon(s.config.ports) ==> (r matches Err(e)
            && exists|i: int|
            first_without_colon(view_all(optional_seq(s.config.ports)), i) && e == ComposeError::InvalidPort(
                #[trigger] optional_seq(s.config.ports)[i],
            )),
        all_have_colon(s.config.volumes) && all_have_colon(s.config.ports) && (s.config.command matches Some(
            ComposeCommand::Args(_),
        )) ==> (r matches Err(e) && (e matches ComposeError::UnsupportedCommand(n) && n@ == s.name@)),
{
    let c = &s.config;
    let mounts = match &c.volumes {
        Some(vs) => match mounts(vs, project.dir.as_str(), declared) {
            Ok(m) => Some(m),
            Err(e) => {
                proof {
                    let i = choose|i: int|
                        first_without_colon(view_all(vs@), i) && e == ComposeError::InvalidVolume(
                            #[trigger] vs@[i],
                        );
                    assert(optional_seq(c.volumes) == vs@);
                    assert(optional_seq(s.config.volumes)[i] == vs@[i]);
                }
                return Err(e);
            },
        },
        None => None,
    };
    let (bindings, exposed) = match &c.ports {
        Some(ps) => match port_bindings(ps) {
            Ok(b) => (Some(b), exposed_ports(ps)),
            Err(e) => {
                proof {
                    let i = choose|i: int|
                        first_without_colon(view_all(ps@), i) && e == ComposeError::InvalidPort(#[trigger] ps@[i]);
                    assert(optional_seq(c.ports) == ps@);
                    assert(optional_seq(s.config.ports)[i] == ps@[i]);
                }
                return Err(e);
            },
        },
        None => (None, Vec::new()),
    };
    let cmd = match command_args(s.name.as_str(), &c.command) {
        Ok(a) => a,
        Err(e) => {
            return Err(e);
        },
    };
    let (image, build, user) = match &c.image {
        Some(img) => (img.clone(), false, None),
        None => (s.name.clone(), true, Some(project.user_name())),
    };
    let env = environment(&c.environment, env_files);
    Ok(ContainerPlan {
        name: project.container_name(s.name.as_str()),
        image,
        build,
        user,
        cmd,
        port_bindings: bindings,
        exposed_ports: exposed,
        mounts,
        env,
        network: project.network_name(),
        aliases: project.aliases(s.name.as_str()),
    })
}

} // verus!
