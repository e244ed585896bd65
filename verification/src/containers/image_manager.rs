//! Container images: how an image is named and where its files lie, what
//! its metadata says, and the decisions of pulling, creating, listing,
//! extracting and removing images. Reading, writing and hashing files is
//! left to the caller, which hands this module what it found.
use vstd::prelude::*;
use crate::containers::{
    ContainerConfig, ContainerError, NamespaceMode, NetworkConfig, ResourceLimits, SecurityConfig, copy_pairs,
    pair_texts,
};
use crate::containers::security::{
    copy_opt, copy_opt_strings, copy_strings, joined_path, join_path, opt_text, opt_texts, path_exists, replace_all,
    replaced, strings, texts,
};
use crate::encoding::{pieces, split_char};
use crate::ids::{fresh_id, now_millis, uuid_string, uuid_text};
use crate::keyed::{Named, name_map, remove_named, str_equal, unique_names};
use crate::text::{has_prefix, lower_hex_text, push_lower_hex, push_text, starts_with, string_of};

verus! {

/// A parsed image reference.
pub struct ImageSpec {
    pub name: String,
    pub tag: String,
    pub registry: String,
    pub namespace: String,
}

/// What is recorded of an image. Times are in milliseconds since the Unix
/// epoch; the labels are name/value pairs.
pub struct ImageMetadata {
    pub name: String,
    pub tag: String,
    pub id: String,
    pub created: u64,
    pub size: u64,
    pub layers: Vec<String>,
    pub architecture: String,
    pub os: String,
    pub description: String,
    pub author: String,
    pub version: String,
    pub working_dir: Option<String>,
    pub entrypoint: Option<Vec<String>>,
    pub cmd: Option<Vec<String>>,
    pub env: Vec<(String, String)>,
    pub volumes: Vec<String>,
    pub exposed_ports: Vec<u16>,
    pub labels: Vec<(String, String)>,
}

/// What is recorded of a layer.
pub struct LayerMetadata {
    pub size: u64,
    pub digest: String,
    pub created: u64,
    pub instruction: String,
}

/// An image as listed.
pub struct ImageInfo {
    pub id: String,
    pub name: String,
    pub tag: String,
    pub size: u64,
    pub created: u64,
    pub layers: usize,
    pub description: String,
}

/// Everything known of an image.
pub struct ImageDetails {
    pub metadata: ImageMetadata,
    pub layers: Vec<LayerInfo>,
    pub configuration: ImageConfig,
    pub history: Vec<ImageHistoryEntry>,
}

/// A layer as described.
pub struct LayerInfo {
    pub id: String,
    pub size: u64,
    pub digest: String,
    pub created: u64,
    pub instruction: String,
}

/// How containers of an image run.
pub struct ImageConfig {
    pub env: Vec<(String, String)>,
    pub cmd: Option<Vec<String>>,
    pub entrypoint: Option<Vec<String>>,
    pub working_dir: Option<String>,
    pub exposed_ports: Vec<u16>,
    pub volumes: Vec<String>,
    pub labels: Vec<(String, String)>,
    pub hostname: Option<String>,
    pub user: Option<String>,
    pub attach_stdin: bool,
    pub attach_stdout: bool,
    pub attach_stderr: bool,
    pub tty: bool,
    pub open_stdin: bool,
    pub stdin_once: bool,
}

/// What an image is made from.
pub struct ImageCreationConfig {
    pub name: String,
    pub tag: String,
    pub source_path: String,
    pub description: String,
    pub author: String,
    pub version: String,
    pub working_dir: Option<String>,
    pub entrypoint: Option<Vec<String>>,
    pub cmd: Option<Vec<String>>,
    pub env: Vec<(String, String)>,
    pub volumes: Vec<String>,
    pub exposed_ports: Vec<u16>,
    pub labels: Vec<(String, String)>,
}

impl ImageCreationConfig {
    /// An unnamed image tagged `latest`, by `MultiOS System`, version
    /// `1.0`, working in `/`, with nothing else.
    pub fn default() -> (c: Self)
        ensures
            c.name@.len() == 0,
            c.tag@ == "latest"@,
            c.source_path@.len() == 0,
            c.description@.len() == 0,
            c.author@ == "MultiOS System"@,
            c.version@ == "1.0"@,
            c.working_dir matches Some(w) && w@ == "/"@,
            c.entrypoint is None,
            c.cmd is None,
            c.env@.len() == 0,
            c.volumes@.len() == 0,
            c.exposed_ports@.len() == 0,
            c.labels@.len() == 0,
    {
        ImageCreationConfig {
            name: String::new(),
            tag: string_of("latest"),
            source_path: String::new(),
            description: String::new(),
            author: string_of("MultiOS System"),
            version: string_of("1.0"),
            working_dir: Some(string_of("/")),
            entrypoint: None,
            cmd: None,
            env: Vec::new(),
            volumes: Vec::new(),
            exposed_ports: Vec::new(),
            labels: Vec::new(),
        }
    }
}

/// One step of an image's history.
pub struct ImageHistoryEntry {
    pub id: String,
    pub created: u64,
    pub size: u64,
    pub instruction: String,
    pub comment: Option<String>,
}

/// An image laid out for a container.
pub struct ExtractedImage {
    pub rootfs_path: String,
    pub layers: Vec<String>,
    pub config: ContainerConfig,
    pub metadata: ImageMetadata,
}

/// A layer held in the cache.
pub struct ImageLayer {
    pub id: String,
    pub path: String,
    pub metadata: LayerMetadata,
    pub created_at: u64,
}

impl Named for ImageLayer {
    open spec fn name_of(&self) -> Seq<char> {
        self.id@
    }

    fn name(&self) -> (k: &str) {
        self.id.as_str()
    }
}

/// What pulling an image comes to.
pub enum PullAction {
    /// The image is already there, under this reference.
    AlreadyPresent(String),
    /// The image is built from the teaching template of this name.
    FromTemplate(String),
    /// The image is recorded with this metadata, as if fetched from a
    /// mirror, under this reference.
    FromMirror(ImageMetadata, String),
}

/// Whether an image reference names a teaching template.
pub open spec fn is_template_reference(spec: Seq<char>) -> bool {
    has_prefix(spec, "edu:"@) || has_prefix(spec, "multios:edu-"@)
}

/// The name and tag an image reference gives, when it has at most one
/// colon: no colon means tag `latest`.
pub open spec fn spec_parts(spec: Seq<char>) -> Option<(Seq<char>, Seq<char>)> {
    let ps = pieces(spec, ':');
    if ps.len() == 1 {
        Some((ps[0], "latest"@))
    } else if ps.len() == 2 {
        Some((ps[0], ps[1]))
    } else {
        None
    }
}

/// `name:tag`.
pub open spec fn reference_text(name: Seq<char>, tag: Seq<char>) -> Seq<char> {
    name + ":"@ + tag
}

/// Whether `m` is what a mirror pull records for image `name:tag`: fresh
/// identifiers, one megabyte, amd64 Linux, a teaching description, and a
/// shell in `/root`.
pub open spec fn mirror_metadata_of(m: ImageMetadata, name: Seq<char>, tag: Seq<char>) -> bool {
    &&& m.name@ == name
    &&& m.tag@ == tag
    &&& exists|u: u128| m.id@ == "sha256:"@ + replaced(#[trigger] uuid_text(u), "-"@, ""@)
    &&& m.size == 1_048_576
    &&& m.layers@.len() == 1
    &&& exists|u: u128| m.layers@[0]@ == replaced(#[trigger] uuid_text(u), "-"@, ""@)
    &&& m.architecture@ == "amd64"@
    &&& m.os@ == "linux"@
    &&& m.description@ == "Educational image for "@ + name
    &&& m.author@ == "MultiOS Educational System"@
    &&& m.version@ == "1.0"@
    &&& m.working_dir matches Some(w) && w@ == "/root"@
    &&& opt_texts(m.entrypoint) == Some(seq!["/bin/sh"@])
    &&& m.cmd is None
    &&& m.env@.len() == 0
    &&& m.volumes@.len() == 0
    &&& m.exposed_ports@.len() == 0
    &&& m.labels@.len() == 0
}

/// Whether `r` is what pulling image `spec` comes to when the image
/// `name:tag` is (`present`) or is not already recorded.
pub open spec fn pull_outcome(r: Result<PullAction, ContainerError>, spec: Seq<char>, present: bool) -> bool {
    match spec_parts(spec) {
        None => r matches Err(ContainerError::InvalidConfig(m)) && m@ == "Invalid image specification: "@ + spec,
        Some((name, tag)) => if present {
            r matches Ok(PullAction::AlreadyPresent(x)) && x@ == reference_text(name, tag)
        } else if is_template_reference(spec) {
            r matches Ok(PullAction::FromTemplate(t)) && t@ == spec
        } else {
            r matches Ok(PullAction::FromMirror(m, x)) && x@ == reference_text(name, tag) && mirror_metadata_of(
                m,
                name,
                tag,
            )
        },
    }
}

/// The verdict on an image to create from `name` and `source_path`, when
/// the source does (`source_exists`) or does not exist.
pub open spec fn image_config_verdict(name: Seq<char>, source_path: Seq<char>, source_exists: bool) -> Option<
    Seq<char>,
> {
    if name.len() == 0 {
        Some("Image name cannot be empty"@)
    } else if source_path.len() == 0 {
        Some("Source path cannot be empty"@)
    } else if !source_exists {
        Some("Source path does not exist"@)
    } else {
        None
    }
}

/// Whether `r` carries the verdict `v`: success for none, else an
/// invalid-configuration error with its message.
pub open spec fn image_verdict_agrees(r: Result<(), ContainerError>, v: Option<Seq<char>>) -> bool {
    match v {
        None => r is Ok,
        Some(m) => r matches Err(ContainerError::InvalidConfig(x)) && x@ == m,
    }
}

/// The value given last for `key` among name/value pairs, if any.
pub open spec fn last_value(cs: Seq<(Seq<char>, Seq<char>)>, key: Seq<char>) -> Option<Seq<char>>
    decreases cs.len(),
{
    if cs.len() == 0 {
        None
    } else if cs.last().0 == key {
        Some(cs.last().1)
    } else {
        last_value(cs.drop_last(), key)
    }
}

/// `o`'s text when there is one, else `d`.
pub open spec fn or_else(o: Option<Seq<char>>, d: Seq<char>) -> Seq<char> {
    match o {
        Some(v) => v,
        None => d,
    }
}

/// The layers of `found` whose metadata was found, each with its
/// identifier, as (identifier, size, digest, created, instruction).
pub open spec fn found_layers(found: Seq<(String, Option<LayerMetadata>)>) -> Seq<
    (Seq<char>, u64, Seq<char>, u64, Seq<char>),
>
    decreases found.len(),
{
    if found.len() == 0 {
        Seq::empty()
    } else {
        let rest = found_layers(found.drop_last());
        match found.last().1 {
            Some(m) => rest.push((found.last().0@, m.size, m.digest@, m.created, m.instruction@)),
            None => rest,
        }
    }
}

/// A layer description as (identifier, size, digest, created,
/// instruction).
pub open spec fn layer_info_view(l: LayerInfo) -> (Seq<char>, u64, Seq<char>, u64, Seq<char>) {
    (l.id@, l.size, l.digest@, l.created, l.instruction@)
}

/// The host name of containers of image `image_name`: `container-` and
/// the name with colons made dashes.
pub open spec fn container_host_name(image_name: Seq<char>) -> Seq<char> {
    "container-"@ + replaced(image_name, ":"@, "-"@)
}

/// Whether `c` is how containers of image `image_name` with metadata `m`
/// run: the image's environment, command, entrypoint, directory, ports,
/// volumes and labels, the host name `container-<name>`, and no user or
/// attached streams.
pub open spec fn image_config_of(c: ImageConfig, image_name: Seq<char>, m: ImageMetadata) -> bool {
    &&& pair_texts(c.env@) == pair_texts(m.env@)
    &&& opt_texts(c.cmd) == opt_texts(m.cmd)
    &&& opt_texts(c.entrypoint) == opt_texts(m.entrypoint)
    &&& opt_text(c.working_dir) == opt_text(m.working_dir)
    &&& c.exposed_ports@ == m.exposed_ports@
    &&& texts(c.volumes@) == texts(m.volumes@)
    &&& pair_texts(c.labels@) == pair_texts(m.labels@)
    &&& c.hostname matches Some(h) && h@ == container_host_name(image_name)
    &&& c.user is None
    &&& !c.attach_stdin && !c.attach_stdout && !c.attach_stderr
    &&& !c.tty && !c.open_stdin && !c.stdin_once
}

/// Whether `c` is the container configuration made from image
/// `image_name` with metadata `m`: named `container-<name>`, running the
/// image's command in its environment, with default limits, security,
/// network and namespaces, and a fresh identifier.
pub open spec fn container_config_of(c: ContainerConfig, image_name: Seq<char>, m: ImageMetadata) -> bool {
    &&& exists|u: u128| c.container_id@ == uuid_text(u)
    &&& c.name@ == container_host_name(image_name)
    &&& c.image@ == image_name
    &&& texts(c.command@) == match opt_texts(m.cmd) {
        Some(v) => v,
        None => Seq::<Seq<char>>::empty(),
    }
    &&& pair_texts(c.environment@) == pair_texts(m.env@)
    &&& c.ports@.len() == 0
    &&& c.volumes@.len() == 0
    &&& c.resource_limits == ResourceLimits::unlimited()
    &&& !c.security.privileged
    &&& c.security.capabilities@.len() == 0
    &&& c.network.network_mode is Bridge
    &&& c.network.bridge_name matches Some(b) && b@ == "multios-br0"@
    &&& c.namespace_mode == (NamespaceMode {
        pid: true,
        network: true,
        mount: true,
        ipc: true,
        uts: true,
        user: true,
        cgroup: true,
    })
    &&& c.template_id is None
}

/// A copy of a list of port numbers.
fn copy_ports_u16(v: &Vec<u16>) -> (c: Vec<u16>)
    ensures
        c@ == v@,
{
    let mut c: Vec<u16> = Vec::new();
    let mut i: usize = 0;
    while i < v.len()
        invariant
            i <= v@.len(),
            c@ == v@.take(i as int),
        decreases v@.len() - i,
    {
        c.push(v[i]);
        i = i + 1;
        assert(c@ =~= v@.take(i as int));
    }
    assert(v@.take(v@.len() as int) =~= v@);
    c
}

/// The images and the registry, and a cache of layers.
pub struct ImageManager {
    pub image_root: String,
    pub registry_path: String,
    pub layer_cache: Vec<ImageLayer>,
}

impl ImageManager {
    /// Images under `/var/lib/multios/images`, the registry under
    /// `/var/lib/multios/registry`, and no cached layers.
    pub fn new() -> (m: Self)
        ensures
            m.wf(),
            m.image_root@ == "/var/lib/multios/images"@,
            m.registry_path@ == "/var/lib/multios/registry"@,
            m.layer_cache@.len() == 0,
    {
        ImageManager {
            image_root: string_of("/var/lib/multios/images"),
            registry_path: string_of("/var/lib/multios/registry"),
            layer_cache: Vec::new(),
        }
    }

    /// The invariant: one cached layer per identifier.
    pub open spec fn wf(&self) -> bool {
        unique_names(self.layer_cache@)
    }

    /// The directories the manager needs: the image root, the registry,
    /// and the `layers`, `images`, `metadata` and `manifests` directories
    /// under the root, in that order.
    pub fn directories(&self) -> (v: Vec<String>)
        ensures
            texts(v@) == seq![
                self.image_root@,
                self.registry_path@,
                joined_path(self.image_root@, "layers"@),
                joined_path(self.image_root@, "images"@),
                joined_path(self.image_root@, "metadata"@),
                joined_path(self.image_root@, "manifests"@),
            ],
    {
        let mut v: Vec<String> = Vec::new();
        v.push(self.image_root.clone());
        v.push(self.registry_path.clone());
        v.push(join_path(self.image_root.as_str(), "layers"));
        v.push(join_path(self.image_root.as_str(), "images"));
        v.push(join_path(self.image_root.as_str(), "metadata"));
        v.push(join_path(self.image_root.as_str(), "manifests"));
        assert(texts(v@) =~= seq![
            self.image_root@,
            self.registry_path@,
            joined_path(self.image_root@, "layers"@),
            joined_path(self.image_root@, "images"@),
            joined_path(self.image_root@, "metadata"@),
            joined_path(self.image_root@, "manifests"@),
        ]);
        v
    }

    /// The metadata file of image `image_name`:
    /// `<root>/images/<name>.json`.
    pub fn metadata_path(&self, image_name: &str) -> (p: String)
        ensures
            p@ == joined_path(joined_path(self.image_root@, "images"@), image_name@ + ".json"@),
    {
        let dir = join_path(self.image_root.as_str(), "images");
        let mut name = string_of(image_name);
        push_text(&mut name, ".json");
        join_path(dir.as_str(), name.as_str())
    }

    /// The history file of image `image_name`:
    /// `<root>/images/<name>-history.json`.
    pub fn history_path(&self, image_name: &str) -> (p: String)
        ensures
            p@ == joined_path(joined_path(self.image_root@, "images"@), image_name@ + "-history.json"@),
    {
        let dir = join_path(self.image_root.as_str(), "images");
        let mut name = string_of(image_name);
        push_text(&mut name, "-history.json");
        join_path(dir.as_str(), name.as_str())
    }

    /// The directory of layer `layer_id`: `<root>/layers/<id>`.
    pub fn layer_path(&self, layer_id: &str) -> (p: String)
        ensures
            p@ == joined_path(joined_path(self.image_root@, "layers"@), layer_id@),
    {
        let dir = join_path(self.image_root.as_str(), "layers");
        join_path(dir.as_str(), layer_id)
    }

    /// The content of layer `layer_id`: `<root>/layers/<id>/content`.
    pub fn layer_content_path(&self, layer_id: &str) -> (p: String)
        ensures
            p@ == joined_path(joined_path(joined_path(self.image_root@, "layers"@), layer_id@), "content"@),
    {
        let dir = self.layer_path(layer_id);
        join_path(dir.as_str(), "content")
    }

    /// The file of teaching template `template_id` images are built from:
    /// `/etc/multios/container-templates/<id>.json`.
    pub fn template_config_path(&self, template_id: &str) -> (p: String)
        ensures
            p@ == joined_path("/etc/multios/container-templates"@, template_id@ + ".json"@),
    {
        let mut name = string_of(template_id);
        push_text(&mut name, ".json");
        join_path("/etc/multios/container-templates", name.as_str())
    }

    /// Parses an image reference `name[:tag]`; the tag is `latest` when
    /// absent, the registry `docker.io` and the namespace `library`. More
    /// than one colon is an invalid configuration.
    pub fn parse_image_spec(&self, spec: &str) -> (r: Result<ImageSpec, ContainerError>)
        ensures
            spec_parts(spec@) matches Some((name, tag)) ==> (r matches Ok(s) && s.name@ == name && s.tag@ == tag
                && s.registry@ == "docker.io"@ && s.namespace@ == "library"@),
            spec_parts(spec@) is None ==> (r matches Err(ContainerError::InvalidConfig(m)) && m@
                == "Invalid image specification: "@ + spec@),
    {
        let parts = split_char(spec, ':');
        if parts.len() == 1 {
            Ok(
                ImageSpec {
                    name: parts[0].clone(),
                    tag: string_of("latest"),
                    registry: string_of("docker.io"),
                    namespace: string_of("library"),
                },
            )
        } else if parts.len() == 2 {
            Ok(
                ImageSpec {
                    name: parts[0].clone(),
                    tag: parts[1].clone(),
                    registry: string_of("docker.io"),
                    namespace: string_of("library"),
                },
            )
        } else {
            let mut m = string_of("Invalid image specification: ");
            push_text(&mut m, spec);
            Err(ContainerError::InvalidConfig(m))
        }
    }

    /// `name:tag`.
    pub fn image_reference(&self, name: &str, tag: &str) -> (s: String)
        ensures
            s@ == reference_text(name@, tag@),
    {
        let mut s = string_of(name);
        push_text(&mut s, ":");
        push_text(&mut s, tag);
        s
    }

    /// Whether an image reference names a teaching template: it starts with
    /// `edu:` or `multios:edu-`.
    pub fn is_educational_template(&self, spec: &str) -> (b: bool)
        ensures
            b == is_template_reference(spec@),
    {
        starts_with(spec, "edu:") || starts_with(spec, "multios:edu-")
    }

    /// The metadata a mirror pull records for image `name:tag`.
    pub fn mirror_metadata(&self, name: &str, tag: &str) -> (m: ImageMetadata)
        ensures
            mirror_metadata_of(m, name@, tag@),
    {
        proof {
            reveal_strlit("-");
        }
        let id = fresh_id();
        let mut image_id = string_of("sha256:");
        let hex = replace_all(uuid_string(id).as_str(), "-", "");
        push_text(&mut image_id, hex.as_str());
        let layer = fresh_id();
        let mut layers: Vec<String> = Vec::new();
        layers.push(replace_all(uuid_string(layer).as_str(), "-", ""));
        let mut description = string_of("Educational image for ");
        push_text(&mut description, name);
        let m = ImageMetadata {
            name: string_of(name),
            tag: string_of(tag),
            id: image_id,
            created: now_millis(),
            size: 1_048_576,
            layers,
            architecture: string_of("amd64"),
            os: string_of("linux"),
            description,
            author: string_of("MultiOS Educational System"),
            version: string_of("1.0"),
            working_dir: Some(string_of("/root")),
            entrypoint: Some(strings(&["/bin/sh"])),
            cmd: None,
            env: Vec::new(),
            volumes: Vec::new(),
            exposed_ports: Vec::new(),
            labels: Vec::new(),
        };
        assert(opt_texts(m.entrypoint) =~= Some(seq!["/bin/sh"@]));
        assert(m.layers@[0]@ == replaced(uuid_text(layer), "-"@, ""@));
        m
    }

    /// What pulling image `image_spec` comes to when the image it names is
    /// (`present`) or is not already recorded: nothing to do when it is,
    /// else a build from the teaching template it names, else a record as
    /// if fetched from a mirror. A malformed reference is refused.
    pub fn pull_decision(&self, image_spec: &str, present: bool) -> (r: Result<PullAction, ContainerError>)
        ensures
            pull_outcome(r, image_spec@, present),
    {
        let info = match self.parse_image_spec(image_spec) {
            Ok(info) => info,
            Err(e) => {
                return Err(e);
            },
        };
        let reference = self.image_reference(info.name.as_str(), info.tag.as_str());
        if present {
            return Ok(PullAction::AlreadyPresent(reference));
        }
        if self.is_educational_template(image_spec) {
            return Ok(PullAction::FromTemplate(string_of(image_spec)));
        }
        let m = self.mirror_metadata(info.name.as_str(), info.tag.as_str());
        Ok(PullAction::FromMirror(m, reference))
    }

    /// Pulls image `image_spec`: looks for its metadata file and decides
    /// (see `pull_decision`). Whether the file is there depends on the
    /// file system; the outcome is the decision for what was found.
    pub fn pull_image(&self, image_spec: &str) -> (r: Result<PullAction, ContainerError>)
        ensures
            exists|present: bool| #[trigger] pull_outcome(r, image_spec@, present),
    {
        let present = match self.parse_image_spec(image_spec) {
            Ok(info) => {
                let reference = self.image_reference(info.name.as_str(), info.tag.as_str());
                path_exists(self.metadata_path(reference.as_str()).as_str())
            },
            Err(_) => false,
        };
        let r = self.pull_decision(image_spec, present);
        assert(pull_outcome(r, image_spec@, present));
        r
    }

    /// Whether running containers use image `image_name`. No container is
    /// tracked here, so the answer is always no.
    pub fn is_image_in_use(&self, image_name: &str) -> (r: Result<bool, ContainerError>)
        ensures
            r matches Ok(b) && !b,
    {
        Ok(false)
    }

    /// Drops layer `layer_id` from the cache and gives the directory to
    /// delete.
    pub fn remove_layer(&mut self, layer_id: &str) -> (p: String)
        requires
            old(self).wf(),
        ensures
            final(self).wf(),
            final(self).image_root == old(self).image_root,
            final(self).registry_path == old(self).registry_path,
            name_map(final(self).layer_cache@) == name_map(old(self).layer_cache@).remove(layer_id@),
            p@ == joined_path(joined_path(old(self).image_root@, "layers"@), layer_id@),
    {
        let _ = remove_named(&mut self.layer_cache, layer_id);
        self.layer_path(layer_id)
    }

    /// Removes image `image_name`, whose metadata was read (`Some`) or whose
    /// file is missing (`None`): not found when missing; refused when in use
    /// unless forced; else its layers leave the cache and the directories
    /// of its layers are given, in order, to delete with its metadata file.
    pub fn remove_image(&mut self, image_name: &str, force: bool, metadata: Option<&ImageMetadata>) -> (r: Result<
        Vec<String>,
        ContainerError,
    >)
        requires
            old(self).wf(),
        ensures
            final(self).wf(),
            final(self).image_root == old(self).image_root,
            metadata is None ==> (r matches Err(ContainerError::NotFound(m)) && m@ == "Image "@ + image_name@
                + " not found"@) && final(self).layer_cache@ == old(self).layer_cache@,
            metadata matches Some(md) ==> (r matches Ok(paths) && paths@.len() == md.layers@.len() && (forall|i: int|
                0 <= i < paths@.len() ==> (#[trigger] paths@[i])@ == joined_path(
                    joined_path(old(self).image_root@, "layers"@),
                    md.layers@[i]@,
                )) && (forall|k: Seq<char>|
                #![trigger name_map(final(self).layer_cache@).contains_key(k)]
                name_map(final(self).layer_cache@).contains_key(k) <==> name_map(
                    old(self).layer_cache@,
                ).contains_key(k) && !texts(md.layers@).contains(k))),
    {
        let md = match metadata {
            Some(md) => md,
            None => {
                let mut m = string_of("Image ");
                push_text(&mut m, image_name);
                push_text(&mut m, " not found");
                return Err(ContainerError::NotFound(m));
            },
        };
        let in_use = match self.is_image_in_use(image_name) {
            Ok(b) => b,
            Err(e) => {
                return Err(e);
            },
        };
        if !force && in_use {
            return Err(
                ContainerError::InvalidConfig(
                    string_of("Image is in use by running containers. Use force to remove anyway."),
                ),
            );
        }
        let ghost before = self.layer_cache@;
        let mut paths: Vec<String> = Vec::new();
        let mut i: usize = 0;
        while i < md.layers.len()
            invariant
                self.wf(),
                self.image_root == old(self).image_root,
                before == old(self).layer_cache@,
                i <= md.layers@.len(),
                paths@.len() == i,
                forall|j: int|
                    0 <= j < i ==> (#[trigger] paths@[j])@ == joined_path(
                        joined_path(self.image_root@, "layers"@),
                        md.layers@[j]@,
                    ),
                forall|k: Seq<char>|
                    #![trigger name_map(self.layer_cache@).contains_key(k)]
                    name_map(self.layer_cache@).contains_key(k) <==> name_map(before).contains_key(k) && !texts(
                        md.layers@.take(i as int),
                    ).contains(k),
            decreases md.layers@.len() - i,
        {
            let ghost prev = self.layer_cache@;
            let p = self.remove_layer(md.layers[i].as_str());
            paths.push(p);
            proof {
                assert forall|k: Seq<char>| #![trigger name_map(self.layer_cache@).contains_key(k)]
                    name_map(self.layer_cache@).contains_key(k) <==> name_map(before).contains_key(k) && !texts(
                        md.layers@.take(i + 1),
                    ).contains(k) by {
                    assert(texts(md.layers@.take(i + 1)) =~= texts(md.layers@.take(i as int)).push(md.layers@[i as int]@));
                    vstd::seq_lib::lemma_seq_contains_after_push(
                        texts(md.layers@.take(i as int)),
                        md.layers@[i as int]@,
                        k,
                    );
                    assert(name_map(self.layer_cache@).contains_key(k) <==> name_map(prev).contains_key(k) && k
                        != md.layers@[i as int]@);
                    assert(name_map(prev).contains_key(k) <==> name_map(before).contains_key(k) && !texts(
                        md.layers@.take(i as int),
                    ).contains(k));
                }
            }
            i = i + 1;
        }
        assert(md.layers@.take(md.layers@.len() as int) =~= md.layers@);
        Ok(paths)
    }

    /// The listing of the images whose metadata was read, each given with
    /// its identifier, in the order given.
    pub fn list_images(&self, loaded: &Vec<(String, ImageMetadata)>) -> (v: Vec<ImageInfo>)
        ensures
            v@.len() == loaded@.len(),
            forall|i: int|
                0 <= i < v@.len() ==> {
                    let x = #[trigger] v@[i];
                    let (id, m) = loaded@[i];
                    &&& x.id@ == id@
                    &&& x.name@ == m.name@
                    &&& x.tag@ == m.tag@
                    &&& x.size == m.size
                    &&& x.created == m.created
                    &&& x.layers == m.layers@.len()
                    &&& x.description@ == m.description@
                },
    {
        let mut v: Vec<ImageInfo> = Vec::new();
        let mut i: usize = 0;
        while i < loaded.len()
            invariant
                i <= loaded@.len(),
                v@.len() == i,
                forall|j: int|
                    0 <= j < i ==> {
                        let x = #[trigger] v@[j];
                        let (id, m) = loaded@[j];
                        &&& x.id@ == id@
                        &&& x.name@ == m.name@
                        &&& x.tag@ == m.tag@
                        &&& x.size == m.size
                        &&& x.created == m.created
                        &&& x.layers == m.layers@.len()
                        &&& x.description@ == m.description@
                    },
            decreases loaded@.len() - i,
        {
            let (id, m) = &loaded[i];
            v.push(
                ImageInfo {
                    id: id.clone(),
                    name: m.name.clone(),
                    tag: m.tag.clone(),
                    size: m.size,
                    created: m.created,
                    layers: m.layers.len(),
                    description: m.description.clone(),
                },
            );
            i = i + 1;
        }
        v
    }

    /// The descriptions of the layers whose metadata was found, in order;
    /// layers without metadata are left out.
    pub fn get_layers_info(&self, found: &Vec<(String, Option<LayerMetadata>)>) -> (v: Vec<LayerInfo>)
        ensures
            v@.map_values(|l: LayerInfo| layer_info_view(l)) == found_layers(found@),
    {
        let mut v: Vec<LayerInfo> = Vec::new();
        let mut i: usize = 0;
        while i < found.len()
            invariant
                i <= found@.len(),
                v@.map_values(|l: LayerInfo| layer_info_view(l)) == found_layers(found@.take(i as int)),
            decreases found@.len() - i,
        {
            let (id, m) = &found[i];
            proof {
                assert(found@.take(i + 1).drop_last() =~= found@.take(i as int));
            }
            match m {
                Some(m) => {
                    v.push(
                        LayerInfo {
                            id: id.clone(),
                            size: m.size,
                            digest: m.digest.clone(),
                            created: m.created,
                            instruction: m.instruction.clone(),
                        },
                    );
                },
                None => {},
            }
            i = i + 1;
            assert(v@.map_values(|l: LayerInfo| layer_info_view(l)) =~= found_layers(found@.take(i as int)));
        }
        assert(found@.take(found@.len() as int) =~= found@);
        v
    }

    /// How containers of image `image_name` with metadata `metadata` run.
    pub fn load_image_config(&self, image_name: &str, metadata: &ImageMetadata) -> (c: ImageConfig)
        ensures
            image_config_of(c, image_name@, *metadata),
    {
        proof {
            reveal_strlit(":");
        }
        let mut hostname = string_of("container-");
        let name = replace_all(image_name, ":", "-");
        push_text(&mut hostname, name.as_str());
        ImageConfig {
            env: copy_pairs(&metadata.env),
            cmd: copy_opt_strings(&metadata.cmd),
            entrypoint: copy_opt_strings(&metadata.entrypoint),
            working_dir: copy_opt(&metadata.working_dir),
            exposed_ports: copy_ports_u16(&metadata.exposed_ports),
            volumes: copy_strings(&metadata.volumes),
            labels: copy_pairs(&metadata.labels),
            hostname: Some(hostname),
            user: None,
            attach_stdin: false,
            attach_stdout: false,
            attach_stderr: false,
            tty: false,
            open_stdin: false,
            stdin_once: false,
        }
    }

    /// Everything known of image `image_name`: its metadata, the layers
    /// whose metadata was found, how its containers run, and its history.
    pub fn get_image_info(
        &self,
        image_name: &str,
        metadata: ImageMetadata,
        found_layers_metadata: &Vec<(String, Option<LayerMetadata>)>,
        history: Vec<ImageHistoryEntry>,
    ) -> (d: ImageDetails)
        ensures
            d.metadata == metadata,
            d.layers@.map_values(|l: LayerInfo| layer_info_view(l)) == found_layers(found_layers_metadata@),
            image_config_of(d.configuration, image_name@, metadata),
            d.history == history,
    {
        let layers = self.get_layers_info(found_layers_metadata);
        let configuration = self.load_image_config(image_name, &metadata);
        ImageDetails { metadata, layers, configuration, history }
    }

    /// The container configuration made from image `image_name` with
    /// metadata `metadata`.
    pub fn generate_container_config(&self, image_name: &str, metadata: &ImageMetadata) -> (c: ContainerConfig)
        ensures
            container_config_of(c, image_name@, *metadata),
    {
        proof {
            reveal_strlit(":");
        }
        let mut name = string_of("container-");
        let n = replace_all(image_name, ":", "-");
        push_text(&mut name, n.as_str());
        let command = match &metadata.cmd {
            Some(c) => copy_strings(c),
            None => Vec::new(),
        };
        let id = fresh_id();
        let c = ContainerConfig {
            container_id: uuid_string(id),
            name,
            image: string_of(image_name),
            command,
            environment: copy_pairs(&metadata.env),
            ports: Vec::new(),
            volumes: Vec::new(),
            resource_limits: ResourceLimits::default(),
            security: SecurityConfig::default(),
            network: NetworkConfig::default(),
            namespace_mode: NamespaceMode::default(),
            template_id: None,
            created_at: now_millis(),
        };
        assert(texts(c.command@) =~= match opt_texts(metadata.cmd) {
            Some(v) => v,
            None => Seq::<Seq<char>>::empty(),
        });
        c
    }

    /// Image `image_name` with metadata `metadata`, laid out at
    /// `target_path` (the caller copies the layers there in order).
    pub fn extract_image(&self, image_name: &str, target_path: &str, metadata: ImageMetadata) -> (e: ExtractedImage)
        ensures
            e.rootfs_path@ == target_path@,
            texts(e.layers@) == texts(metadata.layers@),
            container_config_of(e.config, image_name@, metadata),
            e.metadata == metadata,
    {
        let layers = copy_strings(&metadata.layers);
        let config = self.generate_container_config(image_name, &metadata);
        ExtractedImage { rootfs_path: string_of(target_path), layers, config, metadata }
    }

    /// Checks what an image is to be made from, given whether its source
    /// exists: it needs a name and a source path, and the source must
    /// exist.
    pub fn check_image_config(&self, config: &ImageCreationConfig, source_exists: bool) -> (r: Result<
        (),
        ContainerError,
    >)
        ensures
            image_verdict_agrees(r, image_config_verdict(config.name@, config.source_path@, source_exists)),
    {
        if config.name.unicode_len() == 0 {
            return Err(ContainerError::InvalidConfig(string_of("Image name cannot be empty")));
        }
        if config.source_path.unicode_len() == 0 {
            return Err(ContainerError::InvalidConfig(string_of("Source path cannot be empty")));
        }
        if !source_exists {
            return Err(ContainerError::InvalidConfig(string_of("Source path does not exist")));
        }
        Ok(())
    }

    /// Checks what an image is to be made from (see `check_image_config`).
    /// Whether the source exists depends on the file system; the outcome is
    /// the verdict for what was found.
    pub fn validate_image_config(&self, config: &ImageCreationConfig) -> (r: Result<(), ContainerError>)
        ensures
            exists|found: bool|
                image_verdict_agrees(
                    r,
                    #[trigger] image_config_verdict(config.name@, config.source_path@, found),
                ),
            config.name@.len() == 0 ==> (r matches Err(ContainerError::InvalidConfig(m)) && m@
                == "Image name cannot be empty"@),
            config.name@.len() > 0 && config.source_path@.len() == 0 ==> (r matches Err(
                ContainerError::InvalidConfig(m),
            ) && m@ == "Source path cannot be empty"@),
    {
        let found = if config.name.unicode_len() > 0 && config.source_path.unicode_len() > 0 {
            path_exists(config.source_path.as_str())
        } else {
            false
        };
        let r = self.check_image_config(config, found);
        assert(image_verdict_agrees(r, image_config_verdict(config.name@, config.source_path@, found)));
        r
    }

    /// The name of a layer with content hash `hash`: its lower-case
    /// hexadecimal digits.
    pub fn layer_hash_name(&self, hash: u64) -> (s: String)
        ensures
            s@ == lower_hex_text(hash as nat),
    {
        let mut s = String::new();
        push_lower_hex(&mut s, hash);
        assert(s@ =~= lower_hex_text(hash as nat));
        s
    }

    /// The metadata of an image made from `config` as one layer with
    /// content hash `layer_hash` and `size` bytes, and the reference
    /// `name:tag` it is known by. The configuration is checked first (see
    /// `validate_image_config`).
    pub fn create_image(&self, config: &ImageCreationConfig, layer_hash: u64, size: u64) -> (r: Result<
        (ImageMetadata, String),
        ContainerError,
    >)
        ensures
            exists|found: bool|
                {
                    let v = #[trigger] image_config_verdict(config.name@, config.source_path@, found);
                    &&& v is Some ==> image_verdict_agrees(
                        match r {
                            Ok(_) => Ok(()),
                            Err(e) => Err(e),
                        },
                        v,
                    )
                    &&& v is None ==> r is Ok
                },
            r matches Ok((m, reference)) ==> {
                &&& reference@ == reference_text(config.name@, config.tag@)
                &&& m.name@ == config.name@
                &&& m.tag@ == config.tag@
                &&& m.id@ == "sha256:"@ + lower_hex_text(layer_hash as nat)
                &&& m.size == size
                &&& texts(m.layers@) == seq![lower_hex_text(layer_hash as nat)]
                &&& m.architecture@ == "amd64"@
                &&& m.os@ == "linux"@
                &&& m.description@ == config.description@
                &&& m.author@ == config.author@
                &&& m.version@ == config.version@
                &&& opt_text(m.working_dir) == opt_text(config.working_dir)
                &&& opt_texts(m.entrypoint) == opt_texts(config.entrypoint)
                &&& opt_texts(m.cmd) == opt_texts(config.cmd)
                &&& pair_texts(m.env@) == pair_texts(config.env@)
                &&& texts(m.volumes@) == texts(config.volumes@)
                &&& m.exposed_ports@ == config.exposed_ports@
                &&& pair_texts(m.labels@) == pair_texts(config.labels@)
            },
    {
        match self.validate_image_config(config) {
            Ok(()) => {},
            Err(e) => {
                return Err(e);
            },
        }
        let hash = self.layer_hash_name(layer_hash);
        let mut id = string_of("sha256:");
        push_text(&mut id, hash.as_str());
        let mut layers: Vec<String> = Vec::new();
        layers.push(hash);
        let m = ImageMetadata {
            name: config.name.clone(),
            tag: config.tag.clone(),
            id,
            created: now_millis(),
            size,
            layers,
            architecture: string_of("amd64"),
            os: string_of("linux"),
            description: config.description.clone(),
            author: config.author.clone(),
            version: config.version.clone(),
            working_dir: copy_opt(&config.working_dir),
            entrypoint: copy_opt_strings(&config.entrypoint),
            cmd: copy_opt_strings(&config.cmd),
            env: copy_pairs(&config.env),
            volumes: copy_strings(&config.volumes),
            exposed_ports: copy_ports_u16(&config.exposed_ports),
            labels: copy_pairs(&config.labels),
        };
        assert(texts(m.layers@) =~= seq![lower_hex_text(layer_hash as nat)]);
        let reference = self.image_reference(config.name.as_str(), config.tag.as_str());
        Ok((m, reference))
    }

    /// `template` with the changes `customizations` asks for, taken in
    /// order: `name`, `tag` and `description` replace those fields,
    /// `entrypoint` becomes the whole entrypoint, and other keys are
    /// ignored. It always succeeds.
    pub fn apply_template_customizations(
        &self,
        template: ImageCreationConfig,
        customizations: &Vec<(String, String)>,
    ) -> (r: Result<ImageCreationConfig, ContainerError>)
        ensures
            r matches Ok(c) && {
                let cs = pair_texts(customizations@);
                &&& c.name@ == or_else(last_value(cs, "name"@), template.name@)
                &&& c.tag@ == or_else(last_value(cs, "tag"@), template.tag@)
                &&& c.description@ == or_else(last_value(cs, "description"@), template.description@)
                &&& opt_texts(c.entrypoint) == match last_value(cs, "entrypoint"@) {
                    Some(e) => Some(seq![e]),
                    None => opt_texts(template.entrypoint),
                }
                &&& c.source_path == template.source_path
                &&& c.author == template.author
                &&& c.version == template.version
                &&& c.working_dir == template.working_dir
                &&& c.cmd == template.cmd
                &&& c.env == template.env
                &&& c.volumes == template.volumes
                &&& c.exposed_ports == template.exposed_ports
                &&& c.labels == template.labels
            },
    {
        let ghost t = template;
        let mut c = template;
        let mut i: usize = 0;
        while i < customizations.len()
            invariant
                i <= customizations@.len(),
                c.name@ == or_else(last_value(pair_texts(customizations@.take(i as int)), "name"@), t.name@),
                c.tag@ == or_else(last_value(pair_texts(customizations@.take(i as int)), "tag"@), t.tag@),
                c.description@ == or_else(
                    last_value(pair_texts(customizations@.take(i as int)), "description"@),
                    t.description@,
                ),
                opt_texts(c.entrypoint) == match last_value(
                    pair_texts(customizations@.take(i as int)),
                    "entrypoint"@,
                ) {
                    Some(e) => Some(seq![e]),
                    None => opt_texts(t.entrypoint),
                },
                c.source_path == t.source_path,
                c.author == t.author,
                c.version == t.version,
                c.working_dir == t.working_dir,
                c.cmd == t.cmd,
                c.env == t.env,
                c.volumes == t.volumes,
                c.exposed_ports == t.exposed_ports,
                c.labels == t.labels,
            decreases customizations@.len() - i,
        {
            let (key, value) = &customizations[i];
            proof {
                assert(pair_texts(customizations@.take(i + 1)).drop_last() =~= pair_texts(
                    customizations@.take(i as int),
                ));
                assert(pair_texts(customizations@.take(i + 1)).last() == (key@, value@));
                reveal_strlit("name");
                reveal_strlit("tag");
                reveal_strlit("description");
                reveal_strlit("entrypoint");
                assert("name"@.len() == 4 && "tag"@.len() == 3 && "description"@.len() == 11 && "entrypoint"@.len()
                    == 10);
                assert("name"@[0] == 'n' && "tag"@[0] == 't');
            }
            if str_equal(key.as_str(), "name") {
                c.name = value.clone();
            } else if str_equal(key.as_str(), "tag") {
                c.tag = value.clone();
            } else if str_equal(key.as_str(), "description") {
                c.description = value.clone();
            } else if str_equal(key.as_str(), "entrypoint") {
                let mut e: Vec<String> = Vec::new();
                e.push(value.clone());
                assert(texts(e@) =~= seq![value@]);
                c.entrypoint = Some(e);
            }
            i = i + 1;
        }
        assert(customizations@.take(customizations@.len() as int) =~= customizations@);
        Ok(c)
    }
}

} // verus!
