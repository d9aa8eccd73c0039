//! Settings: what a configuration file, a workflow and the command line can set, and
//! how the settings of one level are laid over those of another.

use crate::arch::{Architecture, arch_names, copy_arches};
use crate::cli::GlobalOptions;
use crate::depend::Node;
use crate::maps::{Duplicate, NameMap, StringMap};
use crate::paths::{join_path, joined};
use crate::strings::{copy_list, copy_opt, same};
use crate::text::{opt_text, texts};
use vstd::prelude::*;
use vstd::string::*;

verus! {

/// When the output is coloured.
#[derive(Clone, Copy, Debug, PartialEq, Eq, Structural)]
pub enum ColorWhen {
    Auto,
    Always,
    Never,
}

/// The program that runs containers.
#[derive(Clone, Copy, Debug, PartialEq, Eq, Structural)]
pub enum ContainerRuntime {
    Auto,
    Podman,
    Docker,
}

/// Where the `git` program comes from.
#[derive(Clone, Copy, Debug, PartialEq, Eq, Structural)]
pub enum GitMode {
    Host,
    Auto,
    Alias,
}

/// What happens to recorded artifacts.
#[derive(Clone, Copy, Debug, PartialEq, Eq, Structural)]
pub enum ArtifactMode {
    Keep,
    Move,
}

/// How the tool is put into a repository.
#[derive(Clone, Copy, Debug, PartialEq, Eq, Structural)]
pub enum InstallMode {
    Link,
    Copy,
}

/// The kind of project that a container is made for.
#[derive(Clone, Copy, Debug, PartialEq, Eq, Structural)]
pub enum ContainerType {
    Auto,
    General,
    Rust,
    Node,
    Go,
    Python,
    Maven,
    Gradle,
    Dotnet,
}

impl Default for ColorWhen {
    fn default() -> (r: Self)
        ensures
            r == ColorWhen::Auto,
    {
        ColorWhen::Auto
    }
}

impl Default for ContainerRuntime {
    fn default() -> (r: Self)
        ensures
            r == ContainerRuntime::Auto,
    {
        ContainerRuntime::Auto
    }
}

impl Default for GitMode {
    fn default() -> (r: Self)
        ensures
            r == GitMode::Auto,
    {
        GitMode::Auto
    }
}

impl Default for ArtifactMode {
    fn default() -> (r: Self)
        ensures
            r == ArtifactMode::Keep,
    {
        ArtifactMode::Keep
    }
}

impl ColorWhen {
    /// The word for the setting.
    pub open spec fn word(self) -> Seq<char> {
        match self {
            ColorWhen::Auto => "auto"@,
            ColorWhen::Always => "always"@,
            ColorWhen::Never => "never"@,
        }
    }

    /// The word for the setting.
    pub fn as_name(&self) -> (r: &'static str)
        ensures
            r@ == self.word(),
    {
        match self {
            ColorWhen::Auto => "auto",
            ColorWhen::Always => "always",
            ColorWhen::Never => "never",
        }
    }
}

/// The colour setting that a word stands for.
pub open spec fn color_named(word: Seq<char>) -> Option<ColorWhen> {
    if word == "auto"@ {
        Some(ColorWhen::Auto)
    } else if word == "always"@ {
        Some(ColorWhen::Always)
    } else if word == "never"@ {
        Some(ColorWhen::Never)
    } else {
        None
    }
}

/// The colour setting that a word stands for.
pub fn parse_color(word: &str) -> (r: Option<ColorWhen>)
    ensures
        r == color_named(word@),
{
    if same(word, "auto") {
        Some(ColorWhen::Auto)
    } else if same(word, "always") {
        Some(ColorWhen::Always)
    } else if same(word, "never") {
        Some(ColorWhen::Never)
    } else {
        None
    }
}

/// The container runtime that a word stands for.
pub open spec fn runtime_named(word: Seq<char>) -> Option<ContainerRuntime> {
    if word == "auto"@ {
        Some(ContainerRuntime::Auto)
    } else if word == "podman"@ {
        Some(ContainerRuntime::Podman)
    } else if word == "docker"@ {
        Some(ContainerRuntime::Docker)
    } else {
        None
    }
}

/// The container runtime that a word stands for.
pub fn parse_runtime(word: &str) -> (r: Option<ContainerRuntime>)
    ensures
        r == runtime_named(word@),
{
    if same(word, "auto") {
        Some(ContainerRuntime::Auto)
    } else if same(word, "podman") {
        Some(ContainerRuntime::Podman)
    } else if same(word, "docker") {
        Some(ContainerRuntime::Docker)
    } else {
        None
    }
}

/// The source of `git` that a word stands for.
pub open spec fn git_mode_named(word: Seq<char>) -> Option<GitMode> {
    if word == "host"@ {
        Some(GitMode::Host)
    } else if word == "auto"@ {
        Some(GitMode::Auto)
    } else if word == "alias"@ {
        Some(GitMode::Alias)
    } else {
        None
    }
}

/// The source of `git` that a word stands for.
pub fn parse_git_mode(word: &str) -> (r: Option<GitMode>)
    ensures
        r == git_mode_named(word@),
{
    if same(word, "host") {
        Some(GitMode::Host)
    } else if same(word, "auto") {
        Some(GitMode::Auto)
    } else if same(word, "alias") {
        Some(GitMode::Alias)
    } else {
        None
    }
}

/// What happens to artifacts under a word.
pub open spec fn artifact_mode_named(word: Seq<char>) -> Option<ArtifactMode> {
    if word == "keep"@ {
        Some(ArtifactMode::Keep)
    } else if word == "move"@ {
        Some(ArtifactMode::Move)
    } else {
        None
    }
}

/// What happens to artifacts under a word.
pub fn parse_artifact_mode(word: &str) -> (r: Option<ArtifactMode>)
    ensures
        r == artifact_mode_named(word@),
{
    if same(word, "keep") {
        Some(ArtifactMode::Keep)
    } else if same(word, "move") {
        Some(ArtifactMode::Move)
    } else {
        None
    }
}

/// The way of installing that a word stands for.
pub open spec fn install_mode_named(word: Seq<char>) -> Option<InstallMode> {
    if word == "link"@ {
        Some(InstallMode::Link)
    } else if word == "copy"@ {
        Some(InstallMode::Copy)
    } else {
        None
    }
}

/// The way of installing that a word stands for.
pub fn parse_install_mode(word: &str) -> (r: Option<InstallMode>)
    ensures
        r == install_mode_named(word@),
{
    if same(word, "link") {
        Some(InstallMode::Link)
    } else if same(word, "copy") {
        Some(InstallMode::Copy)
    } else {
        None
    }
}

impl InstallMode {
    /// The word for the way of installing.
    pub open spec fn word(self) -> Seq<char> {
        match self {
            InstallMode::Link => "link"@,
            InstallMode::Copy => "copy"@,
        }
    }

    /// The word for the way of installing.
    pub fn as_name(&self) -> (r: &'static str)
        ensures
            r@ == self.word(),
    {
        match self {
            InstallMode::Link => "link",
            InstallMode::Copy => "copy",
        }
    }
}

impl ContainerType {
    /// The word for the kind of project.
    pub open spec fn word(self) -> Seq<char> {
        match self {
            ContainerType::Auto => "auto"@,
            ContainerType::General => "general"@,
            ContainerType::Rust => "rust"@,
            ContainerType::Node => "node"@,
            ContainerType::Go => "go"@,
            ContainerType::Python => "python"@,
            ContainerType::Maven => "maven"@,
            ContainerType::Gradle => "gradle"@,
            ContainerType::Dotnet => "dotnet"@,
        }
    }

    /// The word for the kind of project.
    pub fn as_name(&self) -> (r: &'static str)
        ensures
            r@ == self.word(),
    {
        match self {
            ContainerType::Auto => "auto",
            ContainerType::General => "general",
            ContainerType::Rust => "rust",
            ContainerType::Node => "node",
            ContainerType::Go => "go",
            ContainerType::Python => "python",
            ContainerType::Maven => "maven",
            ContainerType::Gradle => "gradle",
            ContainerType::Dotnet => "dotnet",
        }
    }
}

/// The kind of project that a word or its short form stands for.
pub open spec fn stack_named(word: Seq<char>) -> Option<ContainerType> {
    if word == "auto"@ {
        Some(ContainerType::Auto)
    } else if word == "general"@ {
        Some(ContainerType::General)
    } else if word == "rust"@ {
        Some(ContainerType::Rust)
    } else if word == "node"@ {
        Some(ContainerType::Node)
    } else if word == "go"@ || word == "golang"@ {
        Some(ContainerType::Go)
    } else if word == "python"@ || word == "py"@ {
        Some(ContainerType::Python)
    } else if word == "maven"@ {
        Some(ContainerType::Maven)
    } else if word == "gradle"@ {
        Some(ContainerType::Gradle)
    } else if word == "dotnet"@ {
        Some(ContainerType::Dotnet)
    } else {
        None
    }
}

/// The kind of project that a word or its short form stands for.
pub fn parse_stack(word: &str) -> (r: Option<ContainerType>)
    ensures
        r == stack_named(word@),
{
    if same(word, "auto") {
        Some(ContainerType::Auto)
    } else if same(word, "general") {
        Some(ContainerType::General)
    } else if same(word, "rust") {
        Some(ContainerType::Rust)
    } else if same(word, "node") {
        Some(ContainerType::Node)
    } else if same(word, "go") || same(word, "golang") {
        Some(ContainerType::Go)
    } else if same(word, "python") || same(word, "py") {
        Some(ContainerType::Python)
    } else if same(word, "maven") {
        Some(ContainerType::Maven)
    } else if same(word, "gradle") {
        Some(ContainerType::Gradle)
    } else if same(word, "dotnet") {
        Some(ContainerType::Dotnet)
    } else {
        None
    }
}

/// A setting of one level over that of the level below.
pub open spec fn over<T>(below: Option<T>, top: Option<T>) -> Option<T> {
    match top {
        Some(v) => Some(v),
        None => below,
    }
}

/// A list of one level over that of the level below: an empty list sets nothing.
pub open spec fn list_over<T>(below: Seq<T>, top: Seq<T>) -> Seq<T> {
    if top.len() == 0 {
        below
    } else {
        top
    }
}

/// One of two optional strings: the first, where it is there.
fn pick_text(top: &Option<String>, below: &Option<String>) -> (r: Option<String>)
    ensures
        opt_text(r) == over(opt_text(*below), opt_text(*top)),
{
    if top.is_some() {
        copy_opt(top)
    } else {
        copy_opt(below)
    }
}

/// One of two lists: the first, where it is not empty.
fn pick_list(top: &Vec<String>, below: &Vec<String>) -> (r: Vec<String>)
    ensures
        texts(r@) == list_over(texts(below@), texts(top@)),
{
    if top.is_empty() {
        copy_list(below.as_slice())
    } else {
        copy_list(top.as_slice())
    }
}

/// One of two optional values: the first, where it is there.
pub fn pick<T: Copy>(top: Option<T>, below: Option<T>) -> (r: Option<T>)
    ensures
        r == over(below, top),
{
    match top {
        Some(v) => Some(v),
        None => below,
    }
}

/// A filter that names nothing, one thing or several.
#[verifier::ext_equal]
pub enum FilterView {
    Unset,
    Single(Seq<char>),
    Many(Seq<Seq<char>>),
}

impl FilterView {
    /// The names in the filter.
    pub open spec fn items(self) -> Seq<Seq<char>> {
        match self {
            FilterView::Unset => Seq::empty(),
            FilterView::Single(v) => seq![v],
            FilterView::Many(v) => v,
        }
    }

    /// A filter of one level over that of the level below.
    pub open spec fn under(self, top: FilterView) -> FilterView {
        match top {
            FilterView::Unset => self,
            _ => top,
        }
    }

    /// Whether the filter lets a name pass; a filter without names lets every name pass.
    pub open spec fn passes(self, name: Seq<char>) -> bool {
        self.items().len() == 0 || self.items().contains(name)
    }
}

/// The events that a workflow is for.
#[derive(Debug)]
pub enum EventFilter {
    Unset,
    Single(String),
    Many(Vec<String>),
}

impl View for EventFilter {
    type V = FilterView;

    open spec fn view(&self) -> FilterView {
        match self {
            EventFilter::Unset => FilterView::Unset,
            EventFilter::Single(v) => FilterView::Single(v@),
            EventFilter::Many(v) => FilterView::Many(texts(v@)),
        }
    }
}

impl Default for EventFilter {
    fn default() -> (r: Self)
        ensures
            r@ == FilterView::Unset,
    {
        EventFilter::Unset
    }
}

impl Duplicate for EventFilter {
    fn duplicate(&self) -> (r: Self) {
        match self {
            EventFilter::Unset => EventFilter::Unset,
            EventFilter::Single(v) => EventFilter::Single(v.clone()),
            EventFilter::Many(v) => EventFilter::Many(copy_list(v.as_slice())),
        }
    }
}

impl EventFilter {
    /// The events in the filter.
    pub fn to_vec(&self) -> (r: Vec<String>)
        ensures
            texts(r@) == self@.items(),
    {
        match self {
            EventFilter::Unset => {
                let out: Vec<String> = Vec::new();
                assert(texts(out@) =~= Seq::<Seq<char>>::empty());
                out
            },
            EventFilter::Single(v) => {
                let mut out: Vec<String> = Vec::new();
                out.push(v.clone());
                assert(texts(out@) =~= seq![v@]);
                out
            },
            EventFilter::Many(v) => copy_list(v.as_slice()),
        }
    }

    /// The filter with `other` laid over it.
    pub fn merged(&self, other: &Self) -> (r: Self)
        ensures
            r@ == self@.under(other@),
    {
        match other {
            EventFilter::Unset => self.duplicate(),
            _ => other.duplicate(),
        }
    }
}

/// The architectures that something is for.
#[derive(Debug)]
pub enum ArchFilter {
    Unset,
    Single(Architecture),
    Many(Vec<Architecture>),
}

impl View for ArchFilter {
    type V = FilterView;

    open spec fn view(&self) -> FilterView {
        match self {
            ArchFilter::Unset => FilterView::Unset,
            ArchFilter::Single(v) => FilterView::Single(v@),
            ArchFilter::Many(v) => FilterView::Many(arch_names(v@)),
        }
    }
}

impl Default for ArchFilter {
    fn default() -> (r: Self)
        ensures
            r@ == FilterView::Unset,
    {
        ArchFilter::Unset
    }
}

impl Duplicate for ArchFilter {
    fn duplicate(&self) -> (r: Self) {
        match self {
            ArchFilter::Unset => ArchFilter::Unset,
            ArchFilter::Single(v) => ArchFilter::Single(v.duplicate()),
            ArchFilter::Many(v) => ArchFilter::Many(copy_arches(v.as_slice())),
        }
    }
}

impl ArchFilter {
    /// The architectures in the filter.
    pub fn to_vec(&self) -> (r: Vec<Architecture>)
        ensures
            arch_names(r@) == self@.items(),
    {
        match self {
            ArchFilter::Unset => {
                let out: Vec<Architecture> = Vec::new();
                assert(arch_names(out@) =~= Seq::<Seq<char>>::empty());
                out
            },
            ArchFilter::Single(v) => {
                let mut out: Vec<Architecture> = Vec::new();
                out.push(v.duplicate());
                assert(arch_names(out@) =~= seq![v@]);
                out
            },
            ArchFilter::Many(v) => copy_arches(v.as_slice()),
        }
    }

    /// The filter with `other` laid over it.
    pub fn merged(&self, other: &Self) -> (r: Self)
        ensures
            r@ == self@.under(other@),
    {
        match other {
            ArchFilter::Unset => self.duplicate(),
            _ => other.duplicate(),
        }
    }

    /// Whether the filter lets an architecture pass.
    pub fn allows(&self, arch: &Architecture) -> (r: bool)
        ensures
            r == self@.passes(arch@),
    {
        let list = self.to_vec();
        let ghost items = self@.items();
        let mut i: usize = 0;
        while i < list.len()
            invariant
                i <= list@.len(),
                arch_names(list@) == items,
                items == self@.items(),
                forall|j: int| 0 <= j < i ==> items[j] != arch@,
            decreases list.len() - i,
        {
            assert(items[i as int] == list@[i as int]@);
            if list[i].same_as(arch) {
                return true;
            }
            i += 1;
        }
        assert(items.len() == list@.len());
        list.len() == 0
    }

    /// Whether the filter names no architecture.
    pub fn is_empty(&self) -> (r: bool)
        ensures
            r == (self@.items().len() == 0),
    {
        match self {
            ArchFilter::Unset => true,
            ArchFilter::Many(values) => {
                assert(arch_names(values@).len() == values@.len());
                values.is_empty()
            },
            ArchFilter::Single(_) => false,
        }
    }
}

/// The branches that a workflow runs on.
#[derive(Debug)]
pub struct BranchConfig {
    pub allow: Vec<String>,
    pub only: Vec<String>,
}

#[verifier::ext_equal]
pub struct BranchView {
    pub allow: Seq<Seq<char>>,
    pub only: Seq<Seq<char>>,
}

impl BranchView {
    pub open spec fn nothing() -> BranchView {
        BranchView { allow: Seq::empty(), only: Seq::empty() }
    }

    /// These settings with `top` laid over them.
    pub open spec fn under(self, top: BranchView) -> BranchView {
        BranchView { allow: list_over(self.allow, top.allow), only: list_over(self.only, top.only) }
    }

    /// The branches that count: `only` before `allow`, before the default.
    pub open spec fn effective(self, standard: Seq<Seq<char>>) -> Seq<Seq<char>> {
        if self.only.len() > 0 {
            self.only
        } else if self.allow.len() > 0 {
            self.allow
        } else {
            standard
        }
    }
}

impl View for BranchConfig {
    type V = BranchView;

    open spec fn view(&self) -> BranchView {
        BranchView { allow: texts(self.allow@), only: texts(self.only@) }
    }
}

impl Default for BranchConfig {
    fn default() -> (r: Self)
        ensures
            r@ == BranchView::nothing(),
    {
        let r = BranchConfig { allow: Vec::new(), only: Vec::new() };
        assert(r@ =~= BranchView::nothing());
        r
    }
}

impl Duplicate for BranchConfig {
    fn duplicate(&self) -> (r: Self) {
        BranchConfig { allow: copy_list(self.allow.as_slice()), only: copy_list(self.only.as_slice()) }
    }
}

impl BranchConfig {
    /// These settings with `other` laid over them.
    pub fn merge(&self, other: &Self) -> (r: Self)
        ensures
            r@ == self@.under(other@),
    {
        BranchConfig {
            allow: pick_list(&other.allow, &self.allow),
            only: pick_list(&other.only, &self.only),
        }
    }

    /// The branches that count.
    pub fn effective<'a>(&'a self, defaults: &'a Defaults) -> (r: &'a [String])
        ensures
            texts(r@) == self@.effective(texts(defaults.branch_allow@)),
    {
        if !self.only.is_empty() {
            self.only.as_slice()
        } else if !self.allow.is_empty() {
            self.allow.as_slice()
        } else {
            defaults.branch_allow.as_slice()
        }
    }
}

/// The artifacts that a workflow leaves.
#[derive(Debug)]
pub struct ArtifactConfig {
    pub paths: Vec<String>,
    pub mode: Option<ArtifactMode>,
    pub destination: Option<String>,
}

#[verifier::ext_equal]
pub struct ArtifactView {
    pub paths: Seq<Seq<char>>,
    pub mode: Option<ArtifactMode>,
    pub destination: Option<Seq<char>>,
}

impl ArtifactView {
    pub open spec fn nothing() -> ArtifactView {
        ArtifactView { paths: Seq::empty(), mode: None, destination: None }
    }

    /// These settings with `top` laid over them.
    pub open spec fn under(self, top: ArtifactView) -> ArtifactView {
        ArtifactView {
            paths: list_over(self.paths, top.paths),
            mode: over(self.mode, top.mode),
            destination: over(self.destination, top.destination),
        }
    }
}

impl View for ArtifactConfig {
    type V = ArtifactView;

    open spec fn view(&self) -> ArtifactView {
        ArtifactView {
            paths: texts(self.paths@),
            mode: self.mode,
            destination: opt_text(self.destination),
        }
    }
}

impl Default for ArtifactConfig {
    fn default() -> (r: Self)
        ensures
            r@ == ArtifactView::nothing(),
    {
        let r = ArtifactConfig { paths: Vec::new(), mode: None, destination: None };
        assert(r@ =~= ArtifactView::nothing());
        r
    }
}

impl Duplicate for ArtifactConfig {
    fn duplicate(&self) -> (r: Self) {
        ArtifactConfig {
            paths: copy_list(self.paths.as_slice()),
            mode: self.mode,
            destination: copy_opt(&self.destination),
        }
    }
}

impl ArtifactConfig {
    /// These settings with `other` laid over them.
    pub fn merge(&self, other: &Self) -> (r: Self)
        ensures
            r@ == self@.under(other@),
    {
        ArtifactConfig {
            paths: pick_list(&other.paths, &self.paths),
            mode: pick(other.mode, self.mode),
            destination: pick_text(&other.destination, &self.destination),
        }
    }
}

/// Where and by which shell steps run.
#[derive(Debug)]
pub struct ExecutionConfig {
    pub workspace: Option<String>,
    pub shell: Option<String>,
}

#[verifier::ext_equal]
pub struct ExecutionView {
    pub workspace: Option<Seq<char>>,
    pub shell: Option<Seq<char>>,
}

impl ExecutionView {
    pub open spec fn nothing() -> ExecutionView {
        ExecutionView { workspace: None, shell: None }
    }

    /// These settings with `top` laid over them.
    pub open spec fn under(self, top: ExecutionView) -> ExecutionView {
        ExecutionView {
            workspace: over(self.workspace, top.workspace),
            shell: over(self.shell, top.shell),
        }
    }
}

impl View for ExecutionConfig {
    type V = ExecutionView;

    open spec fn view(&self) -> ExecutionView {
        ExecutionView { workspace: opt_text(self.workspace), shell: opt_text(self.shell) }
    }
}

impl Default for ExecutionConfig {
    fn default() -> (r: Self)
        ensures
            r@ == ExecutionView::nothing(),
    {
        ExecutionConfig { workspace: None, shell: None }
    }
}

impl Duplicate for ExecutionConfig {
    fn duplicate(&self) -> (r: Self) {
        ExecutionConfig { workspace: copy_opt(&self.workspace), shell: copy_opt(&self.shell) }
    }
}

impl ExecutionConfig {
    /// These settings with `other` laid over them.
    pub fn merge(&self, other: &Self) -> (r: Self)
        ensures
            r@ == self@.under(other@),
    {
        ExecutionConfig {
            workspace: pick_text(&other.workspace, &self.workspace),
            shell: pick_text(&other.shell, &self.shell),
        }
    }
}

/// The container that steps run in.
pub struct ContainerConfig {
    pub kind: Option<ContainerType>,
    pub image: Option<String>,
    pub platform: Option<String>,
    pub workdir: Option<String>,
    pub arch: ArchFilter,
    pub packages: Vec<String>,
    pub components: Vec<String>,
    pub env: StringMap,
    pub volumes: Vec<String>,
    pub readonly: Option<bool>,
}

#[verifier::ext_equal]
pub struct ContainerView {
    pub kind: Option<ContainerType>,
    pub image: Option<Seq<char>>,
    pub platform: Option<Seq<char>>,
    pub workdir: Option<Seq<char>>,
    pub arch: FilterView,
    pub packages: Seq<Seq<char>>,
    pub components: Seq<Seq<char>>,
    pub env: Map<Seq<char>, Seq<char>>,
    pub volumes: Seq<Seq<char>>,
    pub readonly: Option<bool>,
}

impl ContainerView {
    pub open spec fn nothing() -> ContainerView {
        ContainerView {
            kind: None,
            image: None,
            platform: None,
            workdir: None,
            arch: FilterView::Unset,
            packages: Seq::empty(),
            components: Seq::empty(),
            env: Map::empty(),
            volumes: Seq::empty(),
            readonly: None,
        }
    }

    /// These settings with `top` laid over them; the variables of both stay, those of
    /// `top` before those below.
    pub open spec fn under(self, top: ContainerView) -> ContainerView {
        ContainerView {
            kind: over(self.kind, top.kind),
            image: over(self.image, top.image),
            platform: over(self.platform, top.platform),
            workdir: over(self.workdir, top.workdir),
            arch: self.arch.under(top.arch),
            packages: list_over(self.packages, top.packages),
            components: list_over(self.components, top.components),
            env: self.env.union_prefer_right(top.env),
            volumes: list_over(self.volumes, top.volumes),
            readonly: over(self.readonly, top.readonly),
        }
    }
}

impl View for ContainerConfig {
    type V = ContainerView;

    open spec fn view(&self) -> ContainerView {
        ContainerView {
            kind: self.kind,
            image: opt_text(self.image),
            platform: opt_text(self.platform),
            workdir: opt_text(self.workdir),
            arch: self.arch@,
            packages: texts(self.packages@),
            components: texts(self.components@),
            env: self.env@,
            volumes: texts(self.volumes@),
            readonly: self.readonly,
        }
    }
}

impl Default for ContainerConfig {
    fn default() -> (r: Self)
        ensures
            r@ == ContainerView::nothing(),
    {
        let r = ContainerConfig {
            kind: None,
            image: None,
            platform: None,
            workdir: None,
            arch: ArchFilter::Unset,
            packages: Vec::new(),
            components: Vec::new(),
            env: StringMap::new(),
            volumes: Vec::new(),
            readonly: None,
        };
        assert(r@ =~= ContainerView::nothing());
        r
    }
}

impl Duplicate for ContainerConfig {
    fn duplicate(&self) -> (r: Self) {
        ContainerConfig {
            kind: self.kind,
            image: copy_opt(&self.image),
            platform: copy_opt(&self.platform),
            workdir: copy_opt(&self.workdir),
            arch: self.arch.duplicate(),
            packages: copy_list(self.packages.as_slice()),
            components: copy_list(self.components.as_slice()),
            env: self.env.duplicate(),
            volumes: copy_list(self.volumes.as_slice()),
            readonly: self.readonly,
        }
    }
}

impl ContainerConfig {
    /// These settings with `other` laid over them.
    pub fn merge(&self, other: &Self) -> (r: Self)
        ensures
            r@ == self@.under(other@),
    {
        let mut env = self.env.duplicate();
        env.overlay(&other.env);
        ContainerConfig {
            kind: pick(other.kind, self.kind),
            image: pick_text(&other.image, &self.image),
            platform: pick_text(&other.platform, &self.platform),
            workdir: pick_text(&other.workdir, &self.workdir),
            arch: self.arch.merged(&other.arch),
            packages: pick_list(&other.packages, &self.packages),
            components: pick_list(&other.components, &self.components),
            env,
            volumes: pick_list(&other.volumes, &self.volumes),
            readonly: pick(other.readonly, self.readonly),
        }
    }
}

/// Settings for action workflows.
#[derive(Debug)]
pub struct ActionsConfig {
    pub node_image: Option<String>,
}

impl Default for ActionsConfig {
    fn default() -> (r: Self)
        ensures
            r.node_image is None,
    {
        ActionsConfig { node_image: None }
    }
}

/// The settings that apply to one workflow or one hook.
pub struct WorkflowOverride {
    pub on: EventFilter,
    pub tech_stack: Option<ContainerType>,
    pub arch: ArchFilter,
    pub branches: BranchConfig,
    pub artifacts: ArtifactConfig,
    pub execution: ExecutionConfig,
    pub container: ContainerConfig,
    pub env: StringMap,
}

#[verifier::ext_equal]
pub struct OverrideView {
    pub on: FilterView,
    pub tech_stack: Option<ContainerType>,
    pub arch: FilterView,
    pub branches: BranchView,
    pub artifacts: ArtifactView,
    pub execution: ExecutionView,
    pub container: ContainerView,
    pub env: Map<Seq<char>, Seq<char>>,
}

impl OverrideView {
    pub open spec fn nothing() -> OverrideView {
        OverrideView {
            on: FilterView::Unset,
            tech_stack: None,
            arch: FilterView::Unset,
            branches: BranchView::nothing(),
            artifacts: ArtifactView::nothing(),
            execution: ExecutionView::nothing(),
            container: ContainerView::nothing(),
            env: Map::empty(),
        }
    }

    /// These settings with `top` laid over them.
    pub open spec fn under(self, top: OverrideView) -> OverrideView {
        OverrideView {
            on: self.on.under(top.on),
            tech_stack: over(self.tech_stack, top.tech_stack),
            arch: self.arch.under(top.arch),
            branches: self.branches.under(top.branches),
            artifacts: self.artifacts.under(top.artifacts),
            execution: self.execution.under(top.execution),
            container: self.container.under(top.container),
            env: self.env.union_prefer_right(top.env),
        }
    }
}

impl View for WorkflowOverride {
    type V = OverrideView;

    open spec fn view(&self) -> OverrideView {
        OverrideView {
            on: self.on@,
            tech_stack: self.tech_stack,
            arch: self.arch@,
            branches: self.branches@,
            artifacts: self.artifacts@,
            execution: self.execution@,
            container: self.container@,
            env: self.env@,
        }
    }
}

impl Default for WorkflowOverride {
    fn default() -> (r: Self)
        ensures
            r@ == OverrideView::nothing(),
    {
        WorkflowOverride {
            on: EventFilter::Unset,
            tech_stack: None,
            arch: ArchFilter::Unset,
            branches: BranchConfig::default(),
            artifacts: ArtifactConfig::default(),
            execution: ExecutionConfig::default(),
            container: ContainerConfig::default(),
            env: StringMap::new(),
        }
    }
}

impl Duplicate for WorkflowOverride {
    fn duplicate(&self) -> (r: Self) {
        WorkflowOverride {
            on: self.on.duplicate(),
            tech_stack: self.tech_stack,
            arch: self.arch.duplicate(),
            branches: self.branches.duplicate(),
            artifacts: self.artifacts.duplicate(),
            execution: self.execution.duplicate(),
            container: self.container.duplicate(),
            env: self.env.duplicate(),
        }
    }
}

impl WorkflowOverride {
    /// These settings with `other` laid over them.
    pub fn merge(&self, other: &Self) -> (r: Self)
        ensures
            r@ == self@.under(other@),
    {
        let mut env = self.env.duplicate();
        env.overlay(&other.env);
        WorkflowOverride {
            on: self.on.merged(&other.on),
            tech_stack: pick(other.tech_stack, self.tech_stack),
            arch: self.arch.merged(&other.arch),
            branches: self.branches.merge(&other.branches),
            artifacts: self.artifacts.merge(&other.artifacts),
            execution: self.execution.merge(&other.execution),
            container: self.container.merge(&other.container),
            env,
        }
    }
}

/// The settings that a configuration file can give for everything.
pub struct DefaultsConfig {
    pub shell: Option<String>,
    pub quiet: Option<bool>,
    pub silent: Option<bool>,
    pub fail_fast: Option<bool>,
    pub tech_stack: Option<ContainerType>,
    pub arch: ArchFilter,
    pub container: ContainerConfig,
    pub container_runtime: Option<ContainerRuntime>,
    pub git_mode: Option<GitMode>,
    pub git_command: Option<String>,
    pub git_image: Option<String>,
    pub install_mode: Option<InstallMode>,
    pub recursive_checkout: Option<bool>,
    pub artifact_store: Option<String>,
    pub actions_cache: Option<String>,
    pub branches: BranchConfig,
}

#[verifier::ext_equal]
pub struct DefaultsConfigView {
    pub shell: Option<Seq<char>>,
    pub quiet: Option<bool>,
    pub silent: Option<bool>,
    pub fail_fast: Option<bool>,
    pub tech_stack: Option<ContainerType>,
    pub arch: FilterView,
    pub container: ContainerView,
    pub container_runtime: Option<ContainerRuntime>,
    pub git_mode: Option<GitMode>,
    pub git_command: Option<Seq<char>>,
    pub git_image: Option<Seq<char>>,
    pub install_mode: Option<InstallMode>,
    pub recursive_checkout: Option<bool>,
    pub artifact_store: Option<Seq<char>>,
    pub actions_cache: Option<Seq<char>>,
    pub branches: BranchView,
}

impl DefaultsConfigView {
    pub open spec fn nothing() -> DefaultsConfigView {
        DefaultsConfigView {
            shell: None,
            quiet: None,
            silent: None,
            fail_fast: None,
            tech_stack: None,
            arch: FilterView::Unset,
            container: ContainerView::nothing(),
            container_runtime: None,
            git_mode: None,
            git_command: None,
            git_image: None,
            install_mode: None,
            recursive_checkout: None,
            artifact_store: None,
            actions_cache: None,
            branches: BranchView::nothing(),
        }
    }

    /// These settings with `top` laid over them.
    pub open spec fn under(self, top: DefaultsConfigView) -> DefaultsConfigView {
        DefaultsConfigView {
            shell: over(self.shell, top.shell),
            quiet: over(self.quiet, top.quiet),
            silent: over(self.silent, top.silent),
            fail_fast: over(self.fail_fast, top.fail_fast),
            tech_stack: over(self.tech_stack, top.tech_stack),
            arch: self.arch.under(top.arch),
            container: self.container.under(top.container),
            container_runtime: over(self.container_runtime, top.container_runtime),
            git_mode: over(self.git_mode, top.git_mode),
            git_command: over(self.git_command, top.git_command),
            git_image: over(self.git_image, top.git_image),
            install_mode: over(self.install_mode, top.install_mode),
            recursive_checkout: over(self.recursive_checkout, top.recursive_checkout),
            artifact_store: over(self.artifact_store, top.artifact_store),
            actions_cache: over(self.actions_cache, top.actions_cache),
            branches: self.branches.under(top.branches),
        }
    }
}

impl View for DefaultsConfig {
    type V = DefaultsConfigView;

    open spec fn view(&self) -> DefaultsConfigView {
        DefaultsConfigView {
            shell: opt_text(self.shell),
            quiet: self.quiet,
            silent: self.silent,
            fail_fast: self.fail_fast,
            tech_stack: self.tech_stack,
            arch: self.arch@,
            container: self.container@,
            container_runtime: self.container_runtime,
            git_mode: self.git_mode,
            git_command: opt_text(self.git_command),
            git_image: opt_text(self.git_image),
            install_mode: self.install_mode,
            recursive_checkout: self.recursive_checkout,
            artifact_store: opt_text(self.artifact_store),
            actions_cache: opt_text(self.actions_cache),
            branches: self.branches@,
        }
    }
}

impl Default for DefaultsConfig {
    fn default() -> (r: Self)
        ensures
            r@ == DefaultsConfigView::nothing(),
    {
        DefaultsConfig {
            shell: None,
            quiet: None,
            silent: None,
            fail_fast: None,
            tech_stack: None,
            arch: ArchFilter::Unset,
            container: ContainerConfig::default(),
            container_runtime: None,
            git_mode: None,
            git_command: None,
            git_image: None,
            install_mode: None,
            recursive_checkout: None,
            artifact_store: None,
            actions_cache: None,
            branches: BranchConfig::default(),
        }
    }
}

impl DefaultsConfig {
    /// These settings with `other` laid over them.
    pub fn merge(&self, other: &Self) -> (r: Self)
        ensures
            r@ == self@.under(other@),
    {
        DefaultsConfig {
            shell: pick_text(&other.shell, &self.shell),
            quiet: pick(other.quiet, self.quiet),
            silent: pick(other.silent, self.silent),
            fail_fast: pick(other.fail_fast, self.fail_fast),
            tech_stack: pick(other.tech_stack, self.tech_stack),
            arch: self.arch.merged(&other.arch),
            container: self.container.merge(&other.container),
            container_runtime: pick(other.container_runtime, self.container_runtime),
            git_mode: pick(other.git_mode, self.git_mode),
            git_command: pick_text(&other.git_command, &self.git_command),
            git_image: pick_text(&other.git_image, &self.git_image),
            install_mode: pick(other.install_mode, self.install_mode),
            recursive_checkout: pick(other.recursive_checkout, self.recursive_checkout),
            artifact_store: pick_text(&other.artifact_store, &self.artifact_store),
            actions_cache: pick_text(&other.actions_cache, &self.actions_cache),
            branches: self.branches.merge(&other.branches),
        }
    }
}

/// A configuration file. Defaults may stand at its root or under `defaults`.
pub struct ConfigFile {
    pub root_defaults: DefaultsConfig,
    pub defaults: DefaultsConfig,
    pub hooks: NameMap<WorkflowOverride>,
    pub workflows: NameMap<WorkflowOverride>,
    pub actions: ActionsConfig,
}

impl Default for ConfigFile {
    fn default() -> (r: Self)
        ensures
            r.root_defaults@ == DefaultsConfigView::nothing(),
            r.defaults@ == DefaultsConfigView::nothing(),
            r.hooks@ == Map::<Seq<char>, OverrideView>::empty(),
            r.workflows@ == Map::<Seq<char>, OverrideView>::empty(),
            r.actions.node_image is None,
    {
        ConfigFile {
            root_defaults: DefaultsConfig::default(),
            defaults: DefaultsConfig::default(),
            hooks: NameMap::new(),
            workflows: NameMap::new(),
            actions: ActionsConfig::default(),
        }
    }
}

/// The settings for everything, with nothing left open.
pub struct Defaults {
    pub shell: String,
    pub quiet: bool,
    pub silent: bool,
    pub fail_fast: bool,
    pub arch: Vec<Architecture>,
    pub container: ContainerConfig,
    pub container_runtime: ContainerRuntime,
    pub git_mode: GitMode,
    pub git_command: Option<String>,
    pub git_image: String,
    pub install_mode: InstallMode,
    pub recursive_checkout: bool,
    pub branch_allow: Vec<String>,
    pub artifact_store: String,
    pub actions_cache: String,
    pub node_image: String,
}

#[verifier::ext_equal]
pub struct DefaultsView {
    pub shell: Seq<char>,
    pub quiet: bool,
    pub silent: bool,
    pub fail_fast: bool,
    pub arch: Seq<Seq<char>>,
    pub container: ContainerView,
    pub container_runtime: ContainerRuntime,
    pub git_mode: GitMode,
    pub git_command: Option<Seq<char>>,
    pub git_image: Seq<char>,
    pub install_mode: InstallMode,
    pub recursive_checkout: bool,
    pub branch_allow: Seq<Seq<char>>,
    pub artifact_store: Seq<char>,
    pub actions_cache: Seq<char>,
    pub node_image: Seq<char>,
}

impl View for Defaults {
    type V = DefaultsView;

    open spec fn view(&self) -> DefaultsView {
        DefaultsView {
            shell: self.shell@,
            quiet: self.quiet,
            silent: self.silent,
            fail_fast: self.fail_fast,
            arch: arch_names(self.arch@),
            container: self.container@,
            container_runtime: self.container_runtime,
            git_mode: self.git_mode,
            git_command: opt_text(self.git_command),
            git_image: self.git_image@,
            install_mode: self.install_mode,
            recursive_checkout: self.recursive_checkout,
            branch_allow: texts(self.branch_allow@),
            artifact_store: self.artifact_store@,
            actions_cache: self.actions_cache@,
            node_image: self.node_image@,
        }
    }
}

/// The value of a setting, or what holds where it is not set.
pub open spec fn or_else<T>(value: Option<T>, standard: T) -> T {
    match value {
        Some(v) => v,
        None => standard,
    }
}

/// The branches that automatic runs are limited to where nothing is set.
pub open spec fn standard_branches() -> Seq<Seq<char>> {
    seq!["main"@, "master"@, "develop"@, "development"@]
}

/// The architectures to run for: those of the command line, else those of the
/// configuration, else that of the host.
pub open spec fn chosen_arches(global: Seq<Seq<char>>, configured: FilterView, host: Seq<char>) -> Seq<Seq<char>> {
    if global.len() > 0 {
        global
    } else if configured.items().len() == 0 {
        seq![host]
    } else {
        configured.items()
    }
}

/// The container settings of the defaults: the project kind and the architectures of
/// the defaults hold where the container has none of its own.
pub open spec fn container_defaults(defaults: DefaultsConfigView) -> ContainerView {
    let c = defaults.container;
    ContainerView {
        kind: over(defaults.tech_stack, c.kind),
        arch: if c.arch.items().len() == 0 && defaults.arch.items().len() > 0 {
            defaults.arch
        } else {
            c.arch
        },
        ..c
    }
}

/// The settings for everything that a configuration file and the command line give.
pub open spec fn resolved_defaults(
    file: DefaultsConfigView,
    node_image: Option<Seq<char>>,
    global_arch: Seq<Seq<char>>,
    global_git_mode: Option<GitMode>,
    global_git_command: Option<Seq<char>>,
    global_git_image: Option<Seq<char>>,
    host: Seq<char>,
) -> DefaultsView {
    DefaultsView {
        shell: or_else(file.shell, "/bin/sh"@),
        quiet: or_else(file.quiet, false),
        silent: or_else(file.silent, false),
        fail_fast: or_else(file.fail_fast, true),
        arch: chosen_arches(global_arch, file.arch, host),
        container: container_defaults(file),
        container_runtime: or_else(file.container_runtime, ContainerRuntime::Auto),
        git_mode: or_else(over(file.git_mode, global_git_mode), GitMode::Auto),
        git_command: over(file.git_command, global_git_command),
        git_image: or_else(over(file.git_image, global_git_image), "docker.io/alpine/git:latest"@),
        install_mode: or_else(file.install_mode, InstallMode::Link),
        recursive_checkout: or_else(file.recursive_checkout, true),
        branch_allow: if file.branches.allow.len() == 0 {
            standard_branches()
        } else {
            file.branches.allow
        },
        artifact_store: or_else(file.artifact_store, "artifacts"@),
        actions_cache: or_else(file.actions_cache, "actions-cache"@),
        node_image: or_else(node_image, "docker.io/library/node:20-alpine"@),
    }
}

/// The text of a setting, or of what holds where it is not set.
fn text_or(value: Option<String>, standard: &str) -> (r: String)
    ensures
        r@ == or_else(opt_text(value), standard@),
{
    match value {
        Some(v) => v,
        None => standard.to_owned(),
    }
}

/// The value of a setting, or what holds where it is not set.
fn value_or<T: Copy>(value: Option<T>, standard: T) -> (r: T)
    ensures
        r == or_else(value, standard),
{
    match value {
        Some(v) => v,
        None => standard,
    }
}

/// The architectures to run for.
pub fn selected_arches(global: &[Architecture], configured: &ArchFilter, host: &Architecture) -> (r: Vec<
    Architecture,
>)
    ensures
        arch_names(r@) == chosen_arches(arch_names(global@), configured@, host@),
{
    if global.len() > 0 {
        return copy_arches(global);
    }
    let listed = configured.to_vec();
    assert(arch_names(listed@).len() == listed@.len());
    if listed.is_empty() {
        let mut out: Vec<Architecture> = Vec::new();
        out.push(host.duplicate());
        assert(arch_names(out@) =~= seq![host@]);
        out
    } else {
        listed
    }
}

/// The container settings of the defaults.
pub fn default_container_config(defaults: &DefaultsConfig) -> (r: ContainerConfig)
    ensures
        r@ == container_defaults(defaults@),
{
    let mut container = defaults.container.duplicate();
    if container.kind.is_none() {
        container.kind = defaults.tech_stack;
    }
    if container.arch.is_empty() && !defaults.arch.is_empty() {
        container.arch = defaults.arch.duplicate();
    }
    assert(container@ =~= container_defaults(defaults@));
    container
}

/// The branches that automatic runs are limited to where nothing is set.
fn default_branches() -> (r: Vec<String>)
    ensures
        texts(r@) == standard_branches(),
{
    let mut out: Vec<String> = Vec::new();
    out.push("main".to_owned());
    out.push("master".to_owned());
    out.push("develop".to_owned());
    out.push("development".to_owned());
    assert(texts(out@) =~= standard_branches());
    out
}

/// The configuration that a run goes by.
pub struct ResolvedConfig {
    pub path: String,
    pub loaded: bool,
    pub global_tech_stack: Option<ContainerType>,
    pub defaults: Defaults,
    pub hooks: NameMap<WorkflowOverride>,
    pub workflows: NameMap<WorkflowOverride>,
    pub actions: ActionsConfig,
}

/// The settings under a name; none where the name is not there.
pub open spec fn settings_for(map: Map<Seq<char>, OverrideView>, name: Seq<char>) -> OverrideView {
    if map.contains_key(name) {
        map[name]
    } else {
        OverrideView::nothing()
    }
}

impl ResolvedConfig {
    /// The path of the configuration file: the one asked for, else `config.yml` in the
    /// directory of the workflows.
    pub fn config_path(requested: &Option<String>, ci_dir: &str) -> (r: String)
        ensures
            r@ == or_else(opt_text(*requested), joined(ci_dir@, "config.yml"@)),
    {
        match requested {
            Some(path) => path.clone(),
            None => join_path(ci_dir, "config.yml"),
        }
    }

    /// The configuration that a file and the command line give. `loaded` says whether
    /// there was a file; where there was none, `file` is an empty one.
    pub fn load(path: String, loaded: bool, file: ConfigFile, global: &GlobalOptions, host: &Architecture) -> (r: Self)
        ensures
            r.path@ == path@,
            r.loaded == loaded,
            r.global_tech_stack == global.tech_stack,
            r.defaults@ == resolved_defaults(
                file.root_defaults@.under(file.defaults@),
                opt_text(file.actions.node_image),
                arch_names(global.arch@),
                global.git_mode,
                opt_text(global.git_command),
                opt_text(global.git_image),
                host@,
            ),
            r.hooks@ == file.hooks@,
            r.workflows@ == file.workflows@,
            opt_text(r.actions.node_image) == opt_text(file.actions.node_image),
    {
        let merged = file.root_defaults.merge(&file.defaults);
        let branch_allow = if merged.branches.allow.is_empty() {
            default_branches()
        } else {
            copy_list(merged.branches.allow.as_slice())
        };
        let defaults = Defaults {
            shell: text_or(copy_opt(&merged.shell), "/bin/sh"),
            quiet: value_or(merged.quiet, false),
            silent: value_or(merged.silent, false),
            fail_fast: value_or(merged.fail_fast, true),
            arch: selected_arches(global.arch.as_slice(), &merged.arch, host),
            container: default_container_config(&merged),
            container_runtime: value_or(merged.container_runtime, ContainerRuntime::Auto),
            git_mode: value_or(pick(global.git_mode, merged.git_mode), GitMode::Auto),
            git_command: pick_text(&global.git_command, &merged.git_command),
            git_image: text_or(
                pick_text(&global.git_image, &merged.git_image),
                "docker.io/alpine/git:latest",
            ),
            install_mode: value_or(merged.install_mode, InstallMode::Link),
            recursive_checkout: value_or(merged.recursive_checkout, true),
            branch_allow,
            artifact_store: text_or(copy_opt(&merged.artifact_store), "artifacts"),
            actions_cache: text_or(copy_opt(&merged.actions_cache), "actions-cache"),
            node_image: text_or(
                copy_opt(&file.actions.node_image),
                "docker.io/library/node:20-alpine",
            ),
        };
        ResolvedConfig {
            path,
            loaded,
            global_tech_stack: global.tech_stack,
            defaults,
            hooks: file.hooks,
            workflows: file.workflows,
            actions: file.actions,
        }
    }

    /// The settings for a workflow.
    pub fn workflow_override(&self, name: &str) -> (r: WorkflowOverride)
        ensures
            r@ == settings_for(self.workflows@, name@),
    {
        match self.workflows.get(name) {
            Some(found) => found.duplicate(),
            None => WorkflowOverride::default(),
        }
    }

    /// The settings for a hook.
    pub fn hook_override(&self, event: &str) -> (r: WorkflowOverride)
        ensures
            r@ == settings_for(self.hooks@, event@),
    {
        match self.hooks.get(event) {
            Some(found) => found.duplicate(),
            None => WorkflowOverride::default(),
        }
    }
}

/// Laying settings over one another does not depend on the grouping.
pub proof fn law_override_layers_associate(a: OverrideView, b: OverrideView, c: OverrideView)
    ensures
        a.under(b).under(c) == a.under(b.under(c)),
{
    assert(a.under(b).under(c) =~= a.under(b.under(c)));
    assert(a.env.union_prefer_right(b.env).union_prefer_right(c.env)
        =~= a.env.union_prefer_right(b.env.union_prefer_right(c.env)));
    assert(a.container.env.union_prefer_right(b.container.env).union_prefer_right(c.container.env)
        =~= a.container.env.union_prefer_right(b.container.env.union_prefer_right(c.container.env)));
}

/// Laying no settings over others, or others over none, changes nothing.
pub proof fn law_override_without_settings(a: OverrideView)
    ensures
        a.under(OverrideView::nothing()) == a,
        OverrideView::nothing().under(a) == a,
{
    assert(a.env.union_prefer_right(Map::empty()) =~= a.env);
    assert(Map::<Seq<char>, Seq<char>>::empty().union_prefer_right(a.env) =~= a.env);
    assert(a.container.env.union_prefer_right(Map::empty()) =~= a.container.env);
    assert(Map::<Seq<char>, Seq<char>>::empty().union_prefer_right(a.container.env) =~= a.container.env);
    lemma_filter_identity(a.on);
    lemma_filter_identity(a.arch);
    lemma_filter_identity(a.container.arch);
    lemma_list_identity(a.branches.allow);
    lemma_list_identity(a.branches.only);
    lemma_list_identity(a.artifacts.paths);
    lemma_list_identity(a.container.packages);
    lemma_list_identity(a.container.components);
    lemma_list_identity(a.container.volumes);
    assert(a.under(OverrideView::nothing()) =~= a);
    assert(OverrideView::nothing().under(a) =~= a);
}

proof fn lemma_filter_identity(f: FilterView)
    ensures
        f.under(FilterView::Unset) == f,
        FilterView::Unset.under(f) == f,
{
}

proof fn lemma_list_identity<T>(s: Seq<T>)
    ensures
        list_over(s, Seq::empty()) == s,
        list_over(Seq::empty(), s) == s,
{
    if s.len() == 0 {
        assert(s =~= Seq::<T>::empty());
    }
}

/// Laying defaults over one another does not depend on the grouping.
pub proof fn law_defaults_layers_associate(a: DefaultsConfigView, b: DefaultsConfigView, c: DefaultsConfigView)
    ensures
        a.under(b).under(c) == a.under(b.under(c)),
{
    assert(a.container.env.union_prefer_right(b.container.env).union_prefer_right(c.container.env)
        =~= a.container.env.union_prefer_right(b.container.env.union_prefer_right(c.container.env)));
    assert(a.under(b).under(c) =~= a.under(b.under(c)));
}

/// The settings of a configuration file can stand at its top or under `defaults`.
pub proof fn law_settings_may_be_wrapped(a: DefaultsConfigView)
    ensures
        a.under(DefaultsConfigView::nothing()) == a,
        DefaultsConfigView::nothing().under(a) == a,
{
    assert(a.container.env.union_prefer_right(Map::empty()) =~= a.container.env);
    assert(Map::<Seq<char>, Seq<char>>::empty().union_prefer_right(a.container.env) =~= a.container.env);
    lemma_filter_identity(a.arch);
    lemma_filter_identity(a.container.arch);
    lemma_list_identity(a.branches.allow);
    lemma_list_identity(a.branches.only);
    lemma_list_identity(a.container.packages);
    lemma_list_identity(a.container.components);
    lemma_list_identity(a.container.volumes);
    assert(a.under(DefaultsConfigView::nothing()) =~= a);
    assert(DefaultsConfigView::nothing().under(a) =~= a);
}

/// Settings laid over themselves stay as they are.
pub proof fn law_settings_over_themselves_stay(a: OverrideView, b: DefaultsConfigView)
    ensures
        a.under(a) == a,
        b.under(b) == b,
{
    assert(a.env.union_prefer_right(a.env) =~= a.env);
    assert(a.container.env.union_prefer_right(a.container.env) =~= a.container.env);
    assert(b.container.env.union_prefer_right(b.container.env) =~= b.container.env);
    assert(a.under(a) =~= a);
    assert(b.under(b) =~= b);
}

/// What the upper level sets, holds, whatever stands below; the variables below stay,
/// where the upper level does not set them.
pub proof fn law_upper_settings_win(below: OverrideView, top: OverrideView)
    ensures
        top.tech_stack is Some ==> below.under(top).tech_stack == top.tech_stack,
        top.artifacts.mode is Some ==> below.under(top).artifacts.mode == top.artifacts.mode,
        top.artifacts.destination is Some ==> below.under(top).artifacts.destination == top.artifacts.destination,
        top.execution.shell is Some ==> below.under(top).execution.shell == top.execution.shell,
        top.execution.workspace is Some ==> below.under(top).execution.workspace == top.execution.workspace,
        top.container.kind is Some ==> below.under(top).container.kind == top.container.kind,
        top.container.image is Some ==> below.under(top).container.image == top.container.image,
        top.container.platform is Some ==> below.under(top).container.platform == top.container.platform,
        top.container.workdir is Some ==> below.under(top).container.workdir == top.container.workdir,
        top.container.readonly is Some ==> below.under(top).container.readonly == top.container.readonly,
        !(top.on is Unset) ==> below.under(top).on == top.on,
        !(top.arch is Unset) ==> below.under(top).arch == top.arch,
        !(top.container.arch is Unset) ==> below.under(top).container.arch == top.container.arch,
        top.branches.allow.len() > 0 ==> below.under(top).branches.allow == top.branches.allow,
        top.branches.only.len() > 0 ==> below.under(top).branches.only == top.branches.only,
        top.artifacts.paths.len() > 0 ==> below.under(top).artifacts.paths == top.artifacts.paths,
        top.container.packages.len() > 0 ==> below.under(top).container.packages == top.container.packages,
        top.container.components.len() > 0 ==> below.under(top).container.components == top.container.components,
        top.container.volumes.len() > 0 ==> below.under(top).container.volumes == top.container.volumes,
        forall|k: Seq<char>|
            top.env.contains_key(k) ==> #[trigger] below.under(top).env.contains_key(k)
                && below.under(top).env[k] == top.env[k],
        forall|k: Seq<char>|
            below.env.contains_key(k) && !top.env.contains_key(k)
                ==> #[trigger] below.under(top).env.contains_key(k) && below.under(top).env[k]
                == below.env[k],
        forall|k: Seq<char>|
            top.container.env.contains_key(k) ==> #[trigger] below.under(top).container.env.contains_key(k)
                && below.under(top).container.env[k] == top.container.env[k],
        forall|k: Seq<char>|
            below.container.env.contains_key(k) && !top.container.env.contains_key(k)
                ==> #[trigger] below.under(top).container.env.contains_key(k) && below.under(top).container.env[k]
                == below.container.env[k],
{
}

/// Every word for a setting is read as the setting that it is shown for, and so no two
/// settings share one.
pub proof fn law_words_are_read_back(color: ColorWhen, mode: InstallMode, kind: ContainerType)
    ensures
        color_named(color.word()) == Some(color),
        install_mode_named(mode.word()) == Some(mode),
        stack_named(kind.word()) == Some(kind),
{
    reveal_strlit("auto");
    reveal_strlit("always");
    reveal_strlit("never");
    reveal_strlit("link");
    reveal_strlit("copy");
    reveal_strlit("general");
    reveal_strlit("rust");
    reveal_strlit("node");
    reveal_strlit("go");
    reveal_strlit("python");
    reveal_strlit("maven");
    reveal_strlit("gradle");
    reveal_strlit("dotnet");
    reveal_strlit("golang");
    reveal_strlit("py");
    assert("always"@.len() != "auto"@.len());
    assert("never"@.len() != "auto"@.len());
    assert("never"@.len() != "always"@.len());
    assert("copy"@[0] != "link"@[0]);
    assert("general"@.len() != "auto"@.len());
    assert("rust"@[0] != "auto"@[0]);
    assert("rust"@.len() != "general"@.len());
    assert("node"@[0] != "auto"@[0]);
    assert("node"@.len() != "general"@.len());
    assert("node"@[0] != "rust"@[0]);
    assert("go"@.len() != "auto"@.len());
    assert("go"@.len() != "general"@.len());
    assert("go"@.len() != "rust"@.len());
    assert("go"@.len() != "node"@.len());
    assert("golang"@.len() != "auto"@.len());
    assert("golang"@.len() != "general"@.len());
    assert("golang"@.len() != "rust"@.len());
    assert("golang"@.len() != "node"@.len());
    assert("golang"@.len() != "go"@.len());
    assert("python"@.len() != "auto"@.len());
    assert("python"@.len() != "general"@.len());
    assert("python"@.len() != "rust"@.len());
    assert("python"@.len() != "node"@.len());
    assert("python"@.len() != "go"@.len());
    assert("python"@[0] != "golang"@[0]);
    assert("py"@.len() != "auto"@.len());
    assert("py"@.len() != "general"@.len());
    assert("py"@.len() != "rust"@.len());
    assert("py"@.len() != "node"@.len());
    assert("py"@[0] != "go"@[0]);
    assert("py"@.len() != "golang"@.len());
    assert("py"@.len() != "python"@.len());
    assert("maven"@.len() != "auto"@.len());
    assert("maven"@.len() != "general"@.len());
    assert("maven"@.len() != "rust"@.len());
    assert("maven"@.len() != "node"@.len());
    assert("maven"@.len() != "go"@.len());
    assert("maven"@.len() != "golang"@.len());
    assert("maven"@.len() != "python"@.len());
    assert("maven"@.len() != "py"@.len());
    assert("gradle"@.len() != "auto"@.len());
    assert("gradle"@.len() != "general"@.len());
    assert("gradle"@.len() != "rust"@.len());
    assert("gradle"@.len() != "node"@.len());
    assert("gradle"@.len() != "go"@.len());
    assert("gradle"@[1] != "golang"@[1]);
    assert("gradle"@[0] != "python"@[0]);
    assert("gradle"@.len() != "py"@.len());
    assert("gradle"@.len() != "maven"@.len());
    assert("dotnet"@.len() != "auto"@.len());
    assert("dotnet"@.len() != "general"@.len());
    assert("dotnet"@.len() != "rust"@.len());
    assert("dotnet"@.len() != "node"@.len());
    assert("dotnet"@.len() != "go"@.len());
    assert("dotnet"@[0] != "golang"@[0]);
    assert("dotnet"@[0] != "python"@[0]);
    assert("dotnet"@.len() != "py"@.len());
    assert("dotnet"@.len() != "maven"@.len());
    assert("dotnet"@[0] != "gradle"@[0]);
}

/// Each choice has its own word, and a word that is no choice is not read.
pub proof fn law_words_of_choices(word: Seq<char>)
    ensures
        runtime_named(word) == Some(ContainerRuntime::Podman) <==> word == "podman"@,
        runtime_named(word) == Some(ContainerRuntime::Docker) <==> word == "docker"@,
        runtime_named(word) == Some(ContainerRuntime::Auto) <==> word == "auto"@,
        git_mode_named(word) == Some(GitMode::Host) <==> word == "host"@,
        git_mode_named(word) == Some(GitMode::Auto) <==> word == "auto"@,
        git_mode_named(word) == Some(GitMode::Alias) <==> word == "alias"@,
        artifact_mode_named(word) == Some(ArtifactMode::Keep) <==> word == "keep"@,
        artifact_mode_named(word) == Some(ArtifactMode::Move) <==> word == "move"@,
        install_mode_named(word) == Some(InstallMode::Link) <==> word == "link"@,
        install_mode_named(word) == Some(InstallMode::Copy) <==> word == "copy"@,
        stack_named(word) == Some(ContainerType::Go) <==> word == "go"@ || word == "golang"@,
        stack_named(word) == Some(ContainerType::Python) <==> word == "python"@ || word == "py"@,
{
    reveal_strlit("podman");
    reveal_strlit("docker");
    reveal_strlit("auto");
    reveal_strlit("host");
    reveal_strlit("alias");
    reveal_strlit("keep");
    reveal_strlit("move");
    reveal_strlit("link");
    reveal_strlit("copy");
    reveal_strlit("go");
    reveal_strlit("golang");
    reveal_strlit("python");
    reveal_strlit("py");
    reveal_strlit("general");
    reveal_strlit("rust");
    reveal_strlit("node");
    reveal_strlit("maven");
    reveal_strlit("gradle");
    reveal_strlit("dotnet");
    assert("docker"@[0] != "podman"@[0]);
    assert("auto"@.len() != "podman"@.len());
    assert("auto"@.len() != "docker"@.len());
    assert("auto"@[0] != "host"@[0]);
    assert("alias"@.len() != "host"@.len());
    assert("alias"@.len() != "auto"@.len());
    assert("move"@[0] != "keep"@[0]);
    assert("copy"@[0] != "link"@[0]);
    assert("general"@.len() != "auto"@.len());
    assert("rust"@[0] != "auto"@[0]);
    assert("rust"@.len() != "general"@.len());
    assert("node"@[0] != "auto"@[0]);
    assert("node"@.len() != "general"@.len());
    assert("node"@[0] != "rust"@[0]);
    assert("go"@.len() != "auto"@.len());
    assert("go"@.len() != "general"@.len());
    assert("go"@.len() != "rust"@.len());
    assert("go"@.len() != "node"@.len());
    assert("golang"@.len() != "auto"@.len());
    assert("golang"@.len() != "general"@.len());
    assert("golang"@.len() != "rust"@.len());
    assert("golang"@.len() != "node"@.len());
    assert("golang"@.len() != "go"@.len());
    assert("python"@.len() != "auto"@.len());
    assert("python"@.len() != "general"@.len());
    assert("python"@.len() != "rust"@.len());
    assert("python"@.len() != "node"@.len());
    assert("python"@.len() != "go"@.len());
    assert("python"@[0] != "golang"@[0]);
    assert("py"@.len() != "auto"@.len());
    assert("py"@.len() != "general"@.len());
    assert("py"@.len() != "rust"@.len());
    assert("py"@.len() != "node"@.len());
    assert("py"@[0] != "go"@[0]);
    assert("py"@.len() != "golang"@.len());
    assert("py"@.len() != "python"@.len());
    assert("maven"@.len() != "auto"@.len());
    assert("maven"@.len() != "general"@.len());
    assert("maven"@.len() != "rust"@.len());
    assert("maven"@.len() != "node"@.len());
    assert("maven"@.len() != "go"@.len());
    assert("maven"@.len() != "golang"@.len());
    assert("maven"@.len() != "python"@.len());
    assert("maven"@.len() != "py"@.len());
    assert("gradle"@.len() != "auto"@.len());
    assert("gradle"@.len() != "general"@.len());
    assert("gradle"@.len() != "rust"@.len());
    assert("gradle"@.len() != "node"@.len());
    assert("gradle"@.len() != "go"@.len());
    assert("gradle"@[1] != "golang"@[1]);
    assert("gradle"@[0] != "python"@[0]);
    assert("gradle"@.len() != "py"@.len());
    assert("gradle"@.len() != "maven"@.len());
    assert("dotnet"@.len() != "auto"@.len());
    assert("dotnet"@.len() != "general"@.len());
    assert("dotnet"@.len() != "rust"@.len());
    assert("dotnet"@.len() != "node"@.len());
    assert("dotnet"@.len() != "go"@.len());
    assert("dotnet"@[0] != "golang"@[0]);
    assert("dotnet"@[0] != "python"@[0]);
    assert("dotnet"@.len() != "py"@.len());
    assert("dotnet"@.len() != "maven"@.len());
    assert("dotnet"@[0] != "gradle"@[0]);
}

/// What the command line asks for holds against the file, and what the file says holds
/// against what is usual: a step runs with `/bin/sh`, a run stops at the first failure,
/// submodules are brought in, runners are links, and runs keep to the usual branches.
pub proof fn law_the_usual_settings(
    file: DefaultsConfigView,
    node_image: Option<Seq<char>>,
    arch: Seq<Seq<char>>,
    mode: Option<GitMode>,
    command: Option<Seq<char>>,
    image: Option<Seq<char>>,
    host: Seq<char>,
)
    ensures
        ({
            let d = resolved_defaults(file, node_image, arch, mode, command, image, host);
            let bare = resolved_defaults(DefaultsConfigView::nothing(), None, Seq::empty(), None, None, None, host);
            &&& bare.shell == "/bin/sh"@ && !bare.quiet && !bare.silent && bare.fail_fast && bare.recursive_checkout
            &&& bare.arch == seq![host] && bare.container_runtime is Auto && bare.git_mode is Auto
            &&& bare.git_command is None && bare.install_mode is Link
            &&& bare.branch_allow == seq!["main"@, "master"@, "develop"@, "development"@]
            &&& bare.container == ContainerView::nothing()
            &&& file.shell matches Some(v) ==> d.shell == v
            &&& file.quiet matches Some(v) ==> d.quiet == v
            &&& file.silent matches Some(v) ==> d.silent == v
            &&& file.fail_fast matches Some(v) ==> d.fail_fast == v
            &&& file.recursive_checkout matches Some(v) ==> d.recursive_checkout == v
            &&& file.container_runtime matches Some(v) ==> d.container_runtime == v
            &&& file.install_mode matches Some(v) ==> d.install_mode == v
            &&& file.artifact_store matches Some(v) ==> d.artifact_store == v
            &&& file.actions_cache matches Some(v) ==> d.actions_cache == v
            &&& file.branches.allow.len() > 0 ==> d.branch_allow == file.branches.allow
            &&& node_image matches Some(v) ==> d.node_image == v
            &&& mode matches Some(v) ==> d.git_mode == v
            &&& mode is None && file.git_mode is Some ==> d.git_mode == file.git_mode->0
            &&& command is Some ==> d.git_command == command
            &&& command is None ==> d.git_command == file.git_command
            &&& image matches Some(v) ==> d.git_image == v
            &&& image is None && file.git_image is Some ==> d.git_image == file.git_image->0
            &&& arch.len() > 0 ==> d.arch == arch
            &&& arch.len() == 0 && file.arch.items().len() > 0 ==> d.arch == file.arch.items()
        }),
{
    let bare = resolved_defaults(DefaultsConfigView::nothing(), None, Seq::empty(), None, None, None, host);
    assert(bare.branch_allow =~= seq!["main"@, "master"@, "develop"@, "development"@]);
    assert(bare.container =~= ContainerView::nothing());
}

/// The kind of project and the architectures of the defaults are those of the container,
/// where it has none of its own.
pub proof fn law_containers_take_after_the_defaults(d: DefaultsConfigView)
    ensures
        d.container.kind is Some ==> container_defaults(d).kind == d.container.kind,
        d.container.kind is None ==> container_defaults(d).kind == d.tech_stack,
        d.container.arch.items().len() > 0 ==> container_defaults(d).arch == d.container.arch,
        d.container.arch.items().len() == 0 ==> container_defaults(d).arch.items() == d.arch.items(),
        container_defaults(d).image == d.container.image,
        container_defaults(d).packages == d.container.packages,
        container_defaults(d).components == d.container.components,
        container_defaults(d).env == d.container.env,
{
    if d.container.arch.items().len() == 0 && d.arch.items().len() == 0 {
        assert(d.container.arch.items() =~= d.arch.items());
    }
}

/// A filter without names lets everything pass, and one with names lets pass what it names.
pub proof fn law_what_a_filter_lets_pass(f: FilterView, name: Seq<char>)
    ensures
        FilterView::Unset.passes(name),
        FilterView::Single(name).passes(name),
        f.items().contains(name) ==> f.passes(name),
        f.items().len() > 0 && f.passes(name) ==> f.items().contains(name),
{
    assert(FilterView::Single(name).items()[0] == name);
}

} // verus!
