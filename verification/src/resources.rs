//! Package resources: where they come from, and how they are grouped for
//! display.

use crate::order::{is_stable_order, ranks, sort_indices, stable_order, Ranked};
use crate::session::clone_opt;
use crate::text::{
    char_texts, chars_of, has_prefix, is_text_at_most, join, join_strs, lemma_text_order_total,
    lemma_text_order_transitive, push_char, push_text, split, split_chars, str_eq, string_of,
    text_at_most, texts, trim, trim_slice,
};
use vstd::prelude::*;
use vstd::slice::slice_subrange;
use vstd::string::*;

verus! {

broadcast use vstd::string::group_string_axioms;

/// The kind of a resource.
#[derive(Clone, Copy, Debug, PartialEq, Eq, Structural)]
pub enum ResourceType {
    Extensions,
    Skills,
    Prompts,
    Themes,
}

/// The name of a resource type in the settings.
pub open spec fn type_key(resource_type: ResourceType) -> Seq<char> {
    match resource_type {
        ResourceType::Extensions => "extensions"@,
        ResourceType::Skills => "skills"@,
        ResourceType::Prompts => "prompts"@,
        ResourceType::Themes => "themes"@,
    }
}

/// The label of a resource type.
pub open spec fn type_label(resource_type: ResourceType) -> Seq<char> {
    match resource_type {
        ResourceType::Extensions => "Extensions"@,
        ResourceType::Skills => "Skills"@,
        ResourceType::Prompts => "Prompts"@,
        ResourceType::Themes => "Themes"@,
    }
}

impl ResourceType {
    /// The name in the settings.
    pub fn as_str(self) -> (r: &'static str)
        ensures
            r@ == type_key(self),
    {
        match self {
            ResourceType::Extensions => "extensions",
            ResourceType::Skills => "skills",
            ResourceType::Prompts => "prompts",
            ResourceType::Themes => "themes",
        }
    }

    /// The label of a subgroup.
    pub fn label(self) -> (r: &'static str)
        ensures
            r@ == type_label(self),
    {
        match self {
            ResourceType::Extensions => "Extensions",
            ResourceType::Skills => "Skills",
            ResourceType::Prompts => "Prompts",
            ResourceType::Themes => "Themes",
        }
    }
}

/// Which settings a resource belongs to.
#[derive(Clone, Copy, Debug, PartialEq, Eq, Structural)]
pub enum PackageScope {
    User,
    Project,
    Temporary,
}

/// Whether a resource belongs to a package.
#[derive(Clone, Copy, Debug, PartialEq, Eq, Structural)]
pub enum ResourceOrigin {
    Package,
    TopLevel,
}

/// Where a resource comes from.
#[derive(Debug, PartialEq, Eq)]
pub struct PathMetadata {
    pub source: String,
    pub scope: PackageScope,
    pub origin: ResourceOrigin,
    pub base_dir: Option<String>,
}

impl Clone for PathMetadata {
    fn clone(&self) -> (r: Self)
        ensures
            r == *self,
    {
        PathMetadata {
            source: self.source.clone(),
            scope: self.scope,
            origin: self.origin,
            base_dir: clone_opt(&self.base_dir),
        }
    }
}

/// A resource that was found.
#[derive(Debug)]
pub struct ResolvedResource {
    pub path: String,
    pub enabled: bool,
    pub metadata: PathMetadata,
}

/// The resources that were found, by type.
#[derive(Debug)]
pub struct ResolvedPaths {
    pub extensions: Vec<ResolvedResource>,
    pub skills: Vec<ResolvedResource>,
    pub prompts: Vec<ResolvedResource>,
    pub themes: Vec<ResolvedResource>,
}

/// The resources of the global and of the project settings.
#[derive(Debug)]
pub struct ScopedResolvedPaths {
    pub global: ResolvedPaths,
    pub project: ResolvedPaths,
}

/// One resource as it is listed.
#[derive(Debug, PartialEq, Eq)]
pub struct ResourceItem {
    pub path: String,
    pub enabled: bool,
    pub metadata: PathMetadata,
    pub resource_type: ResourceType,
    pub display_name: String,
    pub group_key: String,
    pub subgroup_key: String,
}

impl Clone for ResourceItem {
    fn clone(&self) -> (r: Self)
        ensures
            r == *self,
    {
        ResourceItem {
            path: self.path.clone(),
            enabled: self.enabled,
            metadata: self.metadata.clone(),
            resource_type: self.resource_type,
            display_name: self.display_name.clone(),
            group_key: self.group_key.clone(),
            subgroup_key: self.subgroup_key.clone(),
        }
    }
}

/// The content of an item.
#[verifier::ext_equal]
pub struct ItemView {
    pub path: Seq<char>,
    pub enabled: bool,
    pub metadata: PathMetadata,
    pub resource_type: ResourceType,
    pub display_name: Seq<char>,
    pub group_key: Seq<char>,
    pub subgroup_key: Seq<char>,
}

impl View for ResourceItem {
    type V = ItemView;

    open spec fn view(&self) -> ItemView {
        ItemView {
            path: self.path@,
            enabled: self.enabled,
            metadata: self.metadata,
            resource_type: self.resource_type,
            display_name: self.display_name@,
            group_key: self.group_key@,
            subgroup_key: self.subgroup_key@,
        }
    }
}

/// The contents of a list of items.
pub open spec fn item_views(items: Seq<ResourceItem>) -> Seq<ItemView> {
    items.map_values(|i: ResourceItem| i@)
}

/// The resources of one type in a group.
#[derive(Debug)]
pub struct ResourceSubgroup {
    pub resource_type: ResourceType,
    pub label: &'static str,
    pub items: Vec<ResourceItem>,
}

/// The content of a subgroup.
#[verifier::ext_equal]
pub struct SubgroupView {
    pub resource_type: ResourceType,
    pub label: Seq<char>,
    pub items: Seq<ItemView>,
}

impl View for ResourceSubgroup {
    type V = SubgroupView;

    open spec fn view(&self) -> SubgroupView {
        SubgroupView {
            resource_type: self.resource_type,
            label: self.label@,
            items: item_views(self.items@),
        }
    }
}

impl Clone for ResourceSubgroup {
    fn clone(&self) -> (r: Self)
        ensures
            r@ == self@,
    {
        let mut items: Vec<ResourceItem> = Vec::new();
        let mut i: usize = 0;
        while i < self.items.len()
            invariant
                i <= self.items.len(),
                items@ =~= self.items@.take(i as int),
            decreases self.items.len() - i,
        {
            items.push(self.items[i].clone());
            i = i + 1;
        }
        assert(items@ =~= self.items@);
        ResourceSubgroup { resource_type: self.resource_type, label: self.label, items }
    }
}

/// The contents of a list of subgroups.
pub open spec fn subgroup_views(subgroups: Seq<ResourceSubgroup>) -> Seq<SubgroupView> {
    subgroups.map_values(|s: ResourceSubgroup| s@)
}

/// The resources from one source.
#[derive(Debug)]
pub struct ResourceGroup {
    pub key: String,
    pub label: String,
    pub scope: PackageScope,
    pub origin: ResourceOrigin,
    pub source: String,
    pub subgroups: Vec<ResourceSubgroup>,
}

/// The content of a group.
#[verifier::ext_equal]
pub struct GroupView {
    pub key: Seq<char>,
    pub label: Seq<char>,
    pub scope: PackageScope,
    pub origin: ResourceOrigin,
    pub source: Seq<char>,
    pub subgroups: Seq<SubgroupView>,
}

impl View for ResourceGroup {
    type V = GroupView;

    open spec fn view(&self) -> GroupView {
        GroupView {
            key: self.key@,
            label: self.label@,
            scope: self.scope,
            origin: self.origin,
            source: self.source@,
            subgroups: subgroup_views(self.subgroups@),
        }
    }
}

impl Clone for ResourceGroup {
    fn clone(&self) -> (r: Self)
        ensures
            r@ == self@,
    {
        let mut subgroups: Vec<ResourceSubgroup> = Vec::new();
        let mut i: usize = 0;
        while i < self.subgroups.len()
            invariant
                i <= self.subgroups.len(),
                subgroup_views(subgroups@) =~= subgroup_views(self.subgroups@).take(i as int),
            decreases self.subgroups.len() - i,
        {
            let ghost before = subgroups@;
            subgroups.push(self.subgroups[i].clone());
            assert(subgroup_views(subgroups@) =~= subgroup_views(before).push(subgroups@.last()@));
            i = i + 1;
        }
        assert(subgroup_views(subgroups@) =~= subgroup_views(self.subgroups@));
        ResourceGroup {
            key: self.key.clone(),
            label: self.label.clone(),
            scope: self.scope,
            origin: self.origin,
            source: self.source.clone(),
            subgroups,
        }
    }
}

/// The contents of a list of groups.
pub open spec fn group_views(groups: Seq<ResourceGroup>) -> Seq<GroupView> {
    groups.map_values(|g: ResourceGroup| g@)
}

/// Whether the character separates the parts of a path.
pub open spec fn is_separator(c: char) -> bool {
    c == '/' || c == '\\'
}

/// Length of the path through its last separator; 0 when it has none.
pub open spec fn through_separator(s: Seq<char>) -> nat
    decreases s.len(),
{
    if s.len() == 0 {
        0
    } else if is_separator(s.last()) {
        s.len()
    } else {
        through_separator(s.drop_last())
    }
}

/// The last part of a path.
pub open spec fn base_name(path: Seq<char>) -> Seq<char> {
    path.skip(through_separator(path) as int)
}

/// The path without its last part.
pub open spec fn dir_name(path: Seq<char>) -> Seq<char> {
    let n = through_separator(path);
    if n == 0 {
        "."@
    } else if n == 1 {
        "/"@
    } else {
        path.take(n - 1)
    }
}

fn length_through_separator(s: &Vec<char>) -> (r: usize)
    ensures
        r == through_separator(s@),
        r <= s@.len(),
{
    let mut i: usize = s.len();
    assert(s@.take(s@.len() as int) =~= s@);
    while i > 0 && s[i - 1] != '/' && s[i - 1] != '\\'
        invariant
            i <= s.len(),
            through_separator(s@) == through_separator(s@.take(i as int)),
        decreases i,
    {
        assert(s@.take(i as int).drop_last() =~= s@.take(i - 1));
        i = i - 1;
    }
    i
}

/// The last part of a path.
pub fn basename(path: &str) -> (r: String)
    ensures
        r@ == base_name(path@),
{
    let chars = chars_of(path);
    let n: usize = length_through_separator(&chars);
    let part = slice_subrange(chars.as_slice(), n, chars.len());
    assert(part@ =~= base_name(path@));
    string_of(part)
}

/// The path without its last part.
pub fn dirname(path: &str) -> (r: String)
    ensures
        r@ == dir_name(path@),
{
    let chars = chars_of(path);
    let n: usize = length_through_separator(&chars);
    if n == 0 {
        ".".to_owned()
    } else if n == 1 {
        "/".to_owned()
    } else {
        let part = slice_subrange(chars.as_slice(), 0, n - 1);
        assert(part@ =~= path@.take(n - 1));
        string_of(part)
    }
}

/// The parts of a path with `.` dropped and each `..` taking back the part before it.
pub open spec fn normal_parts(parts: Seq<Seq<char>>) -> Seq<Seq<char>>
    decreases parts.len(),
{
    if parts.len() == 0 {
        Seq::empty()
    } else {
        let before = normal_parts(parts.drop_last());
        let part = parts.last();
        if part.len() == 0 || part == "."@ {
            before
        } else if part == ".."@ {
            if before.len() > 0 {
                before.drop_last()
            } else {
                before
            }
        } else {
            before.push(part)
        }
    }
}

/// How many parts two paths share at their start.
pub open spec fn shared_parts(a: Seq<Seq<char>>, b: Seq<Seq<char>>) -> nat
    decreases a.len(),
{
    if a.len() > 0 && b.len() > 0 && a[0] == b[0] {
        1 + shared_parts(a.skip(1), b.skip(1))
    } else {
        0
    }
}

/// The path that leads from one absolute path to another.
pub open spec fn relative_path(from: Seq<char>, to: Seq<char>) -> Seq<char> {
    let a = normal_parts(split(from, '/'));
    let b = normal_parts(split(to, '/'));
    let n = shared_parts(a, b);
    join(Seq::new((a.len() - n) as nat, |i: int| ".."@) + b.skip(n as int), seq!['/'])
}

/// The parts of an absolute path, with `.` and `..` resolved.
pub fn path_parts(path: &str) -> (r: Vec<String>)
    ensures
        texts(r@) == normal_parts(split(path@, '/')),
{
    let chars = chars_of(path);
    let pieces = split_chars(chars.as_slice(), '/');
    let ghost all = char_texts(pieces@);
    let mut r: Vec<String> = Vec::new();
    let mut i: usize = 0;
    assert(all.take(0) =~= Seq::empty());
    while i < pieces.len()
        invariant
            i <= pieces.len(),
            all == char_texts(pieces@),
            texts(r@) =~= normal_parts(all.take(i as int)),
        decreases pieces.len() - i,
    {
        assert(all.take(i as int + 1).drop_last() =~= all.take(i as int));
        assert(all.take(i as int + 1).last() == pieces@[i as int]@);
        let part = string_of(pieces[i].as_slice());
        if part.as_str().is_empty() || str_eq(part.as_str(), ".") {
        } else if str_eq(part.as_str(), "..") {
            let ghost before = r@;
            if r.len() > 0 {
                let _ = r.pop();
                assert(texts(r@) =~= texts(before).drop_last());
            }
        } else {
            push_text(&mut r, part);
        }
        i = i + 1;
    }
    assert(all.take(i as int) =~= all);
    r
}

proof fn lemma_shared_parts(a: Seq<Seq<char>>, b: Seq<Seq<char>>, n: nat)
    requires
        n <= a.len(),
        n <= b.len(),
        forall|i: int| 0 <= i < n ==> a[i] == b[i],
        n == a.len() || n == b.len() || a[n as int] != b[n as int],
    ensures
        shared_parts(a, b) == n,
    decreases n,
{
    if n > 0 {
        assert(a[0] == b[0]);
        assert forall|i: int| 0 <= i < n - 1 implies a.skip(1)[i] == b.skip(1)[i] by {
            assert(a[i + 1] == b[i + 1]);
        }
        lemma_shared_parts(a.skip(1), b.skip(1), (n - 1) as nat);
    }
}

/// The path that leads from one absolute path to another.
pub fn relative_string(from: &str, to: &str) -> (r: String)
    ensures
        r@ == relative_path(from@, to@),
{
    proof {
        reveal_strlit("/");
        assert("/"@ =~= seq!['/']);
    }
    let a = path_parts(from);
    let b = path_parts(to);
    let mut n: usize = 0;
    while n < a.len() && n < b.len() && str_eq(a[n].as_str(), b[n].as_str())
        invariant
            n <= a.len(),
            n <= b.len(),
            forall|i: int| 0 <= i < n ==> texts(a@)[i] == texts(b@)[i],
        decreases a.len() - n,
    {
        assert(texts(a@)[n as int] == texts(b@)[n as int]);
        n = n + 1;
    }
    proof {
        if n < a.len() && n < b.len() {
            assert(texts(a@)[n as int] != texts(b@)[n as int]);
        }
        lemma_shared_parts(texts(a@), texts(b@), n as nat);
    }
    let ghost ups = Seq::new((a@.len() - n) as nat, |i: int| ".."@);
    let mut parts: Vec<String> = Vec::new();
    let mut i: usize = n;
    while i < a.len()
        invariant
            n <= i <= a.len(),
            texts(parts@) =~= Seq::new((i - n) as nat, |i: int| ".."@),
        decreases a.len() - i,
    {
        push_text(&mut parts, "..".to_owned());
        i = i + 1;
    }
    i = n;
    while i < b.len()
        invariant
            n <= i <= b.len(),
            texts(parts@) =~= ups + texts(b@).subrange(n as int, i as int),
        decreases b.len() - i,
    {
        push_text(&mut parts, b[i].clone());
        i = i + 1;
    }
    assert(texts(b@).subrange(n as int, b@.len() as int) =~= texts(b@).skip(n as int));
    join_strs(&parts, "/")
}

/// Whether the text starts with the prefix.
pub fn starts_with(s: &[char], prefix: &str) -> (r: bool)
    ensures
        r == prefix@.is_prefix_of(s@),
{
    let p = chars_of(prefix);
    has_prefix(s, p.as_slice())
}

/// Whether a package source is a path rather than something to fetch.
pub open spec fn is_local(value: Seq<char>) -> bool {
    let s = trim(value);
    !("npm:"@.is_prefix_of(s) || "git:"@.is_prefix_of(s) || "github:"@.is_prefix_of(s)
        || "http:"@.is_prefix_of(s) || "https:"@.is_prefix_of(s) || "ssh:"@.is_prefix_of(s))
}

/// Whether a package source is a path rather than something to fetch.
pub fn is_local_path(value: &str) -> (r: bool)
    ensures
        r == is_local(value@),
{
    let chars = chars_of(value);
    let s = trim_slice(chars.as_slice());
    !(starts_with(s, "npm:") || starts_with(s, "git:") || starts_with(s, "github:") || starts_with(
        s,
        "http:",
    ) || starts_with(s, "https:") || starts_with(s, "ssh:"))
}

/// The text with backslashes made slashes.
pub open spec fn forward_slashes(s: Seq<char>) -> Seq<char> {
    s.map_values(
        |c: char|
            if c == '\\' {
                '/'
            } else {
                c
            },
    )
}

fn with_forward_slashes(s: &[char]) -> (r: String)
    ensures
        r@ == forward_slashes(s@),
{
    let mut r = String::new();
    let mut i: usize = 0;
    while i < s.len()
        invariant
            i <= s.len(),
            r@ =~= forward_slashes(s@).take(i as int),
        decreases s.len() - i,
    {
        push_char(
            &mut r,
            if s[i] == '\\' {
                '/'
            } else {
                s[i]
            },
        );
        i = i + 1;
    }
    r
}

/// How a base directory is shown: the home directory as `~`, and a slash at the end.
pub open spec fn shown_base_dir(base: Seq<char>, home: Seq<char>) -> Seq<char> {
    let shown = if home.len() > 0 && base == home {
        seq!['~']
    } else if home.len() > 0 && home.is_prefix_of(base) {
        seq!['~'] + forward_slashes(base.skip(home.len() as int))
    } else {
        forward_slashes(base)
    };
    if shown.len() > 0 && shown.last() == '/' {
        shown
    } else {
        shown.push('/')
    }
}

/// How a base directory is shown. `home` is the user's home directory, or empty.
pub fn format_base_dir(base_dir: &str, home: &str) -> (r: String)
    ensures
        r@ == shown_base_dir(base_dir@, home@),
{
    let base = chars_of(base_dir);
    let home_chars = chars_of(home);
    let mut shown = String::new();
    if !home.is_empty() && str_eq(base_dir, home) {
        push_char(&mut shown, '~');
        assert(shown@ =~= seq!['~']);
    } else if !home.is_empty() && has_prefix(base.as_slice(), home_chars.as_slice()) {
        push_char(&mut shown, '~');
        let rest = slice_subrange(base.as_slice(), home_chars.len(), base.len());
        assert(rest@ =~= base_dir@.skip(home@.len() as int));
        let rest = with_forward_slashes(rest);
        shown.append(rest.as_str());
        assert(shown@ =~= seq!['~'] + rest@);
    } else {
        shown = with_forward_slashes(base.as_slice());
    }
    let chars = chars_of(shown.as_str());
    if chars.len() == 0 || chars[chars.len() - 1] != '/' {
        push_char(&mut shown, '/');
    }
    shown
}

/// The name of a scope.
pub open spec fn scope_name(scope: PackageScope) -> Seq<char> {
    match scope {
        PackageScope::User => "user"@,
        PackageScope::Project => "project"@,
        PackageScope::Temporary => "temporary"@,
    }
}

/// The name of an origin.
pub open spec fn origin_name(origin: ResourceOrigin) -> Seq<char> {
    match origin {
        ResourceOrigin::Package => "package"@,
        ResourceOrigin::TopLevel => "top-level"@,
    }
}

fn scope_str(scope: PackageScope) -> (r: &'static str)
    ensures
        r@ == scope_name(scope),
{
    match scope {
        PackageScope::User => "user",
        PackageScope::Project => "project",
        PackageScope::Temporary => "temporary",
    }
}

fn origin_str(origin: ResourceOrigin) -> (r: &'static str)
    ensures
        r@ == origin_name(origin),
{
    match origin {
        ResourceOrigin::Package => "package",
        ResourceOrigin::TopLevel => "top-level",
    }
}

/// The label of the group of a resource.
pub open spec fn group_label(
    metadata: PathMetadata,
    agent_dir: Seq<char>,
    home: Seq<char>,
) -> Seq<char> {
    if metadata.origin == ResourceOrigin::Package {
        metadata.source@ + " ("@ + scope_name(metadata.scope) + ")"@
    } else if metadata.source@ == "auto"@ {
        match metadata.base_dir {
            Some(base) => if metadata.scope == PackageScope::User {
                "User ("@ + shown_base_dir(base@, home) + ")"@
            } else {
                "Project ("@ + shown_base_dir(base@, home) + ")"@
            },
            None => if metadata.scope == PackageScope::User {
                "User ("@ + shown_base_dir(agent_dir, home) + ")"@
            } else {
                "Project (.pi/)"@
            },
        }
    } else if metadata.scope == PackageScope::User {
        "User settings"@
    } else {
        "Project settings"@
    }
}

/// The label of the group of a resource.
pub fn get_group_label(metadata: &PathMetadata, agent_dir: &str, home: &str) -> (r: String)
    ensures
        r@ == group_label(*metadata, agent_dir@, home@),
{
    if metadata.origin == ResourceOrigin::Package {
        return metadata.source.clone().concat(" (").concat(scope_str(metadata.scope)).concat(")");
    }
    if str_eq(metadata.source.as_str(), "auto") {
        let opening = if metadata.scope == PackageScope::User {
            "User ("
        } else {
            "Project ("
        };
        return match &metadata.base_dir {
            Some(base) => opening.to_owned().concat(
                format_base_dir(base.as_str(), home).as_str(),
            ).concat(")"),
            None => if metadata.scope == PackageScope::User {
                "User (".to_owned().concat(format_base_dir(agent_dir, home).as_str()).concat(")")
            } else {
                "Project (.pi/)".to_owned()
            },
        };
    }
    if metadata.scope == PackageScope::User {
        "User settings".to_owned()
    } else {
        "Project settings".to_owned()
    }
}

/// What resources of one group have in common.
pub open spec fn group_key(metadata: PathMetadata) -> Seq<char> {
    origin_name(metadata.origin) + ":"@ + scope_name(metadata.scope) + ":"@ + metadata.source@
        + ":"@ + match metadata.base_dir {
        Some(base) => base@,
        None => Seq::empty(),
    }
}

/// The name under which a resource is listed.
pub open spec fn listed_name(path: Seq<char>, resource_type: ResourceType) -> Seq<char> {
    let file = base_name(path);
    let folder = base_name(dir_name(path));
    if resource_type == ResourceType::Extensions && folder != "extensions"@ {
        folder + "/"@ + file
    } else if resource_type == ResourceType::Skills && file == "SKILL.md"@ {
        folder
    } else {
        file
    }
}

/// A resource as it is listed.
pub open spec fn listed_item(resource: ResolvedResource, resource_type: ResourceType) -> ItemView {
    ItemView {
        path: resource.path@,
        enabled: resource.enabled,
        metadata: resource.metadata,
        resource_type,
        display_name: listed_name(resource.path@, resource_type),
        group_key: group_key(resource.metadata),
        subgroup_key: group_key(resource.metadata) + ":"@ + type_key(resource_type),
    }
}

/// Resources of one type as they are listed.
pub open spec fn listed_items(
    resources: Seq<ResolvedResource>,
    resource_type: ResourceType,
) -> Seq<ItemView> {
    resources.map_values(|r: ResolvedResource| listed_item(r, resource_type))
}

/// All resources as they are listed.
pub open spec fn all_items(resolved: ResolvedPaths) -> Seq<ItemView> {
    listed_items(resolved.extensions@, ResourceType::Extensions) + listed_items(
        resolved.skills@,
        ResourceType::Skills,
    ) + listed_items(resolved.prompts@, ResourceType::Prompts) + listed_items(
        resolved.themes@,
        ResourceType::Themes,
    )
}

fn make_group_key(metadata: &PathMetadata) -> (r: String)
    ensures
        r@ == group_key(*metadata),
{
    let mut r = origin_str(metadata.origin).to_owned();
    r.append(":");
    r.append(scope_str(metadata.scope));
    r.append(":");
    r.append(metadata.source.as_str());
    r.append(":");
    if let Some(base) = &metadata.base_dir {
        r.append(base.as_str());
    }
    assert(r@ =~= group_key(*metadata));
    r
}

fn make_item(resource: &ResolvedResource, resource_type: ResourceType) -> (r: ResourceItem)
    ensures
        r@ == listed_item(*resource, resource_type),
{
    let path = resource.path.as_str();
    let file = basename(path);
    let folder = basename(dirname(path).as_str());
    let display_name = if resource_type == ResourceType::Extensions && !str_eq(
        folder.as_str(),
        "extensions",
    ) {
        folder.concat("/").concat(file.as_str())
    } else if resource_type == ResourceType::Skills && str_eq(file.as_str(), "SKILL.md") {
        folder
    } else {
        file
    };
    let group_key = make_group_key(&resource.metadata);
    let subgroup_key = group_key.clone().concat(":").concat(resource_type.as_str());
    ResourceItem {
        path: resource.path.clone(),
        enabled: resource.enabled,
        metadata: resource.metadata.clone(),
        resource_type,
        display_name,
        group_key,
        subgroup_key,
    }
}

fn push_items(
    resources: &Vec<ResolvedResource>,
    resource_type: ResourceType,
    items: &mut Vec<ResourceItem>,
)
    ensures
        item_views(final(items)@) == item_views(old(items)@) + listed_items(
            resources@,
            resource_type,
        ),
{
    let mut i: usize = 0;
    while i < resources.len()
        invariant
            i <= resources.len(),
            item_views(items@) =~= item_views(old(items)@) + listed_items(
                resources@,
                resource_type,
            ).take(i as int),
        decreases resources.len() - i,
    {
        let ghost before = items@;
        items.push(make_item(&resources[i], resource_type));
        assert(item_views(items@) =~= item_views(before).push(items@.last()@));
        i = i + 1;
    }
    assert(listed_items(resources@, resource_type).take(i as int) =~= listed_items(
        resources@,
        resource_type,
    ));
}

/// All resources as they are listed, before they are grouped.
fn list_items(resolved: &ResolvedPaths) -> (r: Vec<ResourceItem>)
    ensures
        item_views(r@) == all_items(*resolved),
{
    let mut items: Vec<ResourceItem> = Vec::new();
    push_items(&resolved.extensions, ResourceType::Extensions, &mut items);
    push_items(&resolved.skills, ResourceType::Skills, &mut items);
    push_items(&resolved.prompts, ResourceType::Prompts, &mut items);
    push_items(&resolved.themes, ResourceType::Themes, &mut items);
    assert(item_views(items@) =~= all_items(*resolved));
    items
}

/// Whether one of the first `n` items is of the group.
pub open spec fn has_group(items: Seq<ItemView>, key: Seq<char>, n: int) -> bool {
    exists|j: int| 0 <= j < n && (#[trigger] items[j]).group_key == key
}

/// Those of the first `n` items that are the first of their group.
pub open spec fn group_firsts(items: Seq<ItemView>, n: nat) -> Seq<ItemView>
    decreases n,
{
    if n == 0 {
        Seq::empty()
    } else {
        let before = group_firsts(items, (n - 1) as nat);
        if has_group(items, items[n - 1].group_key, n - 1) {
            before
        } else {
            before.push(items[n - 1])
        }
    }
}

/// The items of one type in a group.
pub open spec fn members(
    items: Seq<ItemView>,
    key: Seq<char>,
    resource_type: ResourceType,
) -> Seq<ItemView>
    decreases items.len(),
{
    if items.len() == 0 {
        Seq::empty()
    } else {
        let before = members(items.drop_last(), key, resource_type);
        if items.last().group_key == key && items.last().resource_type == resource_type {
            before.push(items.last())
        } else {
            before
        }
    }
}

/// Ranks items by name.
pub struct NameKey {
    pub name: Vec<char>,
}

impl Ranked for NameKey {
    type Rank = Seq<char>;

    open spec fn rank(&self) -> Seq<char> {
        self.name@
    }

    open spec fn at_most(a: Seq<char>, b: Seq<char>) -> bool {
        text_at_most(a, b)
    }

    proof fn total(a: Seq<char>, b: Seq<char>) {
        lemma_text_order_total(a, b);
    }

    proof fn transitive(a: Seq<char>, b: Seq<char>, c: Seq<char>) {
        lemma_text_order_transitive(a, b, c);
    }

    fn is_at_most(&self, other: &Self) -> bool {
        is_text_at_most(self.name.as_slice(), other.name.as_slice())
    }
}

/// The items by name.
pub open spec fn by_name(items: Seq<ItemView>) -> Seq<ItemView> {
    stable_order::<NameKey>(items.map_values(|i: ItemView| i.display_name)).map_values(
        |k: usize| items[k as int],
    )
}

/// The subgroup of one type in a group, if it has any items.
pub open spec fn subgroup_of(
    items: Seq<ItemView>,
    key: Seq<char>,
    resource_type: ResourceType,
) -> Seq<SubgroupView> {
    let inside = members(items, key, resource_type);
    if inside.len() == 0 {
        Seq::empty()
    } else {
        seq![
            SubgroupView {
                resource_type,
                label: type_label(resource_type),
                items: by_name(inside),
            },
        ]
    }
}

/// The group that an item is the first of.
pub open spec fn group_of(
    items: Seq<ItemView>,
    first: ItemView,
    agent_dir: Seq<char>,
    home: Seq<char>,
) -> GroupView {
    let key = first.group_key;
    GroupView {
        key,
        label: group_label(first.metadata, agent_dir, home),
        scope: first.metadata.scope,
        origin: first.metadata.origin,
        source: first.metadata.source@,
        subgroups: subgroup_of(items, key, ResourceType::Extensions) + subgroup_of(
            items,
            key,
            ResourceType::Skills,
        ) + subgroup_of(items, key, ResourceType::Prompts) + subgroup_of(
            items,
            key,
            ResourceType::Themes,
        ),
    }
}

/// What groups are ranked by.
pub struct GroupRank {
    pub origin: ResourceOrigin,
    pub scope: PackageScope,
    pub source: Seq<char>,
}

/// Ranks groups: packages first; the user's before the project's; then by source.
pub struct GroupKey {
    pub origin: ResourceOrigin,
    pub scope: PackageScope,
    pub source: Vec<char>,
}

/// The place of an origin.
pub open spec fn origin_place(origin: ResourceOrigin) -> int {
    match origin {
        ResourceOrigin::Package => 0,
        ResourceOrigin::TopLevel => 1,
    }
}

/// The place of a scope.
pub open spec fn scope_place(scope: PackageScope) -> int {
    match scope {
        PackageScope::User => 0,
        PackageScope::Project => 1,
        PackageScope::Temporary => 2,
    }
}

impl Ranked for GroupKey {
    type Rank = GroupRank;

    open spec fn rank(&self) -> GroupRank {
        GroupRank { origin: self.origin, scope: self.scope, source: self.source@ }
    }

    open spec fn at_most(a: GroupRank, b: GroupRank) -> bool {
        if a.origin != b.origin {
            origin_place(a.origin) < origin_place(b.origin)
        } else if a.scope != b.scope {
            scope_place(a.scope) < scope_place(b.scope)
        } else {
            text_at_most(a.source, b.source)
        }
    }

    proof fn total(a: GroupRank, b: GroupRank) {
        lemma_text_order_total(a.source, b.source);
    }

    proof fn transitive(a: GroupRank, b: GroupRank, c: GroupRank) {
        if a.origin == b.origin && b.origin == c.origin && a.scope == b.scope && b.scope
            == c.scope {
            lemma_text_order_transitive(a.source, b.source, c.source);
        }
    }

    fn is_at_most(&self, other: &Self) -> bool {
        if self.origin != other.origin {
            self.origin == ResourceOrigin::Package
        } else if self.scope != other.scope {
            self.scope == PackageScope::User || other.scope == PackageScope::Temporary
        } else {
            is_text_at_most(self.source.as_slice(), other.source.as_slice())
        }
    }
}

/// The groups in the order in which they are found.
pub open spec fn found_groups(
    items: Seq<ItemView>,
    agent_dir: Seq<char>,
    home: Seq<char>,
) -> Seq<GroupView> {
    group_firsts(items, items.len()).map_values(
        |first: ItemView| group_of(items, first, agent_dir, home),
    )
}

/// The groups in display order.
pub open spec fn sorted_groups(groups: Seq<GroupView>) -> Seq<GroupView> {
    stable_order::<GroupKey>(
        groups.map_values(
            |g: GroupView| GroupRank { origin: g.origin, scope: g.scope, source: g.source },
        ),
    ).map_values(|k: usize| groups[k as int])
}

fn collect_members(
    items: &Vec<ResourceItem>,
    key: &str,
    resource_type: ResourceType,
) -> (r: Vec<ResourceItem>)
    ensures
        item_views(r@) == members(item_views(items@), key@, resource_type),
{
    let ghost all = item_views(items@);
    let mut r: Vec<ResourceItem> = Vec::new();
    let mut i: usize = 0;
    assert(all.take(0) =~= Seq::empty());
    while i < items.len()
        invariant
            i <= items.len(),
            all == item_views(items@),
            item_views(r@) =~= members(all.take(i as int), key@, resource_type),
        decreases items.len() - i,
    {
        assert(all.take(i as int + 1).drop_last() =~= all.take(i as int));
        assert(all.take(i as int + 1).last() == items@[i as int]@);
        let ghost before = r@;
        if str_eq(items[i].group_key.as_str(), key) && items[i].resource_type == resource_type {
            r.push(items[i].clone());
            assert(item_views(r@) =~= item_views(before).push(items@[i as int]@));
        }
        i = i + 1;
    }
    assert(all.take(i as int) =~= all);
    r
}

fn sort_by_name(items: &Vec<ResourceItem>) -> (r: Vec<ResourceItem>)
    ensures
        item_views(r@) == by_name(item_views(items@)),
{
    let ghost all = item_views(items@);
    let mut keys: Vec<NameKey> = Vec::new();
    let mut i: usize = 0;
    while i < items.len()
        invariant
            i <= items.len(),
            all == item_views(items@),
            ranks(keys@) =~= all.map_values(|i: ItemView| i.display_name).take(i as int),
        decreases items.len() - i,
    {
        let ghost before = keys@;
        let name = chars_of(items[i].display_name.as_str());
        keys.push(NameKey { name });
        assert(ranks(keys@) =~= ranks(before).push(name@));
        i = i + 1;
    }
    assert(ranks(keys@) =~= all.map_values(|i: ItemView| i.display_name));
    let order = sort_indices(&keys);
    let ghost sorted = by_name(all);
    let mut r: Vec<ResourceItem> = Vec::new();
    i = 0;
    while i < order.len()
        invariant
            i <= order.len(),
            all == item_views(items@),
            keys@.len() == items@.len(),
            ranks(keys@).len() == keys@.len(),
            is_stable_order::<NameKey>(order@, ranks(keys@)),
            sorted == order@.map_values(|k: usize| all[k as int]),
            item_views(r@) =~= sorted.take(i as int),
        decreases order.len() - i,
    {
        let ghost before = r@;
        let at: usize = order[i];
        assert(order@[i as int] < keys@.len());
        r.push(items[at].clone());
        assert(item_views(r@) =~= item_views(before).push(items@[at as int]@));
        i = i + 1;
    }
    assert(item_views(r@) =~= sorted);
    r
}

fn push_subgroup(
    items: &Vec<ResourceItem>,
    key: &str,
    resource_type: ResourceType,
    subgroups: &mut Vec<ResourceSubgroup>,
)
    ensures
        subgroup_views(final(subgroups)@) == subgroup_views(old(subgroups)@) + subgroup_of(
            item_views(items@),
            key@,
            resource_type,
        ),
{
    let inside = collect_members(items, key, resource_type);
    assert(inside@.len() == item_views(inside@).len());
    if inside.len() > 0 {
        let ghost before = subgroups@;
        subgroups.push(
            ResourceSubgroup {
                resource_type,
                label: resource_type.label(),
                items: sort_by_name(&inside),
            },
        );
        assert(subgroup_views(subgroups@) =~= subgroup_views(before).push(subgroups@.last()@));
    }
    assert(subgroup_views(subgroups@) =~= subgroup_views(old(subgroups)@) + subgroup_of(
        item_views(items@),
        key@,
        resource_type,
    ));
}

fn build_group(items: &Vec<ResourceItem>, first: usize, agent_dir: &str, home: &str) -> (r:
    ResourceGroup)
    requires
        first < items@.len(),
    ensures
        r@ == group_of(item_views(items@), items@[first as int]@, agent_dir@, home@),
{
    let item = &items[first];
    let key = item.group_key.as_str();
    let mut subgroups: Vec<ResourceSubgroup> = Vec::new();
    push_subgroup(items, key, ResourceType::Extensions, &mut subgroups);
    push_subgroup(items, key, ResourceType::Skills, &mut subgroups);
    push_subgroup(items, key, ResourceType::Prompts, &mut subgroups);
    push_subgroup(items, key, ResourceType::Themes, &mut subgroups);
    let r = ResourceGroup {
        key: item.group_key.clone(),
        label: get_group_label(&item.metadata, agent_dir, home),
        scope: item.metadata.scope,
        origin: item.metadata.origin,
        source: item.metadata.source.clone(),
        subgroups,
    };
    assert(r@ =~= group_of(item_views(items@), items@[first as int]@, agent_dir@, home@));
    r
}

fn is_first_of_group(items: &Vec<ResourceItem>, n: usize) -> (r: bool)
    requires
        n < items@.len(),
    ensures
        r == !has_group(item_views(items@), items@[n as int].group_key@, n as int),
{
    let ghost all = item_views(items@);
    let mut j: usize = 0;
    while j < n
        invariant
            j <= n < items.len(),
            all == item_views(items@),
            forall|i: int|
                0 <= i < j ==> (#[trigger] all[i]).group_key != items@[n as int].group_key@,
        decreases n - j,
    {
        assert(all[j as int].group_key == items@[j as int].group_key@);
        if str_eq(items[j].group_key.as_str(), items[n].group_key.as_str()) {
            return false;
        }
        j = j + 1;
    }
    true
}

fn find_groups(items: &Vec<ResourceItem>, agent_dir: &str, home: &str) -> (r: Vec<ResourceGroup>)
    ensures
        group_views(r@) == found_groups(item_views(items@), agent_dir@, home@),
{
    let ghost all = item_views(items@);
    let mut r: Vec<ResourceGroup> = Vec::new();
    let mut n: usize = 0;
    while n < items.len()
        invariant
            n <= items.len(),
            all == item_views(items@),
            group_views(r@) =~= group_firsts(all, n as nat).map_values(
                |first: ItemView| group_of(all, first, agent_dir@, home@),
            ),
        decreases items.len() - n,
    {
        let ghost before = r@;
        assert(all[n as int] == items@[n as int]@);
        if is_first_of_group(items, n) {
            r.push(build_group(items, n, agent_dir, home));
            assert(group_views(r@) =~= group_views(before).push(r@.last()@));
        }
        n = n + 1;
    }
    r
}

/// Groups the resources for display: by source, packages first, the user's before the project's;
/// within a group by type, and within a type by name. `home` is the user's home directory, or empty.
pub fn build_groups(resolved: &ResolvedPaths, agent_dir: &str, home: &str) -> (r: Vec<
    ResourceGroup,
>)
    ensures
        group_views(r@) == sorted_groups(found_groups(all_items(*resolved), agent_dir@, home@)),
{
    let items = list_items(resolved);
    let found = find_groups(&items, agent_dir, home);
    let ghost all = group_views(found@);
    let ghost all_ranks = all.map_values(
        |g: GroupView| GroupRank { origin: g.origin, scope: g.scope, source: g.source },
    );
    let mut keys: Vec<GroupKey> = Vec::new();
    let mut i: usize = 0;
    while i < found.len()
        invariant
            i <= found.len(),
            all == group_views(found@),
            all_ranks == all.map_values(
                |g: GroupView| GroupRank { origin: g.origin, scope: g.scope, source: g.source },
            ),
            ranks(keys@) =~= all_ranks.take(i as int),
        decreases found.len() - i,
    {
        let ghost before = keys@;
        let source = chars_of(found[i].source.as_str());
        let key = GroupKey { origin: found[i].origin, scope: found[i].scope, source };
        keys.push(key);
        assert(ranks(keys@) =~= ranks(before).push(key.rank()));
        i = i + 1;
    }
    assert(ranks(keys@) =~= all_ranks);
    let order = sort_indices(&keys);
    let ghost sorted = sorted_groups(all);
    let mut r: Vec<ResourceGroup> = Vec::new();
    i = 0;
    while i < order.len()
        invariant
            i <= order.len(),
            all == group_views(found@),
            keys@.len() == found@.len(),
            ranks(keys@).len() == keys@.len(),
            is_stable_order::<GroupKey>(order@, ranks(keys@)),
            sorted == order@.map_values(|k: usize| all[k as int]),
            group_views(r@) =~= sorted.take(i as int),
        decreases order.len() - i,
    {
        let ghost before = r@;
        let at: usize = order[i];
        assert(order@[i as int] < keys@.len());
        r.push(found[at].clone());
        assert(group_views(r@) =~= group_views(before).push(found@[at as int]@));
        i = i + 1;
    }
    assert(group_views(r@) =~= sorted);
    r
}

} // verus!
