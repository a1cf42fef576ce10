//! What the resource configuration shows, and the selector as a whole.

use crate::config_list::{
    config_action, list_responded, research, room_for, ConfigAction, ConfigRequest,
};
use crate::config_selector::{
    enabled_by_key, first_item, group_items, group_lines, is_line, item_of, ConfigWriteScope,
    FlatEntry, ResourceList, ResourceSettings,
};
use crate::keybinding_hints::{
    bound_text, hint_spans, key_alternatives, key_hint, raw_key_hint, KeyMatches, KeyTable,
};
use crate::resource_settings::{ProjectOverrideState, SourcePaths};
use crate::resources::{
    all_items, build_groups, found_groups, group_views, sorted_groups, ItemView, PackageScope,
    ResourceItem, ScopedResolvedPaths,
};
use crate::scroll::{visible_range, window_end, window_start};
use crate::session::CanonicalPaths;
use crate::session_rows::{gap, position_label, position_text, row_spacing};
use crate::style::{
    append_spans, bold, bold_colored, bold_fg, bolded, colored, fg, plain, push_span, raw, spans,
    Span, SpanView, ThemeColor,
};
use crate::text::{push_repeat, repeat};
use crate::transcript::{
    cut_line, cut_row, pieces, plain_row, push_piece, push_pieces, single_line, Piece, PieceView,
};
use vstd::prelude::*;
use vstd::string::*;

verus! {

/// How many of the first `n` lines are items.
pub open spec fn count_items(lines: Seq<FlatEntry>, n: nat) -> nat
    decreases n,
{
    if n == 0 {
        0
    } else {
        count_items(lines, (n - 1) as nat) + if lines[n - 1] is Item {
            1nat
        } else {
            0
        }
    }
}

fn count_lines(lines: &Vec<FlatEntry>, n: usize) -> (r: usize)
    requires
        n <= lines@.len(),
    ensures
        r == count_items(lines@, n as nat),
        r <= n,
{
    let mut count: usize = 0;
    let mut i: usize = 0;
    while i < n
        invariant
            i <= n <= lines.len(),
            count == count_items(lines@, i as nat),
            count <= i,
        decreases n - i,
    {
        if let FlatEntry::Item(_, _, _) = lines[i] {
            count = count + 1;
        }
        i = i + 1;
    }
    count
}

impl ResourceList {
    /// The box before an item: whether it is enabled, or what the project says of it.
    pub open spec fn checkbox(&self, item: ItemView) -> SpanView {
        if self.write_scope == ConfigWriteScope::Project {
            match self.context().override_state(item) {
                ProjectOverrideState::Load => colored(ThemeColor::Success, "[+]"@),
                ProjectOverrideState::Unload => colored(ThemeColor::Warning, "[-]"@),
                ProjectOverrideState::Inherit => colored(
                    ThemeColor::Dim,
                    if item.enabled {
                        "[x]"@
                    } else {
                        "[ ]"@
                    },
                ),
            }
        } else if item.enabled {
            colored(ThemeColor::Success, "[x]"@)
        } else {
            colored(ThemeColor::Dim, "[ ]"@)
        }
    }

    /// What is said after an item, if anything.
    pub open spec fn suffix(&self, item: ItemView) -> Option<SpanView> {
        if self.write_scope != ConfigWriteScope::Project {
            None
        } else {
            match self.context().override_state(item) {
                ProjectOverrideState::Load => Some(colored(ThemeColor::Muted, "  project load"@)),
                ProjectOverrideState::Unload => Some(
                    colored(ThemeColor::Muted, "  project unload"@),
                ),
                ProjectOverrideState::Inherit => if self.context().is_inherited(item) {
                    Some(colored(ThemeColor::Dim, "  inherited global"@))
                } else {
                    None
                },
            }
        }
    }

    /// Whether an item is dimmed: the project only inherits it.
    pub open spec fn is_dimmed(&self, item: ItemView) -> bool {
        self.write_scope == ConfigWriteScope::Project && self.context().is_inherited(item)
            && self.context().override_state(item) == ProjectOverrideState::Inherit
    }

    /// The spans of a line.
    pub open spec fn line_spans(&self, entry: FlatEntry, selected: bool) -> Seq<SpanView> {
        let groups = self.groups();
        match entry {
            FlatEntry::Group(g) => {
                let group = groups[g as int];
                let inherited = self.write_scope == ConfigWriteScope::Project && group.scope
                    == PackageScope::User;
                seq![
                    plain("  "@),
                    if inherited {
                        bold_colored(ThemeColor::Dim, group.label + " · inherited global"@)
                    } else {
                        bold_colored(ThemeColor::Accent, group.label)
                    },
                ]
            },
            FlatEntry::Subgroup(g, s) => {
                let group = groups[g as int];
                seq![
                    plain("    "@),
                    colored(
                        if self.write_scope == ConfigWriteScope::Project && group.scope
                            == PackageScope::User {
                            ThemeColor::Dim
                        } else {
                            ThemeColor::Muted
                        },
                        group.subgroups[s as int].label,
                    ),
                ]
            },
            FlatEntry::Item(g, s, i) => {
                let item = item_of(groups, g, s, i);
                let line = seq![
                    plain(
                        if selected {
                            ">     "@
                        } else {
                            "      "@
                        },
                    ),
                    self.checkbox(item),
                    plain(" "@),
                    if self.is_dimmed(item) {
                        colored(ThemeColor::Dim, item.display_name)
                    } else if selected {
                        bolded(item.display_name)
                    } else {
                        plain(item.display_name)
                    },
                ];
                match self.suffix(item) {
                    Some(suffix) => line.push(suffix),
                    None => line,
                }
            },
        }
    }

    /// The index of the first line in the window.
    pub open spec fn first_line(&self) -> int {
        window_start(
            self.selected_index as int,
            self.filtered_items@.len() as int,
            self.max_visible as int,
        )
    }

    /// The index after the last line in the window.
    pub open spec fn end_line(&self) -> int {
        window_end(
            self.selected_index as int,
            self.filtered_items@.len() as int,
            self.max_visible as int,
        )
    }

    fn render_item(&self, item: &ResourceItem, selected: bool) -> (r: Vec<Span>)
        ensures
            spans(r@) == ({
                let line = seq![
                    plain(
                        if selected {
                            ">     "@
                        } else {
                            "      "@
                        },
                    ),
                    self.checkbox(item@),
                    plain(" "@),
                    if self.is_dimmed(item@) {
                        colored(ThemeColor::Dim, item@.display_name)
                    } else if selected {
                        bolded(item@.display_name)
                    } else {
                        plain(item@.display_name)
                    },
                ];
                match self.suffix(item@) {
                    Some(suffix) => line.push(suffix),
                    None => line,
                }
            }),
    {
        let project = self.write_scope == ConfigWriteScope::Project;
        let state = self.project_override_state(item);
        let inherited = self.is_inherited_global_item(item);
        let name = item.display_name.as_str();
        let mut line: Vec<Span> = Vec::new();
        push_span(
            &mut line,
            raw(
                if selected {
                    ">     "
                } else {
                    "      "
                },
            ),
        );
        let mark = if item.enabled {
            "[x]"
        } else {
            "[ ]"
        };
        if project && state == ProjectOverrideState::Load {
            push_span(&mut line, fg(ThemeColor::Success, "[+]"));
        } else if project && state == ProjectOverrideState::Unload {
            push_span(&mut line, fg(ThemeColor::Warning, "[-]"));
        } else if !project && item.enabled {
            push_span(&mut line, fg(ThemeColor::Success, "[x]"));
        } else {
            push_span(&mut line, fg(ThemeColor::Dim, mark));
        }
        push_span(&mut line, raw(" "));
        if project && inherited && state == ProjectOverrideState::Inherit {
            push_span(&mut line, fg(ThemeColor::Dim, name));
        } else if selected {
            push_span(&mut line, bold(name));
        } else {
            push_span(&mut line, raw(name));
        }
        let ghost base = spans(line@);
        assert(base =~= seq![
            plain(
                if selected {
                    ">     "@
                } else {
                    "      "@
                },
            ),
            self.checkbox(item@),
            plain(" "@),
            if self.is_dimmed(item@) {
                colored(ThemeColor::Dim, item@.display_name)
            } else if selected {
                bolded(item@.display_name)
            } else {
                plain(item@.display_name)
            },
        ]);
        if project && state == ProjectOverrideState::Load {
            push_span(&mut line, fg(ThemeColor::Muted, "  project load"));
        } else if project && state == ProjectOverrideState::Unload {
            push_span(&mut line, fg(ThemeColor::Muted, "  project unload"));
        } else if project && inherited {
            push_span(&mut line, fg(ThemeColor::Dim, "  inherited global"));
        }
        line
    }

    fn render_line(&self, entry: FlatEntry, selected: bool) -> (r: Vec<Span>)
        requires
            is_line(self.groups(), entry),
        ensures
            spans(r@) == self.line_spans(entry, selected),
    {
        let groups = match self.write_scope {
            ConfigWriteScope::Global => &self.groups_global,
            ConfigWriteScope::Project => &self.groups_project,
        };
        let ghost views = group_views(groups@);
        assert(views == self.groups());
        let project = self.write_scope == ConfigWriteScope::Project;
        let mut line: Vec<Span> = Vec::new();
        match entry {
            FlatEntry::Group(g) => {
                assert(views[g as int] == groups@[g as int]@);
                let group = &groups[g];
                push_span(&mut line, raw("  "));
                if project && group.scope == PackageScope::User {
                    let label = group.label.clone().concat(" · inherited global");
                    push_span(&mut line, bold_fg(ThemeColor::Dim, label.as_str()));
                } else {
                    push_span(&mut line, bold_fg(ThemeColor::Accent, group.label.as_str()));
                }
                assert(spans(line@) =~= self.line_spans(entry, selected));
                line
            },
            FlatEntry::Subgroup(g, s) => {
                assert(views[g as int] == groups@[g as int]@);
                assert(views[g as int].subgroups[s as int]
                    == groups@[g as int].subgroups@[s as int]@);
                let group = &groups[g];
                let color = if project && group.scope == PackageScope::User {
                    ThemeColor::Dim
                } else {
                    ThemeColor::Muted
                };
                push_span(&mut line, raw("    "));
                push_span(&mut line, fg(color, group.subgroups[s].label));
                assert(spans(line@) =~= self.line_spans(entry, selected));
                line
            },
            FlatEntry::Item(g, s, i) => {
                assert(views[g as int] == groups@[g as int]@);
                assert(views[g as int].subgroups[s as int]
                    == groups@[g as int].subgroups@[s as int]@);
                assert(views[g as int].subgroups[s as int].items[i as int]
                    == groups@[g as int].subgroups@[s as int].items@[i as int]@);
                self.render_item(&groups[g].subgroups[s].items[i], selected)
            },
        }
    }

    /// The position among the items, shown under the lines when some of them are outside the window.
    pub fn scroll_text(&self) -> (r: Option<String>)
        requires
            self.wf(),
        ensures
            match r {
                Some(text) => {
                    &&& self.first_line() > 0 || self.end_line() < self.filtered_items@.len()
                    &&& text@ == position_label(
                        count_items(self.filtered_items@, self.selected_index as nat),
                        count_items(self.filtered_items@, self.filtered_items@.len()),
                    )
                },
                None => self.first_line() <= 0 && self.end_line() >= self.filtered_items@.len(),
            },
    {
        let len: usize = self.filtered_items.len();
        let (start, end) = visible_range(self.selected_index, len, self.max_visible);
        if start > 0 || end < len {
            let before: usize = count_lines(&self.filtered_items, self.selected_index);
            let all: usize = count_lines(&self.filtered_items, len);
            Some(position_text(before, all))
        } else {
            None
        }
    }
}

impl ResourceList {
    /// The piece of a line: an item that is cut is marked, a heading is not.
    pub open spec fn line_piece(&self, entry: FlatEntry, selected: bool) -> PieceView {
        match entry {
            FlatEntry::Item(..) => PieceView::Row {
                spans: self.line_spans(entry, selected),
                background: None,
                ellipsis: "..."@,
            },
            _ => cut_line(self.line_spans(entry, selected)),
        }
    }

    /// The pieces of the lines in the window.
    pub open spec fn window(&self) -> Seq<PieceView> {
        Seq::new(
            if self.first_line() < self.end_line() {
                (self.end_line() - self.first_line()) as nat
            } else {
                0
            },
            |k: int|
                self.line_piece(
                    self.filtered_items@[self.first_line() + k],
                    self.first_line() + k == self.selected_index,
                ),
        )
    }

    /// The pieces of the list: the search, and below it the lines in the window and the position,
    /// or a note that there are none.
    pub open spec fn screen(&self) -> Seq<PieceView> {
        let search = seq![PieceView::Input, PieceView::Spacer(1)];
        let len = self.filtered_items@.len();
        if len == 0 {
            search.push(
                PieceView::Line(seq![colored(ThemeColor::Muted, "  No resources found"@)]),
            )
        } else if self.first_line() > 0 || self.end_line() < len {
            (search + self.window()).push(
                PieceView::Line(
                    seq![
                        colored(
                            ThemeColor::Dim,
                            position_label(
                                count_items(self.filtered_items@, self.selected_index as nat),
                                count_items(self.filtered_items@, len),
                            ),
                        ),
                    ],
                ),
            )
        } else {
            search + self.window()
        }
    }

    /// The pieces of the list.
    pub fn render(&self) -> (r: Vec<Piece>)
        requires
            self.wf(),
        ensures
            pieces(r@) == self.screen(),
    {
        let mut list: Vec<Piece> = Vec::new();
        push_piece(&mut list, Piece::Input);
        push_piece(&mut list, Piece::Spacer(1));
        let ghost search = seq![PieceView::Input, PieceView::Spacer(1)];
        assert(pieces(list@) =~= search);
        if self.filtered_items.len() == 0 {
            push_piece(&mut list, single_line(fg(ThemeColor::Muted, "  No resources found")));
            assert(pieces(list@) =~= self.screen());
            return list;
        }
        let (start, end) = visible_range(
            self.selected_index,
            self.filtered_items.len(),
            self.max_visible,
        );
        let ghost window = self.window();
        let mut i: usize = start;
        assert(window.take(0) =~= Seq::empty());
        while i < end
            invariant
                start <= i,
                i <= end || start > end,
                start == self.first_line(),
                end == self.end_line(),
                end <= self.filtered_items@.len(),
                self.wf(),
                window == self.window(),
                pieces(list@) =~= search + window.take(i - start),
            decreases end - i,
        {
            assert(is_line(self.groups(), self.filtered_items@[i as int]));
            let entry = self.filtered_items[i];
            let line = self.render_line(entry, i == self.selected_index);
            let ghost before = pieces(list@);
            assert(window[i - start] == self.line_piece(entry, i == self.selected_index));
            match entry {
                FlatEntry::Item(..) => {
                    push_piece(
                        &mut list,
                        Piece::Row { spans: line, background: None, ellipsis: "...".to_owned() },
                    );
                },
                _ => {
                    push_piece(&mut list, cut_row(line));
                },
            }
            assert(pieces(list@) =~= before.push(window[i - start]));
            i = i + 1;
        }
        assert(pieces(list@) =~= search + window);
        if let Some(text) = self.scroll_text() {
            push_piece(&mut list, single_line(fg(ThemeColor::Dim, text.as_str())));
        }
        assert(pieces(list@) =~= self.screen());
        list
    }
}

/// The selector of resources.
pub struct ConfigSelectorComponent {
    pub resource_list: ResourceList,
    pub write_scope: ConfigWriteScope,
    pub project_mode_available: bool,
}

/// Whether a key leads from one state of the selector to another, asks for the request and has the
/// screen drawn again.
pub open spec fn selector_responded(
    before: ConfigSelectorComponent,
    after: ConfigSelectorComponent,
    key: KeyMatches,
    data: Seq<char>,
    request: ConfigRequest,
    redraw: bool,
) -> bool {
    if config_action(key, data) == ConfigAction::SwitchMode {
        request == ConfigRequest::Nothing && redraw && scope_switched(before, after)
    } else {
        &&& list_responded(before.resource_list, after.resource_list, key, data, request)
        &&& redraw == (request is Toggled)
        &&& after == ConfigSelectorComponent { resource_list: after.resource_list, ..before }
    }
}

/// Whether changing to the other settings turns the selector from `before` into `after`: nothing
/// changes where the project's settings are not available.
pub open spec fn scope_switched(
    before: ConfigSelectorComponent,
    after: ConfigSelectorComponent,
) -> bool {
    if before.project_mode_available {
        &&& after.project_mode_available
        &&& after.write_scope == other_scope(before.write_scope)
        &&& research(
            ResourceList {
                write_scope: other_scope(before.write_scope),
                flat_items: after.resource_list.flat_items,
                ..before.resource_list
            },
            after.resource_list,
        )
    } else {
        after == before
    }
}

/// The other of the two settings.
pub open spec fn other_scope(scope: ConfigWriteScope) -> ConfigWriteScope {
    match scope {
        ConfigWriteScope::Global => ConfigWriteScope::Project,
        ConfigWriteScope::Project => ConfigWriteScope::Global,
    }
}

/// Switching twice comes back to the same settings.
pub proof fn scope_switch_is_involutive(scope: ConfigWriteScope)
    ensures
        other_scope(other_scope(scope)) == scope,
        other_scope(scope) != scope,
{
}

impl ConfigSelectorComponent {
    /// The list of resources.
    pub fn get_resource_list(&self) -> (r: &ResourceList)
        ensures
            *r == self.resource_list,
    {
        &self.resource_list
    }

    /// A selector of the resources that were found.
    #[must_use]
    pub fn new(
        resolved_paths: &ScopedResolvedPaths,
        global_settings: ResourceSettings,
        project_settings: ResourceSettings,
        project_dir: String,
        agent_dir: String,
        home: &str,
        canonical_paths: CanonicalPaths,
        source_paths: SourcePaths,
        terminal_height: Option<u16>,
        write_scope: ConfigWriteScope,
        project_mode_available: bool,
    ) -> (r: Self)
        ensures
            r.resource_list.wf(),
            r.write_scope == write_scope,
            r.resource_list.write_scope == write_scope,
            r.project_mode_available == project_mode_available,
            group_views(r.resource_list.groups_global@) == sorted_groups(
                found_groups(all_items(resolved_paths.global), agent_dir@, home@),
            ),
            group_views(r.resource_list.groups_project@) == sorted_groups(
                found_groups(all_items(resolved_paths.project), agent_dir@, home@),
            ),
            r.resource_list.filtered_items@ == group_lines(
                r.resource_list.groups(),
                r.resource_list.groups().len(),
            ),
            r.resource_list.selected_index == first_item(r.resource_list.filtered_items@),
            r.resource_list.query@.len() == 0,
            r.resource_list.global_settings == global_settings,
            r.resource_list.project_settings == project_settings,
            r.resource_list.project_dir == project_dir,
            r.resource_list.agent_dir == agent_dir,
            r.resource_list.canonical_paths == canonical_paths,
            r.resource_list.source_paths == source_paths,
            r.resource_list.max_visible == room_for(terminal_height),
            r.resource_list.inherited_enabled@ == enabled_by_key(
                canonical_paths,
                group_items(
                    group_views(r.resource_list.groups_global@),
                    r.resource_list.groups_global@.len(),
                ),
            ),
    {
        let groups_global = build_groups(&resolved_paths.global, agent_dir.as_str(), home);
        let groups_project = build_groups(&resolved_paths.project, agent_dir.as_str(), home);
        ConfigSelectorComponent {
            resource_list: ResourceList::new(
                groups_global,
                groups_project,
                global_settings,
                project_settings,
                project_dir,
                agent_dir,
                canonical_paths,
                source_paths,
                terminal_height,
                write_scope,
            ),
            write_scope,
            project_mode_available,
        }
    }

    #[must_use]
    pub fn write_scope(&self) -> (r: ConfigWriteScope)
        ensures
            r == self.write_scope,
    {
        self.write_scope
    }

    #[must_use]
    pub fn project_mode_available(&self) -> (r: bool)
        ensures
            r == self.project_mode_available,
    {
        self.project_mode_available
    }

    /// Changes to the other settings, if the project's are available.
    pub fn switch_write_scope(&mut self) -> (switched: bool)
        requires
            old(self).resource_list.wf(),
        ensures
            final(self).resource_list.wf(),
            switched == old(self).project_mode_available,
            scope_switched(*old(self), *final(self)),
    {
        if !self.project_mode_available {
            return false;
        }
        self.write_scope = match self.write_scope {
            ConfigWriteScope::Global => ConfigWriteScope::Project,
            ConfigWriteScope::Project => ConfigWriteScope::Global,
        };
        self.resource_list.set_write_scope(self.write_scope);
        true
    }

    /// Takes in a key press: what is left to the owner, and whether the selector is to be drawn
    /// again. `data` is what the terminal sent for the key.
    pub fn handle_input(&mut self, key: &KeyMatches, data: &str) -> (r: (ConfigRequest, bool))
        requires
            old(self).resource_list.wf(),
        ensures
            final(self).resource_list.wf(),
            selector_responded(*old(self), *final(self), *key, data@, r.0, r.1),
    {
        let request = self.resource_list.handle_input(key, data);
        match request {
            ConfigRequest::SwitchMode => {
                self.switch_write_scope();
                (ConfigRequest::Nothing, true)
            },
            ConfigRequest::Toggled(write) => (ConfigRequest::Toggled(write), true),
            other => (other, false),
        }
    }

    /// The text of the title.
    pub open spec fn title_text(&self) -> Seq<char> {
        if self.write_scope == ConfigWriteScope::Project {
            "Project Local Resources"@
        } else {
            "Global Resources"@
        }
    }

    /// The title.
    pub fn title(&self) -> (r: Span)
        ensures
            r@ == bolded(self.title_text()),
    {
        if self.write_scope == ConfigWriteScope::Project {
            bold("Project Local Resources")
        } else {
            bold("Global Resources")
        }
    }

    /// The hints beside the title.
    pub open spec fn hints(&self, table: KeyTable) -> Seq<SpanView> {
        let separator = colored(ThemeColor::Muted, " · "@);
        let switch = if self.project_mode_available {
            hint_spans(bound_text(table, "tui.input.tab"@), "switch mode"@).push(separator)
        } else {
            Seq::empty()
        };
        switch + hint_spans(
            key_alternatives("space"@, false, table.macos),
            if self.write_scope == ConfigWriteScope::Project {
                "cycle inherit/+/-"@
            } else {
                "toggle"@
            },
        ) + seq![separator] + hint_spans(key_alternatives("esc"@, false, table.macos), "close"@)
    }

    /// The hints beside the title.
    pub fn hint_line(&self, table: &KeyTable) -> (r: Vec<Span>)
        ensures
            spans(r@) == self.hints(*table),
    {
        let mut line: Vec<Span> = Vec::new();
        if self.project_mode_available {
            append_spans(&mut line, key_hint(table, "tui.input.tab", "switch mode"));
            push_span(&mut line, fg(ThemeColor::Muted, " · "));
        }
        let action = if self.write_scope == ConfigWriteScope::Project {
            "cycle inherit/+/-"
        } else {
            "toggle"
        };
        append_spans(&mut line, raw_key_hint("space", action, table.macos));
        push_span(&mut line, fg(ThemeColor::Muted, " · "));
        append_spans(&mut line, raw_key_hint("esc", "close", table.macos));
        assert(spans(line@) =~= self.hints(*table));
        line
    }

    /// Which settings are written.
    pub open spec fn scope_text(&self) -> Seq<char> {
        if self.write_scope == ConfigWriteScope::Project {
            ".pi/settings.json · inherited global resources are dimmed"@
        } else {
            "~/.pi/agent/settings.json"@
        }
    }

    /// The line that says which settings are written.
    pub fn scope_hint(&self) -> (r: Span)
        ensures
            r@ == colored(ThemeColor::Muted, self.scope_text()),
    {
        if self.write_scope == ConfigWriteScope::Project {
            fg(
                ThemeColor::Muted,
                ".pi/settings.json · inherited global resources are dimmed",
            )
        } else {
            fg(ThemeColor::Muted, "~/.pi/agent/settings.json")
        }
    }

    /// The spans of the first line of the header.
    pub open spec fn title_spans(
        &self,
        table: KeyTable,
        title_width: usize,
        hint_width: usize,
        width: u16,
    ) -> Seq<SpanView> {
        seq![
            bolded(self.title_text()),
            plain(repeat(' ', gap(width as int, title_width as int, hint_width as int))),
        ] + self.hints(table)
    }

    /// The pieces of the selector: the header and the list, between two borders. The hints of the
    /// header are `hint_width` wide, its title `title_width`.
    pub fn render(&self, table: &KeyTable, title_width: usize, hint_width: usize, width: u16) -> (r:
        Vec<Piece>)
        requires
            self.resource_list.wf(),
        ensures
            pieces(r@) == seq![
                PieceView::Spacer(1),
                PieceView::Border(ThemeColor::Border),
                PieceView::Spacer(1),
                cut_line(self.title_spans(*table, title_width, hint_width, width)),
                cut_line(seq![colored(ThemeColor::Muted, self.scope_text())]),
                PieceView::Spacer(1),
            ] + self.resource_list.screen() + seq![
                PieceView::Spacer(1),
                PieceView::Border(ThemeColor::Border),
            ],
    {
        let mut list: Vec<Piece> = Vec::new();
        push_piece(&mut list, Piece::Spacer(1));
        push_piece(&mut list, Piece::Border(ThemeColor::Border));
        push_piece(&mut list, Piece::Spacer(1));
        let title = self.first_line(table, title_width, hint_width, width);
        push_piece(&mut list, cut_row(title));
        push_piece(&mut list, plain_row(self.scope_hint()));
        push_piece(&mut list, Piece::Spacer(1));
        push_pieces(&mut list, self.resource_list.render());
        push_piece(&mut list, Piece::Spacer(1));
        push_piece(&mut list, Piece::Border(ThemeColor::Border));
        assert(pieces(list@) =~= seq![
            PieceView::Spacer(1),
            PieceView::Border(ThemeColor::Border),
            PieceView::Spacer(1),
            cut_line(self.title_spans(*table, title_width, hint_width, width)),
            cut_line(seq![colored(ThemeColor::Muted, self.scope_text())]),
            PieceView::Spacer(1),
        ] + self.resource_list.screen() + seq![
            PieceView::Spacer(1),
            PieceView::Border(ThemeColor::Border),
        ]);
        list
    }

    /// The first line of the header at the width: the title, and the hints at the right end of it,
    /// given how wide the two are.
    pub fn first_line(
        &self,
        table: &KeyTable,
        title_width: usize,
        hint_width: usize,
        width: u16,
    ) -> (r: Vec<Span>)
        ensures
            spans(r@) == self.title_spans(*table, title_width, hint_width, width),
    {
        let mut line: Vec<Span> = Vec::new();
        push_span(&mut line, self.title());
        let mut fill = String::new();
        let spacing = row_spacing(width, title_width as u128, hint_width);
        push_repeat(&mut fill, ' ', spacing);
        assert(fill@ =~= repeat(' ', spacing as nat));
        push_span(&mut line, raw(fill.as_str()));
        append_spans(&mut line, self.hint_line(table));
        assert(spans(line@) =~= self.title_spans(*table, title_width, hint_width, width));
        line
    }
}

} // verus!
