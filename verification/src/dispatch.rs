//! The decisions of the event loop: which modal a key goes to, what the
//! global keys and clicks do to the application state, and the small
//! computations around agent events and the command line.

use vstd::prelude::*;
use vstd::utf8::encode_utf8;
use crate::agents::conductor::{truncate, truncated, truncation_safe};
use crate::agents::types::AgentType;
use crate::agents::AgentSpawnRequest;
use crate::keys::{KeyCode, KeyEvent, KeyModifiers};
use crate::path::{extension_of, file_name_of, path_file_name, name_extension};
use crate::state::app::{AppState, MessageLevel};
use crate::state::context::OutputContext;
use crate::state::focus::{PanelId, next_panel, prev_panel};
use crate::state::input_mode::InputMode;
use crate::text::{owned, concat, decimal, push_char, push_decimal, lowercase, to_lowercase, same_text, starts_with};
use crate::ui::layout::{AppLayout, panel_under};
use crate::ui::theme::{ThemeState, ThemeVariant, toggled_variant};

verus! {

/// The modal that receives keys, if one is open.
#[derive(Debug, Clone, Copy, PartialEq, Eq, Structural)]
pub enum OpenModal {
    Settings,
    ModelSelector,
    WorkspaceSelector,
    NoModal,
}

/// The modal a mode opens: the one named in `Modal` mode.
pub open spec fn modal_of(mode: InputMode) -> OpenModal {
    match mode {
        InputMode::Modal { name } =>
            if name@ == "settings"@ {
                OpenModal::Settings
            } else if name@ == "model_selector"@ {
                OpenModal::ModelSelector
            } else if name@ == "workspace_selector"@ {
                OpenModal::WorkspaceSelector
            } else {
                OpenModal::NoModal
            },
        _ => OpenModal::NoModal,
    }
}

/// What a key does in the settings modal.
#[derive(Debug, Clone, Copy, PartialEq, Eq, Structural)]
pub enum SettingsKey {
    CancelEdit,
    Close,
    Up,
    Down,
    Left,
    Right,
    Enter,
    Insert(char),
    Backspace,
    Delete,
    Ignore,
}

/// The settings modal's reading of a key: Escape ends an edit or closes,
/// arrows move, Enter acts; while a value is edited, characters,
/// Backspace and Delete edit it.
pub open spec fn settings_key_for(code: KeyCode, editing: bool) -> SettingsKey {
    match code {
        KeyCode::Esc => if editing { SettingsKey::CancelEdit } else { SettingsKey::Close },
        KeyCode::Up => SettingsKey::Up,
        KeyCode::Down => SettingsKey::Down,
        KeyCode::Left => SettingsKey::Left,
        KeyCode::Right => SettingsKey::Right,
        KeyCode::Enter => SettingsKey::Enter,
        KeyCode::Char(c) => if editing { SettingsKey::Insert(c) } else { SettingsKey::Ignore },
        KeyCode::Backspace => if editing { SettingsKey::Backspace } else { SettingsKey::Ignore },
        KeyCode::Delete => if editing { SettingsKey::Delete } else { SettingsKey::Ignore },
        _ => SettingsKey::Ignore,
    }
}

/// The settings modal's reading of `key`.
pub fn settings_key(key: &KeyEvent, editing: bool) -> (k: SettingsKey)
    ensures
        k == settings_key_for(key.code, editing),
{
    match key.code {
        KeyCode::Esc => if editing { SettingsKey::CancelEdit } else { SettingsKey::Close },
        KeyCode::Up => SettingsKey::Up,
        KeyCode::Down => SettingsKey::Down,
        KeyCode::Left => SettingsKey::Left,
        KeyCode::Right => SettingsKey::Right,
        KeyCode::Enter => SettingsKey::Enter,
        KeyCode::Char(c) => if editing { SettingsKey::Insert(c) } else { SettingsKey::Ignore },
        KeyCode::Backspace => if editing { SettingsKey::Backspace } else { SettingsKey::Ignore },
        KeyCode::Delete => if editing { SettingsKey::Delete } else { SettingsKey::Ignore },
        _ => SettingsKey::Ignore,
    }
}

/// What a key does in the model selector.
#[derive(Debug, Clone, Copy, PartialEq, Eq, Structural)]
pub enum ModelKey {
    Close,
    Up,
    Down,
    Apply,
    Ignore,
}

/// The model selector's reading of a key.
pub open spec fn model_key_for(code: KeyCode) -> ModelKey {
    match code {
        KeyCode::Esc => ModelKey::Close,
        KeyCode::Up => ModelKey::Up,
        KeyCode::Down => ModelKey::Down,
        KeyCode::Enter => ModelKey::Apply,
        _ => ModelKey::Ignore,
    }
}

/// The model selector's reading of `key`.
pub fn model_key(key: &KeyEvent) -> (k: ModelKey)
    ensures
        k == model_key_for(key.code),
{
    match key.code {
        KeyCode::Esc => ModelKey::Close,
        KeyCode::Up => ModelKey::Up,
        KeyCode::Down => ModelKey::Down,
        KeyCode::Enter => ModelKey::Apply,
        _ => ModelKey::Ignore,
    }
}

/// What a key does outside the modals.
#[derive(Debug, Clone, Copy, PartialEq, Eq, Structural)]
pub enum GlobalKey {
    Quit,
    OpenModelSelector,
    OpenSettings,
    ToggleTheme,
    OpenWorkspaceSelector,
    FocusNext,
    FocusPrev,
    ToNormal,
    ToInsert,
    /// The key goes to the focused panel.
    Forward,
}

/// No modifier held.
pub open spec fn no_modifiers(m: KeyModifiers) -> bool {
    !m.shift && !m.control && !m.alt && !m.super_key
}

/// The mode edits text.
pub open spec fn editing(mode: InputMode) -> bool {
    mode is Insert || mode is Command || mode is Search
}

/// The mode has an overlay open.
pub open spec fn modal(mode: InputMode) -> bool {
    mode is Command || mode is Search || mode is Modal
}

/// The global reading of a key, first match wins: `q` quits (when not
/// editing and no overlay is open); Ctrl+M, Ctrl+, and Ctrl+W open the
/// model selector, the settings and the workspace selector; Ctrl+T
/// toggles the theme; Tab and Shift+Tab (Backtab without Ctrl) cycle the
/// focus (when not editing and no overlay is open, Tab without
/// modifiers); Escape returns to normal mode; `i` enters insert mode
/// (when not editing, no overlay is open and the input panel is not
/// focused); anything else goes to the focused panel.
pub open spec fn global_key_for(code: KeyCode, mods: KeyModifiers, mode: InputMode, focus: PanelId) -> GlobalKey {
    let quiet = !editing(mode) && !modal(mode);
    if code == KeyCode::Char('q') && quiet {
        GlobalKey::Quit
    } else if code == KeyCode::Char('m') && mods.control {
        GlobalKey::OpenModelSelector
    } else if code == KeyCode::Char(',') && mods.control {
        GlobalKey::OpenSettings
    } else if code == KeyCode::Char('t') && mods.control {
        GlobalKey::ToggleTheme
    } else if code == KeyCode::Char('w') && mods.control {
        GlobalKey::OpenWorkspaceSelector
    } else if code == KeyCode::Tab && no_modifiers(mods) && quiet {
        GlobalKey::FocusNext
    } else if code == KeyCode::BackTab && !mods.control && quiet {
        GlobalKey::FocusPrev
    } else if code == KeyCode::Esc {
        GlobalKey::ToNormal
    } else if code == KeyCode::Char('i') && quiet && focus != PanelId(2) {
        GlobalKey::ToInsert
    } else {
        GlobalKey::Forward
    }
}

/// The global reading of `key` in `mode` with `focus` focused.
pub fn global_key(key: &KeyEvent, mode: &InputMode, focus: PanelId) -> (g: GlobalKey)
    ensures
        g == global_key_for(key.code, key.modifiers, *mode, focus),
{
    let quiet = !mode.is_editing() && !mode.is_modal();
    let m = key.modifiers;
    if key.code == KeyCode::Char('q') && quiet {
        GlobalKey::Quit
    } else if key.code == KeyCode::Char('m') && m.control {
        GlobalKey::OpenModelSelector
    } else if key.code == KeyCode::Char(',') && m.control {
        GlobalKey::OpenSettings
    } else if key.code == KeyCode::Char('t') && m.control {
        GlobalKey::ToggleTheme
    } else if key.code == KeyCode::Char('w') && m.control {
        GlobalKey::OpenWorkspaceSelector
    } else if key.code == KeyCode::Tab && !m.shift && !m.control && !m.alt && !m.super_key && quiet {
        GlobalKey::FocusNext
    } else if key.code == KeyCode::BackTab && !m.control && quiet {
        GlobalKey::FocusPrev
    } else if key.code == KeyCode::Esc {
        GlobalKey::ToNormal
    } else if key.code == KeyCode::Char('i') && quiet && focus.0 != 2 {
        GlobalKey::ToInsert
    } else {
        GlobalKey::Forward
    }
}

/// The status text after toggling the theme to `v`.
pub open spec fn theme_message(v: ThemeVariant) -> Seq<char> {
    "Theme: "@ + match v {
        ThemeVariant::Dark => "dark"@,
        ThemeVariant::Light => "light"@,
        ThemeVariant::System => "system"@,
    }
}

/// The mouse actions the application distinguishes.
#[derive(Debug, Clone, Copy, PartialEq, Eq, Structural)]
pub enum MouseKind {
    LeftDown,
    ScrollUp,
    ScrollDown,
    Other,
}

/// The entry chosen after a move in a list of `len` models: up stops at
/// the first, down at the last; other keys keep it.
pub fn moved_model_index(index: usize, len: usize, key: ModelKey) -> (r: usize)
    ensures
        r == match key {
            ModelKey::Up => if index > 0 { (index - 1) as usize } else { 0 },
            ModelKey::Down => if index + 1 < len { (index + 1) as usize } else { index },
            _ => index,
        },
{
    match key {
        ModelKey::Up => if index > 0 { index - 1 } else { 0 },
        ModelKey::Down => if index < len && index + 1 < len { index + 1 } else { index },
        _ => index,
    }
}

/// The first entry from `k` on that is `model` of `provider`.
pub open spec fn model_entry(ms: Seq<(String, String)>, provider: Seq<char>, model: Seq<char>, k: int) -> Option<nat>
    decreases ms.len() - k,
{
    if k < 0 || k >= ms.len() {
        None
    } else if ms[k].0@ == provider && ms[k].1@ == model {
        Some(k as nat)
    } else {
        model_entry(ms, provider, model, k + 1)
    }
}

/// Where the list of models opens: at `model` of `provider`, or at the
/// first entry when the list does not have it.
pub fn model_position(models: &Vec<(String, String)>, provider: &str, model: &str) -> (i: usize)
    ensures
        i == match model_entry(models@, provider@, model@, 0) {
            Some(k) => k,
            None => 0,
        },
{
    let mut k: usize = 0;
    while k < models.len()
        invariant
            k <= models@.len(),
            model_entry(models@, provider@, model@, 0) == model_entry(models@, provider@, model@, k as int),
        decreases models@.len() - k,
    {
        if same_text(models[k].0.as_str(), provider) && same_text(models[k].1.as_str(), model) {
            return k;
        }
        k = k + 1;
    }
    0
}

/// Where a mouse event goes while no workspace or a modal is open.
#[derive(Debug, Clone, Copy, PartialEq, Eq, Structural)]
pub enum MouseRoute {
    /// A click on the workspace selector.
    SelectorClick,
    /// Close the open modal.
    CloseModal,
    /// Scroll the workspace selector's list up.
    SelectorUp,
    /// Scroll the workspace selector's list down.
    SelectorDown,
    /// Nothing happens.
    Ignore,
    /// No modal is open: the panels take it.
    Panels,
}

/// Where a mouse event of kind `kind` goes: without a workspace only the
/// selector's clicks count; the workspace selector takes clicks and wheel
/// turns inside it and closes on a click outside; the other modals close
/// on a click; with no modal open the panels take it.
pub open spec fn mouse_route_for(has_workspace: bool, modal: OpenModal, kind: MouseKind, inside: bool) -> MouseRoute {
    if !has_workspace {
        if kind is LeftDown { MouseRoute::SelectorClick } else { MouseRoute::Ignore }
    } else {
        match modal {
            OpenModal::WorkspaceSelector => match kind {
                MouseKind::LeftDown => if inside { MouseRoute::SelectorClick } else { MouseRoute::CloseModal },
                MouseKind::ScrollUp => if inside { MouseRoute::SelectorUp } else { MouseRoute::Ignore },
                MouseKind::ScrollDown => if inside { MouseRoute::SelectorDown } else { MouseRoute::Ignore },
                MouseKind::Other => MouseRoute::Ignore,
            },
            OpenModal::ModelSelector | OpenModal::Settings => {
                if kind is LeftDown { MouseRoute::CloseModal } else { MouseRoute::Ignore }
            },
            OpenModal::NoModal => MouseRoute::Panels,
        }
    }
}

/// Where a mouse event goes, `inside` telling whether it is inside the
/// workspace selector.
pub fn mouse_route(has_workspace: bool, modal: OpenModal, kind: MouseKind, inside: bool) -> (r: MouseRoute)
    ensures
        r == mouse_route_for(has_workspace, modal, kind, inside),
{
    if !has_workspace {
        return match kind { MouseKind::LeftDown => MouseRoute::SelectorClick, _ => MouseRoute::Ignore };
    }
    match modal {
        OpenModal::WorkspaceSelector => match kind {
            MouseKind::LeftDown => if inside { MouseRoute::SelectorClick } else { MouseRoute::CloseModal },
            MouseKind::ScrollUp => if inside { MouseRoute::SelectorUp } else { MouseRoute::Ignore },
            MouseKind::ScrollDown => if inside { MouseRoute::SelectorDown } else { MouseRoute::Ignore },
            MouseKind::Other => MouseRoute::Ignore,
        },
        OpenModal::ModelSelector | OpenModal::Settings => match kind {
            MouseKind::LeftDown => MouseRoute::CloseModal,
            _ => MouseRoute::Ignore,
        },
        OpenModal::NoModal => MouseRoute::Panels,
    }
}

impl AppState {
    /// The modal that receives keys.
    pub fn open_modal(&self) -> (m: OpenModal)
        ensures
            m == modal_of(self.input_mode),
    {
        proof {
            reveal_strlit("settings");
            reveal_strlit("model_selector");
            reveal_strlit("workspace_selector");
        }
        if self.input_mode.is_modal_open("settings") {
            OpenModal::Settings
        } else if self.input_mode.is_modal_open("model_selector") {
            OpenModal::ModelSelector
        } else if self.input_mode.is_modal_open("workspace_selector") {
            OpenModal::WorkspaceSelector
        } else {
            OpenModal::NoModal
        }
    }

    /// Apply a key outside the modals to the state, and say what it was:
    /// quitting, opening a modal (the model selector and the settings are
    /// opened here; the workspace selector by the caller, which knows the
    /// workspaces), toggling the theme (with a status message), cycling
    /// the focus, changing mode; a key for the focused panel enters insert
    /// mode first when the input panel is focused and not being edited.
    pub fn apply_global_key(&mut self, key: &KeyEvent, theme: &mut ThemeState) -> (g: GlobalKey)
        requires
            old(self).focus.wf(),
        ensures
            g == global_key_for(key.code, key.modifiers, old(self).input_mode, old(self).focus@.current),
            final(self).focus.wf(),
            final(self).cwd == old(self).cwd,
            g is Quit ==> final(self).should_quit,
            !(g is Quit) ==> final(self).should_quit == old(self).should_quit,
            g is FocusNext ==> final(self).focus@.current == next_panel(old(self).focus@.current),
            g is FocusPrev ==> final(self).focus@.current == prev_panel(old(self).focus@.current),
            !(g is FocusNext || g is FocusPrev) ==> final(self).focus == old(self).focus,
            g is OpenModelSelector ==> (final(self).input_mode matches InputMode::Modal { name } && name@ == "model_selector"@),
            g is OpenSettings ==> (final(self).input_mode matches InputMode::Modal { name } && name@ == "settings"@),
            g is ToNormal ==> final(self).input_mode is Normal,
            g is ToInsert ==> final(self).input_mode is Insert,
            g is Forward ==> (if old(self).focus@.current == PanelId(2) && !editing(old(self).input_mode) {
                final(self).input_mode is Insert
            } else {
                final(self).input_mode == old(self).input_mode
            }),
            (g is Quit || g is ToggleTheme || g is OpenWorkspaceSelector || g is FocusNext || g is FocusPrev)
                ==> final(self).input_mode == old(self).input_mode,
            g is ToggleTheme ==> final(theme).active() == toggled_variant(old(theme).active())
                && (final(self).status_message matches Some(m) && m.text@ == theme_message(final(theme).active()) && m.level == MessageLevel::Info),
            !(g is ToggleTheme) ==> final(theme).active() == old(theme).active()
                && final(self).status_message == old(self).status_message,
    {
        let g = global_key(key, &self.input_mode, self.focus.current());
        match g {
            GlobalKey::Quit => self.quit(),
            GlobalKey::OpenModelSelector => self.input_mode.open_modal("model_selector"),
            GlobalKey::OpenSettings => self.input_mode.open_modal("settings"),
            GlobalKey::ToggleTheme => {
                theme.toggle_theme();
                let name = theme.current_variant().as_str();
                self.info(concat("Theme: ", name));
            }
            GlobalKey::OpenWorkspaceSelector => {}
            GlobalKey::FocusNext => self.focus.next(),
            GlobalKey::FocusPrev => self.focus.prev(),
            GlobalKey::ToNormal => self.input_mode.to_normal(),
            GlobalKey::ToInsert => self.input_mode.to_insert(),
            GlobalKey::Forward => {
                if self.focus.current().0 == 2 && !self.input_mode.is_editing() {
                    self.input_mode.to_insert();
                }
            }
        }
        proof {
            reveal_strlit("model_selector");
            reveal_strlit("settings");
        }
        g
    }

    /// A left click on the panels: the panel under it, focused (in normal
    /// mode) when it was not already.
    pub fn click_focus(&mut self, layout: &AppLayout, x: u16, y: u16) -> (p: Option<PanelId>)
        requires
            old(self).focus.wf(),
        ensures
            p == panel_under(*layout, x, y),
            final(self).focus.wf(),
            final(self).should_quit == old(self).should_quit,
            final(self).cwd == old(self).cwd,
            final(self).status_message == old(self).status_message,
            match p {
                Some(q) => if q != old(self).focus@.current {
                    final(self).focus@.current == q && final(self).input_mode is Normal
                } else {
                    final(self).focus == old(self).focus && final(self).input_mode == old(self).input_mode
                },
                None => final(self).focus == old(self).focus && final(self).input_mode == old(self).input_mode,
            },
    {
        let p = layout.panel_at(x, y);
        if let Some(q) = p {
            if q != self.focus.current() {
                self.focus.focus(q);
                self.input_mode.to_normal();
            }
        }
        p
    }
}

/// The panel to focus after switching the output to `ctx`: for an agent,
/// the output panel when it is a CLI agent and the input panel otherwise
/// (nothing when the agent is unknown, `agent_is_cli` being `None`); for
/// a file or nothing, the input panel.
pub open spec fn context_focus(ctx: OutputContext, agent_is_cli: Option<bool>) -> Option<PanelId> {
    match ctx {
        OutputContext::Agent { .. } => match agent_is_cli {
            Some(true) => Some(PanelId(1)),
            Some(false) => Some(PanelId(2)),
            None => None,
        },
        _ => Some(PanelId(2)),
    }
}

/// The panel to focus after switching the output to `ctx`.
pub fn focus_for_context(ctx: &OutputContext, agent_is_cli: Option<bool>) -> (p: Option<PanelId>)
    ensures
        p == context_focus(*ctx, agent_is_cli),
{
    match ctx {
        OutputContext::Agent { .. } => match agent_is_cli {
            Some(true) => Some(PanelId::output()),
            Some(false) => Some(PanelId::input()),
            None => None,
        },
        _ => Some(PanelId::input()),
    }
}

/// The number of newline bytes in `s`.
pub open spec fn newline_count(s: Seq<u8>) -> nat
    decreases s.len(),
{
    if s.len() == 0 {
        0
    } else {
        newline_count(s.drop_last()) + if s.last() == 10u8 { 1nat } else { 0nat }
    }
}

/// The number of newline bytes in `data` (lines of CLI agent output).
pub fn count_newlines(data: &[u8]) -> (n: usize)
    ensures
        n == newline_count(data@),
{
    let mut n: usize = 0;
    let mut i: usize = 0;
    while i < data.len()
        invariant
            i <= data@.len(),
            n == newline_count(data@.take(i as int)),
            n <= i,
        decreases data@.len() - i,
    {
        assert(data@.take(i + 1).drop_last() =~= data@.take(i as int));
        if data[i] == 10u8 {
            n = n + 1;
        }
        i = i + 1;
    }
    assert(data@.take(data@.len() as int) =~= data@);
    n
}

/// Decimal form of an integer, with a minus sign when negative.
pub open spec fn signed_decimal(i: int) -> Seq<char> {
    if i < 0 { seq!['-'] + decimal((-i) as nat) } else { decimal(i as nat) }
}

/// What a CLI agent's exit code means: success for 0, else the error
/// `Exited with code <code>`.
pub fn exit_error(code: i32) -> (r: Option<String>)
    ensures
        code == 0 ==> r is None,
        code != 0 ==> (r matches Some(s) && s@ == "Exited with code "@ + signed_decimal(code as int)),
{
    if code == 0 {
        None
    } else {
        let mut s = owned("Exited with code ");
        if code < 0 {
            push_char(&mut s, '-');
            let m: i64 = code as i64;
            push_decimal(&mut s, (0i64 - m) as u64);
            proof {
                assert(seq!['-'] + decimal((-(code as int)) as nat) =~= seq!['-'] + decimal((0 - m) as nat));
            }
        } else {
            push_decimal(&mut s, code as u64);
        }
        proof {
            if code < 0 {
                assert(s@ =~= "Exited with code "@ + signed_decimal(code as int));
            }
        }
        Some(s)
    }
}

/// Truncate a command for display (as `truncate` does).
pub fn truncate_cmd(s: &str, max_len: usize) -> (r: String)
    requires
        truncation_safe(s@, max_len as nat),
    ensures
        r@ == truncated(s@, max_len as nat),
{
    truncate(s, max_len)
}

/// The spawn request for a shell command: a shell agent named `Shell`,
/// described by the command cut to 50 bytes, with the command as its
/// parameters and no parent.
pub fn shell_request(cmd: &str) -> (r: AgentSpawnRequest)
    requires
        truncation_safe(cmd@, 50),
    ensures
        r.agent_type is Shell,
        r.name@ == "Shell"@,
        r.description@ == truncated(cmd@, 50),
        r.parameters matches Some(p) && p@ == cmd@,
        r.parent_id is None,
{
    AgentSpawnRequest {
        agent_type: AgentType::Shell,
        name: owned("Shell"),
        description: truncate_cmd(cmd, 50),
        parameters: Some(owned(cmd)),
        parent_id: None,
    }
}

/// The spawn request for a CLI agent configured as `config_id` and named
/// `name`, given `prompt`: described by the prompt cut to 50 bytes, with
/// the prompt as its parameters and no parent.
pub fn cli_agent_request(config_id: &str, name: &str, prompt: &str) -> (r: AgentSpawnRequest)
    requires
        truncation_safe(prompt@, 50),
    ensures
        r.agent_type matches AgentType::CliAgent { config_id: c } && c@ == config_id@,
        r.name@ == name@,
        r.description@ == truncated(prompt@, 50),
        r.parameters matches Some(p) && p@ == prompt@,
        r.parent_id is None,
{
    AgentSpawnRequest {
        agent_type: AgentType::CliAgent { config_id: owned(config_id) },
        name: owned(name),
        description: truncate_cmd(prompt, 50),
        parameters: Some(owned(prompt)),
        parent_id: None,
    }
}

/// The extensions of source files (compared in lowercase).
pub open spec fn source_extension(e: Seq<char>) -> bool {
    e == "rs"@ || e == "py"@ || e == "js"@ || e == "ts"@ || e == "tsx"@ || e == "jsx"@
        || e == "go"@ || e == "java"@ || e == "c"@ || e == "cpp"@ || e == "h"@ || e == "hpp"@
        || e == "rb"@ || e == "php"@ || e == "swift"@ || e == "kt"@ || e == "scala"@ || e == "cs"@
        || e == "fs"@ || e == "hs"@ || e == "ml"@ || e == "ex"@ || e == "exs"@ || e == "clj"@
        || e == "lisp"@ || e == "scm"@ || e == "lua"@ || e == "r"@ || e == "jl"@ || e == "nim"@
        || e == "zig"@ || e == "v"@ || e == "d"@ || e == "html"@ || e == "css"@ || e == "scss"@
        || e == "sass"@ || e == "less"@ || e == "vue"@ || e == "svelte"@ || e == "json"@ || e == "yaml"@
        || e == "yml"@ || e == "toml"@ || e == "xml"@ || e == "md"@ || e == "txt"@ || e == "sh"@
        || e == "bash"@ || e == "zsh"@ || e == "fish"@ || e == "ps1"@ || e == "bat"@ || e == "cmd"@
        || e == "sql"@ || e == "graphql"@ || e == "proto"@ || e == "dockerfile"@ || e == "makefile"@ || e == "cmake"@
}

/// The names of source files without a telling extension (compared in
/// lowercase).
pub open spec fn special_source_name(n: Seq<char>) -> bool {
    n == "dockerfile"@ || n == "makefile"@ || n == "cmakelists.txt"@ || n == "cargo.toml"@ || n == "package.json"@ || n == "tsconfig.json"@
        || n == "pyproject.toml"@ || n == "gemfile"@ || n == "rakefile"@ || n == "justfile"@
}

/// `path` names a source file: its extension, or else its file name, is a
/// known one, compared in lowercase.
pub open spec fn source_file(path: Seq<char>) -> bool {
    ||| (match path_file_name(path) {
        Some(name) => match name_extension(name) {
            Some(e) => source_extension(lowercase(e)),
            None => false,
        },
        None => false,
    })
    ||| (match path_file_name(path) {
        Some(name) => special_source_name(lowercase(name)),
        None => false,
    })
}

fn is_source_extension(e: &str) -> (b: bool)
    ensures
        b == source_extension(e@),
{
    same_text(e, "rs") || same_text(e, "py") || same_text(e, "js") || same_text(e, "ts")
        || same_text(e, "tsx") || same_text(e, "jsx") || same_text(e, "go") || same_text(e, "java")
        || same_text(e, "c") || same_text(e, "cpp") || same_text(e, "h") || same_text(e, "hpp")
        || same_text(e, "rb") || same_text(e, "php") || same_text(e, "swift") || same_text(e, "kt")
        || same_text(e, "scala") || same_text(e, "cs") || same_text(e, "fs") || same_text(e, "hs")
        || same_text(e, "ml") || same_text(e, "ex") || same_text(e, "exs") || same_text(e, "clj")
        || same_text(e, "lisp") || same_text(e, "scm") || same_text(e, "lua") || same_text(e, "r")
        || same_text(e, "jl") || same_text(e, "nim") || same_text(e, "zig") || same_text(e, "v")
        || same_text(e, "d") || same_text(e, "html") || same_text(e, "css") || same_text(e, "scss")
        || same_text(e, "sass") || same_text(e, "less") || same_text(e, "vue") || same_text(e, "svelte")
        || same_text(e, "json") || same_text(e, "yaml") || same_text(e, "yml") || same_text(e, "toml")
        || same_text(e, "xml") || same_text(e, "md") || same_text(e, "txt") || same_text(e, "sh")
        || same_text(e, "bash") || same_text(e, "zsh") || same_text(e, "fish") || same_text(e, "ps1")
        || same_text(e, "bat") || same_text(e, "cmd") || same_text(e, "sql") || same_text(e, "graphql")
        || same_text(e, "proto") || same_text(e, "dockerfile") || same_text(e, "makefile") || same_text(e, "cmake")
}

fn is_special_source_name(n: &str) -> (b: bool)
    ensures
        b == special_source_name(n@),
{
    same_text(n, "dockerfile") || same_text(n, "makefile") || same_text(n, "cmakelists.txt") || same_text(n, "cargo.toml")
        || same_text(n, "package.json") || same_text(n, "tsconfig.json") || same_text(n, "pyproject.toml") || same_text(n, "gemfile")
        || same_text(n, "rakefile") || same_text(n, "justfile")
}

/// Whether `path` names a source file, to be opened in the editor.
pub fn is_source_file(path: &str) -> (b: bool)
    ensures
        b == source_file(path@),
{
    if let Some(ext) = extension_of(path) {
        let lower = to_lowercase(ext.as_str());
        if is_source_extension(lower.as_str()) {
            return true;
        }
    }
    if let Some(name) = file_name_of(path) {
        let lower = to_lowercase(name.as_str());
        if is_special_source_name(lower.as_str()) {
            return true;
        }
    }
    false
}

/// Command-line arguments: a directory to open, a workspace to open.
#[derive(Debug, Clone)]
pub struct Args {
    pub path: Option<String>,
    pub workspace: Option<String>,
}

/// The argument is a flag (starts with `-`).
pub open spec fn is_flag(a: Seq<char>) -> bool {
    a.len() > 0 && a[0] == '-'
}

/// The arguments from `i` on, read into `(path, workspace)`:
/// `--workspace` or `-w` takes the next argument as the workspace (none
/// when it is the last); an argument that is not a flag is the path; other
/// flags are ignored. Later arguments win.
pub open spec fn args_from(args: Seq<Seq<char>>, i: nat, path: Option<Seq<char>>, ws: Option<Seq<char>>)
    -> (Option<Seq<char>>, Option<Seq<char>>)
    decreases args.len() - i,
{
    if i >= args.len() {
        (path, ws)
    } else if args[i as int] == "--workspace"@ || args[i as int] == "-w"@ {
        if i + 1 < args.len() {
            args_from(args, i + 2, path, Some(args[i + 1 as int]))
        } else {
            (path, None)
        }
    } else if !is_flag(args[i as int]) {
        args_from(args, i + 1, Some(args[i as int]), ws)
    } else {
        args_from(args, i + 1, path, ws)
    }
}

/// The values of optional strings.
pub open spec fn opt_view(o: Option<String>) -> Option<Seq<char>> {
    match o {
        Some(s) => Some(s@),
        None => None,
    }
}

impl Args {
    /// Read the arguments that follow the program name.
    pub fn parse_from(args: &Vec<String>) -> (a: Args)
        ensures
            (opt_view(a.path), opt_view(a.workspace))
                == args_from(args@.map_values(|s: String| s@), 0, None, None),
    {
        let ghost views = args@.map_values(|s: String| s@);
        let mut path: Option<String> = None;
        let mut workspace: Option<String> = None;
        let mut i: usize = 0;
        while i < args.len()
            invariant
                i <= args@.len(),
                views == args@.map_values(|s: String| s@),
                args_from(views, i as nat, opt_view(path), opt_view(workspace)) == args_from(views, 0, None, None),
            decreases args@.len() - i,
        {
            let arg = args[i].as_str();
            assert(views[i as int] == arg@);
            proof {
                reveal_strlit("-");
                assert("-"@.is_prefix_of(arg@) == is_flag(arg@)) by {
                    assert("-"@.len() == 1 && "-"@[0] == '-');
                    if arg@.len() > 0 {
                        assert(arg@.subrange(0, 1)[0] == arg@[0]);
                        if arg@[0] == '-' {
                            assert(arg@.subrange(0, 1) =~= "-"@);
                        }
                    }
                }
            }
            if same_text(arg, "--workspace") || same_text(arg, "-w") {
                if i + 1 < args.len() {
                    assert(views[i + 1] == args@[i + 1]@);
                    workspace = Some(owned(args[i + 1].as_str()));
                    i = i + 2;
                } else {
                    workspace = None;
                    i = i + 1;
                    return Args { path, workspace };
                }
            } else if !starts_with(arg, "-") {
                path = Some(owned(arg));
                i = i + 1;
            } else {
                i = i + 1;
            }
        }
        Args { path, workspace }
    }
}

} // verus!
