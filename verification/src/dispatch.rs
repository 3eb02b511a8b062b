//! From a matched rule to the commands sent to the compositor.

use crate::text::decimal;
use crate::text::decimal_of_i32;
use crate::text::decimal_of_u64;
use crate::text::is_digit;
use crate::text::lemma_decimal_is_digits;
use crate::text::lemma_replaced_leaves_no_occurrence;
use crate::text::lemma_replaced_without_occurrence;
use crate::text::occurs_in;
use crate::text::replace_all;
use crate::text::replaced;
use crate::text::shares_no_char;
use crate::text::signed_decimal;
use crate::window::text_or_empty;
use crate::window::text_view;
use crate::window::Window;
use crate::window::WindowView;
use vstd::prelude::*;

verus! {

/// Where a rule puts a window.
#[derive(Clone, Copy, Debug, PartialEq, Eq, Structural)]
pub enum Placement {
    Float,
    Tile,
}

/// What a rule does to a window it applies to. An absent field means that
/// nothing is done on that axis.
#[derive(Clone, Debug, PartialEq, Eq)]
pub struct Actions {
    /// Move the window to the floating or to the tiling layout.
    pub placement: Option<Placement>,
    /// Change the width of the window's column by this much.
    pub column_width: Option<i32>,
    /// Change the height of the window's row by this much.
    pub row_height: Option<i32>,
    /// Run this shell command, after the placeholders in it are filled in.
    pub spawn: Option<String>,
}

/// The mathematical content of [`Actions`].
pub struct ActionsView {
    pub placement: Option<Placement>,
    pub column_width: Option<i32>,
    pub row_height: Option<i32>,
    pub spawn: Option<Seq<char>>,
}

impl View for Actions {
    type V = ActionsView;

    open spec fn view(&self) -> ActionsView {
        ActionsView {
            placement: self.placement,
            column_width: self.column_width,
            row_height: self.row_height,
            spawn: text_view(self.spawn),
        }
    }
}

/// One request to the compositor.
#[derive(Clone, Debug, PartialEq, Eq)]
pub enum Command {
    MoveToFloating { window_id: u64 },
    MoveToTiling { window_id: u64 },
    SetColumnWidth { window_id: u64, delta: i32 },
    SetRowHeight { window_id: u64, delta: i32 },
    SpawnShell { command: String },
}

/// The mathematical content of a [`Command`].
pub enum CommandView {
    MoveToFloating { window_id: u64 },
    MoveToTiling { window_id: u64 },
    SetColumnWidth { window_id: u64, delta: i32 },
    SetRowHeight { window_id: u64, delta: i32 },
    SpawnShell { command: Seq<char> },
}

impl View for Command {
    type V = CommandView;

    open spec fn view(&self) -> CommandView {
        match *self {
            Command::MoveToFloating { window_id } => CommandView::MoveToFloating { window_id },
            Command::MoveToTiling { window_id } => CommandView::MoveToTiling { window_id },
            Command::SetColumnWidth { window_id, delta } => CommandView::SetColumnWidth {
                window_id,
                delta,
            },
            Command::SetRowHeight { window_id, delta } => CommandView::SetRowHeight {
                window_id,
                delta,
            },
            Command::SpawnShell { command } => CommandView::SpawnShell { command: command@ },
        }
    }
}

/// The content of a list of commands, in order.
pub open spec fn commands_view(commands: Seq<Command>) -> Seq<CommandView> {
    commands.map_values(|c: Command| c@)
}

/// The placeholder for the window's identifier: `{id}`.
pub open spec fn id_placeholder() -> Seq<char> {
    seq!['{', 'i', 'd', '}']
}

/// The placeholder for the window's title: `{title}`.
pub open spec fn title_placeholder() -> Seq<char> {
    seq!['{', 't', 'i', 't', 'l', 'e', '}']
}

/// The placeholder for the window's application identifier: `{app_id}`.
pub open spec fn app_id_placeholder() -> Seq<char> {
    seq!['{', 'a', 'p', 'p', '_', 'i', 'd', '}']
}

/// The placeholder for the window's process id: `{pid}`.
pub open spec fn pid_placeholder() -> Seq<char> {
    seq!['{', 'p', 'i', 'd', '}']
}

/// A process id as text: decimal, or empty if there is none.
pub open spec fn pid_text(pid: Option<i32>) -> Seq<char> {
    match pid {
        Some(p) => signed_decimal(p as int),
        None => Seq::empty(),
    }
}

/// A spawn template with the four texts filled in.
///
/// The four placeholders are replaced one after the other, each at all of
/// its occurrences: the identifier, the title, the application identifier,
/// the process id. A text put in by an earlier step is read by the later ones.
pub open spec fn filled(
    template: Seq<char>,
    id: Seq<char>,
    title: Seq<char>,
    app_id: Seq<char>,
    pid: Seq<char>,
) -> Seq<char> {
    let with_id = replaced(template, id_placeholder(), id);
    let with_title = replaced(with_id, title_placeholder(), title);
    let with_app_id = replaced(with_title, app_id_placeholder(), app_id);
    replaced(with_app_id, pid_placeholder(), pid)
}

/// A spawn template with the window's attributes filled in: the identifier
/// in decimal, the title and the application identifier as they are, the
/// process id in decimal, and the empty text for what the window lacks.
pub open spec fn rendered(template: Seq<char>, w: WindowView) -> Seq<char> {
    filled(
        template,
        decimal(w.id as nat),
        text_or_empty(w.title),
        text_or_empty(w.app_id),
        pid_text(w.pid),
    )
}

/// The placement command for a window, if the rule asks for one.
pub open spec fn placement_commands(window_id: u64, placement: Option<Placement>) -> Seq<
    CommandView,
> {
    match placement {
        Some(Placement::Float) => seq![CommandView::MoveToFloating { window_id }],
        Some(Placement::Tile) => seq![CommandView::MoveToTiling { window_id }],
        None => Seq::empty(),
    }
}

/// The column-width command for a window, if the rule asks for one.
pub open spec fn column_width_commands(window_id: u64, delta: Option<i32>) -> Seq<CommandView> {
    match delta {
        Some(delta) => seq![CommandView::SetColumnWidth { window_id, delta }],
        None => Seq::empty(),
    }
}

/// The row-height command for a window, if the rule asks for one.
pub open spec fn row_height_commands(window_id: u64, delta: Option<i32>) -> Seq<CommandView> {
    match delta {
        Some(delta) => seq![CommandView::SetRowHeight { window_id, delta }],
        None => Seq::empty(),
    }
}

/// The spawn command for a window, if the rule asks for one.
pub open spec fn spawn_commands(w: WindowView, template: Option<Seq<char>>) -> Seq<CommandView> {
    match template {
        Some(t) => seq![CommandView::SpawnShell { command: rendered(t, w) }],
        None => Seq::empty(),
    }
}

/// The commands that a rule's actions give for a window, in the order in
/// which they are sent: placement, column width, row height, spawn.
pub open spec fn emitted(w: WindowView, actions: ActionsView) -> Seq<CommandView> {
    placement_commands(w.id, actions.placement) + column_width_commands(
        w.id,
        actions.column_width,
    ) + row_height_commands(w.id, actions.row_height) + spawn_commands(w, actions.spawn)
}

/// With every action set, four commands are sent: the placement first,
/// then the column width, then the row height, and the spawn command last.
pub proof fn lemma_full_actions_order(w: WindowView, actions: ActionsView)
    requires
        actions.placement is Some,
        actions.column_width is Some,
        actions.row_height is Some,
        actions.spawn is Some,
    ensures
        emitted(w, actions).len() == 4,
        emitted(w, actions)[0] == (if actions.placement == Some(Placement::Float) {
            CommandView::MoveToFloating { window_id: w.id }
        } else {
            CommandView::MoveToTiling { window_id: w.id }
        }),
        emitted(w, actions)[1] == (CommandView::SetColumnWidth {
            window_id: w.id,
            delta: actions.column_width->0,
        }),
        emitted(w, actions)[2] == (CommandView::SetRowHeight {
            window_id: w.id,
            delta: actions.row_height->0,
        }),
        emitted(w, actions)[3] == (CommandView::SpawnShell {
            command: rendered(actions.spawn->0, w),
        }),
{
}

/// The place of a command in the sending order.
pub open spec fn stage(command: CommandView) -> int {
    match command {
        CommandView::MoveToFloating { .. } => 0,
        CommandView::MoveToTiling { .. } => 0,
        CommandView::SetColumnWidth { .. } => 1,
        CommandView::SetRowHeight { .. } => 2,
        CommandView::SpawnShell { .. } => 3,
    }
}

/// Whatever is set, the order holds: in what is sent, a placement command
/// stands before a column-width command, that before a row-height command,
/// and the spawn command after all of them.
pub proof fn lemma_emission_order(w: WindowView, actions: ActionsView, i: int, j: int)
    requires
        0 <= i < j < emitted(w, actions).len(),
    ensures
        stage(emitted(w, actions)[i]) < stage(emitted(w, actions)[j]),
{
}

/// What a window lacks is filled in as the empty text: its title, its
/// application identifier, its process id.
pub proof fn lemma_absent_fields_render_empty(template: Seq<char>, w: WindowView)
    ensures
        w.title is None ==> rendered(template, w) == filled(
            template,
            decimal(w.id as nat),
            Seq::empty(),
            text_or_empty(w.app_id),
            pid_text(w.pid),
        ),
        w.app_id is None ==> rendered(template, w) == filled(
            template,
            decimal(w.id as nat),
            text_or_empty(w.title),
            Seq::empty(),
            pid_text(w.pid),
        ),
        w.pid is None ==> rendered(template, w) == filled(
            template,
            decimal(w.id as nat),
            text_or_empty(w.title),
            text_or_empty(w.app_id),
            Seq::empty(),
        ),
{
}

/// A template in which none of the four placeholders occurs is sent as it is.
pub proof fn lemma_plain_template_unchanged(template: Seq<char>, w: WindowView)
    requires
        !occurs_in(template, id_placeholder()),
        !occurs_in(template, title_placeholder()),
        !occurs_in(template, app_id_placeholder()),
        !occurs_in(template, pid_placeholder()),
    ensures
        rendered(template, w) == template,
{
    lemma_replaced_without_occurrence(template, id_placeholder(), decimal(w.id as nat));
    lemma_replaced_without_occurrence(template, title_placeholder(), text_or_empty(w.title));
    lemma_replaced_without_occurrence(template, app_id_placeholder(), text_or_empty(w.app_id));
    lemma_replaced_without_occurrence(template, pid_placeholder(), pid_text(w.pid));
}

/// Once the identifier is filled in, its placeholder occurs nowhere: a
/// window always has an identifier, and no digit of it is a character of
/// the placeholder. (A title or an application identifier that holds the
/// text `{id}` brings it back in a later step, and it is then left as it is.)
pub proof fn lemma_identifier_filled_everywhere(template: Seq<char>, id: u64)
    ensures
        !occurs_in(replaced(template, id_placeholder(), decimal(id as nat)), id_placeholder()),
{
    let digits = decimal(id as nat);
    lemma_decimal_is_digits(id as nat);
    assert(shares_no_char(digits, id_placeholder())) by {
        assert forall|i: int, j: int|
            0 <= i < digits.len() && 0 <= j < id_placeholder().len() implies digits[i]
            != id_placeholder()[j] by {
            assert(is_digit(digits[i]));
        }
    }
    lemma_replaced_leaves_no_occurrence(template, id_placeholder(), digits);
}

/// Fills the window's attributes into a spawn template.
pub fn render_spawn_command(template: &str, window: &Window) -> (command: String)
    ensures
        command@ == rendered(template@, window@),
{
    proof {
        reveal_strlit("{id}");
        reveal_strlit("{title}");
        reveal_strlit("{app_id}");
        reveal_strlit("{pid}");
    }
    assert("{id}"@ =~= id_placeholder());
    assert("{title}"@ =~= title_placeholder());
    assert("{app_id}"@ =~= app_id_placeholder());
    assert("{pid}"@ =~= pid_placeholder());
    let id = decimal_of_u64(window.id);
    let pid = match window.pid {
        Some(p) => decimal_of_i32(p),
        None => String::new(),
    };
    let with_id = replace_all(template, "{id}", id.as_str());
    let with_title = replace_all(with_id.as_str(), "{title}", window.title_text());
    let with_app_id = replace_all(with_title.as_str(), "{app_id}", window.app_id_text());
    replace_all(with_app_id.as_str(), "{pid}", pid.as_str())
}

/// The commands for one rule match, in sending order: placement first, then
/// column width, then row height, and the spawn command last.
pub fn dispatch(window: &Window, actions: &Actions) -> (commands: Vec<Command>)
    ensures
        commands_view(commands@) == emitted(window@, actions@),
{
    let mut commands: Vec<Command> = Vec::new();
    let ghost w = window@;
    let ghost a = actions@;
    match actions.placement {
        Some(Placement::Float) => commands.push(Command::MoveToFloating { window_id: window.id }),
        Some(Placement::Tile) => commands.push(Command::MoveToTiling { window_id: window.id }),
        None => {},
    }
    assert(commands_view(commands@) =~= placement_commands(w.id, a.placement));
    if let Some(delta) = actions.column_width {
        commands.push(Command::SetColumnWidth { window_id: window.id, delta });
    }
    assert(commands_view(commands@) =~= placement_commands(w.id, a.placement)
        + column_width_commands(w.id, a.column_width));
    if let Some(delta) = actions.row_height {
        commands.push(Command::SetRowHeight { window_id: window.id, delta });
    }
    assert(commands_view(commands@) =~= placement_commands(w.id, a.placement)
        + column_width_commands(w.id, a.column_width) + row_height_commands(w.id, a.row_height));
    if let Some(template) = &actions.spawn {
        let command = render_spawn_command(template.as_str(), window);
        commands.push(Command::SpawnShell { command });
    }
    assert(commands_view(commands@) =~= emitted(w, a));
    commands
}

} // verus!
