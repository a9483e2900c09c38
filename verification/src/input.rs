//! Keys: what each one means in each view, and what it does.
//!
//! [`poll_input`] does what a key asks for, as far as that needs nothing from
//! outside. What does need something, such as a path typed by the listener,
//! comes back as an [`Ask`].
use crate::library;
use crate::list_view;
use crate::list_view::{
    cursor_to, playlist_cursor_down, playlist_cursor_end, playlist_cursor_home, playlist_cursor_page_down,
    playlist_cursor_page_up, playlist_cursor_up, rebuild_filter, ListView,
};
use crate::order;
use crate::queue;
use crate::queue::{
    enqueue_track, sort_playlist_by_tags, toggle_repeat, toggle_shuffle, tree_remove_under_cursor,
};
use crate::state::{InputMode, Look, PlayerState, Transport, ViewMode, EQ_BANDS};
use crate::text;
use crate::text::{is_blank, trim_text};
use crate::theme::ThemeKind;
use crate::tree_view;
use crate::tree_view::{
    clear_tree_filter, rebuild_tree_filter, tree_collapse_under_cursor, tree_cursor_play_index,
    tree_expand_under_cursor, tree_move, tree_page, TreeView,
};
use crate::ui_state;
use crate::ui_state::{Banner, LyricsPane, UiState};
use vstd::prelude::*;

verus! {

/// A key.
#[derive(Clone, Copy, Debug, PartialEq, Eq, Structural)]
pub enum KeyCode {
    Char(char),
    Esc,
    Enter,
    Tab,
    Backspace,
    Delete,
    Up,
    Down,
    Left,
    Right,
    Home,
    End,
    PageUp,
    PageDown,
    Other,
}

/// A key that was pressed, with the modifiers that were held.
#[derive(Clone, Copy, Debug, PartialEq, Eq, Structural)]
pub struct KeyPress {
    pub code: KeyCode,
    pub ctrl: bool,
    pub shift: bool,
    /// Any other modifier.
    pub other: bool,
}

/// What a key means.
#[derive(Clone, Copy, Debug, PartialEq, Eq, Structural)]
pub enum Command {
    LyricsUp,
    LyricsDown,
    LyricsLater,
    LyricsEarlier,
    ToPlayer,
    BandLeft,
    BandRight,
    BandUp,
    BandDown,
    BandFlat,
    PresetPrev,
    PresetNext,
    SwitchTree,
    ConfirmRemove,
    CancelRemove,
    TreeUp,
    TreeDown,
    TreeClose,
    TreeOpen,
    TreePlay,
    TreeSearch,
    TreePageUp,
    TreePageDown,
    TreeRemove,
    TreeHome,
    TreeEnd,
    TreeBack,
    ListUp,
    ListDown,
    ListHome,
    ListEnd,
    ListPageUp,
    ListPageDown,
    SortByTags,
    ListPlay,
    ListSearch,
    Enqueue,
    ListRemove,
    LeaveList,
    Pause,
    Next,
    Prev,
    Forward,
    Backward,
    CycleViz,
    Louder,
    Softer,
    ToggleEq,
    CycleEffects,
    TogglePreFader,
    ToggleStyle,
    ToggleList,
    ToggleLyrics,
    SavePrompt,
    Repeat,
    Rescan,
    Shuffle,
    TypePath,
    PickFolder,
    Quit,
    CycleCrossfeed,
    ToggleStats,
    BalanceLeft,
    BalanceRight,
    CycleTheme,
    Nothing,
}

/// What a key means in the lyrics view, where it means something special there.
pub open spec fn lyrics_command(k: KeyPress) -> Option<Command> {
    match k.code {
        KeyCode::Char(c) => if c == 'w' {
            Some(Command::LyricsUp)
        } else if c == 's' {
            Some(Command::LyricsDown)
        } else if c == 'd' {
            Some(Command::LyricsLater)
        } else if c == 'a' {
            Some(Command::LyricsEarlier)
        } else if c == 'y' {
            Some(Command::ToPlayer)
        } else {
            None
        },
        KeyCode::Esc => Some(Command::ToPlayer),
        _ => None,
    }
}

/// What a key means in the equaliser, where it means something special there.
pub open spec fn eq_command(k: KeyPress) -> Option<Command> {
    match k.code {
        KeyCode::Left => Some(Command::BandLeft),
        KeyCode::Right => Some(Command::BandRight),
        KeyCode::Up => Some(Command::BandUp),
        KeyCode::Down => Some(Command::BandDown),
        KeyCode::Char(c) => if c == '[' {
            Some(Command::PresetPrev)
        } else if c == ']' {
            Some(Command::PresetNext)
        } else if c == '0' {
            Some(Command::BandFlat)
        } else {
            None
        },
        KeyCode::Esc => Some(Command::ToPlayer),
        _ => None,
    }
}

/// What a key means in the tree, where it means something special there.
pub open spec fn tree_command(k: KeyPress) -> Option<Command> {
    match k.code {
        KeyCode::Up => Some(Command::TreeUp),
        KeyCode::Down => Some(Command::TreeDown),
        KeyCode::Left => Some(Command::TreeClose),
        KeyCode::Right => Some(Command::TreeOpen),
        KeyCode::Enter => Some(Command::TreePlay),
        KeyCode::PageUp => Some(Command::TreePageUp),
        KeyCode::PageDown => Some(Command::TreePageDown),
        KeyCode::Delete => Some(Command::TreeRemove),
        KeyCode::Home => Some(Command::TreeHome),
        KeyCode::End => Some(Command::TreeEnd),
        KeyCode::Esc => Some(Command::TreeBack),
        KeyCode::Char(c) => if c == '/' {
            Some(Command::TreeSearch)
        } else if c == 'u' && k.ctrl {
            Some(Command::TreePageUp)
        } else if c == 'd' && k.ctrl {
            Some(Command::TreePageDown)
        } else if c == 'd' {
            Some(Command::TreeRemove)
        } else if c == 'g' && !k.shift {
            Some(Command::TreeHome)
        } else if c == 'G' {
            Some(Command::TreeEnd)
        } else {
            None
        },
        _ => None,
    }
}

/// What a key means in the list, where it means something special there.
pub open spec fn list_command(k: KeyPress) -> Option<Command> {
    match k.code {
        KeyCode::Up => Some(Command::ListUp),
        KeyCode::Down => Some(Command::ListDown),
        KeyCode::Home => Some(Command::ListHome),
        KeyCode::End => Some(Command::ListEnd),
        KeyCode::PageUp => Some(Command::ListPageUp),
        KeyCode::PageDown => Some(Command::ListPageDown),
        KeyCode::Enter => Some(Command::ListPlay),
        KeyCode::Delete => Some(Command::ListRemove),
        KeyCode::Esc => Some(Command::LeaveList),
        KeyCode::Char(c) => if c == 'g' && !k.shift {
            Some(Command::ListHome)
        } else if c == 'g' || c == 'G' {
            Some(Command::ListEnd)
        } else if c == 'u' && k.ctrl {
            Some(Command::ListPageUp)
        } else if c == 'd' && k.ctrl {
            Some(Command::ListPageDown)
        } else if (c == 's' && k.shift) || c == 'S' {
            Some(Command::SortByTags)
        } else if c == '/' {
            Some(Command::ListSearch)
        } else if c == 'a' {
            Some(Command::Enqueue)
        } else if c == 'd' {
            Some(Command::ListRemove)
        } else {
            None
        },
        _ => None,
    }
}

/// What a key means in every view.
pub open spec fn global_command(k: KeyPress) -> Command {
    match k.code {
        KeyCode::Up => Command::Next,
        KeyCode::Down => Command::Prev,
        KeyCode::Right => Command::Forward,
        KeyCode::Left => Command::Backward,
        KeyCode::Esc => Command::Quit,
        KeyCode::Char(c) => if c == ' ' {
            Command::Pause
        } else if c == 'v' {
            Command::CycleViz
        } else if c == '+' || c == '=' {
            Command::Louder
        } else if c == '-' {
            Command::Softer
        } else if c == 'e' {
            Command::ToggleEq
        } else if c == 'x' {
            Command::CycleEffects
        } else if c == 'f' {
            Command::TogglePreFader
        } else if c == 'b' {
            Command::ToggleStyle
        } else if c == 'l' {
            Command::ToggleList
        } else if c == 'y' {
            Command::ToggleLyrics
        } else if c == 's' {
            Command::SavePrompt
        } else if (c == 'r' && k.shift) || c == 'R' {
            Command::Repeat
        } else if c == 'r' {
            Command::Rescan
        } else if c == 'z' {
            Command::Shuffle
        } else if c == 'o' {
            Command::TypePath
        } else if c == 'p' {
            Command::PickFolder
        } else if c == 'q' || (c == 'c' && k.ctrl && !k.shift && !k.other) {
            Command::Quit
        } else if c == 'c' {
            Command::CycleCrossfeed
        } else if c == 'i' {
            Command::ToggleStats
        } else if c == '[' {
            Command::BalanceLeft
        } else if c == ']' {
            Command::BalanceRight
        } else if c == 't' {
            Command::CycleTheme
        } else {
            Command::Nothing
        },
        _ => Command::Nothing,
    }
}

/// `a`, or what the key means in every view.
pub open spec fn or_global(a: Option<Command>, k: KeyPress) -> Command {
    match a {
        Some(c) => c,
        None => global_command(k),
    }
}

/// What a key means. A removal in the tree that waits for a yes takes any key
/// for an answer.
pub open spec fn meaning(view: ViewMode, tree: bool, pending: bool, k: KeyPress) -> Command {
    match view {
        ViewMode::Player => global_command(k),
        ViewMode::Lyrics => or_global(lyrics_command(k), k),
        ViewMode::Eq => or_global(eq_command(k), k),
        ViewMode::Playlist => if k.code is Tab {
            Command::SwitchTree
        } else if tree && pending {
            if k.code == KeyCode::Char('y') {
                Command::ConfirmRemove
            } else {
                Command::CancelRemove
            }
        } else if tree {
            or_global(tree_command(k), k)
        } else {
            or_global(list_command(k), k)
        },
    }
}

fn lyrics_key(k: KeyPress) -> (r: Option<Command>)
    ensures
        r == lyrics_command(k),
{
    match k.code {
        KeyCode::Char(c) => if c == 'w' {
            Some(Command::LyricsUp)
        } else if c == 's' {
            Some(Command::LyricsDown)
        } else if c == 'd' {
            Some(Command::LyricsLater)
        } else if c == 'a' {
            Some(Command::LyricsEarlier)
        } else if c == 'y' {
            Some(Command::ToPlayer)
        } else {
            None
        },
        KeyCode::Esc => Some(Command::ToPlayer),
        _ => None,
    }
}

fn eq_key(k: KeyPress) -> (r: Option<Command>)
    ensures
        r == eq_command(k),
{
    match k.code {
        KeyCode::Left => Some(Command::BandLeft),
        KeyCode::Right => Some(Command::BandRight),
        KeyCode::Up => Some(Command::BandUp),
        KeyCode::Down => Some(Command::BandDown),
        KeyCode::Char(c) => if c == '[' {
            Some(Command::PresetPrev)
        } else if c == ']' {
            Some(Command::PresetNext)
        } else if c == '0' {
            Some(Command::BandFlat)
        } else {
            None
        },
        KeyCode::Esc => Some(Command::ToPlayer),
        _ => None,
    }
}

fn tree_key(k: KeyPress) -> (r: Option<Command>)
    ensures
        r == tree_command(k),
{
    match k.code {
        KeyCode::Up => Some(Command::TreeUp),
        KeyCode::Down => Some(Command::TreeDown),
        KeyCode::Left => Some(Command::TreeClose),
        KeyCode::Right => Some(Command::TreeOpen),
        KeyCode::Enter => Some(Command::TreePlay),
        KeyCode::PageUp => Some(Command::TreePageUp),
        KeyCode::PageDown => Some(Command::TreePageDown),
        KeyCode::Delete => Some(Command::TreeRemove),
        KeyCode::Home => Some(Command::TreeHome),
        KeyCode::End => Some(Command::TreeEnd),
        KeyCode::Esc => Some(Command::TreeBack),
        KeyCode::Char(c) => if c == '/' {
            Some(Command::TreeSearch)
        } else if c == 'u' && k.ctrl {
            Some(Command::TreePageUp)
        } else if c == 'd' && k.ctrl {
            Some(Command::TreePageDown)
        } else if c == 'd' {
            Some(Command::TreeRemove)
        } else if c == 'g' && !k.shift {
            Some(Command::TreeHome)
        } else if c == 'G' {
            Some(Command::TreeEnd)
        } else {
            None
        },
        _ => None,
    }
}

fn list_key(k: KeyPress) -> (r: Option<Command>)
    ensures
        r == list_command(k),
{
    match k.code {
        KeyCode::Up => Some(Command::ListUp),
        KeyCode::Down => Some(Command::ListDown),
        KeyCode::Home => Some(Command::ListHome),
        KeyCode::End => Some(Command::ListEnd),
        KeyCode::PageUp => Some(Command::ListPageUp),
        KeyCode::PageDown => Some(Command::ListPageDown),
        KeyCode::Enter => Some(Command::ListPlay),
        KeyCode::Delete => Some(Command::ListRemove),
        KeyCode::Esc => Some(Command::LeaveList),
        KeyCode::Char(c) => if c == 'g' && !k.shift {
            Some(Command::ListHome)
        } else if c == 'g' || c == 'G' {
            Some(Command::ListEnd)
        } else if c == 'u' && k.ctrl {
            Some(Command::ListPageUp)
        } else if c == 'd' && k.ctrl {
            Some(Command::ListPageDown)
        } else if (c == 's' && k.shift) || c == 'S' {
            Some(Command::SortByTags)
        } else if c == '/' {
            Some(Command::ListSearch)
        } else if c == 'a' {
            Some(Command::Enqueue)
        } else if c == 'd' {
            Some(Command::ListRemove)
        } else {
            None
        },
        _ => None,
    }
}

fn global_key(k: KeyPress) -> (r: Command)
    ensures
        r == global_command(k),
{
    match k.code {
        KeyCode::Up => Command::Next,
        KeyCode::Down => Command::Prev,
        KeyCode::Right => Command::Forward,
        KeyCode::Left => Command::Backward,
        KeyCode::Esc => Command::Quit,
        KeyCode::Char(c) => if c == ' ' {
            Command::Pause
        } else if c == 'v' {
            Command::CycleViz
        } else if c == '+' || c == '=' {
            Command::Louder
        } else if c == '-' {
            Command::Softer
        } else if c == 'e' {
            Command::ToggleEq
        } else if c == 'x' {
            Command::CycleEffects
        } else if c == 'f' {
            Command::TogglePreFader
        } else if c == 'b' {
            Command::ToggleStyle
        } else if c == 'l' {
            Command::ToggleList
        } else if c == 'y' {
            Command::ToggleLyrics
        } else if c == 's' {
            Command::SavePrompt
        } else if (c == 'r' && k.shift) || c == 'R' {
            Command::Repeat
        } else if c == 'r' {
            Command::Rescan
        } else if c == 'z' {
            Command::Shuffle
        } else if c == 'o' {
            Command::TypePath
        } else if c == 'p' {
            Command::PickFolder
        } else if c == 'q' || (c == 'c' && k.ctrl && !k.shift && !k.other) {
            Command::Quit
        } else if c == 'c' {
            Command::CycleCrossfeed
        } else if c == 'i' {
            Command::ToggleStats
        } else if c == '[' {
            Command::BalanceLeft
        } else if c == ']' {
            Command::BalanceRight
        } else if c == 't' {
            Command::CycleTheme
        } else {
            Command::Nothing
        },
        _ => Command::Nothing,
    }
}

/// What a key means.
pub fn key_command(view: ViewMode, tree: bool, pending: bool, k: KeyPress) -> (r: Command)
    ensures
        r == meaning(view, tree, pending, k),
{
    let special: Option<Command> = match view {
        ViewMode::Player => None,
        ViewMode::Lyrics => lyrics_key(k),
        ViewMode::Eq => eq_key(k),
        ViewMode::Playlist => {
            if k.code == KeyCode::Tab {
                return Command::SwitchTree;
            }
            if tree && pending {
                if k.code == KeyCode::Char('y') {
                    return Command::ConfirmRemove;
                }
                return Command::CancelRemove;
            }
            if tree {
                tree_key(k)
            } else {
                list_key(k)
            }
        },
    };
    match special {
        Some(c) => c,
        None => global_key(k),
    }
}

/// What happens to the keys that have been pressed meanwhile.
#[derive(Clone, Copy, Debug, PartialEq, Eq, Structural)]
pub enum Flow {
    /// They are looked at now.
    More,
    /// They wait for the next frame.
    Stop,
    /// The player ends.
    Quit,
}

/// What someone outside has to do.
pub enum Ask {
    Nothing,
    /// Look at the sources again, and call [`crate::queue::rescan`].
    Rescan,
    /// Let a path be typed, see with [`crate::queue::source_found`] what is there,
    /// and call [`crate::queue::source_chosen`].
    TypePath,
    /// Let a folder be picked, see with [`crate::queue::source_found`] what is
    /// there, and call [`crate::queue::source_chosen`].
    PickFolder,
    /// Write the playlist down under this name, and call
    /// [`crate::queue::playlist_saved`].
    Save(String),
    /// Find out where the path under the cursor leads, and call
    /// [`crate::queue::remove_track`].
    Remove,
    /// Find out where these tracks' paths lead, and call
    /// [`crate::queue::tree_remove_indices`].
    RemoveListed(Vec<usize>),
}

/// What came of a key.
pub struct Outcome {
    pub flow: Flow,
    pub ask: Ask,
}

/// Whether nothing is asked of anyone outside.
pub open spec fn just(out: Outcome, flow: Flow) -> bool {
    out.flow == flow && out.ask is Nothing
}

fn done(flow: Flow) -> (out: Outcome)
    ensures
        just(out, flow),
{
    Outcome { flow, ask: Ask::Nothing }
}

/// The player after a key that asks something of it alone.
pub open spec fn player_after(c: Command, s: PlayerState) -> PlayerState {
    match c {
        Command::Pause => PlayerState {
            transport: Transport { paused: !s.transport.paused, ..s.transport },
            ..s
        },
        Command::Next => PlayerState { transport: Transport { skip_next: true, ..s.transport }, ..s },
        Command::Prev => PlayerState { transport: Transport { skip_prev: true, ..s.transport }, ..s },
        Command::Forward => PlayerState { transport: Transport { seek_request: 10, ..s.transport }, ..s },
        Command::Backward => PlayerState { transport: Transport { seek_request: (-10) as i64, ..s.transport }, ..s },
        Command::CycleViz => PlayerState { look: Look { viz_mode: s.look.viz_mode.succ(), ..s.look }, ..s },
        Command::Louder => PlayerState { volume: text::least(s.volume + 5, 150) as u32, ..s },
        Command::Softer => PlayerState { volume: text::minus(s.volume as int, 5) as u32, ..s },
        Command::CycleEffects => if s.effects.count == 0 {
            s
        } else {
            PlayerState { effects: s.effects.stepped(1), ..s }
        },
        Command::TogglePreFader => PlayerState { look: Look { pre_fader: !s.look.pre_fader, ..s.look }, ..s },
        Command::ToggleStyle => PlayerState { look: Look { viz_style: s.look.viz_style.other(), ..s.look }, ..s },
        Command::Quit => PlayerState { transport: Transport { quit: true, ..s.transport }, ..s },
        Command::CycleCrossfeed => if s.crossfeed.count == 0 {
            s
        } else {
            PlayerState { crossfeed: s.crossfeed.stepped(1), ..s }
        },
        Command::ToggleStats => PlayerState { look: Look { show_stats: !s.look.show_stats, ..s.look }, ..s },
        Command::BalanceLeft => PlayerState { balance: text::most(s.balance - 5, -100) as i32, ..s },
        Command::BalanceRight => PlayerState { balance: text::least(s.balance + 5, 100) as i32, ..s },
        Command::CycleTheme => s.with_theme(s.look.theme.succ()),
        Command::PresetPrev => if s.eq.count == 0 {
            s
        } else {
            PlayerState { eq_custom: false, eq: s.eq.stepped(-1), ..s }
        },
        Command::PresetNext => if s.eq.count == 0 {
            s
        } else {
            PlayerState { eq_custom: false, eq: s.eq.stepped(1), ..s }
        },
        _ => s,
    }
}

/// Does to the player what a key asks of it alone.
fn change_player(state: &mut PlayerState, c: Command)
    ensures
        *final(state) == player_after(c, *old(state)),
{
    match c {
        Command::Pause => state.toggle_pause(),
        Command::Next => state.next(),
        Command::Prev => state.prev(),
        Command::Forward => state.seek(10),
        Command::Backward => state.seek(-10),
        Command::CycleViz => state.cycle_viz_mode(),
        Command::Louder => state.volume_up(),
        Command::Softer => state.volume_down(),
        Command::CycleEffects => state.cycle_effects(),
        Command::TogglePreFader => state.toggle_pre_fader(),
        Command::ToggleStyle => state.toggle_viz_style(),
        Command::Quit => state.quit(),
        Command::CycleCrossfeed => state.cycle_crossfeed(),
        Command::ToggleStats => state.toggle_stats(),
        Command::BalanceLeft => state.balance_left(),
        Command::BalanceRight => state.balance_right(),
        Command::CycleTheme => {
            let _kind: ThemeKind = state.cycle_theme();
        },
        Command::PresetPrev => state.step_eq_preset(-1),
        Command::PresetNext => state.step_eq_preset(1),
        _ => {},
    }
}

/// The lyrics view after one of its keys.
pub open spec fn lyrics_after(c: Command, l: LyricsPane) -> LyricsPane {
    match c {
        Command::LyricsUp => LyricsPane {
            auto_scroll: false,
            scroll: text::minus(l.scroll as int, 1) as usize,
            ..l
        },
        Command::LyricsDown => LyricsPane {
            auto_scroll: false,
            scroll: if l.lyrics matches Some(t) && l.scroll + 1 < t.count() {
                (l.scroll + 1) as usize
            } else {
                l.scroll
            },
            ..l
        },
        Command::LyricsLater => LyricsPane { offset: text::least(l.offset + 1, i64::MAX as int) as i64, ..l },
        Command::LyricsEarlier => LyricsPane { offset: text::most(l.offset - 1, i64::MIN as int) as i64, ..l },
        Command::ToggleLyrics => LyricsPane { scroll: 0, auto_scroll: true, ..l },
        _ => l,
    }
}

/// Does one of the lyrics view's keys.
fn change_lyrics(l: &mut LyricsPane, c: Command)
    ensures
        *final(l) == lyrics_after(c, *old(l)),
{
    match c {
        Command::LyricsUp => {
            l.auto_scroll = false;
            l.scroll = l.scroll.saturating_sub(1);
        },
        Command::LyricsDown => {
            l.auto_scroll = false;
            let more: bool = match &l.lyrics {
                Some(t) => {
                    let n: usize = t.line_count();
                    n > 0 && l.scroll < n - 1
                },
                None => false,
            };
            if more {
                l.scroll = l.scroll + 1;
            }
        },
        Command::LyricsLater => {
            if l.offset < i64::MAX {
                l.offset = l.offset + 1;
            }
        },
        Command::LyricsEarlier => {
            if l.offset > i64::MIN {
                l.offset = l.offset - 1;
            }
        },
        Command::ToggleLyrics => {
            l.scroll = 0;
            l.auto_scroll = true;
        },
        _ => {},
    }
}

/// The view after a key that changes it.
pub open spec fn view_after(c: Command, v: ViewMode) -> ViewMode {
    match c {
        Command::ToPlayer | Command::LeaveList | Command::TreeBack => ViewMode::Player,
        Command::ToggleEq => if v is Eq {
            ViewMode::Player
        } else {
            ViewMode::Eq
        },
        Command::ToggleList => if v is Playlist {
            ViewMode::Player
        } else {
            ViewMode::Playlist
        },
        Command::ToggleLyrics => if v is Lyrics {
            ViewMode::Player
        } else {
            ViewMode::Lyrics
        },
        _ => v,
    }
}

fn next_view(c: Command, v: ViewMode) -> (r: ViewMode)
    ensures
        r == view_after(c, v),
{
    match c {
        Command::ToPlayer | Command::LeaveList | Command::TreeBack => ViewMode::Player,
        Command::ToggleEq => match v {
            ViewMode::Eq => ViewMode::Player,
            _ => ViewMode::Eq,
        },
        Command::ToggleList => match v {
            ViewMode::Playlist => ViewMode::Player,
            _ => ViewMode::Playlist,
        },
        Command::ToggleLyrics => match v {
            ViewMode::Lyrics => ViewMode::Player,
            _ => ViewMode::Lyrics,
        },
        _ => v,
    }
}

/// The list after one of its keys, with `n` tracks in all.
pub open spec fn list_after_key(c: Command, l: list_view::ListV, n: int) -> list_view::ListV {
    match c {
        Command::ListUp => if l.cursor > 0 {
            l.at(l.cursor - 1)
        } else {
            l
        },
        Command::ListDown => if l.cursor < l.last(n) {
            list_view::ListV { cursor: l.cursor + 1, ..l }
        } else {
            l
        },
        Command::ListHome => list_view::ListV { cursor: 0, scroll: 0, ..l },
        Command::ListEnd => list_view::ListV { cursor: l.last(n), ..l },
        Command::ListPageUp => l.at(text::minus(l.cursor, l.page())),
        Command::ListPageDown => list_view::ListV { cursor: text::least(l.cursor + l.page(), l.last(n)), ..l },
        _ => l,
    }
}

fn move_list(l: &mut ListView, c: Command, n: usize)
    ensures
        final(l)@ == list_after_key(c, old(l)@, n as int),
{
    match c {
        Command::ListUp => playlist_cursor_up(l),
        Command::ListDown => playlist_cursor_down(l, n),
        Command::ListHome => playlist_cursor_home(l),
        Command::ListEnd => playlist_cursor_end(l, n),
        Command::ListPageUp => playlist_cursor_page_up(l),
        Command::ListPageDown => playlist_cursor_page_down(l, n),
        _ => {},
    }
}

/// Whether a tree's cursor was moved by one of its keys.
pub open spec fn tree_moved(c: Command, t: TreeView, was: TreeView) -> bool {
    let n = was.rows@.len() as int;
    let page = text::most(was.view_height as int, 1);
    let to = match c {
        Command::TreeUp => tree_view::clamped(was.cursor - 1, n),
        Command::TreeDown => tree_view::clamped(was.cursor + 1, n),
        Command::TreePageUp => tree_view::clamped(was.cursor - page, n),
        Command::TreePageDown => tree_view::clamped(was.cursor + page, n),
        Command::TreeHome => 0,
        Command::TreeEnd => text::minus(n, 1),
        _ => was.cursor as int,
    };
    t == (TreeView { cursor: to as usize, ..was })
}

fn move_tree(t: &mut TreeView, c: Command)
    ensures
        tree_moved(c, *final(t), *old(t)),
{
    match c {
        Command::TreeUp => tree_move(t, -1),
        Command::TreeDown => tree_move(t, 1),
        Command::TreePageUp => tree_page(t, false),
        Command::TreePageDown => tree_page(t, true),
        Command::TreeHome => {
            t.cursor = 0;
        },
        Command::TreeEnd => {
            t.cursor = if t.rows.len() == 0 {
                0
            } else {
                t.rows.len() - 1
            };
        },
        _ => {},
    }
}

/// Whether a node was opened under the cursor.
pub open spec fn node_opened(t: TreeView, was: TreeView) -> bool {
    match was.row() {
        Some(row) => {
            &&& library::opened(was.tree@, was.fold, t.fold, row)
            &&& t.fresh()
            &&& t == (TreeView { fold: t.fold, rows: t.rows, ..was })
        },
        None => t == was,
    }
}

/// Whether a node was closed under the cursor.
pub open spec fn node_closed(t: TreeView, was: TreeView) -> bool {
    match was.row() {
        Some(row) => {
            &&& library::closed_at(was.tree@, was.fold, t.fold, tree_view::closing_row(row))
            &&& t.fresh()
            &&& t.cursor == tree_view::closed_cursor(was.cursor as int, row, t.rows@)
            &&& t == (TreeView { fold: t.fold, rows: t.rows, cursor: t.cursor, ..was })
        },
        None => t == (TreeView {
            cursor: tree_view::clamped(was.cursor as int, was.rows@.len() as int) as usize,
            ..was
        }),
    }
}

/// Whether the filter was taken away.
pub open spec fn filter_cleared(t: TreeView, was: TreeView) -> bool {
    &&& t.filter@.len() == 0
    &&& t.fresh()
    &&& t == (TreeView { filter: t.filter, rows: t.rows, cursor: 0, scroll: 0, ..was })
}

/// `s`, asked to jump to a track, where there is one.
pub open spec fn jumping(s: PlayerState, to: Option<int>) -> PlayerState {
    match to {
        Some(i) => PlayerState {
            transport: Transport { jump_to_track: Some(i as usize), ..s.transport },
            ..s
        },
        None => s,
    }
}

/// Whether one of the tree's keys was done.
pub open spec fn tree_done(
    c: Command,
    s: PlayerState,
    ui: UiState,
    s0: PlayerState,
    ui0: UiState,
    out: Outcome,
) -> bool {
    match c {
        Command::TreeUp
        | Command::TreeDown
        | Command::TreePageUp
        | Command::TreePageDown
        | Command::TreeHome
        | Command::TreeEnd => {
            &&& tree_moved(c, ui.tree, ui0.tree)
            &&& ui == (UiState { tree: ui.tree, ..ui0 })
            &&& s == s0
            &&& just(out, Flow::More)
        },
        Command::TreeOpen => {
            &&& node_opened(ui.tree, ui0.tree)
            &&& ui == (UiState { tree: ui.tree, ..ui0 })
            &&& s == s0
            &&& just(out, Flow::More)
        },
        Command::TreeClose => {
            &&& node_closed(ui.tree, ui0.tree)
            &&& ui == (UiState { tree: ui.tree, ..ui0 })
            &&& s == s0
            &&& just(out, Flow::More)
        },
        Command::TreePlay => {
            &&& s == jumping(
                s0,
                match ui0.tree.row() {
                    Some(row) => library::first_place(library::places_under(ui0.tree.tree@, row)),
                    None => None,
                },
            )
            &&& ui == ui0
            &&& just(out, Flow::Stop)
        },
        Command::TreeSearch => {
            &&& ui.input_mode matches InputMode::Search(q) && q@ == ui0.tree.filter@
            &&& ui == (UiState { input_mode: ui.input_mode, ..ui0 })
            &&& s == s0
            &&& just(out, Flow::Stop)
        },
        Command::TreeBack => {
            &&& if ui0.tree.filter@.len() == 0 {
                ui == (UiState { view_mode: ViewMode::Player, ..ui0 })
            } else {
                filter_cleared(ui.tree, ui0.tree) && ui == (UiState { tree: ui.tree, ..ui0 })
            }
            &&& s == s0
            &&& just(out, Flow::Stop)
        },
        Command::SwitchTree => {
            &&& ui == (UiState {
                tree: TreeView {
                    mode: !ui0.tree.mode,
                    dirty: ui0.tree.dirty || !ui0.tree.mode,
                    ..ui0.tree
                },
                ..ui0
            })
            &&& s == s0
            &&& just(out, Flow::Stop)
        },
        Command::TreeRemove => {
            &&& s == s0
            &&& out.flow is Stop
            &&& match ui0.tree.row() {
                Some(row) => {
                    let places = library::places_under(ui0.tree.tree@, row);
                    if places.len() == 0 {
                        out.ask is Nothing && ui == ui0
                    } else if row is Track {
                        &&& ui == ui0
                        &&& out.ask matches Ask::RemoveListed(idx) && order::places(idx@) == places
                    } else {
                        out.ask is Nothing && queue::asked_to_remove(ui, ui0, row)
                    }
                },
                None => out.ask is Nothing && ui == ui0,
            }
        },
        Command::ConfirmRemove => {
            &&& s == s0
            &&& out.flow is Stop
            &&& ui == (UiState { tree: TreeView { pending_remove: None, ..ui0.tree }, ..ui0 })
            &&& match ui0.tree.pending_remove {
                Some((_, idx)) => out.ask == Ask::RemoveListed(idx),
                None => out.ask is Nothing,
            }
        },
        Command::CancelRemove => {
            &&& s == s0
            &&& just(out, Flow::Stop)
            &&& ui == (UiState {
                tree: TreeView { pending_remove: None, ..ui0.tree },
                status_message: ui.status_message,
                ..ui0
            })
            &&& match ui0.tree.pending_remove {
                Some((label, _)) => ui_state::told(
                    ui.status_message,
                    "cancelled removing "@ + label@,
                    ui0.now,
                ),
                None => ui.status_message == ui0.status_message,
            }
        },
        _ => true,
    }
}

/// A key of the tree.
pub open spec fn is_tree_key(c: Command) -> bool {
    match c {
        Command::SwitchTree
        | Command::ConfirmRemove
        | Command::CancelRemove
        | Command::TreeUp
        | Command::TreeDown
        | Command::TreeClose
        | Command::TreeOpen
        | Command::TreePlay
        | Command::TreeSearch
        | Command::TreePageUp
        | Command::TreePageDown
        | Command::TreeRemove
        | Command::TreeHome
        | Command::TreeEnd
        | Command::TreeBack => true,
        _ => false,
    }
}

fn run_tree(state: &mut PlayerState, ui: &mut UiState, c: Command) -> (out: Outcome)
    requires
        old(ui).tree.wf(),
        is_tree_key(c),
    ensures
        tree_done(c, *final(state), *final(ui), *old(state), *old(ui), out),
        final(ui).tree.wf(),
{
    match c {
        Command::TreeOpen => {
            tree_expand_under_cursor(&mut ui.tree);
            done(Flow::More)
        },
        Command::TreeClose => {
            tree_collapse_under_cursor(&mut ui.tree);
            done(Flow::More)
        },
        Command::TreePlay => {
            match tree_cursor_play_index(&ui.tree) {
                Some(i) => {
                    state.jump_to(i);
                },
                None => {},
            }
            done(Flow::Stop)
        },
        Command::TreeSearch => {
            ui.input_mode = InputMode::Search(ui.tree.filter.clone());
            done(Flow::Stop)
        },
        Command::TreeBack => {
            if is_blank(ui.tree.filter.as_str()) {
                ui.view_mode = ViewMode::Player;
            } else {
                clear_tree_filter(&mut ui.tree);
            }
            done(Flow::Stop)
        },
        Command::SwitchTree => {
            ui.tree.mode = !ui.tree.mode;
            if ui.tree.mode {
                ui.tree.dirty = true;
            }
            done(Flow::Stop)
        },
        Command::TreeRemove => match tree_remove_under_cursor(ui) {
            Some(idx) => Outcome { flow: Flow::Stop, ask: Ask::RemoveListed(idx) },
            None => done(Flow::Stop),
        },
        Command::ConfirmRemove => match ui.tree.pending_remove.take() {
            Some((_, idx)) => Outcome { flow: Flow::Stop, ask: Ask::RemoveListed(idx) },
            None => done(Flow::Stop),
        },
        Command::CancelRemove => {
            match ui.tree.pending_remove.take() {
                Some((label, _)) => {
                    let mut msg: String = "cancelled removing ".to_owned();
                    msg.push_str(label.as_str());
                    ui.set_status(msg);
                },
                None => {},
            }
            done(Flow::Stop)
        },
        _ => {
            move_tree(&mut ui.tree, c);
            done(Flow::More)
        },
    }
}

/// A key of the list.
pub open spec fn is_list_key(c: Command) -> bool {
    match c {
        Command::ListUp
        | Command::ListDown
        | Command::ListHome
        | Command::ListEnd
        | Command::ListPageUp
        | Command::ListPageDown
        | Command::SortByTags
        | Command::ListPlay
        | Command::ListSearch
        | Command::Enqueue
        | Command::ListRemove
        | Command::LeaveList => true,
        _ => false,
    }
}

/// Whether one of the list's keys was done.
pub open spec fn list_done(
    c: Command,
    s: PlayerState,
    ui: UiState,
    now: Seq<String>,
    s0: PlayerState,
    ui0: UiState,
    was: Seq<String>,
    out: Outcome,
) -> bool {
    match c {
        Command::SortByTags => {
            &&& queue::sorted_by_tags(s, ui, now, s0, ui0, was)
            &&& just(out, Flow::Stop)
        },
        Command::Enqueue => {
            &&& queue::enqueued(s, ui, now, s0, ui0, was)
            &&& just(out, Flow::Stop)
        },
        Command::ListPlay => {
            &&& s == jumping(
                s0,
                match ui0.list@.track() {
                    Some(i) => Some(i),
                    None => Some(ui0.list@.cursor),
                },
            )
            &&& ui == ui0
            &&& now == was
            &&& just(out, Flow::Stop)
        },
        Command::ListSearch => {
            &&& ui.input_mode matches InputMode::Search(q) && q@.len() == 0
            &&& ui == (UiState { input_mode: ui.input_mode, ..ui0 })
            &&& s == s0
            &&& now == was
            &&& just(out, Flow::Stop)
        },
        Command::ListRemove => {
            &&& ui == ui0
            &&& s == s0
            &&& now == was
            &&& out.flow is Stop
            &&& out.ask is Remove
        },
        Command::LeaveList => {
            &&& ui == (UiState { view_mode: ViewMode::Player, ..ui0 })
            &&& s == s0
            &&& now == was
            &&& just(out, Flow::Stop)
        },
        _ => {
            &&& ui.list@ == list_after_key(c, ui0.list@, was.len() as int)
            &&& ui == (UiState { list: ui.list, ..ui0 })
            &&& s == s0
            &&& now == was
            &&& just(out, Flow::More)
        },
    }
}

fn run_list(state: &mut PlayerState, ui: &mut UiState, playlist: &mut Vec<String>, c: Command) -> (out: Outcome)
    requires
        is_list_key(c),
        old(ui).tree.wf(),
    ensures
        list_done(
            c,
            *final(state),
            *final(ui),
            final(playlist)@,
            *old(state),
            *old(ui),
            old(playlist)@,
            out,
        ),
        final(ui).tree.wf(),
{
    match c {
        Command::SortByTags => {
            sort_playlist_by_tags(state, ui, playlist);
            done(Flow::Stop)
        },
        Command::Enqueue => {
            enqueue_track(state, ui, playlist);
            done(Flow::Stop)
        },
        Command::ListPlay => {
            let to: usize = match ui.list.cursor_track() {
                Some(i) => i,
                None => ui.list.cursor,
            };
            state.jump_to(to);
            done(Flow::Stop)
        },
        Command::ListSearch => {
            ui.input_mode = InputMode::Search(String::new());
            done(Flow::Stop)
        },
        Command::ListRemove => Outcome { flow: Flow::Stop, ask: Ask::Remove },
        Command::LeaveList => {
            ui.view_mode = ViewMode::Player;
            done(Flow::Stop)
        },
        _ => {
            move_list(&mut ui.list, c, playlist.len());
            done(Flow::More)
        },
    }
}

/// Whether one of the other keys was done.
pub open spec fn global_done(
    c: Command,
    s: PlayerState,
    ui: UiState,
    now: Seq<String>,
    s0: PlayerState,
    ui0: UiState,
    was: Seq<String>,
    seed: u64,
    native: bool,
    out: Outcome,
) -> bool {
    match c {
        Command::LyricsUp | Command::LyricsDown | Command::LyricsLater | Command::LyricsEarlier => {
            &&& ui == (UiState { lyrics: lyrics_after(c, ui0.lyrics), ..ui0 })
            &&& s == s0
            &&& now == was
            &&& just(out, Flow::More)
        },
        Command::ToPlayer | Command::ToggleEq => {
            &&& ui == (UiState { view_mode: view_after(c, ui0.view_mode), ..ui0 })
            &&& s == s0
            &&& now == was
            &&& just(out, Flow::More)
        },
        Command::ToggleLyrics => {
            &&& ui == (UiState {
                view_mode: view_after(c, ui0.view_mode),
                lyrics: if ui0.view_mode is Lyrics {
                    ui0.lyrics
                } else {
                    lyrics_after(c, ui0.lyrics)
                },
                ..ui0
            })
            &&& s == s0
            &&& now == was
            &&& just(out, Flow::More)
        },
        Command::ToggleList => {
            &&& ui == (UiState { view_mode: view_after(c, ui0.view_mode), list: ui.list, ..ui0 })
            &&& ui.list@ == (if ui0.view_mode is Playlist {
                ui0.list@
            } else {
                ui0.list@.at(ui0.queue.current as int)
            })
            &&& s == s0
            &&& now == was
            &&& just(out, Flow::More)
        },
        Command::BandLeft => {
            &&& ui == (UiState { eq_band: text::minus(ui0.eq_band as int, 1) as usize, ..ui0 })
            &&& s == s0
            &&& now == was
            &&& just(out, Flow::More)
        },
        Command::BandRight => {
            &&& ui == (UiState {
                eq_band: if ui0.eq_band + 1 < EQ_BANDS {
                    (ui0.eq_band + 1) as usize
                } else {
                    ui0.eq_band
                },
                ..ui0
            })
            &&& s == s0
            &&& now == was
            &&& just(out, Flow::More)
        },
        Command::BandUp | Command::BandDown | Command::BandFlat => {
            &&& ui == ui0
            &&& s.nudged(
                s0,
                ui0.eq_band as int,
                match c {
                    Command::BandUp => 1000,
                    Command::BandDown => -1000,
                    _ => -(s0.eq_gains@[ui0.eq_band as int] as int),
                },
            )
            &&& now == was
            &&& just(out, Flow::More)
        },
        Command::CycleViz | Command::ToggleStyle => {
            &&& ui == (UiState { terminal_resized: true, ..ui0 })
            &&& s == player_after(c, s0)
            &&& now == was
            &&& just(out, Flow::More)
        },
        Command::CycleTheme => {
            &&& ui == (UiState {
                status_message: ui.status_message,
                banner: Banner { dirty: true, ..ui0.banner },
                terminal_resized: true,
                ..ui0
            })
            &&& ui_state::told(ui.status_message, "theme: "@ + s0.look.theme.succ().label(), ui0.now)
            &&& s == player_after(c, s0)
            &&& now == was
            &&& just(out, Flow::More)
        },
        Command::SavePrompt => {
            &&& ui.input_mode matches InputMode::SavePlaylist(n) && n@.len() == 0
            &&& ui == (UiState { input_mode: ui.input_mode, ..ui0 })
            &&& s == s0
            &&& now == was
            &&& just(out, Flow::More)
        },
        Command::Repeat => {
            &&& queue::repeat_toggled(s, ui, s0, ui0)
            &&& now == was
            &&& just(out, Flow::More)
        },
        Command::Shuffle => {
            &&& queue::shuffle_toggled(ui, now, ui0, was, seed)
            &&& s == s0
            &&& just(out, Flow::More)
        },
        Command::Rescan => {
            &&& ui == ui0 && s == s0 && now == was
            &&& out.flow is More
            &&& out.ask is Rescan
        },
        Command::TypePath => {
            &&& ui == (UiState { terminal_resized: true, ..ui0 })
            &&& s == s0 && now == was
            &&& out.flow is More
            &&& out.ask is TypePath
        },
        Command::PickFolder => {
            &&& s == s0 && now == was
            &&& out.flow is More
            &&& native ==> out.ask is PickFolder && ui == ui0
            &&& !native ==> out.ask is Nothing && queue::only_told(
                ui,
                ui0,
                "Native picker unavailable; press O to type a path"@,
            )
        },
        _ => {
            &&& ui == ui0
            &&& s == player_after(c, s0)
            &&& now == was
            &&& just(
                out,
                if c is Quit {
                    Flow::Quit
                } else {
                    Flow::More
                },
            )
        },
    }
}

fn run_global(
    state: &mut PlayerState,
    ui: &mut UiState,
    playlist: &mut Vec<String>,
    c: Command,
    seed: u64,
    native: bool,
) -> (out: Outcome)
    requires
        !is_tree_key(c),
        !is_list_key(c),
        old(ui).tree.wf(),
    ensures
        global_done(
            c,
            *final(state),
            *final(ui),
            final(playlist)@,
            *old(state),
            *old(ui),
            old(playlist)@,
            seed,
            native,
            out,
        ),
        final(ui).tree.wf(),
{
    match c {
        Command::LyricsUp | Command::LyricsDown | Command::LyricsLater | Command::LyricsEarlier => {
            change_lyrics(&mut ui.lyrics, c);
            done(Flow::More)
        },
        Command::ToPlayer | Command::ToggleEq => {
            ui.view_mode = next_view(c, ui.view_mode);
            done(Flow::More)
        },
        Command::ToggleLyrics => {
            if ui.view_mode != ViewMode::Lyrics {
                change_lyrics(&mut ui.lyrics, c);
            }
            ui.view_mode = next_view(c, ui.view_mode);
            done(Flow::More)
        },
        Command::ToggleList => {
            if ui.view_mode != ViewMode::Playlist {
                cursor_to(&mut ui.list, ui.queue.current);
            }
            ui.view_mode = next_view(c, ui.view_mode);
            done(Flow::More)
        },
        Command::BandLeft => {
            ui.eq_band = ui.eq_band.saturating_sub(1);
            done(Flow::More)
        },
        Command::BandRight => {
            if ui.eq_band < EQ_BANDS - 1 {
                ui.eq_band = ui.eq_band + 1;
            }
            done(Flow::More)
        },
        Command::BandUp => {
            let _gain: i32 = state.nudge_eq_gain(ui.eq_band, 1000);
            done(Flow::More)
        },
        Command::BandDown => {
            let _gain: i32 = state.nudge_eq_gain(ui.eq_band, -1000);
            done(Flow::More)
        },
        Command::BandFlat => {
            if ui.eq_band < EQ_BANDS {
                let gain: i64 = state.eq_gains[ui.eq_band] as i64;
                let _flat: i32 = state.nudge_eq_gain(ui.eq_band, 0 - gain);
            }
            done(Flow::More)
        },
        Command::CycleViz | Command::ToggleStyle => {
            change_player(state, c);
            ui.terminal_resized = true;
            done(Flow::More)
        },
        Command::CycleTheme => {
            change_player(state, c);
            let mut msg: String = "theme: ".to_owned();
            msg.push_str(state.look.theme.name());
            ui.set_status(msg);
            ui.banner.dirty = true;
            ui.terminal_resized = true;
            done(Flow::More)
        },
        Command::SavePrompt => {
            ui.input_mode = InputMode::SavePlaylist(String::new());
            done(Flow::More)
        },
        Command::Repeat => {
            toggle_repeat(ui, state);
            done(Flow::More)
        },
        Command::Shuffle => {
            toggle_shuffle(ui, playlist, seed);
            done(Flow::More)
        },
        Command::Rescan => Outcome { flow: Flow::More, ask: Ask::Rescan },
        Command::TypePath => {
            ui.terminal_resized = true;
            Outcome { flow: Flow::More, ask: Ask::TypePath }
        },
        Command::PickFolder => {
            if native {
                Outcome { flow: Flow::More, ask: Ask::PickFolder }
            } else {
                ui.set_status("Native picker unavailable; press O to type a path".to_owned());
                done(Flow::More)
            }
        },
        _ => {
            change_player(state, c);
            if c == Command::Quit {
                done(Flow::Quit)
            } else {
                done(Flow::More)
            }
        },
    }
}

/// What is typed into, as a value.
pub enum ModeV {
    Normal,
    Search(Seq<char>),
    Save(Seq<char>),
}

/// What is typed into.
pub open spec fn mode_view(m: InputMode) -> ModeV {
    match m {
        InputMode::Normal => ModeV::Normal,
        InputMode::Search(q) => ModeV::Search(q@),
        InputMode::SavePlaylist(n) => ModeV::Save(n@),
    }
}

/// What a key types: the text after it, where it types at all.
pub open spec fn typed(q: Seq<char>, k: KeyPress) -> Option<Seq<char>> {
    match k.code {
        KeyCode::Backspace => Some(
            if q.len() == 0 {
                q
            } else {
                q.drop_last()
            },
        ),
        KeyCode::Char(c) => if k.ctrl {
            None
        } else {
            Some(q.push(c))
        },
        _ => None,
    }
}

fn type_key(q: &String, k: KeyPress) -> (r: Option<String>)
    ensures
        match r {
            Some(t) => typed(q@, k) == Some(t@),
            None => typed(q@, k) is None,
        },
{
    match k.code {
        KeyCode::Backspace => {
            let mut t: String = q.clone();
            let _last: Option<char> = t.pop();
            Some(t)
        },
        KeyCode::Char(c) => {
            if k.ctrl {
                None
            } else {
                let mut t: String = q.clone();
                t.push(c);
                Some(t)
            }
        },
        _ => None,
    }
}

/// What a key does to the list while it is searched.
pub open spec fn search_move(k: KeyPress) -> Command {
    match k.code {
        KeyCode::Up => Command::ListUp,
        KeyCode::Down => Command::ListDown,
        KeyCode::Home => Command::ListHome,
        KeyCode::End => Command::ListEnd,
        KeyCode::PageUp => Command::ListPageUp,
        KeyCode::PageDown => Command::ListPageDown,
        _ => Command::Nothing,
    }
}

/// What a key does to the tree while it is searched.
pub open spec fn tree_search_move(k: KeyPress) -> Command {
    match k.code {
        KeyCode::Up => Command::TreeUp,
        KeyCode::Down => Command::TreeDown,
        KeyCode::PageUp => Command::TreePageUp,
        KeyCode::PageDown => Command::TreePageDown,
        _ => Command::Nothing,
    }
}

/// Whether a key was done while the tree is searched: typing narrows the tree at
/// once, Enter keeps the filter, Esc takes it away.
pub open spec fn tree_searched(ui: UiState, ui0: UiState, q: Seq<char>, k: KeyPress) -> bool {
    &&& ui == (UiState { input_mode: ui.input_mode, tree: ui.tree, ..ui0 })
    &&& match typed(q, k) {
        Some(t) => {
            &&& mode_view(ui.input_mode) == ModeV::Search(t)
            &&& ui.tree.filter@ == t
            &&& ui.tree.fresh()
            &&& ui.tree == (TreeView {
                filter: ui.tree.filter,
                rows: ui.tree.rows,
                cursor: tree_view::clamped(ui0.tree.cursor as int, ui.tree.rows@.len() as int) as usize,
                scroll: 0,
                ..ui0.tree
            })
        },
        None => if k.code is Esc {
            ui.input_mode is Normal && filter_cleared(ui.tree, ui0.tree)
        } else if k.code is Enter {
            ui.input_mode is Normal && ui.tree == ui0.tree
        } else {
            ui.input_mode == ui0.input_mode && tree_moved(tree_search_move(k), ui.tree, ui0.tree)
        },
    }
}

/// Does a key while the tree is searched.
pub fn tree_search_input(ui: &mut UiState, k: KeyPress) -> (out: Outcome)
    requires
        old(ui).tree.wf(),
        old(ui).input_mode is Search,
    ensures
        mode_view(old(ui).input_mode) matches ModeV::Search(q) && tree_searched(*final(ui), *old(ui), q, k),
        just(out, Flow::Stop),
        final(ui).tree.wf(),
{
    let text: Option<String> = match &ui.input_mode {
        InputMode::Search(q) => type_key(q, k),
        _ => None,
    };
    match text {
        Some(t) => {
            rebuild_tree_filter(&mut ui.tree, t.as_str());
            ui.input_mode = InputMode::Search(t);
        },
        None => match k.code {
            KeyCode::Esc => {
                ui.input_mode = InputMode::Normal;
                clear_tree_filter(&mut ui.tree);
            },
            KeyCode::Enter => {
                ui.input_mode = InputMode::Normal;
            },
            KeyCode::Up => move_tree(&mut ui.tree, Command::TreeUp),
            KeyCode::Down => move_tree(&mut ui.tree, Command::TreeDown),
            KeyCode::PageUp => move_tree(&mut ui.tree, Command::TreePageUp),
            KeyCode::PageDown => move_tree(&mut ui.tree, Command::TreePageDown),
            _ => {},
        },
    }
    done(Flow::Stop)
}

/// The track that Enter plays while the list is searched: none where the search
/// found nothing.
pub open spec fn search_target(l: list_view::ListV, q: Seq<char>) -> Option<int> {
    if q.len() > 0 && l.filtered.len() == 0 {
        None
    } else {
        match l.track() {
            Some(i) => Some(i),
            None => Some(0),
        }
    }
}

/// Whether a key was done while the list is searched: typing narrows the list at
/// once, Enter plays what is under the cursor, Esc and Enter end the search.
pub open spec fn list_searched(
    s: PlayerState,
    ui: UiState,
    s0: PlayerState,
    ui0: UiState,
    paths: Seq<Seq<char>>,
    q: Seq<char>,
    k: KeyPress,
) -> bool {
    &&& ui == (UiState { input_mode: ui.input_mode, list: ui.list, ..ui0 })
    &&& s == (if k.code is Enter {
        jumping(s0, search_target(ui0.list@, q))
    } else {
        s0
    })
    &&& match typed(q, k) {
        Some(t) => {
            &&& mode_view(ui.input_mode) == ModeV::Search(t)
            &&& ui.list@ == ui0.list@.searched(t, ui0.cache@, paths)
        },
        None => if k.code is Esc || k.code is Enter {
            ui.input_mode is Normal && ui.list@ == ui0.list@.plain()
        } else {
            &&& ui.input_mode == ui0.input_mode
            &&& ui.list@ == list_after_key(search_move(k), ui0.list@, paths.len() as int)
        },
    }
}

fn search_input(state: &mut PlayerState, ui: &mut UiState, playlist: &Vec<String>, k: KeyPress) -> (out: Outcome)
    requires
        old(ui).input_mode is Search,
    ensures
        mode_view(old(ui).input_mode) matches ModeV::Search(q) && list_searched(
            *final(state),
            *final(ui),
            *old(state),
            *old(ui),
            text::texts(playlist@),
            q,
            k,
        ),
        just(out, Flow::Stop),
{
    assert(text::texts(playlist@).len() == playlist@.len());
    let n: usize = playlist.len();
    let mut blank: bool = true;
    let typed_text: Option<String> = match &ui.input_mode {
        InputMode::Search(q) => {
            blank = is_blank(q.as_str());
            type_key(q, k)
        },
        _ => None,
    };
    match typed_text {
        Some(t) => {
            rebuild_filter(&mut ui.list, t.as_str(), &ui.cache, playlist);
            ui.input_mode = InputMode::Search(t);
        },
        None => match k.code {
            KeyCode::Esc => {
                ui.input_mode = InputMode::Normal;
                ui.list.clear_search();
            },
            KeyCode::Enter => {
                if blank || ui.list.filtered_indices.len() > 0 {
                    let to: usize = match ui.list.cursor_track() {
                        Some(i) => i,
                        None => 0,
                    };
                    state.jump_to(to);
                }
                ui.input_mode = InputMode::Normal;
                ui.list.clear_search();
            },
            KeyCode::Up => move_list(&mut ui.list, Command::ListUp, n),
            KeyCode::Down => move_list(&mut ui.list, Command::ListDown, n),
            KeyCode::Home => move_list(&mut ui.list, Command::ListHome, n),
            KeyCode::End => move_list(&mut ui.list, Command::ListEnd, n),
            KeyCode::PageUp => move_list(&mut ui.list, Command::ListPageUp, n),
            KeyCode::PageDown => move_list(&mut ui.list, Command::ListPageDown, n),
            _ => {},
        },
    }
    done(Flow::Stop)
}

/// Whether a key was done while a name for the playlist is typed: Enter saves
/// under it, unless it is empty.
pub open spec fn name_typed(ui: UiState, ui0: UiState, name: Seq<char>, k: KeyPress, out: Outcome) -> bool {
    &&& ui == (UiState { input_mode: ui.input_mode, ..ui0 })
    &&& out.flow is Stop
    &&& match typed(name, k) {
        Some(t) => mode_view(ui.input_mode) == ModeV::Save(t) && out.ask is Nothing,
        None => if k.code is Esc {
            ui.input_mode is Normal && out.ask is Nothing
        } else if k.code is Enter {
            &&& ui.input_mode is Normal
            &&& name.len() == 0 ==> out.ask is Nothing
            &&& name.len() > 0 ==> (out.ask matches Ask::Save(n) && n@ == name)
        } else {
            ui.input_mode == ui0.input_mode && out.ask is Nothing
        },
    }
}

fn save_input(ui: &mut UiState, k: KeyPress) -> (out: Outcome)
    requires
        old(ui).input_mode is SavePlaylist,
    ensures
        mode_view(old(ui).input_mode) matches ModeV::Save(n) && name_typed(*final(ui), *old(ui), n, k, out),
{
    let mut name: String = String::new();
    let typed_text: Option<String> = match &ui.input_mode {
        InputMode::SavePlaylist(n) => {
            name = n.clone();
            type_key(n, k)
        },
        _ => None,
    };
    match typed_text {
        Some(t) => {
            ui.input_mode = InputMode::SavePlaylist(t);
            done(Flow::Stop)
        },
        None => match k.code {
            KeyCode::Esc => {
                ui.input_mode = InputMode::Normal;
                done(Flow::Stop)
            },
            KeyCode::Enter => {
                ui.input_mode = InputMode::Normal;
                if is_blank(name.as_str()) {
                    done(Flow::Stop)
                } else {
                    Outcome { flow: Flow::Stop, ask: Ask::Save(name) }
                }
            },
            _ => done(Flow::Stop),
        },
    }
}

/// Whether a key asks to quit even while something is typed.
pub open spec fn is_interrupt(k: KeyPress) -> bool {
    k.code == KeyCode::Char('c') && k.ctrl
}

/// Whether a key was done while something is typed.
pub open spec fn text_done(
    s: PlayerState,
    ui: UiState,
    s0: PlayerState,
    ui0: UiState,
    paths: Seq<Seq<char>>,
    k: KeyPress,
    out: Outcome,
) -> bool {
    if is_interrupt(k) {
        &&& s == player_after(Command::Quit, s0)
        &&& ui == ui0
        &&& just(out, Flow::Quit)
    } else {
        match mode_view(ui0.input_mode) {
            ModeV::Normal => s == s0 && ui == ui0 && just(out, Flow::Stop),
            ModeV::Search(q) => if ui0.tree.mode {
                s == s0 && tree_searched(ui, ui0, q, k) && just(out, Flow::Stop)
            } else {
                list_searched(s, ui, s0, ui0, paths, q, k) && just(out, Flow::Stop)
            },
            ModeV::Save(n) => s == s0 && name_typed(ui, ui0, n, k, out),
        }
    }
}

/// Does a key while something is typed. Ctrl+C quits, as it does everywhere.
pub fn handle_text_input(state: &mut PlayerState, ui: &mut UiState, playlist: &Vec<String>, k: KeyPress) -> (out:
    Outcome)
    requires
        old(ui).tree.wf(),
    ensures
        text_done(
            *final(state),
            *final(ui),
            *old(state),
            *old(ui),
            text::texts(playlist@),
            k,
            out,
        ),
        final(ui).tree.wf(),
{
    if k.code == KeyCode::Char('c') && k.ctrl {
        state.quit();
        return done(Flow::Quit);
    }
    let search: bool = match &ui.input_mode {
        InputMode::Normal => {
            return done(Flow::Stop);
        },
        InputMode::Search(_) => true,
        InputMode::SavePlaylist(_) => false,
    };
    if !search {
        save_input(ui, k)
    } else if ui.tree.mode {
        tree_search_input(ui, k)
    } else {
        search_input(state, ui, playlist, k)
    }
}

/// Whether a key was done.
pub open spec fn key_done(
    s: PlayerState,
    ui: UiState,
    now: Seq<String>,
    s0: PlayerState,
    ui0: UiState,
    was: Seq<String>,
    k: KeyPress,
    seed: u64,
    native: bool,
    out: Outcome,
) -> bool {
    if ui0.input_mode !is Normal {
        now == was && text_done(s, ui, s0, ui0, text::texts(was), k, out)
    } else {
        let c = meaning(ui0.view_mode, ui0.tree.mode, ui0.tree.pending_remove is Some, k);
        if is_tree_key(c) {
            now == was && tree_done(c, s, ui, s0, ui0, out)
        } else if is_list_key(c) {
            list_done(c, s, ui, now, s0, ui0, was, out)
        } else {
            global_done(c, s, ui, now, s0, ui0, was, seed, native, out)
        }
    }
}

/// Does what a key asks for. `seed` decides the order of a shuffle, and `native`
/// says whether folders can be picked.
pub fn poll_input(
    state: &mut PlayerState,
    ui: &mut UiState,
    playlist: &mut Vec<String>,
    k: KeyPress,
    seed: u64,
    native: bool,
) -> (out: Outcome)
    requires
        old(ui).tree.wf(),
    ensures
        key_done(
            *final(state),
            *final(ui),
            final(playlist)@,
            *old(state),
            *old(ui),
            old(playlist)@,
            k,
            seed,
            native,
            out,
        ),
        final(ui).tree.wf(),
{
    let typing: bool = match &ui.input_mode {
        InputMode::Normal => false,
        _ => true,
    };
    if typing {
        return handle_text_input(state, ui, playlist, k);
    }
    let c: Command = key_command(ui.view_mode, ui.tree.mode, ui.tree.pending_remove.is_some(), k);
    match c {
        Command::SwitchTree
        | Command::ConfirmRemove
        | Command::CancelRemove
        | Command::TreeUp
        | Command::TreeDown
        | Command::TreeClose
        | Command::TreeOpen
        | Command::TreePlay
        | Command::TreeSearch
        | Command::TreePageUp
        | Command::TreePageDown
        | Command::TreeRemove
        | Command::TreeHome
        | Command::TreeEnd
        | Command::TreeBack => run_tree(state, ui, c),
        Command::ListUp
        | Command::ListDown
        | Command::ListHome
        | Command::ListEnd
        | Command::ListPageUp
        | Command::ListPageDown
        | Command::SortByTags
        | Command::ListPlay
        | Command::ListSearch
        | Command::Enqueue
        | Command::ListRemove
        | Command::LeaveList => run_list(state, ui, playlist, c),
        _ => run_global(state, ui, playlist, c, seed, native),
    }
}

/// Whether an Esc is the first half of an escape sequence that the terminal has
/// split in two: nobody types that fast. Both halves are dropped.
pub fn is_split_escape(k: KeyPress, more_pending: bool) -> (r: bool)
    ensures
        r == (k.code is Esc && !k.ctrl && !k.shift && !k.other && more_pending),
{
    k.code == KeyCode::Esc && !k.ctrl && !k.shift && !k.other && more_pending
}

/// A step of typing a path.
pub enum PromptStep {
    /// Nothing is chosen.
    Cancel,
    /// This path is chosen.
    Submit(String),
    /// A character was added.
    Typed(char),
    /// The last character was taken away.
    Erased,
    /// The key means nothing here.
    Ignored,
}

/// Takes a key while a path is typed. Esc and Ctrl+C cancel, and so does Enter
/// where nothing but space was typed.
pub fn prompt_path_key(buf: &mut String, k: KeyPress) -> (r: PromptStep)
    ensures
        match k.code {
            KeyCode::Esc => r is Cancel && final(buf)@ == old(buf)@,
            KeyCode::Enter => {
                &&& final(buf)@ == old(buf)@
                &&& text::trimmed(old(buf)@).len() == 0 ==> r is Cancel
                &&& text::trimmed(old(buf)@).len() > 0 ==> (r matches PromptStep::Submit(p) && p@
                    == text::trimmed(old(buf)@))
            },
            KeyCode::Backspace => if old(buf)@.len() > 0 {
                r is Erased && final(buf)@ == old(buf)@.drop_last()
            } else {
                r is Ignored && final(buf)@ == old(buf)@
            },
            KeyCode::Char(c) => if c == 'c' && k.ctrl {
                r is Cancel && final(buf)@ == old(buf)@
            } else {
                r == PromptStep::Typed(c) && final(buf)@ == old(buf)@.push(c)
            },
            _ => r is Ignored && final(buf)@ == old(buf)@,
        },
{
    match k.code {
        KeyCode::Esc => PromptStep::Cancel,
        KeyCode::Enter => {
            let t: String = trim_text(buf.as_str());
            if is_blank(t.as_str()) {
                PromptStep::Cancel
            } else {
                PromptStep::Submit(t)
            }
        },
        KeyCode::Backspace => {
            if is_blank(buf.as_str()) {
                PromptStep::Ignored
            } else {
                let _last: Option<char> = buf.pop();
                PromptStep::Erased
            }
        },
        KeyCode::Char(c) => {
            if c == 'c' && k.ctrl {
                PromptStep::Cancel
            } else {
                buf.push(c);
                PromptStep::Typed(c)
            }
        },
        _ => PromptStep::Ignored,
    }
}

/// What was chosen at the first launch.
#[derive(Clone, Copy, Debug, PartialEq, Eq, Structural)]
pub enum FirstChoice {
    Pick,
    Type,
    Quit,
    /// The key means nothing here.
    Again,
}

/// What a key chooses at the first launch; a folder can be picked only where
/// there is a native picker.
pub fn first_launch_choice(k: KeyPress, native: bool) -> (r: FirstChoice)
    ensures
        r == (match k.code {
            KeyCode::Esc => FirstChoice::Quit,
            KeyCode::Char(c) => if (c == 'p' || c == 'P') && native {
                FirstChoice::Pick
            } else if c == 't' || c == 'T' {
                FirstChoice::Type
            } else if c == 'q' || c == 'Q' || (c == 'c' && k.ctrl) {
                FirstChoice::Quit
            } else {
                FirstChoice::Again
            },
            _ => FirstChoice::Again,
        }),
{
    match k.code {
        KeyCode::Esc => FirstChoice::Quit,
        KeyCode::Char(c) => if (c == 'p' || c == 'P') && native {
            FirstChoice::Pick
        } else if c == 't' || c == 'T' {
            FirstChoice::Type
        } else if c == 'q' || c == 'Q' || (c == 'c' && k.ctrl) {
            FirstChoice::Quit
        } else {
            FirstChoice::Again
        },
        _ => FirstChoice::Again,
    }
}

/// Notes that the terminal has another size: everything is painted anew, and
/// what was known of the size of a cell no longer holds.
pub fn note_resize(ui: &mut UiState) -> (metrics: u32)
    ensures
        *final(ui) == (UiState { terminal_resized: true, ..*old(ui) }),
        metrics == crate::cover::packed_metrics(None),
{
    ui.terminal_resized = true;
    crate::cover::set_cell_metrics(None)
}

/// Ctrl+C quits from every view and from every prompt, and types nothing.
pub proof fn interrupt_always_quits(
    s: PlayerState,
    ui: UiState,
    now: Seq<String>,
    s0: PlayerState,
    ui0: UiState,
    was: Seq<String>,
    k: KeyPress,
    seed: u64,
    native: bool,
    out: Outcome,
)
    requires
        is_interrupt(k),
        !k.shift && !k.other,
        key_done(s, ui, now, s0, ui0, was, k, seed, native, out),
        !(ui0.view_mode is Playlist && ui0.tree.mode && ui0.tree.pending_remove is Some),
    ensures
        s.transport.quit,
        out.flow is Quit,
        ui == ui0,
        now == was,
{
}

/// While something is typed, no key but Enter and Ctrl+C reaches the player.
pub proof fn typing_stays_in_the_prompt(
    s: PlayerState,
    ui: UiState,
    now: Seq<String>,
    s0: PlayerState,
    ui0: UiState,
    was: Seq<String>,
    k: KeyPress,
    seed: u64,
    native: bool,
    out: Outcome,
)
    requires
        ui0.input_mode !is Normal,
        !is_interrupt(k),
        k.code !is Enter,
        key_done(s, ui, now, s0, ui0, was, k, seed, native, out),
    ensures
        s == s0,
        now == was,
        ui.view_mode == ui0.view_mode,
        ui.queue == ui0.queue,
{
}

/// Volume and balance stay in their ranges, whatever is pressed.
pub proof fn levels_stay_in_range(c: Command, s: PlayerState)
    requires
        s.volume <= 150,
        -100 <= s.balance <= 100,
    ensures
        player_after(c, s).volume <= 150,
        -100 <= player_after(c, s).balance <= 100,
{
}

} // verus!
