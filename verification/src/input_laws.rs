//! What a listener can count on of the keys: what each of them does to what is
//! heard and shown, whichever way it gets there.
use crate::input;
use crate::input::{Ask, FirstChoice, KeyCode, KeyPress, Outcome, PromptStep};
use crate::library::VisibleRow;
use crate::order;
use crate::queue;
use crate::state::{InputMode, PlayerState, Transport, ViewMode, EQ_BANDS};
use crate::text;
use crate::ui_state;
use crate::ui_state::UiState;
use vstd::prelude::*;

verus! {

/// The player with other requests.
pub open spec fn asked(s: PlayerState, t: Transport) -> PlayerState {
    PlayerState { transport: t, ..s }
}

/// Whether nothing is asked of anyone outside, and the next key is looked at.
pub open spec fn goes_on(out: Outcome) -> bool {
    out.flow is More && out.ask is Nothing
}

/// In the player the right arrow asks to go ten seconds forward and the left one ten
/// seconds back; nothing else changes.
pub proof fn arrows_seek(
    s: &mut PlayerState,
    ui: &mut UiState,
    list: &mut Vec<String>,
    k: KeyPress,
    seed: u64,
    native: bool,
    out: Outcome,
)
    requires
        call_ensures(input::poll_input, (s, ui, list, k, seed, native), out),
        old(ui).input_mode is Normal,
        old(ui).view_mode is Player,
        k.code is Right || k.code is Left,
    ensures
        k.code is Right ==> final(s).transport.seek_request == 10,
        k.code is Left ==> final(s).transport.seek_request == -10,
        *final(s) == asked(
            *old(s),
            (Transport { seek_request: final(s).transport.seek_request, ..old(s).transport }),
        ),
        *final(ui) == *old(ui) && final(list)@ == old(list)@,
        goes_on(out),
{
}

/// In the player the up arrow asks for the next track and the down arrow for the one
/// before; nothing else changes.
pub proof fn arrows_skip(
    s: &mut PlayerState,
    ui: &mut UiState,
    list: &mut Vec<String>,
    k: KeyPress,
    seed: u64,
    native: bool,
    out: Outcome,
)
    requires
        call_ensures(input::poll_input, (s, ui, list, k, seed, native), out),
        old(ui).input_mode is Normal,
        old(ui).view_mode is Player,
        k.code is Up || k.code is Down,
    ensures
        k.code is Up ==> *final(s) == asked(*old(s), (Transport { skip_next: true, ..old(s).transport })),
        k.code is Down ==> *final(s) == asked(*old(s), (Transport { skip_prev: true, ..old(s).transport })),
        *final(ui) == *old(ui) && final(list)@ == old(list)@,
        goes_on(out),
{
}

/// Space pauses, and plays on, in every view; nothing else changes.
pub proof fn space_pauses(
    s: &mut PlayerState,
    ui: &mut UiState,
    list: &mut Vec<String>,
    k: KeyPress,
    seed: u64,
    native: bool,
    out: Outcome,
)
    requires
        call_ensures(input::poll_input, (s, ui, list, k, seed, native), out),
        old(ui).input_mode is Normal,
        k.code == KeyCode::Char(' '),
        old(ui).tree.pending_remove is None,
    ensures
        *final(s) == asked(*old(s), (Transport { paused: !old(s).transport.paused, ..old(s).transport })),
        *final(ui) == *old(ui) && final(list)@ == old(list)@,
        goes_on(out),
{
}

/// `q` quits from every view, Ctrl+C too, and Esc from the player; nothing but these
/// quits.
pub proof fn who_quits(
    s: &mut PlayerState,
    ui: &mut UiState,
    list: &mut Vec<String>,
    k: KeyPress,
    seed: u64,
    native: bool,
    out: Outcome,
)
    requires
        call_ensures(input::poll_input, (s, ui, list, k, seed, native), out),
        old(ui).input_mode is Normal,
        old(ui).tree.pending_remove is None,
    ensures
        k.code == KeyCode::Char('q') ==> final(s).transport.quit && out.flow is Quit,
        k.code == KeyCode::Char('c') && k.ctrl && !k.shift && !k.other ==> final(s).transport.quit && out.flow is Quit,
        k.code is Esc && old(ui).view_mode is Player ==> final(s).transport.quit && out.flow is Quit,
        out.flow is Quit ==> (k.code is Esc && old(ui).view_mode is Player) || k.code == KeyCode::Char('q') || (
        k.code == KeyCode::Char('c') && k.ctrl),
        final(s).transport.quit && !old(s).transport.quit ==> out.flow is Quit,
        out.flow is Quit ==> *final(s) == asked(*old(s), (Transport { quit: true, ..old(s).transport })) && *final(ui)
            == *old(ui) && final(list)@ == old(list)@ && out.ask is Nothing,
{
}

/// Esc leads back to the player from the list, the lyrics and the equaliser, and from
/// the tree where that is not filtered.
pub proof fn escape_leads_back(
    s: &mut PlayerState,
    ui: &mut UiState,
    list: &mut Vec<String>,
    k: KeyPress,
    seed: u64,
    native: bool,
    out: Outcome,
)
    requires
        call_ensures(input::poll_input, (s, ui, list, k, seed, native), out),
        old(ui).input_mode is Normal,
        k.code is Esc,
        old(ui).view_mode !is Player,
        old(ui).tree.pending_remove is None,
        old(ui).view_mode is Playlist && old(ui).tree.mode ==> old(ui).tree.filter@.len() == 0,
    ensures
        *final(ui) == (UiState { view_mode: ViewMode::Player, ..*old(ui) }),
        *final(s) == *old(s) && final(list)@ == old(list)@,
        out.flow !is Quit && out.ask is Nothing,
{
}

/// `+` and `=` are five per cent louder, `-` five softer, from nothing to half again as
/// loud; in the player `[` and `]` move the balance to the left and to the right.
pub proof fn levels_follow_the_keys(
    s: &mut PlayerState,
    ui: &mut UiState,
    list: &mut Vec<String>,
    k: KeyPress,
    seed: u64,
    native: bool,
    out: Outcome,
)
    requires
        call_ensures(input::poll_input, (s, ui, list, k, seed, native), out),
        old(ui).input_mode is Normal,
        old(ui).view_mode is Player,
        old(s).volume <= 150,
        -100 <= old(s).balance <= 100,
        k.code == KeyCode::Char('+') || k.code == KeyCode::Char('=') || k.code == KeyCode::Char('-') || k.code
            == KeyCode::Char('[') || k.code == KeyCode::Char(']'),
    ensures
        (k.code == KeyCode::Char('+') || k.code == KeyCode::Char('=')) && old(s).volume <= 145 ==> final(s).volume
            == old(s).volume + 5,
        (k.code == KeyCode::Char('+') || k.code == KeyCode::Char('=')) && old(s).volume > 145 ==> final(s).volume
            == 150,
        k.code == KeyCode::Char('-') && old(s).volume >= 5 ==> final(s).volume == old(s).volume - 5,
        k.code == KeyCode::Char('-') && old(s).volume < 5 ==> final(s).volume == 0,
        k.code == KeyCode::Char('[') && old(s).balance >= -95 ==> final(s).balance == old(s).balance - 5,
        k.code == KeyCode::Char('[') && old(s).balance < -95 ==> final(s).balance == -100,
        k.code == KeyCode::Char(']') && old(s).balance <= 95 ==> final(s).balance == old(s).balance + 5,
        k.code == KeyCode::Char(']') && old(s).balance > 95 ==> final(s).balance == 100,
        k.code == KeyCode::Char('[') || k.code == KeyCode::Char(']') ==> final(s).volume == old(s).volume,
        !(k.code == KeyCode::Char('[') || k.code == KeyCode::Char(']')) ==> final(s).balance == old(s).balance,
        final(s).transport == old(s).transport,
        *final(ui) == *old(ui) && final(list)@ == old(list)@,
        goes_on(out),
{
}

/// The keys for the look: `v` goes through the visualisations in their order, `b`
/// changes between bars and dots, `f` between what is heard and what was decoded, `i`
/// shows and hides the numbers, `t` goes through the themes.
pub proof fn looks_follow_the_keys(
    s: &mut PlayerState,
    ui: &mut UiState,
    list: &mut Vec<String>,
    k: KeyPress,
    seed: u64,
    native: bool,
    out: Outcome,
)
    requires
        call_ensures(input::poll_input, (s, ui, list, k, seed, native), out),
        old(ui).input_mode is Normal,
        old(ui).view_mode is Player,
        k.code == KeyCode::Char('v') || k.code == KeyCode::Char('b') || k.code == KeyCode::Char('f') || k.code
            == KeyCode::Char('i') || k.code == KeyCode::Char('t'),
    ensures
        k.code == KeyCode::Char('v') ==> {
            let was = old(s).look.viz_mode;
            let now = final(s).look.viz_mode;
            &&& was is Off ==> now is VuMeter
            &&& was is VuMeter ==> now is SpectrumHorizontal
            &&& was is SpectrumHorizontal ==> now is SpectrumVertical
            &&& was is SpectrumVertical ==> now is Oscilloscope
            &&& was is Oscilloscope ==> now is Lissajous
            &&& was is Lissajous ==> now is Spectrogram
            &&& was is Spectrogram ==> now is SpectrogramAnalysis
            &&& was is SpectrogramAnalysis ==> now is Off
            &&& final(ui).terminal_resized
        },
        k.code == KeyCode::Char('b') ==> (final(s).look.viz_style is Dots <==> old(s).look.viz_style is Bars)
            && final(ui).terminal_resized,
        k.code == KeyCode::Char('f') ==> final(s).look.pre_fader == !old(s).look.pre_fader,
        k.code == KeyCode::Char('i') ==> final(s).look.show_stats == !old(s).look.show_stats,
        k.code == KeyCode::Char('t') ==> {
            let was = old(s).look.theme;
            let now = final(s).look.theme;
            &&& was is Classic ==> now is Minimal
            &&& was is Minimal ==> now is HiFi
            &&& was is HiFi ==> now is Classic
            &&& now is HiFi ==> final(s).look.viz_mode !is Off
            &&& final(ui).terminal_resized && final(ui).banner.dirty
        },
        k.code != KeyCode::Char('v') && k.code != KeyCode::Char('t') ==> final(s).look.viz_mode
            == old(s).look.viz_mode,
        k.code != KeyCode::Char('b') ==> final(s).look.viz_style == old(s).look.viz_style,
        k.code != KeyCode::Char('f') ==> final(s).look.pre_fader == old(s).look.pre_fader,
        k.code != KeyCode::Char('i') ==> final(s).look.show_stats == old(s).look.show_stats,
        k.code != KeyCode::Char('t') ==> final(s).look.theme == old(s).look.theme,
{
}

/// `x` goes to the next effect and `c` to the next crossfeed, round the end, where
/// there is any; they are loaded then.
pub proof fn effects_follow_the_keys(
    s: &mut PlayerState,
    ui: &mut UiState,
    list: &mut Vec<String>,
    k: KeyPress,
    seed: u64,
    native: bool,
    out: Outcome,
)
    requires
        call_ensures(input::poll_input, (s, ui, list, k, seed, native), out),
        old(ui).input_mode is Normal,
        old(ui).view_mode is Player,
        old(s).effects.index < old(s).effects.count <= i32::MAX,
        old(s).crossfeed.index < old(s).crossfeed.count <= i32::MAX,
        k.code == KeyCode::Char('x') || (k.code == KeyCode::Char('c') && !k.ctrl),
    ensures
        k.code == KeyCode::Char('x') ==> {
            &&& final(s).effects.changed
            &&& old(s).effects.index + 1 < old(s).effects.count ==> final(s).effects.index == old(s).effects.index + 1
            &&& old(s).effects.index + 1 == old(s).effects.count ==> final(s).effects.index == 0
            &&& final(s).crossfeed == old(s).crossfeed
        },
        k.code == KeyCode::Char('c') ==> {
            &&& final(s).crossfeed.changed
            &&& old(s).crossfeed.index + 1 < old(s).crossfeed.count ==> final(s).crossfeed.index
                == old(s).crossfeed.index + 1
            &&& old(s).crossfeed.index + 1 == old(s).crossfeed.count ==> final(s).crossfeed.index == 0
            &&& final(s).effects == old(s).effects
        },
        final(s).transport == old(s).transport && final(s).eq == old(s).eq && final(s).volume == old(s).volume,
        *final(ui) == *old(ui) && final(list)@ == old(list)@,
        goes_on(out),
{
    lemma_round(old(s).effects.index as int, old(s).effects.count as int);
    lemma_round(old(s).crossfeed.index as int, old(s).crossfeed.count as int);
}

/// `e`, `l` and `y` open the equaliser, the list and the lyrics from every other view,
/// and close them again. The list opens at the track that plays, the lyrics where they
/// are sung.
pub proof fn views_open_and_close(
    s: &mut PlayerState,
    ui: &mut UiState,
    list: &mut Vec<String>,
    k: KeyPress,
    seed: u64,
    native: bool,
    out: Outcome,
)
    requires
        call_ensures(input::poll_input, (s, ui, list, k, seed, native), out),
        old(ui).input_mode is Normal,
        old(ui).tree.pending_remove is None,
        k.code == KeyCode::Char('e') || k.code == KeyCode::Char('l') || k.code == KeyCode::Char('y'),
    ensures
        k.code == KeyCode::Char('e') ==> (final(ui).view_mode is Eq <==> old(ui).view_mode !is Eq),
        k.code == KeyCode::Char('l') ==> (final(ui).view_mode is Playlist <==> old(ui).view_mode !is Playlist),
        k.code == KeyCode::Char('y') ==> (final(ui).view_mode is Lyrics <==> old(ui).view_mode !is Lyrics),
        old(ui).view_mode is Eq && k.code == KeyCode::Char('e') ==> final(ui).view_mode is Player,
        old(ui).view_mode is Playlist && k.code == KeyCode::Char('l') ==> final(ui).view_mode is Player,
        old(ui).view_mode is Lyrics && k.code == KeyCode::Char('y') ==> final(ui).view_mode is Player,
        final(ui).view_mode is Playlist && old(ui).view_mode !is Playlist ==> final(ui).list@.cursor
            == old(ui).queue.current && final(ui).list@.scroll <= final(ui).list@.cursor,
        final(ui).view_mode is Lyrics && old(ui).view_mode !is Lyrics ==> final(ui).lyrics.auto_scroll
            && final(ui).lyrics.scroll == 0,
        *final(s) == *old(s) && final(list)@ == old(list)@,
        goes_on(out),
{
}

/// `r` looks at the sources again, `o` lets a path be typed, `p` a folder be picked
/// where it can be, and `s` a name for the playlist; shift and `r` goes through off, all
/// and one of repeating.
pub proof fn the_rest_of_the_keys(
    s: &mut PlayerState,
    ui: &mut UiState,
    list: &mut Vec<String>,
    k: KeyPress,
    seed: u64,
    native: bool,
    out: Outcome,
)
    requires
        call_ensures(input::poll_input, (s, ui, list, k, seed, native), out),
        old(ui).input_mode is Normal,
        old(ui).view_mode is Player,
    ensures
        k.code == KeyCode::Char('r') && !k.shift ==> out.ask is Rescan && *final(s) == *old(s) && *final(ui) == *old(ui)
            && final(list)@ == old(list)@,
        k.code == KeyCode::Char('o') ==> out.ask is TypePath,
        k.code == KeyCode::Char('p') && native ==> out.ask is PickFolder,
        k.code == KeyCode::Char('p') && !native ==> out.ask is Nothing && final(ui).status_message is Some,
        k.code == KeyCode::Char('s') ==> out.ask is Nothing && (final(ui).input_mode matches InputMode::SavePlaylist(n)
            && n@.len() == 0),
        k.code == KeyCode::Char('R') || (k.code == KeyCode::Char('r') && k.shift) ==> {
            let was = old(ui).queue.repeat_mode;
            let now = final(ui).queue.repeat_mode;
            &&& was is Off ==> now is All
            &&& was is All ==> now is One
            &&& was is One ==> now is Off
            &&& final(s).transport.repeat_mode == now
            &&& now is Off ==> ui_state::told(final(ui).status_message, "Repeat OFF"@, old(ui).now)
            &&& now is All ==> ui_state::told(final(ui).status_message, "Repeat ALL"@, old(ui).now)
            &&& now is One ==> ui_state::told(final(ui).status_message, "Repeat ONE"@, old(ui).now)
        },
        k.code == KeyCode::Char('z') ==> final(ui).queue.shuffle == !old(ui).queue.shuffle && final(ui).queue.dirty,
        k.code == KeyCode::Char('z') && !old(ui).queue.shuffle ==> ui_state::told(
            final(ui).status_message,
            "Shuffle ON"@,
            old(ui).now,
        ),
        k.code == KeyCode::Char('z') && old(ui).queue.shuffle ==> ui_state::told(
            final(ui).status_message,
            "Shuffle OFF"@,
            old(ui).now,
        ),
        k.code != KeyCode::Char('z') ==> final(list)@ == old(list)@,
        out.ask is Rescan ==> k.code == KeyCode::Char('r'),
        out.ask is TypePath ==> k.code == KeyCode::Char('o'),
        out.ask is PickFolder ==> k.code == KeyCode::Char('p'),
        !(out.ask is Remove || out.ask is RemoveListed || out.ask is Save),
{
}

/// In the equaliser the side arrows choose a band, the others turn it up and down by a
/// decibel, within twelve, and `0` takes it back to none; no other band changes.
pub proof fn bands_follow_the_keys(
    s: &mut PlayerState,
    ui: &mut UiState,
    list: &mut Vec<String>,
    k: KeyPress,
    seed: u64,
    native: bool,
    out: Outcome,
    other: int,
)
    requires
        call_ensures(input::poll_input, (s, ui, list, k, seed, native), out),
        old(ui).input_mode is Normal,
        old(ui).view_mode is Eq,
        old(ui).eq_band < EQ_BANDS,
        forall|i: int| 0 <= i < EQ_BANDS ==> -12000 <= #[trigger] old(s).eq_gains@[i] <= 12000,
        k.code is Left || k.code is Right || k.code is Up || k.code is Down || k.code == KeyCode::Char('0'),
        0 <= other < EQ_BANDS,
    ensures
        k.code is Left && old(ui).eq_band > 0 ==> final(ui).eq_band == old(ui).eq_band - 1,
        k.code is Left && old(ui).eq_band == 0 ==> final(ui).eq_band == 0,
        k.code is Right && old(ui).eq_band + 1 < EQ_BANDS ==> final(ui).eq_band == old(ui).eq_band + 1,
        k.code is Right && old(ui).eq_band + 1 == EQ_BANDS ==> final(ui).eq_band == old(ui).eq_band,
        k.code is Left || k.code is Right ==> *final(s) == *old(s),
        !(k.code is Left || k.code is Right) ==> *final(ui) == *old(ui) && final(s).eq_custom && final(s).eq.changed,
        ({
            let b = old(ui).eq_band as int;
            let was = old(s).eq_gains@[b];
            let now = final(s).eq_gains@[b];
            &&& k.code is Up && was <= 11000 ==> now == was + 1000
            &&& k.code is Up && was > 11000 ==> now == 12000
            &&& k.code is Down && was >= -11000 ==> now == was - 1000
            &&& k.code is Down && was < -11000 ==> now == -12000
            &&& k.code == KeyCode::Char('0') ==> now == 0
            &&& other != b ==> final(s).eq_gains@[other] == old(s).eq_gains@[other]
        }),
        final(s).volume == old(s).volume && final(s).balance == old(s).balance && final(s).transport
            == old(s).transport,
        final(list)@ == old(list)@,
        goes_on(out),
{
}

/// In the equaliser `[` and `]` go to the preset before and to the next, round the
/// ends, and leave the listener's own curve.
pub proof fn presets_follow_the_keys(
    s: &mut PlayerState,
    ui: &mut UiState,
    list: &mut Vec<String>,
    k: KeyPress,
    seed: u64,
    native: bool,
    out: Outcome,
)
    requires
        call_ensures(input::poll_input, (s, ui, list, k, seed, native), out),
        old(ui).input_mode is Normal,
        old(ui).view_mode is Eq,
        old(s).eq.index < old(s).eq.count <= i32::MAX,
        k.code == KeyCode::Char('[') || k.code == KeyCode::Char(']'),
    ensures
        k.code == KeyCode::Char(']') && old(s).eq.index + 1 < old(s).eq.count ==> final(s).eq.index == old(s).eq.index
            + 1,
        k.code == KeyCode::Char(']') && old(s).eq.index + 1 == old(s).eq.count ==> final(s).eq.index == 0,
        k.code == KeyCode::Char('[') && old(s).eq.index > 0 ==> final(s).eq.index == old(s).eq.index - 1,
        k.code == KeyCode::Char('[') && old(s).eq.index == 0 ==> final(s).eq.index == old(s).eq.count - 1,
        final(s).eq.changed && !final(s).eq_custom && final(s).balance == old(s).balance,
        *final(ui) == *old(ui) && final(list)@ == old(list)@,
        goes_on(out),
{
    lemma_round(old(s).eq.index as int, old(s).eq.count as int);
    lemma_round_back(old(s).eq.index as int, old(s).eq.count as int);
}

/// In the lyrics `w` and `s` scroll up and down by a line, within the text, and stop
/// following the song; `d` has the lines come half a second later and `a` earlier.
pub proof fn lyrics_follow_the_keys(
    s: &mut PlayerState,
    ui: &mut UiState,
    list: &mut Vec<String>,
    k: KeyPress,
    seed: u64,
    native: bool,
    out: Outcome,
)
    requires
        call_ensures(input::poll_input, (s, ui, list, k, seed, native), out),
        old(ui).input_mode is Normal,
        old(ui).view_mode is Lyrics,
        k.code == KeyCode::Char('w') || k.code == KeyCode::Char('s') || k.code == KeyCode::Char('d') || k.code
            == KeyCode::Char('a'),
        i64::MIN < old(ui).lyrics.offset < i64::MAX,
        old(ui).lyrics.scroll < usize::MAX,
    ensures
        ({
            let was = old(ui).lyrics;
            let now = final(ui).lyrics;
            &&& k.code == KeyCode::Char('w') && was.scroll > 0 ==> now.scroll == was.scroll - 1
            &&& k.code == KeyCode::Char('w') && was.scroll == 0 ==> now.scroll == 0
            &&& k.code == KeyCode::Char('s') && (was.lyrics matches Some(t) && was.scroll + 1 < t.count()) ==> now.scroll
                == was.scroll + 1
            &&& k.code == KeyCode::Char('s') && !(was.lyrics matches Some(t) && was.scroll + 1 < t.count())
                ==> now.scroll == was.scroll
            &&& k.code == KeyCode::Char('w') || k.code == KeyCode::Char('s') ==> !now.auto_scroll && now.offset
                == was.offset
            &&& k.code == KeyCode::Char('d') ==> now.offset == was.offset + 1
            &&& k.code == KeyCode::Char('a') ==> now.offset == was.offset - 1
            &&& k.code == KeyCode::Char('d') || k.code == KeyCode::Char('a') ==> now.scroll == was.scroll
                && now.auto_scroll == was.auto_scroll
            &&& now.lyrics == was.lyrics
        }),
        final(ui).view_mode is Lyrics,
        *final(s) == *old(s) && final(list)@ == old(list)@,
        goes_on(out),
{
}

/// In the list the cursor goes up and down by a track and by a page, to the first and
/// to the last, and stays on the list.
pub proof fn the_cursor_follows_the_keys(
    s: &mut PlayerState,
    ui: &mut UiState,
    list: &mut Vec<String>,
    k: KeyPress,
    seed: u64,
    native: bool,
    out: Outcome,
)
    requires
        call_ensures(input::poll_input, (s, ui, list, k, seed, native), out),
        old(ui).input_mode is Normal,
        old(ui).view_mode is Playlist,
        !old(ui).tree.mode,
        old(ui).list@.filtered.len() == 0,
        old(ui).list@.cursor < old(list)@.len(),
        k.code is Up || k.code is Down || k.code is Home || k.code is End || k.code is PageUp || k.code is PageDown,
    ensures
        ({
            let was = old(ui).list@.cursor;
            let now = final(ui).list@.cursor;
            let page = old(ui).list@.rows - 1;
            &&& k.code is Up && was > 0 ==> now == was - 1
            &&& k.code is Up && was == 0 ==> now == 0
            &&& k.code is Down && was + 1 < old(list)@.len() ==> now == was + 1
            &&& k.code is Down && was + 1 == old(list)@.len() ==> now == was
            &&& k.code is Home ==> now == 0
            &&& k.code is End ==> now == old(list)@.len() - 1
            &&& k.code is PageUp && page >= 1 ==> now == (if was > page { was - page } else { 0 })
            &&& k.code is PageDown && page >= 1
                ==> now == (if was + page < old(list)@.len() { was + page } else { old(list)@.len() - 1 })
            &&& final(ui).list@.filtered == old(ui).list@.filtered
        }),
        *final(ui) == (UiState { list: final(ui).list, ..*old(ui) }),
        *final(s) == *old(s) && final(list)@ == old(list)@,
        goes_on(out),
{
}

/// In the list Enter plays the track under the cursor: of a search that one of what it
/// found. `/` starts a search, `d` and Delete ask for the track to be removed.
pub proof fn the_list_follows_the_keys(
    s: &mut PlayerState,
    ui: &mut UiState,
    list: &mut Vec<String>,
    k: KeyPress,
    seed: u64,
    native: bool,
    out: Outcome,
)
    requires
        call_ensures(input::poll_input, (s, ui, list, k, seed, native), out),
        old(ui).input_mode is Normal,
        old(ui).view_mode is Playlist,
        !old(ui).tree.mode,
        old(ui).list@.filtered.len() == 0 || old(ui).list@.cursor < old(ui).list@.filtered.len(),
    ensures
        k.code is Enter && old(ui).list@.filtered.len() == 0 ==> final(s).transport.jump_to_track == Some(
            old(ui).list.cursor,
        ),
        k.code is Enter && old(ui).list@.filtered.len() > 0 ==> final(s).transport.jump_to_track == Some(
            old(ui).list.filtered_indices@[old(ui).list.cursor as int],
        ),
        k.code is Enter ==> *final(s) == asked(
            *old(s),
            (Transport { jump_to_track: final(s).transport.jump_to_track, ..old(s).transport }),
        ) && *final(ui) == *old(ui) && final(list)@ == old(list)@ && out.ask is Nothing,
        k.code == KeyCode::Char('/') ==> (final(ui).input_mode matches InputMode::Search(q) && q@.len() == 0) && *final(s)
            == *old(s) && final(list)@ == old(list)@,
        k.code is Delete || (k.code == KeyCode::Char('d') && !k.ctrl) ==> out.ask is Remove && *final(ui) == *old(ui)
            && *final(s) == *old(s) && final(list)@ == old(list)@,
        out.ask is Remove ==> k.code is Delete || k.code == KeyCode::Char('d'),
        final(list)@ != old(list)@ ==> k.code == KeyCode::Char('a') || k.code == KeyCode::Char('S') || (k.code
            == KeyCode::Char('s') && k.shift) || k.code == KeyCode::Char('z'),
{
}

/// Tab changes between the list and the tree.
pub proof fn tab_changes_the_list_to_a_tree(
    s: &mut PlayerState,
    ui: &mut UiState,
    list: &mut Vec<String>,
    k: KeyPress,
    seed: u64,
    native: bool,
    out: Outcome,
)
    requires
        call_ensures(input::poll_input, (s, ui, list, k, seed, native), out),
        old(ui).input_mode is Normal,
        old(ui).view_mode is Playlist,
        k.code is Tab,
    ensures
        final(ui).tree.mode == !old(ui).tree.mode,
        final(ui).tree.mode ==> final(ui).tree.dirty,
        final(ui).view_mode is Playlist && final(ui).list == old(ui).list,
        *final(s) == *old(s) && final(list)@ == old(list)@,
        out.ask is Nothing,
{
}

/// In the tree the cursor goes up and down by a row and by a page, to the first and to
/// the last, and stays on the tree.
pub proof fn the_tree_cursor_follows_the_keys(
    s: &mut PlayerState,
    ui: &mut UiState,
    list: &mut Vec<String>,
    k: KeyPress,
    seed: u64,
    native: bool,
    out: Outcome,
)
    requires
        call_ensures(input::poll_input, (s, ui, list, k, seed, native), out),
        old(ui).input_mode is Normal,
        old(ui).view_mode is Playlist,
        old(ui).tree.mode,
        old(ui).tree.pending_remove is None,
        old(ui).tree.cursor < old(ui).tree.rows@.len(),
        k.code is Up || k.code is Down || k.code is Home || k.code is End || k.code is PageUp || k.code is PageDown,
    ensures
        ({
            let was = old(ui).tree.cursor;
            let now = final(ui).tree.cursor;
            let n = old(ui).tree.rows@.len();
            let page = old(ui).tree.view_height;
            &&& k.code is Up && was > 0 ==> now == was - 1
            &&& k.code is Up && was == 0 ==> now == 0
            &&& k.code is Down && was + 1 < n ==> now == was + 1
            &&& k.code is Down && was + 1 == n ==> now == was
            &&& k.code is Home ==> now == 0
            &&& k.code is End ==> now == n - 1
            &&& k.code is PageUp && page >= 1 ==> now == (if was > page { was - page } else { 0 })
            &&& k.code is PageDown && page >= 1 ==> now == (if was + page < n { was + page } else { n - 1 })
            &&& final(ui).tree.rows == old(ui).tree.rows
        }),
        *final(s) == *old(s) && final(list)@ == old(list)@,
        goes_on(out),
{
    assert(old(ui).tree.rows@.len() == old(ui).tree.rows.len());
}

/// In the tree Enter on a track plays it; the right arrow opens what the cursor is on
/// and the left arrow closes it.
pub proof fn the_tree_follows_the_keys(
    s: &mut PlayerState,
    ui: &mut UiState,
    list: &mut Vec<String>,
    k: KeyPress,
    seed: u64,
    native: bool,
    out: Outcome,
)
    requires
        call_ensures(input::poll_input, (s, ui, list, k, seed, native), out),
        old(ui).input_mode is Normal,
        old(ui).view_mode is Playlist,
        old(ui).tree.mode,
        old(ui).tree.pending_remove is None,
        old(ui).tree.wf(),
        old(ui).tree.cursor < old(ui).tree.rows@.len(),
    ensures
        ({
            let tree = old(ui).tree.tree@;
            let artists = old(ui).tree.fold.expanded_artists@;
            let albums = old(ui).tree.fold.expanded_albums@;
            let open_artists = final(ui).tree.fold.expanded_artists@;
            let open_albums = final(ui).tree.fold.expanded_albums@;
            match old(ui).tree.rows@[old(ui).tree.cursor as int] {
                VisibleRow::Artist { artist } => {
                    &&& k.code is Right
                        ==> open_artists == artists.insert(tree[artist as int].name) && open_albums == albums
                    &&& k.code is Left ==> open_artists == artists.remove(tree[artist as int].name) && open_albums
                        == albums
                },
                VisibleRow::Album { artist, album } => {
                    let name = (tree[artist as int].name, tree[artist as int].albums[album as int].name);
                    &&& k.code is Right ==> open_albums == albums.insert(name) && open_artists == artists
                    &&& k.code is Left ==> open_albums == albums.remove(name) && open_artists == artists
                },
                VisibleRow::Track { artist, album, track } => {
                    let name = (tree[artist as int].name, tree[artist as int].albums[album as int].name);
                    &&& k.code is Enter ==> final(s).transport.jump_to_track == Some(
                        tree[artist as int].albums[album as int].tracks[track as int].index as usize,
                    )
                    &&& k.code is Left ==> open_albums == albums.remove(name) && open_artists == artists
                    &&& k.code is Right ==> open_albums == albums && open_artists == artists
                    &&& k.code is Delete ==> (out.ask matches Ask::RemoveListed(idx) && idx@.len() == 1 && idx@[0]
                        == tree[artist as int].albums[album as int].tracks[track as int].index)
                },
            }
        }),
        k.code is Left || k.code is Right ==> *final(s) == *old(s) && goes_on(out),
        k.code is Enter ==> *final(ui) == *old(ui) && out.ask is Nothing,
        final(list)@ != old(list)@ ==> k.code == KeyCode::Char('z'),
{
    if k.code is Delete {
        match out.ask {
            Ask::RemoveListed(idx) => {
                let p = order::places(idx@);
                assert(p.len() == idx@.len());
                if idx@.len() > 0 {
                    assert(p[0] == idx@[0]);
                }
            },
            _ => {},
        }
    }
}

/// A removal that waits for a yes takes `y` for one and every other key for a no: then
/// nothing is removed. Either way it no longer waits.
pub proof fn removals_wait_for_a_yes(
    s: &mut PlayerState,
    ui: &mut UiState,
    list: &mut Vec<String>,
    k: KeyPress,
    seed: u64,
    native: bool,
    out: Outcome,
    label: String,
    idx: Vec<usize>,
)
    requires
        call_ensures(input::poll_input, (s, ui, list, k, seed, native), out),
        old(ui).input_mode is Normal,
        old(ui).view_mode is Playlist,
        old(ui).tree.mode,
        k.code !is Tab,
        old(ui).tree.pending_remove == Some((label, idx)),
    ensures
        k.code == KeyCode::Char('y') ==> out.ask == Ask::RemoveListed(idx),
        k.code != KeyCode::Char('y') ==> out.ask is Nothing && ui_state::told(
            final(ui).status_message,
            "cancelled removing "@ + label@,
            old(ui).now,
        ),
        final(ui).tree.pending_remove is None,
        *final(s) == *old(s) && final(list)@ == old(list)@,
        out.flow !is Quit,
{
}

/// What is typed into a search is added to it and taken back letter by letter; in the
/// list Enter plays what is under the cursor, where anything was found, and Esc plays
/// nothing. Both end the search, and the list is whole again.
pub proof fn searches_are_typed(
    s: &mut PlayerState,
    ui: &mut UiState,
    list: &mut Vec<String>,
    k: KeyPress,
    seed: u64,
    native: bool,
    out: Outcome,
    q: String,
)
    requires
        call_ensures(input::poll_input, (s, ui, list, k, seed, native), out),
        old(ui).input_mode == InputMode::Search(q),
        !old(ui).tree.mode,
        !(k.code == KeyCode::Char('c') && k.ctrl),
    ensures
        k.code matches KeyCode::Char(c) && !k.ctrl ==> (final(ui).input_mode matches InputMode::Search(t) && t@ == q@.push(
            k.code->Char_0,
        )),
        k.code is Backspace && q@.len() > 0 ==> (final(ui).input_mode matches InputMode::Search(t) && t@
            == q@.drop_last()),
        k.code is Esc || k.code is Enter ==> final(ui).input_mode is Normal && final(ui).list@.filtered.len() == 0
            && final(ui).list@.cursor == 0,
        k.code is Esc ==> *final(s) == *old(s),
        k.code is Enter && q@.len() > 0 && old(ui).list@.filtered.len() == 0 ==> *final(s) == *old(s),
        k.code is Enter && old(ui).list@.filtered.len() > 0 && old(ui).list@.cursor < old(ui).list@.filtered.len()
            ==> final(s).transport.jump_to_track == Some(
            old(ui).list.filtered_indices@[old(ui).list.cursor as int],
        ),
        k.code !is Enter ==> *final(s) == *old(s),
        final(list)@ == old(list)@,
        out.ask is Nothing && out.flow !is Quit,
{
}

/// A name for the playlist is typed and taken back letter by letter; Enter saves under
/// it where there is one, Esc does not, and both end it.
pub proof fn names_are_typed(
    s: &mut PlayerState,
    ui: &mut UiState,
    list: &mut Vec<String>,
    k: KeyPress,
    seed: u64,
    native: bool,
    out: Outcome,
    name: String,
)
    requires
        call_ensures(input::poll_input, (s, ui, list, k, seed, native), out),
        old(ui).input_mode == InputMode::SavePlaylist(name),
        !(k.code == KeyCode::Char('c') && k.ctrl),
    ensures
        k.code matches KeyCode::Char(c) && !k.ctrl ==> (final(ui).input_mode matches InputMode::SavePlaylist(t) && t@
            == name@.push(k.code->Char_0)),
        k.code is Backspace && name@.len() > 0 ==> (final(ui).input_mode matches InputMode::SavePlaylist(t) && t@
            == name@.drop_last()),
        k.code is Enter && name@.len() > 0 ==> (out.ask matches Ask::Save(n) && n@ == name@),
        k.code is Enter && name@.len() == 0 ==> out.ask is Nothing,
        k.code !is Enter ==> out.ask is Nothing,
        k.code is Enter || k.code is Esc ==> final(ui).input_mode is Normal,
        *final(s) == *old(s) && final(list)@ == old(list)@,
        out.flow !is Quit,
{
}

/// Keys that mean nothing in the player do nothing.
pub proof fn other_keys_do_nothing(
    s: &mut PlayerState,
    ui: &mut UiState,
    list: &mut Vec<String>,
    k: KeyPress,
    seed: u64,
    native: bool,
    out: Outcome,
)
    requires
        call_ensures(input::poll_input, (s, ui, list, k, seed, native), out),
        old(ui).input_mode is Normal,
        old(ui).view_mode is Player,
        k.code is Tab || k.code is Enter || k.code is Backspace || k.code is Delete || k.code is Home || k.code is End
            || k.code is PageUp || k.code is PageDown || k.code is Other,
    ensures
        *final(s) == *old(s),
        *final(ui) == *old(ui) && final(list)@ == old(list)@,
        goes_on(out),
{
}

proof fn lemma_round(i: int, n: int)
    requires
        0 <= i < n,
    ensures
        (i + 1) % n == (if i + 1 < n {
            i + 1
        } else {
            0
        }),
{
    assert((i + 1) % n == (if i + 1 < n {
        i + 1
    } else {
        0
    })) by (nonlinear_arith)
        requires
            0 <= i < n,
    ;
}

proof fn lemma_round_back(i: int, n: int)
    requires
        0 <= i < n,
    ensures
        (i - 1) % n == (if i > 0 {
            i - 1
        } else {
            n - 1
        }),
{
    assert((i - 1) % n == (if i > 0 {
        i - 1
    } else {
        n - 1
    })) by (nonlinear_arith)
        requires
            0 <= i < n,
    ;
}

/// A path is typed and taken back letter by letter. Enter chooses what was typed,
/// without the space around it; Esc, Ctrl+C and Enter on nothing choose none.
pub proof fn paths_are_typed(buf: &mut String, k: KeyPress, r: PromptStep)
    requires
        call_ensures(input::prompt_path_key, (buf, k), r),
    ensures
        k.code matches KeyCode::Char(c) && !k.ctrl ==> final(buf)@ == old(buf)@.push(k.code->Char_0),
        k.code is Backspace && old(buf)@.len() > 0 ==> final(buf)@ == old(buf)@.drop_last(),
        !(k.code is Backspace || k.code is Char) ==> final(buf)@ == old(buf)@,
        k.code is Esc ==> r is Cancel,
        k.code == KeyCode::Char('c') && k.ctrl ==> r is Cancel && final(buf)@ == old(buf)@,
        r matches PromptStep::Submit(p) ==> k.code is Enter && p@.len() > 0 && p@ == text::trimmed(old(buf)@),
        k.code is Enter && old(buf)@.len() == 0 ==> r is Cancel,
        k.code is Enter && text::trimmed(old(buf)@).len() > 0 ==> r is Submit,
        k.code is Enter ==> r is Submit || r is Cancel,
{
}

/// At the first launch `p` picks a folder, where it can be picked, `t` lets one be
/// typed, `q`, Esc and Ctrl+C quit, and every other key is asked again.
pub proof fn the_first_choice_follows_the_key(k: KeyPress, native: bool, r: FirstChoice)
    requires
        call_ensures(input::first_launch_choice, (k, native), r),
    ensures
        k.code == KeyCode::Char('p') && native ==> r is Pick,
        k.code == KeyCode::Char('P') && native ==> r is Pick,
        r is Pick ==> native,
        k.code == KeyCode::Char('t') || k.code == KeyCode::Char('T') ==> r is Type,
        r is Type ==> k.code == KeyCode::Char('t') || k.code == KeyCode::Char('T'),
        k.code is Esc || k.code == KeyCode::Char('q') || k.code == KeyCode::Char('Q') ==> r is Quit,
        k.code == KeyCode::Char('c') && k.ctrl ==> r is Quit,
        k.code is Enter || k.code is Other || k.code is Up || k.code is Down ==> r is Again,
{
}

/// `g` leads to the top of the list and shift with it to the end; Ctrl with `u` and `d`
/// go by a page.
pub proof fn letters_move_the_cursor(
    s: &mut PlayerState,
    ui: &mut UiState,
    list: &mut Vec<String>,
    k: KeyPress,
    seed: u64,
    native: bool,
    out: Outcome,
)
    requires
        call_ensures(input::poll_input, (s, ui, list, k, seed, native), out),
        old(ui).input_mode is Normal,
        old(ui).view_mode is Playlist,
        !old(ui).tree.mode,
        old(ui).list@.filtered.len() == 0,
        old(ui).list@.cursor < old(list)@.len(),
        old(ui).list@.rows >= 2,
    ensures
        ({
            let was = old(ui).list@.cursor;
            let now = final(ui).list@.cursor;
            let page = old(ui).list@.rows - 1;
            &&& k.code == KeyCode::Char('g') && !k.shift ==> now == 0
            &&& k.code == KeyCode::Char('g') && k.shift ==> now == old(list)@.len() - 1
            &&& k.code == KeyCode::Char('G') ==> now == old(list)@.len() - 1
            &&& k.code == KeyCode::Char('u') && k.ctrl && was >= page ==> now == was - page
            &&& k.code == KeyCode::Char('u') && k.ctrl && was < page ==> now == 0
            &&& k.code == KeyCode::Char('d') && k.ctrl && was + page < old(list)@.len() ==> now == was + page
        }),
{
}

/// `a` queues the track under the cursor; shift and `s` sorts the list.
pub proof fn letters_queue_and_sort(
    s: &mut PlayerState,
    ui: &mut UiState,
    list: &mut Vec<String>,
    k: KeyPress,
    seed: u64,
    native: bool,
    out: Outcome,
)
    requires
        call_ensures(input::poll_input, (s, ui, list, k, seed, native), out),
        old(ui).input_mode is Normal,
        old(ui).view_mode is Playlist,
        !old(ui).tree.mode,
    ensures
        k.code == KeyCode::Char('a') ==> queue::enqueued(
            *final(s),
            *final(ui),
            final(list)@,
            *old(s),
            *old(ui),
            old(list)@,
        ),
        k.code == KeyCode::Char('S') || (k.code == KeyCode::Char('s') && k.shift) ==> queue::sorted_by_tags(
            *final(s),
            *final(ui),
            final(list)@,
            *old(s),
            *old(ui),
            old(list)@,
        ),
        out.ask is Remove || out.ask is Nothing || out.ask is Rescan || out.ask is TypePath || out.ask is PickFolder,
{
}

/// In the tree `/` starts a filter, from the one that is there; Esc takes a filter away,
/// and then leads back to the player.
pub proof fn the_tree_is_filtered_by_keys(
    s: &mut PlayerState,
    ui: &mut UiState,
    list: &mut Vec<String>,
    k: KeyPress,
    seed: u64,
    native: bool,
    out: Outcome,
)
    requires
        call_ensures(input::poll_input, (s, ui, list, k, seed, native), out),
        old(ui).input_mode is Normal,
        old(ui).view_mode is Playlist,
        old(ui).tree.mode,
        old(ui).tree.pending_remove is None,
    ensures
        k.code == KeyCode::Char('/') ==> (final(ui).input_mode matches InputMode::Search(q) && q@ == old(ui).tree.filter@),
        k.code is Esc && old(ui).tree.filter@.len() > 0
            ==> final(ui).tree.filter@.len() == 0 && final(ui).view_mode is Playlist,
        k.code is Esc && old(ui).tree.filter@.len() == 0 ==> final(ui).view_mode is Player,
        k.code is Esc || k.code == KeyCode::Char('/') ==> *final(s) == *old(s) && final(list)@ == old(list)@,
{
}

/// What is typed into the tree's filter is in force with every letter; Enter keeps it,
/// and Esc takes it away.
pub proof fn filters_are_typed(
    s: &mut PlayerState,
    ui: &mut UiState,
    list: &mut Vec<String>,
    k: KeyPress,
    seed: u64,
    native: bool,
    out: Outcome,
    q: String,
)
    requires
        call_ensures(input::poll_input, (s, ui, list, k, seed, native), out),
        old(ui).input_mode == InputMode::Search(q),
        old(ui).tree.mode,
        !(k.code == KeyCode::Char('c') && k.ctrl),
    ensures
        k.code matches KeyCode::Char(c) && !k.ctrl ==> final(ui).tree.filter@ == q@.push(k.code->Char_0)
            && final(ui).tree.fresh(),
        k.code is Backspace && q@.len() > 0 ==> final(ui).tree.filter@ == q@.drop_last() && final(ui).tree.fresh(),
        k.code is Enter ==> final(ui).input_mode is Normal && final(ui).tree == old(ui).tree,
        k.code is Esc ==> final(ui).input_mode is Normal && final(ui).tree.filter@.len() == 0,
        *final(s) == *old(s) && final(list)@ == old(list)@,
{
}

/// An Esc that more follows at once is the start of an escape sequence, and no key.
pub proof fn split_escapes_are_no_keys(k: KeyPress, more: bool, r: bool)
    requires
        call_ensures(input::is_split_escape, (k, more), r),
    ensures
        r ==> k.code is Esc && more,
        k.code is Esc && more && !k.ctrl && !k.shift && !k.other ==> r,
        !more ==> !r,
{
}

/// Another size of the terminal has everything painted anew.
pub proof fn a_resize_paints_anew(ui: &mut UiState, m: u32)
    requires
        call_ensures(input::note_resize, (ui,), m),
    ensures
        final(ui).terminal_resized,
        final(ui).view_mode == old(ui).view_mode && final(ui).queue == old(ui).queue,
        m == 0,
{
}

} // verus!
