//! Frames: lines of text that are painted over the previous ones, and the pieces
//! that all themes share.
use crate::cover::GraphicsProtocol;
use crate::equalizer;
use crate::equalizer::push_tenths;
use crate::list_view;
use crate::list_view::ListView;
use crate::lyrics::Lyrics;
use crate::state::{InputMode, PlayerState};
use crate::text;
use crate::text::{is_blank, min_usize, push_dec, push_dec2};
use crate::theme::ThemeKind;
use crate::ui_state::LyricsPane;
use vstd::prelude::*;

verus! {

/// A line of a frame.
pub struct FrameLine {
    /// The rest of the line is not to be erased: an image is on it.
    pub raw: bool,
    pub text: String,
}

/// Collects the lines of a frame. The first is the anchor that the next frame
/// starts at.
pub struct FrameWriter {
    pub lines: Vec<FrameLine>,
}

impl View for FrameLine {
    type V = (bool, Seq<char>);

    open spec fn view(&self) -> (bool, Seq<char>) {
        (self.raw, self.text@)
    }
}

impl View for FrameWriter {
    type V = Seq<(bool, Seq<char>)>;

    open spec fn view(&self) -> Seq<(bool, Seq<char>)> {
        self.lines@.map_values(|l: FrameLine| l@)
    }
}

/// A line whose rest is erased.
pub open spec fn plain(s: Seq<char>) -> (bool, Seq<char>) {
    (false, s)
}

/// An empty line.
pub open spec fn blank() -> (bool, Seq<char>) {
    (false, Seq::empty())
}

/// Some empty lines.
pub open spec fn blanks(n: int) -> Seq<(bool, Seq<char>)> {
    Seq::new(n as nat, |i: int| blank())
}

/// The first `n` lines as they are sent to the terminal.
pub open spec fn painted(lines: Seq<(bool, Seq<char>)>, n: int) -> Seq<char>
    decreases n,
{
    if n <= 0 {
        Seq::empty()
    } else {
        painted(lines, n - 1) + (if n == 1 {
            "\r\x1B[K"@
        } else if lines[n - 1].0 {
            "\n\r"@
        } else {
            "\n\r\x1B[K"@
        }) + lines[n - 1].1
    }
}

/// The way back to the anchor of a frame that had so many lines below it.
pub open spec fn rewind(prev: Option<usize>) -> Seq<char> {
    match prev {
        Some(n) => if n > 0 {
            "\x1B["@ + text::dec(n as nat) + "F"@
        } else {
            Seq::empty()
        },
        None => Seq::empty(),
    }
}

/// A frame as it is sent to the terminal: back to the anchor, the lines, and
/// what is below them erased.
pub open spec fn sent(lines: Seq<(bool, Seq<char>)>, prev: Option<usize>) -> Seq<char> {
    rewind(prev) + painted(lines, lines.len() as int) + "\x1B[J"@
}

impl FrameWriter {
    /// A frame without lines.
    pub fn new() -> (w: Self)
        ensures
            w@ == Seq::<(bool, Seq<char>)>::empty(),
    {
        let w: FrameWriter = FrameWriter { lines: Vec::new() };
        assert(w@ =~= Seq::<(bool, Seq<char>)>::empty());
        w
    }

    fn put(&mut self, raw: bool, s: &str)
        ensures
            final(self)@ == old(self)@.push((raw, s@)),
    {
        let ghost before = self.lines@;
        self.lines.push(FrameLine { raw, text: s.to_owned() });
        assert(self@ =~= old(self)@.push((raw, s@)));
    }

    /// Puts the first line, the anchor.
    pub fn first_line(&mut self, s: &str)
        ensures
            final(self)@ == old(self)@.push(plain(s@)),
    {
        self.put(false, s);
    }

    /// Puts a line whose rest is erased.
    pub fn line(&mut self, s: &str)
        ensures
            final(self)@ == old(self)@.push(plain(s@)),
    {
        self.put(false, s);
    }

    /// Puts a line whose rest is left alone.
    pub fn line_raw(&mut self, s: &str)
        ensures
            final(self)@ == old(self)@.push((true, s@)),
    {
        self.put(true, s);
    }

    /// Puts an empty line.
    pub fn blank(&mut self)
        ensures
            final(self)@ == old(self)@.push(blank()),
    {
        proof {
            reveal_strlit("");
        }
        assert(""@ =~= Seq::<char>::empty());
        self.put(false, "");
    }

    /// Puts some empty lines.
    pub fn blanks(&mut self, n: usize)
        ensures
            final(self)@ == old(self)@ + blanks(n as int),
    {
        let ghost before = self@;
        let mut i: usize = 0;
        assert(self@ =~= before + blanks(0));
        while i < n
            invariant
                i <= n,
                self@ == before + blanks(i as int),
            decreases n - i,
        {
            self.blank();
            i = i + 1;
            assert(self@ =~= before + blanks(i as int));
        }
    }

    /// Puts some lines.
    pub fn all(&mut self, raw: bool, texts: &Vec<String>)
        ensures
            final(self)@ == old(self)@ + lines_of(raw, text::texts(texts@)),
    {
        let ghost before = self@;
        let ghost tv = text::texts(texts@);
        let mut i: usize = 0;
        assert(self@ =~= before + lines_of(raw, tv).take(0));
        while i < texts.len()
            invariant
                tv == text::texts(texts@),
                i <= texts@.len(),
                self@ == before + lines_of(raw, tv).take(i as int),
            decreases texts@.len() - i,
        {
            self.put(raw, texts[i].as_str());
            assert(tv[i as int] == texts@[i as int]@);
            i = i + 1;
            assert(self@ =~= before + lines_of(raw, tv).take(i as int));
        }
        assert(lines_of(raw, tv).take(tv.len() as int) =~= lines_of(raw, tv));
    }

    /// Lines below the anchor.
    pub fn count(&self) -> (r: usize)
        ensures
            r == text::minus(self@.len() as int, 1),
    {
        assert(self@.len() == self.lines@.len());
        if self.lines.len() == 0 {
            0
        } else {
            self.lines.len() - 1
        }
    }

    /// The frame as it is sent to the terminal, after one that had `prev` lines
    /// below its anchor; `None` where the terminal has been cleared.
    pub fn emit(&self, prev: Option<usize>) -> (out: String)
        ensures
            out@ == sent(self@, prev),
    {
        proof {
            reveal_strlit("");
        }
        let mut out: String = String::new();
        match prev {
            Some(n) => {
                if n > 0 {
                    out = "\x1B[".to_owned();
                    push_dec(&mut out, n as u64);
                    out.push_str("F");
                }
            },
            None => {},
        }
        let ghost head = out@;
        assert(head =~= rewind(prev));
        let ghost lv = self@;
        assert(lv.len() == self.lines@.len());
        let mut i: usize = 0;
        assert(out@ =~= head + painted(lv, 0));
        while i < self.lines.len()
            invariant
                lv == self@,
                lv.len() == self.lines@.len(),
                i <= self.lines@.len(),
                out@ == head + painted(lv, i as int),
            decreases self.lines@.len() - i,
        {
            if i == 0 {
                out.push_str("\r\x1B[K");
            } else if self.lines[i].raw {
                out.push_str("\n\r");
            } else {
                out.push_str("\n\r\x1B[K");
            }
            out.push_str(self.lines[i].text.as_str());
            assert(lv[i as int] == self.lines@[i as int]@);
            i = i + 1;
            assert(out@ =~= head + painted(lv, i as int));
        }
        out.push_str("\x1B[J");
        out
    }
}

/// Texts as lines.
pub open spec fn lines_of(raw: bool, texts: Seq<Seq<char>>) -> Seq<(bool, Seq<char>)> {
    texts.map_values(|t: Seq<char>| (raw, t))
}

/// How often a character stands in a text.
pub open spec fn count_of(c: char, s: Seq<char>) -> int
    decreases s.len(),
{
    if s.len() == 0 {
        0
    } else {
        count_of(c, s.drop_last()) + (if s.last() == c {
            1int
        } else {
            0int
        })
    }
}

proof fn lemma_count_join(c: char, a: Seq<char>, b: Seq<char>)
    ensures
        count_of(c, a + b) == count_of(c, a) + count_of(c, b),
    decreases b.len(),
{
    if b.len() == 0 {
        assert(a + b =~= a);
    } else {
        lemma_count_join(c, a, b.drop_last());
        assert((a + b).drop_last() =~= a + b.drop_last());
        assert((a + b).last() == b.last());
    }
}

/// The terminal goes down by as many lines as a frame has below its anchor:
/// every line but the first starts with a line feed, and there is no other.
pub proof fn frame_goes_down_by_its_count(lines: Seq<(bool, Seq<char>)>, n: int)
    requires
        0 <= n <= lines.len(),
        forall|i: int| 0 <= i < lines.len() ==> count_of('\n', (#[trigger] lines[i]).1) == 0,
    ensures
        count_of('\n', painted(lines, n)) == text::minus(n, 1),
    decreases n,
{
    if n > 0 {
        frame_goes_down_by_its_count(lines, n - 1);
        reveal_strlit("\r\x1B[K");
        reveal_strlit("\n\r");
        reveal_strlit("\n\r\x1B[K");
        reveal_with_fuel(count_of, 6);
        let head = if n == 1 {
            "\r\x1B[K"@
        } else if lines[n - 1].0 {
            "\n\r"@
        } else {
            "\n\r\x1B[K"@
        };
        assert(count_of('\n', head) == (if n == 1 {
            0int
        } else {
            1int
        })) by {
            assert(head.drop_last().drop_last().len() <= 3);
        }
        lemma_count_join('\n', painted(lines, n - 1), head);
        lemma_count_join('\n', painted(lines, n - 1) + head, lines[n - 1].1);
    } else {
        assert(painted(lines, n) =~= Seq::<char>::empty());
    }
}

/// Two digits at least.
pub open spec fn dec2(n: nat) -> Seq<char> {
    text::pad_left(text::dec(n), '0', 2)
}

/// A time as minutes and seconds, from an hour on with hours.
pub open spec fn clock(total: nat) -> Seq<char> {
    if total >= 3600 {
        text::dec(total / 3600) + ":"@ + dec2(total % 3600 / 60) + ":"@ + dec2(total % 60)
    } else {
        dec2(total / 60) + ":"@ + dec2(total % 60)
    }
}

/// A time as minutes and seconds, however long: the minutes are counted up to
/// what 32 bits hold.
pub open spec fn minutes(total: nat) -> Seq<char> {
    dec2(text::least((total / 60) as int, u32::MAX as int) as nat) + ":"@ + dec2(total % 60)
}

/// A time as minutes and seconds, from an hour on with hours.
pub fn format_time(total: u64) -> (s: String)
    ensures
        s@ == clock(total as nat),
{
    let mut s: String = String::new();
    assert(s@ + text::dec(total as nat / 3600) =~= text::dec(total as nat / 3600));
    assert(s@ + dec2(total as nat / 60) =~= dec2(total as nat / 60));
    if total >= 3600 {
        push_dec(&mut s, total / 3600);
        s.push_str(":");
        push_dec2(&mut s, total % 3600 / 60);
        s.push_str(":");
        push_dec2(&mut s, total % 60);
    } else {
        push_dec2(&mut s, total / 60);
        s.push_str(":");
        push_dec2(&mut s, total % 60);
    }
    s
}

/// A time as minutes and seconds, however long.
pub fn format_minutes(total: u64) -> (s: String)
    ensures
        s@ == minutes(total as nat),
{
    let mut s: String = String::new();
    let m: u64 = if total / 60 < 0xffff_ffff {
        total / 60
    } else {
        0xffff_ffff
    };
    assert(s@ + dec2(m as nat) =~= dec2(m as nat));
    push_dec2(&mut s, m);
    s.push_str(":");
    push_dec2(&mut s, total % 60);
    s
}

/// Figures of the machine, as far as they are shown.
pub struct Stats {
    /// Per cent of the ring that are filled.
    pub buf_pct: u32,
    /// Processor load in per cent, with one decimal.
    pub cpu: String,
    /// Memory in megabytes, without decimals.
    pub mem: String,
    /// The load is worth a note.
    pub cpu_high: bool,
}

/// Columns of a level meter that are filled, and the one that marks the peak.
#[derive(Clone, Copy)]
pub struct Level {
    pub filled: usize,
    pub peak: usize,
}

/// What a frame shows that is not part of the player or of the screen.
pub struct Scene {
    /// What the track is called.
    pub name: String,
    pub track_info: String,
    /// Extension of the file.
    pub ext: String,
    pub eq_name: String,
    /// The equaliser's curve, empty where it is flat.
    pub eq_curve: String,
    pub fx_name: String,
    pub cf_name: String,
    pub stats: Stats,
    /// Lines below the anchor of the previous frame; `None` where the terminal
    /// has been cleared.
    pub prev: Option<usize>,
    pub term_w: u16,
    pub term_h: u16,
    /// Lines of the visualiser.
    pub viz: Vec<String>,
    /// The rest of these lines is not to be erased.
    pub viz_raw: bool,
    /// Levels of both sides, in columns of the meter.
    pub left: Level,
    pub right: Level,
    pub protocol: GraphicsProtocol,
}

/// How far the track is, in `n` parts, rounded down.
pub open spec fn progress(s: PlayerState, n: int) -> int {
    let all = s.track.total_samples * s.track.output_rate;
    if all == 0 || s.track.sample_rate == 0 {
        0
    } else {
        text::least(n, n * (s.track.samples_played * s.track.sample_rate) / all)
    }
}

/// How far the track is, in `n` parts.
pub fn progress_parts(state: &PlayerState, n: u32) -> (r: u32)
    ensures
        r == progress(*state, n as int),
        r <= n,
{
    let total: u64 = state.track.total_samples;
    let out: u32 = state.track.output_rate;
    let played: u64 = state.track.samples_played;
    let rate: u32 = state.track.sample_rate;
    proof {
        assert(0 <= total * out <= 0xffff_ffff_ffff_ffff * 0xffff_ffff) by (nonlinear_arith)
            requires
                0 <= total <= 0xffff_ffff_ffff_ffff,
                0 <= out <= 0xffff_ffff,
        ;
        assert(0 <= played * rate <= 0xffff_ffff_ffff_ffff * 0xffff_ffff) by (nonlinear_arith)
            requires
                0 <= played <= 0xffff_ffff_ffff_ffff,
                0 <= rate <= 0xffff_ffff,
        ;
    }
    let all: u128 = total as u128 * out as u128;
    let done: u128 = played as u128 * rate as u128;
    if all == 0 || rate == 0 {
        return 0;
    }
    proof {
        let d = done as int;
        assert(0 <= n * d <= 0xffff_ffff * (0xffff_ffff_ffff_ffff * 0xffff_ffff)) by (nonlinear_arith)
            requires
                0 <= n <= 0xffff_ffff,
                0 <= d <= 0xffff_ffff_ffff_ffff * 0xffff_ffff,
        ;
    }
    let part: u128 = n as u128 * done / all;
    if part < n as u128 {
        part as u32
    } else {
        n
    }
}

/// The eighths of a block.
pub open spec fn block_part(i: int) -> char {
    if i <= 0 {
        '\u{258f}'
    } else if i == 1 {
        '\u{258e}'
    } else if i == 2 {
        '\u{258d}'
    } else if i == 3 {
        '\u{258c}'
    } else if i == 4 {
        '\u{258b}'
    } else if i == 5 {
        '\u{258a}'
    } else if i == 6 {
        '\u{2589}'
    } else {
        '\u{2588}'
    }
}

/// A block filled from the left, by its eighths.
pub fn block_char(i: u32) -> (c: char)
    ensures
        c == block_part(i as int),
{
    if i == 0 {
        '\u{258f}'
    } else if i == 1 {
        '\u{258e}'
    } else if i == 2 {
        '\u{258d}'
    } else if i == 3 {
        '\u{258c}'
    } else if i == 4 {
        '\u{258b}'
    } else if i == 5 {
        '\u{258a}'
    } else if i == 6 {
        '\u{2589}'
    } else {
        '\u{2588}'
    }
}

/// A balance in words.
pub open spec fn balance_words(b: int) -> Seq<char> {
    if b == 0 {
        "centred"@
    } else if b < 0 {
        "L"@ + text::dec((-b) as nat) + "%"@
    } else {
        "R"@ + text::dec(b as nat) + "%"@
    }
}

/// A balance in words.
pub fn balance_text(b: i32) -> (s: String)
    ensures
        s@ == balance_words(b as int),
{
    if b == 0 {
        return "centred".to_owned();
    }
    let mut s: String = String::new();
    if b < 0 {
        s = "L".to_owned();
        push_dec(&mut s, (0 - b as i64) as u64);
    } else {
        s = "R".to_owned();
        push_dec(&mut s, b as u64);
    }
    s.push_str("%");
    s
}

/// Half seconds with a sign and one decimal.
pub open spec fn offset_words(half: int) -> Seq<char> {
    let n = if half < 0 {
        -half
    } else {
        half
    };
    (if half < 0 {
        "-"@
    } else {
        "+"@
    }) + text::dec((n / 2) as nat) + (if n % 2 == 1 {
        ".5"@
    } else {
        ".0"@
    })
}

/// Half seconds with a sign and one decimal.
pub fn offset_text(half: i64) -> (s: String)
    ensures
        s@ == offset_words(half as int),
{
    let n: u64 = if half < 0 {
        (0 - half as i128) as u64
    } else {
        half as u64
    };
    let mut s: String = if half < 0 {
        "-".to_owned()
    } else {
        "+".to_owned()
    };
    push_dec(&mut s, n / 2);
    if n % 2 == 1 {
        s.push_str(".5");
    } else {
        s.push_str(".0");
    }
    s
}

/// Whether something is searched for.
pub open spec fn searching(mode: InputMode) -> bool {
    mode matches InputMode::Search(q) && q@.len() > 0
}

/// Whether something is searched for.
pub fn search_active(mode: &InputMode) -> (r: bool)
    ensures
        r == searching(*mode),
{
    match mode {
        InputMode::Search(q) => !is_blank(q.as_str()),
        _ => false,
    }
}

/// Rows of the list, with `n` tracks in all: none where a search found nothing.
pub open spec fn item_count(l: list_view::ListV, active: bool, n: int) -> int {
    if active && l.filtered.len() == 0 {
        0
    } else {
        l.len(n)
    }
}

/// The first row on a screen of `rows` rows, so that the cursor is on it with a
/// margin, and no room is left behind the last of `items` rows.
pub open spec fn list_scroll(cursor: int, scroll: int, rows: int, items: int) -> int {
    let m = text::least(4, rows / 2);
    let down = if cursor >= scroll + text::minus(rows, m) {
        text::minus(cursor, text::minus(rows, m + 1))
    } else {
        scroll
    };
    let up = if cursor < down + m {
        text::minus(cursor, m)
    } else {
        down
    };
    text::least(up, text::minus(items, rows))
}

/// The row under the cursor is on the screen.
pub proof fn list_cursor_is_on_the_screen(cursor: int, scroll: int, rows: int, items: int)
    requires
        0 <= cursor < items,
        0 <= scroll,
        0 < rows,
    ensures
        list_scroll(cursor, scroll, rows, items) <= cursor < list_scroll(cursor, scroll, rows, items) + rows,
{
}

/// The list with the screen moved to the cursor.
pub open spec fn shown_list(l: list_view::ListV, active: bool, n: int, rows: int) -> list_view::ListV {
    list_view::ListV {
        scroll: list_scroll(l.cursor, l.scroll, rows, item_count(l, active, n)),
        rows,
        ..l
    }
}

/// Rows that are on the screen.
pub open spec fn shown_count(l: list_view::ListV, active: bool, n: int, rows: int) -> int {
    text::least(rows, text::minus(item_count(l, active, n), shown_list(l, active, n, rows).scroll))
}

/// The track at a row of the list.
pub open spec fn track_at(l: list_view::ListV, pos: int) -> int {
    if l.filtered.len() == 0 {
        pos
    } else {
        l.filtered[pos]
    }
}

/// Moves the screen to the cursor, and says how many rows are on it.
pub fn scroll_list(l: &mut ListView, active: bool, n: usize, rows: usize) -> (count: usize)
    requires
        rows > 0,
    ensures
        final(l)@ == shown_list(old(l)@, active, n as int, rows as int),
        count == shown_count(old(l)@, active, n as int, rows as int),
        final(l).filtered_indices == old(l).filtered_indices,
{
    let items: usize = if l.filtered_indices.len() > 0 {
        l.filtered_indices.len()
    } else if active {
        0
    } else {
        n
    };
    let r: u128 = rows as u128;
    let m: u128 = if r / 2 < 4 {
        r / 2
    } else {
        4
    };
    let c: u128 = l.cursor as u128;
    let mut s: u128 = l.scroll_offset as u128;
    if c >= s + (r - m) {
        let span: u128 = if r > m + 1 {
            r - (m + 1)
        } else {
            0
        };
        s = if c > span {
            c - span
        } else {
            0
        };
    }
    if c < s + m {
        s = if c > m {
            c - m
        } else {
            0
        };
    }
    let max: usize = if items > rows {
        items - rows
    } else {
        0
    };
    let scroll: usize = if s < max as u128 {
        s as usize
    } else {
        max
    };
    l.scroll_offset = scroll;
    l.last_visible_rows = rows;
    assert(l@.filtered =~= old(l)@.filtered);
    let left: usize = if items > scroll {
        items - scroll
    } else {
        0
    };
    min_usize(rows, left)
}

/// The track at a row of the list.
pub fn row_track(l: &ListView, pos: usize) -> (r: usize)
    requires
        l.filtered_indices@.len() == 0 || pos < l.filtered_indices@.len(),
    ensures
        r == track_at(l@, pos as int),
{
    if l.filtered_indices.len() == 0 {
        pos
    } else {
        assert(l@.filtered[pos as int] == l.filtered_indices@[pos as int] as int);
        l.filtered_indices[pos]
    }
}

/// The path of a track; nothing beyond the list.
pub open spec fn path_at(paths: Seq<Seq<char>>, i: int) -> Seq<char> {
    if 0 <= i < paths.len() {
        paths[i]
    } else {
        Seq::empty()
    }
}

/// The path of a track; nothing beyond the list.
pub fn path_of(paths: &Vec<String>, i: usize) -> (r: String)
    ensures
        r@ == path_at(text::texts(paths@), i as int),
{
    if i < paths.len() {
        assert(text::texts(paths@)[i as int] == paths@[i as int]@);
        paths[i].clone()
    } else {
        String::new()
    }
}

/// Where the lyrics are, in billionths of a second.
pub open spec fn lyrics_position(s: PlayerState, offset: int) -> int {
    (if s.track.output_rate == 0 {
        0
    } else {
        s.track.samples_played * 1_000_000_000 / (s.track.output_rate as int)
    }) + offset * 500_000_000
}

/// Where the lyrics are, in billionths of a second.
pub fn position_of(state: &PlayerState, offset: i64) -> (r: i128)
    ensures
        r == lyrics_position(*state, offset as int),
{
    let rate: u32 = state.track.output_rate;
    let played: i128 = if rate == 0 {
        0
    } else {
        let n: u128 = state.track.samples_played as u128 * 1_000_000_000 / rate as u128;
        proof {
            let a = state.track.samples_played * 1_000_000_000;
            assert(a / (rate as int) <= a) by (nonlinear_arith)
                requires
                    a >= 0,
                    rate > 0,
            ;
        }
        n as i128
    };
    played + offset as i128 * 500_000_000
}

/// The line that is sung, where there are lyrics.
pub open spec fn sung_line(l: Option<Lyrics>, position: int) -> Option<int> {
    match l {
        Some(t) => t.line_at(position),
        None => None,
    }
}

/// The first line of lyrics on a screen of `rows` rows. The line that is sung is
/// brought to the middle, as far as that is wanted.
pub open spec fn lyrics_scroll(scroll: int, follow: bool, sung: Option<int>, total: int, rows: int) -> int {
    let to = match sung {
        Some(c) => if follow {
            text::minus(c, rows / 2)
        } else {
            scroll
        },
        None => scroll,
    };
    if total > rows {
        text::least(to, total - rows)
    } else {
        0
    }
}

/// The lyrics view with the screen moved to the line that is sung.
pub open spec fn shown_lyrics(p: LyricsPane, position: int, rows: int) -> LyricsPane {
    match p.lyrics {
        Some(t) => LyricsPane {
            scroll: lyrics_scroll(
                p.scroll as int,
                p.auto_scroll && t is Synced,
                t.line_at(position),
                t.count() as int,
                rows,
            ) as usize,
            ..p
        },
        None => p,
    }
}

/// Moves the screen to the line that is sung, and says which that is.
pub fn scroll_lyrics(p: &mut LyricsPane, position: i128, rows: usize) -> (sung: Option<usize>)
    ensures
        *final(p) == shown_lyrics(*old(p), position as int, rows as int),
        match sung {
            Some(i) => sung_line(old(p).lyrics, position as int) == Some(i as int),
            None => sung_line(old(p).lyrics, position as int) is None,
        },
{
    let mut total: usize = 0;
    let mut synced: bool = false;
    let mut sung: Option<usize> = None;
    match &p.lyrics {
        Some(t) => {
            total = t.line_count();
            synced = t.is_synced();
            sung = t.current_line(position);
        },
        None => {
            return None;
        },
    }
    let mut to: usize = p.scroll;
    match sung {
        Some(c) => {
            if p.auto_scroll && synced {
                to = c.saturating_sub(rows / 2);
            }
        },
        None => {},
    }
    p.scroll = if total > rows {
        min_usize(to, total - rows)
    } else {
        0
    };
    sung
}

/// Whether the spectrogram's image has to be sent again: the screen was cleared,
/// or the image was not on the last frame. Classic has rows above it that come and
/// go, so there it is sent again too where it stands on another row than before.
/// The hi-fi theme has no such image.
pub fn spectrogram_is_stale(theme: ThemeKind, prev: Option<usize>, intact: bool, below: usize) -> (r: bool)
    ensures
        r == (match theme {
            ThemeKind::Classic => prev != Some(below) || !intact,
            ThemeKind::Minimal => prev is None || !intact,
            ThemeKind::HiFi => false,
        }),
{
    match theme {
        ThemeKind::Classic => match prev {
            Some(n) => n != below || !intact,
            None => true,
        },
        ThemeKind::Minimal => prev.is_none() || !intact,
        ThemeKind::HiFi => false,
    }
}

/// The power of two, from `p` on, that brings a rate in kilohertz to the twenty-four
/// bits of a number of single precision.
pub open spec fn single_scale(rate: int, p: int) -> int
    decreases 0x2_0000_0000 - p,
{
    if p <= 0 || p >= 0x1_0000_0000 || rate * p >= 8_388_608_000 {
        p
    } else {
        single_scale(rate, 2 * p)
    }
}

/// A rate in tenths of a kilohertz: the nearest. Where two are as near, the one on
/// the side to which the rate in kilohertz falls in single precision, or the even
/// one where that is exact.
pub open spec fn khz_tenths(rate: int) -> int {
    let q = rate / 100;
    let r = rate % 100;
    let p = single_scale(rate, 1);
    let single = (rate * p + 500) / 1000 * 1000;
    if r > 50 || (r == 50 && (single > rate * p || (single == rate * p && q % 2 == 1))) {
        q + 1
    } else {
        q
    }
}

/// A rate in kilohertz, with one decimal.
pub open spec fn khz(rate: u32) -> Seq<char> {
    equalizer::tenths(khz_tenths(rate as int) as nat)
}

/// A rate in kilohertz, with one decimal.
pub fn khz_text(rate: u32) -> (s: String)
    ensures
        s@ == khz(rate),
{
    let mut p: u64 = 1;
    while p < 0x1_0000_0000 && (rate as u64) * p < 8_388_608_000
        invariant
            1 <= p <= 0x2_0000_0000,
            rate * p <= 16_777_216_000,
            single_scale(rate as int, p as int) == single_scale(rate as int, 1),
        decreases 0x2_0000_0000 - p,
    {
        assert(rate * (2 * p) == 2 * (rate * p)) by (nonlinear_arith);
        p = 2 * p;
    }
    let scaled: u64 = rate as u64 * p;
    let single: u64 = (scaled + 500) / 1000 * 1000;
    let q: u32 = rate / 100;
    let r: u32 = rate % 100;
    let n: u32 = if r > 50 || (r == 50 && (single > scaled || (single == scaled && q % 2 == 1))) {
        q + 1
    } else {
        q
    };
    let mut s: String = String::new();
    push_tenths(&mut s, n);
    assert(s@ =~= khz(rate));
    s
}

} // verus!
