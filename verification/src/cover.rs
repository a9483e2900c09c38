//! Album covers: where they are kept, and how a terminal draws them.
//!
//! Pixel images ride in escape sequences: Kitty's graphics protocol, iTerm2's
//! inline images, or Sixel. Everywhere else a cover is drawn with half blocks,
//! two pixels to a cell. Whatever the protocol, a cover is a list of lines, one
//! per row of the slot it was sized for.
use crate::json;
use crate::json::text_in_first;
use crate::lyrics;
use crate::path;
use crate::text;
use crate::text::{
    ascii_lower, chars_of, contains_text, push_dec, push_rep, repeat_char, string_of,
    white_char,
};
use crate::theme::ThemeKind;
use image::{ImageDecoder, ImageEncoder};
use vstd::prelude::*;

verus! {

/// Columns of the banner's cover slot.
pub const COVER_COLS: u32 = 20;

/// Rows of the banner's cover slot.
pub const COVER_ROWS: u32 = 10;

/// Pixels along each side of a cover that a terminal scales by itself.
pub const KITTY_SIZE: u32 = 320;

/// Characters of payload in one escape sequence of a Kitty transmission.
pub const KITTY_CHUNK: usize = 4096;

/// How a terminal is sent images.
#[derive(Clone, Copy, Debug, PartialEq, Eq, Structural)]
pub enum GraphicsProtocol {
    Kitty,
    Iterm2,
    Sixel,
    HalfBlock,
}

/// Whether an optional text is there and, in lower case, is `name`.
pub open spec fn is_named(s: Option<&str>, name: Seq<char>) -> bool {
    s is Some && text::lowered(s->0@) == name
}

/// Whether an optional text is there and is `name`.
pub open spec fn is_exactly(s: Option<&str>, name: Seq<char>) -> bool {
    s is Some && s->0@ == name
}

/// The protocol of a terminal, from what it says of itself. WezTerm under
/// Windows never sees the sequences Kitty's protocol rides on; elsewhere it
/// speaks it, as do Ghostty and Kitty. Windows Terminal speaks Sixel.
pub open spec fn protocol_of(
    term_program: Option<&str>,
    term: Option<&str>,
    has_kitty_window_id: bool,
    lc_terminal: Option<&str>,
    has_wt_session: bool,
    is_windows: bool,
) -> GraphicsProtocol {
    if is_named(term_program, "wezterm"@) && is_windows {
        GraphicsProtocol::HalfBlock
    } else if is_named(term_program, "ghostty"@) || is_named(term_program, "wezterm"@) {
        GraphicsProtocol::Kitty
    } else if is_named(term_program, "iterm.app"@) {
        GraphicsProtocol::Iterm2
    } else if term is Some && text::has_text(term->0@, "kitty"@) {
        GraphicsProtocol::Kitty
    } else if is_exactly(term, "foot"@) || is_exactly(term, "foot-extra"@) || is_exactly(term, "mlterm"@) {
        GraphicsProtocol::Sixel
    } else if has_kitty_window_id {
        GraphicsProtocol::Kitty
    } else if is_named(lc_terminal, "iterm2"@) {
        GraphicsProtocol::Iterm2
    } else if has_wt_session {
        GraphicsProtocol::Sixel
    } else {
        GraphicsProtocol::HalfBlock
    }
}

/// Picks the protocol from the environment's variables.
pub fn protocol_from_env(
    term_program: Option<&str>,
    term: Option<&str>,
    has_kitty_window_id: bool,
    lc_terminal: Option<&str>,
    has_wt_session: bool,
    is_windows: bool,
) -> (r: GraphicsProtocol)
    ensures
        r == protocol_of(
            term_program,
            term,
            has_kitty_window_id,
            lc_terminal,
            has_wt_session,
            is_windows,
        ),
{
    if let Some(tp) = term_program {
        let lower: String = ascii_lower(tp);
        let l: &str = lower.as_str();
        if l.eq("wezterm") && is_windows {
            return GraphicsProtocol::HalfBlock;
        }
        if l.eq("ghostty") || l.eq("wezterm") {
            return GraphicsProtocol::Kitty;
        }
        if l.eq("iterm.app") {
            return GraphicsProtocol::Iterm2;
        }
    }
    if let Some(t) = term {
        if contains_text(t, "kitty") {
            return GraphicsProtocol::Kitty;
        }
        if t.eq("foot") || t.eq("foot-extra") || t.eq("mlterm") {
            return GraphicsProtocol::Sixel;
        }
    }
    if has_kitty_window_id {
        return GraphicsProtocol::Kitty;
    }
    if let Some(lc) = lc_terminal {
        let lower: String = ascii_lower(lc);
        if lower.as_str().eq("iterm2") {
            return GraphicsProtocol::Iterm2;
        }
    }
    if has_wt_session {
        return GraphicsProtocol::Sixel;
    }
    GraphicsProtocol::HalfBlock
}

/// The cells of a cover slot.
#[derive(Clone, Copy, Debug, PartialEq, Eq, Structural)]
pub struct CoverSize {
    pub cols: u32,
    pub rows: u32,
}

impl CoverSize {
    /// Classic's banner slot.
    pub fn classic() -> (r: CoverSize)
        ensures
            r.cols == COVER_COLS && r.rows == COVER_ROWS,
    {
        CoverSize { cols: COVER_COLS, rows: COVER_ROWS }
    }

    /// Minimal's slot, as high as the signal column beside it.
    pub fn minimal() -> (r: CoverSize)
        ensures
            r.cols == 18 && r.rows == 8,
    {
        CoverSize { cols: 18, rows: 8 }
    }

    /// The slot a theme keeps for the cover.
    pub fn for_theme(kind: ThemeKind) -> (r: CoverSize)
        ensures
            kind is Minimal ==> r.cols == 18 && r.rows == 8,
            !(kind is Minimal) ==> r.cols == COVER_COLS && r.rows == COVER_ROWS,
    {
        match kind {
            ThemeKind::Minimal => CoverSize::minimal(),
            _ => CoverSize::classic(),
        }
    }

    /// Pixels of the slot at ten by twenty to a cell.
    pub fn sixel_px(&self) -> (r: (u32, u32))
        requires
            self.cols * 10 <= u32::MAX,
            self.rows * 20 <= u32::MAX,
        ensures
            r.0 == self.cols * 10,
            r.1 == self.rows * 20,
    {
        (self.cols * 10, self.rows * 20)
    }
}

/// A decoded cover, in the shape its protocol needs. Each remembers the slot it
/// was sized for.
pub enum CoverImage {
    /// Raw pixels, one per column and two per row.
    HalfBlock { width: u32, height: u32, pixels: Vec<u8>, size: CoverSize },
    /// PNG bytes for Kitty's protocol.
    Kitty { png: Vec<u8>, size: CoverSize },
    /// PNG bytes for iTerm2's inline images.
    Iterm2 { png: Vec<u8>, size: CoverSize },
    /// Encoded Sixel data.
    Sixel { data: String, size: CoverSize },
}

impl CoverImage {
    /// The slot the cover was sized for.
    pub open spec fn slot(self) -> CoverSize {
        match self {
            CoverImage::HalfBlock { width, height, pixels, size } => size,
            CoverImage::Kitty { png, size } => size,
            CoverImage::Iterm2 { png, size } => size,
            CoverImage::Sixel { data, size } => size,
        }
    }

    /// Whether a cover is what its slot asks for.
    pub open spec fn fits_slot(self) -> bool {
        &&& self.slot().rows >= 1
        &&& self matches CoverImage::HalfBlock { width, height, pixels, size } ==> {
            &&& width == size.cols
            &&& height == size.rows * 2
            &&& pixels@.len() == width * height * 3
        }
    }

    /// The slot the cover was sized for.
    pub fn size(&self) -> (r: CoverSize)
        ensures
            r == self.slot(),
    {
        match self {
            CoverImage::HalfBlock { size, .. } => *size,
            CoverImage::Kitty { size, .. } => *size,
            CoverImage::Iterm2 { size, .. } => *size,
            CoverImage::Sixel { size, .. } => *size,
        }
    }
}

/// Whether an image stays in its cells until something is written over them. Half
/// blocks are text and are painted like text.
pub fn image_is_sticky(protocol: GraphicsProtocol) -> (r: bool)
    ensures
        r == !(protocol is HalfBlock),
{
    protocol != GraphicsProtocol::HalfBlock
}

/// The escape that moves the cursor right over `n` cells.
pub open spec fn skip(n: u32) -> Seq<char> {
    "\x1B["@ + text::dec(n as nat) + "C"@
}

fn push_skip(s: &mut String, n: u32)
    ensures
        final(s)@ == old(s)@ + skip(n),
{
    let ghost start = s@;
    s.push_str("\x1B[");
    push_dec(s, n as u64);
    s.push_str("C");
    assert(s@ =~= start + skip(n));
}

/// The escape that moves the cursor right over `n` cells.
fn skip_string(n: u32) -> (s: String)
    ensures
        s@ == skip(n),
{
    let mut s: String = String::new();
    push_skip(&mut s, n);
    assert(s@ =~= skip(n));
    s
}

/// Whether `lines` is `first`, and then `rest` up to `rows` lines in all.
pub open spec fn is_block(lines: Seq<String>, first: Seq<char>, rest: Seq<char>, rows: u32) -> bool {
    &&& lines.len() == (if rows == 0 {
        1int
    } else {
        rows as int
    })
    &&& lines[0]@ == first
    &&& forall|i: int| 1 <= i < lines.len() ==> (#[trigger] lines[i])@ == rest
}

fn block_of(first: String, rest: &String, rows: u32) -> (lines: Vec<String>)
    ensures
        is_block(lines@, first@, rest@, rows),
{
    let ghost f = first@;
    let mut lines: Vec<String> = Vec::new();
    lines.push(first);
    let mut i: u32 = 1;
    while i < rows
        invariant
            1 <= i,
            i <= rows || i == 1,
            lines@.len() == i,
            lines@[0]@ == f,
            forall|k: int| 1 <= k < lines@.len() ==> (#[trigger] lines@[k])@ == rest@,
        decreases rows - i,
    {
        lines.push(rest.clone());
        i = i + 1;
    }
    lines
}

/// `n` copies of a line.
fn same_lines(line: &String, n: u32) -> (lines: Vec<String>)
    ensures
        lines@.len() == n,
        forall|i: int| 0 <= i < lines@.len() ==> (#[trigger] lines@[i])@ == line@,
{
    let mut lines: Vec<String> = Vec::new();
    let mut i: u32 = 0;
    while i < n
        invariant
            i <= n,
            lines@.len() == i,
            forall|k: int| 0 <= k < lines@.len() ==> (#[trigger] lines@[k])@ == line@,
        decreases n - i,
    {
        lines.push(line.clone());
        i = i + 1;
    }
    lines
}

/// Lines that step past an image already on the screen without drawing over it.
pub fn passive_lines(size: CoverSize) -> (lines: Vec<String>)
    ensures
        lines@.len() == size.rows,
        forall|i: int| 0 <= i < lines@.len() ==> (#[trigger] lines@[i])@ == skip(size.cols),
{
    same_lines(&skip_string(size.cols), size.rows)
}

/// Black cells that fill the slot while there is no cover.
pub fn placeholder_lines(size: CoverSize) -> (lines: Vec<String>)
    ensures
        lines@.len() == size.rows,
        forall|i: int|
            0 <= i < lines@.len() ==> (#[trigger] lines@[i])@ == "\x1B[48;2;0;0;0m"@ + text::rep(
                ' ',
                size.cols as nat,
            ) + "\x1B[0m"@,
{
    let mut line: String = "\x1B[48;2;0;0;0m".to_owned();
    push_rep(&mut line, ' ', size.cols as usize);
    line.push_str("\x1B[0m");
    same_lines(&line, size.rows)
}

/// The escape that takes the cover image off the screen. Harmless where there is
/// none.
pub fn kitty_clear_escape() -> (r: String)
    ensures
        r@ == "\x1B_Ga=d,d=i,i=1,q=2\x1B\\"@,
{
    "\x1B_Ga=d,d=i,i=1,q=2\x1B\\".to_owned()
}

/// The escape that takes the visualiser's image off the screen. Harmless where
/// there is none.
pub fn viz_image_clear_escape() -> (r: String)
    ensures
        r@ == "\x1B_Ga=d,d=i,i=2,q=2\x1B\\"@,
{
    "\x1B_Ga=d,d=i,i=2,q=2\x1B\\".to_owned()
}

/// Blank lines over the slot; under Kitty's protocol the first also takes an
/// image of the track before off the screen.
pub fn empty_slot_lines(protocol: GraphicsProtocol, size: CoverSize) -> (lines: Vec<String>)
    ensures
        is_block(
            lines@,
            (if protocol is Kitty {
                "\x1B_Ga=d,d=i,i=1,q=2\x1B\\"@
            } else {
                Seq::empty()
            }) + text::rep(' ', size.cols as nat),
            text::rep(' ', size.cols as nat),
            size.rows,
        ),
{
    let blank: String = repeat_char(' ', size.cols as usize);
    let mut first: String = String::new();
    if protocol == GraphicsProtocol::Kitty {
        first = kitty_clear_escape();
    }
    first.push_str(blank.as_str());
    block_of(first, &blank, size.rows)
}

/// Characters that a file's name cannot hold on every system.
pub open spec fn unsafe_in_name(c: char) -> bool {
    c == '/' || c == '\\' || c == ':' || c == '*' || c == '?' || c == '"' || c == '<' || c == '>' || c
        == '|' || c == '\0'
}

/// Where `s[..n]` ends without the dots and spaces at its end.
pub open spec fn dots_end(s: Seq<char>, n: int) -> int
    decreases n,
{
    if n > 0 && (s[n - 1] == '.' || s[n - 1] == ' ') {
        dots_end(s, n - 1)
    } else {
        n
    }
}

/// `s` as a part of a file's name: unsafe characters replaced, and neither dots
/// and spaces at the end nor white space at either end.
pub open spec fn fs_safe(s: Seq<char>) -> Seq<char> {
    let m = s.map_values(
        |c: char|
            if unsafe_in_name(c) {
                '_'
            } else {
                c
            },
    );
    let e = text::white_end(m, dots_end(m, m.len() as int));
    m.subrange(text::white_start(m, 0, e), e)
}

/// Makes a text fit to be a part of a file's name.
pub fn sanitize_fs(s: &str) -> (r: String)
    ensures
        r@ == fs_safe(s@),
{
    let chars: Vec<char> = chars_of(s);
    let ghost m = s@.map_values(
        |c: char|
            if unsafe_in_name(c) {
                '_'
            } else {
                c
            },
    );
    let mut v: Vec<char> = Vec::new();
    let mut i: usize = 0;
    while i < chars.len()
        invariant
            chars@ == s@,
            i <= chars@.len(),
            m == s@.map_values(
                |c: char|
                    if unsafe_in_name(c) {
                        '_'
                    } else {
                        c
                    },
            ),
            v@ == m.take(i as int),
        decreases chars@.len() - i,
    {
        let c: char = chars[i];
        let bad: bool = c == '/' || c == '\\' || c == ':' || c == '*' || c == '?' || c == '"' || c == '<'
            || c == '>' || c == '|' || c == '\0';
        v.push(
            if bad {
                '_'
            } else {
                c
            },
        );
        i = i + 1;
        assert(v@ =~= m.take(i as int));
    }
    assert(v@ =~= m);
    let mut n: usize = v.len();
    while n > 0 && (v[n - 1] == '.' || v[n - 1] == ' ')
        invariant
            v@ == m,
            n <= v@.len(),
            dots_end(m, n as int) == dots_end(m, m.len() as int),
        decreases n,
    {
        n = n - 1;
    }
    let ghost d = n as int;
    while n > 0 && white_char(v[n - 1])
        invariant
            v@ == m,
            n <= v@.len(),
            text::white_end(m, n as int) == text::white_end(m, d),
        decreases n,
    {
        n = n - 1;
    }
    let mut k: usize = 0;
    while k < n && white_char(v[k])
        invariant
            v@ == m,
            k <= n <= v@.len(),
            text::white_start(m, k as int, n as int) == text::white_start(m, 0, n as int),
        decreases n - k,
    {
        k = k + 1;
    }
    string_of(&v, k, n)
}

/// The name under which a fetched cover is kept, where both tags say something.
pub open spec fn cache_name(artist: Option<&str>, album: Option<&str>) -> Option<Seq<char>> {
    match (artist, album) {
        (Some(a), Some(b)) => {
            let x = fs_safe(a@);
            let y = fs_safe(b@);
            if x.len() == 0 || y.len() == 0 {
                None
            } else {
                Some(x + " - "@ + y + ".cover.jpg"@)
            }
        },
        _ => None,
    }
}

fn cache_name_for(artist: Option<&str>, album: Option<&str>) -> (r: Option<String>)
    ensures
        path::opt_text(r) == cache_name(artist, album),
{
    match artist {
        Some(a) => match album {
            Some(b) => {
                let x: String = sanitize_fs(a);
                let y: String = sanitize_fs(b);
                if x.as_str().is_empty() || y.as_str().is_empty() {
                    return None;
                }
                let mut s: String = x;
                s.push_str(" - ");
                s.push_str(y.as_str());
                s.push_str(".cover.jpg");
                Some(s)
            },
            None => None,
        },
        None => None,
    }
}

/// A name put behind a folder, where there are both.
pub open spec fn placed(dir: Option<Seq<char>>, name: Option<Seq<char>>) -> Option<Seq<char>> {
    match (dir, name) {
        (Some(d), Some(n)) => Some(path::joined(d, n)),
        _ => None,
    }
}

/// Where a fetched cover is kept: under `covers` in the configuration's folder,
/// never beside the music.
pub fn cache_path_for(config_dir: Option<&str>, artist: Option<&str>, album: Option<&str>) -> (r: Option<
    String,
>)
    ensures
        path::opt_text(r) == placed(
            (match config_dir {
                Some(d) => Some(path::joined(d@, "covers"@)),
                None => None,
            }),
            cache_name(artist, album),
        ),
{
    match cache_name_for(artist, album) {
        Some(name) => match config_dir {
            Some(d) => {
                let dir: String = path::join(d, "covers");
                Some(path::join(dir.as_str(), name.as_str()))
            },
            None => None,
        },
        None => None,
    }
}

/// Where covers used to be kept: beside the track. Still read, never written.
pub fn legacy_cache_path_for(track_path: &str, artist: Option<&str>, album: Option<&str>) -> (r: Option<
    String,
>)
    ensures
        path::opt_text(r) == placed(path::folder_of(track_path@), cache_name(artist, album)),
{
    match path::parent(track_path) {
        Some(dir) => match cache_name_for(artist, album) {
            Some(name) => Some(path::join(dir.as_str(), name.as_str())),
            None => None,
        },
        None => None,
    }
}

/// The character of base64 that stands for `n`.
pub open spec fn b64_char(n: int) -> char {
    if n < 26 {
        (65 + n) as u8 as char
    } else if n < 52 {
        (71 + n) as u8 as char
    } else if n < 62 {
        (n - 4) as u8 as char
    } else if n == 62 {
        '+'
    } else {
        '/'
    }
}

/// The four characters of three bytes.
pub open spec fn b64_three(a: u8, b: u8, c: u8) -> Seq<char> {
    seq![
        b64_char(a as int / 4),
        b64_char((a as int % 4) * 16 + b as int / 16),
        b64_char((b as int % 16) * 4 + c as int / 64),
        b64_char(c as int % 64),
    ]
}

/// The base64 of `s[i..]`, padded with `=`.
pub open spec fn base64_from(s: Seq<u8>, i: int) -> Seq<char>
    decreases s.len() - i,
{
    if i + 3 <= s.len() {
        b64_three(s[i], s[i + 1], s[i + 2]) + base64_from(s, i + 3)
    } else if i + 2 == s.len() {
        seq![
            b64_char(s[i] as int / 4),
            b64_char((s[i] as int % 4) * 16 + s[i + 1] as int / 16),
            b64_char((s[i + 1] as int % 16) * 4),
            '=',
        ]
    } else if i + 1 == s.len() {
        seq![b64_char(s[i] as int / 4), b64_char((s[i] as int % 4) * 16), '=', '=']
    } else {
        Seq::empty()
    }
}

/// The base64 of some bytes.
pub open spec fn base64(s: Seq<u8>) -> Seq<char> {
    base64_from(s, 0)
}

fn b64(n: u8) -> (c: char)
    requires
        n < 64,
    ensures
        c == b64_char(n as int),
{
    if n < 26 {
        (65 + n) as char
    } else if n < 52 {
        (71 + n) as char
    } else if n < 62 {
        (n - 4) as char
    } else if n == 62 {
        '+'
    } else {
        '/'
    }
}

/// Writes bytes in base64.
pub fn base64_encode(bytes: &[u8]) -> (out: String)
    ensures
        out@ == base64(bytes@),
{
    let mut out: String = String::new();
    let mut i: usize = 0;
    let len: usize = bytes.len();
    assert(out@ + base64_from(bytes@, 0) =~= base64(bytes@));
    while len - i >= 3
        invariant
            len == bytes@.len(),
            i <= len,
            out@ + base64_from(bytes@, i as int) == base64(bytes@),
        decreases len - i,
    {
        let b0: u8 = bytes[i];
        let b1: u8 = bytes[i + 1];
        let b2: u8 = bytes[i + 2];
        let ghost prev = out@;
        out.push(b64(b0 / 4));
        out.push(b64((b0 % 4) * 16 + b1 / 16));
        out.push(b64((b1 % 16) * 4 + b2 / 64));
        out.push(b64(b2 % 64));
        assert(out@ =~= prev + b64_three(b0, b1, b2));
        assert(out@ + base64_from(bytes@, i + 3) =~= prev + base64_from(bytes@, i as int));
        i = i + 3;
    }
    let ghost prev = out@;
    if len - i == 1 {
        let b0: u8 = bytes[i];
        out.push(b64(b0 / 4));
        out.push(b64((b0 % 4) * 16));
        out.push('=');
        out.push('=');
    } else if len - i == 2 {
        let b0: u8 = bytes[i];
        let b1: u8 = bytes[i + 1];
        out.push(b64(b0 / 4));
        out.push(b64((b0 % 4) * 16 + b1 / 16));
        out.push(b64((b1 % 16) * 4));
        out.push('=');
    }
    assert(out@ =~= prev + base64_from(bytes@, i as int));
    out
}

/// The sequences of a Kitty transmission from `pos` on. The first names what is
/// to be done with the image; each says whether more follow.
pub open spec fn kitty_chunks(payload: Seq<char>, pos: int, head: Seq<char>) -> Seq<char>
    decreases payload.len() - pos,
{
    if pos >= payload.len() {
        Seq::empty()
    } else {
        let end = text::least(pos + KITTY_CHUNK, payload.len() as int);
        "\x1B_G"@ + (if pos == 0 {
            head
        } else {
            Seq::empty()
        }) + (if end == payload.len() {
            "m=0;"@
        } else {
            "m=1;"@
        }) + payload.subrange(pos, end) + "\x1B\\"@ + kitty_chunks(payload, end, head)
    }
}

fn kitty_sequences(payload: &str, head: &str) -> (out: String)
    ensures
        out@ == kitty_chunks(payload@, 0, head@),
{
    let chars: Vec<char> = chars_of(payload);
    let total: usize = chars.len();
    let mut out: String = String::new();
    let mut pos: usize = 0;
    assert(out@ + kitty_chunks(payload@, 0, head@) =~= kitty_chunks(payload@, 0, head@));
    while pos < total
        invariant
            chars@ == payload@,
            total == chars@.len(),
            pos <= total,
            out@ + kitty_chunks(payload@, pos as int, head@) == kitty_chunks(payload@, 0, head@),
        decreases total - pos,
    {
        let end: usize = if total - pos > KITTY_CHUNK {
            pos + KITTY_CHUNK
        } else {
            total
        };
        let ghost prev = out@;
        let piece: String = string_of(&chars, pos, end);
        out.push_str("\x1B_G");
        if pos == 0 {
            out.push_str(head);
        } else {
            assert(out@ + Seq::<char>::empty() =~= out@);
        }
        if end == total {
            out.push_str("m=0;");
        } else {
            out.push_str("m=1;");
        }
        out.push_str(piece.as_str());
        out.push_str("\x1B\\");
        assert(out@ + kitty_chunks(payload@, end as int, head@) =~= prev + kitty_chunks(
            payload@,
            pos as int,
            head@,
        ));
        pos = end;
    }
    assert(out@ + kitty_chunks(payload@, pos as int, head@) =~= out@);
    out
}

/// What a cover's transmission asks for: transmit and display a PNG under the
/// cover's number, in the cells of its slot, without moving the cursor and
/// without an answer.
pub open spec fn cover_head(size: CoverSize) -> Seq<char> {
    "a=T,f=100,i=1,c="@ + text::dec(size.cols as nat) + ",r="@ + text::dec(size.rows as nat)
        + ",C=1,q=2,"@
}

/// What the visualiser's transmission asks for. One placement, which the next
/// frame replaces.
pub open spec fn viz_head(cols: u32, rows: u32) -> Seq<char> {
    "a=T,f=100,i=2,p=1,c="@ + text::dec(cols as nat) + ",r="@ + text::dec(rows as nat) + ",C=1,q=2,"@
}

/// The sequences that transmit a cover.
pub fn kitty_transmit(png: &[u8], size: CoverSize) -> (r: String)
    ensures
        r@ == kitty_chunks(base64(png@), 0, cover_head(size)),
{
    let mut head: String = "a=T,f=100,i=1,c=".to_owned();
    push_dec(&mut head, size.cols as u64);
    head.push_str(",r=");
    push_dec(&mut head, size.rows as u64);
    head.push_str(",C=1,q=2,");
    let payload: String = base64_encode(png);
    kitty_sequences(payload.as_str(), head.as_str())
}

fn render_kitty(png: &[u8], size: CoverSize) -> (lines: Vec<String>)
    ensures
        is_block(
            lines@,
            kitty_chunks(base64(png@), 0, cover_head(size)) + text::rep(' ', size.cols as nat),
            text::rep(' ', size.cols as nat),
            size.rows,
        ),
{
    let blank: String = repeat_char(' ', size.cols as usize);
    let mut first: String = kitty_transmit(png, size);
    first.push_str(blank.as_str());
    block_of(first, &blank, size.rows)
}

/// The lines of a visualiser image under Kitty's protocol: the transmission and
/// blanks, then blanks that the image overlays.
pub fn viz_kitty_lines(png: &[u8], cols: u32, rows: u32) -> (lines: Vec<String>)
    ensures
        is_block(
            lines@,
            kitty_chunks(base64(png@), 0, viz_head(cols, rows)) + text::rep(' ', cols as nat),
            text::rep(' ', cols as nat),
            rows,
        ),
{
    let mut head: String = "a=T,f=100,i=2,p=1,c=".to_owned();
    push_dec(&mut head, cols as u64);
    head.push_str(",r=");
    push_dec(&mut head, rows as u64);
    head.push_str(",C=1,q=2,");
    let payload: String = base64_encode(png);
    let blank: String = repeat_char(' ', cols as usize);
    let mut first: String = kitty_sequences(payload.as_str(), head.as_str());
    first.push_str(blank.as_str());
    block_of(first, &blank, rows)
}

/// An inline image of iTerm2: the cursor is saved, the image sent, the cursor
/// restored and moved past the image.
pub open spec fn inline_image(png: Seq<u8>, cols: u32, rows: u32) -> Seq<char> {
    "\x1B[s\x1B]1337;File=size="@ + text::dec(png.len()) + ";width="@ + text::dec(cols as nat) + ";height="@
        + text::dec(rows as nat) + ";inline=1;preserveAspectRatio=1:"@ + base64(png) + "\x07\x1B[u"@ + skip(cols)
}

/// The lines of an image under iTerm2's protocol.
pub fn viz_iterm2_lines(png: &[u8], cols: u32, rows: u32) -> (lines: Vec<String>)
    ensures
        is_block(lines@, inline_image(png@, cols, rows), skip(cols), rows),
{
    let payload: String = base64_encode(png);
    let mut first: String = "\x1B[s\x1B]1337;File=size=".to_owned();
    push_dec(&mut first, png.len() as u64);
    first.push_str(";width=");
    push_dec(&mut first, cols as u64);
    first.push_str(";height=");
    push_dec(&mut first, rows as u64);
    first.push_str(";inline=1;preserveAspectRatio=1:");
    first.push_str(payload.as_str());
    first.push_str("\x07\x1B[u");
    push_skip(&mut first, cols);
    block_of(first, &skip_string(cols), rows)
}

/// A Sixel image that is placed once: the cursor is saved, the data sent, the
/// cursor restored and moved past the image.
pub open spec fn sixel_cover(data: Seq<char>, cols: u32) -> Seq<char> {
    "\x1B[s"@ + data + "\x1B[u"@ + skip(cols)
}

fn render_sixel(data: &str, size: CoverSize) -> (lines: Vec<String>)
    ensures
        is_block(lines@, sixel_cover(data@, size.cols), skip(size.cols), size.rows),
{
    let mut first: String = "\x1B[s".to_owned();
    first.push_str(data);
    first.push_str("\x1B[u");
    push_skip(&mut first, size.cols);
    block_of(first, &skip_string(size.cols), size.rows)
}

/// `n` rows erased one below the other.
pub open spec fn erase_rows(n: int) -> Seq<char>
    decreases n,
{
    if n <= 0 {
        Seq::empty()
    } else {
        erase_rows(n - 1) + "\x1B[2K\x1B[B"@
    }
}

/// A Sixel image that is redrawn: all its rows are erased before it is painted,
/// because nothing else erases them.
pub open spec fn sixel_frame(data: Seq<char>, cols: u32, rows: u32) -> Seq<char> {
    "\x1B[s"@ + erase_rows(rows as int) + "\x1B[u"@ + data + "\x1B[u"@ + skip(cols)
}

/// The lines of a redrawn Sixel image. The first erases and paints the whole
/// block; the others only step past it, as an erase would cut the image.
pub fn viz_sixel_lines(data: &str, cols: u32, rows: u32) -> (lines: Vec<String>)
    ensures
        is_block(lines@, sixel_frame(data@, cols, rows), skip(cols), rows),
{
    let mut first: String = "\x1B[s".to_owned();
    let mut i: u32 = 0;
    assert("\x1B[s"@ + erase_rows(0) =~= "\x1B[s"@);
    while i < rows
        invariant
            i <= rows,
            first@ == "\x1B[s"@ + erase_rows(i as int),
        decreases rows - i,
    {
        first.push_str("\x1B[2K\x1B[B");
        i = i + 1;
        assert(first@ =~= "\x1B[s"@ + erase_rows(i as int));
    }
    first.push_str("\x1B[u");
    first.push_str(data);
    first.push_str("\x1B[u");
    push_skip(&mut first, cols);
    block_of(first, &skip_string(cols), rows)
}

/// One pixel.
pub open spec fn pixel(pixels: Seq<u8>, w: int, x: int, y: int) -> (u8, u8, u8) {
    let i = (y * w + x) * 3;
    (pixels[i], pixels[i + 1], pixels[i + 2])
}

/// The escape that sets a colour: 38 for the foreground, 48 for the background.
pub open spec fn paint(layer: Seq<char>, c: (u8, u8, u8)) -> Seq<char> {
    "\x1B["@ + layer + ";2;"@ + text::dec(c.0 as nat) + ";"@ + text::dec(c.1 as nat) + ";"@ + text::dec(
        c.2 as nat,
    ) + "m"@
}

/// The first `n` cells of the row of cells over the pixel rows `y` and `y + 1`. A
/// colour is set where it differs from that of the cell before. Below the last
/// pixel row there is no background.
pub open spec fn half_cells(pixels: Seq<u8>, w: int, h: int, y: int, n: int) -> Seq<char>
    decreases n,
{
    if n <= 0 {
        Seq::empty()
    } else {
        let x = n - 1;
        let top = pixel(pixels, w, x, y);
        let bottom = pixel(pixels, w, x, y + 1);
        (half_cells(pixels, w, h, y, n - 1) + (if x == 0 || top != pixel(pixels, w, x - 1, y) {
            paint("38"@, top)
        } else {
            Seq::empty()
        }) + (if y + 1 < h && (x == 0 || bottom != pixel(pixels, w, x - 1, y + 1)) {
            paint("48"@, bottom)
        } else {
            Seq::empty()
        })).push('▀')
    }
}

/// The line over the pixel rows `y` and `y + 1`.
pub open spec fn half_line(pixels: Seq<u8>, w: int, h: int, y: int) -> Seq<char> {
    half_cells(pixels, w, h, y, w) + "\x1B[0m"@
}

fn push_paint(s: &mut String, layer: &str, c: (u8, u8, u8))
    ensures
        final(s)@ == old(s)@ + paint(layer@, c),
{
    let ghost start = s@;
    s.push_str("\x1B[");
    s.push_str(layer);
    s.push_str(";2;");
    push_dec(s, c.0 as u64);
    s.push_str(";");
    push_dec(s, c.1 as u64);
    s.push_str(";");
    push_dec(s, c.2 as u64);
    s.push_str("m");
    assert(s@ =~= start + paint(layer@, c));
}

fn pixel_at(pixels: &[u8], w: usize, h: usize, x: usize, y: usize) -> (r: (u8, u8, u8))
    requires
        x < w,
        y < h,
        w * h * 3 <= pixels@.len(),
    ensures
        r == pixel(pixels@, w as int, x as int, y as int),
{
    let len: usize = pixels.len();
    assert(y * w + w <= w * h) by (nonlinear_arith)
        requires
            y < h,
    ;
    assert(0 <= y * w) by (nonlinear_arith);
    assert((y * w + x) * 3 + 2 < w * h * 3);
    let i: usize = (y * w + x) * 3;
    (pixels[i], pixels[i + 1], pixels[i + 2])
}

/// Draws pixels with half blocks, two pixel rows to a line.
pub fn render_half_block(width: u32, height: u32, pixels: &[u8]) -> (lines: Vec<String>)
    requires
        width * height * 3 <= pixels@.len(),
        height < u32::MAX,
    ensures
        lines@.len() == (height + 1) / 2,
        forall|k: int|
            0 <= k < lines@.len() ==> (#[trigger] lines@[k])@ == half_line(
                pixels@,
                width as int,
                height as int,
                2 * k,
            ),
{
    let w: usize = width as usize;
    let h: usize = height as usize;
    let mut lines: Vec<String> = Vec::new();
    let mut y: usize = 0;
    while y < h
        invariant
            w == width,
            h == height,
            h < u32::MAX,
            w * h * 3 <= pixels@.len(),
            y <= h + 1,
            y == 2 * lines@.len(),
            forall|k: int|
                0 <= k < lines@.len() ==> (#[trigger] lines@[k])@ == half_line(
                    pixels@,
                    w as int,
                    h as int,
                    2 * k,
                ),
        decreases h + 1 - y,
    {
        let mut line: String = String::new();
        let mut x: usize = 0;
        assert(line@ =~= half_cells(pixels@, w as int, h as int, y as int, 0));
        while x < w
            invariant
                h < u32::MAX,
                w * h * 3 <= pixels@.len(),
                y < h,
                x <= w,
                line@ == half_cells(pixels@, w as int, h as int, y as int, x as int),
            decreases w - x,
        {
            let top: (u8, u8, u8) = pixel_at(pixels, w, h, x, y);
            if x == 0 {
                push_paint(&mut line, "38", top);
            } else {
                let left: (u8, u8, u8) = pixel_at(pixels, w, h, x - 1, y);
                if top.0 != left.0 || top.1 != left.1 || top.2 != left.2 {
                    push_paint(&mut line, "38", top);
                } else {
                    assert(line@ + Seq::<char>::empty() =~= line@);
                }
            }
            if y + 1 < h {
                let bottom: (u8, u8, u8) = pixel_at(pixels, w, h, x, y + 1);
                if x == 0 {
                    push_paint(&mut line, "48", bottom);
                } else {
                    let left: (u8, u8, u8) = pixel_at(pixels, w, h, x - 1, y + 1);
                    if bottom.0 != left.0 || bottom.1 != left.1 || bottom.2 != left.2 {
                        push_paint(&mut line, "48", bottom);
                    } else {
                        assert(line@ + Seq::<char>::empty() =~= line@);
                    }
                }
            } else {
                assert(line@ + Seq::<char>::empty() =~= line@);
            }
            line.push('▀');
            x = x + 1;
        }
        line.push_str("\x1B[0m");
        lines.push(line);
        y = y + 2;
    }
    lines
}

/// Draws any pixels with half blocks.
pub fn render_half_block_public(width: u32, height: u32, pixels: &[u8]) -> (lines: Vec<String>)
    requires
        width * height * 3 <= pixels@.len(),
        height < u32::MAX,
    ensures
        lines@.len() == (height + 1) / 2,
        forall|k: int|
            0 <= k < lines@.len() ==> (#[trigger] lines@[k])@ == half_line(
                pixels@,
                width as int,
                height as int,
                2 * k,
            ),
{
    render_half_block(width, height, pixels)
}

/// `first`, and then `rest` up to `rows` lines in all.
pub open spec fn block(first: Seq<char>, rest: Seq<char>, rows: u32) -> Seq<Seq<char>> {
    Seq::new(
        text::most(rows as int, 1) as nat,
        |i: int|
            if i == 0 {
                first
            } else {
                rest
            },
    )
}

/// The lines of a cover, one for each row of its slot.
pub open spec fn drawn(img: CoverImage) -> Seq<Seq<char>> {
    match img {
        CoverImage::HalfBlock { width, height, pixels, size } => Seq::new(
            ((height + 1) / 2) as nat,
            |k: int| half_line(pixels@, width as int, height as int, 2 * k),
        ),
        CoverImage::Kitty { png, size } => block(
            kitty_chunks(base64(png@), 0, cover_head(size)) + text::rep(' ', size.cols as nat),
            text::rep(' ', size.cols as nat),
            size.rows,
        ),
        CoverImage::Iterm2 { png, size } => block(
            inline_image(png@, size.cols, size.rows),
            skip(size.cols),
            size.rows,
        ),
        CoverImage::Sixel { data, size } => block(sixel_cover(data@, size.cols), skip(size.cols), size.rows),
    }
}

/// Whether the pixels of a cover are all there.
pub open spec fn is_whole(img: CoverImage) -> bool {
    img matches CoverImage::HalfBlock { width, height, pixels, size } ==> width * height * 3 <= pixels@.len()
        && height < u32::MAX
}

/// Draws a cover: a line for each row of its slot.
pub fn render(img: &CoverImage) -> (lines: Vec<String>)
    requires
        is_whole(*img),
    ensures
        text::texts(lines@) == drawn(*img),
{
    let lines: Vec<String> = match img {
        CoverImage::HalfBlock { width, height, pixels, .. } => render_half_block(
            *width,
            *height,
            pixels.as_slice(),
        ),
        CoverImage::Kitty { png, size } => render_kitty(png.as_slice(), *size),
        CoverImage::Iterm2 { png, size } => viz_iterm2_lines(png.as_slice(), size.cols, size.rows),
        CoverImage::Sixel { data, size } => render_sixel(data.as_str(), *size),
    };
    assert(text::texts(lines@) =~= drawn(*img));
    lines
}

/// The cell size as it is stored: width and height in one number, 0 for none.
pub open spec fn packed_metrics(m: Option<(u16, u16)>) -> u32 {
    match m {
        Some((w, h)) => ((w as u32) << 8u32) | (h as u32),
        None => 0,
    }
}

/// The cell size that a stored number stands for.
pub open spec fn metrics_in(packed: u32) -> Option<(u16, u16)> {
    if packed == 0 {
        None
    } else {
        Some(((packed >> 8u32) as u16, (packed & 0xff) as u16))
    }
}

/// Stores the terminal's cell size in pixels; none is stored as 0. A resize stores
/// none, because an image drawn for smaller cells would overflow its block.
pub fn set_cell_metrics(m: Option<(u16, u16)>) -> (packed: u32)
    ensures
        packed == packed_metrics(m),
{
    match m {
        Some((w, h)) => ((w as u32) << 8u32) | (h as u32),
        None => 0,
    }
}

/// The stored cell size in pixels, if there is one.
pub fn cell_metrics(packed: u32) -> (r: Option<(u16, u16)>)
    ensures
        r == metrics_in(packed),
{
    if packed == 0 {
        None
    } else {
        Some(((packed >> 8u32) as u16, (packed & 0xff) as u16))
    }
}

/// A cell size of a sane height is read back as it was stored.
pub proof fn cell_metrics_read_back(w: u16, h: u16)
    requires
        h < 256,
        w != 0 || h != 0,
    ensures
        metrics_in(packed_metrics(Some((w, h)))) == Some((w, h)),
        metrics_in(packed_metrics(None)) is None,
{
    let p = ((w as u32) << 8u32) | (h as u32);
    assert((((w as u32) << 8u32) | (h as u32)) != 0 && (((((w as u32) << 8u32) | (h as u32)) >> 8u32) as u16)
        == w && (((((w as u32) << 8u32) | (h as u32)) & 0xff) as u16) == h) by (bit_vector)
        requires
            h < 256,
            w != 0 || h != 0,
    ;
}

/// A cell size within sane bounds.
pub open spec fn sane_metrics(w: u32, h: u32) -> Option<(u16, u16)> {
    if 4 <= w <= 64 && 8 <= h <= 128 {
        Some((w as u16, h as u16))
    } else {
        None
    }
}

/// The numbers of a report whose text stands between `ESC [` and `t`: all of
/// them, where there are three.
pub open spec fn report_numbers(body: Seq<char>) -> Option<(u32, u32, u32)> {
    let parts = text::split_from(body, ';', 0);
    if parts.len() == 3 && text::u32_in(parts[0]) is Some && text::u32_in(parts[1]) is Some
        && text::u32_in(parts[2]) is Some {
        Some((text::u32_in(parts[0])->0, text::u32_in(parts[1])->0, text::u32_in(parts[2])->0))
    } else {
        None
    }
}

/// The report that starts at `i`, if one does: its three numbers.
pub open spec fn report_at(buf: Seq<char>, i: int) -> Option<(u32, u32, u32)> {
    if i + 1 < buf.len() && buf[i] == '\x1B' && buf[i + 1] == '[' {
        let e = text::find_from(buf, 't', i + 2);
        if e < buf.len() {
            report_numbers(buf.subrange(i + 2, e))
        } else {
            None
        }
    } else {
        None
    }
}

/// The cell size that `buf[i..]` reports, where `area` is what an earlier report
/// of the text area gave. A report of the cell itself (6) wins; the first report
/// of the text area (4) is divided by the grid.
pub open spec fn metrics_from(buf: Seq<char>, cols: u16, rows: u16, i: int, area: Option<(u16, u16)>) -> Option<
    (u16, u16),
>
    decreases buf.len() - i,
{
    if i >= buf.len() {
        area
    } else {
        match report_at(buf, i) {
            Some((6, h, w)) => if sane_metrics(w, h) is Some {
                sane_metrics(w, h)
            } else {
                metrics_from(buf, cols, rows, i + 1, area)
            },
            Some((4, h, w)) => if area is None && cols > 0 && rows > 0 {
                metrics_from(
                    buf,
                    cols,
                    rows,
                    i + 1,
                    sane_metrics((w / (cols as u32)) as u32, (h / (rows as u32)) as u32),
                )
            } else {
                metrics_from(buf, cols, rows, i + 1, area)
            },
            _ => metrics_from(buf, cols, rows, i + 1, area),
        }
    }
}

fn sane(w: u32, h: u32) -> (r: Option<(u16, u16)>)
    ensures
        r == sane_metrics(w, h),
{
    if 4 <= w && w <= 64 && 8 <= h && h <= 128 {
        Some((w as u16, h as u16))
    } else {
        None
    }
}

fn read_report(chars: &Vec<char>, i: usize) -> (r: Option<(u32, u32, u32)>)
    requires
        i < chars@.len(),
    ensures
        r == report_at(chars@, i as int),
{
    if chars.len() - i < 2 || chars[i] != '\x1B' || chars[i + 1] != '[' {
        return None;
    }
    let e: usize = text::find_char(chars, 't', i + 2);
    if e >= chars.len() {
        return None;
    }
    let body: String = string_of(chars, i + 2, e);
    let parts: Vec<String> = text::split_text(body.as_str(), ';');
    let ghost views = text::texts(parts@);
    if parts.len() != 3 {
        return None;
    }
    assert(views[0] == parts@[0]@ && views[1] == parts@[1]@ && views[2] == parts@[2]@);
    match text::parse_u32(parts[0].as_str()) {
        Some(a) => match text::parse_u32(parts[1].as_str()) {
            Some(b) => match text::parse_u32(parts[2].as_str()) {
                Some(c) => Some((a, b, c)),
                None => None,
            },
            None => None,
        },
        None => None,
    }
}

/// Reads the cell size out of a terminal's answers, which may stand among other
/// input. `ESC [ 6 ; h ; w t` gives it outright; `ESC [ 4 ; h ; w t` gives the
/// text area, which is divided by the grid. A size outside sane bounds counts as
/// none.
pub fn parse_cell_metrics_reply(buf: &str, term_cols: u16, term_rows: u16) -> (r: Option<(u16, u16)>)
    ensures
        r == metrics_from(buf@, term_cols, term_rows, 0, None),
{
    let chars: Vec<char> = chars_of(buf);
    let mut area: Option<(u16, u16)> = None;
    let mut i: usize = 0;
    while i < chars.len()
        invariant
            chars@ == buf@,
            i <= chars@.len(),
            metrics_from(buf@, term_cols, term_rows, i as int, area) == metrics_from(
                buf@,
                term_cols,
                term_rows,
                0,
                None,
            ),
        decreases chars@.len() - i,
    {
        if let Some((kind, h, w)) = read_report(&chars, i) {
            if kind == 6 {
                let m: Option<(u16, u16)> = sane(w, h);
                if m.is_some() {
                    return m;
                }
            } else if kind == 4 && area.is_none() && term_cols > 0 && term_rows > 0 {
                area = sane(w / (term_cols as u32), h / (term_rows as u32));
            }
        }
        i = i + 1;
    }
    area
}

/// Whatever is read, a cell size is within sane bounds.
pub proof fn metrics_are_sane(buf: Seq<char>, cols: u16, rows: u16, i: int, area: Option<(u16, u16)>)
    requires
        area matches Some((w, h)) ==> 4 <= w <= 64 && 8 <= h <= 128,
    ensures
        metrics_from(buf, cols, rows, i, area) matches Some((w, h)) ==> 4 <= w <= 64 && 8 <= h <= 128,
    decreases buf.len() - i,
{
    if i < buf.len() {
        metrics_are_sane(buf, cols, rows, i + 1, area);
        if let Some((n, h, w)) = report_at(buf, i) {
            if cols > 0 && rows > 0 {
                metrics_are_sane(
                    buf,
                    cols,
                    rows,
                    i + 1,
                    sane_metrics((w / (cols as u32)) as u32, (h / (rows as u32)) as u32),
                );
            }
        }
    }
}

/// The definitions of the first `n` colours, in per cent.
pub open spec fn sixel_colors(palette: Seq<(u8, u8, u8)>, n: int) -> Seq<char>
    decreases n,
{
    if n <= 0 {
        Seq::empty()
    } else {
        let c = palette[n - 1];
        sixel_colors(palette, n - 1) + ("#"@ + text::dec((n - 1) as nat) + ";2;"@ + text::dec(
            (c.0 as nat * 100) / 255,
        ) + ";"@ + text::dec((c.1 as nat * 100) / 255) + ";"@ + text::dec((c.2 as nat * 100) / 255))
    }
}

/// What the `k`-th row of a band weighs in a sixel.
pub open spec fn sixel_weight(k: int) -> int {
    if k <= 0 {
        1
    } else if k == 1 {
        2
    } else if k == 2 {
        4
    } else if k == 3 {
        8
    } else if k == 4 {
        16
    } else {
        32
    }
}

/// The sixel of column `x` over the first `k` rows from `y0` on: the rows in
/// which the pixel has the colour `c`.
pub open spec fn sixel_bits(indices: Seq<u8>, w: int, y0: int, k: int, c: int, x: int) -> int
    decreases k,
{
    if k <= 0 {
        0
    } else {
        sixel_bits(indices, w, y0, k - 1, c, x) + (if indices[(y0 + k - 1) * w + x] as int == c {
            sixel_weight(k - 1)
        } else {
            0
        })
    }
}

/// The sixels of all columns of a band.
pub open spec fn sixel_row(indices: Seq<u8>, w: int, y0: int, k: int, c: int) -> Seq<int> {
    Seq::new(w as nat, |x: int| sixel_bits(indices, w, y0, k, c, x))
}

/// Where the run of equal sixels that starts at `x` ends, from `e` on.
pub open spec fn run_end(bits: Seq<int>, x: int, e: int) -> int
    decreases bits.len() - e,
{
    if e < bits.len() && bits[e] == bits[x] {
        run_end(bits, x, e + 1)
    } else {
        e
    }
}

/// A run ends behind where it starts, and inside the row.
pub proof fn lemma_run_end(bits: Seq<int>, x: int, e: int)
    requires
        0 <= x < e <= bits.len(),
    ensures
        e <= run_end(bits, x, e) <= bits.len(),
    decreases bits.len() - e,
{
    if e < bits.len() && bits[e] == bits[x] {
        lemma_run_end(bits, x, e + 1);
    }
}

/// The sixels from `x` on: a run of more than three is counted, a shorter one
/// spelt out.
pub open spec fn sixel_runs(bits: Seq<int>, x: int) -> Seq<char>
    decreases bits.len() - x,
{
    if x < 0 || x >= bits.len() {
        Seq::empty()
    } else {
        let e = run_end(bits, x, x + 1);
        proof {
            lemma_run_end(bits, x, x + 1);
        }
        let ch = (63 + bits[x]) as u8 as char;
        (if e - x > 3 {
            ("!"@ + text::dec((e - x) as nat)).push(ch)
        } else {
            text::rep(ch, (e - x) as nat)
        }) + sixel_runs(bits, e)
    }
}

/// Whether a colour stands in the pixels from `i` up to `j`.
pub open spec fn color_in(indices: Seq<u8>, i: int, j: int, c: int) -> bool {
    exists|k: int| i <= k < j && #[trigger] indices[k] as int == c
}

/// The overlays of the first `n` colours of a band: those that stand in it.
pub open spec fn sixel_overlays(indices: Seq<u8>, w: int, y0: int, y1: int, n: int) -> Seq<char>
    decreases n,
{
    if n <= 0 {
        Seq::empty()
    } else {
        sixel_overlays(indices, w, y0, y1, n - 1) + (if color_in(indices, y0 * w, y1 * w, n - 1) {
            ("#"@ + text::dec((n - 1) as nat) + sixel_runs(
                sixel_row(indices, w, y0, y1 - y0, n - 1),
                0,
            )).push('$')
        } else {
            Seq::empty()
        })
    }
}

/// The bands from row `y0` on, six rows to each.
pub open spec fn sixel_bands(indices: Seq<u8>, w: int, h: int, y0: int, n: int) -> Seq<char>
    decreases h - y0,
{
    if y0 >= h {
        Seq::empty()
    } else {
        let y1 = text::least(y0 + 6, h);
        sixel_overlays(indices, w, y0, y1, n).push('-') + sixel_bands(indices, w, h, y1, n)
    }
}

/// An indexed image as Sixel data, in the colours of a fixed palette. The same
/// pixels always give the same data.
pub open spec fn sixel_data(indices: Seq<u8>, palette: Seq<(u8, u8, u8)>, w: int, h: int) -> Seq<char> {
    "\x1BP9;1;0q"@ + sixel_colors(palette, palette.len() as int) + sixel_bands(
        indices,
        w,
        h,
        0,
        text::least(palette.len() as int, 256),
    ) + "\x1B\\"@
}

proof fn lemma_sixel_bits(indices: Seq<u8>, w: int, y0: int, k: int, c: int, x: int)
    requires
        0 <= k <= 6,
    ensures
        0 <= sixel_bits(indices, w, y0, k, c, x) <= 63,
        k <= 5 ==> sixel_bits(indices, w, y0, k, c, x) < sixel_weight(k),
    decreases k,
{
    if k > 0 {
        lemma_sixel_bits(indices, w, y0, k - 1, c, x);
    }
}

fn band_bits(indices: &[u8], w: usize, h: usize, y0: usize, y1: usize, c: usize) -> (bits: Vec<u8>)
    requires
        y0 < y1 <= h,
        y1 - y0 <= 6,
        w * h <= indices@.len(),
    ensures
        bits@.map_values(|b: u8| b as int) == sixel_row(indices@, w as int, y0 as int, y1 - y0, c as int),
        forall|x: int| 0 <= x < bits@.len() ==> #[trigger] bits@[x] <= 63,
{
    let len: usize = indices.len();
    let mut bits: Vec<u8> = Vec::new();
    let mut x: usize = 0;
    while x < w
        invariant
            len == indices@.len(),
            y0 < y1 <= h,
            y1 - y0 <= 6,
            w * h <= len,
            x <= w,
            bits@.len() == x,
            forall|k: int|
                0 <= k < x ==> #[trigger] bits@[k] as int == sixel_bits(
                    indices@,
                    w as int,
                    y0 as int,
                    y1 - y0,
                    c as int,
                    k,
                ),
            forall|k: int| 0 <= k < bits@.len() ==> #[trigger] bits@[k] <= 63,
        decreases w - x,
    {
        let mut b: u8 = 0;
        let mut weight: u8 = 1;
        let mut y: usize = y0;
        while y < y1
            invariant
                len == indices@.len(),
                y0 <= y <= y1 <= h,
                y1 - y0 <= 6,
                w * h <= len,
                x < w,
                b == sixel_bits(indices@, w as int, y0 as int, y - y0, c as int, x as int),
                y < y1 ==> weight == sixel_weight(y - y0),
                b <= 63,
                y < y1 ==> b < weight,
            decreases y1 - y,
        {
            assert(y * w + w <= w * h) by (nonlinear_arith)
                requires
                    y < h,
            ;
            assert(0 <= y * w) by (nonlinear_arith);
            proof {
                lemma_sixel_bits(indices@, w as int, y0 as int, y - y0 + 1, c as int, x as int);
            }
            if indices[y * w + x] as usize == c {
                b = b + weight;
            }
            y = y + 1;
            if y < y1 {
                weight = weight * 2;
            }
        }
        bits.push(b);
        x = x + 1;
    }
    assert(bits@.map_values(|b: u8| b as int) =~= sixel_row(
        indices@,
        w as int,
        y0 as int,
        y1 - y0,
        c as int,
    ));
    bits
}

fn push_runs(out: &mut String, bits: &Vec<u8>)
    requires
        forall|x: int| 0 <= x < bits@.len() ==> #[trigger] bits@[x] <= 63,
    ensures
        final(out)@ == old(out)@ + sixel_runs(bits@.map_values(|b: u8| b as int), 0),
{
    let ghost start = out@;
    let ghost bv = bits@.map_values(|b: u8| b as int);
    let w: usize = bits.len();
    let mut x: usize = 0;
    while x < w
        invariant
            w == bits@.len(),
            bv == bits@.map_values(|b: u8| b as int),
            forall|x: int| 0 <= x < bits@.len() ==> #[trigger] bits@[x] <= 63,
            x <= w,
            out@ + sixel_runs(bv, x as int) == start + sixel_runs(bv, 0),
        decreases w - x,
    {
        let b: u8 = bits[x];
        let mut e: usize = x + 1;
        while e < w && bits[e] == b
            invariant
                w == bits@.len(),
                bv == bits@.map_values(|b: u8| b as int),
                x < e <= w,
                bv[x as int] == b as int,
                run_end(bv, x as int, e as int) == run_end(bv, x as int, x + 1),
            decreases w - e,
        {
            e = e + 1;
        }
        let ch: char = (63 + b) as char;
        let run: usize = e - x;
        let ghost prev = out@;
        if run > 3 {
            out.push_str("!");
            push_dec(out, run as u64);
            out.push(ch);
        } else {
            push_rep(out, ch, run);
        }
        assert(ch == (63 + bv[x as int]) as u8 as char);
        assert(out@ + sixel_runs(bv, e as int) =~= prev + sixel_runs(bv, x as int));
        x = e;
    }
    assert(out@ + sixel_runs(bv, x as int) =~= out@);
}

fn colors_used(indices: &[u8], from: usize, to: usize) -> (used: Vec<bool>)
    requires
        from <= to <= indices@.len(),
    ensures
        used@.len() == 256,
        forall|c: int| 0 <= c < 256 ==> #[trigger] used@[c] == color_in(indices@, from as int, to as int, c),
{
    let mut used: Vec<bool> = Vec::new();
    let mut n: usize = 0;
    while n < 256
        invariant
            n <= 256,
            used@.len() == n,
            forall|c: int| 0 <= c < n ==> !(#[trigger] used@[c]),
        decreases 256 - n,
    {
        used.push(false);
        n = n + 1;
    }
    let mut i: usize = from;
    while i < to
        invariant
            from <= i <= to <= indices@.len(),
            used@.len() == 256,
            forall|c: int|
                0 <= c < 256 ==> #[trigger] used@[c] == color_in(indices@, from as int, i as int, c),
        decreases to - i,
    {
        let ghost prev = used@;
        let px: usize = indices[i] as usize;
        used.set(px, true);
        assert forall|c: int| 0 <= c < 256 implies #[trigger] used@[c] == color_in(
            indices@,
            from as int,
            i + 1,
            c,
        ) by {
            if c == px {
                assert(indices@[i as int] as int == c);
            } else {
                assert(used@[c] == prev[c]);
                if color_in(indices@, from as int, i + 1, c) {
                    let k = choose|k: int| from <= k < i + 1 && #[trigger] indices@[k] as int == c;
                    assert(k < i);
                }
                if color_in(indices@, from as int, i as int, c) {
                    let k = choose|k: int| from <= k < i && #[trigger] indices@[k] as int == c;
                    assert(indices@[k] as int == c);
                }
            }
        }
        i = i + 1;
    }
    used
}

/// Encodes an indexed image as Sixel data with a fixed palette. A quantizer would
/// settle on a slightly different palette for every frame of a moving image, and
/// what did not change would shimmer.
pub fn sixel_encode_indexed(indices: &[u8], palette: &[(u8, u8, u8)], w: usize, h: usize) -> (out: String)
    requires
        w * h <= indices@.len(),
    ensures
        out@ == sixel_data(indices@, palette@, w as int, h as int),
{
    let mut out: String = "\x1BP9;1;0q".to_owned();
    let mut n: usize = 0;
    assert(out@ =~= "\x1BP9;1;0q"@ + sixel_colors(palette@, 0));
    while n < palette.len()
        invariant
            n <= palette@.len(),
            out@ == "\x1BP9;1;0q"@ + sixel_colors(palette@, n as int),
        decreases palette@.len() - n,
    {
        let c: (u8, u8, u8) = palette[n];
        let ghost prev = out@;
        out.push_str("#");
        push_dec(&mut out, n as u64);
        out.push_str(";2;");
        push_dec(&mut out, (c.0 as u64 * 100) / 255);
        out.push_str(";");
        push_dec(&mut out, (c.1 as u64 * 100) / 255);
        out.push_str(";");
        push_dec(&mut out, (c.2 as u64 * 100) / 255);
        n = n + 1;
        assert(out@ =~= "\x1BP9;1;0q"@ + sixel_colors(palette@, n as int));
    }
    let colors: usize = if palette.len() < 256 {
        palette.len()
    } else {
        256
    };
    let ghost head = out@;
    let mut y0: usize = 0;
    while y0 < h
        invariant
            w * h <= indices@.len(),
            colors == text::least(palette@.len() as int, 256),
            y0 <= h,
            out@ + sixel_bands(indices@, w as int, h as int, y0 as int, colors as int) == head + sixel_bands(
                indices@,
                w as int,
                h as int,
                0,
                colors as int,
            ),
        decreases h - y0,
    {
        let y1: usize = if h - y0 > 6 {
            y0 + 6
        } else {
            h
        };
        let len: usize = indices.len();
        assert(0 <= y0 * w <= y1 * w <= w * h) by (nonlinear_arith)
            requires
                0 <= y0 <= y1 <= h,
                0 <= w,
        ;
        let used: Vec<bool> = colors_used(indices, y0 * w, y1 * w);
        let ghost prev = out@;
        let mut c: usize = 0;
        assert(out@ =~= prev + sixel_overlays(indices@, w as int, y0 as int, y1 as int, 0));
        while c < colors
            invariant
                w * h <= indices@.len(),
                y0 < y1 <= h,
                y1 - y0 <= 6,
                colors <= 256,
                c <= colors,
                used@.len() == 256,
                forall|c: int|
                    0 <= c < 256 ==> #[trigger] used@[c] == color_in(indices@, y0 * w, y1 * w, c),
                out@ == prev + sixel_overlays(indices@, w as int, y0 as int, y1 as int, c as int),
            decreases colors - c,
        {
            if used[c] {
                let bits: Vec<u8> = band_bits(indices, w, h, y0, y1, c);
                out.push_str("#");
                push_dec(&mut out, c as u64);
                push_runs(&mut out, &bits);
                out.push('$');
            } else {
                assert(out@ + Seq::<char>::empty() =~= out@);
            }
            c = c + 1;
            assert(out@ =~= prev + sixel_overlays(indices@, w as int, y0 as int, y1 as int, c as int));
        }
        out.push('-');
        proof {
            let over = sixel_overlays(indices@, w as int, y0 as int, y1 as int, colors as int).push('-');
            assert(out@ =~= prev + over);
            assert(out@ + sixel_bands(indices@, w as int, h as int, y1 as int, colors as int) =~= prev
                + sixel_bands(indices@, w as int, h as int, y0 as int, colors as int));
        }
        y0 = y1;
    }
    assert(out@ + sixel_bands(indices@, w as int, h as int, y0 as int, colors as int) =~= out@);
    out.push_str("\x1B\\");
    out
}

/// The lines of an indexed Sixel image with a fixed palette.
pub fn render_viz_sixel_indexed(
    indices: &[u8],
    palette: &[(u8, u8, u8)],
    w: usize,
    h: usize,
    cols: u32,
    rows: u32,
) -> (lines: Vec<String>)
    requires
        w * h <= indices@.len(),
    ensures
        is_block(
            lines@,
            sixel_frame(sixel_data(indices@, palette@, w as int, h as int), cols, rows),
            skip(cols),
            rows,
        ),
{
    let data: String = sixel_encode_indexed(indices, palette, w, h);
    viz_sixel_lines(data.as_str(), cols, rows)
}

/// The bytes in an optional vector.
pub open spec fn opt_bytes(v: Option<Vec<u8>>) -> Option<Seq<u8>> {
    match v {
        Some(v) => Some(v@),
        None => None,
    }
}

/// A picture shrunk to `w` by `h` and written as PNG by the `image` crate.
pub uninterp spec fn png_thumbnail(bytes: Seq<u8>, w: u32, h: u32) -> Option<Seq<u8>>;

/// A picture shrunk to `w` by `h` by the `image` crate, four bytes to a pixel.
pub uninterp spec fn rgba_thumbnail(bytes: Seq<u8>, w: u32, h: u32) -> Option<Seq<u8>>;

/// A picture shrunk to `w` by `h` by the `image` crate, three bytes to a pixel.
pub uninterp spec fn rgb_thumbnail(bytes: Seq<u8>, w: u32, h: u32) -> Option<Seq<u8>>;

/// Pixels written as PNG by the `image` crate.
pub uninterp spec fn png_of_rgb(rgb: Seq<u8>, w: u32, h: u32) -> Option<Seq<u8>>;

/// Pixels written as Sixel data by the `icy_sixel` crate, with at most
/// `max_colors` colours, and with its own dithering or without any.
pub uninterp spec fn quantized_sixel(rgba: Seq<u8>, w: usize, h: usize, max_colors: u16, dither: bool) -> Option<
    Seq<char>,
>;

/// What a picture is made of, as the `image` crate reads it ahead of the pixels:
/// width, height, bytes to a pixel, and channels.
pub uninterp spec fn picture_shape(bytes: Seq<u8>) -> Option<(u32, u32, u8, u8)>;

/// How many of `from` pixels in a row fall on one of `to` at most. The rows are
/// measured in single precision, so a few more may fall on one than should.
pub open spec fn most_on_one(from: u32, to: u32) -> int {
    from as int / to as int + from as int / 0x40_0000 + 4
}

/// How many pixels can be summed up: the sums of samples of one or two bytes are
/// kept in four bytes, those of floating-point samples are counted in four.
pub open spec fn most_summed(pixel_bytes: u8, channels: u8) -> int {
    if pixel_bytes == channels {
        16_000_000
    } else if pixel_bytes == 4 * channels {
        4_000_000_000
    } else {
        65_536
    }
}

/// Whether a picture can be shrunk to `w` by `h`: it is one, and no more pixels
/// fall on one than can be summed up.
pub open spec fn can_shrink(shape: Option<(u32, u32, u8, u8)>, w: u32, h: u32) -> bool {
    match shape {
        Some((from_w, from_h, pixel_bytes, channels)) => w == 0 || h == 0 || most_on_one(from_w, w) * most_on_one(
            from_h,
            h,
        ) <= most_summed(pixel_bytes, channels),
        None => false,
    }
}

/// Calls `image::ImageReader::into_decoder` on the bytes, their format guessed,
/// and reads `ImageDecoder::dimensions` and `ImageDecoder::color_type`. `None`
/// where the bytes are no picture; what comes out depends on the bytes alone.
#[verifier::external_body]
fn shape_of(bytes: &[u8]) -> (r: Option<(u32, u32, u8, u8)>)
    ensures
        r == picture_shape(bytes@),
{
    let reader = image::ImageReader::new(std::io::Cursor::new(bytes)).with_guessed_format().ok()?;
    let decoder = reader.into_decoder().ok()?;
    let (w, h) = decoder.dimensions();
    let color = decoder.color_type();
    Some((w, h, color.bytes_per_pixel(), color.channel_count()))
}

/// Whether a picture can be shrunk to `w` by `h`.
fn shrinks(shape: Option<(u32, u32, u8, u8)>, w: u32, h: u32) -> (r: bool)
    ensures
        r == can_shrink(shape, w, h),
{
    match shape {
        Some((from_w, from_h, pixel_bytes, channels)) => {
            if w == 0 || h == 0 {
                return true;
            }
            let across: u64 = (from_w / w) as u64 + (from_w / 0x40_0000) as u64 + 4;
            let down: u64 = (from_h / h) as u64 + (from_h / 0x40_0000) as u64 + 4;
            let limit: u128 = if pixel_bytes == channels {
                16_000_000
            } else if pixel_bytes as u32 == 4 * channels as u32 {
                4_000_000_000
            } else {
                65_536
            };
            assert(across * down <= 0x2_0000_0000 * 0x2_0000_0000) by (nonlinear_arith)
                requires
                    0 <= across <= 0x2_0000_0000,
                    0 <= down <= 0x2_0000_0000,
            ;
            across as u128 * down as u128 <= limit
        },
        None => false,
    }
}

/// Whether a picture of that size fits into memory on any machine.
pub open spec fn fits_memory(w: int, h: int) -> bool {
    w * h * 16 <= 0x7fff_ffff
}

/// Calls `image::load_from_memory`, `DynamicImage::thumbnail_exact` and
/// `DynamicImage::write_to` with PNG. `None` where the bytes are no picture or
/// the PNG cannot be written; what comes out depends on the bytes and the size
/// alone. `thumbnail_exact` sums up all pixels that fall on one, and panics where
/// they are too many for the sum.
#[verifier::external_body]
fn thumbnail_png(bytes: &[u8], w: u32, h: u32) -> (r: Option<Vec<u8>>)
    requires
        fits_memory(w as int, h as int),
        can_shrink(picture_shape(bytes@), w, h),
    ensures
        opt_bytes(r) == png_thumbnail(bytes@, w, h),
{
    let small = image::load_from_memory(bytes).ok()?.thumbnail_exact(w, h);
    let mut png: Vec<u8> = Vec::new();
    small.write_to(&mut std::io::Cursor::new(&mut png), image::ImageFormat::Png).ok()?;
    Some(png)
}

/// Calls `image::load_from_memory`, `DynamicImage::thumbnail_exact` and
/// `DynamicImage::to_rgba8`. `None` where the bytes are no picture; what comes out
/// depends on the bytes and the size alone. Too many pixels for one are left out,
/// as for [`thumbnail_png`].
#[verifier::external_body]
fn thumbnail_rgba(bytes: &[u8], w: u32, h: u32) -> (r: Option<Vec<u8>>)
    requires
        fits_memory(w as int, h as int),
        can_shrink(picture_shape(bytes@), w, h),
    ensures
        opt_bytes(r) == rgba_thumbnail(bytes@, w, h),
{
    let small = image::load_from_memory(bytes).ok()?.thumbnail_exact(w, h);
    Some(small.to_rgba8().into_raw())
}

/// Calls `image::load_from_memory`, `DynamicImage::thumbnail_exact` and
/// `DynamicImage::to_rgb8`. `None` where the bytes are no picture; what comes out
/// depends on the bytes and the size alone, and holds three bytes for each pixel.
/// Too many pixels for one are left out, as for [`thumbnail_png`].
#[verifier::external_body]
fn thumbnail_rgb(bytes: &[u8], w: u32, h: u32) -> (r: Option<Vec<u8>>)
    requires
        fits_memory(w as int, h as int),
        can_shrink(picture_shape(bytes@), w, h),
    ensures
        opt_bytes(r) == rgb_thumbnail(bytes@, w, h),
        r matches Some(v) ==> v@.len() == w * h * 3,
{
    let small = image::load_from_memory(bytes).ok()?.thumbnail_exact(w, h);
    Some(small.to_rgb8().into_raw())
}

/// Calls `image::codecs::png::PngEncoder::write_image`, which panics where the
/// pixels are not three bytes each for the size given. `None` where it fails; what
/// comes out depends on the pixels and the size alone.
#[verifier::external_body]
fn encode_png_rgb(rgb: &[u8], w: u32, h: u32) -> (r: Option<Vec<u8>>)
    requires
        rgb@.len() == w * h * 3,
    ensures
        opt_bytes(r) == png_of_rgb(rgb@, w, h),
{
    let mut png: Vec<u8> = Vec::new();
    let encoder = image::codecs::png::PngEncoder::new(&mut png);
    encoder.write_image(rgb, w, h, image::ExtendedColorType::Rgb8).ok()?;
    Some(png)
}

/// Calls `icy_sixel::sixel_encode` with its default dithering. `None` where it
/// refuses the size or the number of bytes; what comes out depends on the
/// arguments alone.
#[verifier::external_body]
fn sixel_dithered(rgba: &[u8], w: usize, h: usize, max_colors: u16) -> (r: Option<String>)
    ensures
        path::opt_text(r) == quantized_sixel(rgba@, w, h, max_colors, true),
{
    let opts = icy_sixel::EncodeOptions { max_colors, ..icy_sixel::EncodeOptions::default() };
    icy_sixel::sixel_encode(rgba, w, h, &opts).ok()
}

/// Calls `icy_sixel::sixel_encode` with no dithering at all. `None` where it
/// refuses the size or the number of bytes; what comes out depends on the
/// arguments alone.
#[verifier::external_body]
fn sixel_undithered(rgba: &[u8], w: usize, h: usize, max_colors: u16) -> (r: Option<String>)
    ensures
        path::opt_text(r) == quantized_sixel(rgba@, w, h, max_colors, false),
{
    let diffusion = Default::default();
    let opts = icy_sixel::EncodeOptions { max_colors, diffusion, ..icy_sixel::EncodeOptions::default() };
    icy_sixel::sixel_encode(rgba, w, h, &opts).ok()
}

/// A cover's PNG in the shape its protocol needs, where there is one.
pub open spec fn is_png_cover(r: Option<CoverImage>, protocol: GraphicsProtocol, png: Option<Seq<u8>>, size: CoverSize) -> bool {
    match png {
        Some(p) => if protocol is Kitty {
            r matches Some(CoverImage::Kitty { png, size: s }) && png@ == p && s == size
        } else {
            r matches Some(CoverImage::Iterm2 { png, size: s }) && png@ == p && s == size
        },
        None => r is None,
    }
}

/// The size in pixels that a cover is shrunk to.
pub open spec fn target(protocol: GraphicsProtocol, size: CoverSize) -> (u32, u32) {
    match protocol {
        GraphicsProtocol::Sixel => ((size.cols * 10) as u32, (size.rows * 20) as u32),
        GraphicsProtocol::HalfBlock => (size.cols, (size.rows * 2) as u32),
        _ => (KITTY_SIZE, KITTY_SIZE),
    }
}

/// Decodes a picture and shrinks it to a slot, in the shape a protocol needs.
/// Terminals that scale by themselves get a PNG of one size; Sixel is exact in
/// pixels and gets the slot's; half blocks get two pixels to a cell. `None` where
/// the bytes are no picture, where it is too large to be shrunk to that, or where
/// it cannot be encoded.
pub fn decode_and_resize(protocol: GraphicsProtocol, bytes: &[u8], size: CoverSize) -> (r: Option<CoverImage>)
    requires
        size.cols <= 0xffff,
        size.rows <= 0xffff,
        fits_memory(size.cols * 10, size.rows * 20),
    ensures
        ({
            let (w, h) = target(protocol, size);
            if !can_shrink(picture_shape(bytes@), w, h) {
                r is None
            } else {
                match protocol {
                    GraphicsProtocol::Sixel => match rgba_thumbnail(bytes@, w, h) {
                        Some(rgba) => match quantized_sixel(rgba, w as usize, h as usize, 256, true) {
                            Some(d) => r matches Some(CoverImage::Sixel { data, size: s }) && data@ == d && s == size,
                            None => r is None,
                        },
                        None => r is None,
                    },
                    GraphicsProtocol::HalfBlock => match rgb_thumbnail(bytes@, w, h) {
                        Some(p) => {
                            &&& r matches Some(CoverImage::HalfBlock { width, height, pixels, size: s })
                            &&& width == w
                            &&& height == h
                            &&& pixels@ == p
                            &&& s == size
                        },
                        None => r is None,
                    },
                    _ => is_png_cover(r, protocol, png_thumbnail(bytes@, w, h), size),
                }
            }
        }),
        r matches Some(img) ==> img.slot() == size && (size.rows >= 1 ==> img.fits_slot()),
{
    let (w, h): (u32, u32) = match protocol {
        GraphicsProtocol::Kitty => (KITTY_SIZE, KITTY_SIZE),
        GraphicsProtocol::Iterm2 => (KITTY_SIZE, KITTY_SIZE),
        GraphicsProtocol::Sixel => size.sixel_px(),
        GraphicsProtocol::HalfBlock => (size.cols, size.rows * 2),
    };
    if !shrinks(shape_of(bytes), w, h) {
        return None;
    }
    match protocol {
        GraphicsProtocol::Kitty => match thumbnail_png(bytes, w, h) {
            Some(png) => Some(CoverImage::Kitty { png, size }),
            None => None,
        },
        GraphicsProtocol::Iterm2 => match thumbnail_png(bytes, w, h) {
            Some(png) => Some(CoverImage::Iterm2 { png, size }),
            None => None,
        },
        GraphicsProtocol::Sixel => match thumbnail_rgba(bytes, w, h) {
            Some(rgba) => match sixel_dithered(rgba.as_slice(), w as usize, h as usize, 256) {
                Some(data) => Some(CoverImage::Sixel { data, size }),
                None => None,
            },
            None => None,
        },
        GraphicsProtocol::HalfBlock => {
            assert(size.cols * (size.rows * 2) * 16 <= (size.cols * 10) * (size.rows * 20) * 16)
                by (nonlinear_arith);
            match thumbnail_rgb(bytes, w, h) {
                Some(pixels) => Some(CoverImage::HalfBlock { width: w, height: h, pixels, size }),
                None => None,
            }
        },
    }
}

/// Three-byte pixels with a fourth byte each that makes them opaque. Bytes that
/// make no whole pixel are left out.
pub open spec fn opaque_pixels(rgb: Seq<u8>) -> Seq<u8> {
    Seq::new(
        (rgb.len() / 3 * 4) as nat,
        |i: int|
            if i % 4 == 3 {
                255u8
            } else {
                rgb[i / 4 * 3 + i % 4]
            },
    )
}

/// Gives three-byte pixels a fourth byte each.
pub fn with_alpha(rgb: &[u8]) -> (rgba: Vec<u8>)
    ensures
        rgba@ == opaque_pixels(rgb@),
{
    let mut rgba: Vec<u8> = Vec::new();
    let len: usize = rgb.len();
    let mut i: usize = 0;
    while len - i >= 3
        invariant
            len == rgb@.len(),
            i <= len,
            i % 3 == 0,
            rgba@.len() == i / 3 * 4,
            forall|k: int| 0 <= k < rgba@.len() ==> #[trigger] rgba@[k] == opaque_pixels(rgb@)[k],
        decreases len - i,
    {
        rgba.push(rgb[i]);
        rgba.push(rgb[i + 1]);
        rgba.push(rgb[i + 2]);
        rgba.push(255);
        i = i + 3;
    }
    assert(rgba@ =~= opaque_pixels(rgb@));
    rgba
}

/// `rows` empty lines.
pub open spec fn is_blank(lines: Seq<String>, rows: u32) -> bool {
    lines.len() == rows && forall|i: int| 0 <= i < lines.len() ==> (#[trigger] lines[i])@ == Seq::<char>::empty()
}

/// Draws a picture over `cols` by `rows` cells with a protocol for pixel images.
/// Blank lines where it cannot be encoded, and under half blocks, which
/// [`render_half_block_public`] draws.
pub fn render_image_block(
    protocol: GraphicsProtocol,
    rgb: &[u8],
    w: u32,
    h: u32,
    cols: u32,
    rows: u32,
) -> (lines: Vec<String>)
    requires
        protocol is Kitty || protocol is Iterm2 ==> rgb@.len() == w * h * 3,
    ensures
        protocol is Kitty ==> match png_of_rgb(rgb@, w, h) {
            Some(png) => is_block(
                lines@,
                kitty_chunks(base64(png), 0, viz_head(cols, rows)) + text::rep(' ', cols as nat),
                text::rep(' ', cols as nat),
                rows,
            ),
            None => is_blank(lines@, rows),
        },
        protocol is Iterm2 ==> match png_of_rgb(rgb@, w, h) {
            Some(png) => is_block(lines@, inline_image(png, cols, rows), skip(cols), rows),
            None => is_blank(lines@, rows),
        },
        protocol is Sixel ==> match quantized_sixel(opaque_pixels(rgb@), w as usize, h as usize, 128, false) {
            Some(data) => is_block(lines@, sixel_frame(data, cols, rows), skip(cols), rows),
            None => is_blank(lines@, rows),
        },
        protocol is HalfBlock ==> is_blank(lines@, rows),
{
    let empty: String = String::new();
    match protocol {
        GraphicsProtocol::Kitty => match encode_png_rgb(rgb, w, h) {
            Some(png) => viz_kitty_lines(png.as_slice(), cols, rows),
            None => same_lines(&empty, rows),
        },
        GraphicsProtocol::Iterm2 => match encode_png_rgb(rgb, w, h) {
            Some(png) => viz_iterm2_lines(png.as_slice(), cols, rows),
            None => same_lines(&empty, rows),
        },
        GraphicsProtocol::Sixel => {
            let rgba: Vec<u8> = with_alpha(rgb);
            match sixel_undithered(rgba.as_slice(), w as usize, h as usize, 128) {
                Some(data) => viz_sixel_lines(data.as_str(), cols, rows),
                None => same_lines(&empty, rows),
            }
        },
        GraphicsProtocol::HalfBlock => same_lines(&empty, rows),
    }
}

/// Percent-encodes a text for a URL's query.
pub fn urlencoded(s: &str) -> (r: String)
    ensures
        r@ == lyrics::url_text(s@),
{
    lyrics::urlencod(s)
}

/// The address that is asked for an album's cover.
pub fn itunes_url(artist: &str, album: &str) -> (r: String)
    ensures
        r@ == "https://itunes.apple.com/search?term="@ + lyrics::url_text(artist@.push(' ') + album@)
            + "&media=music&entity=album&limit=1"@,
{
    let mut query: String = artist.to_owned();
    query.push(' ');
    query.push_str(album);
    let mut url: String = "https://itunes.apple.com/search?term=".to_owned();
    url.push_str(urlencoded(query.as_str()).as_str());
    url.push_str("&media=music&entity=album&limit=1");
    url
}

/// The address of an album's cover, from the answer to [`itunes_url`], in the
/// size the answer names.
pub fn artwork_url(reply: &str) -> (r: Option<String>)
    ensures
        path::opt_text(r) == json::json_first_text(reply@, "results"@, "artworkUrl100"@),
{
    text_in_first(reply, "results", "artworkUrl100")
}

/// The address of the largest cover: the named size replaced where it stands
/// first.
pub fn large_artwork_url(url: &str) -> (r: String)
    ensures
        r@ == text::replaced_first(url@, "100x100"@, "600x600"@),
{
    text::replace_first(url, "100x100", "600x600")
}

/// What a file beside a track must be called to be its cover, in the order of
/// preference.
pub open spec fn sidecars() -> Seq<Seq<char>> {
    seq![
        "cover.jpg"@,
        "cover.jpeg"@,
        "cover.png"@,
        "cover.webp"@,
        "folder.jpg"@,
        "folder.jpeg"@,
        "folder.png"@,
        "front.jpg"@,
        "front.jpeg"@,
        "front.png"@,
        "album.jpg"@,
        "album.jpeg"@,
        "album.png"@,
        "Cover.jpg"@,
        "Folder.jpg"@,
        "Front.jpg"@,
    ]
}

/// The names that make a file beside a track its cover.
pub fn sidecar_names() -> (r: Vec<&'static str>)
    ensures
        r@.len() == sidecars().len(),
        forall|i: int| 0 <= i < r@.len() ==> (#[trigger] r@[i])@ == sidecars()[i],
{
    vec![
        "cover.jpg",
        "cover.jpeg",
        "cover.png",
        "cover.webp",
        "folder.jpg",
        "folder.jpeg",
        "folder.png",
        "front.jpg",
        "front.jpeg",
        "front.png",
        "album.jpg",
        "album.jpeg",
        "album.png",
        "Cover.jpg",
        "Folder.jpg",
        "Front.jpg",
    ]
}

/// The first `n` files of a folder that may be a cover.
pub open spec fn beside(dir: Option<Seq<char>>, n: int) -> Seq<Seq<char>> {
    match dir {
        Some(d) => Seq::new(n as nat, |i: int| path::joined(d, sidecars()[i])),
        None => Seq::empty(),
    }
}

/// A path, where there is one.
pub open spec fn only(p: Option<Seq<char>>) -> Seq<Seq<char>> {
    match p {
        Some(p) => seq![p],
        None => Seq::empty(),
    }
}

/// The files that may hold a track's cover. The first of them that can be read
/// is the one: those beside the track, the one that was fetched, and the one that
/// was fetched in earlier days.
pub fn cover_files(
    track_path: &str,
    config_dir: Option<&str>,
    artist: Option<&str>,
    album: Option<&str>,
) -> (r: Vec<String>)
    ensures
        text::texts(r@) == beside(path::folder_of(track_path@), 16) + only(
            placed(
                (match config_dir {
                    Some(d) => Some(path::joined(d@, "covers"@)),
                    None => None,
                }),
                cache_name(artist, album),
            ),
        ) + only(placed(path::folder_of(track_path@), cache_name(artist, album))),
{
    let mut files: Vec<String> = Vec::new();
    if let Some(dir) = path::parent(track_path) {
        let names: Vec<&'static str> = sidecar_names();
        let mut i: usize = 0;
        while i < names.len()
            invariant
                i <= names@.len() == sidecars().len(),
                forall|j: int| 0 <= j < names@.len() ==> (#[trigger] names@[j])@ == sidecars()[j],
                text::texts(files@) == beside(Some(dir@), i as int),
            decreases names.len() - i,
        {
            let ghost before = text::texts(files@);
            files.push(path::join(dir.as_str(), names[i]));
            assert(text::texts(files@) =~= before.push(path::joined(dir@, sidecars()[i as int])));
            i += 1;
            assert(text::texts(files@) =~= beside(Some(dir@), i as int));
        }
    }
    assert(text::texts(files@) =~= beside(path::folder_of(track_path@), 16));
    let ghost first = text::texts(files@);
    if let Some(p) = cache_path_for(config_dir, artist, album) {
        files.push(p);
    }
    let ghost second = text::texts(files@);
    assert(second =~= first + only(
        placed(
            (match config_dir {
                Some(d) => Some(path::joined(d@, "covers"@)),
                None => None,
            }),
            cache_name(artist, album),
        ),
    ));
    if let Some(p) = legacy_cache_path_for(track_path, artist, album) {
        files.push(p);
    }
    assert(text::texts(files@) =~= second + only(
        placed(path::folder_of(track_path@), cache_name(artist, album)),
    ));
    files
}

/// A cover that was fetched is found again: it is one of the files that are
/// looked at, and comes before the one of earlier days.
pub proof fn fetched_cover_is_found_again(
    track_path: Seq<char>,
    config_dir: Seq<char>,
    artist: &str,
    album: &str,
)
    requires
        cache_name(Some(artist), Some(album)) is Some,
    ensures
        ({
            let dir = path::folder_of(track_path);
            let name = cache_name(Some(artist), Some(album));
            let kept = placed(Some(path::joined(config_dir, "covers"@)), name);
            let files = beside(dir, 16) + only(kept) + only(placed(dir, name));
            &&& kept is Some
            &&& files[beside(dir, 16).len() as int] == kept->Some_0
        }),
{
}

proof fn lemma_dots_end(s: Seq<char>, n: int)
    requires
        0 <= n <= s.len(),
    ensures
        0 <= dots_end(s, n) <= n,
    decreases n,
{
    if n > 0 && (s[n - 1] == '.' || s[n - 1] == ' ') {
        lemma_dots_end(s, n - 1);
    }
}

/// A sanitized name names nothing outside the folder it is put into, and holds no
/// character that a file's name must not hold.
pub proof fn sanitized_names_are_safe(s: Seq<char>)
    ensures
        forall|i: int| 0 <= i < fs_safe(s).len() ==> !unsafe_in_name(#[trigger] fs_safe(s)[i]),
        fs_safe(s).len() <= s.len(),
{
    let m = s.map_values(
        |c: char|
            if unsafe_in_name(c) {
                '_'
            } else {
                c
            },
    );
    lemma_dots_end(m, m.len() as int);
    text::lemma_white_end(m, dots_end(m, m.len() as int));
    let e = text::white_end(m, dots_end(m, m.len() as int));
    text::lemma_white_start(m, 0, e);
    assert forall|i: int| 0 <= i < fs_safe(s).len() implies !unsafe_in_name(#[trigger] fs_safe(s)[i]) by {
        assert(fs_safe(s)[i] == m[text::white_start(m, 0, e) + i]);
    }
}

/// A cover takes exactly the rows of the slot it was sized for.
pub proof fn covers_fill_their_slot(img: CoverImage)
    requires
        img.fits_slot(),
    ensures
        drawn(img).len() == img.slot().rows,
{
}

} // verus!
