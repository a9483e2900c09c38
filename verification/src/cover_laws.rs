//! What can be counted on of covers: where they are looked for, what they are kept
//! as, and what a terminal is sent.
use crate::cover;
use crate::cover::{CoverImage, CoverSize, GraphicsProtocol};
use crate::lyrics_laws;
use crate::path;
use crate::text;
use crate::text_laws;
use crate::theme::ThemeKind;
use vstd::prelude::*;

verus! {

/// The number that a character stands for in base 64.
pub open spec fn sextet(c: char) -> int {
    if 'A' <= c && c <= 'Z' {
        c as int - 'A' as int
    } else if 'a' <= c && c <= 'z' {
        c as int - 'a' as int + 26
    } else if '0' <= c && c <= '9' {
        c as int - '0' as int + 52
    } else if c == '+' {
        62
    } else {
        63
    }
}

proof fn lemma_sextet(n: int)
    requires
        0 <= n < 64,
    ensures
        sextet(cover::b64_char(n)) == n,
        cover::b64_char(n) != '=',
{
}

proof fn lemma_base64(s: Seq<u8>, i: int, g: int)
    requires
        0 <= i <= s.len(),
        0 <= g,
        i + 3 * g < s.len(),
    ensures
        cover::base64_from(s, i).len() == (s.len() - i + 2) / 3 * 4,
        ({
            let out = cover::base64_from(s, i);
            let b = s[i + 3 * g] as int;
            let c = if i + 3 * g + 1 < s.len() {
                s[i + 3 * g + 1] as int
            } else {
                0
            };
            let d = if i + 3 * g + 2 < s.len() {
                s[i + 3 * g + 2] as int
            } else {
                0
            };
            &&& sextet(out[4 * g]) * 64 + sextet(out[4 * g + 1]) == b * 16 + c / 16
            &&& i + 3 * g + 1 < s.len() ==> out[4 * g + 2] != '=' && sextet(out[4 * g + 2]) == (c % 16) * 4 + d / 64
            &&& i + 3 * g + 1 >= s.len() ==> out[4 * g + 2] == '='
            &&& i + 3 * g + 2 < s.len() ==> out[4 * g + 3] != '=' && sextet(out[4 * g + 3]) == d % 64
            &&& i + 3 * g + 2 >= s.len() ==> out[4 * g + 3] == '='
        }),
    decreases s.len() - i,
{
    let out = cover::base64_from(s, i);
    let x = s[i] as int;
    let y = if i + 1 < s.len() {
        s[i + 1] as int
    } else {
        0
    };
    let z = if i + 2 < s.len() {
        s[i + 2] as int
    } else {
        0
    };
    lemma_sextet(x / 4);
    lemma_sextet((x % 4) * 16 + y / 16);
    lemma_sextet((y % 16) * 4 + z / 64);
    lemma_sextet(z % 64);
    if i + 3 <= s.len() {
        let rest = cover::base64_from(s, i + 3);
        let head = cover::b64_three(s[i], s[i + 1], s[i + 2]);
        assert(out == head + rest);
        if g > 0 {
            lemma_base64(s, i + 3, g - 1);
            assert(out[4 * g] == rest[4 * (g - 1)]);
            assert(out[4 * g + 1] == rest[4 * (g - 1) + 1]);
            assert(out[4 * g + 2] == rest[4 * (g - 1) + 2]);
            assert(out[4 * g + 3] == rest[4 * (g - 1) + 3]);
        } else {
            if i + 3 < s.len() {
                lemma_base64(s, i + 3, 0);
            }
        }
    }
}

/// Three bytes become four characters of six bits each, most significant first; at
/// the end an equals sign stands for each byte that is missing.
pub proof fn base64_reads_back(bytes: &[u8], out: String, g: int)
    requires
        call_ensures(cover::base64_encode, (bytes,), out),
        0 <= g,
        3 * g < bytes@.len(),
    ensures
        out@.len() == (bytes@.len() + 2) / 3 * 4,
        3 * g + 2 < bytes@.len() ==> ((sextet(out@[4 * g]) * 64 + sextet(out@[4 * g + 1])) * 64 + sextet(
            out@[4 * g + 2],
        )) * 64 + sextet(out@[4 * g + 3]) == (bytes@[3 * g] * 256 + bytes@[3 * g + 1]) * 256 + bytes@[3 * g + 2],
        3 * g + 2 == bytes@.len() ==> out@[4 * g + 3] == '=' && ((sextet(out@[4 * g]) * 64 + sextet(
            out@[4 * g + 1],
        )) * 64 + sextet(out@[4 * g + 2])) == (bytes@[3 * g] * 256 + bytes@[3 * g + 1]) * 4,
        3 * g + 1 == bytes@.len() ==> out@[4 * g + 3] == '=' && out@[4 * g + 2] == '=' && sextet(out@[4 * g]) * 64
            + sextet(out@[4 * g + 1]) == bytes@[3 * g] * 16,
{
    lemma_base64(bytes@, 0, g);
}

/// The terminals whose images are known are sent them their own way, and all others
/// half blocks.
pub proof fn terminals_are_known(
    program: Option<&str>,
    term: Option<&str>,
    kitty: bool,
    lc: Option<&str>,
    wt: bool,
    windows: bool,
    r: GraphicsProtocol,
)
    requires
        call_ensures(cover::protocol_from_env, (program, term, kitty, lc, wt, windows), r),
    ensures
        program is Some && text::lowered(program->0@) == "ghostty"@ ==> r is Kitty,
        program is Some && text::lowered(program->0@) == "wezterm"@ ==> (r is Kitty <==> !windows),
        program is Some && text::lowered(program->0@) == "wezterm"@ && windows ==> r is HalfBlock,
        program is Some && text::lowered(program->0@) == "iterm.app"@ ==> r is Iterm2,
        program is None && term is Some && text::has_text(term->0@, "kitty"@) ==> r is Kitty,
        program is None && term is Some && !text::has_text(term->0@, "kitty"@) && (term->0@ == "foot"@ || term->0@
            == "foot-extra"@ || term->0@ == "mlterm"@) ==> r is Sixel,
        program is None && term is None && kitty ==> r is Kitty,
        program is None && term is None && !kitty && lc is Some && text::lowered(lc->0@) == "iterm2"@ ==> r is Iterm2,
        program is None && term is None && !kitty && lc is None && wt ==> r is Sixel,
        program is None && term is None && !kitty && lc is None && !wt ==> r is HalfBlock,
{
    reveal_strlit("ghostty");
    reveal_strlit("wezterm");
    reveal_strlit("iterm.app");
    assert("ghostty"@[0] == 'g' && "wezterm"@[0] == 'w' && "iterm.app"@[0] == 'i');
}

/// Only half blocks have to be drawn again with everything else.
pub proof fn images_stay_where_they_are(protocol: GraphicsProtocol, r: bool)
    requires
        call_ensures(cover::image_is_sticky, (protocol,), r),
    ensures
        protocol is Kitty || protocol is Iterm2 || protocol is Sixel ==> r,
        protocol is HalfBlock ==> !r,
{
}

/// A name is kept as it is, but for what no file's name may hold: that becomes an
/// underscore.
pub proof fn names_are_made_safe(s: &str, r: String, i: int)
    requires
        call_ensures(cover::sanitize_fs, (s,), r),
        s@.len() > 0,
        '/' <= s@.first() && s@.first() <= '~',
        '/' <= s@.last() && s@.last() <= '~',
        0 <= i < s@.len(),
    ensures
        r@.len() == s@.len(),
        s@[i] == '/' || s@[i] == '\\' || s@[i] == ':' || s@[i] == '*' || s@[i] == '?' || s@[i] == '"' || s@[i] == '<'
            || s@[i] == '>' || s@[i] == '|' || s@[i] == '\0' ==> r@[i] == '_',
        !(s@[i] == '/' || s@[i] == '\\' || s@[i] == ':' || s@[i] == '*' || s@[i] == '?' || s@[i] == '"' || s@[i] == '<'
            || s@[i] == '>' || s@[i] == '|' || s@[i] == '\0') ==> r@[i] == s@[i],
{
    let m = s@.map_values(
        |c: char|
            if cover::unsafe_in_name(c) {
                '_'
            } else {
                c
            },
    );
    let n = m.len() as int;
    lemma_kept_end(s@.last());
    lemma_kept_end(s@.first());
    assert(m[n - 1] == (if cover::unsafe_in_name(s@.last()) {
        '_'
    } else {
        s@.last()
    }));
    assert(m[0] == (if cover::unsafe_in_name(s@.first()) {
        '_'
    } else {
        s@.first()
    }));
    assert(cover::dots_end(m, n) == n);
    assert(text::white_end(m, n) == n);
    assert(text::white_start(m, 0, n) == 0);
    assert(m.subrange(0, n) =~= m);
}

proof fn lemma_kept_end(c: char)
    requires
        '/' <= c && c <= '~',
    ensures
        c != '.' && c != ' ',
        !text::is_white(c),
        !text::is_white('_'),
{
}

/// A cover is kept under its artist and album, with the settings; where one of these
/// is not known it is not kept.
pub proof fn covers_are_kept_by_album(
    dir: &str,
    artist: &str,
    album: &str,
    a: String,
    b: String,
    r: Option<String>,
    none: Option<String>,
)
    requires
        call_ensures(cover::cache_path_for, (Some(dir), Some(artist), Some(album)), r),
        call_ensures(cover::cache_path_for, (Some(dir), None, Some(album)), none),
        call_ensures(cover::sanitize_fs, (artist,), a),
        call_ensures(cover::sanitize_fs, (album,), b),
    ensures
        a@.len() > 0 && b@.len() > 0 ==> r is Some && r->0@ == path::joined(
            path::joined(dir@, "covers"@),
            a@ + " - "@ + b@ + ".cover.jpg"@,
        ),
        a@.len() == 0 || b@.len() == 0 ==> r is None,
        none is None,
{
}

/// Pictures beside a track come first, a cover or a folder's picture ahead of the
/// others; behind them come those that were fetched.
pub proof fn pictures_beside_a_track_come_first(
    track: &str,
    dir: &str,
    artist: &str,
    album: &str,
    folder: Option<String>,
    kept: Option<String>,
    older: Option<String>,
    r: Vec<String>,
)
    requires
        call_ensures(cover::cover_files, (track, Some(dir), Some(artist), Some(album)), r),
        call_ensures(path::parent, (track,), folder),
        call_ensures(cover::cache_path_for, (Some(dir), Some(artist), Some(album)), kept),
        call_ensures(cover::legacy_cache_path_for, (track, Some(artist), Some(album)), older),
        folder is Some,
        kept is Some,
        older is Some,
    ensures
        r@.len() == 18,
        r@[0]@ == path::joined(folder->0@, "cover.jpg"@),
        r@[1]@ == path::joined(folder->0@, "cover.jpeg"@),
        r@[2]@ == path::joined(folder->0@, "cover.png"@),
        r@[3]@ == path::joined(folder->0@, "cover.webp"@),
        r@[4]@ == path::joined(folder->0@, "folder.jpg"@),
        r@[5]@ == path::joined(folder->0@, "folder.jpeg"@),
        r@[6]@ == path::joined(folder->0@, "folder.png"@),
        r@[7]@ == path::joined(folder->0@, "front.jpg"@),
        r@[8]@ == path::joined(folder->0@, "front.jpeg"@),
        r@[9]@ == path::joined(folder->0@, "front.png"@),
        r@[10]@ == path::joined(folder->0@, "album.jpg"@),
        r@[11]@ == path::joined(folder->0@, "album.jpeg"@),
        r@[12]@ == path::joined(folder->0@, "album.png"@),
        r@[13]@ == path::joined(folder->0@, "Cover.jpg"@),
        r@[14]@ == path::joined(folder->0@, "Folder.jpg"@),
        r@[15]@ == path::joined(folder->0@, "Front.jpg"@),
        r@[16]@ == kept->0@,
        r@[17]@ == older->0@,
{
    let t = text::texts(r@);
    assert(t.len() == r@.len());
    assert(cover::sidecars().len() == 16);
    assert(t.len() == 18);
    assert forall|i: int| 0 <= i < 18 implies (#[trigger] r@[i])@ == t[i] by {}
    assert(cover::sidecars()[0] == "cover.jpg"@);
    assert(cover::sidecars()[1] == "cover.jpeg"@);
    assert(cover::sidecars()[2] == "cover.png"@);
    assert(cover::sidecars()[3] == "cover.webp"@);
    assert(cover::sidecars()[4] == "folder.jpg"@);
    assert(cover::sidecars()[5] == "folder.jpeg"@);
    assert(cover::sidecars()[6] == "folder.png"@);
    assert(cover::sidecars()[7] == "front.jpg"@);
    assert(cover::sidecars()[8] == "front.jpeg"@);
    assert(cover::sidecars()[9] == "front.png"@);
    assert(cover::sidecars()[10] == "album.jpg"@);
    assert(cover::sidecars()[11] == "album.jpeg"@);
    assert(cover::sidecars()[12] == "album.png"@);
    assert(cover::sidecars()[13] == "Cover.jpg"@);
    assert(cover::sidecars()[14] == "Folder.jpg"@);
    assert(cover::sidecars()[15] == "Front.jpg"@);
}

/// The service is asked for the artist and the album, and for its largest picture.
pub proof fn the_service_is_asked_for_the_album(artist: &str, album: &str, both: &str, e: String, r: String)
    requires
        call_ensures(cover::itunes_url, (artist, album), r),
        both@ == artist@ + seq![' '] + album@,
        call_ensures(cover::urlencoded, (both,), e),
    ensures
        r@ == "https://itunes.apple.com/search?term="@ + e@ + "&media=music&entity=album&limit=1"@,
{
    assert(both@ =~= artist@.push(' ') + album@);
}

/// A link to a small picture becomes one to a large picture, and is else as it was.
pub proof fn pictures_are_asked_for_large(url: &str, r: String, k: int)
    requires
        call_ensures(cover::large_artwork_url, (url,), r),
        text::stands_at(url@, "100x100"@, k),
        forall|m: int| 0 <= m < k ==> !text::stands_at(url@, "100x100"@, m),
    ensures
        r@ == url@.take(k) + "600x600"@ + url@.skip(k + 7),
{
    reveal_strlit("100x100");
    text_laws::lemma_first_at(url@, "100x100"@, 0, k);
    assert(url@.skip(k + 7) =~= url@.subrange(k + 7, url@.len() as int));
}

/// A small picture goes to Kitty in one piece, which says that nothing follows.
pub proof fn small_pictures_go_in_one_piece(png: &[u8], size: CoverSize, data: String, r: String)
    requires
        call_ensures(cover::kitty_transmit, (png, size), r),
        call_ensures(cover::base64_encode, (png,), data),
        0 < data@.len() <= 4096,
    ensures
        r@ == "\x1B_G"@ + ("a=T,f=100,i=1,c="@ + text::dec(size.cols as nat) + ",r="@ + text::dec(size.rows as nat)
            + ",C=1,q=2,"@) + "m=0;"@ + data@ + "\x1B\\"@,
{
    assert(data@.subrange(0, data@.len() as int) =~= data@);
    assert(cover::kitty_chunks(data@, data@.len() as int, cover::cover_head(size)) =~= Seq::<char>::empty());
}

/// A half block shows two pixels: the upper one in front, the lower one behind it.
pub proof fn half_blocks_show_two_pixels(height: u32, pixels: &[u8], r: Vec<String>, k: int)
    requires
        1 * height * 3 <= pixels@.len(),
        height < u32::MAX,
        call_ensures(cover::render_half_block, (1u32, height, pixels), r),
        0 <= k,
        2 * k + 1 < height,
    ensures
        r@[k]@ == "\x1B["@ + "38"@ + ";2;"@ + text::dec(pixels@[6 * k] as nat) + ";"@ + text::dec(
            pixels@[6 * k + 1] as nat,
        ) + ";"@ + text::dec(pixels@[6 * k + 2] as nat) + "m"@ + ("\x1B["@ + "48"@ + ";2;"@ + text::dec(
            pixels@[6 * k + 3] as nat,
        ) + ";"@ + text::dec(pixels@[6 * k + 4] as nat) + ";"@ + text::dec(pixels@[6 * k + 5] as nat) + "m"@) + seq!['▀']
            + "\x1B[0m"@,
{
    let p = pixels@;
    let top = cover::pixel(p, 1, 0, 2 * k);
    let bottom = cover::pixel(p, 1, 0, 2 * k + 1);
    assert(cover::half_cells(p, 1, height as int, 2 * k, 0) =~= Seq::<char>::empty());
    assert(cover::half_cells(p, 1, height as int, 2 * k, 1) =~= (Seq::<char>::empty() + cover::paint("38"@, top)
        + cover::paint("48"@, bottom)).push('▀'));
    assert(r@[k]@ == cover::half_line(p, 1, height as int, 2 * k));
    assert(r@[k]@ =~= cover::paint("38"@, top) + cover::paint("48"@, bottom) + seq!['▀'] + "\x1B[0m"@);
}

/// Each theme has its own size of covers.
pub proof fn themes_have_their_sizes(kind: ThemeKind, r: CoverSize, px: (u32, u32))
    requires
        call_ensures(CoverSize::for_theme, (kind,), r),
        call_ensures(CoverSize::sixel_px, (&r,), px),
    ensures
        kind is Minimal ==> r.cols == 18 && r.rows == 8,
        kind is Classic || kind is HiFi ==> r.cols == 20 && r.rows == 10,
        px.0 == 10 * r.cols && px.1 == 20 * r.rows,
{
}

proof fn lemma_report(six: Seq<char>, hs: Seq<char>, ws: Seq<char>, h: u32, w: u32)
    requires
        six == seq!['6'],
        hs == text::dec(h as nat),
        ws == text::dec(w as nat),
        lyrics_laws::free_of(hs, ';'),
        lyrics_laws::free_of(ws, ';'),
    ensures
        cover::report_numbers(six.push(';') + (hs.push(';') + ws)) == Some((6u32, h, w)),
{
    let tail = hs.push(';') + ws;
    let body = six.push(';') + tail;
    assert(body[1] == ';');
    assert(body[0] == '6');
    text_laws::lemma_find_first(body, ';', 0, 1);
    assert(body.subrange(0, 1) =~= six);
    assert(body.skip(2) =~= tail);
    text_laws::lemma_split_shift(body, tail, ';', 2, 0);
    lyrics_laws::lemma_split_two(tail, hs, ws, ';');
    assert(text::split_from(body, ';', 0) =~= seq![six, hs, ws]);
    text_laws::lemma_dec_digits(h as nat);
    text_laws::lemma_dec_digits(w as nat);
    assert(text::u32_in(hs) == Some(h));
    assert(text::u32_in(ws) == Some(w));
    assert(text::digits_value(six, 0, 0) == 0);
    assert(text::digits_value(six, 0, 1) == text::digits_value(six, 0, 0) * 10 + text::digit_value(six[0]));
    assert(text::u32_in(six) == Some(6u32));
}

/// A terminal that says how large its cells are is believed: height before width.
pub proof fn cells_are_as_large_as_the_terminal_says(
    buf: &str,
    cols: u16,
    rows: u16,
    w: u32,
    h: u32,
    r: Option<(u16, u16)>,
)
    requires
        call_ensures(cover::parse_cell_metrics_reply, (buf, cols, rows), r),
        4 <= w <= 64,
        8 <= h <= 128,
        buf@ == "\x1B["@ + ((seq!['6']).push(';') + (text::dec(h as nat).push(';') + text::dec(w as nat))) + "t"@,
    ensures
        r == Some((w as u16, h as u16)),
{
    reveal_strlit("\x1B[");
    reveal_strlit("t");
    let six = seq!['6'];
    let hs = text::dec(h as nat);
    let ws = text::dec(w as nat);
    let tail = hs.push(';') + ws;
    let body = six.push(';') + tail;
    let s = buf@;
    text_laws::lemma_dec_digits(h as nat);
    text_laws::lemma_dec_digits(w as nat);
    let n = body.len() as int;
    assert(s[0] == '\x1B' && s[1] == '[');
    assert(s[n + 2] == 't');
    assert forall|m: int| 0 <= m < hs.len() implies (#[trigger] hs[m]) != ';' && hs[m] != 't' by {
        lemma_digit_is_plain(hs[m]);
    }
    assert forall|m: int| 0 <= m < ws.len() implies (#[trigger] ws[m]) != ';' && ws[m] != 't' by {
        lemma_digit_is_plain(ws[m]);
    }
    assert forall|m: int| 2 <= m < n + 2 implies #[trigger] s[m] != 't' by {
        let j = m - 2;
        assert(s[m] == body[j]);
        if j == 0 {
            assert(body[0] == '6');
        } else if j == 1 {
            assert(body[1] == ';');
        } else if j - 2 < hs.len() {
            assert(body[j] == hs[j - 2]);
        } else if j - 2 == hs.len() {
            assert(body[j] == ';');
        } else {
            assert(body[j] == ws[j - 3 - hs.len()]);
        }
    }
    text_laws::lemma_find_first(s, 't', 2, n + 2);
    assert(s.subrange(2, n + 2) =~= body);
    lemma_report(six, hs, ws, h, w);
    assert(cover::report_at(s, 0) == Some((6u32, h, w)));
    assert(cover::sane_metrics(w, h) == Some((w as u16, h as u16)));
}

proof fn lemma_digit_is_plain(c: char)
    requires
        text::is_digit(c),
    ensures
        c != ';' && c != 't',
{
}

/// A column of six pixels becomes a number that has, from top to bottom, a bit for each
/// pixel of the colour that is drawn.
pub proof fn sixels_have_a_bit_for_each_pixel(indices: Seq<u8>, w: int, y: int, c: int, x: int)
    ensures
        ({
            let b = cover::sixel_bits(indices, w, y, 6, c, x);
            &&& 0 <= b < 64
            &&& b % 2 == 1 <==> indices[(y + 0) * w + x] as int == c
            &&& b / 2 % 2 == 1 <==> indices[(y + 1) * w + x] as int == c
            &&& b / 4 % 2 == 1 <==> indices[(y + 2) * w + x] as int == c
            &&& b / 8 % 2 == 1 <==> indices[(y + 3) * w + x] as int == c
            &&& b / 16 % 2 == 1 <==> indices[(y + 4) * w + x] as int == c
            &&& b / 32 % 2 == 1 <==> indices[(y + 5) * w + x] as int == c
        }),
{
    reveal_with_fuel(cover::sixel_bits, 7);
}

/// A run of equal columns is written once with its length, where that is shorter, and
/// else column by column.
pub proof fn sixel_runs_are_shortened(bits: Seq<int>, b: int)
    requires
        bits.len() > 0,
        0 <= b < 64,
        forall|i: int| 0 <= i < bits.len() ==> #[trigger] bits[i] == b,
    ensures
        bits.len() > 3 ==> cover::sixel_runs(bits, 0) == "!"@ + text::dec(bits.len()) + seq![(63 + b) as u8 as char],
        bits.len() <= 3 ==> cover::sixel_runs(bits, 0) == text::rep((63 + b) as u8 as char, bits.len()),
{
    let n = bits.len() as int;
    lemma_run_to_the_end(bits, 1);
    assert(bits[0] == b);
    assert(cover::sixel_runs(bits, n) =~= Seq::<char>::empty());
    let ch = (63 + b) as u8 as char;
    if n > 3 {
        assert(cover::sixel_runs(bits, 0) =~= "!"@ + text::dec(bits.len()) + seq![ch]);
    } else {
        assert(cover::sixel_runs(bits, 0) =~= text::rep(ch, bits.len()));
    }
}

proof fn lemma_run_to_the_end(bits: Seq<int>, e: int)
    requires
        1 <= e <= bits.len(),
        forall|i: int| 0 <= i < bits.len() ==> #[trigger] bits[i] == bits[0],
    ensures
        cover::run_end(bits, 0, e) == bits.len(),
    decreases bits.len() - e,
{
    if e < bits.len() {
        assert(bits[e] == bits[0]);
        lemma_run_to_the_end(bits, e + 1);
    }
}

/// A colour is given in hundredths of full, behind its number.
pub proof fn sixel_colours_are_in_hundredths(palette: Seq<(u8, u8, u8)>, c: u8, v: int)
    requires
        palette.len() > 0,
        palette.last() == (c, c, c),
        v * 255 <= c * 100 < (v + 1) * 255,
    ensures
        cover::sixel_colors(palette, palette.len() as int) == cover::sixel_colors(palette, palette.len() - 1) + ("#"@
            + text::dec((palette.len() - 1) as nat) + ";2;"@ + text::dec(v as nat) + ";"@ + text::dec(v as nat) + ";"@
            + text::dec(v as nat)),
{
    assert((c as nat * 100) / 255 == v);
}

/// A picture that is too large for one piece goes to Kitty in several, of which all but
/// the last say that more follow.
pub proof fn large_pictures_go_in_pieces(png: &[u8], size: CoverSize, data: String, r: String)
    requires
        call_ensures(cover::kitty_transmit, (png, size), r),
        call_ensures(cover::base64_encode, (png,), data),
        4096 < data@.len() <= 8192,
    ensures
        r@ == "\x1B_G"@ + cover::cover_head(size) + "m=1;"@ + data@.take(4096) + "\x1B\\"@ + ("\x1B_G"@ + "m=0;"@
            + data@.skip(4096) + "\x1B\\"@),
{
    let d = data@;
    let n = d.len() as int;
    let head = cover::cover_head(size);
    assert(d.subrange(0, 4096) =~= d.take(4096));
    assert(d.subrange(4096, n) =~= d.skip(4096));
    assert(cover::kitty_chunks(d, n, head) =~= Seq::<char>::empty());
    assert(cover::kitty_chunks(d, 4096, head) =~= "\x1B_G"@ + "m=0;"@ + d.skip(4096) + "\x1B\\"@);
}

/// Pixels get full opacity, and keep their colours.
pub proof fn pixels_are_opaque(rgb: Seq<u8>, i: int)
    requires
        0 <= i < rgb.len() / 3,
    ensures
        cover::opaque_pixels(rgb)[4 * i] == rgb[3 * i],
        cover::opaque_pixels(rgb)[4 * i + 1] == rgb[3 * i + 1],
        cover::opaque_pixels(rgb)[4 * i + 2] == rgb[3 * i + 2],
        cover::opaque_pixels(rgb)[4 * i + 3] == 255,
        cover::opaque_pixels(rgb).len() == rgb.len() / 3 * 4,
{
}

/// Covers that older versions fetched lie beside their tracks.
pub proof fn older_covers_lie_beside_their_tracks(
    track: &str,
    artist: &str,
    album: &str,
    folder: Option<String>,
    a: String,
    b: String,
    r: Option<String>,
)
    requires
        call_ensures(cover::legacy_cache_path_for, (track, Some(artist), Some(album)), r),
        call_ensures(path::parent, (track,), folder),
        call_ensures(cover::sanitize_fs, (artist,), a),
        call_ensures(cover::sanitize_fs, (album,), b),
        folder is Some,
        a@.len() > 0,
        b@.len() > 0,
    ensures
        r is Some && r->0@ == path::joined(folder->0@, a@ + " - "@ + b@ + ".cover.jpg"@),
{
}

/// Sizes of cells that cannot be are not believed.
pub proof fn cells_have_sane_sizes(w: u32, h: u32)
    ensures
        cover::sane_metrics(w, h) is Some <==> 4 <= w <= 64 && 8 <= h <= 128,
{
}

/// A picture becomes what the terminal takes, in the slot it is for.
pub proof fn pictures_become_what_the_terminal_takes(
    protocol: GraphicsProtocol,
    bytes: &[u8],
    size: CoverSize,
    r: Option<CoverImage>,
    slot: CoverSize,
)
    requires
        size.cols <= 0xffff,
        size.rows <= 0xffff,
        cover::fits_memory(size.cols * 10, size.rows * 20),
        call_ensures(cover::decode_and_resize, (protocol, bytes, size), r),
        r is Some,
        call_ensures(CoverImage::size, (&r->0,), slot),
    ensures
        slot == size,
        protocol is Kitty <==> r->0 is Kitty,
        protocol is Iterm2 <==> r->0 is Iterm2,
        protocol is Sixel <==> r->0 is Sixel,
        protocol is HalfBlock <==> r->0 is HalfBlock,
{
}

/// Half blocks have a pixel to a column and two to a row; the others are drawn from more.
pub proof fn slots_have_their_pixels(size: CoverSize)
    requires
        size.cols <= 0xffff,
        size.rows <= 0xffff,
    ensures
        cover::target(GraphicsProtocol::HalfBlock, size) == (size.cols, (2 * size.rows) as u32),
        cover::target(GraphicsProtocol::Sixel, size) == ((10 * size.cols) as u32, (20 * size.rows) as u32),
        cover::target(GraphicsProtocol::Kitty, size) == (320u32, 320u32),
        cover::target(GraphicsProtocol::Iterm2, size) == (320u32, 320u32),
{
}

/// A slot without a picture is as wide and as high as one with: blank, or black, or
/// stepped over where an image stays.
pub proof fn empty_slots_keep_their_size(
    protocol: GraphicsProtocol,
    size: CoverSize,
    a: Vec<String>,
    b: Vec<String>,
    c: Vec<String>,
    i: int,
)
    requires
        size.rows > 0,
        call_ensures(cover::passive_lines, (size,), a),
        call_ensures(cover::placeholder_lines, (size,), b),
        call_ensures(cover::empty_slot_lines, (protocol, size), c),
        1 <= i < size.rows,
    ensures
        a@.len() == size.rows && b@.len() == size.rows && c@.len() == size.rows,
        a@[i]@ == "\x1B["@ + text::dec(size.cols as nat) + "C"@,
        b@[i]@ == "\x1B[48;2;0;0;0m"@ + text::rep(' ', size.cols as nat) + "\x1B[0m"@,
        c@[i]@ == text::rep(' ', size.cols as nat),
        protocol !is Kitty ==> c@[0]@ == text::rep(' ', size.cols as nat),
        protocol is Kitty ==> c@[0]@ == "\x1B_Ga=d,d=i,i=1,q=2\x1B\\"@ + text::rep(' ', size.cols as nat),
{
    assert(Seq::<char>::empty() + text::rep(' ', size.cols as nat) =~= text::rep(' ', size.cols as nat));
}

/// The cover and the visualisation are images of their own: clearing one leaves the other.
pub proof fn images_are_cleared_one_by_one(a: String, b: String)
    requires
        call_ensures(cover::kitty_clear_escape, (), a),
        call_ensures(cover::viz_image_clear_escape, (), b),
    ensures
        a@ == "\x1B_Ga=d,d=i,i=1,q=2\x1B\\"@,
        b@ == "\x1B_Ga=d,d=i,i=2,q=2\x1B\\"@,
{
}

/// The size of a cell reads back as it was noted.
pub proof fn cell_sizes_read_back(w: u16, h: u16, p: u32, r: Option<(u16, u16)>, none: u32, nothing: Option<(u16, u16)>)
    requires
        4 <= w <= 64,
        8 <= h <= 128,
        call_ensures(cover::set_cell_metrics, (Some((w, h)),), p),
        call_ensures(cover::cell_metrics, (p,), r),
        call_ensures(cover::set_cell_metrics, (None,), none),
        call_ensures(cover::cell_metrics, (none,), nothing),
    ensures
        r == Some((w, h)),
        nothing is None,
{
    cover::cell_metrics_read_back(w, h);
}

/// An image for iTerm2 says how many bytes and how large it is, and goes back to where it
/// began.
pub proof fn inline_images_say_their_size(png: &[u8], cols: u32, rows: u32, data: String, lines: Vec<String>)
    requires
        rows > 0,
        call_ensures(cover::viz_iterm2_lines, (png, cols, rows), lines),
        call_ensures(cover::base64_encode, (png,), data),
    ensures
        lines@.len() == rows,
        lines@[0]@ == "\x1B[s\x1B]1337;File=size="@ + text::dec(png@.len()) + ";width="@ + text::dec(cols as nat)
            + ";height="@ + text::dec(rows as nat) + ";inline=1;preserveAspectRatio=1:"@ + data@ + "\x07\x1B[u"@ + ("\x1B["@
            + text::dec(cols as nat) + "C"@),
{
}

/// A picture in sixels begins and ends as such, with its colours first and then its bands,
/// each of six rows.
pub proof fn sixels_come_in_bands(indices: &[u8], palette: &[(u8, u8, u8)], w: usize, h: usize, r: String)
    requires
        w * h <= indices@.len(),
        call_ensures(cover::sixel_encode_indexed, (indices, palette, w, h), r),
        0 < h <= 6,
        palette@.len() <= 256,
    ensures
        r@ == "\x1BP9;1;0q"@ + cover::sixel_colors(palette@, palette@.len() as int) + cover::sixel_overlays(
            indices@,
            w as int,
            0,
            h as int,
            palette@.len() as int,
        ).push('-') + "\x1B\\"@,
{
    let n = palette@.len() as int;
    let o = cover::sixel_overlays(indices@, w as int, 0, h as int, n).push('-');
    assert(cover::sixel_bands(indices@, w as int, h as int, h as int, n) =~= Seq::<char>::empty());
    assert(cover::sixel_bands(indices@, w as int, h as int, 0, n) =~= o);
}

/// Of a band each colour that occurs in it is drawn once, and no other.
pub proof fn bands_draw_the_colours_they_have(indices: Seq<u8>, w: int, y0: int, y1: int, n: int, k: int)
    requires
        n > 0,
        y0 * w <= k < y1 * w,
        indices[k] as int == n - 1,
    ensures
        cover::sixel_overlays(indices, w, y0, y1, n) == cover::sixel_overlays(indices, w, y0, y1, n - 1) + ("#"@
            + text::dec((n - 1) as nat) + cover::sixel_runs(cover::sixel_row(indices, w, y0, y1 - y0, n - 1), 0)).push('$'),
{
    assert(cover::color_in(indices, y0 * w, y1 * w, n - 1));
}

/// The visualisation goes to Kitty as an image of its own, which takes the place of the
/// last.
pub proof fn visualisations_are_images_of_their_own(png: &[u8], cols: u32, rows: u32, data: String, lines: Vec<String>)
    requires
        rows > 0,
        call_ensures(cover::viz_kitty_lines, (png, cols, rows), lines),
        call_ensures(cover::base64_encode, (png,), data),
        0 < data@.len() <= 4096,
    ensures
        lines@.len() == rows,
        lines@[0]@ == "\x1B_G"@ + ("a=T,f=100,i=2,p=1,c="@ + text::dec(cols as nat) + ",r="@ + text::dec(rows as nat)
            + ",C=1,q=2,"@) + "m=0;"@ + data@ + "\x1B\\"@ + text::rep(' ', cols as nat),
{
    let d = data@;
    let head = cover::viz_head(cols, rows);
    assert(d.subrange(0, d.len() as int) =~= d);
    assert(cover::kitty_chunks(d, d.len() as int, head) =~= Seq::<char>::empty());
    assert(cover::kitty_chunks(d, 0, head) =~= "\x1B_G"@ + head + "m=0;"@ + d + "\x1B\\"@);
}

/// A cover is drawn line by line from what was made of it.
pub proof fn covers_are_drawn(
    width: u32,
    height: u32,
    pixels: Vec<u8>,
    size: CoverSize,
    img: CoverImage,
    a: Vec<String>,
    p: &[u8],
    b: Vec<String>,
)
    requires
        img == (CoverImage::HalfBlock { width, height, pixels, size }),
        cover::is_whole(img),
        p@ == pixels@,
        call_ensures(cover::render, (&img,), a),
        call_ensures(cover::render_half_block, (width, height, p), b),
    ensures
        text::texts(a@) == text::texts(b@),
{
    let x = text::texts(a@);
    let y = text::texts(b@);
    assert forall|k: int| 0 <= k < y.len() implies x[k] == y[k] by {
        assert(y[k] == b@[k]@);
    }
    assert(x =~= y);
}

/// Sixels of a visualisation first wipe the rows they are drawn over.
pub proof fn sixels_wipe_their_rows(rows: int)
    requires
        rows > 0,
    ensures
        cover::erase_rows(rows) == cover::erase_rows(rows - 1) + "\x1B[2K\x1B[B"@,
        cover::erase_rows(0).len() == 0,
{
}

} // verus!
