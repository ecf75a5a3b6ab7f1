//! The graphics card: what the system reports of it, read into a
//! `GpuInfo`, and the text of its panel.

use vstd::prelude::*;
use crate::text::{
    chars_of, contains, decimal, ends_with, find, is_digit, law_decimal_parses_back,
    lemma_decimal_digits, lemma_find_after, lemma_trim_decimal_line, lines, lines_chars,
    parse_u32, parse_u64, parse_unsigned, push_decimal, split, split_chars, split_once,
    split_once_chars, str_contains, string_of, trim, trim_chars, trim_end_matches,
    trim_end_matches_chars, views, Trimmed,
};
use crate::windows::Win32_VideoController;

verus! {

/// What the dashboard shows of the graphics card.
pub struct GpuInfo {
    pub name: String,
    pub horizontal_resolution: Option<u32>,
    pub vertical_resolution: Option<u32>,
    pub refresh_rate: Option<u32>,
    /// Video memory: in bytes as Windows reports it; on Linux the reading
    /// of `mem_info_vram_total`, already in whole MiB.
    pub vram: u64,
}

/// The number shown for an optional reading: the reading, or 0 when absent.
pub open spec fn shown(o: Option<u32>) -> nat {
    match o {
        Some(x) => x as nat,
        None => 0,
    }
}

/// The text of the graphics panel.
pub open spec fn gpu_text(g: GpuInfo) -> Seq<char> {
    "\nNombre: "@ + g.name@ + "\nResolución horizontal: "@ + decimal(shown(g.horizontal_resolution))
        + " px\nResolución vertical: "@ + decimal(shown(g.vertical_resolution))
        + " px\nFrecuencia de actualización: "@ + decimal(shown(g.refresh_rate)) + " Hz\nVRAM: "@
        + decimal((g.vram / 1024 / 1024) as nat) + " MB\n"@
}

/// The reading shown for an optional value.
fn shown_value(o: Option<u32>) -> (r: u64)
    ensures
        r as nat == shown(o),
{
    match o {
        Some(x) => x as u64,
        None => 0,
    }
}

impl GpuInfo {
    /// The text of the graphics panel: name, resolutions and refresh rate
    /// (0 where unknown), and video memory in whole MiB.
    pub fn to_text(&self) -> (s: String)
        ensures
            s@ == gpu_text(*self),
    {
        let mut s = String::new();
        s.append("\nNombre: ");
        s.append(self.name.as_str());
        s.append("\nResolución horizontal: ");
        push_decimal(&mut s, shown_value(self.horizontal_resolution));
        s.append(" px\nResolución vertical: ");
        push_decimal(&mut s, shown_value(self.vertical_resolution));
        s.append(" px\nFrecuencia de actualización: ");
        push_decimal(&mut s, shown_value(self.refresh_rate));
        s.append(" Hz\nVRAM: ");
        push_decimal(&mut s, self.vram / 1024 / 1024);
        s.append(" MB\n");
        proof {
            assert(s@ =~= gpu_text(*self));
        }
        s
    }

    /// The graphics card as the Windows video controller reports it.
    pub fn from_video_controller(vc: &Win32_VideoController) -> (g: GpuInfo)
        ensures
            g.name@ == vc.name@,
            g.horizontal_resolution == Some(vc.current_horizontal_resolution as u32),
            g.vertical_resolution == Some(vc.current_vertical_resolution as u32),
            g.refresh_rate == Some(vc.current_refresh_rate as u32),
            g.vram == vc.adapter_ram as u64,
    {
        GpuInfo {
            name: vc.name.clone(),
            horizontal_resolution: Some(vc.current_horizontal_resolution as u32),
            vertical_resolution: Some(vc.current_vertical_resolution as u32),
            refresh_rate: Some(vc.current_refresh_rate as u32),
            vram: vc.adapter_ram as u64,
        }
    }
}


/// The name `lspci` gives when no display controller is listed.
pub open spec fn unknown_name() -> Seq<char> {
    "Desconocido"@
}

/// Whether an `lspci` line describes a display controller.
pub open spec fn is_display_line(l: Seq<char>) -> bool {
    contains(l, "VGA"@) || contains(l, "3D"@) || contains(l, "Display"@)
}

/// Whether the line gives a name: it describes a display controller and
/// has a third `:`-separated field.
pub open spec fn names_gpu(l: Seq<char>) -> bool {
    is_display_line(l) && split(l, ':').len() > 2
}

/// The name read from the lines `ls` from the `i`-th on: the third
/// `:`-separated field of the first line that names a display controller,
/// trimmed; otherwise the unknown name.
pub open spec fn name_in_lines(ls: Seq<Seq<char>>, i: int) -> Seq<char>
    decreases ls.len() - i,
{
    if i < 0 || i >= ls.len() {
        unknown_name()
    } else if names_gpu(ls[i]) {
        trim(split(ls[i], ':')[2], Trimmed::Whitespace)
    } else {
        name_in_lines(ls, i + 1)
    }
}

/// The graphics card's name as read from the output of `lspci -v`
/// (absent when the command could not be run).
pub open spec fn lspci_gpu_name(output: Option<Seq<char>>) -> Seq<char> {
    match output {
        Some(o) => name_in_lines(lines(o), 0),
        None => unknown_name(),
    }
}

/// The graphics card's name in the output of `lspci -v`.
pub fn gpu_name_from_lspci(output: Option<&str>) -> (name: String)
    ensures
        name@ == lspci_gpu_name(
            match output {
                Some(o) => Some(o@),
                None => None,
            },
        ),
{
    let out = match output {
        Some(o) => o,
        None => {
            return String::from_str("Desconocido");
        },
    };
    let v = chars_of(out);
    let ls = lines_chars(&v);
    let n = ls.len();
    let ghost lv = views(ls@);
    let mut i: usize = 0;
    while i < n
        invariant
            i <= n,
            n == ls@.len(),
            lv == views(ls@),
            lv == lines(v@),
            v@ == out@,
            output == Some(out),
            name_in_lines(lv, 0) == name_in_lines(lv, i as int),
        decreases n - i,
    {
        let line = &ls[i];
        proof {
            assert(line@ == lv[i as int]);
        }
        let display = str_contains(line, "VGA") || str_contains(line, "3D") || str_contains(
            line,
            "Display",
        );
        if display {
            let fields = split_chars(line, ':');
            if fields.len() > 2 {
                proof {
                    assert(views(fields@)[2] == fields@[2]@);
                    assert(split(lv[i as int], ':') == views(fields@));
                    assert(names_gpu(lv[i as int]));
                }
                let name = trim_chars(&fields[2], Trimmed::Whitespace);
                proof {
                    assert(name@ == trim(split(lv[i as int], ':')[2], Trimmed::Whitespace));
                    assert(name_in_lines(lv, i as int) == name@);
                }
                return string_of(&name);
            }
        }
        i = i + 1;
    }
    String::from_str("Desconocido")
}

/// Whether a `/sys/class/drm` entry is taken for a connected card's output.
pub open spec fn is_connected_card_spec(entry: Seq<char>) -> bool {
    contains(entry, "card"@) && contains(entry, "connected"@)
}

/// Whether a `/sys/class/drm` entry's name mentions both `card` and `connected`.
pub fn is_connected_card(entry: &str) -> (b: bool)
    ensures
        b == is_connected_card_spec(entry@),
{
    let v = chars_of(entry);
    str_contains(&v, "card") && str_contains(&v, "connected")
}

/// A display mode read from a `modes` file: each part absent when unread.
pub struct DisplayMode {
    pub horizontal: Option<u32>,
    pub vertical: Option<u32>,
    pub refresh_rate: Option<u32>,
}

/// What `s.parse::<u32>().ok()` gives.
pub open spec fn read_u32(s: Seq<char>) -> Option<u32> {
    match parse_unsigned(s, u32::MAX as nat) {
        Some(x) => Some(x as u32),
        None => None,
    }
}

/// The refresh rate assumed when a mode line gives none.
pub open spec fn default_refresh_rate() -> u32 {
    60
}

/// The mode of a `modes` line: `WxH@RHz` gives all three; without `@`,
/// `WxH` gives the resolution and the default rate; each number that does
/// not read stays absent.
pub open spec fn mode_of_line(l: Seq<char>) -> DisplayMode {
    match split_once(l, '@') {
        Some((res, hz)) => {
            let rate = read_u32(trim_end_matches(hz, "Hz"@));
            match split_once(res, 'x') {
                Some((w, h)) => DisplayMode {
                    horizontal: read_u32(w),
                    vertical: read_u32(h),
                    refresh_rate: rate,
                },
                None => DisplayMode { horizontal: None, vertical: None, refresh_rate: rate },
            }
        },
        None => match split_once(l, 'x') {
            Some((w, h)) => DisplayMode {
                horizontal: read_u32(w),
                vertical: read_u32(h),
                refresh_rate: Some(default_refresh_rate()),
            },
            None => DisplayMode { horizontal: None, vertical: None, refresh_rate: None },
        },
    }
}

/// `v` read as a `u32`, if it is one.
fn read_u32_chars(v: &[char]) -> (r: Option<u32>)
    ensures
        r == read_u32(v@),
{
    parse_u32(v)
}

/// The display mode of the first line of a `modes` file.
pub fn parse_mode_line(line: &str) -> (m: DisplayMode)
    ensures
        m == mode_of_line(line@),
{
    let v = chars_of(line);
    match split_once_chars(&v, '@') {
        Some((res, hz)) => {
            let unit = chars_of("Hz");
            let rate_text = trim_end_matches_chars(&hz, &unit);
            let rate = read_u32_chars(&rate_text);
            match split_once_chars(&res, 'x') {
                Some((w, h)) => DisplayMode {
                    horizontal: read_u32_chars(&w),
                    vertical: read_u32_chars(&h),
                    refresh_rate: rate,
                },
                None => DisplayMode { horizontal: None, vertical: None, refresh_rate: rate },
            }
        },
        None => match split_once_chars(&v, 'x') {
            Some((w, h)) => DisplayMode {
                horizontal: read_u32_chars(&w),
                vertical: read_u32_chars(&h),
                refresh_rate: Some(60),
            },
            None => DisplayMode { horizontal: None, vertical: None, refresh_rate: None },
        },
    }
}

/// The video memory read from `mem_info_vram_total` (absent when the file
/// does not exist or cannot be read): its trimmed number of bytes in whole
/// MiB, or 0 when it does not read as a `u64`.
pub open spec fn vram_of(content: Option<Seq<char>>) -> u64 {
    match content {
        Some(c) => match parse_unsigned(trim(c, Trimmed::Whitespace), u64::MAX as nat) {
            Some(b) => (b / 1024 / 1024) as u64,
            None => 0,
        },
        None => 0,
    }
}

/// The video memory, in MiB, that the sysfs file `mem_info_vram_total` gives.
pub fn vram_from_sysfs(content: Option<&str>) -> (mib: u64)
    ensures
        mib == vram_of(
            match content {
                Some(c) => Some(c@),
                None => None,
            },
        ),
{
    match content {
        Some(c) => {
            let v = chars_of(c);
            let t = trim_chars(&v, Trimmed::Whitespace);
            match parse_u64(&t) {
                Some(b) => b / 1024 / 1024,
                None => 0,
            }
        },
        None => 0,
    }
}

/// The graphics card from what Linux reports: the output of `lspci -v`,
/// the first line of the first connected card's `modes` file, and the
/// content of `mem_info_vram_total` (each absent when it could not be read).
pub fn gpu_from_readings(lspci: Option<&str>, mode_line: Option<&str>, vram_file: Option<&str>) -> (g: GpuInfo)
    ensures
        g.name@ == lspci_gpu_name(
            match lspci {
                Some(o) => Some(o@),
                None => None,
            },
        ),
        match mode_line {
            Some(l) => {
                let m = mode_of_line(l@);
                &&& g.horizontal_resolution == m.horizontal
                &&& g.vertical_resolution == m.vertical
                &&& g.refresh_rate == m.refresh_rate
            },
            None => {
                &&& g.horizontal_resolution is None
                &&& g.vertical_resolution is None
                &&& g.refresh_rate is None
            },
        },
        g.vram == vram_of(
            match vram_file {
                Some(c) => Some(c@),
                None => None,
            },
        ),
{
    let name = gpu_name_from_lspci(lspci);
    let mode = match mode_line {
        Some(l) => parse_mode_line(l),
        None => DisplayMode { horizontal: None, vertical: None, refresh_rate: None },
    };
    GpuInfo {
        name,
        horizontal_resolution: mode.horizontal,
        vertical_resolution: mode.vertical,
        refresh_rate: mode.refresh_rate,
        vram: vram_from_sysfs(vram_file),
    }
}


/// The `modes` line that a mode of `w` by `h` at `r` Hz is written as.
pub open spec fn mode_line_text(w: nat, h: nat, r: nat) -> Seq<char> {
    decimal(w) + seq!['x'] + decimal(h) + seq!['@'] + decimal(r) + seq!['H', 'z']
}

/// Where `c`, a character that no decimal notation holds, first occurs in
/// `decimal(n) + seq![c] + rest`.
proof fn lemma_find_after_decimal(n: nat, c: char, rest: Seq<char>)
    requires
        !is_digit(c),
    ensures
        find(decimal(n) + seq![c] + rest, c) == Some(decimal(n).len()),
{
    lemma_decimal_digits(n);
    let d = decimal(n);
    let l = d + seq![c] + rest;
    assert forall|j: int| 0 <= j < d.len() implies l[j] != c by {
        assert(l[j] == d[j]);
        assert(is_digit(d[j]));
    }
    lemma_find_after(l, c, d.len() as int);
}

/// A mode line written from three numbers reads back as those numbers.
pub proof fn law_mode_line_round_trip(w: u32, h: u32, r: u32)
    ensures
        mode_of_line(mode_line_text(w as nat, h as nat, r as nat)) == (DisplayMode {
            horizontal: Some(w),
            vertical: Some(h),
            refresh_rate: Some(r),
        }),
{
    reveal_strlit("Hz");
    let a = decimal(w as nat);
    let b = decimal(h as nat);
    let c = decimal(r as nat);
    let l = mode_line_text(w as nat, h as nat, r as nat);
    let res = a + seq!['x'] + b;
    let hz = c + seq!['H', 'z'];
    assert(l =~= res + seq!['@'] + hz);
    lemma_decimal_digits(w as nat);
    lemma_decimal_digits(h as nat);
    lemma_decimal_digits(r as nat);
    assert forall|j: int| 0 <= j < res.len() implies l[j] != '@' by {
        if j < a.len() {
            assert(l[j] == a[j]);
            assert(is_digit(a[j]));
        } else if j > a.len() {
            assert(l[j] == b[j - a.len() - 1]);
            assert(is_digit(b[j - a.len() - 1]));
        }
    }
    lemma_find_after(l, '@', res.len() as int);
    assert(split_once(l, '@') == Some((res, hz))) by {
        assert(l.take(res.len() as int) =~= res);
        assert(l.skip(res.len() as int + 1) =~= hz);
    }
    lemma_find_after_decimal(w as nat, 'x', b);
    assert(res.take(a.len() as int) =~= a);
    assert(res.skip(a.len() as int + 1) =~= b);
    assert(ends_with(hz, "Hz"@)) by {
        assert(hz.subrange(hz.len() - 2, hz.len() as int) =~= "Hz"@);
    }
    assert(hz.subrange(0, hz.len() - 2) =~= c);
    assert(!ends_with(c, "Hz"@)) by {
        if c.len() >= 2 {
            assert(c.subrange(c.len() - 2, c.len() as int)[1] == c[c.len() - 1]);
            assert(is_digit(c[c.len() - 1]));
        }
    }
    assert(trim_end_matches(c, "Hz"@) == c);
    assert(trim_end_matches(hz, "Hz"@) == c);
    law_decimal_parses_back(w as nat, u32::MAX as nat);
    law_decimal_parses_back(h as nat, u32::MAX as nat);
    law_decimal_parses_back(r as nat, u32::MAX as nat);
}

/// A video-memory file holding a number of bytes and a newline reads as
/// that number in whole MiB.
pub proof fn law_vram_round_trip(bytes: u64)
    ensures
        vram_of(Some(decimal(bytes as nat) + seq!['\n'])) == bytes / 1024 / 1024,
{
    lemma_trim_decimal_line(bytes as nat);
    law_decimal_parses_back(bytes as nat, u64::MAX as nat);
}


/// The panel names the card, then gives the horizontal resolution and then
/// the vertical one, each the reading (0 when absent), whatever the other
/// field holds; the rest of the panel follows them.
pub proof fn law_gpu_text_resolutions(g: GpuInfo)
    ensures
        exists|rest: Seq<char>|
            gpu_text(g) == "\nNombre: "@ + g.name@ + "\nResolución horizontal: "@ + decimal(
                shown(g.horizontal_resolution),
            ) + " px\nResolución vertical: "@ + decimal(shown(g.vertical_resolution)) + rest,
{
    let rest = " px\nFrecuencia de actualización: "@ + decimal(shown(g.refresh_rate)) + " Hz\nVRAM: "@
        + decimal((g.vram / 1024 / 1024) as nat) + " MB\n"@;
    assert(gpu_text(g) =~= "\nNombre: "@ + g.name@ + "\nResolución horizontal: "@ + decimal(
        shown(g.horizontal_resolution),
    ) + " px\nResolución vertical: "@ + decimal(shown(g.vertical_resolution)) + rest);
}

/// Two cards with the same name and horizontal resolution have panels that
/// agree up to the end of the horizontal figure, whatever their vertical
/// resolutions are.
pub proof fn law_gpu_text_horizontal_alone(g1: GpuInfo, g2: GpuInfo)
    requires
        g1.name@ == g2.name@,
        g1.horizontal_resolution == g2.horizontal_resolution,
    ensures
        ({
            let head = "\nNombre: "@ + g1.name@ + "\nResolución horizontal: "@ + decimal(
                shown(g1.horizontal_resolution),
            );
            &&& gpu_text(g1).take(head.len() as int) == head
            &&& gpu_text(g2).take(head.len() as int) == head
        }),
{
    law_gpu_text_resolutions(g1);
    law_gpu_text_resolutions(g2);
    let head = "\nNombre: "@ + g1.name@ + "\nResolución horizontal: "@ + decimal(
        shown(g1.horizontal_resolution),
    );
    let r1 = choose|rest: Seq<char>|
        gpu_text(g1) == "\nNombre: "@ + g1.name@ + "\nResolución horizontal: "@ + decimal(
            shown(g1.horizontal_resolution),
        ) + " px\nResolución vertical: "@ + decimal(shown(g1.vertical_resolution)) + rest;
    let r2 = choose|rest: Seq<char>|
        gpu_text(g2) == "\nNombre: "@ + g2.name@ + "\nResolución horizontal: "@ + decimal(
            shown(g2.horizontal_resolution),
        ) + " px\nResolución vertical: "@ + decimal(shown(g2.vertical_resolution)) + rest;
    assert(gpu_text(g1) =~= head + (" px\nResolución vertical: "@ + decimal(
        shown(g1.vertical_resolution),
    ) + r1));
    assert(gpu_text(g2) =~= head + (" px\nResolución vertical: "@ + decimal(
        shown(g2.vertical_resolution),
    ) + r2));
    assert(gpu_text(g1).take(head.len() as int) =~= head);
    assert(gpu_text(g2).take(head.len() as int) =~= head);
}

} // verus!
