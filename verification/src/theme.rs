//! Colour themes, the styles derived from a palette, and the size and
//! speed texts shown next to files and downloads.
use crate::palettes;
use crate::text::{
    char_pos, chars_of, decimal, find_char, is_ascii_text, lower_text, push_decimal, push_str_chars, str_equal,
    string_from_chars, to_lowercase,
};
use vstd::prelude::*;

verus! {

// ── Colours, palettes, themes ────────────────────────────────────────

/// A 24-bit terminal colour.
#[derive(Debug, Clone, Copy, PartialEq, Eq, Structural, Hash)]
pub enum Color {
    Rgb(u8, u8, u8),
}

#[derive(Debug, Clone, Copy, PartialEq, Eq, Structural)]
pub struct Palette {
    pub bg: Color,
    pub fg: Color,
    pub surface: Color,
    pub accent: Color,
    pub text_primary: Color,
    pub text_dimmed: Color,
    pub input_cursor: Color,
    pub success: Color,
    pub warning: Color,
    pub error: Color,
    pub folder: Color,
    pub gauge: Color,
    pub border: Color,
    pub hover: Color,
    pub badge_dl: Color,
    pub badge_stream: Color,
}

#[derive(Debug, Clone, Copy, PartialEq, Eq)]
pub struct Theme {
    pub name: &'static str,
    pub palette: Palette,
}

/// The plain contents of a [`Theme`].
pub struct ThemeView {
    pub name: Seq<char>,
    pub palette: Palette,
}

impl View for Theme {
    type V = ThemeView;

    open spec fn view(&self) -> ThemeView {
        ThemeView { name: self.name@, palette: self.palette }
    }
}

pub open spec fn themes_view(s: Seq<Theme>) -> Seq<ThemeView> {
    s.map_values(|t: Theme| t@)
}

/// Number of built-in themes.
pub const THEME_COUNT: usize = 11;

/// Index of the first occurrence of `x` in `s`.
pub open spec fn first_index<A>(s: Seq<A>, x: A) -> Option<int>
    decreases s.len(),
{
    if s.len() == 0 {
        None
    } else if s[0] == x {
        Some(0)
    } else {
        match first_index(s.drop_first(), x) {
            Some(i) => Some(i + 1),
            None => None,
        }
    }
}

proof fn lemma_first_index<A>(s: Seq<A>, x: A, i: int)
    requires
        0 <= i <= s.len(),
        forall|k: int| 0 <= k < i ==> #[trigger] s[k] != x,
        i < s.len() ==> s[i] == x,
    ensures
        first_index(s, x) == if i < s.len() {
            Some(i)
        } else {
            None::<int>
        },
    decreases i,
{
    if i > 0 {
        let t = s.drop_first();
        assert forall|k: int| 0 <= k < i - 1 implies #[trigger] t[k] != x by {
            assert(t[k] == s[k + 1]);
        }
        if i < s.len() {
            assert(t[i - 1] == s[i]);
        }
        lemma_first_index(t, x, i - 1);
        assert(s[0] != x);
    }
}

/// Where `t` stands among the built-in themes (`0` when it is not one).
pub open spec fn theme_position(t: ThemeView) -> int {
    match first_index(theme_table(), t) {
        Some(i) => i,
        None => 0,
    }
}

/// The theme after `t` in the table, wrapping around.
pub open spec fn next_theme(t: ThemeView) -> ThemeView {
    theme_table()[(theme_position(t) + 1) % (THEME_COUNT as int)]
}

pub use crate::palettes::theme_table;

/// The kebab-case configuration key of a display name: lowercase, with
/// spaces turned into dashes.
pub open spec fn config_name(name: Seq<char>) -> Seq<char> {
    lower_text(name).map_values(|c: char| if c == ' ' { '-' } else { c })
}

/// The first theme whose configuration key or display name is `name`.
pub open spec fn find_named(table: Seq<ThemeView>, name: Seq<char>) -> Option<ThemeView>
    decreases table.len(),
{
    if table.len() == 0 {
        None
    } else if config_name(table[0].name) == name || table[0].name == name {
        Some(table[0])
    } else {
        find_named(table.drop_first(), name)
    }
}

/// How a piece of text is drawn: its foreground and background colours
/// (`None` keeps the terminal's own).
#[derive(Debug, Clone, Copy, PartialEq, Eq)]
pub struct StyleSpec {
    pub fg: Option<Color>,
    pub bg: Option<Color>,
}

pub open spec fn fg_bg(fg: Color, bg: Color) -> StyleSpec {
    StyleSpec { fg: Some(fg), bg: Some(bg) }
}

impl Default for Theme {
    fn default() -> (r: Self)
        ensures
            r@ == theme_table()[0],
    {
        palettes::tokyonight_dark()
    }
}

impl Theme {
    /// Both themes have the same name and palette.
    pub fn same(&self, other: &Theme) -> (r: bool)
        ensures
            r == (self@ == other@),
    {
        self.palette == other.palette && str_equal(self.name, other.name)
    }

    pub fn accent_style(&self) -> (r: StyleSpec)
        ensures
            r == fg_bg(self.palette.accent, self.palette.bg),
    {
        StyleSpec { fg: Some(self.palette.accent), bg: Some(self.palette.bg) }
    }

    pub fn text_style(&self) -> (r: StyleSpec)
        ensures
            r == fg_bg(self.palette.text_primary, self.palette.bg),
    {
        StyleSpec { fg: Some(self.palette.text_primary), bg: Some(self.palette.bg) }
    }

    pub fn dimmed_style(&self) -> (r: StyleSpec)
        ensures
            r == fg_bg(self.palette.text_dimmed, self.palette.bg),
    {
        StyleSpec { fg: Some(self.palette.text_dimmed), bg: Some(self.palette.bg) }
    }

    pub fn surface_style(&self) -> (r: StyleSpec)
        ensures
            r == fg_bg(self.palette.fg, self.palette.surface),
    {
        StyleSpec { fg: Some(self.palette.fg), bg: Some(self.palette.surface) }
    }

    pub fn input_cursor_style(&self) -> (r: StyleSpec)
        ensures
            r == fg_bg(self.palette.input_cursor, self.palette.bg),
    {
        StyleSpec { fg: Some(self.palette.input_cursor), bg: Some(self.palette.bg) }
    }

    pub fn success_style(&self) -> (r: StyleSpec)
        ensures
            r == fg_bg(self.palette.success, self.palette.bg),
    {
        StyleSpec { fg: Some(self.palette.success), bg: Some(self.palette.bg) }
    }

    pub fn warning_style(&self) -> (r: StyleSpec)
        ensures
            r == fg_bg(self.palette.warning, self.palette.bg),
    {
        StyleSpec { fg: Some(self.palette.warning), bg: Some(self.palette.bg) }
    }

    pub fn error_style(&self) -> (r: StyleSpec)
        ensures
            r == fg_bg(self.palette.error, self.palette.bg),
    {
        StyleSpec { fg: Some(self.palette.error), bg: Some(self.palette.bg) }
    }

    pub fn folder_style(&self) -> (r: StyleSpec)
        ensures
            r == fg_bg(self.palette.folder, self.palette.bg),
    {
        StyleSpec { fg: Some(self.palette.folder), bg: Some(self.palette.bg) }
    }

    pub fn gauge_style(&self) -> (r: StyleSpec)
        ensures
            r == (StyleSpec { fg: Some(self.palette.gauge), bg: None }),
    {
        StyleSpec { fg: Some(self.palette.gauge), bg: None }
    }

    pub fn border_style(&self) -> (r: StyleSpec)
        ensures
            r == (StyleSpec { fg: Some(self.palette.border), bg: None }),
    {
        StyleSpec { fg: Some(self.palette.border), bg: None }
    }

    pub fn hover_style(&self) -> (r: StyleSpec)
        ensures
            r == (StyleSpec { fg: None, bg: Some(self.palette.hover) }),
    {
        StyleSpec { fg: None, bg: Some(self.palette.hover) }
    }

    pub fn badge_dl_style(&self) -> (r: StyleSpec)
        ensures
            r == fg_bg(self.palette.badge_dl, self.palette.bg),
    {
        StyleSpec { fg: Some(self.palette.badge_dl), bg: Some(self.palette.bg) }
    }

    pub fn badge_stream_style(&self) -> (r: StyleSpec)
        ensures
            r == fg_bg(self.palette.badge_stream, self.palette.bg),
    {
        StyleSpec { fg: Some(self.palette.badge_stream), bg: Some(self.palette.bg) }
    }

    pub fn bg_style(&self) -> (r: StyleSpec)
        ensures
            r == (StyleSpec { fg: None, bg: Some(self.palette.bg) }),
    {
        StyleSpec { fg: None, bg: Some(self.palette.bg) }
    }

    /// Where this theme stands among the built-in themes (`0` when it is
    /// not one of them).
    pub fn position(&self) -> (r: usize)
        ensures
            r == theme_position(self@),
            r < THEME_COUNT,
    {
        let all = Theme::all();
        let mut i: usize = 0;
        while i < all.len()
            invariant
                i <= all.len(),
                themes_view(all@) == theme_table(),
                forall|k: int| 0 <= k < i ==> #[trigger] theme_table()[k] != self@,
            decreases all.len() - i,
        {
            assert(themes_view(all@)[i as int] == all@[i as int]@);
            if all[i].same(self) {
                proof {
                    lemma_first_index(theme_table(), self@, i as int);
                }
                return i;
            }
            i += 1;
        }
        proof {
            lemma_first_index(theme_table(), self@, i as int);
        }
        0
    }

    /// Cycle to the next theme in the table, wrapping around.
    pub fn next(self) -> (r: Self)
        ensures
            r@ == next_theme(self@),
    {
        let pos = self.position();
        let all = Theme::all();
        let k = (pos + 1) % all.len();
        assert(themes_view(all@)[k as int] == all@[k as int]@);
        all[k]
    }

    /// Convert a display name to a kebab-case config key.
    pub fn to_config_name(name: &str) -> (r: String)
        ensures
            r@ == config_name(name@),
    {
        let lower = to_lowercase(name);
        let cs = chars_of(lower.as_str());
        let mut out: Vec<char> = Vec::new();
        let mut i: usize = 0;
        while i < cs.len()
            invariant
                i <= cs.len(),
                cs@ == lower_text(name@),
                out@ == cs@.take(i as int).map_values(|c: char| if c == ' ' { '-' } else { c }),
            decreases cs.len() - i,
        {
            let c = cs[i];
            if c == ' ' {
                out.push('-');
            } else {
                out.push(c);
            }
            i += 1;
            assert(out@ =~= cs@.take(i as int).map_values(
                |c: char|
                    if c == ' ' {
                        '-'
                    } else {
                        c
                    },
            ));
        }
        assert(cs@.take(cs@.len() as int) =~= cs@);
        string_from_chars(&out)
    }

    /// Look up a theme by its kebab-case config name or its display name.
    pub fn from_name(name: &str) -> (r: Option<Self>)
        ensures
            match r {
                Some(t) => find_named(theme_table(), name@) == Some(t@),
                None => find_named(theme_table(), name@) is None,
            },
    {
        let all = Theme::all();
        let mut i: usize = 0;
        assert(theme_table().skip(0) =~= theme_table());
        while i < all.len()
            invariant
                i <= all.len(),
                themes_view(all@) == theme_table(),
                find_named(theme_table(), name@) == find_named(theme_table().skip(i as int), name@),
            decreases all.len() - i,
        {
            let t = all[i];
            assert(themes_view(all@)[i as int] == t@);
            let key = Theme::to_config_name(t.name);
            assert(theme_table().skip(i as int)[0] == t@);
            assert(theme_table().skip(i as int).drop_first() =~= theme_table().skip(i + 1));
            if str_equal(key.as_str(), name) || str_equal(t.name, name) {
                return Some(t);
            }
            i += 1;
        }
        assert(theme_table().skip(i as int).len() == 0);
        None
    }
}

/// Cycling: every built-in theme is followed by the next one in the
/// table, and the last by the first.
pub proof fn theme_cycle(i: int)
    requires
        0 <= i < THEME_COUNT,
    ensures
        next_theme(theme_table()[i]) == theme_table()[(i + 1) % (THEME_COUNT as int)],
{
    let t = theme_table();
    assert forall|k: int| 0 <= k < i implies #[trigger] t[k] != t[i] by {
        assert(t[k].palette.bg != t[i].palette.bg);
    }
    lemma_first_index(t, t[i], i);
}

/// Every built-in theme is legible: its accent differs from both text
/// colours and from black, and success differs from warning.
pub proof fn palettes_are_legible(i: int)
    requires
        0 <= i < THEME_COUNT,
    ensures
        theme_table()[i].palette.accent != theme_table()[i].palette.text_dimmed,
        theme_table()[i].palette.accent != theme_table()[i].palette.text_primary,
        theme_table()[i].palette.accent != Color::Rgb(0, 0, 0),
        theme_table()[i].palette.success != theme_table()[i].palette.warning,
{
}

/// No two built-in themes share a name.
pub proof fn theme_names_unique(i: int, j: int)
    requires
        0 <= i < THEME_COUNT,
        0 <= j < THEME_COUNT,
        i != j,
    ensures
        theme_table()[i].name != theme_table()[j].name,
{
    reveal_strlit("TokyoNight Dark");
    reveal_strlit("TokyoNight Light");
    reveal_strlit("Kanagawa Dark");
    reveal_strlit("Kanagawa Light");
    reveal_strlit("Nord Dark");
    reveal_strlit("Nord Light");
    reveal_strlit("Gruvbox Dark");
    reveal_strlit("Gruvbox Light");
    reveal_strlit("Catppuccin Mocha");
    reveal_strlit("Catppuccin Latte");
    reveal_strlit("Purple");
    let a = theme_table()[i].name;
    let b = theme_table()[j].name;
    if a.len() == b.len() {
        assert(a[0] != b[0] || a[11] != b[11]);
    }
}

// ── Sizes and speeds ─────────────────────────────────────────────────

/// `num / den` rounded to the nearest integer, ties to even.
pub open spec fn round_half_even(num: nat, den: nat) -> nat
    recommends
        den > 0,
{
    let q = num / den;
    let r = num % den;
    if 2 * r > den {
        q + 1
    } else if 2 * r < den {
        q
    } else if q % 2 == 0 {
        q
    } else {
        q + 1
    }
}

/// How many halvings take `n` below `2^53` (the scale of an `f64`'s
/// last significant bit when it holds `n`).
pub open spec fn f64_shift(n: nat) -> nat
    decreases n,
{
    if n < 0x20_0000_0000_0000 {
        0
    } else {
        1 + f64_shift(n / 2)
    }
}

/// The `f64` nearest to `n` (`n as f64`, rounding ties to even).
pub open spec fn f64_value(n: nat) -> nat {
    let scale = vstd::arithmetic::power2::pow2(f64_shift(n));
    round_half_even(n, scale) * scale
}

/// How many times `format_size` divides by 1024: the number of the steps
/// `1024, 1024², 1024³, 1024⁴` that the value reaches.
pub open spec fn unit_index(v: nat) -> nat {
    if v >= 0x100_0000_0000 {
        4
    } else if v >= 0x4000_0000 {
        3
    } else if v >= 0x10_0000 {
        2
    } else if v >= 0x400 {
        1
    } else {
        0
    }
}

pub open spec fn unit_divisor(k: nat) -> nat {
    if k == 4 {
        0x100_0000_0000
    } else if k == 3 {
        0x4000_0000
    } else if k == 2 {
        0x10_0000
    } else if k == 1 {
        0x400
    } else {
        1
    }
}

pub open spec fn unit_name(k: nat) -> Seq<char> {
    if k == 4 {
        "TB"@
    } else if k == 3 {
        "GB"@
    } else if k == 2 {
        "MB"@
    } else {
        "KB"@
    }
}

/// A number of tenths written with one decimal: `12` is `1.2`.
pub open spec fn tenths_text(t: nat) -> Seq<char> {
    decimal(t / 10) + seq!['.'] + decimal(t % 10)
}

/// `format_size`: whole bytes below 1 KB, else the value in the largest
/// unit it reaches, rounded to one decimal as `{:.1}` prints an `f64`.
pub open spec fn size_text(bytes: nat) -> Seq<char> {
    let v = f64_value(bytes);
    let k = unit_index(v);
    if k == 0 {
        decimal(bytes) + " B"@
    } else {
        tenths_text(round_half_even(v * 10, unit_divisor(k))) + seq![' '] + unit_name(k)
    }
}

pub(crate) proof fn lemma_round_half_even_bound(num: nat, den: nat)
    requires
        den > 0,
    ensures
        round_half_even(num, den) <= num / den + 1,
        round_half_even(num, den) * den <= num + den,
{
    let q = num / den;
    vstd::arithmetic::div_mod::lemma_fundamental_div_mod(num as int, den as int);
    assert(q * den <= num) by (nonlinear_arith)
        requires
            num == den * q + num % den,
            num % den >= 0,;
    assert(round_half_even(num, den) * den <= q * den + den) by (nonlinear_arith)
        requires
            round_half_even(num, den) <= q + 1,
            den > 0,;
}

/// `num / den` rounded half to even, on machine integers.
pub(crate) fn div_round_half_even(num: u128, den: u128) -> (r: u128)
    requires
        den > 0,
        den <= 0x1_0000_0000_0000_0000,
        num <= 0x1_0000_0000_0000_0000_0000,
    ensures
        r == round_half_even(num as nat, den as nat),
{
    let q = num / den;
    let r = num % den;
    if 2 * r > den {
        q + 1
    } else if 2 * r < den {
        q
    } else if q % 2 == 0 {
        q
    } else {
        q + 1
    }
}

/// The exact value of `bytes as f64`.
pub(crate) fn f64_of(bytes: u64) -> (r: u128)
    ensures
        r == f64_value(bytes as nat),
        r <= 0x1_0000_0000_0000_1000,
{
    let mut m: u64 = bytes;
    let mut scale: u64 = 1;
    let ghost mut e: nat = 0;
    proof {
        vstd::arithmetic::power2::lemma2_to64();
    }
    while m >= 0x20_0000_0000_0000
        invariant
            scale == vstd::arithmetic::power2::pow2(e),
            scale >= 1,
            m == bytes as nat / scale as nat,
            m * scale <= bytes,
            f64_shift(bytes as nat) == e + f64_shift(m as nat),
            scale < 0x1000,
        decreases m,
    {
        proof {
            vstd::arithmetic::power2::lemma_pow2_unfold(e + 1);
            vstd::arithmetic::div_mod::lemma_div_denominator(bytes as int, scale as int, 2);
            assert(scale < 0x800) by (nonlinear_arith)
                requires
                    m * scale <= bytes,
                    m >= 0x20_0000_0000_0000,
                    bytes <= 0xFFFF_FFFF_FFFF_FFFF,;
            vstd::arithmetic::div_mod::lemma_fundamental_div_mod(m as int, 2);
            assert((m / 2) * (scale * 2) <= bytes) by (nonlinear_arith)
                requires
                    m * scale <= bytes,
                    m == 2 * (m / 2) + m % 2,
                    m % 2 >= 0,
                    scale >= 1,;
        }
        m = m / 2;
        scale = scale * 2;
        proof {
            e = e + 1;
        }
    }
    let q = div_round_half_even(bytes as u128, scale as u128);
    proof {
        lemma_round_half_even_bound(bytes as nat, scale as nat);
    }
    q * (scale as u128)
}

/// Formats a byte count for display, e.g. `"512 B"` or `"1.5 MB"`.
pub fn format_size(bytes: u64) -> (r: String)
    ensures
        r@ == size_text(bytes as nat),
{
    let v = f64_of(bytes);
    let k: u64 = if v >= 0x100_0000_0000 {
        4
    } else if v >= 0x4000_0000 {
        3
    } else if v >= 0x10_0000 {
        2
    } else if v >= 0x400 {
        1
    } else {
        0
    };
    let mut out: Vec<char> = Vec::new();
    if k == 0 {
        push_decimal(&mut out, bytes);
        push_str_chars(&mut out, " B");
        return string_from_chars(&out);
    }
    let div: u128 = if k == 4 {
        0x100_0000_0000
    } else if k == 3 {
        0x4000_0000
    } else if k == 2 {
        0x10_0000
    } else {
        0x400
    };
    let t = div_round_half_even(v * 10, div);
    proof {
        lemma_round_half_even_bound(v as nat * 10, div as nat);
        vstd::arithmetic::div_mod::lemma_div_is_ordered_by_denominator(v * 10, 0x400, div as int);
        assert((v * 10) / 0x400 <= 0x1_0000_0000_0000_1000 * 10 / 0x400);
    }
    let t64 = t as u64;
    push_decimal(&mut out, t64 / 10);
    out.push('.');
    push_decimal(&mut out, t64 % 10);
    out.push(' ');
    if k == 4 {
        push_str_chars(&mut out, "TB");
    } else if k == 3 {
        push_str_chars(&mut out, "GB");
    } else if k == 2 {
        push_str_chars(&mut out, "MB");
    } else {
        push_str_chars(&mut out, "KB");
    }
    string_from_chars(&out)
}

/// A transfer speed: the size text followed by `/s`.
pub fn format_speed(bytes_per_sec: u64) -> (r: String)
    ensures
        r@ == size_text(bytes_per_sec as nat) + "/s"@,
{
    let s = format_size(bytes_per_sec);
    let mut out = chars_of(s.as_str());
    push_str_chars(&mut out, "/s");
    string_from_chars(&out)
}

// ── Footers ──────────────────────────────────────────────────────────

/// A piece of text and how it is drawn.
#[derive(Debug)]
pub struct StyledText {
    pub text: String,
    pub style: StyleSpec,
}

/// The pieces of a footer: each `[key]` part is marked `true` (drawn in the
/// accent colour), the text between them `false` (dimmed).  A `[` with no
/// closing `]` starts a last, dimmed piece that runs to the end of the text.
pub open spec fn footer_parts(text: Seq<char>) -> Seq<(Seq<char>, bool)>
    decreases text.len(),
{
    match char_pos(text, '[') {
        None => if text.len() > 0 {
            seq![(text, false)]
        } else {
            Seq::empty()
        },
        Some(start) => {
            let pre = if start > 0 {
                seq![(text.take(start), false)]
            } else {
                Seq::empty()
            };
            let rest = text.skip(start);
            match char_pos(rest, ']') {
                Some(end) => if 0 <= start <= text.len() && 0 <= end && end + 1 <= rest.len() {
                    pre + seq![(rest.take(end + 1), true)] + footer_parts(rest.skip(end + 1))
                } else {
                    pre
                },
                None => pre + seq![(rest, false)],
            }
        },
    }
}

/// The footer pieces with the styles of `theme`: accent for `[key]`
/// parts, dimmed for the rest.
pub open spec fn styled_footer(parts: Seq<(Seq<char>, bool)>, theme: Theme) -> Seq<
    (Seq<char>, StyleSpec),
> {
    parts.map_values(
        |p: (Seq<char>, bool)|
            (
                p.0,
                if p.1 {
                    fg_bg(theme.palette.accent, theme.palette.bg)
                } else {
                    fg_bg(theme.palette.text_dimmed, theme.palette.bg)
                },
            ),
    )
}

/// The texts of a sequence of pieces, put together in order.
pub open spec fn joined_text<S>(parts: Seq<(Seq<char>, S)>) -> Seq<char>
    decreases parts.len(),
{
    if parts.len() == 0 {
        Seq::empty()
    } else {
        parts[0].0 + joined_text(parts.drop_first())
    }
}

proof fn lemma_joined_single<S>(x: (Seq<char>, S))
    ensures
        joined_text(seq![x]) == x.0,
{
    reveal_with_fuel(joined_text, 2);
    assert(seq![x].drop_first() =~= Seq::<(Seq<char>, S)>::empty());
    assert(x.0 + Seq::<char>::empty() =~= x.0);
}

proof fn lemma_joined_append<S>(a: Seq<(Seq<char>, S)>, b: Seq<(Seq<char>, S)>)
    ensures
        joined_text(a + b) == joined_text(a) + joined_text(b),
    decreases a.len(),
{
    if a.len() == 0 {
        assert(a + b =~= b);
        assert(joined_text(a) + joined_text(b) =~= joined_text(b));
    } else {
        assert((a + b).drop_first() =~= a.drop_first() + b);
        assert((a + b)[0] == a[0]);
        lemma_joined_append(a.drop_first(), b);
        assert(a[0].0 + (joined_text(a.drop_first()) + joined_text(b)) =~= (a[0].0 + joined_text(
            a.drop_first(),
        )) + joined_text(b));
    }
}

/// The pieces of a footer spell its text exactly once, in order, and none
/// of them is empty.
pub proof fn footer_spells_text(text: Seq<char>)
    ensures
        joined_text(footer_parts(text)) == text,
        forall|k: int|
            0 <= k < footer_parts(text).len() ==> (#[trigger] footer_parts(text)[k]).0.len() > 0,
    decreases text.len(),
{
    crate::stream::lemma_char_pos_in_range(text, '[');
    match char_pos(text, '[') {
        None => {
            if text.len() > 0 {
                lemma_joined_single((text, false));
            }
        },
        Some(start) => {
            let pre: Seq<(Seq<char>, bool)> = if start > 0 {
                seq![(text.take(start), false)]
            } else {
                Seq::empty()
            };
            let rest = text.skip(start);
            assert(joined_text(pre) =~= text.take(start)) by {
                if start > 0 {
                    lemma_joined_single((text.take(start), false));
                }
            }
            crate::stream::lemma_char_pos_in_range(rest, ']');
            match char_pos(rest, ']') {
                Some(end) => {
                    let key = seq![(rest.take(end + 1), true)];
                    let tail = footer_parts(rest.skip(end + 1));
                    footer_spells_text(rest.skip(end + 1));
                    lemma_joined_single((rest.take(end + 1), true));
                    lemma_joined_append(pre, key);
                    lemma_joined_append(pre + key, tail);
                    assert(footer_parts(text) == pre + key + tail);
                    assert(text.take(start) + rest.take(end + 1) + rest.skip(end + 1) =~= text);
                    assert forall|k: int|
                        0 <= k < footer_parts(text).len() implies (#[trigger] footer_parts(
                        text,
                    )[k]).0.len() > 0 by {
                        if k >= pre.len() + 1 {
                            assert(footer_parts(text)[k] == tail[k - pre.len() - 1]);
                        }
                    }
                },
                None => {
                    let last = seq![(rest, false)];
                    lemma_joined_single((rest, false));
                    lemma_joined_append(pre, last);
                    assert(footer_parts(text) == pre + last);
                    assert(text.take(start) + rest =~= text);
                },
            }
        },
    }
}

proof fn lemma_styled_footer_spells(text: Seq<char>, theme: Theme)
    ensures
        joined_text(styled_footer(footer_parts(text), theme)) == text,
        forall|k: int|
            0 <= k < styled_footer(footer_parts(text), theme).len() ==> (#[trigger] styled_footer(
                footer_parts(text),
                theme,
            )[k]).0.len() > 0,
{
    footer_spells_text(text);
    lemma_joined_styled(footer_parts(text), theme);
}

proof fn lemma_joined_styled(parts: Seq<(Seq<char>, bool)>, theme: Theme)
    ensures
        joined_text(styled_footer(parts, theme)) == joined_text(parts),
    decreases parts.len(),
{
    if parts.len() > 0 {
        assert(styled_footer(parts, theme).drop_first() =~= styled_footer(parts.drop_first(), theme));
        lemma_joined_styled(parts.drop_first(), theme);
    }
}

pub open spec fn spans_view(v: Seq<StyledText>) -> Seq<(Seq<char>, StyleSpec)> {
    v.map_values(|s: StyledText| (s.text@, s.style))
}

fn push_span(out: &mut Vec<StyledText>, cs: &Vec<char>, from: usize, to: usize, style: StyleSpec)
    requires
        from <= to <= cs.len(),
    ensures
        spans_view(final(out)@) == spans_view(old(out)@).push(
            (cs@.subrange(from as int, to as int), style),
        ),
{
    let piece = crate::text::copy_range(cs, from, to);
    let text = string_from_chars(&piece);
    out.push(StyledText { text, style });
    assert(spans_view(out@) =~= spans_view(old(out)@).push(
        (cs@.subrange(from as int, to as int), style),
    ));
}

/// Build a footer line where `[key]` parts are styled with the accent
/// colour and the text between them uses the dimmed colour.
pub fn color_footer(text: &str, theme: &Theme) -> (r: Vec<StyledText>)
    ensures
        spans_view(r@) == styled_footer(footer_parts(text@), *theme),
        joined_text(spans_view(r@)) == text@,
        forall|k: int| 0 <= k < r.len() ==> (#[trigger] r@[k]).text@.len() > 0,
{
    let accent = theme.accent_style();
    let dimmed = theme.dimmed_style();
    let cs = chars_of(text);
    let n = cs.len();
    let mut out: Vec<StyledText> = Vec::new();
    let mut pos: usize = 0;
    assert(cs@.subrange(0, n as int) =~= cs@);
    loop
        invariant
            pos <= n == cs.len(),
            cs@ == text@,
            accent == fg_bg(theme.palette.accent, theme.palette.bg),
            dimmed == fg_bg(theme.palette.text_dimmed, theme.palette.bg),
            spans_view(out@) + styled_footer(footer_parts(cs@.subrange(pos as int, n as int)), *theme)
                == styled_footer(footer_parts(text@), *theme),
        decreases n - pos,
    {
        let ghost rem = cs@.subrange(pos as int, n as int);
        let start = find_char(&cs, pos, '[');
        if start == n {
            if pos < n {
                let ghost before = spans_view(out@);
                push_span(&mut out, &cs, pos, n, dimmed);
                assert(styled_footer(footer_parts(rem), *theme) =~= seq![(rem, dimmed)]);
                assert(before + seq![(rem, dimmed)] =~= before.push((rem, dimmed)));
            } else {
                assert(styled_footer(footer_parts(rem), *theme) =~= Seq::empty());
                assert(spans_view(out@) + Seq::empty() =~= spans_view(out@));
            }
            assert(spans_view(out@) == styled_footer(footer_parts(text@), *theme));
            proof {
                lemma_styled_footer_spells(text@, *theme);
                assert forall|k: int| 0 <= k < out.len() implies (#[trigger] out@[k]).text@.len()
                    > 0 by {
                    assert(spans_view(out@)[k] == (out@[k].text@, out@[k].style));
                }
            }
            return out;
        }
        let ghost s_rel = start - pos;
        let ghost pre_spans = spans_view(out@);
        let ghost pre_parts: Seq<(Seq<char>, bool)> = if s_rel > 0 {
            seq![(rem.take(s_rel), false)]
        } else {
            Seq::empty()
        };
        if start > pos {
            push_span(&mut out, &cs, pos, start, dimmed);
            assert(rem.take(s_rel) =~= cs@.subrange(pos as int, start as int));
        }
        assert(spans_view(out@) =~= pre_spans + styled_footer(pre_parts, *theme));
        let ghost rest = rem.skip(s_rel);
        assert(rest =~= cs@.subrange(start as int, n as int));
        let end = find_char(&cs, start, ']');
        if end < n {
            let ghost e_rel = end - start;
            let ghost mid = spans_view(out@);
            push_span(&mut out, &cs, start, end + 1, accent);
            assert(rest.take(e_rel + 1) =~= cs@.subrange(start as int, end + 1));
            assert(rest.skip(e_rel + 1) =~= cs@.subrange(end + 1, n as int));
            assert(footer_parts(rem) == pre_parts + seq![(rest.take(e_rel + 1), true)] + footer_parts(
                rest.skip(e_rel + 1),
            ));
            assert(styled_footer(footer_parts(rem), *theme) =~= styled_footer(pre_parts, *theme)
                + seq![(rest.take(e_rel + 1), accent)] + styled_footer(
                footer_parts(rest.skip(e_rel + 1)),
                *theme,
            ));
            assert(spans_view(out@) =~= mid.push((rest.take(e_rel + 1), accent)));
            pos = end + 1;
        } else {
            let ghost mid = spans_view(out@);
            push_span(&mut out, &cs, start, n, dimmed);
            assert(footer_parts(rem) == pre_parts + seq![(rest, false)]);
            assert(styled_footer(footer_parts(rem), *theme) =~= styled_footer(pre_parts, *theme)
                + seq![(rest, dimmed)]);
            assert(spans_view(out@) =~= mid + seq![(rest, dimmed)]);
            assert(spans_view(out@) == styled_footer(footer_parts(text@), *theme));
            proof {
                lemma_styled_footer_spells(text@, *theme);
                assert forall|k: int| 0 <= k < out.len() implies (#[trigger] out@[k]).text@.len()
                    > 0 by {
                    assert(spans_view(out@)[k] == (out@[k].text@, out@[k].style));
                }
            }
            return out;
        }
    }
}

// ── Finding themes by name ───────────────────────────────────────────

/// The configuration keys of the built-in themes, in table order.
spec fn theme_keys() -> Seq<Seq<char>> {
    seq![
        "tokyonight-dark"@,
        "tokyonight-light"@,
        "kanagawa-dark"@,
        "kanagawa-light"@,
        "nord-dark"@,
        "nord-light"@,
        "gruvbox-dark"@,
        "gruvbox-light"@,
        "catppuccin-mocha"@,
        "catppuccin-latte"@,
        "purple"@,
    ]
}

proof fn lemma_theme_key(k: int)
    requires
        0 <= k < THEME_COUNT,
    ensures
        config_name(theme_table()[k].name) == theme_keys()[k],
        theme_table()[k].name.len() > 0,
        'A' <= theme_table()[k].name[0] <= 'Z',
        theme_keys()[k].len() > 0,
        'a' <= theme_keys()[k][0] <= 'z',
{
    reveal_strlit("TokyoNight Dark");
    reveal_strlit("TokyoNight Light");
    reveal_strlit("Kanagawa Dark");
    reveal_strlit("Kanagawa Light");
    reveal_strlit("Nord Dark");
    reveal_strlit("Nord Light");
    reveal_strlit("Gruvbox Dark");
    reveal_strlit("Gruvbox Light");
    reveal_strlit("Catppuccin Mocha");
    reveal_strlit("Catppuccin Latte");
    reveal_strlit("Purple");
    reveal_strlit("tokyonight-dark");
    reveal_strlit("tokyonight-light");
    reveal_strlit("kanagawa-dark");
    reveal_strlit("kanagawa-light");
    reveal_strlit("nord-dark");
    reveal_strlit("nord-light");
    reveal_strlit("gruvbox-dark");
    reveal_strlit("gruvbox-light");
    reveal_strlit("catppuccin-mocha");
    reveal_strlit("catppuccin-latte");
    reveal_strlit("purple");
    let t = theme_table();
    if k == 0 {
        assert(config_name(t[0].name) =~= "tokyonight-dark"@);
    } else if k == 1 {
        assert(config_name(t[1].name) =~= "tokyonight-light"@);
    } else if k == 2 {
        assert(config_name(t[2].name) =~= "kanagawa-dark"@);
    } else if k == 3 {
        assert(config_name(t[3].name) =~= "kanagawa-light"@);
    } else if k == 4 {
        assert(config_name(t[4].name) =~= "nord-dark"@);
    } else if k == 5 {
        assert(config_name(t[5].name) =~= "nord-light"@);
    } else if k == 6 {
        assert(config_name(t[6].name) =~= "gruvbox-dark"@);
    } else if k == 7 {
        assert(config_name(t[7].name) =~= "gruvbox-light"@);
    } else if k == 8 {
        assert(config_name(t[8].name) =~= "catppuccin-mocha"@);
    } else if k == 9 {
        assert(config_name(t[9].name) =~= "catppuccin-latte"@);
    } else if k == 10 {
        assert(config_name(t[10].name) =~= "purple"@);
    }
}

proof fn lemma_theme_keys_unique(i: int, j: int)
    requires
        0 <= i < THEME_COUNT,
        0 <= j < THEME_COUNT,
        i != j,
    ensures
        theme_keys()[i] != theme_keys()[j],
{
    reveal_strlit("tokyonight-dark");
    reveal_strlit("tokyonight-light");
    reveal_strlit("kanagawa-dark");
    reveal_strlit("kanagawa-light");
    reveal_strlit("nord-dark");
    reveal_strlit("nord-light");
    reveal_strlit("gruvbox-dark");
    reveal_strlit("gruvbox-light");
    reveal_strlit("catppuccin-mocha");
    reveal_strlit("catppuccin-latte");
    reveal_strlit("purple");
    let a = theme_keys()[i];
    let b = theme_keys()[j];
    if a.len() == b.len() {
        assert(a[0] != b[0] || a[11] != b[11]);
    }
}

proof fn lemma_find_named_at(table: Seq<ThemeView>, name: Seq<char>, i: int)
    requires
        0 <= i < table.len(),
        config_name(table[i].name) == name || table[i].name == name,
        forall|k: int|
            0 <= k < i ==> config_name(#[trigger] table[k].name) != name && table[k].name != name,
    ensures
        find_named(table, name) == Some(table[i]),
    decreases i,
{
    if i > 0 {
        let rest = table.drop_first();
        assert forall|k: int| 0 <= k < i - 1 implies config_name(#[trigger] rest[k].name) != name
            && rest[k].name != name by {
            assert(rest[k] == table[k + 1]);
        }
        lemma_find_named_at(rest, name, i - 1);
    }
}

/// Every built-in theme is found again both by its display name and by its
/// configuration key.
pub proof fn themes_found_by_name(i: int)
    requires
        0 <= i < THEME_COUNT,
    ensures
        find_named(theme_table(), theme_table()[i].name) == Some(theme_table()[i]),
        find_named(theme_table(), config_name(theme_table()[i].name)) == Some(theme_table()[i]),
{
    let t = theme_table();
    lemma_theme_key(i);
    assert forall|k: int| 0 <= k < i implies config_name(#[trigger] t[k].name) != t[i].name
        && t[k].name != t[i].name by {
        lemma_theme_key(k);
        theme_names_unique(k, i);
    }
    lemma_find_named_at(t, t[i].name, i);
    let key = config_name(t[i].name);
    assert forall|k: int| 0 <= k < i implies config_name(#[trigger] t[k].name) != key
        && t[k].name != key by {
        lemma_theme_key(k);
        lemma_theme_keys_unique(k, i);
    }
    lemma_find_named_at(t, key, i);
}

} // verus!
