//! The built-in colour themes.
use crate::theme::{themes_view, Color, Palette, Theme, ThemeView};
use vstd::prelude::*;

verus! {

/// The palette of the TokyoNight Dark theme.
pub open spec fn tokyonight_dark_palette() -> Palette {
    Palette {
        bg: Color::Rgb(12, 14, 20),
        fg: Color::Rgb(192, 202, 245),
        surface: Color::Rgb(22, 22, 30),
        accent: Color::Rgb(122, 162, 247),
        text_primary: Color::Rgb(192, 202, 245),
        text_dimmed: Color::Rgb(86, 95, 137),
        input_cursor: Color::Rgb(137, 180, 250),
        success: Color::Rgb(158, 206, 106),
        warning: Color::Rgb(224, 175, 104),
        error: Color::Rgb(247, 118, 142),
        folder: Color::Rgb(255, 158, 100),
        gauge: Color::Rgb(122, 162, 247),
        border: Color::Rgb(26, 27, 38),
        hover: Color::Rgb(31, 34, 56),
        badge_dl: Color::Rgb(224, 175, 104),
        badge_stream: Color::Rgb(187, 154, 247),
    }
}

/// The palette of the TokyoNight Light theme.
pub open spec fn tokyonight_light_palette() -> Palette {
    Palette {
        bg: Color::Rgb(225, 226, 231),
        fg: Color::Rgb(55, 96, 191),
        surface: Color::Rgb(208, 213, 227),
        accent: Color::Rgb(46, 125, 233),
        text_primary: Color::Rgb(55, 96, 191),
        text_dimmed: Color::Rgb(132, 140, 181),
        input_cursor: Color::Rgb(53, 138, 255),
        success: Color::Rgb(88, 117, 57),
        warning: Color::Rgb(140, 108, 62),
        error: Color::Rgb(245, 42, 101),
        folder: Color::Rgb(177, 92, 0),
        gauge: Color::Rgb(46, 125, 233),
        border: Color::Rgb(168, 174, 203),
        hover: Color::Rgb(205, 209, 221),
        badge_dl: Color::Rgb(140, 108, 62),
        badge_stream: Color::Rgb(152, 84, 241),
    }
}

/// The palette of the Kanagawa Dark theme.
pub open spec fn kanagawa_dark_palette() -> Palette {
    Palette {
        bg: Color::Rgb(22, 22, 29),
        fg: Color::Rgb(220, 215, 186),
        surface: Color::Rgb(26, 26, 34),
        accent: Color::Rgb(126, 156, 216),
        text_primary: Color::Rgb(220, 215, 186),
        text_dimmed: Color::Rgb(114, 113, 105),
        input_cursor: Color::Rgb(156, 171, 202),
        success: Color::Rgb(152, 187, 108),
        warning: Color::Rgb(230, 195, 132),
        error: Color::Rgb(232, 36, 36),
        folder: Color::Rgb(255, 160, 102),
        gauge: Color::Rgb(126, 156, 216),
        border: Color::Rgb(31, 31, 40),
        hover: Color::Rgb(29, 29, 38),
        badge_dl: Color::Rgb(230, 195, 132),
        badge_stream: Color::Rgb(149, 127, 184),
    }
}

/// The palette of the Kanagawa Light theme.
pub open spec fn kanagawa_light_palette() -> Palette {
    Palette {
        bg: Color::Rgb(242, 236, 188),
        fg: Color::Rgb(84, 84, 100),
        surface: Color::Rgb(229, 221, 176),
        accent: Color::Rgb(77, 105, 155),
        text_primary: Color::Rgb(84, 84, 100),
        text_dimmed: Color::Rgb(138, 137, 128),
        input_cursor: Color::Rgb(93, 87, 163),
        success: Color::Rgb(111, 137, 78),
        warning: Color::Rgb(222, 152, 0),
        error: Color::Rgb(200, 64, 83),
        folder: Color::Rgb(233, 138, 0),
        gauge: Color::Rgb(77, 105, 155),
        border: Color::Rgb(160, 156, 172),
        hover: Color::Rgb(231, 219, 160),
        badge_dl: Color::Rgb(222, 152, 0),
        badge_stream: Color::Rgb(118, 107, 144),
    }
}

/// The palette of the Nord Dark theme.
pub open spec fn nord_dark_palette() -> Palette {
    Palette {
        bg: Color::Rgb(36, 42, 54),
        fg: Color::Rgb(216, 222, 233),
        surface: Color::Rgb(46, 52, 64),
        accent: Color::Rgb(136, 192, 208),
        text_primary: Color::Rgb(216, 222, 233),
        text_dimmed: Color::Rgb(76, 86, 106),
        input_cursor: Color::Rgb(143, 188, 187),
        success: Color::Rgb(163, 190, 140),
        warning: Color::Rgb(235, 203, 139),
        error: Color::Rgb(191, 97, 106),
        folder: Color::Rgb(208, 135, 112),
        gauge: Color::Rgb(136, 192, 208),
        border: Color::Rgb(59, 66, 82),
        hover: Color::Rgb(46, 52, 64),
        badge_dl: Color::Rgb(235, 203, 139),
        badge_stream: Color::Rgb(180, 142, 173),
    }
}

/// The palette of the Nord Light theme.
pub open spec fn nord_light_palette() -> Palette {
    Palette {
        bg: Color::Rgb(236, 239, 244),
        fg: Color::Rgb(46, 52, 64),
        surface: Color::Rgb(216, 222, 233),
        accent: Color::Rgb(94, 129, 172),
        text_primary: Color::Rgb(46, 52, 64),
        text_dimmed: Color::Rgb(129, 161, 193),
        input_cursor: Color::Rgb(129, 161, 193),
        success: Color::Rgb(122, 156, 102),
        warning: Color::Rgb(199, 151, 63),
        error: Color::Rgb(191, 97, 106),
        folder: Color::Rgb(208, 135, 112),
        gauge: Color::Rgb(136, 192, 208),
        border: Color::Rgb(129, 161, 193),
        hover: Color::Rgb(229, 233, 240),
        badge_dl: Color::Rgb(199, 151, 63),
        badge_stream: Color::Rgb(180, 142, 173),
    }
}

/// The palette of the Gruvbox Dark theme.
pub open spec fn gruvbox_dark_palette() -> Palette {
    Palette {
        bg: Color::Rgb(29, 32, 33),
        fg: Color::Rgb(235, 219, 178),
        surface: Color::Rgb(40, 40, 40),
        accent: Color::Rgb(131, 165, 152),
        text_primary: Color::Rgb(235, 219, 178),
        text_dimmed: Color::Rgb(146, 131, 116),
        input_cursor: Color::Rgb(142, 192, 124),
        success: Color::Rgb(184, 187, 38),
        warning: Color::Rgb(250, 189, 47),
        error: Color::Rgb(251, 73, 52),
        folder: Color::Rgb(254, 128, 25),
        gauge: Color::Rgb(131, 165, 152),
        border: Color::Rgb(50, 48, 47),
        hover: Color::Rgb(40, 40, 40),
        badge_dl: Color::Rgb(250, 189, 47),
        badge_stream: Color::Rgb(211, 134, 155),
    }
}

/// The palette of the Gruvbox Light theme.
pub open spec fn gruvbox_light_palette() -> Palette {
    Palette {
        bg: Color::Rgb(251, 241, 199),
        fg: Color::Rgb(60, 56, 54),
        surface: Color::Rgb(242, 229, 188),
        accent: Color::Rgb(7, 102, 120),
        text_primary: Color::Rgb(60, 56, 54),
        text_dimmed: Color::Rgb(124, 111, 100),
        input_cursor: Color::Rgb(66, 123, 88),
        success: Color::Rgb(121, 116, 14),
        warning: Color::Rgb(181, 118, 20),
        error: Color::Rgb(157, 0, 6),
        folder: Color::Rgb(175, 58, 3),
        gauge: Color::Rgb(7, 102, 120),
        border: Color::Rgb(213, 196, 161),
        hover: Color::Rgb(235, 219, 178),
        badge_dl: Color::Rgb(181, 118, 20),
        badge_stream: Color::Rgb(143, 63, 113),
    }
}

/// The palette of the Catppuccin Mocha theme.
pub open spec fn catppuccin_mocha_palette() -> Palette {
    Palette {
        bg: Color::Rgb(17, 17, 27),
        fg: Color::Rgb(205, 214, 244),
        surface: Color::Rgb(24, 24, 37),
        accent: Color::Rgb(137, 180, 250),
        text_primary: Color::Rgb(205, 214, 244),
        text_dimmed: Color::Rgb(108, 112, 134),
        input_cursor: Color::Rgb(116, 199, 236),
        success: Color::Rgb(166, 227, 161),
        warning: Color::Rgb(249, 226, 175),
        error: Color::Rgb(243, 139, 168),
        folder: Color::Rgb(250, 179, 135),
        gauge: Color::Rgb(137, 180, 250),
        border: Color::Rgb(30, 30, 46),
        hover: Color::Rgb(24, 24, 37),
        badge_dl: Color::Rgb(249, 226, 175),
        badge_stream: Color::Rgb(203, 166, 247),
    }
}

/// The palette of the Catppuccin Latte theme.
pub open spec fn catppuccin_latte_palette() -> Palette {
    Palette {
        bg: Color::Rgb(239, 241, 245),
        fg: Color::Rgb(76, 79, 105),
        surface: Color::Rgb(204, 208, 218),
        accent: Color::Rgb(30, 102, 245),
        text_primary: Color::Rgb(76, 79, 105),
        text_dimmed: Color::Rgb(156, 160, 176),
        input_cursor: Color::Rgb(32, 159, 181),
        success: Color::Rgb(64, 160, 43),
        warning: Color::Rgb(223, 142, 29),
        error: Color::Rgb(210, 15, 57),
        folder: Color::Rgb(254, 100, 11),
        gauge: Color::Rgb(30, 102, 245),
        border: Color::Rgb(188, 192, 204),
        hover: Color::Rgb(230, 233, 239),
        badge_dl: Color::Rgb(223, 142, 29),
        badge_stream: Color::Rgb(136, 57, 239),
    }
}

/// The palette of the Purple theme.
pub open spec fn purple_palette() -> Palette {
    Palette {
        bg: Color::Rgb(20, 19, 31),
        fg: Color::Rgb(224, 222, 244),
        surface: Color::Rgb(26, 24, 38),
        accent: Color::Rgb(196, 167, 231),
        text_primary: Color::Rgb(224, 222, 244),
        text_dimmed: Color::Rgb(110, 106, 134),
        input_cursor: Color::Rgb(212, 184, 240),
        success: Color::Rgb(49, 182, 176),
        warning: Color::Rgb(246, 193, 119),
        error: Color::Rgb(235, 111, 150),
        folder: Color::Rgb(240, 192, 128),
        gauge: Color::Rgb(196, 167, 231),
        border: Color::Rgb(31, 29, 46),
        hover: Color::Rgb(26, 24, 38),
        badge_dl: Color::Rgb(246, 193, 119),
        badge_stream: Color::Rgb(235, 111, 146),
    }
}

/// Every built-in theme, in cycling order; the first is the default.
pub open spec fn theme_table() -> Seq<ThemeView> {
    seq![
        ThemeView { name: "TokyoNight Dark"@, palette: tokyonight_dark_palette() },
        ThemeView { name: "TokyoNight Light"@, palette: tokyonight_light_palette() },
        ThemeView { name: "Kanagawa Dark"@, palette: kanagawa_dark_palette() },
        ThemeView { name: "Kanagawa Light"@, palette: kanagawa_light_palette() },
        ThemeView { name: "Nord Dark"@, palette: nord_dark_palette() },
        ThemeView { name: "Nord Light"@, palette: nord_light_palette() },
        ThemeView { name: "Gruvbox Dark"@, palette: gruvbox_dark_palette() },
        ThemeView { name: "Gruvbox Light"@, palette: gruvbox_light_palette() },
        ThemeView { name: "Catppuccin Mocha"@, palette: catppuccin_mocha_palette() },
        ThemeView { name: "Catppuccin Latte"@, palette: catppuccin_latte_palette() },
        ThemeView { name: "Purple"@, palette: purple_palette() },
    ]
}

pub(crate) fn tokyonight_dark() -> (t: Theme)
    ensures
        t@ == (ThemeView { name: "TokyoNight Dark"@, palette: tokyonight_dark_palette() }),
{
    Theme {
        name: "TokyoNight Dark",
        palette: Palette {
            bg: Color::Rgb(12, 14, 20),
            fg: Color::Rgb(192, 202, 245),
            surface: Color::Rgb(22, 22, 30),
            accent: Color::Rgb(122, 162, 247),
            text_primary: Color::Rgb(192, 202, 245),
            text_dimmed: Color::Rgb(86, 95, 137),
            input_cursor: Color::Rgb(137, 180, 250),
            success: Color::Rgb(158, 206, 106),
            warning: Color::Rgb(224, 175, 104),
            error: Color::Rgb(247, 118, 142),
            folder: Color::Rgb(255, 158, 100),
            gauge: Color::Rgb(122, 162, 247),
            border: Color::Rgb(26, 27, 38),
            hover: Color::Rgb(31, 34, 56),
            badge_dl: Color::Rgb(224, 175, 104),
            badge_stream: Color::Rgb(187, 154, 247),
        },
    }
}

pub(crate) fn tokyonight_light() -> (t: Theme)
    ensures
        t@ == (ThemeView { name: "TokyoNight Light"@, palette: tokyonight_light_palette() }),
{
    Theme {
        name: "TokyoNight Light",
        palette: Palette {
            bg: Color::Rgb(225, 226, 231),
            fg: Color::Rgb(55, 96, 191),
            surface: Color::Rgb(208, 213, 227),
            accent: Color::Rgb(46, 125, 233),
            text_primary: Color::Rgb(55, 96, 191),
            text_dimmed: Color::Rgb(132, 140, 181),
            input_cursor: Color::Rgb(53, 138, 255),
            success: Color::Rgb(88, 117, 57),
            warning: Color::Rgb(140, 108, 62),
            error: Color::Rgb(245, 42, 101),
            folder: Color::Rgb(177, 92, 0),
            gauge: Color::Rgb(46, 125, 233),
            border: Color::Rgb(168, 174, 203),
            hover: Color::Rgb(205, 209, 221),
            badge_dl: Color::Rgb(140, 108, 62),
            badge_stream: Color::Rgb(152, 84, 241),
        },
    }
}

pub(crate) fn kanagawa_dark() -> (t: Theme)
    ensures
        t@ == (ThemeView { name: "Kanagawa Dark"@, palette: kanagawa_dark_palette() }),
{
    Theme {
        name: "Kanagawa Dark",
        palette: Palette {
            bg: Color::Rgb(22, 22, 29),
            fg: Color::Rgb(220, 215, 186),
            surface: Color::Rgb(26, 26, 34),
            accent: Color::Rgb(126, 156, 216),
            text_primary: Color::Rgb(220, 215, 186),
            text_dimmed: Color::Rgb(114, 113, 105),
            input_cursor: Color::Rgb(156, 171, 202),
            success: Color::Rgb(152, 187, 108),
            warning: Color::Rgb(230, 195, 132),
            error: Color::Rgb(232, 36, 36),
            folder: Color::Rgb(255, 160, 102),
            gauge: Color::Rgb(126, 156, 216),
            border: Color::Rgb(31, 31, 40),
            hover: Color::Rgb(29, 29, 38),
            badge_dl: Color::Rgb(230, 195, 132),
            badge_stream: Color::Rgb(149, 127, 184),
        },
    }
}

pub(crate) fn kanagawa_light() -> (t: Theme)
    ensures
        t@ == (ThemeView { name: "Kanagawa Light"@, palette: kanagawa_light_palette() }),
{
    Theme {
        name: "Kanagawa Light",
        palette: Palette {
            bg: Color::Rgb(242, 236, 188),
            fg: Color::Rgb(84, 84, 100),
            surface: Color::Rgb(229, 221, 176),
            accent: Color::Rgb(77, 105, 155),
            text_primary: Color::Rgb(84, 84, 100),
            text_dimmed: Color::Rgb(138, 137, 128),
            input_cursor: Color::Rgb(93, 87, 163),
            success: Color::Rgb(111, 137, 78),
            warning: Color::Rgb(222, 152, 0),
            error: Color::Rgb(200, 64, 83),
            folder: Color::Rgb(233, 138, 0),
            gauge: Color::Rgb(77, 105, 155),
            border: Color::Rgb(160, 156, 172),
            hover: Color::Rgb(231, 219, 160),
            badge_dl: Color::Rgb(222, 152, 0),
            badge_stream: Color::Rgb(118, 107, 144),
        },
    }
}

pub(crate) fn nord_dark() -> (t: Theme)
    ensures
        t@ == (ThemeView { name: "Nord Dark"@, palette: nord_dark_palette() }),
{
    Theme {
        name: "Nord Dark",
        palette: Palette {
            bg: Color::Rgb(36, 42, 54),
            fg: Color::Rgb(216, 222, 233),
            surface: Color::Rgb(46, 52, 64),
            accent: Color::Rgb(136, 192, 208),
            text_primary: Color::Rgb(216, 222, 233),
            text_dimmed: Color::Rgb(76, 86, 106),
            input_cursor: Color::Rgb(143, 188, 187),
            success: Color::Rgb(163, 190, 140),
            warning: Color::Rgb(235, 203, 139),
            error: Color::Rgb(191, 97, 106),
            folder: Color::Rgb(208, 135, 112),
            gauge: Color::Rgb(136, 192, 208),
            border: Color::Rgb(59, 66, 82),
            hover: Color::Rgb(46, 52, 64),
            badge_dl: Color::Rgb(235, 203, 139),
            badge_stream: Color::Rgb(180, 142, 173),
        },
    }
}

pub(crate) fn nord_light() -> (t: Theme)
    ensures
        t@ == (ThemeView { name: "Nord Light"@, palette: nord_light_palette() }),
{
    Theme {
        name: "Nord Light",
        palette: Palette {
            bg: Color::Rgb(236, 239, 244),
            fg: Color::Rgb(46, 52, 64),
            surface: Color::Rgb(216, 222, 233),
            accent: Color::Rgb(94, 129, 172),
            text_primary: Color::Rgb(46, 52, 64),
            text_dimmed: Color::Rgb(129, 161, 193),
            input_cursor: Color::Rgb(129, 161, 193),
            success: Color::Rgb(122, 156, 102),
            warning: Color::Rgb(199, 151, 63),
            error: Color::Rgb(191, 97, 106),
            folder: Color::Rgb(208, 135, 112),
            gauge: Color::Rgb(136, 192, 208),
            border: Color::Rgb(129, 161, 193),
            hover: Color::Rgb(229, 233, 240),
            badge_dl: Color::Rgb(199, 151, 63),
            badge_stream: Color::Rgb(180, 142, 173),
        },
    }
}

pub(crate) fn gruvbox_dark() -> (t: Theme)
    ensures
        t@ == (ThemeView { name: "Gruvbox Dark"@, palette: gruvbox_dark_palette() }),
{
    Theme {
        name: "Gruvbox Dark",
        palette: Palette {
            bg: Color::Rgb(29, 32, 33),
            fg: Color::Rgb(235, 219, 178),
            surface: Color::Rgb(40, 40, 40),
            accent: Color::Rgb(131, 165, 152),
            text_primary: Color::Rgb(235, 219, 178),
            text_dimmed: Color::Rgb(146, 131, 116),
            input_cursor: Color::Rgb(142, 192, 124),
            success: Color::Rgb(184, 187, 38),
            warning: Color::Rgb(250, 189, 47),
            error: Color::Rgb(251, 73, 52),
            folder: Color::Rgb(254, 128, 25),
            gauge: Color::Rgb(131, 165, 152),
            border: Color::Rgb(50, 48, 47),
            hover: Color::Rgb(40, 40, 40),
            badge_dl: Color::Rgb(250, 189, 47),
            badge_stream: Color::Rgb(211, 134, 155),
        },
    }
}

pub(crate) fn gruvbox_light() -> (t: Theme)
    ensures
        t@ == (ThemeView { name: "Gruvbox Light"@, palette: gruvbox_light_palette() }),
{
    Theme {
        name: "Gruvbox Light",
        palette: Palette {
            bg: Color::Rgb(251, 241, 199),
            fg: Color::Rgb(60, 56, 54),
            surface: Color::Rgb(242, 229, 188),
            accent: Color::Rgb(7, 102, 120),
            text_primary: Color::Rgb(60, 56, 54),
            text_dimmed: Color::Rgb(124, 111, 100),
            input_cursor: Color::Rgb(66, 123, 88),
            success: Color::Rgb(121, 116, 14),
            warning: Color::Rgb(181, 118, 20),
            error: Color::Rgb(157, 0, 6),
            folder: Color::Rgb(175, 58, 3),
            gauge: Color::Rgb(7, 102, 120),
            border: Color::Rgb(213, 196, 161),
            hover: Color::Rgb(235, 219, 178),
            badge_dl: Color::Rgb(181, 118, 20),
            badge_stream: Color::Rgb(143, 63, 113),
        },
    }
}

pub(crate) fn catppuccin_mocha() -> (t: Theme)
    ensures
        t@ == (ThemeView { name: "Catppuccin Mocha"@, palette: catppuccin_mocha_palette() }),
{
    Theme {
        name: "Catppuccin Mocha",
        palette: Palette {
            bg: Color::Rgb(17, 17, 27),
            fg: Color::Rgb(205, 214, 244),
            surface: Color::Rgb(24, 24, 37),
            accent: Color::Rgb(137, 180, 250),
            text_primary: Color::Rgb(205, 214, 244),
            text_dimmed: Color::Rgb(108, 112, 134),
            input_cursor: Color::Rgb(116, 199, 236),
            success: Color::Rgb(166, 227, 161),
            warning: Color::Rgb(249, 226, 175),
            error: Color::Rgb(243, 139, 168),
            folder: Color::Rgb(250, 179, 135),
            gauge: Color::Rgb(137, 180, 250),
            border: Color::Rgb(30, 30, 46),
            hover: Color::Rgb(24, 24, 37),
            badge_dl: Color::Rgb(249, 226, 175),
            badge_stream: Color::Rgb(203, 166, 247),
        },
    }
}

pub(crate) fn catppuccin_latte() -> (t: Theme)
    ensures
        t@ == (ThemeView { name: "Catppuccin Latte"@, palette: catppuccin_latte_palette() }),
{
    Theme {
        name: "Catppuccin Latte",
        palette: Palette {
            bg: Color::Rgb(239, 241, 245),
            fg: Color::Rgb(76, 79, 105),
            surface: Color::Rgb(204, 208, 218),
            accent: Color::Rgb(30, 102, 245),
            text_primary: Color::Rgb(76, 79, 105),
            text_dimmed: Color::Rgb(156, 160, 176),
            input_cursor: Color::Rgb(32, 159, 181),
            success: Color::Rgb(64, 160, 43),
            warning: Color::Rgb(223, 142, 29),
            error: Color::Rgb(210, 15, 57),
            folder: Color::Rgb(254, 100, 11),
            gauge: Color::Rgb(30, 102, 245),
            border: Color::Rgb(188, 192, 204),
            hover: Color::Rgb(230, 233, 239),
            badge_dl: Color::Rgb(223, 142, 29),
            badge_stream: Color::Rgb(136, 57, 239),
        },
    }
}

pub(crate) fn purple() -> (t: Theme)
    ensures
        t@ == (ThemeView { name: "Purple"@, palette: purple_palette() }),
{
    Theme {
        name: "Purple",
        palette: Palette {
            bg: Color::Rgb(20, 19, 31),
            fg: Color::Rgb(224, 222, 244),
            surface: Color::Rgb(26, 24, 38),
            accent: Color::Rgb(196, 167, 231),
            text_primary: Color::Rgb(224, 222, 244),
            text_dimmed: Color::Rgb(110, 106, 134),
            input_cursor: Color::Rgb(212, 184, 240),
            success: Color::Rgb(49, 182, 176),
            warning: Color::Rgb(246, 193, 119),
            error: Color::Rgb(235, 111, 150),
            folder: Color::Rgb(240, 192, 128),
            gauge: Color::Rgb(196, 167, 231),
            border: Color::Rgb(31, 29, 46),
            hover: Color::Rgb(26, 24, 38),
            badge_dl: Color::Rgb(246, 193, 119),
            badge_stream: Color::Rgb(235, 111, 146),
        },
    }
}

impl Theme {
    /// Every built-in theme, in cycling order; the first is the default.
    pub fn all() -> (r: Vec<Theme>)
        ensures
            themes_view(r@) == theme_table(),
    {
        let r = vec![
            tokyonight_dark(),
            tokyonight_light(),
            kanagawa_dark(),
            kanagawa_light(),
            nord_dark(),
            nord_light(),
            gruvbox_dark(),
            gruvbox_light(),
            catppuccin_mocha(),
            catppuccin_latte(),
            purple(),
        ];
        assert(themes_view(r@) =~= theme_table());
        r
    }
}

} // verus!
