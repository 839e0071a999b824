use vstd::prelude::*;

use crate::config::Theme;
use crate::export::CellColor;

verus! {

/// The colours a theme paints the screen with: background and panel fills,
/// accent and text tones, the Moon, constellation lines (bright and dim), the
/// selection highlight and deep-sky markers.
#[derive(Debug, Clone, Copy, PartialEq, Eq)]
pub struct Palette {
    pub bg: CellColor,
    pub panel: CellColor,
    pub cyan: CellColor,
    pub silver: CellColor,
    pub muted: CellColor,
    pub veil: CellColor,
    pub moon: CellColor,
    pub warm: CellColor,
    pub line: CellColor,
    pub dim_line: CellColor,
    pub selected: CellColor,
    pub deep: CellColor,
}

/// The palette of each theme.
pub open spec fn theme_palette(theme: Theme) -> Palette {
    match theme {
        Theme::Midnight => Palette {
            bg: CellColor::Rgb(4, 8, 18),
            panel: CellColor::Rgb(10, 18, 32),
            cyan: CellColor::Rgb(94, 224, 232),
            silver: CellColor::Rgb(226, 232, 240),
            muted: CellColor::Rgb(106, 126, 150),
            veil: CellColor::Rgb(54, 63, 77),
            moon: CellColor::Rgb(246, 220, 154),
            warm: CellColor::Rgb(255, 232, 184),
            line: CellColor::Rgb(95, 210, 235),
            dim_line: CellColor::Rgb(46, 86, 111),
            selected: CellColor::Rgb(255, 238, 167),
            deep: CellColor::Rgb(176, 132, 255),
        },
        Theme::Aurora => Palette {
            bg: CellColor::Rgb(3, 13, 16),
            panel: CellColor::Rgb(7, 27, 31),
            cyan: CellColor::Rgb(100, 255, 206),
            silver: CellColor::Rgb(224, 245, 239),
            muted: CellColor::Rgb(108, 151, 146),
            veil: CellColor::Rgb(52, 68, 68),
            moon: CellColor::Rgb(231, 221, 167),
            warm: CellColor::Rgb(255, 205, 152),
            line: CellColor::Rgb(116, 225, 198),
            dim_line: CellColor::Rgb(42, 92, 88),
            selected: CellColor::Rgb(252, 240, 160),
            deep: CellColor::Rgb(151, 190, 255),
        },
        Theme::Amber => Palette {
            bg: CellColor::Rgb(12, 8, 5),
            panel: CellColor::Rgb(31, 21, 11),
            cyan: CellColor::Rgb(108, 206, 195),
            silver: CellColor::Rgb(239, 226, 203),
            muted: CellColor::Rgb(147, 123, 91),
            veil: CellColor::Rgb(76, 70, 64),
            moon: CellColor::Rgb(255, 213, 123),
            warm: CellColor::Rgb(255, 188, 112),
            line: CellColor::Rgb(110, 195, 180),
            dim_line: CellColor::Rgb(86, 68, 48),
            selected: CellColor::Rgb(255, 235, 153),
            deep: CellColor::Rgb(222, 155, 255),
        },
        Theme::Dusk => Palette {
            bg: CellColor::Rgb(15, 12, 31),
            panel: CellColor::Rgb(27, 22, 48),
            cyan: CellColor::Rgb(130, 219, 216),
            silver: CellColor::Rgb(231, 226, 241),
            muted: CellColor::Rgb(141, 132, 164),
            veil: CellColor::Rgb(69, 61, 88),
            moon: CellColor::Rgb(248, 207, 142),
            warm: CellColor::Rgb(244, 166, 139),
            line: CellColor::Rgb(125, 202, 210),
            dim_line: CellColor::Rgb(73, 74, 103),
            selected: CellColor::Rgb(255, 202, 156),
            deep: CellColor::Rgb(214, 146, 255),
        },
        Theme::Forest => Palette {
            bg: CellColor::Rgb(3, 15, 10),
            panel: CellColor::Rgb(9, 28, 19),
            cyan: CellColor::Rgb(117, 223, 180),
            silver: CellColor::Rgb(218, 235, 218),
            muted: CellColor::Rgb(109, 139, 119),
            veil: CellColor::Rgb(50, 74, 58),
            moon: CellColor::Rgb(238, 214, 151),
            warm: CellColor::Rgb(247, 176, 99),
            line: CellColor::Rgb(100, 191, 145),
            dim_line: CellColor::Rgb(38, 87, 65),
            selected: CellColor::Rgb(249, 226, 130),
            deep: CellColor::Rgb(142, 172, 255),
        },
        Theme::Dracula => Palette {
            bg: CellColor::Rgb(40, 42, 54),
            panel: CellColor::Rgb(52, 55, 70),
            cyan: CellColor::Rgb(139, 233, 253),
            silver: CellColor::Rgb(248, 248, 242),
            muted: CellColor::Rgb(98, 114, 164),
            veil: CellColor::Rgb(80, 83, 104),
            moon: CellColor::Rgb(241, 250, 140),
            warm: CellColor::Rgb(255, 184, 108),
            line: CellColor::Rgb(80, 250, 123),
            dim_line: CellColor::Rgb(72, 104, 112),
            selected: CellColor::Rgb(255, 121, 198),
            deep: CellColor::Rgb(189, 147, 249),
        },
        Theme::Nord => Palette {
            bg: CellColor::Rgb(46, 52, 64),
            panel: CellColor::Rgb(59, 66, 82),
            cyan: CellColor::Rgb(136, 192, 208),
            silver: CellColor::Rgb(236, 239, 244),
            muted: CellColor::Rgb(129, 161, 193),
            veil: CellColor::Rgb(76, 86, 106),
            moon: CellColor::Rgb(235, 203, 139),
            warm: CellColor::Rgb(208, 135, 112),
            line: CellColor::Rgb(143, 188, 187),
            dim_line: CellColor::Rgb(81, 100, 122),
            selected: CellColor::Rgb(180, 142, 173),
            deep: CellColor::Rgb(163, 190, 140),
        },
        Theme::Gruvbox => Palette {
            bg: CellColor::Rgb(40, 40, 40),
            panel: CellColor::Rgb(50, 48, 47),
            cyan: CellColor::Rgb(142, 192, 124),
            silver: CellColor::Rgb(235, 219, 178),
            muted: CellColor::Rgb(168, 153, 132),
            veil: CellColor::Rgb(80, 73, 69),
            moon: CellColor::Rgb(250, 189, 47),
            warm: CellColor::Rgb(254, 128, 25),
            line: CellColor::Rgb(131, 165, 152),
            dim_line: CellColor::Rgb(102, 92, 84),
            selected: CellColor::Rgb(251, 73, 52),
            deep: CellColor::Rgb(211, 134, 155),
        },
        Theme::SolarizedDark => Palette {
            bg: CellColor::Rgb(0, 43, 54),
            panel: CellColor::Rgb(7, 54, 66),
            cyan: CellColor::Rgb(42, 161, 152),
            silver: CellColor::Rgb(238, 232, 213),
            muted: CellColor::Rgb(101, 123, 131),
            veil: CellColor::Rgb(88, 110, 117),
            moon: CellColor::Rgb(181, 137, 0),
            warm: CellColor::Rgb(203, 75, 22),
            line: CellColor::Rgb(38, 139, 210),
            dim_line: CellColor::Rgb(63, 93, 101),
            selected: CellColor::Rgb(220, 50, 47),
            deep: CellColor::Rgb(108, 113, 196),
        },
        Theme::TokyoNight => Palette {
            bg: CellColor::Rgb(26, 27, 38),
            panel: CellColor::Rgb(36, 40, 59),
            cyan: CellColor::Rgb(125, 207, 255),
            silver: CellColor::Rgb(192, 202, 245),
            muted: CellColor::Rgb(86, 95, 137),
            veil: CellColor::Rgb(65, 72, 104),
            moon: CellColor::Rgb(224, 175, 104),
            warm: CellColor::Rgb(255, 158, 100),
            line: CellColor::Rgb(115, 218, 202),
            dim_line: CellColor::Rgb(62, 88, 120),
            selected: CellColor::Rgb(187, 154, 247),
            deep: CellColor::Rgb(247, 118, 142),
        },
        Theme::Mono => Palette {
            bg: CellColor::Black,
            panel: CellColor::Rgb(12, 12, 12),
            cyan: CellColor::White,
            silver: CellColor::White,
            muted: CellColor::DarkGray,
            veil: CellColor::DarkGray,
            moon: CellColor::Gray,
            warm: CellColor::White,
            line: CellColor::Gray,
            dim_line: CellColor::DarkGray,
            selected: CellColor::White,
            deep: CellColor::Gray,
        },
    }
}

/// The palette that `theme` paints with.
pub fn palette(theme: Theme) -> (r: Palette)
    ensures
        r == theme_palette(theme),
{
    match theme {
        Theme::Midnight => Palette {
            bg: CellColor::Rgb(4, 8, 18),
            panel: CellColor::Rgb(10, 18, 32),
            cyan: CellColor::Rgb(94, 224, 232),
            silver: CellColor::Rgb(226, 232, 240),
            muted: CellColor::Rgb(106, 126, 150),
            veil: CellColor::Rgb(54, 63, 77),
            moon: CellColor::Rgb(246, 220, 154),
            warm: CellColor::Rgb(255, 232, 184),
            line: CellColor::Rgb(95, 210, 235),
            dim_line: CellColor::Rgb(46, 86, 111),
            selected: CellColor::Rgb(255, 238, 167),
            deep: CellColor::Rgb(176, 132, 255),
        },
        Theme::Aurora => Palette {
            bg: CellColor::Rgb(3, 13, 16),
            panel: CellColor::Rgb(7, 27, 31),
            cyan: CellColor::Rgb(100, 255, 206),
            silver: CellColor::Rgb(224, 245, 239),
            muted: CellColor::Rgb(108, 151, 146),
            veil: CellColor::Rgb(52, 68, 68),
            moon: CellColor::Rgb(231, 221, 167),
            warm: CellColor::Rgb(255, 205, 152),
            line: CellColor::Rgb(116, 225, 198),
            dim_line: CellColor::Rgb(42, 92, 88),
            selected: CellColor::Rgb(252, 240, 160),
            deep: CellColor::Rgb(151, 190, 255),
        },
        Theme::Amber => Palette {
            bg: CellColor::Rgb(12, 8, 5),
            panel: CellColor::Rgb(31, 21, 11),
            cyan: CellColor::Rgb(108, 206, 195),
            silver: CellColor::Rgb(239, 226, 203),
            muted: CellColor::Rgb(147, 123, 91),
            veil: CellColor::Rgb(76, 70, 64),
            moon: CellColor::Rgb(255, 213, 123),
            warm: CellColor::Rgb(255, 188, 112),
            line: CellColor::Rgb(110, 195, 180),
            dim_line: CellColor::Rgb(86, 68, 48),
            selected: CellColor::Rgb(255, 235, 153),
            deep: CellColor::Rgb(222, 155, 255),
        },
        Theme::Dusk => Palette {
            bg: CellColor::Rgb(15, 12, 31),
            panel: CellColor::Rgb(27, 22, 48),
            cyan: CellColor::Rgb(130, 219, 216),
            silver: CellColor::Rgb(231, 226, 241),
            muted: CellColor::Rgb(141, 132, 164),
            veil: CellColor::Rgb(69, 61, 88),
            moon: CellColor::Rgb(248, 207, 142),
            warm: CellColor::Rgb(244, 166, 139),
            line: CellColor::Rgb(125, 202, 210),
            dim_line: CellColor::Rgb(73, 74, 103),
            selected: CellColor::Rgb(255, 202, 156),
            deep: CellColor::Rgb(214, 146, 255),
        },
        Theme::Forest => Palette {
            bg: CellColor::Rgb(3, 15, 10),
            panel: CellColor::Rgb(9, 28, 19),
            cyan: CellColor::Rgb(117, 223, 180),
            silver: CellColor::Rgb(218, 235, 218),
            muted: CellColor::Rgb(109, 139, 119),
            veil: CellColor::Rgb(50, 74, 58),
            moon: CellColor::Rgb(238, 214, 151),
            warm: CellColor::Rgb(247, 176, 99),
            line: CellColor::Rgb(100, 191, 145),
            dim_line: CellColor::Rgb(38, 87, 65),
            selected: CellColor::Rgb(249, 226, 130),
            deep: CellColor::Rgb(142, 172, 255),
        },
        Theme::Dracula => Palette {
            bg: CellColor::Rgb(40, 42, 54),
            panel: CellColor::Rgb(52, 55, 70),
            cyan: CellColor::Rgb(139, 233, 253),
            silver: CellColor::Rgb(248, 248, 242),
            muted: CellColor::Rgb(98, 114, 164),
            veil: CellColor::Rgb(80, 83, 104),
            moon: CellColor::Rgb(241, 250, 140),
            warm: CellColor::Rgb(255, 184, 108),
            line: CellColor::Rgb(80, 250, 123),
            dim_line: CellColor::Rgb(72, 104, 112),
            selected: CellColor::Rgb(255, 121, 198),
            deep: CellColor::Rgb(189, 147, 249),
        },
        Theme::Nord => Palette {
            bg: CellColor::Rgb(46, 52, 64),
            panel: CellColor::Rgb(59, 66, 82),
            cyan: CellColor::Rgb(136, 192, 208),
            silver: CellColor::Rgb(236, 239, 244),
            muted: CellColor::Rgb(129, 161, 193),
            veil: CellColor::Rgb(76, 86, 106),
            moon: CellColor::Rgb(235, 203, 139),
            warm: CellColor::Rgb(208, 135, 112),
            line: CellColor::Rgb(143, 188, 187),
            dim_line: CellColor::Rgb(81, 100, 122),
            selected: CellColor::Rgb(180, 142, 173),
            deep: CellColor::Rgb(163, 190, 140),
        },
        Theme::Gruvbox => Palette {
            bg: CellColor::Rgb(40, 40, 40),
            panel: CellColor::Rgb(50, 48, 47),
            cyan: CellColor::Rgb(142, 192, 124),
            silver: CellColor::Rgb(235, 219, 178),
            muted: CellColor::Rgb(168, 153, 132),
            veil: CellColor::Rgb(80, 73, 69),
            moon: CellColor::Rgb(250, 189, 47),
            warm: CellColor::Rgb(254, 128, 25),
            line: CellColor::Rgb(131, 165, 152),
            dim_line: CellColor::Rgb(102, 92, 84),
            selected: CellColor::Rgb(251, 73, 52),
            deep: CellColor::Rgb(211, 134, 155),
        },
        Theme::SolarizedDark => Palette {
            bg: CellColor::Rgb(0, 43, 54),
            panel: CellColor::Rgb(7, 54, 66),
            cyan: CellColor::Rgb(42, 161, 152),
            silver: CellColor::Rgb(238, 232, 213),
            muted: CellColor::Rgb(101, 123, 131),
            veil: CellColor::Rgb(88, 110, 117),
            moon: CellColor::Rgb(181, 137, 0),
            warm: CellColor::Rgb(203, 75, 22),
            line: CellColor::Rgb(38, 139, 210),
            dim_line: CellColor::Rgb(63, 93, 101),
            selected: CellColor::Rgb(220, 50, 47),
            deep: CellColor::Rgb(108, 113, 196),
        },
        Theme::TokyoNight => Palette {
            bg: CellColor::Rgb(26, 27, 38),
            panel: CellColor::Rgb(36, 40, 59),
            cyan: CellColor::Rgb(125, 207, 255),
            silver: CellColor::Rgb(192, 202, 245),
            muted: CellColor::Rgb(86, 95, 137),
            veil: CellColor::Rgb(65, 72, 104),
            moon: CellColor::Rgb(224, 175, 104),
            warm: CellColor::Rgb(255, 158, 100),
            line: CellColor::Rgb(115, 218, 202),
            dim_line: CellColor::Rgb(62, 88, 120),
            selected: CellColor::Rgb(187, 154, 247),
            deep: CellColor::Rgb(247, 118, 142),
        },
        Theme::Mono => Palette {
            bg: CellColor::Black,
            panel: CellColor::Rgb(12, 12, 12),
            cyan: CellColor::White,
            silver: CellColor::White,
            muted: CellColor::DarkGray,
            veil: CellColor::DarkGray,
            moon: CellColor::Gray,
            warm: CellColor::White,
            line: CellColor::Gray,
            dim_line: CellColor::DarkGray,
            selected: CellColor::White,
            deep: CellColor::Gray,
        },
    }
}

} // verus!
