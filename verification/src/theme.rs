//! The design system: colour palettes and the palette each theme uses.

use vstd::prelude::*;

verus! {

/// The interface themes.
#[derive(Debug, Clone, Copy, PartialEq, Eq, Structural)]
pub enum ThemeMode {
    Light,
    Dark,
    DeepNightRed,
    System,
}

/// An opaque colour.
#[derive(Debug, Clone, Copy, PartialEq, Eq, Structural)]
pub struct Rgb {
    pub r: u8,
    pub g: u8,
    pub b: u8,
}

pub open spec fn rgb(r: u8, g: u8, b: u8) -> Rgb {
    Rgb { r, g, b }
}

/// The colours of one theme.
#[derive(Debug, Clone, Copy, PartialEq, Eq, Structural)]
pub struct ColorPalette {
    pub primary: Rgb,
    pub primary_hover: Rgb,
    pub primary_pressed: Rgb,
    pub accent: Rgb,
    pub background: Rgb,
    pub cards: Rgb,
    pub borders: Rgb,
    pub text_primary: Rgb,
    pub text_secondary: Rgb,
}

/// The light palette: crimson and cyan accents on near-white surfaces.
pub open spec fn light_palette() -> ColorPalette {
    ColorPalette {
        primary: rgb(139, 0, 0),
        primary_hover: rgb(155, 17, 30),
        primary_pressed: rgb(96, 0, 8),
        accent: rgb(0, 229, 255),
        background: rgb(250, 250, 250),
        cards: rgb(255, 255, 255),
        borders: rgb(231, 231, 231),
        text_primary: rgb(34, 34, 34),
        text_secondary: rgb(102, 102, 102),
    }
}

/// The dark palette: crimson-tinted dark surfaces.
pub open spec fn dark_palette() -> ColorPalette {
    ColorPalette {
        primary: rgb(139, 0, 0),
        primary_hover: rgb(155, 17, 30),
        primary_pressed: rgb(96, 0, 8),
        accent: rgb(0, 229, 255),
        background: rgb(10, 8, 9),
        cards: rgb(22, 10, 14),
        borders: rgb(60, 10, 20),
        text_primary: rgb(241, 245, 249),
        text_secondary: rgb(148, 163, 184),
    }
}

/// The deep night red palette: the darkest surfaces.
pub open spec fn deep_night_red_palette() -> ColorPalette {
    ColorPalette {
        primary: rgb(139, 0, 0),
        primary_hover: rgb(155, 17, 30),
        primary_pressed: rgb(96, 0, 8),
        accent: rgb(0, 229, 255),
        background: rgb(5, 2, 3),
        cards: rgb(14, 5, 8),
        borders: rgb(40, 5, 10),
        text_primary: rgb(241, 245, 249),
        text_secondary: rgb(148, 163, 184),
    }
}

/// The palette a theme uses; `System` uses the dark palette.
pub open spec fn palette_for(mode: ThemeMode) -> ColorPalette {
    match mode {
        ThemeMode::Light => light_palette(),
        ThemeMode::DeepNightRed => deep_night_red_palette(),
        ThemeMode::Dark | ThemeMode::System => dark_palette(),
    }
}

impl ColorPalette {
    pub fn light() -> (p: Self)
        ensures
            p == light_palette(),
    {
        ColorPalette {
            primary: Rgb { r: 139, g: 0, b: 0 },
            primary_hover: Rgb { r: 155, g: 17, b: 30 },
            primary_pressed: Rgb { r: 96, g: 0, b: 8 },
            accent: Rgb { r: 0, g: 229, b: 255 },
            background: Rgb { r: 250, g: 250, b: 250 },
            cards: Rgb { r: 255, g: 255, b: 255 },
            borders: Rgb { r: 231, g: 231, b: 231 },
            text_primary: Rgb { r: 34, g: 34, b: 34 },
            text_secondary: Rgb { r: 102, g: 102, b: 102 },
        }
    }

    pub fn dark() -> (p: Self)
        ensures
            p == dark_palette(),
    {
        ColorPalette {
            primary: Rgb { r: 139, g: 0, b: 0 },
            primary_hover: Rgb { r: 155, g: 17, b: 30 },
            primary_pressed: Rgb { r: 96, g: 0, b: 8 },
            accent: Rgb { r: 0, g: 229, b: 255 },
            background: Rgb { r: 10, g: 8, b: 9 },
            cards: Rgb { r: 22, g: 10, b: 14 },
            borders: Rgb { r: 60, g: 10, b: 20 },
            text_primary: Rgb { r: 241, g: 245, b: 249 },
            text_secondary: Rgb { r: 148, g: 163, b: 184 },
        }
    }

    pub fn deep_night_red() -> (p: Self)
        ensures
            p == deep_night_red_palette(),
    {
        ColorPalette {
            primary: Rgb { r: 139, g: 0, b: 0 },
            primary_hover: Rgb { r: 155, g: 17, b: 30 },
            primary_pressed: Rgb { r: 96, g: 0, b: 8 },
            accent: Rgb { r: 0, g: 229, b: 255 },
            background: Rgb { r: 5, g: 2, b: 3 },
            cards: Rgb { r: 14, g: 5, b: 8 },
            borders: Rgb { r: 40, g: 5, b: 10 },
            text_primary: Rgb { r: 241, g: 245, b: 249 },
            text_secondary: Rgb { r: 148, g: 163, b: 184 },
        }
    }
}

/// A theme and its palette.
#[derive(Debug, Clone, Copy, PartialEq, Eq, Structural)]
pub struct DesignSystem {
    pub mode: ThemeMode,
    pub palette: ColorPalette,
}

impl DesignSystem {
    /// The design system of theme `mode`.
    pub open spec fn new_spec(mode: ThemeMode) -> DesignSystem {
        DesignSystem { mode, palette: palette_for(mode) }
    }

    pub fn new(mode: ThemeMode) -> (d: Self)
        ensures
            d.mode == mode,
            d.palette == palette_for(mode),
            d == Self::new_spec(mode),
    {
        let palette = match mode {
            ThemeMode::Light => ColorPalette::light(),
            ThemeMode::DeepNightRed => ColorPalette::deep_night_red(),
            ThemeMode::Dark | ThemeMode::System => ColorPalette::dark(),
        };
        DesignSystem { mode, palette }
    }

    /// The light theme.
    pub fn default() -> (d: Self)
        ensures
            d.mode == ThemeMode::Light,
            d.palette == light_palette(),
    {
        Self::new(ThemeMode::Light)
    }
}

} // verus!
