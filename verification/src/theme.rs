use vstd::prelude::*;
use crate::color::Color;

verus! {

/// The palettes that the application offers.
#[derive(Clone, Copy, Debug, PartialEq, Eq, Structural)]
pub enum ThemeType {
    Light,
    Dark,
    Sunset,
    Ocean,
    Forest,
    Custom,
}

impl ThemeType {
    /// The display name of the palette.
    pub open spec fn label(self) -> Seq<char> {
        match self {
            ThemeType::Light => "明亮"@,
            ThemeType::Dark => "暗黑"@,
            ThemeType::Sunset => "夕阳"@,
            ThemeType::Ocean => "海洋"@,
            ThemeType::Forest => "森林"@,
            ThemeType::Custom => "自定义"@,
        }
    }

    /// Returns the display name of the palette.
    pub fn name(&self) -> (s: &str)
        ensures
            s@ == self.label(),
    {
        match self {
            ThemeType::Light => "明亮",
            ThemeType::Dark => "暗黑",
            ThemeType::Sunset => "夕阳",
            ThemeType::Ocean => "海洋",
            ThemeType::Forest => "森林",
            ThemeType::Custom => "自定义",
        }
    }

    /// Returns the built-in palettes in menu order; `Custom` is not among them.
    pub fn all() -> (all: Vec<ThemeType>)
        ensures
            all@ == seq![
                ThemeType::Light,
                ThemeType::Dark,
                ThemeType::Sunset,
                ThemeType::Ocean,
                ThemeType::Forest,
            ],
    {
        let mut all: Vec<ThemeType> = Vec::new();
        all.push(ThemeType::Light);
        all.push(ThemeType::Dark);
        all.push(ThemeType::Sunset);
        all.push(ThemeType::Ocean);
        all.push(ThemeType::Forest);
        all
    }
}

/// The colours of the application.
#[derive(Clone, Copy, Debug, PartialEq, Eq, Structural)]
pub struct Theme {
    pub theme_type: ThemeType,
    pub background: Color,
    pub card_background: Color,
    pub accent: Color,
    pub text: Color,
    pub text_secondary: Color,
    pub success: Color,
    pub warning: Color,
    pub error: Color,
    pub selection: Color,
}

impl Theme {
    /// The built-in palette of a type. The custom type starts out as the dark palette.
    pub open spec fn palette(theme_type: ThemeType) -> Theme {
        match theme_type {
            ThemeType::Light => Theme {
                theme_type: ThemeType::Light,
                background: Color::rgb(245, 245, 250),
                card_background: Color::rgb(255, 255, 255),
                accent: Color::rgb(66, 133, 244),
                text: Color::rgb(33, 33, 33),
                text_secondary: Color::rgb(102, 102, 102),
                success: Color::rgb(76, 175, 80),
                warning: Color::rgb(255, 152, 0),
                error: Color::rgb(244, 67, 54),
                selection: Color::rgb(232, 240, 254),
            },
            ThemeType::Sunset => Theme {
                theme_type: ThemeType::Sunset,
                background: Color::rgb(35, 25, 40),
                card_background: Color::rgb(50, 35, 55),
                accent: Color::rgb(255, 140, 120),
                text: Color::rgb(240, 230, 230),
                text_secondary: Color::rgb(200, 180, 190),
                success: Color::rgb(140, 220, 170),
                warning: Color::rgb(255, 190, 130),
                error: Color::rgb(255, 120, 120),
                selection: Color::rgb(80, 60, 90),
            },
            ThemeType::Ocean => Theme {
                theme_type: ThemeType::Ocean,
                background: Color::rgb(20, 40, 60),
                card_background: Color::rgb(35, 55, 75),
                accent: Color::rgb(100, 210, 255),
                text: Color::rgb(230, 240, 250),
                text_secondary: Color::rgb(170, 190, 210),
                success: Color::rgb(100, 220, 200),
                warning: Color::rgb(255, 190, 140),
                error: Color::rgb(255, 130, 150),
                selection: Color::rgb(50, 80, 110),
            },
            ThemeType::Forest => Theme {
                theme_type: ThemeType::Forest,
                background: Color::rgb(30, 45, 35),
                card_background: Color::rgb(45, 60, 50),
                accent: Color::rgb(120, 200, 130),
                text: Color::rgb(230, 240, 230),
                text_secondary: Color::rgb(180, 200, 180),
                success: Color::rgb(140, 230, 150),
                warning: Color::rgb(230, 200, 110),
                error: Color::rgb(230, 120, 110),
                selection: Color::rgb(60, 85, 65),
            },
            _ => Theme {
                theme_type: ThemeType::Dark,
                background: Color::rgb(30, 30, 35),
                card_background: Color::rgb(45, 45, 50),
                accent: Color::rgb(130, 170, 255),
                text: Color::rgb(230, 230, 230),
                text_secondary: Color::rgb(180, 180, 180),
                success: Color::rgb(105, 220, 120),
                warning: Color::rgb(255, 190, 90),
                error: Color::rgb(255, 100, 100),
                selection: Color::rgb(55, 70, 100),
            },
        }
    }

    /// Whether the theme is one on a dark ground: every theme but the light one.
    pub open spec fn dark_ground(self) -> bool {
        self.theme_type != ThemeType::Light
    }

    /// Returns the light palette.
    pub fn light() -> (theme: Theme)
        ensures
            theme == Theme::palette(ThemeType::Light),
    {
        Theme {
            theme_type: ThemeType::Light,
            background: Color::from_rgb(245, 245, 250),
            card_background: Color::from_rgb(255, 255, 255),
            accent: Color::from_rgb(66, 133, 244),
            text: Color::from_rgb(33, 33, 33),
            text_secondary: Color::from_rgb(102, 102, 102),
            success: Color::from_rgb(76, 175, 80),
            warning: Color::from_rgb(255, 152, 0),
            error: Color::from_rgb(244, 67, 54),
            selection: Color::from_rgb(232, 240, 254),
        }
    }

    /// Returns the dark palette.
    pub fn dark() -> (theme: Theme)
        ensures
            theme == Theme::palette(ThemeType::Dark),
    {
        Theme {
            theme_type: ThemeType::Dark,
            background: Color::from_rgb(30, 30, 35),
            card_background: Color::from_rgb(45, 45, 50),
            accent: Color::from_rgb(130, 170, 255),
            text: Color::from_rgb(230, 230, 230),
            text_secondary: Color::from_rgb(180, 180, 180),
            success: Color::from_rgb(105, 220, 120),
            warning: Color::from_rgb(255, 190, 90),
            error: Color::from_rgb(255, 100, 100),
            selection: Color::from_rgb(55, 70, 100),
        }
    }

    /// Returns the sunset palette.
    pub fn sunset() -> (theme: Theme)
        ensures
            theme == Theme::palette(ThemeType::Sunset),
    {
        Theme {
            theme_type: ThemeType::Sunset,
            background: Color::from_rgb(35, 25, 40),
            card_background: Color::from_rgb(50, 35, 55),
            accent: Color::from_rgb(255, 140, 120),
            text: Color::from_rgb(240, 230, 230),
            text_secondary: Color::from_rgb(200, 180, 190),
            success: Color::from_rgb(140, 220, 170),
            warning: Color::from_rgb(255, 190, 130),
            error: Color::from_rgb(255, 120, 120),
            selection: Color::from_rgb(80, 60, 90),
        }
    }

    /// Returns the ocean palette.
    pub fn ocean() -> (theme: Theme)
        ensures
            theme == Theme::palette(ThemeType::Ocean),
    {
        Theme {
            theme_type: ThemeType::Ocean,
            background: Color::from_rgb(20, 40, 60),
            card_background: Color::from_rgb(35, 55, 75),
            accent: Color::from_rgb(100, 210, 255),
            text: Color::from_rgb(230, 240, 250),
            text_secondary: Color::from_rgb(170, 190, 210),
            success: Color::from_rgb(100, 220, 200),
            warning: Color::from_rgb(255, 190, 140),
            error: Color::from_rgb(255, 130, 150),
            selection: Color::from_rgb(50, 80, 110),
        }
    }

    /// Returns the forest palette.
    pub fn forest() -> (theme: Theme)
        ensures
            theme == Theme::palette(ThemeType::Forest),
    {
        Theme {
            theme_type: ThemeType::Forest,
            background: Color::from_rgb(30, 45, 35),
            card_background: Color::from_rgb(45, 60, 50),
            accent: Color::from_rgb(120, 200, 130),
            text: Color::from_rgb(230, 240, 230),
            text_secondary: Color::from_rgb(180, 200, 180),
            success: Color::from_rgb(140, 230, 150),
            warning: Color::from_rgb(230, 200, 110),
            error: Color::from_rgb(230, 120, 110),
            selection: Color::from_rgb(60, 85, 65),
        }
    }

    /// Returns the built-in palette of a type; the custom type gets the dark palette
    /// to start from.
    pub fn from_type(theme_type: ThemeType) -> (theme: Theme)
        ensures
            theme == Theme::palette(theme_type),
    {
        match theme_type {
            ThemeType::Light => Theme::light(),
            ThemeType::Dark => Theme::dark(),
            ThemeType::Sunset => Theme::sunset(),
            ThemeType::Ocean => Theme::ocean(),
            ThemeType::Forest => Theme::forest(),
            ThemeType::Custom => Theme::dark(),
        }
    }

    /// Tells whether the theme is one on a dark ground.
    pub fn is_dark(&self) -> (dark: bool)
        ensures
            dark == self.dark_ground(),
    {
        match self.theme_type {
            ThemeType::Light => false,
            _ => true,
        }
    }
}

impl Default for Theme {
    /// The dark palette.
    fn default() -> (theme: Theme)
        ensures
            theme == Theme::palette(ThemeType::Dark),
    {
        Theme::dark()
    }
}

} // verus!
