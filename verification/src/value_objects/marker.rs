use vstd::prelude::*;

verus! {

/// The built-in prompt markers.
#[derive(Debug, Clone, Copy, PartialEq, Eq, Structural)]
pub enum MarkerPreset {
    GreaterThan,
    Underscore,
    Dollar,
    Hash,
    Chevron,
    Arrow,
    Play,
}

/// The text each preset shows.
pub open spec fn preset_text(p: MarkerPreset) -> Seq<char> {
    match p {
        MarkerPreset::GreaterThan => seq!['>'],
        MarkerPreset::Underscore => seq!['_'],
        MarkerPreset::Dollar => seq!['$'],
        MarkerPreset::Hash => seq!['#'],
        MarkerPreset::Chevron => seq!['\u{276f}'],
        MarkerPreset::Arrow => seq!['\u{279c}'],
        MarkerPreset::Play => seq!['\u{25b6}'],
    }
}

impl MarkerPreset {
    /// Every preset, in the order in which they are offered.
    pub const ALL: [MarkerPreset; 7] = [
        MarkerPreset::GreaterThan,
        MarkerPreset::Underscore,
        MarkerPreset::Dollar,
        MarkerPreset::Hash,
        MarkerPreset::Chevron,
        MarkerPreset::Arrow,
        MarkerPreset::Play,
    ];

    /// The text this preset shows.
    pub fn as_text(self) -> (r: &'static str)
        ensures
            r@ == preset_text(self),
    {
        match self {
            MarkerPreset::GreaterThan => {
                proof { reveal_strlit(">"); }
                ">"
            },
            MarkerPreset::Underscore => {
                proof { reveal_strlit("_"); }
                "_"
            },
            MarkerPreset::Dollar => {
                proof { reveal_strlit("$"); }
                "$"
            },
            MarkerPreset::Hash => {
                proof { reveal_strlit("#"); }
                "#"
            },
            MarkerPreset::Chevron => {
                proof { reveal_strlit("\u{276f}"); }
                "\u{276f}"
            },
            MarkerPreset::Arrow => {
                proof { reveal_strlit("\u{279c}"); }
                "\u{279c}"
            },
            MarkerPreset::Play => {
                proof { reveal_strlit("\u{25b6}"); }
                "\u{25b6}"
            },
        }
    }
}

/// What a marker is made of.
#[derive(Debug, Clone, Copy, PartialEq, Eq, Structural)]
pub enum MarkerKind {
    Preset,
    CustomText,
    ImagePath,
    GifPath,
}

/// The prompt marker: a preset, a text of the user's, or a picture.
#[derive(Debug, Clone, PartialEq, Eq)]
pub enum Marker {
    Preset(MarkerPreset),
    CustomText(String),
    ImagePath(String),
    GifPath(String),
}

/// The kind of a marker.
pub open spec fn kind_of(m: Marker) -> MarkerKind {
    match m {
        Marker::Preset(_) => MarkerKind::Preset,
        Marker::CustomText(_) => MarkerKind::CustomText,
        Marker::ImagePath(_) => MarkerKind::ImagePath,
        Marker::GifPath(_) => MarkerKind::GifPath,
    }
}

/// The text a marker shows in a terminal: a picture shows as `_`.
pub open spec fn marker_text(m: Marker) -> Seq<char> {
    match m {
        Marker::Preset(p) => preset_text(p),
        Marker::CustomText(v) => v@,
        Marker::ImagePath(_) => seq!['_'],
        Marker::GifPath(_) => seq!['_'],
    }
}

/// The marker's value: the preset's text, the custom text or the path.
pub open spec fn marker_value(m: Marker) -> Seq<char> {
    match m {
        Marker::Preset(p) => preset_text(p),
        Marker::CustomText(v) => v@,
        Marker::ImagePath(v) => v@,
        Marker::GifPath(v) => v@,
    }
}

impl Default for Marker {
    /// The underscore preset.
    fn default() -> (r: Self)
        ensures
            r == Marker::Preset(MarkerPreset::Underscore),
    {
        Marker::Preset(MarkerPreset::Underscore)
    }
}

impl Marker {
    /// A preset marker.
    pub fn preset(preset: MarkerPreset) -> (r: Self)
        ensures
            r == Marker::Preset(preset),
    {
        Marker::Preset(preset)
    }

    /// A marker showing `value`.
    pub fn custom_text(value: String) -> (r: Self)
        ensures
            r == Marker::CustomText(value),
    {
        Marker::CustomText(value)
    }

    /// A marker drawn from the image at `value`.
    pub fn image_path(value: String) -> (r: Self)
        ensures
            r == Marker::ImagePath(value),
    {
        Marker::ImagePath(value)
    }

    /// A marker drawn from the animation at `value`.
    pub fn gif_path(value: String) -> (r: Self)
        ensures
            r == Marker::GifPath(value),
    {
        Marker::GifPath(value)
    }

    /// What the marker is made of.
    pub fn kind(&self) -> (r: MarkerKind)
        ensures
            r == kind_of(*self),
    {
        match self {
            Marker::Preset(_) => MarkerKind::Preset,
            Marker::CustomText(_) => MarkerKind::CustomText,
            Marker::ImagePath(_) => MarkerKind::ImagePath,
            Marker::GifPath(_) => MarkerKind::GifPath,
        }
    }

    /// The text the marker shows in a terminal.
    pub fn as_text(&self) -> (r: &str)
        ensures
            r@ == marker_text(*self),
    {
        match self {
            Marker::Preset(p) => p.as_text(),
            Marker::CustomText(v) => v.as_str(),
            Marker::ImagePath(_) => {
                proof { reveal_strlit("_"); }
                "_"
            },
            Marker::GifPath(_) => {
                proof { reveal_strlit("_"); }
                "_"
            },
        }
    }

    /// The preset's text, the custom text or the path.
    pub fn value(&self) -> (r: &str)
        ensures
            r@ == marker_value(*self),
    {
        match self {
            Marker::Preset(p) => p.as_text(),
            Marker::CustomText(v) => v.as_str(),
            Marker::ImagePath(v) => v.as_str(),
            Marker::GifPath(v) => v.as_str(),
        }
    }

    /// The preset, when the marker is one.
    pub fn preset_value(&self) -> (r: Option<MarkerPreset>)
        ensures
            match *self {
                Marker::Preset(p) => r == Some(p),
                _ => r is None,
            },
    {
        match self {
            Marker::Preset(p) => Some(*p),
            _ => None,
        }
    }
}

} // verus!
