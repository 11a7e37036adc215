//! The filters of a search. Each is a choice among a few values, and each
//! value but `Any` stands for one parameter of the search address.

use vstd::prelude::*;
use vstd::string::*;

verus! {

/// The colour that the images are filtered by.
#[derive(Debug, Clone, Copy)]
pub enum Color {
    Any,
    Red,
    Orange,
    Yellow,
    Green,
    Teal,
    Blue,
    Purple,
    Pink,
    White,
    Gray,
    Black,
    Brown,
}

impl Color {
    /// The parameter that this value stands for; empty for `Any`.
    pub open spec fn param_spec(self) -> Seq<char> {
        match self {
            Color::Any => ""@,
            Color::Red => "isc:red"@,
            Color::Orange => "isc:orange"@,
            Color::Yellow => "isc:yellow"@,
            Color::Green => "isc:green"@,
            Color::Teal => "isc:teal"@,
            Color::Blue => "isc:blue"@,
            Color::Purple => "isc:purple"@,
            Color::Pink => "isc:pink"@,
            Color::White => "isc:white"@,
            Color::Gray => "isc:gray"@,
            Color::Black => "isc:black"@,
            Color::Brown => "isc:brown"@,
        }
    }

    /// The parameter that this value stands for; empty for `Any`.
    pub fn param(&self) -> (text: String)
        ensures
            text@ == self.param_spec(),
    {
        String::from_str(
            match self {
                Color::Any => "",
                Color::Red => "isc:red",
                Color::Orange => "isc:orange",
                Color::Yellow => "isc:yellow",
                Color::Green => "isc:green",
                Color::Teal => "isc:teal",
                Color::Blue => "isc:blue",
                Color::Purple => "isc:purple",
                Color::Pink => "isc:pink",
                Color::White => "isc:white",
                Color::Gray => "isc:gray",
                Color::Black => "isc:black",
                Color::Brown => "isc:brown",
            },
        )
    }
}

/// The kind of colouring that the images are filtered by.
#[derive(Debug, Clone, Copy)]
pub enum ColorType {
    Any,
    Color,
    Grayscale,
    Transparent,
}

impl ColorType {
    /// The parameter that this value stands for; empty for `Any`.
    pub open spec fn param_spec(self) -> Seq<char> {
        match self {
            ColorType::Any => ""@,
            ColorType::Color => "ic:full"@,
            ColorType::Grayscale => "ic:gray"@,
            ColorType::Transparent => "ic:trans"@,
        }
    }

    /// The parameter that this value stands for; empty for `Any`.
    pub fn param(&self) -> (text: String)
        ensures
            text@ == self.param_spec(),
    {
        String::from_str(
            match self {
                ColorType::Any => "",
                ColorType::Color => "ic:full",
                ColorType::Grayscale => "ic:gray",
                ColorType::Transparent => "ic:trans",
            },
        )
    }
}

/// The licence that the images are filtered by.
#[derive(Debug, Clone, Copy)]
pub enum License {
    Any,
    CreativeCommons,
    Other,
}

impl License {
    /// The parameter that this value stands for; empty for `Any`.
    pub open spec fn param_spec(self) -> Seq<char> {
        match self {
            License::Any => ""@,
            License::CreativeCommons => "il:cl"@,
            License::Other => "il:ol"@,
        }
    }

    /// The parameter that this value stands for; empty for `Any`.
    pub fn param(&self) -> (text: String)
        ensures
            text@ == self.param_spec(),
    {
        String::from_str(
            match self {
                License::Any => "",
                License::CreativeCommons => "il:cl",
                License::Other => "il:ol",
            },
        )
    }
}

/// The kind of image that the images are filtered by.
#[derive(Debug, Clone, Copy)]
pub enum ImageType {
    Any,
    Face,
    Photo,
    Clipart,
    Lineart,
    Animated,
}

impl ImageType {
    /// The parameter that this value stands for; empty for `Any`.
    pub open spec fn param_spec(self) -> Seq<char> {
        match self {
            ImageType::Any => ""@,
            ImageType::Face => "itp:face"@,
            ImageType::Photo => "itp:photo"@,
            ImageType::Clipart => "itp:clipart"@,
            ImageType::Lineart => "itp:lineart"@,
            ImageType::Animated => "itp:animated"@,
        }
    }

    /// The parameter that this value stands for; empty for `Any`.
    pub fn param(&self) -> (text: String)
        ensures
            text@ == self.param_spec(),
    {
        String::from_str(
            match self {
                ImageType::Any => "",
                ImageType::Face => "itp:face",
                ImageType::Photo => "itp:photo",
                ImageType::Clipart => "itp:clipart",
                ImageType::Lineart => "itp:lineart",
                ImageType::Animated => "itp:animated",
            },
        )
    }
}

/// How long ago the images may have been posted.
#[derive(Debug, Clone, Copy)]
pub enum Time {
    Any,
    Day,
    Week,
    Month,
    Year,
}

impl Time {
    /// The parameter that this value stands for; empty for `Any`.
    pub open spec fn param_spec(self) -> Seq<char> {
        match self {
            Time::Any => ""@,
            Time::Day => "qdr:d"@,
            Time::Week => "qdr:w"@,
            Time::Month => "qdr:m"@,
            Time::Year => "qdr:y"@,
        }
    }

    /// The parameter that this value stands for; empty for `Any`.
    pub fn param(&self) -> (text: String)
        ensures
            text@ == self.param_spec(),
    {
        String::from_str(
            match self {
                Time::Any => "",
                Time::Day => "qdr:d",
                Time::Week => "qdr:w",
                Time::Month => "qdr:m",
                Time::Year => "qdr:y",
            },
        )
    }
}

/// The rough aspect ratio that the images are filtered by.
#[derive(Debug, Clone, Copy)]
pub enum Ratio {
    Any,
    Tall,
    Square,
    Wide,
    Panoramic,
}

impl Ratio {
    /// The parameter that this value stands for; empty for `Any`.
    pub open spec fn param_spec(self) -> Seq<char> {
        match self {
            Ratio::Any => ""@,
            Ratio::Tall => "iar:t"@,
            Ratio::Square => "iar:s"@,
            Ratio::Wide => "iar:w"@,
            Ratio::Panoramic => "iar:xw"@,
        }
    }

    /// The parameter that this value stands for; empty for `Any`.
    pub fn param(&self) -> (text: String)
        ensures
            text@ == self.param_spec(),
    {
        String::from_str(
            match self {
                Ratio::Any => "",
                Ratio::Tall => "iar:t",
                Ratio::Square => "iar:s",
                Ratio::Wide => "iar:w",
                Ratio::Panoramic => "iar:xw",
            },
        )
    }
}

/// The file format that the images are filtered by.
#[derive(Debug, Clone, Copy)]
pub enum Format {
    Any,
    Jpg,
    Gif,
    Png,
    Bmp,
    Svg,
    Webp,
    Ico,
    Raw,
}

impl Format {
    /// The parameter that this value stands for; empty for `Any`.
    pub open spec fn param_spec(self) -> Seq<char> {
        match self {
            Format::Any => ""@,
            Format::Jpg => "ift:jpg"@,
            Format::Gif => "ift:gif"@,
            Format::Png => "ift:png"@,
            Format::Bmp => "ift:bmp"@,
            Format::Svg => "ift:svg"@,
            Format::Webp => "ift:webp"@,
            Format::Ico => "ift:ico"@,
            Format::Raw => "ift:raw"@,
        }
    }

    /// The parameter that this value stands for; empty for `Any`.
    pub fn param(&self) -> (text: String)
        ensures
            text@ == self.param_spec(),
    {
        String::from_str(
            match self {
                Format::Any => "",
                Format::Jpg => "ift:jpg",
                Format::Gif => "ift:gif",
                Format::Png => "ift:png",
                Format::Bmp => "ift:bmp",
                Format::Svg => "ift:svg",
                Format::Webp => "ift:webp",
                Format::Ico => "ift:ico",
                Format::Raw => "ift:raw",
            },
        )
    }
}

} // verus!
