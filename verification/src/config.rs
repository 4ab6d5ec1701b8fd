//! What a crop is told to do: how lenient the comparison is, how the images
//! are cut, and how the output files are named.

use crate::pixel::{Leniency, DISTANCE_SCALE};
use vstd::prelude::*;

verus! {

/// Where an output file's name comes from.
#[derive(Clone, Copy, Debug, PartialEq, Eq, Structural)]
pub enum NameType {
    /// The name of the file the image was read from.
    Original,
    /// A name that the user supplied.
    Custom,
}

impl Default for NameType {
    fn default() -> (r: Self)
        ensures
            r == NameType::Original,
    {
        NameType::Original
    }
}

impl NameType {
    /// The name shown for this choice.
    pub fn name(&self) -> (r: &str)
        ensures
            r@ == match *self {
                NameType::Original => "Original Name"@,
                NameType::Custom => "Custom Name"@,
            },
    {
        match self {
            NameType::Original => "Original Name",
            NameType::Custom => "Custom Name",
        }
    }

    /// The explanation shown for this choice.
    pub fn tooltip(&self) -> (r: &str)
        ensures
            r@ == match *self {
                NameType::Original => "Use the original input file's name."@,
                NameType::Custom => "Use a user supplied file name."@,
            },
    {
        match self {
            NameType::Original => "Use the original input file's name.",
            NameType::Custom => "Use a user supplied file name.",
        }
    }
}

/// How the images are cut down to the difference.
#[derive(Clone, Copy, Debug, PartialEq, Eq, Structural)]
pub enum CropType {
    /// Keep the rectangle that encloses every difference.
    Rectangle,
    /// Keep only the pixels that differ.
    Exact,
}

impl Default for CropType {
    fn default() -> (r: Self)
        ensures
            r == CropType::Exact,
    {
        CropType::Exact
    }
}

impl CropType {
    /// The name shown for this choice.
    pub fn name(&self) -> (r: &str)
        ensures
            r@ == match *self {
                CropType::Rectangle => "Rectangle"@,
                CropType::Exact => "Exact Difference"@,
            },
    {
        match self {
            CropType::Rectangle => "Rectangle",
            CropType::Exact => "Exact Difference",
        }
    }

    /// The explanation shown for this choice.
    pub fn tooltip(&self) -> (r: &str)
        ensures
            r@ == match *self {
                CropType::Rectangle => "Crops out same space in\nall but the background image."@,
                CropType::Exact => "Cuts out exact pixels.\nSlower, but snaller. Recommended."@,
            },
    {
        match self {
            CropType::Rectangle => "Crops out same space in\nall but the background image.",
            CropType::Exact => "Cuts out exact pixels.\nSlower, but snaller. Recommended.",
        }
    }
}

/// How one group of output files is named: the kind of name, and the custom
/// name, which is kept also while the kind is `Original`.
#[derive(Debug)]
pub struct FileName {
    pub name_type: NameType,
    pub name: String,
}

impl Default for FileName {
    fn default() -> (r: Self)
        ensures
            r.name_type == NameType::Original,
            r.name@ == "name"@,
    {
        Self { name_type: NameType::Original, name: String::from_str("name") }
    }
}

/// Everything a crop needs to know besides the images.
#[derive(Debug)]
pub struct Config {
    /// How much a pixel may differ from the background and still count as
    /// the same.
    pub leniency: Leniency,
    /// Whether the output is cut down to the bounding rectangle, or keeps
    /// the size of the input with the rest made transparent.
    pub resize_output: bool,
    pub crop_type: CropType,
    /// The naming of the background image's output file.
    pub bg_name: FileName,
    /// The naming of the other images' output files.
    pub file_name: FileName,
}

impl Default for Config {
    fn default() -> (r: Self)
        ensures
            r.leniency.limit == 0,
            !r.resize_output,
            r.crop_type == CropType::Exact,
            r.bg_name.name_type == NameType::Original,
            r.bg_name.name@ == "name"@,
            r.file_name.name_type == NameType::Original,
            r.file_name.name@ == "name"@,
    {
        Self {
            leniency: Leniency::new(0),
            resize_output: false,
            crop_type: CropType::Exact,
            bg_name: FileName::default(),
            file_name: FileName::default(),
        }
    }
}

/// Which of the two groups of output files is meant.
#[derive(Clone, Copy, Debug, PartialEq, Eq, Structural)]
pub enum SelectorType {
    /// The background image.
    Background,
    /// Every other image.
    Images,
}

impl SelectorType {
    /// The identifier of the control that edits this group's naming.
    pub fn id(&self) -> (r: &str)
        ensures
            r@ == match *self {
                SelectorType::Background => "bg_name_selector"@,
                SelectorType::Images => "file_name_selector"@,
            },
    {
        match self {
            SelectorType::Background => "bg_name_selector",
            SelectorType::Images => "file_name_selector",
        }
    }

    /// This group's naming, of the two that `config` holds.
    pub open spec fn of(self, config: Config) -> FileName {
        match self {
            SelectorType::Background => config.bg_name,
            SelectorType::Images => config.file_name,
        }
    }

    /// The kind of name this group uses, for reading and changing.
    pub fn name_type<'a>(&self, config: &'a mut Config) -> (r: &'a mut NameType)
        ensures
            *r == self.of(*old(config)).name_type,
            *final(config) == match *self {
                SelectorType::Background => Config {
                    bg_name: FileName { name_type: *final(r), ..old(config).bg_name },
                    ..*old(config)
                },
                SelectorType::Images => Config {
                    file_name: FileName { name_type: *final(r), ..old(config).file_name },
                    ..*old(config)
                },
            },
    {
        match self {
            SelectorType::Background => &mut config.bg_name.name_type,
            SelectorType::Images => &mut config.file_name.name_type,
        }
    }

    /// The custom name of this group, for reading and changing.
    pub fn name<'a>(&self, config: &'a mut Config) -> (r: &'a mut String)
        ensures
            *r == self.of(*old(config)).name,
            *final(config) == match *self {
                SelectorType::Background => Config {
                    bg_name: FileName { name: *final(r), ..old(config).bg_name },
                    ..*old(config)
                },
                SelectorType::Images => Config {
                    file_name: FileName { name: *final(r), ..old(config).file_name },
                    ..*old(config)
                },
            },
    {
        match self {
            SelectorType::Background => &mut config.bg_name.name,
            SelectorType::Images => &mut config.file_name.name,
        }
    }
}

} // verus!
