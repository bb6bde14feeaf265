use vstd::prelude::*;

verus! {

/// All possible dye colors.
#[derive(Clone, Copy, Debug, Hash, PartialEq, Eq, Structural, PartialOrd, Ord)]
pub enum DyeColor {
    White,
    LightGray,
    Gray,
    Black,
    Brown,
    Red,
    Orange,
    Yellow,
    Lime,
    Green,
    Cyan,
    LightBlue,
    Blue,
    Purple,
    Magenta,
    Pink,
}

/// The snake-case name of a dye color, as configuration files and output names write it.
pub open spec fn dye_color_name(c: DyeColor) -> Seq<char> {
    match c {
        DyeColor::White => "white"@,
        DyeColor::LightGray => "light_gray"@,
        DyeColor::Gray => "gray"@,
        DyeColor::Black => "black"@,
        DyeColor::Brown => "brown"@,
        DyeColor::Red => "red"@,
        DyeColor::Orange => "orange"@,
        DyeColor::Yellow => "yellow"@,
        DyeColor::Lime => "lime"@,
        DyeColor::Green => "green"@,
        DyeColor::Cyan => "cyan"@,
        DyeColor::LightBlue => "light_blue"@,
        DyeColor::Blue => "blue"@,
        DyeColor::Purple => "purple"@,
        DyeColor::Magenta => "magenta"@,
        DyeColor::Pink => "pink"@,
    }
}

impl DyeColor {
    /// The color's snake-case name.
    pub fn name(&self) -> (r: &'static str)
        ensures
            r@ == dye_color_name(*self),
    {
        match self {
            DyeColor::White => "white",
            DyeColor::LightGray => "light_gray",
            DyeColor::Gray => "gray",
            DyeColor::Black => "black",
            DyeColor::Brown => "brown",
            DyeColor::Red => "red",
            DyeColor::Orange => "orange",
            DyeColor::Yellow => "yellow",
            DyeColor::Lime => "lime",
            DyeColor::Green => "green",
            DyeColor::Cyan => "cyan",
            DyeColor::LightBlue => "light_blue",
            DyeColor::Blue => "blue",
            DyeColor::Purple => "purple",
            DyeColor::Magenta => "magenta",
            DyeColor::Pink => "pink",
        }
    }
}

/// The type of a filter.
#[derive(Clone, Copy, Debug, Hash, PartialEq, Eq, Structural, PartialOrd, Ord)]
pub enum FilterType {
    /// Applied to individual pixels.
    Pixel,
    /// Applied to the whole image.
    Image,
}

/// The target value of a filter.
#[derive(Clone, Copy, Debug, Hash, PartialEq, Eq, Structural, PartialOrd, Ord)]
pub enum FilterTarget {
    /// The hue of the color or image.
    Hue,
    /// The saturation of the color or image.
    Saturation,
    /// The brightness (HSV value) of the color or image.
    Brightness,
    /// The contrast of the image. Has no meaning for single pixels.
    Contrast,
}

/// Describes how to apply a filter's value.
#[derive(Clone, Copy, Debug, Hash, PartialEq, Eq, Structural, PartialOrd, Ord)]
pub enum FilterOperation {
    /// The value is added to the base value.
    Add,
    /// The base value is multiplied by the value.
    Multiply,
    /// The value replaces the base value (written `set` in configuration files).
    Replace,
}

/// A color filter.
///
/// `value` is fixed point, in millionths: `1_000_000` stands for 1.0 (and, for hue
/// targets, for one degree).
#[derive(Clone, Copy, Debug, PartialEq, Eq, Structural)]
pub struct Filter {
    pub kind: FilterType,
    pub target: FilterTarget,
    pub operation: FilterOperation,
    pub value: i32,
}

/// Configuration for a single dye color: its base RGB components and its ordered filters.
#[derive(Clone, Debug)]
pub struct DyeColorConfig {
    pub rgb: [u8; 3],
    pub allow_alpha: bool,
    pub filters: Vec<Filter>,
}

/// The whole configuration: one entry per dye color.
#[derive(Clone, Debug)]
pub struct Config {
    pub colors: Vec<(DyeColor, DyeColorConfig)>,
}

impl Config {
    /// No dye color has two entries.
    pub open spec fn wf(&self) -> bool {
        forall|i: int, j: int|
            0 <= i < j < self.colors@.len() ==> self.colors@[i].0 != self.colors@[j].0
    }

    /// Whether the configuration holds an entry for `color`.
    pub open spec fn has(&self, color: DyeColor) -> bool {
        exists|i: int| 0 <= i < self.colors@.len() && self.colors@[i].0 == color
    }

    /// The entry for `color`, if there is one: the first one, which is the only one in a
    /// well-formed configuration.
    pub fn get(&self, color: DyeColor) -> (r: Option<&DyeColorConfig>)
        ensures
            r is None <==> !self.has(color),
            r matches Some(c) ==> exists|i: int|
                0 <= i < self.colors@.len() && self.colors@[i].0 == color && self.colors@[i].1
                    == *c && forall|j: int| 0 <= j < i ==> self.colors@[j].0 != color,
            self.wf() ==> (r matches Some(c) ==> forall|i: int|
                0 <= i < self.colors@.len() && self.colors@[i].0 == color ==> self.colors@[i].1
                    == *c),
    {
        let mut k: usize = 0;
        while k < self.colors.len()
            invariant
                k <= self.colors@.len(),
                forall|i: int| 0 <= i < k ==> self.colors@[i].0 != color,
            decreases self.colors@.len() - k,
        {
            if self.colors[k].0 == color {
                assert(self.wf() ==> forall|i: int|
                    0 <= i < self.colors@.len() && self.colors@[i].0 == color ==> i == k);
                return Some(&self.colors[k].1);
            }
            k = k + 1;
        }
        None
    }
}

} // verus!
