use vstd::prelude::*;
use crate::text::str_eq;
use crate::property_map::PropertyMap;

verus! {

/// The kinds of data mapping a plot area can draw.
#[derive(Debug, Clone, Copy, PartialEq, Eq, Structural)]
pub enum MappingType {
    Line,
    Scatter,
    Bar,
    Area,
    Surface,
    Text,
}

/// The name under which each mapping kind is written in a layout.
pub open spec fn mapping_name(t: MappingType) -> Seq<char> {
    match t {
        MappingType::Line => "line"@,
        MappingType::Scatter => "scatter"@,
        MappingType::Bar => "bar"@,
        MappingType::Area => "area"@,
        MappingType::Surface => "surface"@,
        MappingType::Text => "text"@,
    }
}

/// The mapping kind named `s`, if any.
pub open spec fn mapping_of(s: Seq<char>) -> Option<MappingType> {
    if s == "line"@ {
        Some(MappingType::Line)
    } else if s == "scatter"@ {
        Some(MappingType::Scatter)
    } else if s == "bar"@ {
        Some(MappingType::Bar)
    } else if s == "area"@ {
        Some(MappingType::Area)
    } else if s == "surface"@ {
        Some(MappingType::Surface)
    } else if s == "text"@ {
        Some(MappingType::Text)
    } else {
        None
    }
}

/// The properties every mapping has, with their defaults.
pub open spec fn common_properties() -> Map<Seq<char>, Seq<char>> {
    Map::empty()
        .insert("color"@, "#000000"@)
        .insert("x"@, "None"@)
        .insert("y"@, "None"@)
        .insert("source"@, "None"@)
}

/// The default (non-data) properties of a mapping kind.
pub open spec fn default_properties(t: MappingType) -> Map<Seq<char>, Seq<char>> {
    let base = common_properties();
    match t {
        MappingType::Line => base.insert("width"@, "1"@).insert("dash"@, "1"@),
        MappingType::Scatter => base.insert("radius"@, "1"@),
        MappingType::Bar => base
            .insert("center_anchor"@, "false"@)
            .insert("horizontal"@, "false"@)
            .insert("width"@, "None"@)
            .insert("height"@, "None"@)
            .insert("bar_width"@, "1"@)
            .insert("origin_x"@, "0"@)
            .insert("origin_y"@, "0"@)
            .insert("bar_spacing"@, "1"@),
        MappingType::Area => base.insert("ymax"@, "None"@).insert("opacity"@, "1.0"@),
        MappingType::Surface => base
            .insert("z"@, "None"@)
            .insert("final_color"@, "#ffffff"@)
            .insert("z_min"@, "0.0"@)
            .insert("z_max"@, "1.0"@)
            .insert("opacity"@, "1.0"@),
        MappingType::Text => base
            .insert("font"@, "Monospace Regular 12"@)
            .insert("text"@, "None"@),
    }
}

fn put(m: &mut PropertyMap, k: &str, v: &str)
    requires
        old(m).wf(),
    ensures
        final(m).wf(),
        final(m)@ == old(m)@.insert(k@, v@),
{
    m.insert(k.to_owned(), v.to_owned());
}

impl MappingType {
    /// The mapping kind named `name` (`line`, `scatter`, `bar`, `area`, `surface`, `text`).
    pub fn from_str(name: &str) -> (r: Option<MappingType>)
        ensures
            r == mapping_of(name@),
    {
        if str_eq(name, "line") {
            Some(MappingType::Line)
        } else if str_eq(name, "scatter") {
            Some(MappingType::Scatter)
        } else if str_eq(name, "bar") {
            Some(MappingType::Bar)
        } else if str_eq(name, "area") {
            Some(MappingType::Area)
        } else if str_eq(name, "surface") {
            Some(MappingType::Surface)
        } else if str_eq(name, "text") {
            Some(MappingType::Text)
        } else {
            None
        }
    }

    /// The default property map of this mapping kind: the reference for which
    /// non-data properties a mapping of this kind has.
    pub fn default_hash(&self) -> (m: PropertyMap)
        ensures
            m.wf(),
            m@ == default_properties(*self),
    {
        let mut m = PropertyMap::new();
        put(&mut m, "color", "#000000");
        put(&mut m, "x", "None");
        put(&mut m, "y", "None");
        put(&mut m, "source", "None");
        match self {
            MappingType::Line => {
                put(&mut m, "width", "1");
                put(&mut m, "dash", "1");
            },
            MappingType::Scatter => {
                put(&mut m, "radius", "1");
            },
            MappingType::Bar => {
                put(&mut m, "center_anchor", "false");
                put(&mut m, "horizontal", "false");
                put(&mut m, "width", "None");
                put(&mut m, "height", "None");
                put(&mut m, "bar_width", "1");
                put(&mut m, "origin_x", "0");
                put(&mut m, "origin_y", "0");
                put(&mut m, "bar_spacing", "1");
            },
            MappingType::Area => {
                put(&mut m, "ymax", "None");
                put(&mut m, "opacity", "1.0");
            },
            MappingType::Surface => {
                put(&mut m, "z", "None");
                put(&mut m, "final_color", "#ffffff");
                put(&mut m, "z_min", "0.0");
                put(&mut m, "z_max", "1.0");
                put(&mut m, "opacity", "1.0");
            },
            MappingType::Text => {
                put(&mut m, "font", "Monospace Regular 12");
                put(&mut m, "text", "None");
            },
        }
        m
    }
}

/// Reading back the name of a mapping kind gives the same kind.
pub proof fn lemma_mapping_name_roundtrip(t: MappingType)
    ensures
        mapping_of(mapping_name(t)) == Some(t),
{
    reveal_strlit("line");
    assert("line"@[0] == 'l' && "line"@[1] == 'i');
    reveal_strlit("scatter");
    assert("scatter"@[0] == 's' && "scatter"@[1] == 'c');
    reveal_strlit("bar");
    assert("bar"@[0] == 'b' && "bar"@[1] == 'a');
    reveal_strlit("area");
    assert("area"@[0] == 'a' && "area"@[1] == 'r');
    reveal_strlit("surface");
    assert("surface"@[0] == 's' && "surface"@[1] == 'u');
    reveal_strlit("text");
    assert("text"@[0] == 't' && "text"@[1] == 'e');
}

/// Every mapping kind has a color, two data columns and a data source among its
/// default properties, with the common defaults.
pub proof fn lemma_defaults_hold_common(t: MappingType)
    ensures
        default_properties(t).contains_key("color"@),
        default_properties(t)["color"@] == "#000000"@,
        default_properties(t).contains_key("x"@),
        default_properties(t)["x"@] == "None"@,
        default_properties(t).contains_key("y"@),
        default_properties(t)["y"@] == "None"@,
        default_properties(t).contains_key("source"@),
        default_properties(t)["source"@] == "None"@,
{
    reveal_strlit("color");
    assert("color"@[0] == 'c' && "color"@.len() == 5);
    reveal_strlit("x");
    assert("x"@[0] == 'x' && "x"@.len() == 1);
    reveal_strlit("y");
    assert("y"@[0] == 'y' && "y"@.len() == 1);
    reveal_strlit("source");
    assert("source"@[0] == 's' && "source"@.len() == 6);
    reveal_strlit("width");
    assert("width"@[0] == 'w' && "width"@.len() == 5);
    reveal_strlit("dash");
    assert("dash"@[0] == 'd' && "dash"@.len() == 4);
    reveal_strlit("radius");
    assert("radius"@[0] == 'r' && "radius"@.len() == 6);
    reveal_strlit("center_anchor");
    assert("center_anchor"@[0] == 'c' && "center_anchor"@.len() == 13);
    reveal_strlit("horizontal");
    assert("horizontal"@[0] == 'h' && "horizontal"@.len() == 10);
    reveal_strlit("height");
    assert("height"@[0] == 'h' && "height"@.len() == 6);
    reveal_strlit("bar_width");
    assert("bar_width"@[0] == 'b' && "bar_width"@.len() == 9);
    reveal_strlit("origin_x");
    assert("origin_x"@[0] == 'o' && "origin_x"@.len() == 8);
    reveal_strlit("origin_y");
    assert("origin_y"@[0] == 'o' && "origin_y"@.len() == 8);
    reveal_strlit("bar_spacing");
    assert("bar_spacing"@[0] == 'b' && "bar_spacing"@.len() == 11);
    reveal_strlit("ymax");
    assert("ymax"@[0] == 'y' && "ymax"@.len() == 4);
    reveal_strlit("opacity");
    assert("opacity"@[0] == 'o' && "opacity"@.len() == 7);
    reveal_strlit("z");
    assert("z"@[0] == 'z' && "z"@.len() == 1);
    reveal_strlit("final_color");
    assert("final_color"@[0] == 'f' && "final_color"@.len() == 11);
    reveal_strlit("z_min");
    assert("z_min"@[0] == 'z' && "z_min"@.len() == 5);
    reveal_strlit("z_max");
    assert("z_max"@[0] == 'z' && "z_max"@.len() == 5);
    reveal_strlit("font");
    assert("font"@[0] == 'f' && "font"@.len() == 4);
    reveal_strlit("text");
    assert("text"@[0] == 't' && "text"@.len() == 4);
}

} // verus!
