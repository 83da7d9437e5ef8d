//! The property cells every node shares: identity, position, size, anchor,
//! scale, skew, rotation and transform, each an independently bindable value
//! cell; plus the identifier table the compiler consults when it parses
//! element attributes.

use vstd::prelude::*;
use crate::property::Property;
use crate::size::{Rotation, Size};
use crate::transform::Transform2D;

verus! {

/// One entry of the shared-property table: name, type, and whether the
/// property may be omitted at the use site.
#[derive(Clone)]
pub struct CommonProperty {
    pub name: String,
    pub property_type: String,
    pub optional: bool,
}

/// The cells shared by all rendered nodes.
pub struct CommonProperties {
    pub id: Property<Option<String>>,
    pub x: Property<Option<Size>>,
    pub y: Property<Option<Size>>,
    pub width: Property<Option<Size>>,
    pub height: Property<Option<Size>>,
    pub anchor_x: Property<Option<Size>>,
    pub anchor_y: Property<Option<Size>>,
    pub scale_x: Property<Option<Size>>,
    pub scale_y: Property<Option<Size>>,
    pub skew_x: Property<Option<Rotation>>,
    pub skew_y: Property<Option<Rotation>>,
    pub rotate: Property<Option<Rotation>>,
    pub transform: Property<Option<Transform2D>>,
}

impl CommonProperties {
    /// All cells hold values admitted to interpolation.
    pub open spec fn wf(self) -> bool {
        &&& self.id.wf()
        &&& self.x.wf()
        &&& self.y.wf()
        &&& self.width.wf()
        &&& self.height.wf()
        &&& self.anchor_x.wf()
        &&& self.anchor_y.wf()
        &&& self.scale_x.wf()
        &&& self.scale_y.wf()
        &&& self.skew_x.wf()
        &&& self.skew_y.wf()
        &&& self.rotate.wf()
        &&& self.transform.wf()
    }

    /// Every cell unset: no value, no binding, no transition.
    pub open spec fn is_unset(self) -> bool {
        &&& self.id.value is None && !self.id.has_transition() && self.id.expression_id is None
        &&& self.x.value is None
        &&& self.y.value is None
        &&& self.width.value is None
        &&& self.height.value is None
        &&& self.anchor_x.value is None
        &&& self.anchor_y.value is None
        &&& self.scale_x.value is None
        &&& self.scale_y.value is None
        &&& self.skew_x.value is None
        &&& self.skew_y.value is None
        &&& self.rotate.value is None
        &&& self.transform.value is None
    }
}

impl Default for CommonProperties {
    fn default() -> (r: Self)
        ensures
            r.wf(),
            r.is_unset(),
    {
        CommonProperties {
            id: Property::new(Option::None),
            x: Property::new(Option::None),
            y: Property::new(Option::None),
            width: Property::new(Option::None),
            height: Property::new(Option::None),
            anchor_x: Property::new(Option::None),
            anchor_y: Property::new(Option::None),
            scale_x: Property::new(Option::None),
            scale_y: Property::new(Option::None),
            skew_x: Property::new(Option::None),
            skew_y: Property::new(Option::None),
            rotate: Property::new(Option::None),
            transform: Property::new(Option::None),
        }
    }
}

impl CommonProperties {
    /// The shared property identifiers, each with its type: the table the
    /// compiler special-cases when parsing element attributes.
    pub fn get_property_identifiers() -> (r: Vec<(String, String)>)
        ensures
            r@.len() == 13,
            r@[0].0@ == "id"@ && r@[0].1@ == "Option<String>"@,
            r@[1].0@ == "x"@ && r@[1].1@ == "Option<Size>"@,
            r@[2].0@ == "y"@ && r@[2].1@ == "Option<Size>"@,
            r@[3].0@ == "width"@ && r@[3].1@ == "Option<Size>"@,
            r@[4].0@ == "height"@ && r@[4].1@ == "Option<Size>"@,
            r@[5].0@ == "anchor_x"@ && r@[5].1@ == "Option<Size>"@,
            r@[6].0@ == "anchor_y"@ && r@[6].1@ == "Option<Size>"@,
            r@[7].0@ == "scale_x"@ && r@[7].1@ == "Option<Size>"@,
            r@[8].0@ == "scale_y"@ && r@[8].1@ == "Option<Size>"@,
            r@[9].0@ == "skew_x"@ && r@[9].1@ == "Option<Rotation>"@,
            r@[10].0@ == "skew_y"@ && r@[10].1@ == "Option<Rotation>"@,
            r@[11].0@ == "rotate"@ && r@[11].1@ == "Option<Rotation>"@,
            r@[12].0@ == "transform"@ && r@[12].1@ == "Option<Transform2D>"@,
    {
        let mut r: Vec<(String, String)> = Vec::new();
        r.push((String::from_str("id"), String::from_str("Option<String>")));
        r.push((String::from_str("x"), String::from_str("Option<Size>")));
        r.push((String::from_str("y"), String::from_str("Option<Size>")));
        r.push((String::from_str("width"), String::from_str("Option<Size>")));
        r.push((String::from_str("height"), String::from_str("Option<Size>")));
        r.push((String::from_str("anchor_x"), String::from_str("Option<Size>")));
        r.push((String::from_str("anchor_y"), String::from_str("Option<Size>")));
        r.push((String::from_str("scale_x"), String::from_str("Option<Size>")));
        r.push((String::from_str("scale_y"), String::from_str("Option<Size>")));
        r.push((String::from_str("skew_x"), String::from_str("Option<Rotation>")));
        r.push((String::from_str("skew_y"), String::from_str("Option<Rotation>")));
        r.push((String::from_str("rotate"), String::from_str("Option<Rotation>")));
        r.push((String::from_str("transform"), String::from_str("Option<Transform2D>")));
        r
    }

    /// The default-value literal the code generator writes for each shared
    /// property: transforms get their wrapped default, everything else the
    /// plain default.
    pub fn get_default_properties_literal() -> (r: Vec<(String, String)>)
        ensures
            r@.len() == 13,
            forall|i: int|
                0 <= i < 12 ==> (#[trigger] r@[i]).1@ == "Default::default()"@,
            r@[12].0@ == "transform"@,
            r@[12].1@ == "Transform2D::default_wrapped()"@,
            forall|i: int|
                0 <= i < 13 ==> (#[trigger] r@[i]).0@ == Self::identifier_names()[i],
    {
        let names = Self::get_property_identifiers();
        let mut r: Vec<(String, String)> = Vec::new();
        let mut i: usize = 0;
        while i < 12
            invariant
                i <= 12,
                names@.len() == 13,
                r@.len() == i,
                forall|j: int| 0 <= j < i ==> (#[trigger] r@[j]).1@ == "Default::default()"@,
                forall|j: int|
                    0 <= j < i ==> (#[trigger] r@[j]).0@ == Self::identifier_names()[j],
                forall|j: int|
                    0 <= j < 13 ==> (#[trigger] names@[j]).0@ == Self::identifier_names()[j],
            decreases 12 - i,
        {
            let name: String = names[i].0.clone();
            proof {
                assert(name@ == names@[i as int].0@);
            }
            r.push((name, String::from_str("Default::default()")));
            i = i + 1;
        }
        r.push((String::from_str("transform"), String::from_str("Transform2D::default_wrapped()")));
        r
    }

    /// The identifier names, as the spec-level table.
    pub open spec fn identifier_names() -> Seq<Seq<char>> {
        seq![
            "id"@,
            "x"@,
            "y"@,
            "width"@,
            "height"@,
            "anchor_x"@,
            "anchor_y"@,
            "scale_x"@,
            "scale_y"@,
            "skew_x"@,
            "skew_y"@,
            "rotate"@,
            "transform"@,
        ]
    }

    /// The shared properties as table entries; only `transform`, `width` and
    /// `height` may be omitted at a use site.
    pub fn get_as_common_property() -> (r: Vec<CommonProperty>)
        ensures
            r@.len() == 13,
            forall|i: int|
                0 <= i < 13 ==> (#[trigger] r@[i]).name@ == Self::identifier_names()[i],
            forall|i: int|
                0 <= i < 13 ==> ((#[trigger] r@[i]).optional <==> (i == 3 || i == 4 || i == 12)),
    {
        let names = Self::get_property_identifiers();
        let mut r: Vec<CommonProperty> = Vec::new();
        let mut i: usize = 0;
        while i < 13
            invariant
                i <= 13,
                names@.len() == 13,
                r@.len() == i,
                forall|j: int|
                    0 <= j < i ==> (#[trigger] r@[j]).name@ == Self::identifier_names()[j],
                forall|j: int|
                    0 <= j < i ==> ((#[trigger] r@[j]).optional <==> (j == 3 || j == 4 || j
                        == 12)),
                forall|j: int|
                    0 <= j < 13 ==> (#[trigger] names@[j]).0@ == Self::identifier_names()[j],
            decreases 13 - i,
        {
            let entry = CommonProperty {
                name: names[i].0.clone(),
                property_type: names[i].1.clone(),
                optional: i == 3 || i == 4 || i == 12,
            };
            r.push(entry);
            i = i + 1;
        }
        r
    }
}

} // verus!
